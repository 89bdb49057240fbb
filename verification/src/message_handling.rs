//! The consumer-side dispatch contract.
//!
//! Per-message dispatch needs, for every tag, a handler and a type-erased
//! destructor. Type-erased function pointers cannot be stated in verified
//! code, so the pair is expressed as a trait the consumer implements: the
//! queue calls `handle_message` for the handler and `drop_message` for the
//! destructor, in that order, exactly as a table of thunks would.
//!
//! The trait's ghost logs record every invocation, which is what the
//! transport's round-trip, ordering and exactly-once-drop guarantees are
//! stated over.

use vstd::prelude::*;

use crate::compressed_type_identifier::CompressedTypeIdentifier;

verus! {

/// One observable act of the dispatch table: a handler invocation or a
/// destructor invocation.
///
/// The single interleaved log of these events is what fixes the relative
/// order of the two: a frame's handler always runs before its destructor.
pub ghost enum DispatchEvent {
    /// The handler registered for the tag ran over the body's bytes, with
    /// the given outcome.
    Handled {
        /// The tag of the message's body type.
        compressed_type_identifier: u8,
        /// The body bytes the handler observed.
        message_body: Seq<u8>,
        /// Whether the handler succeeded.
        ok: bool,
    },
    /// The destructor registered for the tag destroyed the body.
    Dropped {
        /// The tag of the message's body type.
        compressed_type_identifier: u8,
        /// The body bytes that were destroyed.
        message_body: Seq<u8>,
    },
}

/// A consumer's dispatch table: routes a tag and a raw body to the handler
/// registered for the tag, and destroys bodies.
pub trait MessageDispatch {
    /// The error a handler may surface; it short-circuits the drain loop.
    type DequeuedMessageProcessingError;

    /// Every handler invocation so far: the tag, the body bytes handed over,
    /// and whether the handler succeeded.
    spec fn handled(&self) -> Seq<(u8, Seq<u8>, bool)>;

    /// Every destructor invocation so far: the tag and the body bytes
    /// destroyed.
    spec fn dropped(&self) -> Seq<(u8, Seq<u8>)>;

    /// Every invocation so far, handler and destructor alike, interleaved in
    /// the order they happened.
    spec fn events(&self) -> Seq<DispatchEvent>;

    /// Handles one message: the handler registered for the tag runs over the
    /// body's bytes.
    ///
    /// The implementation must log exactly this invocation and destroy
    /// nothing: destruction is the queue's duty, through `drop_message`.
    fn handle_message(
        &mut self,
        compressed_type_identifier: CompressedTypeIdentifier,
        message_body: &Vec<u8>,
    ) -> (r: Result<(), Self::DequeuedMessageProcessingError>)
        ensures
            final(self).handled() == old(self).handled().push(
                (
                    compressed_type_identifier.spec_index() as u8,
                    message_body@,
                    r is Ok,
                ),
            ),
            final(self).dropped() == old(self).dropped(),
            final(self).events() == old(self).events().push(
                (DispatchEvent::Handled {
                    compressed_type_identifier: compressed_type_identifier.spec_index() as u8,
                    message_body: message_body@,
                    ok: r is Ok,
                }),
            ),
    ;

    /// Destroys one message body: the type-erased destructor for the tag runs
    /// over the body's bytes.
    fn drop_message(
        &mut self,
        compressed_type_identifier: CompressedTypeIdentifier,
        message_body: &Vec<u8>,
    )
        ensures
            final(self).dropped() == old(self).dropped().push(
                (compressed_type_identifier.spec_index() as u8, message_body@),
            ),
            final(self).handled() == old(self).handled(),
            final(self).events() == old(self).events().push(
                (DispatchEvent::Dropped {
                    compressed_type_identifier: compressed_type_identifier.spec_index() as u8,
                    message_body: message_body@,
                }),
            ),
    ;
}

} // verus!
