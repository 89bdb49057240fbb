//! The contract a message body type declares.
//!
//! Bodies travel through the transport as bytes: `construct_message`
//! produces exactly the bytes that an in-place constructor would write into
//! the queue's shared memory, and the transport proves that the handler
//! later observes those bytes unchanged.

use vstd::prelude::*;

use crate::framing::valid_body_layout;

verus! {

/// An object that can be a message.
///
/// Messages are safely destroyed even if they still sit on a queue when the
/// queue is torn down.
pub trait Message {
    /// Data passed, by move, across threads to `construct_message`.
    type ConstructMessageArguments;

    /// The process-unique identifier of this body type, standing for the
    /// language's runtime type identifier: two body types in one process
    /// never share it.
    spec fn spec_type_identifier() -> u64;

    /// The body's size in bytes.
    spec fn spec_body_size() -> usize;

    /// The body's alignment in bytes.
    spec fn spec_body_alignment() -> usize;

    /// The bytes `construct_message` writes for the given arguments.
    spec fn spec_construct(construct_message_arguments: Self::ConstructMessageArguments) -> Seq<
        u8,
    >;

    /// The declared layout is one a body type can have: the alignment is a
    /// power of two the framing supports, and the size is a multiple of it.
    proof fn layout_is_valid()
        ensures
            valid_body_layout(
                Self::spec_body_size() as int,
                Self::spec_body_alignment() as int,
            ),
    ;

    /// The body type's process-unique identifier.
    fn type_identifier() -> (r: u64)
        ensures
            r == Self::spec_type_identifier(),
    ;

    /// The body's size in bytes.
    fn body_size() -> (r: usize)
        ensures
            r == Self::spec_body_size(),
    ;

    /// The body's alignment in bytes.
    fn body_alignment() -> (r: usize)
        ensures
            r == Self::spec_body_alignment(),
    ;

    /// Constructs a fully initialised message body from the arguments.
    ///
    /// This may run on a different thread from the handling.
    fn construct_message(construct_message_arguments: Self::ConstructMessageArguments) -> (r: Vec<
        u8,
    >)
        ensures
            r@ == Self::spec_construct(construct_message_arguments),
            r@.len() == Self::spec_body_size(),
    ;
}

} // verus!
