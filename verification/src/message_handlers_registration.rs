//! Registering a whole family of message handlers at once.

use vstd::prelude::*;

use crate::message_handlers::MessageHandlers;

verus! {

/// Implemented by an application to register every message handler a queue's
/// table needs, before the queue is built over the sealed table.
pub trait MessageHandlersRegistration {
    /// Arguments passed when registering.
    type Arguments;

    /// Registers all message handlers into the table.
    fn register_all_message_handlers(
        &self,
        message_handlers: &mut MessageHandlers,
        arguments: &Self::Arguments,
    )
        requires
            old(message_handlers).wf(),
        ensures
            final(message_handlers).wf(),
    ;
}

} // verus!
