//! A subscriber bound to one hyper-thread's queue that carries its own
//! termination handle.

use vstd::prelude::*;

use crate::message_handling::MessageDispatch;
use crate::queue::spec_dequeue_outcome;
use crate::queues::Queues;
use crate::subscriber::Subscriber;
use crate::terminate::Terminate;

verus! {

/// A subscriber to the queue of one hyper-thread, owning the termination
/// handle the drain loop polls.
///
/// Must only be used by the thread that does the subscribing.
pub struct PerThreadQueueSubscriber<T: Terminate> {
    subscriber: Subscriber,
    terminate: T,
}

impl<T: Terminate> PerThreadQueueSubscriber<T> {
    /// The hyper-thread whose queue this subscriber drains.
    pub closed spec fn spec_for_hyper_thread(&self) -> u16 {
        self.subscriber.spec_for_hyper_thread()
    }

    /// The termination handle the drain loop polls.
    pub closed spec fn spec_terminate(&self) -> T {
        self.terminate
    }

    /// Creates a new instance for one hyper-thread.
    pub fn new(queues: &Queues, for_hyper_thread: u16, terminate: T) -> (r: Self)
        requires
            queues.spec_has_queue(for_hyper_thread as int),
        ensures
            r.spec_for_hyper_thread() == for_hyper_thread,
            r.spec_terminate() == terminate,
    {
        PerThreadQueueSubscriber { subscriber: Subscriber::new(queues, for_hyper_thread), terminate }
    }

    /// Receives and handles messages; short-circuits when the owned
    /// termination handle answers `false` or a handler returns an error.
    pub fn receive_and_handle_messages<D: MessageDispatch>(
        &mut self,
        queues: &mut Queues,
        dispatcher: &mut D,
    ) -> (r: Result<(), D::DequeuedMessageProcessingError>)
        requires
            old(queues).wf(),
            old(queues).spec_has_queue(old(self).spec_for_hyper_thread() as int),
        ensures
            final(queues).wf(),
            final(queues).spec_number_of_slots() == old(queues).spec_number_of_slots(),
            final(self).spec_for_hyper_thread() == old(self).spec_for_hyper_thread(),
            ({
                let ht = old(self).spec_for_hyper_thread() as int;
                &&& (forall|other: int|
                    0 <= other < old(queues).spec_number_of_slots() && other != ht
                        ==> final(queues).spec_queues()[other] == old(queues).spec_queues()[other])
                &&& final(queues).spec_has_queue(ht)
                &&& final(queues).spec_queue_at(ht).spec_message_handlers() == old(
                    queues,
                ).spec_queue_at(ht).spec_message_handlers()
                &&& spec_dequeue_outcome(
                    old(queues).spec_queue_at(ht).frames(),
                    final(queues).spec_queue_at(ht).frames(),
                    old(dispatcher).handled(),
                    final(dispatcher).handled(),
                    old(dispatcher).dropped(),
                    final(dispatcher).dropped(),
                    old(dispatcher).events(),
                    final(dispatcher).events(),
                    old(self).spec_terminate().polled(),
                    final(self).spec_terminate().polled(),
                    r,
                )
            }),
    {
        self.subscriber.receive_and_handle_messages(queues, &mut self.terminate, dispatcher)
    }
}

} // verus!
