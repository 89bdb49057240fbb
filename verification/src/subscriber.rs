//! The consumer-side handle for exactly one queue.

use vstd::prelude::*;

use crate::message_handling::MessageDispatch;
use crate::queue::spec_dequeue_outcome;
use crate::queues::Queues;
use crate::terminate::Terminate;

verus! {

/// A subscriber to one queue: the consumer side of the queue pinned to one
/// hyper-thread.
///
/// Not thread safe; one instance per consumer thread is required, and only
/// the thread pinned to the recorded hyper-thread may drain through it.
pub struct Subscriber {
    for_hyper_thread: u16,
}

impl Subscriber {
    /// The hyper-thread whose queue this subscriber drains.
    pub closed spec fn spec_for_hyper_thread(&self) -> u16 {
        self.for_hyper_thread
    }

    /// Creates the subscriber for one hyper-thread's queue.
    pub fn new(queues: &Queues, for_hyper_thread: u16) -> (r: Self)
        requires
            queues.spec_has_queue(for_hyper_thread as int),
        ensures
            r.spec_for_hyper_thread() == for_hyper_thread,
    {
        Subscriber { for_hyper_thread }
    }

    /// Receives and handles messages from this subscriber's queue:
    /// short-circuits when the termination handle answers `false` or a
    /// handler returns an error.
    ///
    /// The drain's outcome is exactly the queue's own: the buffered frames
    /// are handled and destroyed in FIFO order up to the frame where the
    /// drain stopped, and no other queue of the fleet changes.
    pub fn receive_and_handle_messages<T: Terminate, D: MessageDispatch>(
        &self,
        queues: &mut Queues,
        terminate: &mut T,
        dispatcher: &mut D,
    ) -> (r: Result<(), D::DequeuedMessageProcessingError>)
        requires
            old(queues).wf(),
            old(queues).spec_has_queue(self.spec_for_hyper_thread() as int),
        ensures
            final(queues).wf(),
            final(queues).spec_number_of_slots() == old(queues).spec_number_of_slots(),
            ({
                let ht = self.spec_for_hyper_thread() as int;
                &&& (forall|other: int|
                    0 <= other < old(queues).spec_number_of_slots() && other != ht
                        ==> final(queues).spec_queues()[other] == old(queues).spec_queues()[other])
                &&& final(queues).spec_has_queue(ht)
                &&& final(queues).spec_queue_at(ht).spec_message_handlers() == old(
                    queues,
                ).spec_queue_at(ht).spec_message_handlers()
                &&& spec_dequeue_outcome(
                    old(queues).spec_queue_at(ht).frames(),
                    final(queues).spec_queue_at(ht).frames(),
                    old(dispatcher).handled(),
                    final(dispatcher).handled(),
                    old(dispatcher).dropped(),
                    final(dispatcher).dropped(),
                    old(dispatcher).events(),
                    final(dispatcher).events(),
                    old(terminate).polled(),
                    final(terminate).polled(),
                    r,
                )
            }),
    {
        let ghost before = *queues;
        let result = {
            let queue = queues.queue_for(self.for_hyper_thread);
            queue.dequeue(terminate, dispatcher)
        };
        proof {
            let ht = self.spec_for_hyper_thread() as int;
            assert forall|other: int|
                0 <= other < before.spec_number_of_slots() && other != ht implies
                queues.spec_queues()[other] == before.spec_queues()[other] by {}
            assert forall|ht2: int| #[trigger] queues.spec_has_queue(ht2) implies
                queues.spec_queue_at(ht2).wf() by {
                if ht2 != ht {
                    assert(queues.spec_queues()[ht2] == before.spec_queues()[ht2]);
                    assert(before.spec_has_queue(ht2));
                }
            }
        }
        result
    }
}

} // verus!
