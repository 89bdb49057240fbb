//! A publisher that cycles across a chosen set of hyper-threads.

use vstd::prelude::*;
use vstd::arithmetic::div_mod::{lemma_mod_self_0, lemma_small_mod};

use crate::message::Message;
use crate::message_handlers::spec_message_is_registered_in;
use crate::publisher::{spec_publish_outcome, Publisher};
use crate::queue::QueueFull;
use crate::queues::Queues;

verus! {

/// A round-robin publisher: owns a publisher for `M` and a non-empty ordered
/// sequence of hyper-thread targets plus a cursor into it.
///
/// The cursor is owned by one producer thread; moving the publisher between
/// threads requires external synchronisation.
pub struct RoundRobinPublisher<M: Message> {
    publisher: Publisher<M>,
    hyper_threads_to_publish_to: Vec<u16>,
    next_hyper_thread_to_publish_to_index: usize,
}

impl<M: Message> RoundRobinPublisher<M> {
    /// The inner publisher.
    pub closed spec fn spec_publisher(&self) -> Publisher<M> {
        self.publisher
    }

    /// The ordered hyper-thread targets the cursor cycles over.
    pub closed spec fn spec_targets(&self) -> Seq<u16> {
        self.hyper_threads_to_publish_to@
    }

    /// The cursor: the position in the target sequence used next.
    pub closed spec fn spec_cursor(&self) -> int {
        self.next_hyper_thread_to_publish_to_index as int
    }

    /// Well-formedness: at least one target, and the cursor inside the
    /// sequence.
    pub open spec fn wf(&self) -> bool {
        &&& self.spec_targets().len() > 0
        &&& 0 <= self.spec_cursor() < self.spec_targets().len()
    }

    /// The publisher matches the fleet.
    pub open spec fn compatible_with(&self, queues: Queues) -> bool {
        self.spec_publisher().compatible_with(queues)
    }

    /// Builds a round-robin publisher over a non-empty target sequence; the
    /// first target doubles as the default hyper-thread.
    pub fn new(queues: &Queues, hyper_threads_to_publish_to: Vec<u16>) -> (r: Self)
        requires
            queues.wf(),
            hyper_threads_to_publish_to@.len() > 0,
            queues.spec_has_queue(hyper_threads_to_publish_to@[0] as int),
            forall|ht: int|
                #[trigger] queues.spec_has_queue(ht) ==> spec_message_is_registered_in::<M>(
                    queues.spec_queue_at(ht).spec_message_handlers(),
                ),
        ensures
            r.wf(),
            r.compatible_with(*queues),
            r.spec_targets() == hyper_threads_to_publish_to@,
            r.spec_cursor() == 0,
            r.spec_publisher().spec_default_hyper_thread() == hyper_threads_to_publish_to@[0],
    {
        let default_hyper_thread = hyper_threads_to_publish_to[0];
        RoundRobinPublisher {
            publisher: Publisher::new(queues, default_hyper_thread),
            hyper_threads_to_publish_to,
            next_hyper_thread_to_publish_to_index: 0,
        }
    }

    /// Publishes to the target the cursor names, then advances the cursor by
    /// one, wrapping around the end of the target sequence.
    ///
    /// Returns the hyper-thread actually published to.
    pub fn publish(
        &mut self,
        queues: &mut Queues,
        construct_message_arguments: M::ConstructMessageArguments,
    ) -> (r: Result<u16, QueueFull>)
        requires
            old(self).wf(),
            old(queues).wf(),
            old(self).compatible_with(*old(queues)),
        ensures
            final(self).wf(),
            final(queues).wf(),
            final(self).compatible_with(*final(queues)),
            final(self).spec_publisher() == old(self).spec_publisher(),
            final(self).spec_targets() == old(self).spec_targets(),
            final(self).spec_cursor() == (old(self).spec_cursor() + 1) % (old(
                self,
            ).spec_targets().len() as int),
            spec_publish_outcome(
                old(self).spec_publisher(),
                *old(queues),
                *final(queues),
                old(self).spec_targets()[old(self).spec_cursor()] as int,
                construct_message_arguments,
                r,
            ),
    {
        let next_hyper_thread_to_publish_to_index = self.next_hyper_thread_to_publish_to_index;
        let next_hyper_thread = self.hyper_threads_to_publish_to[
            next_hyper_thread_to_publish_to_index
        ];
        let length = self.hyper_threads_to_publish_to.len();
        let advanced = next_hyper_thread_to_publish_to_index + 1;
        proof {
            if advanced == length {
                lemma_mod_self_0(length as int);
            } else {
                lemma_small_mod(advanced as nat, length as nat);
            }
        }
        self.next_hyper_thread_to_publish_to_index = if advanced == length {
            0
        } else {
            advanced
        };
        self.publisher.publish(queues, next_hyper_thread, construct_message_arguments)
    }
}

} // verus!
