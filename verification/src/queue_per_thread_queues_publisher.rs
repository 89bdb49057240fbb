//! A tag-driven publishing facade over a fleet: publishes a prepared body to
//! the queue used by a particular thread.
//!
//! Assumes a thread-per-hyper-thread model.

use vstd::prelude::*;

use crate::alignment::spec_round_up_to_alignment;
use crate::compressed_type_identifier::CompressedTypeIdentifier;
use crate::framing::{spec_body_padding, spec_total_message_size, FrameRec};
use crate::message_handlers::{spec_registration_largest_message, MessageHandlers};
use crate::queue::QueueFull;
use crate::queues::Queues;
use crate::ring_buffer::MAXIMUM_RING_CAPACITY;

verus! {

/// Publishes to the queue of a particular hyper-thread, given an already
/// resolved tag; the low-level producer-side facade over a fleet it owns.
pub struct QueuePerThreadQueuesPublisher {
    queues: Queues,
}

impl QueuePerThreadQueuesPublisher {
    /// The fleet this facade publishes into.
    pub closed spec fn spec_queues(&self) -> Queues {
        self.queues
    }

    /// The fleet is well-formed.
    pub open spec fn wf(&self) -> bool {
        self.spec_queues().wf()
    }

    /// Allocates a new instance: one queue per listed hyper-thread, each over
    /// its own handlers table.
    pub fn allocate(
        hyper_threads: &Vec<u16>,
        message_handlers: Vec<MessageHandlers>,
        preferred_maximum_number_of_elements: usize,
    ) -> (r: Self)
        requires
            hyper_threads@.len() == message_handlers@.len(),
            forall|i: int, j: int|
                0 <= i < hyper_threads@.len() && 0 <= j < hyper_threads@.len() && i != j
                    ==> hyper_threads@[i] != hyper_threads@[j],
            forall|i: int|
                0 <= i < message_handlers@.len() ==> (#[trigger] message_handlers@[i]).wf(),
            preferred_maximum_number_of_elements >= 1,
            forall|i: int|
                0 <= i < message_handlers@.len() ==> (#[trigger] message_handlers@[i]).spec_largest_possible_message()
                    * preferred_maximum_number_of_elements <= MAXIMUM_RING_CAPACITY,
        ensures
            r.wf(),
            forall|k: int|
                0 <= k < hyper_threads@.len() ==> r.spec_queues().spec_has_queue(
                    #[trigger] hyper_threads@[k] as int,
                ),
            forall|k: int|
                0 <= k < hyper_threads@.len() ==> r.spec_queues().spec_queue_at(
                    #[trigger] hyper_threads@[k] as int,
                ).spec_message_handlers() == message_handlers@[k],
            forall|k: int|
                0 <= k < hyper_threads@.len() ==> r.spec_queues().spec_queue_at(
                    #[trigger] hyper_threads@[k] as int,
                ).frames() == Seq::<FrameRec>::empty(),
            forall|k: int|
                0 <= k < hyper_threads@.len() ==> r.spec_queues().spec_queue_at(
                    #[trigger] hyper_threads@[k] as int,
                ).spec_capacity() == spec_round_up_to_alignment(
                    message_handlers@[k].spec_largest_possible_message()
                        * preferred_maximum_number_of_elements,
                    4,
                ),
    {
        QueuePerThreadQueuesPublisher {
            queues: Queues::one_queue_for_each_hyper_thread(
                hyper_threads,
                message_handlers,
                preferred_maximum_number_of_elements,
            ),
        }
    }

    /// Gives the fleet back, for the consumer side.
    pub fn into_queues(self) -> (r: Queues)
        ensures
            r == self.spec_queues(),
    {
        self.queues
    }

    /// Publishes a message body, to be received by the queue for this
    /// hyper-thread, under an already resolved tag.
    ///
    /// The caller asserts the tag was handed out by that queue's table for
    /// the body type whose bytes it passes.
    pub fn publish_message(
        &mut self,
        hyper_thread: u16,
        compressed_type_identifier: CompressedTypeIdentifier,
        message_body: &Vec<u8>,
    ) -> (r: Result<(), QueueFull>)
        requires
            old(self).wf(),
            old(self).spec_queues().spec_has_queue(hyper_thread as int),
            0 <= compressed_type_identifier.spec_index() < old(self).spec_queues().spec_queue_at(
                hyper_thread as int,
            ).spec_registrations().len(),
            message_body@.len() == old(self).spec_queues().spec_queue_at(
                hyper_thread as int,
            ).spec_registrations()[compressed_type_identifier.spec_index()].body_size,
        ensures
            final(self).wf(),
            final(self).spec_queues().spec_number_of_slots() == old(
                self,
            ).spec_queues().spec_number_of_slots(),
            ({
                let ht = hyper_thread as int;
                let queue = old(self).spec_queues().spec_queue_at(ht);
                let registration = queue.spec_registrations()[compressed_type_identifier.spec_index()];
                &&& (forall|other: int|
                    0 <= other < old(self).spec_queues().spec_number_of_slots() && other != ht
                        ==> final(self).spec_queues().spec_queues()[other] == old(
                        self,
                    ).spec_queues().spec_queues()[other])
                &&& match r {
                    Ok(_) => {
                        &&& final(self).spec_queues().spec_queue_at(ht).frames()
                            == queue.frames().push(
                            FrameRec {
                                compressed_type_identifier: compressed_type_identifier.spec_index()
                                    as u8,
                                padding: spec_body_padding(
                                    queue.spec_write_offset(),
                                    registration.body_size as int,
                                    registration.body_alignment as int,
                                ) as u8,
                                total_size: spec_total_message_size(
                                    queue.spec_write_offset(),
                                    registration.body_size as int,
                                    registration.body_alignment as int,
                                ) as u16,
                                body: message_body@,
                            },
                        )
                        &&& final(self).spec_queues().spec_queue_at(ht).spec_message_handlers()
                            == queue.spec_message_handlers()
                    },
                    Err(_) => {
                        &&& final(self).spec_queues().spec_queues() == old(
                            self,
                        ).spec_queues().spec_queues()
                        &&& spec_registration_largest_message(registration)
                            > queue.spec_capacity() - queue.spec_buffered_bytes()
                    },
                }
            }),
    {
        let ghost before = self.queues;
        let result = {
            let queue = self.queues.queue_for(hyper_thread);
            queue.enqueue(compressed_type_identifier, message_body)
        };
        proof {
            let ht = hyper_thread as int;
            if result is Err {
                assert(self.queues.spec_queues() =~= before.spec_queues());
            }
            assert forall|ht2: int| #[trigger] self.queues.spec_has_queue(ht2) implies
                self.queues.spec_queue_at(ht2).wf() by {
                if ht2 != ht {
                    assert(self.queues.spec_queues()[ht2] == before.spec_queues()[ht2]);
                    assert(before.spec_has_queue(ht2));
                }
            }
        }
        result
    }
}

} // verus!
