//! The producer-side handle for one message body type.
//!
//! At construction the publisher resolves, for every queue in the fleet, the
//! tag of its body type within that queue's handlers table, and caches the
//! tag per hyper-thread; publishing is then the cached tag plus one enqueue,
//! with no table look-up on the hot path.

use vstd::prelude::*;
use vstd::pervasive::unreached;

use crate::compressed_type_identifier::CompressedTypeIdentifier;
use crate::framing::{spec_body_padding, spec_total_message_size, FrameRec};
use crate::message::Message;
use crate::message_handlers::{
    spec_message_is_registered_in, spec_message_registration, spec_registration_largest_message,
};
use crate::queue::QueueFull;
use crate::queues::Queues;

verus! {

/// What one publish did: the message went, whole, to the end of the queue of
/// the requested hyper-thread, or of the default one where the requested one
/// has no queue, and no other queue changed; or the target ring really had no
/// room for a worst-case frame of `M`, and nothing changed.
pub open spec fn spec_publish_outcome<M: Message>(
    publisher: Publisher<M>,
    before: Queues,
    after: Queues,
    hyper_thread: int,
    construct_message_arguments: M::ConstructMessageArguments,
    r: Result<u16, QueueFull>,
) -> bool {
    let actual = if before.spec_has_queue(hyper_thread) {
        hyper_thread
    } else {
        publisher.spec_default_hyper_thread() as int
    };
    let queue = before.spec_queue_at(actual);
    let body = M::spec_construct(construct_message_arguments);
    match r {
        Ok(published_to) => {
            &&& published_to == actual
            &&& after.spec_number_of_slots() == before.spec_number_of_slots()
            &&& (forall|ht: int|
                0 <= ht < before.spec_number_of_slots() && ht != actual
                    ==> after.spec_queues()[ht] == before.spec_queues()[ht])
            &&& after.spec_queue_at(actual).frames() == queue.frames().push(
                FrameRec {
                    compressed_type_identifier: publisher.spec_tag_at(actual) as u8,
                    padding: spec_body_padding(
                        queue.spec_write_offset(),
                        M::spec_body_size() as int,
                        M::spec_body_alignment() as int,
                    ) as u8,
                    total_size: spec_total_message_size(
                        queue.spec_write_offset(),
                        M::spec_body_size() as int,
                        M::spec_body_alignment() as int,
                    ) as u16,
                    body,
                },
            )
            &&& after.spec_queue_at(actual).spec_message_handlers() == queue.spec_message_handlers()
        },
        Err(_) => {
            &&& after.spec_queues() == before.spec_queues()
            &&& spec_registration_largest_message(spec_message_registration::<M>())
                > queue.spec_capacity() - queue.spec_buffered_bytes()
        },
    }
}

/// A publisher for one type of message, `M`, over a fleet of queues.
///
/// The handle carries only the cached tags and the default hyper-thread;
/// the fleet itself is borrowed at each publish, so the handle is trivially
/// shareable.
pub struct Publisher<M: Message> {
    compressed_type_identifiers: Vec<Option<CompressedTypeIdentifier>>,
    default_hyper_thread: u16,
    marker: core::marker::PhantomData<M>,
}

impl<M: Message> Publisher<M> {
    /// The cached tag slots, indexed by hyper-thread id.
    pub closed spec fn spec_cached(&self) -> Seq<Option<CompressedTypeIdentifier>> {
        self.compressed_type_identifiers@
    }

    /// The hyper-thread published to when the requested one has no queue.
    pub closed spec fn spec_default_hyper_thread(&self) -> u16 {
        self.default_hyper_thread
    }

    /// The cached tag for a hyper-thread that has a queue.
    pub open spec fn spec_tag_at(&self, hyper_thread: int) -> int {
        (self.spec_cached()[hyper_thread]->0).spec_index()
    }

    /// The publisher matches the fleet: it caches a tag exactly for the
    /// hyper-threads that have a queue, each cached tag names `M`'s
    /// registration in that queue's table, and the default hyper-thread has a
    /// queue.
    pub open spec fn compatible_with(&self, queues: Queues) -> bool {
        &&& self.spec_cached().len() == queues.spec_number_of_slots()
        &&& (forall|ht: int|
            0 <= ht < self.spec_cached().len() ==> (#[trigger] self.spec_cached()[ht] is Some
                <==> queues.spec_has_queue(ht)))
        &&& (forall|ht: int|
            #[trigger] queues.spec_has_queue(ht) ==> 0 <= self.spec_tag_at(ht)
                < queues.spec_queue_at(ht).spec_registrations().len()
                && queues.spec_queue_at(ht).spec_registrations()[self.spec_tag_at(ht)]
                == spec_message_registration::<M>())
        &&& queues.spec_has_queue(self.spec_default_hyper_thread() as int)
    }

    /// Builds a publisher against a fleet: resolves and caches `M`'s tag in
    /// every queue's table.
    ///
    /// Every queue in the fleet must have `M` registered, and the default
    /// hyper-thread must have a queue; handing over a fleet not meeting that
    /// is a programmer error.
    pub fn new(queues: &Queues, default_hyper_thread: u16) -> (r: Self)
        requires
            queues.wf(),
            queues.spec_has_queue(default_hyper_thread as int),
            forall|ht: int|
                #[trigger] queues.spec_has_queue(ht) ==> spec_message_is_registered_in::<M>(
                    queues.spec_queue_at(ht).spec_message_handlers(),
                ),
        ensures
            r.compatible_with(*queues),
            r.spec_default_hyper_thread() == default_hyper_thread,
    {
        let number_of_slots = queues.number_of_slots();
        let mut compressed_type_identifiers: Vec<Option<CompressedTypeIdentifier>> = Vec::new();
        let mut hyper_thread: usize = 0;
        while hyper_thread < number_of_slots
            invariant
                hyper_thread <= number_of_slots,
                number_of_slots == queues.spec_number_of_slots(),
                number_of_slots <= u16::MAX + 1,
                queues.wf(),
                forall|ht: int|
                    #[trigger] queues.spec_has_queue(ht) ==> spec_message_is_registered_in::<M>(
                        queues.spec_queue_at(ht).spec_message_handlers(),
                    ),
                compressed_type_identifiers@.len() == hyper_thread,
                forall|ht: int|
                    0 <= ht < hyper_thread ==> (#[trigger] compressed_type_identifiers@[ht]
                        is Some <==> queues.spec_has_queue(ht)),
                forall|ht: int|
                    0 <= ht < hyper_thread && #[trigger] queues.spec_has_queue(ht) ==> 0 <= (
                    compressed_type_identifiers@[ht]->0).spec_index()
                        < queues.spec_queue_at(ht).spec_registrations().len()
                        && queues.spec_queue_at(ht).spec_registrations()[(
                    compressed_type_identifiers@[ht]->0).spec_index()]
                        == spec_message_registration::<M>(),
            decreases number_of_slots - hyper_thread,
        {
            if queues.has_queue_for(hyper_thread as u16) {
                let queue = queues.queue_ref(hyper_thread as u16);
                proof {
                    queue.lemma_wf_message_handlers();
                }
                let found = queue.message_handlers()
                    .find_fixed_size_message_body_compressed_type_identifier::<M>();
                match found {
                    Some(compressed_type_identifier) => {
                        compressed_type_identifiers.push(Some(compressed_type_identifier));
                    },
                    None => {
                        proof {
                            let i = choose|i: int|
                                0 <= i < queue.spec_registrations().len()
                                    && #[trigger] queue.spec_registrations()[i]
                                    == spec_message_registration::<M>();
                            assert(queue.spec_registrations()[i].type_identifier
                                == M::spec_type_identifier());
                        }
                        unreached()
                    },
                }
            } else {
                compressed_type_identifiers.push(None);
            }
            hyper_thread = hyper_thread + 1;
        }
        Publisher {
            compressed_type_identifiers,
            default_hyper_thread,
            marker: core::marker::PhantomData,
        }
    }

    /// Publishes one message to a specific hyper-thread's queue.
    ///
    /// If the requested hyper-thread has no queue, the default one is used;
    /// the hyper-thread actually published to is returned. `QueueFull` means
    /// the ring lacked room for a worst-case frame; the caller retries once
    /// the consumer has drained.
    pub fn publish(
        &self,
        queues: &mut Queues,
        hyper_thread: u16,
        construct_message_arguments: M::ConstructMessageArguments,
    ) -> (r: Result<u16, QueueFull>)
        requires
            old(queues).wf(),
            self.compatible_with(*old(queues)),
        ensures
            final(queues).wf(),
            self.compatible_with(*final(queues)),
            spec_publish_outcome(
                *self,
                *old(queues),
                *final(queues),
                hyper_thread as int,
                construct_message_arguments,
                r,
            ),
    {
        let actual = if queues.has_queue_for(hyper_thread) {
            hyper_thread
        } else {
            self.default_hyper_thread
        };
        let compressed_type_identifier = match &self.compressed_type_identifiers[actual
            as usize] {
            Some(compressed_type_identifier) => *compressed_type_identifier,
            None => unreached(),
        };
        let message_body = M::construct_message(construct_message_arguments);
        let ghost before = *queues;
        let result = {
            let queue = queues.queue_for(actual);
            queue.enqueue(compressed_type_identifier, &message_body)
        };
        proof {
            let actual_slot = actual as int;
            let registration = before.spec_queue_at(actual_slot).spec_registrations()[self.spec_tag_at(
                actual_slot,
            )];
            assert(registration == spec_message_registration::<M>());
            if result is Err {
                assert(queues.spec_queues() =~= before.spec_queues());
                assert forall|ht: int| #[trigger] queues.spec_has_queue(ht) implies
                    queues.spec_queue_at(ht).wf() by {
                    assert(before.spec_has_queue(ht));
                }
            } else {
                assert(queues.spec_queues()[actual_slot] is Some);
                assert(queues.spec_queue_at(actual_slot).wf());
                assert(queues.spec_queue_at(actual_slot).frames() == before.spec_queue_at(
                    actual_slot,
                ).frames().push(
                    FrameRec {
                        compressed_type_identifier: self.spec_tag_at(actual_slot) as u8,
                        padding: spec_body_padding(
                            before.spec_queue_at(actual_slot).spec_write_offset(),
                            M::spec_body_size() as int,
                            M::spec_body_alignment() as int,
                        ) as u8,
                        total_size: spec_total_message_size(
                            before.spec_queue_at(actual_slot).spec_write_offset(),
                            M::spec_body_size() as int,
                            M::spec_body_alignment() as int,
                        ) as u16,
                        body: M::spec_construct(construct_message_arguments),
                    },
                ));
                assert forall|ht: int| #[trigger] queues.spec_has_queue(ht) implies
                    queues.spec_queue_at(ht).wf() by {
                    if ht != actual as int {
                        assert(queues.spec_queues()[ht] == before.spec_queues()[ht]);
                        assert(before.spec_has_queue(ht));
                    }
                }
                assert forall|ht: int| #[trigger] queues.spec_has_queue(ht) implies 0
                    <= self.spec_tag_at(ht) < queues.spec_queue_at(
                    ht,
                ).spec_registrations().len() && queues.spec_queue_at(
                    ht,
                ).spec_registrations()[self.spec_tag_at(ht)] == spec_message_registration::<
                    M,
                >() by {
                    if ht != actual as int {
                        assert(queues.spec_queues()[ht] == before.spec_queues()[ht]);
                        assert(before.spec_has_queue(ht));
                    }
                }
            }
        }
        match result {
            Ok(_) => Ok(actual),
            Err(full) => Err(full),
        }
    }
}

} // verus!
