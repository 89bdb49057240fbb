//! The fleet: one queue per hyper-thread, indexed by hyper-thread id.
//!
//! A deployment shares a fleet like this between threads, with the ring's
//! internal synchronisation supplying the happens-before edges; the verified
//! fleet is a single-owner value that producers and the consumer borrow
//! explicitly, which states the same dataflow without shared mutability.

use vstd::prelude::*;
use vstd::pervasive::unreached;

use crate::alignment::spec_round_up_to_alignment;
use crate::framing::FrameRec;
use crate::message::Message;
use crate::message_handlers::{
    spec_message_is_registered_in, spec_message_registration, spec_registration_largest_message,
    MessageHandlers,
};
use crate::publisher::Publisher;
use crate::queue::{Queue, QueueFull};
use crate::ring_buffer::MAXIMUM_RING_CAPACITY;
use crate::round_robin_publisher::RoundRobinPublisher;
use crate::subscriber::Subscriber;

verus! {

/// One queue for each hyper-thread that takes part, indexed by hyper-thread
/// id. Pass it to each thread at initialisation.
pub struct Queues {
    queues: Vec<Option<Queue>>,
}

impl Queues {
    /// The queue slots, indexed by hyper-thread id.
    pub closed spec fn spec_queues(&self) -> Seq<Option<Queue>> {
        self.queues@
    }

    /// One more than the largest hyper-thread id the fleet can hold.
    pub open spec fn spec_number_of_slots(&self) -> int {
        self.spec_queues().len() as int
    }

    /// Whether this hyper-thread has a queue.
    pub open spec fn spec_has_queue(&self, hyper_thread: int) -> bool {
        0 <= hyper_thread < self.spec_queues().len() && self.spec_queues()[hyper_thread] is Some
    }

    /// The queue pinned to this hyper-thread.
    pub open spec fn spec_queue_at(&self, hyper_thread: int) -> Queue {
        self.spec_queues()[hyper_thread]->0
    }

    /// Every queue in the fleet is well-formed, and the slots are indexed by
    /// 16-bit hyper-thread ids.
    pub open spec fn wf(&self) -> bool {
        &&& self.spec_queues().len() <= u16::MAX + 1
        &&& forall|ht: int| #[trigger] self.spec_has_queue(ht) ==> self.spec_queue_at(ht).wf()
    }

    /// Allocates one queue for each listed hyper-thread, each over its own
    /// handlers table, sized to hold `preferred_maximum_number_of_elements`
    /// messages of that table's worst-case framed size.
    ///
    /// The tables are built, and sealed, before any queue exists; each
    /// queue's byte budget must fit what a ring can hold.
    pub fn one_queue_for_each_hyper_thread(
        hyper_threads: &Vec<u16>,
        message_handlers: Vec<MessageHandlers>,
        preferred_maximum_number_of_elements: usize,
    ) -> (r: Queues)
        requires
            hyper_threads@.len() == message_handlers@.len(),
            forall|i: int, j: int|
                0 <= i < hyper_threads@.len() && 0 <= j < hyper_threads@.len() && i != j
                    ==> hyper_threads@[i] != hyper_threads@[j],
            forall|i: int|
                0 <= i < message_handlers@.len() ==> (#[trigger] message_handlers@[i]).wf(),
            preferred_maximum_number_of_elements >= 1,
            forall|i: int|
                0 <= i < message_handlers@.len() ==> (#[trigger] message_handlers@[i]).spec_largest_possible_message()
                    * preferred_maximum_number_of_elements <= MAXIMUM_RING_CAPACITY,
        ensures
            r.wf(),
            forall|k: int|
                0 <= k < hyper_threads@.len() ==> r.spec_has_queue(#[trigger] hyper_threads@[k]
                    as int),
            forall|k: int|
                0 <= k < hyper_threads@.len() ==> r.spec_queue_at(
                    #[trigger] hyper_threads@[k] as int,
                ).spec_message_handlers() == message_handlers@[k],
            forall|k: int|
                0 <= k < hyper_threads@.len() ==> r.spec_queue_at(
                    #[trigger] hyper_threads@[k] as int,
                ).frames() == Seq::<FrameRec>::empty(),
            forall|k: int|
                0 <= k < hyper_threads@.len() ==> r.spec_queue_at(
                    #[trigger] hyper_threads@[k] as int,
                ).spec_capacity() == spec_round_up_to_alignment(
                    message_handlers@[k].spec_largest_possible_message()
                        * preferred_maximum_number_of_elements,
                    4,
                ),
            forall|ht: int|
                #[trigger] r.spec_has_queue(ht) ==> exists|k: int|
                    0 <= k < hyper_threads@.len() && hyper_threads@[k] == ht,
    {
        let ghost handlers_given = message_handlers@;
        let mut message_handlers = message_handlers;
        let mut largest_hyper_thread: usize = 0;
        let mut i: usize = 0;
        while i < hyper_threads.len()
            invariant
                i <= hyper_threads@.len(),
                forall|j: int| 0 <= j < i ==> #[trigger] hyper_threads@[j] <= largest_hyper_thread,
                largest_hyper_thread <= u16::MAX,
            decreases hyper_threads@.len() - i,
        {
            let hyper_thread = hyper_threads[i];
            if hyper_thread as usize > largest_hyper_thread {
                largest_hyper_thread = hyper_thread as usize;
            }
            i = i + 1;
        }
        let number_of_slots = largest_hyper_thread + 1;
        let mut queues: Vec<Option<Queue>> = Vec::new();
        let mut j: usize = 0;
        while j < number_of_slots
            invariant
                j <= number_of_slots,
                queues@.len() == j,
                forall|s: int| 0 <= s < j ==> queues@[s] is None,
            decreases number_of_slots - j,
        {
            queues.push(None);
            j = j + 1;
        }
        let mut k: usize = 0;
        while k < hyper_threads.len()
            invariant
                k <= hyper_threads@.len(),
                hyper_threads@.len() == handlers_given.len(),
                message_handlers@ == handlers_given.skip(k as int),
                queues@.len() == number_of_slots,
                number_of_slots <= u16::MAX + 1,
                forall|j2: int|
                    0 <= j2 < hyper_threads@.len() ==> #[trigger] hyper_threads@[j2]
                        < number_of_slots,
                forall|i2: int, j2: int|
                    0 <= i2 < hyper_threads@.len() && 0 <= j2 < hyper_threads@.len() && i2 != j2
                        ==> hyper_threads@[i2] != hyper_threads@[j2],
                forall|i2: int|
                    0 <= i2 < handlers_given.len() ==> (#[trigger] handlers_given[i2]).wf(),
                forall|i2: int|
                    0 <= i2 < handlers_given.len()
                        ==> (#[trigger] handlers_given[i2]).spec_largest_possible_message()
                        * preferred_maximum_number_of_elements <= MAXIMUM_RING_CAPACITY,
                preferred_maximum_number_of_elements >= 1,
                forall|j2: int|
                    0 <= j2 < k ==> queues@[#[trigger] hyper_threads@[j2] as int] is Some,
                forall|j2: int|
                    0 <= j2 < k ==> (queues@[#[trigger] hyper_threads@[j2] as int]->0).wf()
                        && (queues@[hyper_threads@[j2] as int]->0).spec_message_handlers()
                        == handlers_given[j2] && (queues@[hyper_threads@[j2] as int]->0).frames()
                        == Seq::<FrameRec>::empty() && (queues@[hyper_threads@[j2] as int]->0).spec_capacity()
                        == spec_round_up_to_alignment(
                        handlers_given[j2].spec_largest_possible_message()
                            * preferred_maximum_number_of_elements,
                        4,
                    ),
                forall|s: int|
                    0 <= s < queues@.len() && #[trigger] queues@[s] is Some ==> exists|j2: int|
                        0 <= j2 < k && hyper_threads@[j2] == s,
            decreases hyper_threads@.len() - k,
        {
            let handlers = message_handlers.remove(0);
            proof {
                assert(handlers == handlers_given[k as int]);
                assert(message_handlers@ =~= handlers_given.skip(k + 1));
                crate::message_handlers::lemma_table_largest_message_bounds(
                    handlers.spec_registrations(),
                );
            }
            let budget = handlers.queue_size_in_bytes(preferred_maximum_number_of_elements);
            proof {
                assert(budget >= 4) by (nonlinear_arith)
                    requires
                        budget == handlers.spec_largest_possible_message()
                            * preferred_maximum_number_of_elements,
                        handlers.spec_largest_possible_message() >= 4,
                        preferred_maximum_number_of_elements >= 1,
                ;
            }
            let queue = match Queue::new(handlers, budget) {
                Ok(queue) => queue,
                Err(_) => unreached(),
            };
            let hyper_thread = hyper_threads[k];
            queues.set(hyper_thread as usize, Some(queue));
            k = k + 1;
        }
        Queues { queues }
    }

    /// How many hyper-thread slots the fleet has: one more than the largest
    /// hyper-thread id a queue is pinned to.
    pub fn number_of_slots(&self) -> (r: usize)
        ensures
            r == self.spec_number_of_slots(),
    {
        self.queues.len()
    }

    /// Whether a queue exists for this hyper-thread.
    pub fn has_queue_for(&self, hyper_thread: u16) -> (r: bool)
        ensures
            r == self.spec_has_queue(hyper_thread as int),
    {
        ((hyper_thread as usize) < self.queues.len()) && self.queues[hyper_thread
            as usize].is_some()
    }

    /// A mutable borrow of the queue pinned to this hyper-thread.
    pub fn queue_for(&mut self, hyper_thread: u16) -> (q: &mut Queue)
        requires
            old(self).spec_has_queue(hyper_thread as int),
        ensures
            *q == old(self).spec_queue_at(hyper_thread as int),
            final(self).spec_queues() == old(self).spec_queues().update(
                hyper_thread as int,
                Some(*final(q)),
            ),
    {
        let slot = &mut self.queues[hyper_thread as usize];
        match slot {
            Some(queue) => queue,
            None => unreached(),
        }
    }

    /// A new publisher for message type `M` over this fleet.
    ///
    /// `M` must be registered in every queue of the fleet, and the default
    /// hyper-thread must have a queue.
    pub fn publisher<M: Message>(&self, default_hyper_thread: u16) -> (r: Publisher<M>)
        requires
            self.wf(),
            self.spec_has_queue(default_hyper_thread as int),
            forall|ht: int|
                #[trigger] self.spec_has_queue(ht) ==> spec_message_is_registered_in::<M>(
                    self.spec_queue_at(ht).spec_message_handlers(),
                ),
        ensures
            r.compatible_with(*self),
            r.spec_default_hyper_thread() == default_hyper_thread,
    {
        Publisher::new(self, default_hyper_thread)
    }

    /// A new round-robin publisher for message type `M`, looping over
    /// `hyper_threads_to_publish_to`.
    pub fn round_robin_publisher<M: Message>(&self, hyper_threads_to_publish_to: Vec<u16>) -> (r:
        RoundRobinPublisher<M>)
        requires
            self.wf(),
            hyper_threads_to_publish_to@.len() > 0,
            self.spec_has_queue(hyper_threads_to_publish_to@[0] as int),
            forall|ht: int|
                #[trigger] self.spec_has_queue(ht) ==> spec_message_is_registered_in::<M>(
                    self.spec_queue_at(ht).spec_message_handlers(),
                ),
        ensures
            r.wf(),
            r.compatible_with(*self),
            r.spec_targets() == hyper_threads_to_publish_to@,
            r.spec_cursor() == 0,
            r.spec_publisher().spec_default_hyper_thread() == hyper_threads_to_publish_to@[0],
    {
        RoundRobinPublisher::new(self, hyper_threads_to_publish_to)
    }

    /// A new subscriber for one hyper-thread's queue; only that hyper-thread
    /// may drain through it.
    pub fn subscriber(&self, for_hyper_thread: u16) -> (r: Subscriber)
        requires
            self.spec_has_queue(for_hyper_thread as int),
        ensures
            r.spec_for_hyper_thread() == for_hyper_thread,
    {
        Subscriber::new(self, for_hyper_thread)
    }

    /// Publishes one message of type `M` to a specific hyper-thread, falling
    /// back to the default hyper-thread where the target has no queue.
    ///
    /// Slow, as it resolves `M`'s tag through the hash map on every call;
    /// prefer a publisher, which caches the tag.
    pub fn publish_safe_but_slow<M: Message>(
        &mut self,
        hyper_thread: u16,
        default_hyper_thread: u16,
        construct_message_arguments: M::ConstructMessageArguments,
    ) -> (r: Result<u16, QueueFull>)
        requires
            old(self).wf(),
            old(self).spec_has_queue(default_hyper_thread as int),
            ({
                let actual = if old(self).spec_has_queue(hyper_thread as int) {
                    hyper_thread as int
                } else {
                    default_hyper_thread as int
                };
                spec_message_is_registered_in::<M>(
                    old(self).spec_queue_at(actual).spec_message_handlers(),
                )
            }),
        ensures
            final(self).wf(),
            final(self).spec_number_of_slots() == old(self).spec_number_of_slots(),
            ({
                let actual = if old(self).spec_has_queue(hyper_thread as int) {
                    hyper_thread as int
                } else {
                    default_hyper_thread as int
                };
                let queue = old(self).spec_queue_at(actual);
                &&& (forall|other: int|
                    0 <= other < old(self).spec_number_of_slots() && other != actual
                        ==> final(self).spec_queues()[other] == old(self).spec_queues()[other])
                &&& match r {
                    Ok(published_to) => {
                        &&& published_to == actual
                        &&& final(self).spec_queue_at(actual).frames().len() == queue.frames().len()
                            + 1
                        &&& final(self).spec_queue_at(actual).frames().last().body
                            == M::spec_construct(construct_message_arguments)
                        &&& (final(self).spec_queue_at(actual).frames().last().compressed_type_identifier
                            as int) < queue.spec_registrations().len()
                        &&& queue.spec_registrations()[final(self).spec_queue_at(
                            actual,
                        ).frames().last().compressed_type_identifier as int]
                            == spec_message_registration::<M>()
                        &&& final(self).spec_queue_at(actual).frames().drop_last()
                            == queue.frames()
                        &&& final(self).spec_queue_at(actual).spec_message_handlers()
                            == queue.spec_message_handlers()
                    },
                    Err(_) => {
                        &&& final(self).spec_queues() == old(self).spec_queues()
                        &&& spec_registration_largest_message(spec_message_registration::<M>())
                            > queue.spec_capacity() - queue.spec_buffered_bytes()
                    },
                }
            }),
    {
        let actual = if self.has_queue_for(hyper_thread) {
            hyper_thread
        } else {
            default_hyper_thread
        };
        let compressed_type_identifier = {
            let queue = self.queue_ref(actual);
            proof {
                queue.lemma_wf_message_handlers();
            }
            let found = queue.message_handlers()
                .find_fixed_size_message_body_compressed_type_identifier::<M>();
            match found {
                Some(compressed_type_identifier) => compressed_type_identifier,
                None => {
                    proof {
                        let i = choose|i: int|
                            0 <= i < queue.spec_registrations().len()
                                && #[trigger] queue.spec_registrations()[i]
                                == spec_message_registration::<M>();
                        assert(queue.spec_registrations()[i].type_identifier
                            == M::spec_type_identifier());
                    }
                    unreached()
                },
            }
        };
        let message_body = M::construct_message(construct_message_arguments);
        let ghost before = *self;
        let result = {
            let queue = self.queue_for(actual);
            queue.enqueue(compressed_type_identifier, &message_body)
        };
        proof {
            if result is Err {
                assert(self.spec_queues() =~= before.spec_queues());
            } else {
                assert(self.spec_queue_at(actual as int).frames().drop_last() =~= before.spec_queue_at(
                    actual as int,
                ).frames());
            }
            assert forall|ht2: int| #[trigger] self.spec_has_queue(ht2) implies self.spec_queue_at(
                ht2,
            ).wf() by {
                if ht2 != actual as int {
                    assert(self.spec_queues()[ht2] == before.spec_queues()[ht2]);
                    assert(before.spec_has_queue(ht2));
                }
            }
        }
        match result {
            Ok(_) => Ok(actual),
            Err(full) => Err(full),
        }
    }

    /// A shared borrow of the queue pinned to this hyper-thread.
    pub fn queue_ref(&self, hyper_thread: u16) -> (q: &Queue)
        requires
            self.spec_has_queue(hyper_thread as int),
        ensures
            *q == self.spec_queue_at(hyper_thread as int),
    {
        match &self.queues[hyper_thread as usize] {
            Some(queue) => queue,
            None => unreached(),
        }
    }
}

} // verus!
