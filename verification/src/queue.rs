//! The queue: one ring bound to one handlers table.
//!
//! Producers enqueue frames by tag; the single consumer drains them in FIFO
//! order, invoking for each frame the handler and then the destructor, and a
//! teardown drain destroys whatever was never handled, so that every
//! enqueued message is destroyed exactly once.

use vstd::prelude::*;

use crate::alignment::lemma_multiple_of_four_below;
use crate::alignment::round_up_to_alignment;
use crate::alignment::spec_round_up_to_alignment;
use crate::compressed_type_identifier::CompressedTypeIdentifier;
use crate::framing::{
    encode_message_frame, frame_drop_records, frame_handled_records, frame_valid,
    largest_possible_total_message_size_including_message_header, lemma_message_layout,
    lemma_parse_frames_empty, lemma_parse_frames_extend, lemma_parse_frames_first,
    number_of_bytes_padding_to_align_message_body, parse_frames, spec_body_padding,
    spec_total_message_size, total_message_size_for_window_offset, FrameRec,
};
use crate::message_handlers::{spec_registration_largest_message, MessageHandlers};
use crate::message_handling::{DispatchEvent, MessageDispatch};
use crate::message_header::MessageHeader;
use crate::registration_table::BodyTypeRegistration;
use crate::ring_buffer::{RingBuffer, MAXIMUM_RING_CAPACITY};
use crate::terminate::Terminate;

verus! {

/// The ring backing a queue could not be allocated: the requested byte
/// budget was zero or beyond what a ring may hold.
#[derive(Clone, Copy, PartialEq, Eq, Structural, Debug)]
pub struct QueueAllocationError;

/// The ring has no room for a worst-case frame of the requested body type.
/// A blocking transport would spin here until the consumer freed space; this
/// one surfaces fullness so that the caller retries.
#[derive(Clone, Copy, PartialEq, Eq, Structural, Debug)]
pub struct QueueFull;

/// A sequence of `n` `true` answers from a termination handle.
pub open spec fn repeat_true(n: nat) -> Seq<bool> {
    Seq::new(n, |i: int| true)
}

/// The event one handler invocation over this frame logs, with its outcome.
pub open spec fn frame_handled_event(f: FrameRec, ok: bool) -> DispatchEvent {
    DispatchEvent::Handled {
        compressed_type_identifier: f.compressed_type_identifier,
        message_body: f.body,
        ok,
    }
}

/// The event destroying this frame logs.
pub open spec fn frame_dropped_event(f: FrameRec) -> DispatchEvent {
    DispatchEvent::Dropped {
        compressed_type_identifier: f.compressed_type_identifier,
        message_body: f.body,
    }
}

/// The interleaved event log a successful drain of these frames produces:
/// for each frame in order, its handler invocation and then its destruction.
pub open spec fn frame_dispatch_events(fs: Seq<FrameRec>) -> Seq<DispatchEvent>
    decreases fs.len(),
{
    if fs.len() == 0 {
        Seq::empty()
    } else {
        frame_dispatch_events(fs.drop_last()).push(frame_handled_event(fs.last(), true)).push(
            frame_dropped_event(fs.last()),
        )
    }
}

/// The event log a teardown drain of these frames produces: destruction
/// only, in order.
pub open spec fn frame_drop_events(fs: Seq<FrameRec>) -> Seq<DispatchEvent> {
    Seq::new(fs.len(), |i: int| frame_dropped_event(fs[i]))
}

/// The handler always runs before the destructor: in the event log of a
/// drain, each frame contributes exactly two events, its handler invocation
/// immediately followed by its destruction, frame after frame in FIFO order.
pub proof fn lemma_handler_runs_before_destructor(fs: Seq<FrameRec>)
    ensures
        frame_dispatch_events(fs).len() == 2 * fs.len(),
        forall|i: int|
            0 <= i < fs.len() ==> #[trigger] frame_dispatch_events(fs)[2 * i]
                == frame_handled_event(fs[i], true),
        forall|i: int|
            0 <= i < fs.len() ==> #[trigger] frame_dispatch_events(fs)[2 * i + 1]
                == frame_dropped_event(fs[i]),
    decreases fs.len(),
{
    if fs.len() > 0 {
        lemma_handler_runs_before_destructor(fs.drop_last());
        assert(forall|i: int|
            0 <= i < fs.len() - 1 ==> #[trigger] fs.drop_last()[i] == fs[i]);
    }
}

/// What one drain call did, stated over the frames buffered before it and
/// the dispatcher's and termination handle's logs around it.
///
/// With `n` the number of frames processed: the first `n` frames were handled
/// and destroyed in FIFO order — each frame's handler event immediately
/// before its destruction event in the interleaved log — and the rest remain;
/// on `Ok` every handler succeeded, and either everything was drained or the
/// termination handle ended the drain with its one `false` answer, after
/// which no further frame was touched; on `Err` the failing frame was still
/// destroyed before the error surfaced, and the drain stopped with it.
pub open spec fn spec_dequeue_outcome<E>(
    frames_before: Seq<FrameRec>,
    frames_after: Seq<FrameRec>,
    handled_before: Seq<(u8, Seq<u8>, bool)>,
    handled_after: Seq<(u8, Seq<u8>, bool)>,
    dropped_before: Seq<(u8, Seq<u8>)>,
    dropped_after: Seq<(u8, Seq<u8>)>,
    events_before: Seq<DispatchEvent>,
    events_after: Seq<DispatchEvent>,
    polled_before: Seq<bool>,
    polled_after: Seq<bool>,
    r: Result<(), E>,
) -> bool {
    let fs = frames_before;
    let n = handled_after.len() - handled_before.len();
    &&& 0 <= n <= fs.len()
    &&& frames_after == fs.skip(n)
    &&& dropped_after == dropped_before + frame_drop_records(fs.take(n))
    &&& match r {
        Ok(_) => {
            &&& handled_after == handled_before + frame_handled_records(fs.take(n))
            &&& events_after == events_before + frame_dispatch_events(fs.take(n))
            &&& (n == fs.len() && polled_after == polled_before + repeat_true(n as nat)) || (n >= 1
                && polled_after == polled_before + repeat_true((n - 1) as nat).push(false))
        },
        Err(_) => {
            &&& n >= 1
            &&& handled_after == handled_before + frame_handled_records(fs.take(n - 1)).push(
                (fs[n - 1].compressed_type_identifier, fs[n - 1].body, false),
            )
            &&& events_after == events_before + frame_dispatch_events(fs.take(n - 1)).push(
                frame_handled_event(fs[n - 1], false),
            ).push(frame_dropped_event(fs[n - 1]))
            &&& polled_after == polled_before + repeat_true((n - 1) as nat)
        },
    }
}

/// Round-trip: over any drain, the handler invocations the dispatcher
/// records are exactly the buffered frames, in order — each handler saw the
/// tag and, byte for byte, the body that the producer enqueued — and the
/// dispatcher's earlier records are untouched.
pub proof fn lemma_round_trip<E>(
    frames_before: Seq<FrameRec>,
    frames_after: Seq<FrameRec>,
    handled_before: Seq<(u8, Seq<u8>, bool)>,
    handled_after: Seq<(u8, Seq<u8>, bool)>,
    dropped_before: Seq<(u8, Seq<u8>)>,
    dropped_after: Seq<(u8, Seq<u8>)>,
    events_before: Seq<DispatchEvent>,
    events_after: Seq<DispatchEvent>,
    polled_before: Seq<bool>,
    polled_after: Seq<bool>,
    r: Result<(), E>,
)
    requires
        spec_dequeue_outcome(
            frames_before,
            frames_after,
            handled_before,
            handled_after,
            dropped_before,
            dropped_after,
            events_before,
            events_after,
            polled_before,
            polled_after,
            r,
        ),
    ensures
        handled_before.len() <= handled_after.len() <= handled_before.len()
            + frames_before.len(),
        forall|i: int|
            0 <= i < handled_after.len() - handled_before.len()
                ==> (#[trigger] handled_after[handled_before.len() + i]).0
                == frames_before[i].compressed_type_identifier && handled_after[handled_before.len()
                + i].1 == frames_before[i].body,
        forall|i: int| 0 <= i < handled_before.len() ==> handled_after[i] == handled_before[i],
{
    let fs = frames_before;
    let n = handled_after.len() - handled_before.len();
    assert forall|i: int|
        0 <= i < n implies (#[trigger] handled_after[handled_before.len() + i]).0
        == fs[i].compressed_type_identifier && handled_after[handled_before.len() + i].1
        == fs[i].body by {
        if r is Ok {
            assert(handled_after[handled_before.len() + i] == frame_handled_records(fs.take(n))[i]);
        } else {
            if i < n - 1 {
                assert(handled_after[handled_before.len() + i] == frame_handled_records(
                    fs.take(n - 1),
                )[i]);
            }
        }
    }
}

/// Exactly-once drop: whatever part of the buffered frames a drain destroyed,
/// destroying the remainder at teardown destroys every message exactly once —
/// the two destruction logs concatenate to one destructor run over every
/// frame, one record per message.
pub proof fn lemma_exactly_once_drop(fs: Seq<FrameRec>, n: int)
    requires
        0 <= n <= fs.len(),
    ensures
        frame_drop_records(fs.take(n)) + frame_drop_records(fs.skip(n)) == frame_drop_records(fs),
        frame_drop_records(fs).len() == fs.len(),
{
    assert(frame_drop_records(fs.take(n)) + frame_drop_records(fs.skip(n)) =~= frame_drop_records(
        fs,
    ));
}

/// FIFO: draining in stages observes the same messages, in the same order,
/// as draining at once — the handler records of a first stage of `n` frames
/// followed by a second stage of `k` more concatenate to the records of one
/// drain of `n + k` frames.
pub proof fn lemma_fifo_drain_in_stages(fs: Seq<FrameRec>, n: int, k: int)
    requires
        0 <= n,
        0 <= k,
        n + k <= fs.len(),
    ensures
        frame_handled_records(fs.take(n)) + frame_handled_records(fs.skip(n).take(k))
            == frame_handled_records(fs.take(n + k)),
        frame_drop_records(fs.take(n)) + frame_drop_records(fs.skip(n).take(k))
            == frame_drop_records(fs.take(n + k)),
{
    assert(frame_handled_records(fs.take(n)) + frame_handled_records(fs.skip(n).take(k))
        =~= frame_handled_records(fs.take(n + k)));
    assert(frame_drop_records(fs.take(n)) + frame_drop_records(fs.skip(n).take(k))
        =~= frame_drop_records(fs.take(n + k)));
}

/// A queue of variably-sized messages of different types, suitable for
/// many-writer, single-consumer usage.
///
/// Both the sending side and the receiving side go through the same
/// handlers table, so teardown can destroy leftover messages.
pub struct Queue {
    ring_buffer: RingBuffer,
    message_handlers: MessageHandlers,
}

impl Queue {
    /// The handlers table the queue was built with.
    pub closed spec fn spec_message_handlers(&self) -> MessageHandlers {
        self.message_handlers
    }

    /// The registrations of the queue's handlers table, in tag order.
    pub open spec fn spec_registrations(&self) -> Seq<BodyTypeRegistration> {
        self.spec_message_handlers().spec_registrations()
    }

    /// The ring's capacity in bytes.
    pub closed spec fn spec_capacity(&self) -> int {
        self.ring_buffer.capacity()
    }

    /// How many bytes of frames are buffered and undrained.
    pub closed spec fn spec_buffered_bytes(&self) -> int {
        self.ring_buffer.contents().len() as int
    }

    /// The physical offset at which the next frame will start.
    pub closed spec fn spec_write_offset(&self) -> int {
        self.ring_buffer.write_offset()
    }

    /// The messages sitting in the queue, oldest first.
    pub closed spec fn frames(&self) -> Seq<FrameRec> {
        parse_frames(
            self.ring_buffer.contents(),
            self.message_handlers.spec_body_sizes(),
        ).unwrap()
    }

    /// Well-formedness: the ring and the table are well-formed, and the
    /// buffered bytes are exactly a whole number of well-formed frames.
    pub closed spec fn wf(&self) -> bool {
        &&& self.ring_buffer.wf()
        &&& self.message_handlers.wf()
        &&& parse_frames(
            self.ring_buffer.contents(),
            self.message_handlers.spec_body_sizes(),
        ) is Some
    }

    /// A well-formed queue carries a well-formed handlers table.
    pub proof fn lemma_wf_message_handlers(&self)
        requires
            self.wf(),
        ensures
            self.spec_message_handlers().wf(),
    {
    }

    /// A well-formed queue's next frame starts header-size-aligned, inside
    /// the ring.
    pub proof fn lemma_write_offset_aligned(&self)
        requires
            self.wf(),
        ensures
            self.spec_write_offset() % 4 == 0,
            0 <= self.spec_write_offset() < self.spec_capacity(),
    {
        self.ring_buffer.lemma_write_offset_aligned();
    }

    /// Allocates a new queue over a fresh ring of (at least)
    /// `queue_size_in_bytes` bytes.
    ///
    /// The budget is rounded up to a whole number of header-size units; a
    /// zero budget, or one beyond what a ring may hold, is refused.
    pub fn new(message_handlers: MessageHandlers, queue_size_in_bytes: usize) -> (r: Result<
        Queue,
        QueueAllocationError,
    >)
        requires
            message_handlers.wf(),
        ensures
            match r {
                Ok(q) => {
                    &&& 0 < queue_size_in_bytes <= MAXIMUM_RING_CAPACITY
                    &&& q.wf()
                    &&& q.frames() == Seq::<FrameRec>::empty()
                    &&& q.spec_message_handlers() == message_handlers
                    &&& q.spec_buffered_bytes() == 0
                    &&& q.spec_capacity() == spec_round_up_to_alignment(
                        queue_size_in_bytes as int,
                        4,
                    )
                },
                Err(_) => queue_size_in_bytes == 0 || queue_size_in_bytes
                    > MAXIMUM_RING_CAPACITY,
            },
    {
        if queue_size_in_bytes == 0 || queue_size_in_bytes > MAXIMUM_RING_CAPACITY {
            return Err(QueueAllocationError);
        }
        let capacity = round_up_to_alignment(queue_size_in_bytes, 4);
        proof {
            lemma_multiple_of_four_below(capacity as int, MAXIMUM_RING_CAPACITY as int);
        }
        let ring_buffer = RingBuffer::new(capacity);
        let q = Queue { ring_buffer, message_handlers };
        proof {
            lemma_parse_frames_empty(q.message_handlers.spec_body_sizes());
            assert(q.ring_buffer.contents() =~= Seq::<u8>::empty());
        }
        Ok(q)
    }

    /// The handlers table, for slow-path tag lookups.
    pub fn message_handlers(&self) -> (r: &MessageHandlers)
        ensures
            *r == self.spec_message_handlers(),
    {
        &self.message_handlers
    }

    /// Finds the tag for a registered body type.
    ///
    /// The caller asserts the type is registered; asking for an unregistered
    /// type is a programmer error.
    pub fn fixed_sized_message_body_compressed_type_identifier(&self, type_identifier: u64) -> (r:
        CompressedTypeIdentifier)
        requires
            self.wf(),
            self.spec_message_handlers().spec_is_registered(type_identifier),
        ensures
            0 <= r.spec_index() < self.spec_registrations().len(),
            self.spec_registrations()[r.spec_index()].type_identifier == type_identifier,
    {
        let found = self.message_handlers
            .find_fixed_size_message_body_compressed_type_identifier_from_type_identifier(
            type_identifier,
        );
        match found {
            Some(compressed_type_identifier) => compressed_type_identifier,
            None => {
                proof {
                    assert(false);
                }
                CompressedTypeIdentifier::from_index(0)
            },
        }
    }

    /// Enqueues one message: reserves a worst-case window on the ring,
    /// frames the body into it, and publishes the frame.
    ///
    /// The caller asserts that the tag was handed out by this queue's table
    /// and that the body has the registered size. When the ring lacks room
    /// for a worst-case frame the enqueue reports `QueueFull` rather than
    /// spinning; the caller retries once the consumer has drained.
    pub fn enqueue(
        &mut self,
        fixed_sized_message_body_compressed_type_identifier: CompressedTypeIdentifier,
        message_body: &Vec<u8>,
    ) -> (r: Result<(), QueueFull>)
        requires
            old(self).wf(),
            0 <= fixed_sized_message_body_compressed_type_identifier.spec_index() < old(
                self,
            ).spec_registrations().len(),
            message_body@.len() == old(self).spec_registrations()[fixed_sized_message_body_compressed_type_identifier.spec_index()].body_size,
        ensures
            final(self).wf(),
            final(self).spec_message_handlers() == old(self).spec_message_handlers(),
            final(self).spec_capacity() == old(self).spec_capacity(),
            ({
                let tag = fixed_sized_message_body_compressed_type_identifier.spec_index();
                let registration = old(self).spec_registrations()[tag];
                let largest = spec_registration_largest_message(registration);
                let window_offset = old(self).spec_write_offset();
                let padding = spec_body_padding(
                    window_offset,
                    registration.body_size as int,
                    registration.body_alignment as int,
                );
                let total = spec_total_message_size(
                    window_offset,
                    registration.body_size as int,
                    registration.body_alignment as int,
                );
                match r {
                    Ok(_) => {
                        &&& largest <= old(self).spec_capacity() - old(
                            self,
                        ).spec_buffered_bytes()
                        &&& final(self).frames() == old(self).frames().push(
                            FrameRec {
                                compressed_type_identifier: tag as u8,
                                padding: padding as u8,
                                total_size: total as u16,
                                body: message_body@,
                            },
                        )
                        &&& final(self).spec_buffered_bytes() == old(self).spec_buffered_bytes()
                            + total
                        &&& 4 + padding + message_body@.len() <= total <= largest
                        &&& total % 4 == 0
                        &&& total % 2 == 0
                        &&& registration.body_size > 0 ==> (window_offset + 4 + padding)
                            % registration.body_alignment as int == 0
                    },
                    Err(_) => {
                        &&& largest > old(self).spec_capacity() - old(self).spec_buffered_bytes()
                        &&& *final(self) == *old(self)
                    },
                }
            }),
    {
        let registration = self.message_handlers.entry(
            fixed_sized_message_body_compressed_type_identifier,
        );
        let largest_possible_total_message_size =
            largest_possible_total_message_size_including_message_header(
            registration.body_size,
            registration.body_alignment,
        );
        let available = self.ring_buffer.available_bytes();
        if largest_possible_total_message_size > available {
            return Err(QueueFull);
        }
        let window_offset = self.ring_buffer.current_write_offset();
        proof {
            lemma_message_layout(
                window_offset as int,
                registration.body_size as int,
                registration.body_alignment as int,
            );
        }
        let padding = number_of_bytes_padding_to_align_message_body(
            window_offset,
            registration.body_size,
            registration.body_alignment,
        );
        let total = total_message_size_for_window_offset(
            window_offset,
            registration.body_size,
            registration.body_alignment,
        );
        let frame = encode_message_frame(
            fixed_sized_message_body_compressed_type_identifier,
            padding,
            total,
            message_body,
        );
        proof {
            let f = FrameRec {
                compressed_type_identifier:
                    fixed_sized_message_body_compressed_type_identifier.spec_index() as u8,
                padding: padding as u8,
                total_size: total as u16,
                body: message_body@,
            };
            assert(frame_valid(f, self.message_handlers.spec_body_sizes()));
            lemma_parse_frames_extend(
                self.ring_buffer.contents(),
                self.message_handlers.spec_body_sizes(),
                f,
            );
        }
        self.ring_buffer.append(&frame);
        Ok(())
    }

    /// Enqueues one message, resolving the body type's tag through the hash
    /// map first: slow but safe, and unnecessary once the caller has cached
    /// the tag from `fixed_sized_message_body_compressed_type_identifier`.
    pub fn enqueue_slow_but_safe(&mut self, type_identifier: u64, message_body: &Vec<u8>) -> (r:
        Result<(), QueueFull>)
        requires
            old(self).wf(),
            old(self).spec_message_handlers().spec_is_registered(type_identifier),
            forall|i: int|
                0 <= i < old(self).spec_registrations().len() && (#[trigger] old(
                    self,
                ).spec_registrations()[i]).type_identifier == type_identifier ==> message_body@.len()
                    == old(self).spec_registrations()[i].body_size,
        ensures
            final(self).wf(),
            final(self).spec_message_handlers() == old(self).spec_message_handlers(),
            final(self).spec_capacity() == old(self).spec_capacity(),
            match r {
                Ok(_) => {
                    &&& final(self).frames().len() == old(self).frames().len() + 1
                    &&& final(self).frames().drop_last() == old(self).frames()
                    &&& final(self).frames().last().body == message_body@
                    &&& old(self).spec_registrations()[final(self).frames().last().compressed_type_identifier
                        as int].type_identifier == type_identifier
                    &&& forall|i: int|
                        0 <= i < old(self).spec_registrations().len() && (#[trigger] old(
                            self,
                        ).spec_registrations()[i]).type_identifier == type_identifier
                            ==> final(self).spec_buffered_bytes() <= old(
                            self,
                        ).spec_buffered_bytes() + spec_registration_largest_message(
                            old(self).spec_registrations()[i],
                        )
                },
                Err(_) => {
                    &&& *final(self) == *old(self)
                    &&& forall|i: int|
                        0 <= i < old(self).spec_registrations().len() && (#[trigger] old(
                            self,
                        ).spec_registrations()[i]).type_identifier == type_identifier
                            ==> spec_registration_largest_message(old(self).spec_registrations()[i])
                            > old(self).spec_capacity() - old(self).spec_buffered_bytes()
                },
            },
    {
        let compressed_type_identifier = self.fixed_sized_message_body_compressed_type_identifier(
            type_identifier,
        );
        let result = self.enqueue(compressed_type_identifier, message_body);
        proof {
            if result is Ok {
                assert(self.frames().drop_last() =~= old(self).frames());
                let tag = compressed_type_identifier.spec_index();
                old(self).spec_message_handlers().lemma_distinct_type_identifiers();
                assert forall|i: int|
                    0 <= i < old(self).spec_registrations().len() && (#[trigger] old(
                        self,
                    ).spec_registrations()[i]).type_identifier == type_identifier implies
                    self.spec_buffered_bytes() <= old(self).spec_buffered_bytes()
                        + spec_registration_largest_message(old(self).spec_registrations()[i]) by {
                    assert(i == tag);
                }
            } else {
                let tag = compressed_type_identifier.spec_index();
                old(self).spec_message_handlers().lemma_distinct_type_identifiers();
                assert forall|i: int|
                    0 <= i < old(self).spec_registrations().len() && (#[trigger] old(
                        self,
                    ).spec_registrations()[i]).type_identifier == type_identifier implies
                    spec_registration_largest_message(old(self).spec_registrations()[i]) > old(
                        self,
                    ).spec_capacity() - old(self).spec_buffered_bytes() by {
                    assert(i == tag);
                }
            }
        }
        result
    }

    /// Processes the frame at the head of the ring: reads its header,
    /// locates the body, hands the message to the dispatcher, and releases
    /// the frame's bytes.
    ///
    /// With `invoke_handler` the registered handler runs first and the
    /// destructor after it, even when the handler fails; without it, only
    /// the destructor runs, as in the teardown drain.
    fn process_next_message_in_buffer<D: MessageDispatch>(
        &mut self,
        dispatcher: &mut D,
        invoke_handler: bool,
    ) -> (r: Result<(), D::DequeuedMessageProcessingError>)
        requires
            old(self).wf(),
            old(self).frames().len() > 0,
        ensures
            final(self).wf(),
            final(self).spec_message_handlers() == old(self).spec_message_handlers(),
            final(self).spec_capacity() == old(self).spec_capacity(),
            final(self).frames() == old(self).frames().skip(1),
            ({
                let f = old(self).frames()[0];
                &&& final(self).spec_buffered_bytes() == old(self).spec_buffered_bytes()
                    - f.total_size
                &&& final(dispatcher).dropped() == old(dispatcher).dropped().push(
                    (f.compressed_type_identifier, f.body),
                )
                &&& invoke_handler ==> final(dispatcher).handled() == old(
                    dispatcher,
                ).handled().push((f.compressed_type_identifier, f.body, r is Ok))
                    && final(dispatcher).events() == old(dispatcher).events().push(
                    frame_handled_event(f, r is Ok),
                ).push(frame_dropped_event(f))
                &&& !invoke_handler ==> final(dispatcher).handled() == old(dispatcher).handled()
                    && final(dispatcher).events() == old(dispatcher).events().push(
                    frame_dropped_event(f),
                ) && r is Ok
            }),
    {
        proof {
            lemma_parse_frames_first(
                self.ring_buffer.contents(),
                self.message_handlers.spec_body_sizes(),
            );
        }
        let header_bytes = self.ring_buffer.read_bytes(0, 4);
        let message_header = MessageHeader::decode(&header_bytes);
        let total = message_header
            .total_message_size_including_message_header_padding_to_align_before_message_body_and_padding_to_align_after();
        let message_body_offset = message_header.message_body_offset();
        let registration = self.message_handlers.entry(
            message_header.compressed_type_identifier,
        );
        let message_body = self.ring_buffer.read_bytes(message_body_offset, registration.body_size);
        let result = if invoke_handler {
            self.message_handlers.call_and_drop_in_place(
                message_header.compressed_type_identifier,
                &message_body,
                dispatcher,
            )
        } else {
            self.message_handlers.drop_in_place(
                message_header.compressed_type_identifier,
                &message_body,
                dispatcher,
            );
            Ok(())
        };
        self.ring_buffer.consume(total);
        result
    }

    /// Drains the queue: for each frame, in FIFO order, the registered
    /// handler runs and then the destructor, until the ring is empty, a
    /// handler returns an error, or the termination handle answers `false`.
    ///
    /// The contract pins the whole drain down. With `n` the number of frames
    /// processed this call: the first `n` buffered frames were handled and
    /// destroyed in order and the rest remain; on `Ok` every handler
    /// succeeded, and either the ring was drained or the termination handle
    /// ended the loop with its one `false` answer; on `Err` the failing
    /// frame was still destroyed before the error surfaced, and no further
    /// frame was touched. The handle is polled after each frame, never
    /// inside one, so cancellation takes effect within one frame.
    pub fn dequeue<T: Terminate, D: MessageDispatch>(
        &mut self,
        terminate: &mut T,
        dispatcher: &mut D,
    ) -> (r: Result<(), D::DequeuedMessageProcessingError>)
        requires
            old(self).wf(),
        ensures
            final(self).wf(),
            final(self).spec_message_handlers() == old(self).spec_message_handlers(),
            final(self).spec_capacity() == old(self).spec_capacity(),
            spec_dequeue_outcome(
                old(self).frames(),
                final(self).frames(),
                old(dispatcher).handled(),
                final(dispatcher).handled(),
                old(dispatcher).dropped(),
                final(dispatcher).dropped(),
                old(dispatcher).events(),
                final(dispatcher).events(),
                old(terminate).polled(),
                final(terminate).polled(),
                r,
            ),
    {
        let ghost fs = old(self).frames();
        let ghost handled0 = dispatcher.handled();
        let ghost dropped0 = dispatcher.dropped();
        let ghost events0 = dispatcher.events();
        let ghost polled0 = terminate.polled();
        let ghost handlers0 = old(self).spec_message_handlers();
        let ghost capacity0 = old(self).spec_capacity();
        let ghost mut n: int = 0;
        proof {
            assert(fs.skip(0int) =~= fs);
            assert(frame_drop_records(fs.take(0)) =~= Seq::<(u8, Seq<u8>)>::empty());
            assert(frame_handled_records(fs.take(0)) =~= Seq::<(u8, Seq<u8>, bool)>::empty());
            assert(fs.take(0int) =~= Seq::<FrameRec>::empty());
            assert(repeat_true(0) =~= Seq::<bool>::empty());
            assert(dispatcher.dropped() =~= dropped0 + frame_drop_records(fs.take(0)));
            assert(dispatcher.handled() =~= handled0 + frame_handled_records(fs.take(0)));
            assert(dispatcher.events() =~= events0 + frame_dispatch_events(fs.take(0)));
            assert(terminate.polled() =~= polled0 + repeat_true(0));
        }
        #[verifier::loop_isolation(false)]
        loop
            invariant
                self.wf(),
                self.spec_message_handlers() == handlers0,
                self.spec_capacity() == capacity0,
                0 <= n <= fs.len(),
                self.frames() == fs.skip(n),
                dispatcher.handled() == handled0 + frame_handled_records(fs.take(n)),
                dispatcher.dropped() == dropped0 + frame_drop_records(fs.take(n)),
                dispatcher.events() == events0 + frame_dispatch_events(fs.take(n)),
                terminate.polled() == polled0 + repeat_true(n as nat),
            decreases fs.len() - n,
        {
            if self.ring_buffer.used_bytes() == 0 {
                proof {
                    assert(self.frames().len() == 0);
                    assert(n == fs.len());
                }
                return Ok(());
            }
            proof {
                assert(self.ring_buffer.contents().len() > 0);
                assert(self.frames().len() > 0);
                assert(fs.skip(n)[0] == fs[n]);
            }
            let result = self.process_next_message_in_buffer(dispatcher, true);
            proof {
                n = n + 1;
                assert(fs.skip(n - 1).skip(1) =~= fs.skip(n));
                assert(dispatcher.dropped() =~= dropped0 + frame_drop_records(fs.take(n)));
                assert(fs.take(n).drop_last() =~= fs.take(n - 1));
                assert(fs.take(n).last() == fs[n - 1]);
            }
            if let Err(e) = result {
                proof {
                    assert(dispatcher.handled() =~= handled0 + frame_handled_records(
                        fs.take(n - 1),
                    ).push((fs[n - 1].compressed_type_identifier, fs[n - 1].body, false)));
                    assert(dispatcher.events() =~= events0 + frame_dispatch_events(
                        fs.take(n - 1),
                    ).push(frame_handled_event(fs[n - 1], false)).push(
                        frame_dropped_event(fs[n - 1]),
                    ));
                }
                return Err(e);
            }
            proof {
                assert(dispatcher.handled() =~= handled0 + frame_handled_records(fs.take(n)));
                assert(dispatcher.events() =~= events0 + frame_dispatch_events(fs.take(n)));
            }
            if !terminate.should_continue() {
                proof {
                    assert(terminate.polled() =~= polled0 + repeat_true((n - 1) as nat).push(
                        false,
                    ));
                }
                return Ok(());
            }
            proof {
                assert(terminate.polled() =~= polled0 + repeat_true(n as nat));
            }
        }
    }

    /// The teardown drain: walks every remaining frame exactly as `dequeue`
    /// does, but invokes only the destructor for each, leaving the queue
    /// empty.
    ///
    /// Together with `dequeue`'s contract this is what makes destruction
    /// exactly-once: whatever a drain did not handle is destroyed here, once.
    pub fn drop_remaining_messages<D: MessageDispatch>(&mut self, dispatcher: &mut D)
        requires
            old(self).wf(),
        ensures
            final(self).wf(),
            final(self).spec_message_handlers() == old(self).spec_message_handlers(),
            final(self).spec_capacity() == old(self).spec_capacity(),
            final(self).frames() == Seq::<FrameRec>::empty(),
            final(self).spec_buffered_bytes() == 0,
            final(dispatcher).dropped() == old(dispatcher).dropped() + frame_drop_records(
                old(self).frames(),
            ),
            final(dispatcher).handled() == old(dispatcher).handled(),
            final(dispatcher).events() == old(dispatcher).events() + frame_drop_events(
                old(self).frames(),
            ),
    {
        let ghost fs = old(self).frames();
        let ghost dropped0 = dispatcher.dropped();
        let ghost events0 = dispatcher.events();
        let ghost mut n: int = 0;
        proof {
            assert(fs.skip(0int) =~= fs);
            assert(dispatcher.dropped() =~= dropped0 + frame_drop_records(fs.take(0int)));
            assert(dispatcher.events() =~= events0 + frame_drop_events(fs.take(0int)));
        }
        #[verifier::loop_isolation(false)]
        loop
            invariant
                self.wf(),
                self.spec_message_handlers() == old(self).spec_message_handlers(),
                self.spec_capacity() == old(self).spec_capacity(),
                0 <= n <= fs.len(),
                self.frames() == fs.skip(n),
                dispatcher.dropped() == dropped0 + frame_drop_records(fs.take(n)),
                dispatcher.handled() == old(dispatcher).handled(),
                dispatcher.events() == events0 + frame_drop_events(fs.take(n)),
            decreases fs.len() - n,
        {
            if self.ring_buffer.used_bytes() == 0 {
                proof {
                    assert(self.frames().len() == 0);
                    assert(fs.take(n) =~= fs);
                }
                return ;
            }
            proof {
                assert(self.frames().len() > 0);
                assert(fs.skip(n)[0] == fs[n]);
            }
            let _ = self.process_next_message_in_buffer(dispatcher, false);
            proof {
                n = n + 1;
                assert(fs.skip(n - 1).skip(1) =~= fs.skip(n));
                assert(dispatcher.dropped() =~= dropped0 + frame_drop_records(fs.take(n)));
                assert(dispatcher.events() =~= events0 + frame_drop_events(fs.take(n)));
            }
        }
    }

    /// How many bytes of frames sit in the queue, undrained.
    pub fn used_bytes(&self) -> (r: usize)
        requires
            self.wf(),
        ensures
            r == self.spec_buffered_bytes(),
    {
        self.ring_buffer.used_bytes()
    }

    /// The ring's capacity in bytes.
    pub fn capacity_in_bytes(&self) -> (r: usize)
        ensures
            r == self.spec_capacity(),
    {
        self.ring_buffer.capacity_in_bytes()
    }
}

} // verus!
