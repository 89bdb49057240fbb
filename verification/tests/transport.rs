//! The transport: enqueue, drain, cancellation, teardown, and the ring.

use message_dispatch::{
    CompressedTypeIdentifier, MessageDispatch, MessageHandlers, Queue, RingBuffer, Terminate,
};

/// Records every handler and destructor invocation, and fails the handler on
/// chosen tags.
struct RecordingDispatcher {
    handled: Vec<(u8, Vec<u8>, bool)>,
    dropped: Vec<(u8, Vec<u8>)>,
    fail_on_tag: Option<u8>,
}

impl RecordingDispatcher {
    fn new() -> Self {
        RecordingDispatcher { handled: Vec::new(), dropped: Vec::new(), fail_on_tag: None }
    }
}

impl MessageDispatch for RecordingDispatcher {
    type DequeuedMessageProcessingError = String;

    // The ghost logs exist only for verification; they are never called at
    // run time.
    fn handled(&self) -> vstd::seq::Seq<(u8, vstd::seq::Seq<u8>, bool)> {
        panic!("specification only")
    }

    fn dropped(&self) -> vstd::seq::Seq<(u8, vstd::seq::Seq<u8>)> {
        panic!("specification only")
    }

    fn events(&self) -> vstd::seq::Seq<message_dispatch::DispatchEvent> {
        panic!("specification only")
    }

    fn handle_message(
        &mut self,
        compressed_type_identifier: CompressedTypeIdentifier,
        message_body: &Vec<u8>,
    ) -> Result<(), String> {
        let tag = compressed_type_identifier.index() as u8;
        let failing = self.fail_on_tag == Some(tag);
        self.handled.push((tag, message_body.clone(), !failing));
        if failing {
            Err(String::from("handler refused the message"))
        } else {
            Ok(())
        }
    }

    fn drop_message(
        &mut self,
        compressed_type_identifier: CompressedTypeIdentifier,
        message_body: &Vec<u8>,
    ) {
        self.dropped.push((compressed_type_identifier.index() as u8, message_body.clone()));
    }
}

/// Answers `true` a fixed number of times, then `false` forever.
struct CountdownTerminate {
    remaining_true_answers: usize,
}

impl Terminate for CountdownTerminate {
    // The ghost log exists only for verification; it is never called at run
    // time.
    fn polled(&self) -> vstd::seq::Seq<bool> {
        panic!("specification only")
    }

    fn should_continue(&mut self) -> bool {
        if self.remaining_true_answers == 0 {
            false
        } else {
            self.remaining_true_answers -= 1;
            true
        }
    }
}

fn run_forever() -> CountdownTerminate {
    CountdownTerminate { remaining_true_answers: usize::MAX }
}

#[test]
fn single_type_round_trip() {
    let mut handlers = MessageHandlers::default();
    let tag = handlers
        .register_message_handler_internal(1, 8, 4)
        .expect("registration succeeds");
    let size = handlers.queue_size_in_bytes(16);
    let mut queue = Queue::new(handlers, size).expect("allocation succeeds");

    let mut body = 7u32.to_le_bytes().to_vec();
    body.extend_from_slice(&11u32.to_le_bytes());
    queue.enqueue(tag, &body).expect("ring has room");

    let mut dispatcher = RecordingDispatcher::new();
    let mut terminate = run_forever();
    queue.dequeue(&mut terminate, &mut dispatcher).expect("no handler error");

    assert_eq!(dispatcher.handled, vec![(0u8, body.clone(), true)]);
    assert_eq!(dispatcher.dropped, vec![(0u8, body)]);
    assert_eq!(queue.used_bytes(), 0);
}

#[test]
fn two_type_interleave_preserves_order_and_bytes() {
    let mut handlers = MessageHandlers::default();
    let tag_byte = handlers
        .register_message_handler_internal(1, 1, 1)
        .expect("registration succeeds");
    let tag_word = handlers
        .register_message_handler_internal(2, 8, 8)
        .expect("registration succeeds");
    assert_eq!(tag_byte.index(), 0);
    assert_eq!(tag_word.index(), 1);
    let size = handlers.queue_size_in_bytes(16);
    let mut queue = Queue::new(handlers, size).expect("allocation succeeds");

    let word = 0x0102030405060708u64.to_le_bytes().to_vec();
    queue.enqueue(tag_byte, &vec![0xAA]).expect("room");
    queue.enqueue(tag_word, &word).expect("room");
    queue.enqueue(tag_byte, &vec![0xBB]).expect("room");

    let mut dispatcher = RecordingDispatcher::new();
    let mut terminate = run_forever();
    queue.dequeue(&mut terminate, &mut dispatcher).expect("no handler error");

    assert_eq!(
        dispatcher.handled,
        vec![
            (0u8, vec![0xAA], true),
            (1u8, word.clone(), true),
            (0u8, vec![0xBB], true),
        ]
    );
    assert_eq!(
        dispatcher.dropped,
        vec![(0u8, vec![0xAA]), (1u8, word), (0u8, vec![0xBB])]
    );
}

#[test]
fn zero_sized_bodies_frame_as_bare_headers() {
    let mut handlers = MessageHandlers::default();
    let tag = handlers
        .register_message_handler_internal(1, 0, 1)
        .expect("registration succeeds");
    let mut queue = Queue::new(handlers, 64).expect("allocation succeeds");

    let empty: Vec<u8> = Vec::new();
    for _ in 0..3 {
        queue.enqueue(tag, &empty).expect("room");
    }
    // Three frames of exactly one header each.
    assert_eq!(queue.used_bytes(), 12);

    let mut dispatcher = RecordingDispatcher::new();
    let mut terminate = run_forever();
    queue.dequeue(&mut terminate, &mut dispatcher).expect("no handler error");
    assert_eq!(dispatcher.handled.len(), 3);
    assert_eq!(dispatcher.dropped.len(), 3);
    assert_eq!(queue.used_bytes(), 0);
}

#[test]
fn teardown_destroys_residual_messages_without_handling_them() {
    let mut handlers = MessageHandlers::default();
    let tag = handlers
        .register_message_handler_internal(1, 4, 4)
        .expect("registration succeeds");
    let size = handlers.queue_size_in_bytes(8);
    let mut queue = Queue::new(handlers, size).expect("allocation succeeds");

    for i in 0..5u32 {
        queue.enqueue(tag, &i.to_le_bytes().to_vec()).expect("room");
    }

    let mut dispatcher = RecordingDispatcher::new();
    // Allow exactly one further frame after the first: two handled in all.
    let mut terminate = CountdownTerminate { remaining_true_answers: 1 };
    queue.dequeue(&mut terminate, &mut dispatcher).expect("no handler error");
    assert_eq!(dispatcher.handled.len(), 2);

    queue.drop_remaining_messages(&mut dispatcher);
    assert_eq!(dispatcher.handled.len(), 2);
    assert_eq!(dispatcher.dropped.len(), 5);
    assert_eq!(queue.used_bytes(), 0);
    // Every message was destroyed exactly once, in FIFO order.
    for (i, record) in dispatcher.dropped.iter().enumerate() {
        assert_eq!(record.1, (i as u32).to_le_bytes().to_vec());
    }
}

#[test]
fn cancellation_stops_within_one_frame_and_the_rest_stay_queued() {
    let mut handlers = MessageHandlers::default();
    let tag = handlers
        .register_message_handler_internal(1, 4, 4)
        .expect("registration succeeds");
    let size = handlers.queue_size_in_bytes(16);
    let mut queue = Queue::new(handlers, size).expect("allocation succeeds");

    for i in 0..10u32 {
        queue.enqueue(tag, &i.to_le_bytes().to_vec()).expect("room");
    }

    let mut dispatcher = RecordingDispatcher::new();
    // `false` on the poll after the fourth handled frame.
    let mut terminate = CountdownTerminate { remaining_true_answers: 3 };
    let outcome = queue.dequeue(&mut terminate, &mut dispatcher);
    assert_eq!(outcome, Ok(()));
    assert_eq!(dispatcher.handled.len(), 4);

    let mut terminate = run_forever();
    queue.dequeue(&mut terminate, &mut dispatcher).expect("no handler error");
    assert_eq!(dispatcher.handled.len(), 10);
    assert_eq!(dispatcher.dropped.len(), 10);
    for (i, record) in dispatcher.handled.iter().enumerate() {
        assert_eq!(record.1, (i as u32).to_le_bytes().to_vec());
        assert!(record.2);
    }
}

#[test]
fn handler_errors_surface_after_the_destructor_ran() {
    let mut handlers = MessageHandlers::default();
    let tag_fine = handlers
        .register_message_handler_internal(1, 1, 1)
        .expect("registration succeeds");
    let tag_bad = handlers
        .register_message_handler_internal(2, 1, 1)
        .expect("registration succeeds");
    let size = handlers.queue_size_in_bytes(8);
    let mut queue = Queue::new(handlers, size).expect("allocation succeeds");

    queue.enqueue(tag_fine, &vec![1]).expect("room");
    queue.enqueue(tag_bad, &vec![2]).expect("room");
    queue.enqueue(tag_fine, &vec![3]).expect("room");

    let mut dispatcher = RecordingDispatcher::new();
    dispatcher.fail_on_tag = Some(1);
    let mut terminate = run_forever();
    let outcome = queue.dequeue(&mut terminate, &mut dispatcher);
    assert_eq!(outcome, Err(String::from("handler refused the message")));
    // The failing frame was handled (unsuccessfully) and still destroyed.
    assert_eq!(dispatcher.handled.len(), 2);
    assert!(!dispatcher.handled[1].2);
    assert_eq!(dispatcher.dropped.len(), 2);
    // The frame after the error stays queued for the next drain.
    let mut terminate = run_forever();
    dispatcher.fail_on_tag = None;
    queue.dequeue(&mut terminate, &mut dispatcher).expect("no handler error");
    assert_eq!(dispatcher.handled.len(), 3);
    assert_eq!(dispatcher.handled[2].1, vec![3]);
}

#[test]
fn bodies_of_every_alignment_round_trip_byte_exactly() {
    for &alignment in &[1usize, 2, 4, 8, 16, 32] {
        let body_size = if alignment < 4 { 4 } else { alignment };
        let mut handlers = MessageHandlers::default();
        let tag = handlers
            .register_message_handler_internal(1, body_size, alignment)
            .expect("registration succeeds");
        let size = handlers.queue_size_in_bytes(8);
        let mut queue = Queue::new(handlers, size).expect("allocation succeeds");

        let mut expected: Vec<Vec<u8>> = Vec::new();
        for round in 0..5u8 {
            let body: Vec<u8> = (0..body_size).map(|i| round.wrapping_mul(31) ^ (i as u8)).collect();
            queue.enqueue(tag, &body).expect("room");
            expected.push(body);
        }
        let mut dispatcher = RecordingDispatcher::new();
        let mut terminate = run_forever();
        queue.dequeue(&mut terminate, &mut dispatcher).expect("no handler error");
        let bodies: Vec<Vec<u8>> = dispatcher.handled.iter().map(|r| r.1.clone()).collect();
        assert_eq!(bodies, expected);
    }
}

#[test]
fn frames_straddling_the_ring_end_stay_byte_exact() {
    let mut handlers = MessageHandlers::default();
    // A 12-byte, 4-aligned body frames to 20 bytes; a 28-byte ring capacity
    // cannot hold two frames, so successive frames wrap the physical end.
    let tag = handlers
        .register_message_handler_internal(1, 12, 4)
        .expect("registration succeeds");
    let mut queue = Queue::new(handlers, 28).expect("allocation succeeds");

    for round in 0..40u8 {
        let body: Vec<u8> = (0..12).map(|i| round.wrapping_mul(7) ^ (i as u8)).collect();
        queue.enqueue(tag, &body).expect("room");
        let mut dispatcher = RecordingDispatcher::new();
        let mut terminate = run_forever();
        queue.dequeue(&mut terminate, &mut dispatcher).expect("no handler error");
        assert_eq!(dispatcher.handled, vec![(0u8, body.clone(), true)]);
        assert_eq!(dispatcher.dropped, vec![(0u8, body)]);
    }
}

#[test]
fn a_full_ring_refuses_the_enqueue_until_drained() {
    let mut handlers = MessageHandlers::default();
    // Worst-case frame of an 8-byte, 8-aligned body is 16 bytes.
    let tag = handlers
        .register_message_handler_internal(1, 8, 8)
        .expect("registration succeeds");
    let mut queue = Queue::new(handlers, 16).expect("allocation succeeds");

    let body = 0xFEEDFACE_u64.to_le_bytes().to_vec();
    queue.enqueue(tag, &body).expect("the first frame fits");
    assert!(queue.enqueue(tag, &body).is_err());

    let mut dispatcher = RecordingDispatcher::new();
    let mut terminate = run_forever();
    queue.dequeue(&mut terminate, &mut dispatcher).expect("no handler error");
    queue.enqueue(tag, &body).expect("room again after draining");
}

#[test]
fn queue_allocation_rejects_empty_and_oversized_budgets() {
    let handlers = MessageHandlers::default();
    assert!(Queue::new(handlers, 0).is_err());
    let handlers = MessageHandlers::default();
    assert!(Queue::new(handlers, 0x1000_0001).is_err());
    let handlers = MessageHandlers::default();
    let queue = Queue::new(handlers, 6).expect("rounded up to eight");
    assert_eq!(queue.capacity_in_bytes(), 8);
}

#[test]
fn the_ring_buffer_is_a_byte_fifo_across_physical_wrap() {
    let mut ring = RingBuffer::new(16);
    assert_eq!(ring.capacity_in_bytes(), 16);
    assert_eq!(ring.available_bytes(), 16);

    let first: Vec<u8> = (1..=12u8).collect();
    ring.append(&first);
    assert_eq!(ring.used_bytes(), 12);
    assert_eq!(ring.read_bytes(0, 12), (1..=12u8).collect::<Vec<u8>>());

    ring.consume(8);
    assert_eq!(ring.used_bytes(), 4);
    // This append wraps around the physical end of the storage.
    let second: Vec<u8> = (13..=20u8).collect();
    ring.append(&second);
    assert_eq!(ring.used_bytes(), 12);
    assert_eq!(ring.read_bytes(0, 12), (9..=20u8).collect::<Vec<u8>>());
    assert_eq!(ring.read_bytes(4, 8), (13..=20u8).collect::<Vec<u8>>());

    ring.consume(12);
    assert_eq!(ring.used_bytes(), 0);
    assert_eq!(ring.available_bytes(), 16);
}

/// Records handler and destructor invocations in one interleaved log, to
/// observe their relative order.
struct OrderedDispatcher {
    events: Vec<String>,
}

impl MessageDispatch for OrderedDispatcher {
    type DequeuedMessageProcessingError = String;

    // The ghost logs exist only for verification; they are never called at
    // run time.
    fn handled(&self) -> vstd::seq::Seq<(u8, vstd::seq::Seq<u8>, bool)> {
        panic!("specification only")
    }

    fn dropped(&self) -> vstd::seq::Seq<(u8, vstd::seq::Seq<u8>)> {
        panic!("specification only")
    }

    fn events(&self) -> vstd::seq::Seq<message_dispatch::DispatchEvent> {
        panic!("specification only")
    }

    fn handle_message(
        &mut self,
        compressed_type_identifier: CompressedTypeIdentifier,
        _message_body: &Vec<u8>,
    ) -> Result<(), String> {
        self.events.push(format!("handle {}", compressed_type_identifier.index()));
        Ok(())
    }

    fn drop_message(&mut self, compressed_type_identifier: CompressedTypeIdentifier, _: &Vec<u8>) {
        self.events.push(format!("drop {}", compressed_type_identifier.index()));
    }
}

#[test]
fn dispatch_runs_the_handler_then_the_destructor() {
    let mut handlers = MessageHandlers::default();
    let tag = handlers
        .register_message_handler_internal(1, 1, 1)
        .expect("registration succeeds");
    let mut dispatcher = OrderedDispatcher { events: Vec::new() };
    let body = vec![0x5A];
    handlers
        .call_and_drop_in_place(tag, &body, &mut dispatcher)
        .expect("the handler succeeds");
    handlers.drop_in_place(tag, &body, &mut dispatcher);
    assert_eq!(
        dispatcher.events,
        vec![
            String::from("handle 0"),
            String::from("drop 0"),
            String::from("drop 0"),
        ]
    );
}

#[test]
fn a_whole_drain_alternates_handler_and_destructor_per_frame() {
    let mut handlers = MessageHandlers::default();
    let tag = handlers
        .register_message_handler_internal(1, 1, 1)
        .expect("registration succeeds");
    let size = handlers.queue_size_in_bytes(4);
    let mut queue = Queue::new(handlers, size).expect("allocation succeeds");
    queue.enqueue(tag, &vec![1]).expect("room");
    queue.enqueue(tag, &vec![2]).expect("room");

    let mut dispatcher = OrderedDispatcher { events: Vec::new() };
    let mut terminate = run_forever();
    queue.dequeue(&mut terminate, &mut dispatcher).expect("no handler error");
    assert_eq!(
        dispatcher.events,
        vec![
            String::from("handle 0"),
            String::from("drop 0"),
            String::from("handle 0"),
            String::from("drop 0"),
        ]
    );
}

#[test]
fn the_slow_but_safe_enqueue_resolves_the_tag_itself() {
    let mut handlers = MessageHandlers::default();
    handlers
        .register_message_handler_internal(51, 4, 4)
        .expect("registration succeeds");
    handlers
        .register_message_handler_internal(52, 4, 4)
        .expect("registration succeeds");
    let size = handlers.queue_size_in_bytes(4);
    let mut queue = Queue::new(handlers, size).expect("allocation succeeds");
    queue
        .enqueue_slow_but_safe(52, &vec![9, 9, 9, 9])
        .expect("room");
    let mut dispatcher = RecordingDispatcher::new();
    let mut terminate = run_forever();
    queue.dequeue(&mut terminate, &mut dispatcher).expect("no handler error");
    assert_eq!(dispatcher.handled, vec![(1u8, vec![9, 9, 9, 9], true)]);
}

#[test]
fn the_slow_path_tag_lookup_reaches_the_queue() {
    let mut handlers = MessageHandlers::default();
    handlers
        .register_message_handler_internal(31, 4, 4)
        .expect("registration succeeds");
    handlers
        .register_message_handler_internal(32, 8, 8)
        .expect("registration succeeds");
    let size = handlers.queue_size_in_bytes(4);
    let mut queue = Queue::new(handlers, size).expect("allocation succeeds");

    let tag = queue.fixed_sized_message_body_compressed_type_identifier(32);
    assert_eq!(tag.index(), 1);
    queue
        .enqueue(tag, &0xABu64.to_le_bytes().to_vec())
        .expect("room");
    let mut dispatcher = RecordingDispatcher::new();
    let mut terminate = run_forever();
    queue.dequeue(&mut terminate, &mut dispatcher).expect("no handler error");
    assert_eq!(dispatcher.handled[0].0, 1);
}
