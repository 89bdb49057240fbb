//! Fan-out: the fleet, publishers, round-robin distribution and subscribers.

use message_dispatch::{
    CompressedTypeIdentifier, Message, MessageDispatch, MessageHandlers,
    MessageHandlersRegistration, PerThreadQueueSubscriber, Queues, QueuePerThreadQueuesPublisher,
    Terminate,
};

/// A message body of two little-endian 32-bit numbers.
struct TwoNumbers;

impl Message for TwoNumbers {
    type ConstructMessageArguments = (u32, u32);

    // The ghost members exist only for verification; they are never called
    // at run time.
    fn spec_type_identifier() -> u64 {
        panic!("specification only")
    }

    fn spec_body_size() -> usize {
        panic!("specification only")
    }

    fn spec_body_alignment() -> usize {
        panic!("specification only")
    }

    fn spec_construct(_: (u32, u32)) -> vstd::seq::Seq<u8> {
        panic!("specification only")
    }

    fn layout_is_valid() {
    }

    fn type_identifier() -> u64 {
        7001
    }

    fn body_size() -> usize {
        8
    }

    fn body_alignment() -> usize {
        4
    }

    fn construct_message(construct_message_arguments: (u32, u32)) -> Vec<u8> {
        let mut body = construct_message_arguments.0.to_le_bytes().to_vec();
        body.extend_from_slice(&construct_message_arguments.1.to_le_bytes());
        body
    }
}

/// Registers the fleet's message types into one table.
struct FleetRegistration;

impl MessageHandlersRegistration for FleetRegistration {
    type Arguments = ();

    fn register_all_message_handlers(
        &self,
        message_handlers: &mut MessageHandlers,
        _arguments: &(),
    ) {
        message_handlers
            .register_message_handler::<TwoNumbers>()
            .expect("registration succeeds");
    }
}

struct RecordingDispatcher {
    handled: Vec<(u8, Vec<u8>)>,
}

impl MessageDispatch for RecordingDispatcher {
    type DequeuedMessageProcessingError = String;

    // The ghost logs exist only for verification; they are never called at
    // run time.
    fn handled(&self) -> vstd::seq::Seq<(u8, vstd::seq::Seq<u8>, bool)> {
        panic!("specification only")
    }

    fn dropped(&self) -> vstd::seq::Seq<(u8, vstd::seq::Seq<u8>)> {
        panic!("specification only")
    }

    fn events(&self) -> vstd::seq::Seq<message_dispatch::DispatchEvent> {
        panic!("specification only")
    }

    fn handle_message(
        &mut self,
        compressed_type_identifier: CompressedTypeIdentifier,
        message_body: &Vec<u8>,
    ) -> Result<(), String> {
        self.handled.push((compressed_type_identifier.index() as u8, message_body.clone()));
        Ok(())
    }

    fn drop_message(&mut self, _: CompressedTypeIdentifier, _: &Vec<u8>) {}
}

struct RunForever;

impl Terminate for RunForever {
    // The ghost log exists only for verification; it is never called at run
    // time.
    fn polled(&self) -> vstd::seq::Seq<bool> {
        panic!("specification only")
    }

    fn should_continue(&mut self) -> bool {
        true
    }
}

fn fleet(hyper_threads: &Vec<u16>) -> Queues {
    let registration = FleetRegistration;
    let mut tables: Vec<MessageHandlers> = Vec::new();
    for _ in 0..hyper_threads.len() {
        let mut table = MessageHandlers::default();
        registration.register_all_message_handlers(&mut table, &());
        tables.push(table);
    }
    Queues::one_queue_for_each_hyper_thread(hyper_threads, tables, 32)
}

fn drain(queues: &mut Queues, hyper_thread: u16) -> Vec<(u8, Vec<u8>)> {
    let subscriber = queues.subscriber(hyper_thread);
    let mut dispatcher = RecordingDispatcher { handled: Vec::new() };
    let mut terminate = RunForever;
    subscriber
        .receive_and_handle_messages(queues, &mut terminate, &mut dispatcher)
        .expect("no handler error");
    dispatcher.handled
}

#[test]
fn a_publisher_reaches_the_requested_hyper_thread() {
    let hyper_threads: Vec<u16> = vec![0, 1, 2];
    let mut queues = fleet(&hyper_threads);
    let publisher = queues.publisher::<TwoNumbers>(0);

    let actual = publisher.publish(&mut queues, 2, (7, 11)).expect("room");
    assert_eq!(actual, 2);

    assert_eq!(drain(&mut queues, 1).len(), 0);
    let handled = drain(&mut queues, 2);
    let mut expected = 7u32.to_le_bytes().to_vec();
    expected.extend_from_slice(&11u32.to_le_bytes());
    assert_eq!(handled, vec![(0u8, expected)]);
}

#[test]
fn a_missing_queue_falls_back_to_the_default_hyper_thread() {
    // A sparse fleet: hyper-threads 2 and 5 take part.
    let hyper_threads: Vec<u16> = vec![2, 5];
    let mut queues = fleet(&hyper_threads);
    assert!(queues.has_queue_for(2));
    assert!(!queues.has_queue_for(3));

    let publisher = queues.publisher::<TwoNumbers>(2);
    let actual = publisher.publish(&mut queues, 3, (1, 2)).expect("room");
    assert_eq!(actual, 2);
    assert_eq!(drain(&mut queues, 2).len(), 1);
    assert_eq!(drain(&mut queues, 5).len(), 0);
}

#[test]
fn round_robin_distributes_in_order_and_wraps() {
    let hyper_threads: Vec<u16> = vec![0, 1, 2];
    let mut queues = fleet(&hyper_threads);
    let mut publisher = queues.round_robin_publisher::<TwoNumbers>(vec![0, 1, 2]);

    let mut published_to: Vec<u16> = Vec::new();
    for i in 0..7u32 {
        published_to.push(publisher.publish(&mut queues, (i, i)).expect("room"));
    }
    assert_eq!(published_to, vec![0, 1, 2, 0, 1, 2, 0]);
    assert_eq!(drain(&mut queues, 0).len(), 3);
    assert_eq!(drain(&mut queues, 1).len(), 2);
    assert_eq!(drain(&mut queues, 2).len(), 2);
}

#[test]
fn the_slow_publishing_path_lands_in_the_same_queue() {
    let hyper_threads: Vec<u16> = vec![0, 1];
    let mut queues = fleet(&hyper_threads);
    let actual = queues
        .publish_safe_but_slow::<TwoNumbers>(1, 0, (3, 4))
        .expect("room");
    assert_eq!(actual, 1);
    let actual = queues
        .publish_safe_but_slow::<TwoNumbers>(9, 0, (5, 6))
        .expect("room");
    assert_eq!(actual, 0);
    assert_eq!(drain(&mut queues, 0).len(), 1);
    assert_eq!(drain(&mut queues, 1).len(), 1);
}

#[test]
fn a_publisher_reports_fullness_and_recovers_after_a_drain() {
    let hyper_threads: Vec<u16> = vec![0];
    let registration = FleetRegistration;
    let mut table = MessageHandlers::default();
    registration.register_all_message_handlers(&mut table, &());
    // Room for exactly one worst-case frame of the registered body type.
    let mut queues = Queues::one_queue_for_each_hyper_thread(&hyper_threads, vec![table], 1);
    let publisher = queues.publisher::<TwoNumbers>(0);

    publisher.publish(&mut queues, 0, (1, 2)).expect("the first frame fits");
    assert!(publisher.publish(&mut queues, 0, (3, 4)).is_err());

    assert_eq!(drain(&mut queues, 0).len(), 1);
    publisher
        .publish(&mut queues, 0, (5, 6))
        .expect("room again after the consumer drained");
}

#[test]
fn a_per_thread_subscriber_owns_its_termination_handle() {
    let hyper_threads: Vec<u16> = vec![0];
    let mut queues = fleet(&hyper_threads);
    let publisher = queues.publisher::<TwoNumbers>(0);
    publisher.publish(&mut queues, 0, (8, 9)).expect("room");

    let mut subscriber = PerThreadQueueSubscriber::new(&queues, 0, RunForever);
    let mut dispatcher = RecordingDispatcher { handled: Vec::new() };
    subscriber
        .receive_and_handle_messages(&mut queues, &mut dispatcher)
        .expect("no handler error");
    assert_eq!(dispatcher.handled.len(), 1);
}

#[test]
fn the_tag_driven_facade_publishes_prepared_bodies() {
    let hyper_threads: Vec<u16> = vec![0, 1];
    let registration = FleetRegistration;
    let mut tables: Vec<MessageHandlers> = Vec::new();
    for _ in 0..hyper_threads.len() {
        let mut table = MessageHandlers::default();
        registration.register_all_message_handlers(&mut table, &());
        tables.push(table);
    }
    let mut facade = QueuePerThreadQueuesPublisher::allocate(&hyper_threads, tables, 8);

    let body = vec![1, 2, 3, 4, 5, 6, 7, 8];
    let tag = CompressedTypeIdentifier::from_index(0);
    facade.publish_message(1, tag, &body).expect("room");

    let mut queues = facade.into_queues();
    let handled = drain(&mut queues, 1);
    assert_eq!(handled, vec![(0u8, body)]);
}
