//! An in-process, many-producer / single-consumer message dispatch fabric.
//!
//! Producer threads publish heterogeneous messages of statically known body
//! types into per-consumer queues; each consumer drains its own queue,
//! invoking the handler registered for each message's body type and then
//! releasing the body exactly once.
//!
//! The heart of the crate is the per-queue transport: a ring-buffer storage
//! discipline over which variably sized frames are written and read as
//! contiguous byte spans, a framing codec that accommodates arbitrary body
//! alignment and supports worst-case window reservation, and a compact 8-bit
//! type tag assigned at registration time that drives a handler table.

pub mod alignment;
pub mod compressed_type_identifier;
pub mod framing;
pub mod message;
pub mod message_handlers;
pub mod message_handlers_registration;
pub mod message_handling;
pub mod message_header;
pub mod per_thread_queue_subscriber;
pub mod publisher;
pub mod queue;
pub mod queue_per_thread_queues_publisher;
pub mod queues;
pub mod registration_table;
pub mod ring_buffer;
pub mod round_robin_publisher;
pub mod subscriber;
pub mod terminate;
pub mod type_identifier_map;

pub use crate::compressed_type_identifier::CompressedTypeIdentifier;
pub use crate::message::Message;
pub use crate::message_handlers::{MessageHandlers, RegistrationError};
pub use crate::message_handlers_registration::MessageHandlersRegistration;
pub use crate::message_handling::{DispatchEvent, MessageDispatch};
pub use crate::message_header::MessageHeader;
pub use crate::per_thread_queue_subscriber::PerThreadQueueSubscriber;
pub use crate::publisher::Publisher;
pub use crate::queue::{Queue, QueueAllocationError, QueueFull};
pub use crate::queue_per_thread_queues_publisher::QueuePerThreadQueuesPublisher;
pub use crate::queues::Queues;
pub use crate::registration_table::BodyTypeRegistration;
pub use crate::ring_buffer::RingBuffer;
pub use crate::round_robin_publisher::RoundRobinPublisher;
pub use crate::subscriber::Subscriber;
pub use crate::terminate::Terminate;
