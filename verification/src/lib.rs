//! Bounded queues: a single-producer/single-consumer ring in the disruptor
//! style, and a plain bounded FIFO.
//!
//! The ring is a fixed array of slots, a power of two in number, shared by
//! one producer and one consumer. Two sequence counters coordinate them:
//! the cursor, which the producer moves onto each sequence it publishes, and
//! the consumer's sequence, which the consumer moves onto the last sequence
//! it has read. The producer never writes a slot whose value is unread; the
//! consumer takes everything published since its previous read as one
//! batch, in one or two borrowed runs of slots.
//!
//! [`disruptor`] holds the ring: the counters, the slot storage, the
//! arithmetic of the protocol, the channel built from them, and the channel
//! as a state machine with the properties proved of it. [`queue`] and
//! [`simple`] hold the bounded FIFO.

pub mod disruptor;
pub mod queue;
pub mod simple;

pub use queue::RingBuffer;
pub use simple::SimpleRingBuffer;
