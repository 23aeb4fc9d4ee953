//! The disruptor-style ring.
//!
//! - [`sequence`] and [`atomic_sequence`]: the counter for one owner and the
//!   counter shared between threads, with the memory ordering of each
//!   shared access.
//! - [`capacity`]: which capacities a ring can have.
//! - [`protocol`]: the arithmetic both ends decide by, on plain numbers.
//! - [`storage`]: the slot array.
//! - [`channel`]: producer, consumer, and the core at which they meet. An
//!   operation holds the core exclusively while it runs; where the other
//!   end would have to make progress first, the operation is not taken.
//! - [`model`]: the channel as a state machine over the history of
//!   published values, and what holds of every run.

pub mod atomic_sequence;
pub mod capacity;
pub mod channel;
pub mod model;
pub mod protocol;
pub mod sequence;
pub mod storage;

pub use atomic_sequence::{ordering_for, Access, AtomicSequence};
pub use capacity::{is_valid_capacity, CapacityError};
pub use channel::consumer::{Consumer, ReadValue};
pub use channel::producer::Producer;
pub use channel::{spsc_disruptor, RingBufferCore};
pub use sequence::Sequence;
pub use storage::DisruptorRingBuffer;
