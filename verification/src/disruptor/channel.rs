//! The shared core of a channel and the factory that builds a channel.

use crate::disruptor::capacity::{lemma_pow2_is_positive, CapacityError};
use crate::disruptor::channel::consumer::Consumer;
use crate::disruptor::channel::producer::Producer;
use crate::disruptor::model::ChannelState;
use crate::disruptor::sequence::Sequence;
use crate::disruptor::storage::DisruptorRingBuffer;
use vstd::arithmetic::power2::is_pow2;
use vstd::prelude::*;

pub mod consumer;
pub mod producer;

verus! {

/// The rendezvous of one producer and one consumer: the published cursor,
/// the consumer's acknowledged sequence, and the slot storage. Whoever
/// operates on the core holds it exclusively for the duration of the
/// operation.
pub struct RingBufferCore<T> {
    cursor: Sequence,
    consumer_sequence: Sequence,
    buffer: DisruptorRingBuffer<T>,
    published: Ghost<Seq<T>>,
}

impl<T> View for RingBufferCore<T> {
    type V = ChannelState<T>;

    closed spec fn view(&self) -> ChannelState<T> {
        ChannelState {
            capacity: self.buffer.capacity(),
            published: self.published@,
            consumer_sequence: self.consumer_sequence@,
        }
    }
}

impl<T> RingBufferCore<T> {
    /// The slot array, by position.
    pub closed spec fn slots(&self) -> Seq<T> {
        self.buffer@
    }

    /// The stored cursor counts the published history, and the storage is
    /// sound.
    pub closed spec fn consistent(&self) -> bool {
        &&& self.buffer.wf()
        &&& self.cursor@ == self@.cursor()
    }

    /// Well-formedness: the invariant of the channel holds and the slots
    /// hold what the history says.
    pub open spec fn wf(&self) -> bool {
        &&& self.consistent()
        &&& self@.inv()
        &&& self@.has_window(self.slots())
    }

    /// A core with `size` slots, nothing published and nothing
    /// acknowledged. Fails exactly when `size` is not a power of two.
    pub fn new(size: isize) -> (built: Result<Self, CapacityError>)
        ensures
            match built {
                Ok(core) => {
                    &&& is_pow2(size as int)
                    &&& core.wf()
                    &&& core@ == ChannelState::<T>::initial(size as int)
                    &&& core.slots() == Seq::<T>::empty()
                },
                Err(error) => !is_pow2(size as int) && error.requested == size,
            },
    {
        match DisruptorRingBuffer::new(size) {
            Ok(buffer) => {
                proof {
                    lemma_pow2_is_positive(size as int);
                }
                Ok(
                    RingBufferCore {
                        cursor: Sequence::new(),
                        consumer_sequence: Sequence::new(),
                        buffer,
                        published: Ghost(Seq::empty()),
                    },
                )
            },
            Err(error) => Err(error),
        }
    }

    /// The last sequence published, `-1` before the first.
    pub fn cursor(&self) -> (cursor: isize)
        requires
            self.wf(),
        ensures
            cursor == self@.cursor(),
    {
        self.cursor.get()
    }

    /// The last sequence the consumer has acknowledged, `-1` before the
    /// first.
    pub fn consumer_sequence(&self) -> (sequence: isize)
        ensures
            sequence == self@.consumer_sequence,
    {
        self.consumer_sequence.get()
    }

    /// The number of slots.
    pub fn size(&self) -> (size: isize)
        ensures
            size == self@.capacity,
    {
        self.buffer.size()
    }
}

/// Builds one channel: a producer, a consumer, and the core at which they
/// meet, with nothing published yet. Fails exactly when `size` is not a
/// power of two.
pub fn spsc_disruptor<T>(size: isize) -> (built: Result<
    (Producer<T>, Consumer<T>, RingBufferCore<T>),
    CapacityError,
>)
    ensures
        match built {
            Ok((producer, consumer, core)) => {
                &&& is_pow2(size as int)
                &&& core.wf()
                &&& core@ == ChannelState::<T>::initial(size as int)
                &&& core.slots() == Seq::<T>::empty()
                &&& producer.claimed() == -1
                &&& consumer.observed() == -1
                &&& producer.in_step_with(&core)
                &&& consumer.in_step_with(&core)
            },
            Err(error) => !is_pow2(size as int) && error.requested == size,
        },
{
    match RingBufferCore::new(size) {
        Ok(core) => Ok((Producer::new(), Consumer::new(), core)),
        Err(error) => Err(error),
    }
}

} // verus!
