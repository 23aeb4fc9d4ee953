//! The slot array of a ring.

use crate::disruptor::capacity::{is_valid_capacity, lemma_pow2_is_positive, CapacityError};
use crate::disruptor::protocol::{put_slot, slot_index, slot_of};
use vstd::arithmetic::power2::is_pow2;
use vstd::prelude::*;

verus! {

/// Fixed-capacity slot storage. Room for every slot is reserved when the
/// storage is built; a slot comes into being with the first value written
/// to it and is overwritten in place from then on, so the storage never
/// holds a slot without a value. Sequence `s` lives in slot
/// `s mod capacity`.
pub struct DisruptorRingBuffer<T> {
    buffer: Vec<T>,
    size: isize,
}

impl<T> View for DisruptorRingBuffer<T> {
    type V = Seq<T>;

    /// The slots written so far, by position.
    closed spec fn view(&self) -> Seq<T> {
        self.buffer@
    }
}

impl<T> DisruptorRingBuffer<T> {
    /// The number of slots the storage was built for.
    pub closed spec fn capacity(&self) -> int {
        self.size as int
    }

    /// The capacity is a power of two and bounds the slots in use.
    pub open spec fn wf(&self) -> bool {
        &&& is_pow2(self.capacity())
        &&& self@.len() <= self.capacity()
        &&& self.capacity() <= isize::MAX
    }

    /// Storage for `size` slots, none of them written yet. Fails exactly
    /// when `size` is not a power of two.
    pub fn new(size: isize) -> (built: Result<Self, CapacityError>)
        ensures
            match built {
                Ok(storage) => {
                    &&& is_pow2(size as int)
                    &&& storage.wf()
                    &&& storage.capacity() == size
                    &&& storage@ == Seq::<T>::empty()
                },
                Err(error) => !is_pow2(size as int) && error.requested == size,
            },
    {
        if is_valid_capacity(size) {
            proof {
                lemma_pow2_is_positive(size as int);
            }
            Ok(Self { buffer: Vec::with_capacity(size as usize), size })
        } else {
            Err(CapacityError { requested: size })
        }
    }

    /// The number of slots the storage was built for.
    pub fn size(&self) -> (size: isize)
        ensures
            size == self.capacity(),
    {
        self.size
    }

    /// The number of slots written so far.
    pub fn len(&self) -> (len: usize)
        ensures
            len == self@.len(),
    {
        self.buffer.len()
    }

    /// Puts `value` into the slot of `sequence`: the next unwritten slot
    /// comes into being, a written slot is overwritten.
    pub fn store(&mut self, sequence: isize, value: T)
        requires
            old(self).wf(),
            sequence >= 0,
            slot_of(sequence as int, old(self).capacity()) <= old(self)@.len(),
        ensures
            final(self).wf(),
            final(self).capacity() == old(self).capacity(),
            final(self)@ == put_slot(
                old(self)@,
                slot_of(sequence as int, old(self).capacity()),
                value,
            ),
    {
        proof {
            lemma_pow2_is_positive(self.capacity());
        }
        let slot = slot_index(sequence, self.size);
        if slot == self.buffer.len() {
            self.buffer.push(value);
        } else {
            self.buffer[slot] = value;
        }
    }

    /// The value in the slot of `sequence`.
    pub fn load(&self, sequence: isize) -> (value: &T)
        requires
            self.wf(),
            sequence >= 0,
            slot_of(sequence as int, self.capacity()) < self@.len(),
        ensures
            *value == self@[slot_of(sequence as int, self.capacity())],
    {
        proof {
            lemma_pow2_is_positive(self.capacity());
        }
        &self.buffer[slot_index(sequence, self.size)]
    }

    /// A borrowed view of the slots `start .. end`.
    pub fn slice(&self, start: usize, end: usize) -> (run: &[T])
        requires
            start <= end <= self@.len(),
        ensures
            run@ == self@.subrange(start as int, end as int),
    {
        &self.buffer.as_slice()[start..end]
    }
}

} // verus!
