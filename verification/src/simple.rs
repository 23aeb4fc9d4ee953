//! A bounded FIFO over a growable double-ended queue.

use crate::queue::RingBuffer;
use std::collections::VecDeque;
use vstd::prelude::*;

verus! {

/// A bounded FIFO for use by one owner at a time: it rejects a push at
/// capacity and yields nothing when empty.
pub struct SimpleRingBuffer<T> {
    buffer: VecDeque<T>,
    capacity: usize,
}

impl<T> RingBuffer<T> for SimpleRingBuffer<T> {
    closed spec fn items(&self) -> Seq<T> {
        self.buffer@
    }

    closed spec fn limit(&self) -> nat {
        self.capacity as nat
    }

    fn new(capacity: usize) -> (queue: Self) {
        Self { buffer: VecDeque::with_capacity(capacity), capacity }
    }

    fn push(&mut self, item: T) -> (outcome: Result<(), T>) {
        if self.buffer.len() >= self.capacity {
            Err(item)
        } else {
            self.buffer.push_back(item);
            Ok(())
        }
    }

    fn pop(&mut self) -> (outcome: Option<T>) {
        let outcome = self.buffer.pop_front();
        proof {
            if outcome is Some {
                assert(self.buffer@ =~= old(self).buffer@.drop_first());
            }
        }
        outcome
    }

    fn len(&self) -> (len: usize) {
        self.buffer.len()
    }

    fn is_empty(&self) -> (empty: bool) {
        self.buffer.len() == 0
    }
}

} // verus!
