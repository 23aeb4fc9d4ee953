//! The bounded-FIFO capability.

use vstd::prelude::*;

verus! {

/// A first-in, first-out queue that holds at most a fixed number of items.
pub trait RingBuffer<T>: Sized {
    /// The items in the queue, oldest first.
    spec fn items(&self) -> Seq<T>;

    /// The number of items the queue accepts.
    spec fn limit(&self) -> nat;

    /// An empty queue that accepts `capacity` items.
    fn new(capacity: usize) -> (queue: Self)
        ensures
            queue.items() == Seq::<T>::empty(),
            queue.limit() == capacity,
    ;

    /// Appends `item`, or hands it back if the queue is full.
    fn push(&mut self, item: T) -> (outcome: Result<(), T>)
        ensures
            final(self).limit() == old(self).limit(),
            match outcome {
                Ok(()) => {
                    &&& old(self).items().len() < old(self).limit()
                    &&& final(self).items() == old(self).items().push(item)
                },
                Err(rejected) => {
                    &&& old(self).items().len() >= old(self).limit()
                    &&& rejected == item
                    &&& final(self).items() == old(self).items()
                },
            },
    ;

    /// Removes and returns the oldest item, if there is one.
    fn pop(&mut self) -> (outcome: Option<T>)
        ensures
            final(self).limit() == old(self).limit(),
            match outcome {
                Some(item) => {
                    &&& old(self).items().len() > 0
                    &&& item == old(self).items().first()
                    &&& final(self).items() == old(self).items().drop_first()
                },
                None => {
                    &&& old(self).items().len() == 0
                    &&& final(self).items() == old(self).items()
                },
            },
    ;

    /// The number of items in the queue.
    fn len(&self) -> (len: usize)
        ensures
            len == self.items().len(),
    ;

    /// Whether the queue holds nothing.
    fn is_empty(&self) -> (empty: bool)
        ensures
            empty == (self.items().len() == 0),
    ;
}

} // verus!
