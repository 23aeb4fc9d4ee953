//! The consumer's side of the protocol: wait for the cursor, take the
//! batch, acknowledge.

use crate::disruptor::capacity::lemma_pow2_is_positive;
use crate::disruptor::channel::RingBufferCore;
use crate::disruptor::model::{lemma_batch_is_unread, Step};
use crate::disruptor::protocol::{batch_range, has_new, is_published, BatchRange};
use crate::disruptor::sequence::Sequence;
use std::marker::PhantomData;
use vstd::prelude::*;

verus! {

/// One batch: every slot published since the previous read, borrowed from
/// the slot array.
#[derive(Debug)]
pub enum ReadValue<'a, T> {
    /// The batch is one run of slots.
    Straight(&'a [T]),
    /// The batch runs past the end of the slot array: the first piece ends
    /// at the last slot, the second starts at slot 0.
    Wrapped((&'a [T], &'a [T])),
}

impl<'a, T> View for ReadValue<'a, T> {
    type V = Seq<T>;

    /// The values of the batch in delivery order.
    open spec fn view(&self) -> Seq<T> {
        match *self {
            ReadValue::Straight(run) => run@,
            ReadValue::Wrapped((head, tail)) => head@ + tail@,
        }
    }
}

impl<'a, T> ReadValue<'a, T> {
    /// The batch has the shape of `range` and its pieces are the slots of
    /// `range` in the array `slots`.
    pub open spec fn cut_from(&self, slots: Seq<T>, range: BatchRange) -> bool {
        match (*self, range) {
            (ReadValue::Straight(run), BatchRange::Straight { start, end }) => run@
                == slots.subrange(start as int, end + 1),
            (ReadValue::Wrapped((head, tail)), BatchRange::Wrapped { start, end }) => {
                &&& head@ == slots.subrange(start as int, slots.len() as int)
                &&& tail@ == slots.subrange(0, end + 1)
            },
            _ => false,
        }
    }
}

/// The reading end of a channel. It keeps the highest sequence it has read
/// and acknowledged.
pub struct Consumer<T> {
    sequence: Sequence,
    marker: PhantomData<T>,
}

impl<T> Consumer<T> {
    /// The highest sequence read, `-1` before the first read.
    pub closed spec fn observed(&self) -> int {
        self.sequence@
    }

    /// The consumer is at rest at `core`: what it has read is what the
    /// core records as acknowledged.
    pub open spec fn in_step_with(&self, core: &RingBufferCore<T>) -> bool {
        self.observed() == core@.consumer_sequence
    }

    /// A consumer that has read nothing.
    pub(crate) fn new() -> (consumer: Self)
        ensures
            consumer.observed() == -1,
    {
        Consumer { sequence: Sequence::new(), marker: PhantomData }
    }

    /// The highest sequence read, `-1` before the first read.
    pub fn sequence(&self) -> (observed: isize)
        ensures
            observed == self.observed(),
    {
        self.sequence.get()
    }

    /// Whether a read would return at once: the cursor has moved past what
    /// the consumer has read.
    pub fn can_read(&self, core: &RingBufferCore<T>) -> (ready: bool)
        requires
            core.wf(),
        ensures
            ready == has_new(core@.cursor(), self.observed()),
    {
        is_published(core.cursor(), self.sequence.get())
    }

    /// Takes the batch of everything published since the previous read and
    /// acknowledges it. Something must have been published since; until
    /// then the read has to wait.
    pub fn read<'a>(&mut self, core: &'a mut RingBufferCore<T>) -> (batch: ReadValue<'a, T>)
        requires
            old(core).wf(),
            old(self).in_step_with(old(core)),
            old(core)@.has_unread(),
        ensures
            final(core).wf(),
            final(core)@ == old(core)@.read(),
            final(core)@.extends(old(core)@),
            final(core).slots() == old(core).slots(),
            final(self).observed() == old(core)@.cursor(),
            final(self).in_step_with(final(core)),
            batch@ == old(core)@.unread(),
            batch.cut_from(old(core).slots(), old(core)@.next_batch()),
    {
        let cursor = core.cursor();
        let observed = self.sequence.get();
        proof {
            lemma_pow2_is_positive(core@.capacity);
            lemma_batch_is_unread(core@, core.slots());
        }
        let range = batch_range(observed, cursor, core.size());
        self.sequence.set(cursor);
        core.consumer_sequence.set(self.sequence.get());
        match range {
            BatchRange::Straight { start, end } => {
                ReadValue::Straight(core.buffer.slice(start, end + 1))
            },
            BatchRange::Wrapped { start, end } => {
                let head = core.buffer.slice(start, core.buffer.len());
                let tail = core.buffer.slice(0, end + 1);
                ReadValue::Wrapped((head, tail))
            },
        }
    }

    /// Takes the next batch if there is one, and otherwise leaves consumer
    /// and core as they were.
    pub fn try_read<'a>(&mut self, core: &'a mut RingBufferCore<T>) -> (outcome: Option<
        ReadValue<'a, T>,
    >)
        requires
            old(core).wf(),
            old(self).in_step_with(old(core)),
        ensures
            final(core).wf(),
            final(self).in_step_with(final(core)),
            final(core)@ == old(core)@.step(Step::Read),
            final(core)@.extends(old(core)@),
            final(core).slots() == old(core).slots(),
            match outcome {
                Some(batch) => {
                    &&& old(core)@.has_unread()
                    &&& final(self).observed() == old(core)@.cursor()
                    &&& batch@ == old(core)@.unread()
                    &&& batch.cut_from(old(core).slots(), old(core)@.next_batch())
                },
                None => {
                    &&& !old(core)@.has_unread()
                    &&& final(self).observed() == old(self).observed()
                },
            },
    {
        if self.can_read(core) {
            Some(self.read(core))
        } else {
            None
        }
    }
}

} // verus!
