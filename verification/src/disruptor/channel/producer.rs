//! The producer's side of the protocol: claim, wait for room, write,
//! publish.

use crate::disruptor::channel::RingBufferCore;
use crate::disruptor::model::{lemma_write_keeps_window, Step};
use crate::disruptor::protocol::{is_slot_free, put_slot, slot_is_free, slot_of};
use crate::disruptor::sequence::Sequence;
use std::marker::PhantomData;
use vstd::prelude::*;

verus! {

/// The writing end of a channel. It keeps the highest sequence it has
/// claimed; between two writes that is the published cursor.
pub struct Producer<T> {
    sequence: Sequence,
    marker: PhantomData<T>,
}

impl<T> Producer<T> {
    /// The highest sequence claimed, `-1` before the first claim.
    pub closed spec fn claimed(&self) -> int {
        self.sequence@
    }

    /// The producer is at rest at `core`: everything it has claimed is
    /// published there.
    pub open spec fn in_step_with(&self, core: &RingBufferCore<T>) -> bool {
        self.claimed() == core@.cursor()
    }

    /// The producer has claimed the sequence after the cursor of `core`
    /// and not yet published it.
    pub open spec fn holds_claim_at(&self, core: &RingBufferCore<T>) -> bool {
        self.claimed() == core@.cursor() + 1
    }

    /// A producer that has claimed nothing.
    pub(crate) fn new() -> (producer: Self)
        ensures
            producer.claimed() == -1,
    {
        Producer { sequence: Sequence::new(), marker: PhantomData }
    }

    /// The highest sequence claimed, `-1` before the first claim.
    pub fn sequence(&self) -> (claimed: isize)
        ensures
            claimed == self.claimed(),
    {
        self.sequence.get()
    }

    /// Claims the next sequence.
    pub fn claim_next_slot(&mut self)
        requires
            old(self).claimed() < isize::MAX,
        ensures
            final(self).claimed() == old(self).claimed() + 1,
    {
        self.sequence.inc();
    }

    /// Whether the slot of the claimed sequence is free: the consumer has
    /// acknowledged the sequence one lap behind it.
    pub fn slot_is_vacant(&self, core: &RingBufferCore<T>) -> (vacant: bool)
        ensures
            vacant == slot_is_free(self.claimed(), core@.consumer_sequence, core@.capacity),
    {
        is_slot_free(self.sequence.get(), core.consumer_sequence(), core.size())
    }

    /// Whether a write would go through at once: the next sequence exists
    /// and its slot is free.
    pub fn can_write(&self, core: &RingBufferCore<T>) -> (ready: bool)
        requires
            core.wf(),
            self.in_step_with(core),
        ensures
            ready == (core@.has_room() && core@.cursor() < isize::MAX),
    {
        let claimed = self.sequence.get();
        claimed < isize::MAX && is_slot_free(claimed + 1, core.consumer_sequence(), core.size())
    }

    /// Writes `value` into the slot of the claimed sequence and publishes
    /// the sequence by moving the cursor onto it.
    pub fn commit(&self, core: &mut RingBufferCore<T>, value: T)
        requires
            old(core).wf(),
            self.holds_claim_at(old(core)),
            old(core)@.has_room(),
        ensures
            final(core).wf(),
            final(core)@ == old(core)@.write(value),
            final(core)@.extends(old(core)@),
            final(core).slots() == put_slot(
                old(core).slots(),
                slot_of(self.claimed(), old(core)@.capacity),
                value,
            ),
            self.in_step_with(final(core)),
    {
        let claimed = self.sequence.get();
        proof {
            lemma_write_keeps_window(core@, core.slots(), value);
        }
        core.buffer.store(claimed, value);
        core.cursor.set(claimed);
        proof {
            core.published@ = core.published@.push(value);
        }
    }

    /// Publishes `value` as the next sequence: claims it, writes the value
    /// into its slot, and moves the cursor onto it. The slot must be free;
    /// until the consumer has vacated it the write has to wait.
    pub fn write(&mut self, core: &mut RingBufferCore<T>, value: T)
        requires
            old(core).wf(),
            old(self).in_step_with(old(core)),
            old(core)@.has_room(),
            old(core)@.cursor() < isize::MAX,
        ensures
            final(core).wf(),
            final(core)@ == old(core)@.write(value),
            final(core)@.extends(old(core)@),
            final(core).slots() == put_slot(
                old(core).slots(),
                slot_of(old(core)@.cursor() + 1, old(core)@.capacity),
                value,
            ),
            final(self).claimed() == old(self).claimed() + 1,
            final(self).in_step_with(final(core)),
    {
        self.claim_next_slot();
        self.commit(core, value);
    }

    /// Publishes `value` if that can be done at once, and hands it back
    /// otherwise, leaving producer and core as they were.
    pub fn try_write(&mut self, core: &mut RingBufferCore<T>, value: T) -> (outcome: Result<(), T>)
        requires
            old(core).wf(),
            old(self).in_step_with(old(core)),
        ensures
            final(core).wf(),
            final(self).in_step_with(final(core)),
            final(core)@.extends(old(core)@),
            old(core)@.cursor() < isize::MAX ==> final(core)@ == old(core)@.step(
                Step::Write(value),
            ),
            match outcome {
                Ok(()) => {
                    &&& old(core)@.has_room()
                    &&& old(core)@.cursor() < isize::MAX
                    &&& final(core)@ == old(core)@.write(value)
                    &&& final(core).slots() == put_slot(
                        old(core).slots(),
                        slot_of(old(core)@.cursor() + 1, old(core)@.capacity),
                        value,
                    )
                    &&& final(self).claimed() == old(self).claimed() + 1
                },
                Err(returned) => {
                    &&& !(old(core)@.has_room() && old(core)@.cursor() < isize::MAX)
                    &&& returned == value
                    &&& final(core)@ == old(core)@
                    &&& final(core).slots() == old(core).slots()
                    &&& final(self).claimed() == old(self).claimed()
                },
            },
    {
        if self.can_write(core) {
            self.write(core, value);
            Ok(())
        } else {
            Err(value)
        }
    }
}

} // verus!
