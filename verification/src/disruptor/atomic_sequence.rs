//! The shared sequence counter.

use std::sync::atomic::AtomicIsize;
use std::sync::atomic::Ordering;
use vstd::prelude::*;

verus! {

/// A sequence counter that several threads may read and write at once. It
/// starts at `-1`, meaning that nothing has happened yet. Every access names
/// its memory ordering.
///
/// Any other holder of the counter may change it between two accesses, so
/// nothing is promised about the value an access finds: a caller decides
/// on what it has read, whatever that is.
pub struct AtomicSequence {
    sequence: AtomicIsize,
}

/// The orderings a load accepts: a load cannot release.
pub open spec fn is_load_ordering(ordering: Ordering) -> bool {
    !(ordering is Release) && !(ordering is AcqRel)
}

/// The orderings a store accepts: a store cannot acquire.
pub open spec fn is_store_ordering(ordering: Ordering) -> bool {
    !(ordering is Acquire) && !(ordering is AcqRel)
}

/// The accesses that the two ends of a channel make to shared counters
/// while the other end may be running.
#[derive(Debug, Clone, Copy, PartialEq, Eq)]
pub enum Access {
    /// The producer stores a sequence into the cursor, handing the slot
    /// and everything written before to the consumer.
    PublishCursor,
    /// The consumer loads the cursor, and with it the right to read what
    /// was written before the cursor was published.
    ObserveCursor,
    /// The consumer loads its own sequence while it waits.
    ObserveOwnSequence,
    /// The consumer stores into its own sequence after a read.
    AdvanceOwnSequence,
    /// The consumer stores the sequence it has read into the shared
    /// consumer sequence.
    Acknowledge,
    /// The producer loads the shared consumer sequence to see whether a
    /// slot has been vacated.
    ObserveAcknowledged,
}

impl Access {
    /// Whether the access is a load; the others are stores.
    pub open spec fn is_load(self) -> bool {
        self is ObserveCursor || self is ObserveOwnSequence || self is ObserveAcknowledged
    }

    /// The ordering of the access. Publishing releases and observing the
    /// cursor acquires, so that the two meet; acknowledging and observing
    /// the acknowledgement only compare numbers and stay relaxed.
    pub open spec fn ordering(self) -> Ordering {
        match self {
            Access::PublishCursor => Ordering::Release,
            Access::ObserveCursor => Ordering::Acquire,
            Access::ObserveOwnSequence => Ordering::Acquire,
            Access::AdvanceOwnSequence => Ordering::Relaxed,
            Access::Acknowledge => Ordering::Relaxed,
            Access::ObserveAcknowledged => Ordering::Relaxed,
        }
    }
}

/// The ordering with which the protocol makes `access`. It is one that the
/// kind of access accepts.
pub fn ordering_for(access: Access) -> (ordering: Ordering)
    ensures
        ordering == access.ordering(),
        access.is_load() ==> is_load_ordering(ordering),
        !access.is_load() ==> is_store_ordering(ordering),
{
    match access {
        Access::PublishCursor => Ordering::Release,
        Access::ObserveCursor => Ordering::Acquire,
        Access::ObserveOwnSequence => Ordering::Acquire,
        Access::AdvanceOwnSequence => Ordering::Relaxed,
        Access::Acknowledge => Ordering::Relaxed,
        Access::ObserveAcknowledged => Ordering::Relaxed,
    }
}

impl AtomicSequence {
    /// A fresh counter, at `-1`.
    pub fn new() -> Self {
        Self { sequence: AtomicIsize::new(-1) }
    }

    /// Reads the counter with the given ordering.
    pub fn get(&self, ordering: Ordering) -> isize
        requires
            is_load_ordering(ordering),
    {
        self.sequence.load(ordering)
    }

    /// Overwrites the counter with `value`, with the given ordering.
    pub fn set(&self, value: isize, ordering: Ordering)
        requires
            is_store_ordering(ordering),
    {
        self.sequence.store(value, ordering);
    }

    /// Advances the counter by one in a single atomic step, with the given
    /// ordering. At the largest value the counter wraps around.
    pub fn inc(&self, ordering: Ordering) {
        self.sequence.fetch_add(1, ordering);
    }
}

} // verus!
