//! The single-owner sequence counter.

use vstd::prelude::*;

verus! {

/// A sequence counter owned by one party. It starts at `-1`, meaning that
/// nothing has happened yet; sequence `0` names the first item.
pub struct Sequence {
    sequence: isize,
}

impl View for Sequence {
    type V = int;

    closed spec fn view(&self) -> int {
        self.sequence as int
    }
}

impl Sequence {
    /// A fresh counter, at `-1`.
    pub fn new() -> (s: Self)
        ensures
            s@ == -1,
    {
        Self { sequence: -1 }
    }

    /// The current value.
    pub fn get(&self) -> (value: isize)
        ensures
            value == self@,
    {
        self.sequence
    }

    /// Overwrites the counter with `value`.
    pub fn set(&mut self, value: isize)
        ensures
            final(self)@ == value,
    {
        self.sequence = value
    }

    /// Advances the counter by one.
    pub fn inc(&mut self)
        requires
            old(self)@ < isize::MAX,
        ensures
            final(self)@ == old(self)@ + 1,
    {
        self.sequence += 1
    }
}

} // verus!
