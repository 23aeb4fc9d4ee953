//! The arithmetic of the protocol: which slot a sequence lives in, when the
//! producer may reuse a slot, and which slots make up the consumer's next
//! batch.

use vstd::arithmetic::div_mod::{
    lemma_fundamental_div_mod, lemma_fundamental_div_mod_converse, lemma_mod_bound,
};
use vstd::prelude::*;

verus! {

/// The slot that holds sequence `sequence` in a ring of `capacity` slots.
pub open spec fn slot_of(sequence: int, capacity: int) -> int {
    sequence % capacity
}

/// The slot array after `value` has been put into `slot`: the slot right
/// after the last one comes into being, any earlier slot is overwritten.
pub open spec fn put_slot<T>(slots: Seq<T>, slot: int, value: T) -> Seq<T> {
    if slot == slots.len() {
        slots.push(value)
    } else {
        slots.update(slot, value)
    }
}

/// The backpressure condition: the slot for `claimed` has been vacated once
/// the consumer has acknowledged the sequence one lap behind it.
pub open spec fn slot_is_free(claimed: int, consumer_sequence: int, capacity: int) -> bool {
    consumer_sequence >= claimed - capacity
}

/// The publication condition: something has been published beyond what the
/// consumer has observed.
pub open spec fn has_new(cursor: int, observed: int) -> bool {
    cursor > observed
}

/// The slots of one batch, as positions in the slot array.
#[derive(Debug, Clone, Copy, PartialEq, Eq, Structural)]
pub enum BatchRange {
    /// One run: the slots `start ..= end`.
    Straight { start: usize, end: usize },
    /// Two runs: the slots from `start` to the end of the array, then the
    /// slots `0 ..= end`.
    Wrapped { start: usize, end: usize },
}

impl BatchRange {
    /// The range of the batch that follows `observed` and reaches `cursor`.
    pub open spec fn between(observed: int, cursor: int, capacity: int) -> BatchRange {
        let start = slot_of(observed + 1, capacity);
        let end = slot_of(cursor, capacity);
        if start <= end {
            BatchRange::Straight { start: start as usize, end: end as usize }
        } else {
            BatchRange::Wrapped { start: start as usize, end: end as usize }
        }
    }

    /// Whether the range lies within an array of `len` slots.
    pub open spec fn fits(self, len: int) -> bool {
        match self {
            BatchRange::Straight { start, end } => start <= end < len,
            BatchRange::Wrapped { start, end } => start <= len && end < len,
        }
    }

    /// The values that the range picks out of the slot array `slots`, in
    /// delivery order.
    pub open spec fn cut<T>(self, slots: Seq<T>) -> Seq<T> {
        match self {
            BatchRange::Straight { start, end } => slots.subrange(start as int, end + 1),
            BatchRange::Wrapped { start, end } => slots.subrange(start as int, slots.len() as int)
                + slots.subrange(0, end + 1),
        }
    }

    /// The slot positions of the range in delivery order, for an array of
    /// `capacity` slots.
    pub open spec fn slots(self, capacity: int) -> Seq<int> {
        match self {
            BatchRange::Straight { start, end } => Seq::new(
                (end - start + 1) as nat,
                |k: int| start + k,
            ),
            BatchRange::Wrapped { start, end } => Seq::new(
                (capacity - start) as nat,
                |k: int| start + k,
            ) + Seq::new((end + 1) as nat, |k: int| k),
        }
    }
}

/// Every slot is a position in the array.
pub proof fn lemma_slot_in_array(sequence: int, capacity: int)
    requires
        capacity > 0,
    ensures
        0 <= slot_of(sequence, capacity) < capacity,
{
    lemma_mod_bound(sequence, capacity);
}

/// During the first lap every sequence lives in the slot of its own number.
pub proof fn lemma_slot_in_first_lap(sequence: int, capacity: int)
    requires
        0 <= sequence < capacity,
    ensures
        slot_of(sequence, capacity) == sequence,
{
    lemma_fundamental_div_mod_converse(sequence, capacity, 0, sequence);
}

/// Moving `k` sequences forward without passing the end of the array moves
/// `k` slots forward.
pub proof fn lemma_slot_advance(sequence: int, k: int, capacity: int)
    requires
        capacity > 0,
        0 <= k,
        slot_of(sequence, capacity) + k < capacity,
    ensures
        slot_of(sequence + k, capacity) == slot_of(sequence, capacity) + k,
{
    lemma_fundamental_div_mod(sequence, capacity);
    lemma_fundamental_div_mod_converse(
        sequence + k,
        capacity,
        sequence / capacity,
        sequence % capacity + k,
    );
}

/// Moving `k` sequences forward past the end of the array, by less than a
/// lap, lands `capacity` slots short.
pub proof fn lemma_slot_wrap(sequence: int, k: int, capacity: int)
    requires
        capacity > 0,
        capacity <= slot_of(sequence, capacity) + k < 2 * capacity,
    ensures
        slot_of(sequence + k, capacity) == slot_of(sequence, capacity) + k - capacity,
{
    lemma_fundamental_div_mod(sequence, capacity);
    assert(capacity * (sequence / capacity + 1) == capacity * (sequence / capacity) + capacity)
        by (nonlinear_arith);
    lemma_fundamental_div_mod_converse(
        sequence + k,
        capacity,
        sequence / capacity + 1,
        sequence % capacity + k - capacity,
    );
}

/// Two sequences less than a lap apart live in different slots.
pub proof fn lemma_slots_distinct_within_lap(earlier: int, later: int, capacity: int)
    requires
        capacity > 0,
        0 < later - earlier < capacity,
    ensures
        slot_of(earlier, capacity) != slot_of(later, capacity),
{
    let k = later - earlier;
    if slot_of(earlier, capacity) + k < capacity {
        lemma_slot_advance(earlier, k, capacity);
    } else {
        lemma_slot_wrap(earlier, k, capacity);
    }
}

/// A batch of at most one lap covers exactly the slots of the sequences
/// after `observed` up to and including `cursor`, in sequence order.
pub proof fn lemma_batch_covers_sequences(observed: int, cursor: int, capacity: int)
    requires
        capacity > 0,
        -1 <= observed < cursor,
        cursor - observed <= capacity,
        capacity <= usize::MAX,
    ensures
        BatchRange::between(observed, cursor, capacity).slots(capacity) =~= Seq::new(
            (cursor - observed) as nat,
            |k: int| slot_of(observed + 1 + k, capacity),
        ),
{
    let first = observed + 1;
    let count = cursor - observed;
    let start = slot_of(first, capacity);
    let end = slot_of(cursor, capacity);
    let range = BatchRange::between(observed, cursor, capacity);
    let by_sequence = Seq::new(count as nat, |k: int| slot_of(first + k, capacity));
    if start + count - 1 < capacity {
        lemma_slot_advance(first, count - 1, capacity);
        assert(end == start + count - 1);
        assert forall|k: int| 0 <= k < count implies #[trigger] by_sequence[k] == start + k by {
            lemma_slot_advance(first, k, capacity);
        }
        assert(range.slots(capacity) =~= by_sequence);
    } else {
        lemma_slot_wrap(first, count - 1, capacity);
        assert(end == start + count - 1 - capacity);
        assert forall|k: int| 0 <= k < count implies #[trigger] by_sequence[k] == (if start + k
            < capacity {
            start + k
        } else {
            start + k - capacity
        }) by {
            if start + k < capacity {
                lemma_slot_advance(first, k, capacity);
            } else {
                lemma_slot_wrap(first, k, capacity);
            }
        }
        assert(range.slots(capacity) =~= by_sequence);
    }
}

/// The slot of a sequence that has been claimed.
pub fn slot_index(sequence: isize, capacity: isize) -> (slot: usize)
    requires
        sequence >= 0,
        capacity > 0,
    ensures
        slot == slot_of(sequence as int, capacity as int),
        slot < capacity,
{
    (sequence % capacity) as usize
}

/// Whether the producer may write the slot it claimed as `claimed`, given
/// the consumer's last acknowledgement.
pub fn is_slot_free(claimed: isize, consumer_sequence: isize, capacity: isize) -> (free: bool)
    ensures
        free == slot_is_free(claimed as int, consumer_sequence as int, capacity as int),
{
    consumer_sequence as i128 >= claimed as i128 - capacity as i128
}

/// Whether the consumer has anything to read, given the published cursor.
pub fn is_published(cursor: isize, observed: isize) -> (ready: bool)
    ensures
        ready == has_new(cursor as int, observed as int),
{
    cursor > observed
}

/// The slots of the batch that follows `observed` and reaches `cursor`.
pub fn batch_range(observed: isize, cursor: isize, capacity: isize) -> (range: BatchRange)
    requires
        capacity > 0,
        -1 <= observed < cursor,
    ensures
        range == BatchRange::between(observed as int, cursor as int, capacity as int),
        cursor - observed <= capacity ==> range.slots(capacity as int) =~= Seq::new(
            (cursor - observed) as nat,
            |k: int| slot_of(observed + 1 + k, capacity as int),
        ),
{
    let start = ((observed + 1) % capacity) as usize;
    let end = (cursor % capacity) as usize;
    proof {
        if cursor - observed <= capacity {
            lemma_batch_covers_sequences(observed as int, cursor as int, capacity as int);
        }
    }
    if start <= end {
        BatchRange::Straight { start, end }
    } else {
        BatchRange::Wrapped { start, end }
    }
}

} // verus!
