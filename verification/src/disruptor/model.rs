//! The channel as a mathematical state machine, and what holds of every run
//! of it.
//!
//! The state keeps the whole history of published values rather than the
//! slot array: the array is a window onto the last `capacity` entries of
//! the history.

use crate::disruptor::capacity::lemma_pow2_is_positive;
use crate::disruptor::protocol::{
    has_new, lemma_batch_covers_sequences, lemma_slot_in_array, lemma_slot_in_first_lap,
    lemma_slots_distinct_within_lap, put_slot, slot_is_free, slot_of, BatchRange,
};
use vstd::arithmetic::power2::is_pow2;
use vstd::prelude::*;

verus! {

/// The state that producer and consumer share.
#[verifier::ext_equal]
pub struct ChannelState<T> {
    /// The number of slots.
    pub capacity: int,
    /// Every value published so far; the value of sequence `s` stands at
    /// position `s`.
    pub published: Seq<T>,
    /// The last sequence the consumer has acknowledged, `-1` before the
    /// first.
    pub consumer_sequence: int,
}

/// One operation on the channel.
pub enum Step<T> {
    /// The producer offers a value.
    Write(T),
    /// The consumer asks for the next batch.
    Read,
}

impl<T> ChannelState<T> {
    /// A fresh channel: nothing published, nothing acknowledged.
    pub open spec fn initial(capacity: int) -> Self {
        ChannelState { capacity, published: Seq::empty(), consumer_sequence: -1 }
    }

    /// The last sequence published, `-1` before the first.
    pub open spec fn cursor(self) -> int {
        self.published.len() - 1
    }

    /// The invariant of the channel: the capacity is a power of two, the
    /// consumer never runs ahead of the cursor, and the cursor never runs
    /// more than one lap ahead of the consumer.
    pub open spec fn inv(self) -> bool {
        &&& is_pow2(self.capacity)
        &&& -1 <= self.consumer_sequence <= self.cursor()
        &&& self.cursor() - self.consumer_sequence <= self.capacity
    }

    /// This state can come after `earlier`: the capacity is the same, the
    /// history has only grown at its end, and the consumer has not gone
    /// back.
    pub open spec fn extends(self, earlier: Self) -> bool {
        &&& self.capacity == earlier.capacity
        &&& earlier.published.is_prefix_of(self.published)
        &&& earlier.consumer_sequence <= self.consumer_sequence
    }

    /// The values published and not yet acknowledged, oldest first.
    pub open spec fn unread(self) -> Seq<T> {
        self.published.subrange(self.consumer_sequence + 1, self.cursor() + 1)
    }

    /// The values the consumer has acknowledged, oldest first.
    pub open spec fn consumed(self) -> Seq<T> {
        self.published.subrange(0, self.consumer_sequence + 1)
    }

    /// Whether the slot of the next sequence is free to be written.
    pub open spec fn has_room(self) -> bool {
        slot_is_free(self.cursor() + 1, self.consumer_sequence, self.capacity)
    }

    /// Whether a read would find a batch.
    pub open spec fn has_unread(self) -> bool {
        has_new(self.cursor(), self.consumer_sequence)
    }

    /// `slots` is a slot array for this state, a window onto the end of
    /// the history: it has one slot per published value until it is full,
    /// and the value of every sequence of the last lap stands in the slot
    /// of that sequence.
    pub open spec fn has_window(self, slots: Seq<T>) -> bool {
        &&& slots.len() == if self.published.len() < self.capacity {
            self.published.len() as int
        } else {
            self.capacity
        }
        &&& forall|s: int|
            0 <= s && self.published.len() - self.capacity <= s < self.published.len()
                ==> slots[slot_of(s, self.capacity)] == #[trigger] self.published[s]
    }

    /// The range of slots that the next read takes.
    pub open spec fn next_batch(self) -> BatchRange {
        BatchRange::between(self.consumer_sequence, self.cursor(), self.capacity)
    }

    /// The state after `value` has been published.
    pub open spec fn write(self, value: T) -> Self {
        ChannelState { published: self.published.push(value), ..self }
    }

    /// The state after everything published has been acknowledged.
    pub open spec fn read(self) -> Self {
        ChannelState { consumer_sequence: self.cursor(), ..self }
    }

    /// The state after one step. A write that finds no room and a read that
    /// finds nothing new wait; they leave the state as it is.
    pub open spec fn step(self, step: Step<T>) -> Self {
        match step {
            Step::Write(value) => if self.has_room() {
                self.write(value)
            } else {
                self
            },
            Step::Read => if self.has_unread() {
                self.read()
            } else {
                self
            },
        }
    }

    /// What one step hands to the consumer.
    pub open spec fn step_delivers(self, step: Step<T>) -> Seq<T> {
        match step {
            Step::Write(_) => Seq::empty(),
            Step::Read => self.unread(),
        }
    }

    /// What one step adds to the published history.
    pub open spec fn step_accepts(self, step: Step<T>) -> Seq<T> {
        match step {
            Step::Write(value) => if self.has_room() {
                seq![value]
            } else {
                Seq::empty()
            },
            Step::Read => Seq::empty(),
        }
    }

    /// The state after a run of steps, taken in order.
    pub open spec fn run(self, steps: Seq<Step<T>>) -> Self
        decreases steps.len(),
    {
        if steps.len() == 0 {
            self
        } else {
            self.run(steps.drop_last()).step(steps.last())
        }
    }

    /// Everything handed to the consumer during a run, in the order in which
    /// it was handed over.
    pub open spec fn delivered(self, steps: Seq<Step<T>>) -> Seq<T>
        decreases steps.len(),
    {
        if steps.len() == 0 {
            Seq::empty()
        } else {
            self.delivered(steps.drop_last()) + self.run(steps.drop_last()).step_delivers(
                steps.last(),
            )
        }
    }

    /// Everything the producer got published during a run, in the order in
    /// which it was offered.
    pub open spec fn accepted(self, steps: Seq<Step<T>>) -> Seq<T>
        decreases steps.len(),
    {
        if steps.len() == 0 {
            Seq::empty()
        } else {
            self.accepted(steps.drop_last()) + self.run(steps.drop_last()).step_accepts(
                steps.last(),
            )
        }
    }
}

/// Writing into a free slot keeps the window: with the next value put into
/// the slot of the next sequence, the slot array is a window onto the
/// extended history. No value that is still unread is touched.
pub proof fn lemma_write_keeps_window<T>(state: ChannelState<T>, slots: Seq<T>, value: T)
    requires
        state.inv(),
        state.has_room(),
        state.has_window(slots),
    ensures
        0 <= slot_of(state.cursor() + 1, state.capacity) <= slots.len(),
        state.write(value).has_window(
            put_slot(slots, slot_of(state.cursor() + 1, state.capacity), value),
        ),
{
    lemma_pow2_is_positive(state.capacity);
    let capacity = state.capacity;
    let claimed = state.cursor() + 1;
    let after = state.write(value);
    let written = put_slot(slots, slot_of(claimed, capacity), value);
    lemma_slot_in_array(claimed, capacity);
    if claimed < capacity {
        lemma_slot_in_first_lap(claimed, capacity);
    }
    assert forall|s: int|
        0 <= s && after.published.len() - capacity <= s < after.published.len()
        implies written[slot_of(s, capacity)] == #[trigger] after.published[s] by {
        lemma_slot_in_array(s, capacity);
        if s < claimed {
            lemma_slots_distinct_within_lap(s, claimed, capacity);
            if s < capacity {
                lemma_slot_in_first_lap(s, capacity);
            }
            assert(slots[slot_of(s, capacity)] == state.published[s]);
        }
    }
}

/// No overwrite. A write that finds room goes to a slot that holds no
/// unread value: every sequence published and not yet acknowledged lives in
/// another slot than the next sequence, and the unread values are what they
/// were, followed by the new one.
pub proof fn lemma_write_spares_unread<T>(state: ChannelState<T>, value: T)
    requires
        state.inv(),
        state.has_room(),
    ensures
        forall|s: int|
            state.consumer_sequence < s <= state.cursor() ==> #[trigger] slot_of(s, state.capacity)
                != slot_of(state.cursor() + 1, state.capacity),
        state.write(value).unread() == state.unread().push(value),
{
    lemma_pow2_is_positive(state.capacity);
    assert forall|s: int| state.consumer_sequence < s <= state.cursor() implies #[trigger] slot_of(
        s,
        state.capacity,
    ) != slot_of(state.cursor() + 1, state.capacity) by {
        lemma_slots_distinct_within_lap(s, state.cursor() + 1, state.capacity);
    }
    assert(state.write(value).unread() =~= state.unread().push(value));
}

/// Batch completeness. Where slot positions fit the machine's index type,
/// the range of the next read lies within the slot array, and the values it
/// picks out are exactly the published values that have not been
/// acknowledged, in publication order.
pub proof fn lemma_batch_is_unread<T>(state: ChannelState<T>, slots: Seq<T>)
    requires
        state.inv(),
        state.has_unread(),
        state.has_window(slots),
        state.capacity <= usize::MAX,
    ensures
        state.next_batch().fits(slots.len() as int),
        state.next_batch().cut(slots) == state.unread(),
{
    lemma_pow2_is_positive(state.capacity);
    let capacity = state.capacity;
    let observed = state.consumer_sequence;
    let cursor = state.cursor();
    let count = cursor - observed;
    let range = state.next_batch();
    let by_sequence = Seq::new(count as nat, |k: int| slot_of(observed + 1 + k, capacity));
    lemma_batch_covers_sequences(observed, cursor, capacity);
    assert(range.slots(capacity) == by_sequence);
    lemma_slot_in_array(cursor, capacity);
    lemma_slot_in_array(observed + 1, capacity);
    if cursor < capacity {
        lemma_slot_in_first_lap(cursor, capacity);
        lemma_slot_in_first_lap(observed + 1, capacity);
    }
    assert forall|k: int| 0 <= k < count implies slots[#[trigger] by_sequence[k]]
        == state.published[observed + 1 + k] by {
        assert(slots[slot_of(observed + 1 + k, capacity)] == state.published[observed + 1 + k]);
    }
    match range {
        BatchRange::Straight { start, end } => {
            assert(by_sequence.len() == end - start + 1);
            assert forall|k: int| 0 <= k < count implies range.cut(slots)[k] == state.unread()[k] by {
                assert(by_sequence[k] == start + k);
            }
        },
        BatchRange::Wrapped { start, end } => {
            let first = Seq::new((capacity - start) as nat, |k: int| start + k);
            let second = Seq::new((end + 1) as nat, |k: int| k);
            assert(by_sequence == first + second);
            assert(by_sequence.len() == (capacity - start) + (end + 1));
            assert forall|k: int| 0 <= k < count implies range.cut(slots)[k] == state.unread()[k] by {
                if k < capacity - start {
                    assert(by_sequence[k] == first[k]);
                } else {
                    assert(by_sequence[k] == second[k - (capacity - start)]);
                }
            }
        },
    }
    assert(range.cut(slots) =~= state.unread());
}

/// A single step keeps the invariant, moves neither counter backwards and
/// rewrites nothing published, and extends the history by what it accepts
/// and the consumed prefix by what it delivers.
pub proof fn lemma_step<T>(state: ChannelState<T>, step: Step<T>)
    requires
        state.inv(),
    ensures
        state.step(step).inv(),
        state.step(step).extends(state),
        state.step(step).cursor() >= state.cursor(),
        state.step(step).published == state.published + state.step_accepts(step),
        state.step(step).consumed() == state.consumed() + state.step_delivers(step),
{
    let next = state.step(step);
    assert(next.published =~= state.published + state.step_accepts(step));
    assert(next.consumed() =~= state.consumed() + state.step_delivers(step));
}

/// Every run from a valid state ends in a valid state.
pub proof fn lemma_run_keeps_invariant<T>(state: ChannelState<T>, steps: Seq<Step<T>>)
    requires
        state.inv(),
    ensures
        state.run(steps).inv(),
        state.run(steps).capacity == state.capacity,
    decreases steps.len(),
{
    if steps.len() > 0 {
        lemma_run_keeps_invariant(state, steps.drop_last());
        lemma_step(state.run(steps.drop_last()), steps.last());
    }
}

/// Monotonicity. Whatever the operations, the cursor and the consumer's
/// sequence never decrease from one point of a run to a later one, nothing
/// once published changes, and at every point the consumer's sequence is at
/// most the cursor.
pub proof fn lemma_counters_monotonic<T>(
    state: ChannelState<T>,
    steps: Seq<Step<T>>,
    earlier: int,
    later: int,
)
    requires
        state.inv(),
        0 <= earlier <= later <= steps.len(),
    ensures
        state.run(steps.take(earlier)).cursor() <= state.run(steps.take(later)).cursor(),
        state.run(steps.take(earlier)).consumer_sequence <= state.run(
            steps.take(later),
        ).consumer_sequence,
        state.run(steps.take(later)).consumer_sequence <= state.run(steps.take(later)).cursor(),
        state.run(steps.take(later)).extends(state.run(steps.take(earlier))),
    decreases later - earlier,
{
    lemma_run_keeps_invariant(state, steps.take(later));
    if earlier < later {
        lemma_counters_monotonic(state, steps, earlier, later - 1);
        assert(steps.take(later).drop_last() =~= steps.take(later - 1));
        lemma_run_keeps_invariant(state, steps.take(later - 1));
        lemma_step(state.run(steps.take(later - 1)), steps.take(later).last());
    }
}

/// The published history after a run is the history before it followed by
/// the accepted values, in the order in which they were offered.
pub proof fn lemma_history_grows_by_accepted<T>(state: ChannelState<T>, steps: Seq<Step<T>>)
    requires
        state.inv(),
    ensures
        state.run(steps).published == state.published + state.accepted(steps),
    decreases steps.len(),
{
    if steps.len() > 0 {
        let before = state.run(steps.drop_last());
        lemma_history_grows_by_accepted(state, steps.drop_last());
        lemma_run_keeps_invariant(state, steps.drop_last());
        lemma_step(before, steps.last());
        assert(state.run(steps).published =~= state.published + state.accepted(steps));
    } else {
        assert(state.run(steps).published =~= state.published + state.accepted(steps));
    }
}

/// Order preservation. What a run hands to the consumer is exactly the
/// stretch of the published history between the consumer's sequence before
/// the run and its sequence after it: every value once, none skipped, in
/// publication order.
pub proof fn lemma_delivery_follows_history<T>(state: ChannelState<T>, steps: Seq<Step<T>>)
    requires
        state.inv(),
    ensures
        state.delivered(steps) == state.run(steps).published.subrange(
            state.consumer_sequence + 1,
            state.run(steps).consumer_sequence + 1,
        ),
    decreases steps.len(),
{
    let end = state.run(steps);
    if steps.len() > 0 {
        let before = state.run(steps.drop_last());
        lemma_delivery_follows_history(state, steps.drop_last());
        lemma_run_keeps_invariant(state, steps.drop_last());
        lemma_counters_monotonic(state, steps.drop_last(), 0, steps.drop_last().len() as int);
        assert(steps.drop_last().take(0) =~= Seq::<Step<T>>::empty());
        assert(steps.drop_last().take(steps.drop_last().len() as int) =~= steps.drop_last());
        lemma_step(before, steps.last());
        assert(state.delivered(steps) =~= end.published.subrange(
            state.consumer_sequence + 1,
            end.consumer_sequence + 1,
        ));
    } else {
        assert(state.delivered(steps) =~= end.published.subrange(
            state.consumer_sequence + 1,
            end.consumer_sequence + 1,
        ));
    }
}

/// Order preservation on a fresh channel. The consumer has received a
/// prefix of what the producer got published: as many values as it has
/// acknowledged, in the order in which they were offered.
pub proof fn lemma_delivered_is_prefix_of_accepted<T>(capacity: int, steps: Seq<Step<T>>)
    requires
        is_pow2(capacity),
    ensures
        ({
            let start = ChannelState::<T>::initial(capacity);
            &&& start.run(steps).consumer_sequence + 1 <= start.accepted(steps).len()
            &&& start.delivered(steps) == start.accepted(steps).take(
                start.run(steps).consumer_sequence + 1,
            )
        }),
{
    let start = ChannelState::<T>::initial(capacity);
    lemma_pow2_is_positive(capacity);
    lemma_run_keeps_invariant(start, steps);
    lemma_history_grows_by_accepted(start, steps);
    lemma_delivery_follows_history(start, steps);
    assert(start.published + start.accepted(steps) =~= start.accepted(steps));
}

} // verus!
