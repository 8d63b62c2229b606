//! Count, sum, least and greatest of what is recorded.
use crate::aggregators::sum::{arithmetic_sum, integer_total_is_arithmetic_sum, total};
use crate::context::Context;
use crate::descriptor::Descriptor;
use crate::error::MetricsError;
use crate::ieee;
use crate::number::{number_lt, number_sum, Number, NumberKind};
use vstd::prelude::*;

verus! {

/// What the aggregator knows of one period.
#[derive(Clone, Copy, Debug, PartialEq, Eq, Structural)]
pub struct State {
    /// How many measurements were made, modulo 2^64.
    pub count: Number,
    /// Their total.
    pub sum: Number,
    /// The least of them.
    pub min: Number,
    /// The greatest of them.
    pub max: Number,
}

/// The pattern from which a minimum starts: the largest value of the kind.
pub open spec fn highest(kind: NumberKind) -> u64 {
    match kind {
        NumberKind::U64 => u64::MAX,
        NumberKind::F64 => ieee::LARGEST_BITS,
    }
}

/// The pattern from which a maximum starts: the smallest value of the kind.
pub open spec fn lowest(kind: NumberKind) -> u64 {
    match kind {
        NumberKind::U64 => 0,
        NumberKind::F64 => ieee::SMALLEST_BITS,
    }
}

/// Whether a measurement lies between the values from which minimum and
/// maximum start: every integer does, and every binary64 value that is
/// finite.
pub open spec fn in_range(kind: NumberKind, number: u64) -> bool {
    match kind {
        NumberKind::U64 => true,
        NumberKind::F64 => ieee::is_finite(number),
    }
}

/// Whether every measurement of a sequence is in range.
pub open spec fn all_in_range(kind: NumberKind, updates: Seq<u64>) -> bool {
    forall|i: int| 0 <= i < updates.len() ==> in_range(kind, #[trigger] updates[i])
}

/// Whether `least` is a minimum of the measurements: one of them, with none
/// below it.
pub open spec fn is_minimum(kind: NumberKind, updates: Seq<u64>, least: u64) -> bool {
    &&& exists|i: int| 0 <= i < updates.len() && #[trigger] updates[i] == least
    &&& forall|i: int| 0 <= i < updates.len() ==> !number_lt(kind, #[trigger] updates[i], least)
}

/// Whether `greatest` is a maximum of the measurements: one of them, with
/// none above it.
pub open spec fn is_maximum(kind: NumberKind, updates: Seq<u64>, greatest: u64) -> bool {
    &&& exists|i: int| 0 <= i < updates.len() && #[trigger] updates[i] == greatest
    &&& forall|i: int| 0 <= i < updates.len() ==> !number_lt(kind, greatest, #[trigger] updates[i])
}

impl State {
    /// The state of a period in which nothing was recorded yet.
    pub open spec fn empty_state(kind: NumberKind) -> State {
        State {
            count: Number { bits: 0 },
            sum: Number { bits: 0 },
            min: Number { bits: highest(kind) },
            max: Number { bits: lowest(kind) },
        }
    }

    /// The state after one more measurement.
    pub open spec fn updated(self, kind: NumberKind, number: u64) -> State {
        State {
            count: Number { bits: number_sum(NumberKind::U64, self.count@, 1) },
            sum: Number { bits: number_sum(kind, self.sum@, number) },
            min: if number_lt(kind, number, self.min@) {
                Number { bits: number }
            } else {
                self.min
            },
            max: if number_lt(kind, self.max@, number) {
                Number { bits: number }
            } else {
                self.max
            },
        }
    }

    /// The state after a sequence of measurements.
    pub open spec fn after_updates(self, kind: NumberKind, updates: Seq<u64>) -> State
        decreases updates.len(),
    {
        if updates.len() == 0 {
            self
        } else {
            self.after_updates(kind, updates.drop_last()).updated(kind, updates.last())
        }
    }

    /// The state that stands for the measurements of this state and of
    /// `other` together.
    pub open spec fn merged(self, kind: NumberKind, other: State) -> State {
        State {
            count: Number { bits: number_sum(NumberKind::U64, self.count@, other.count@) },
            sum: Number { bits: number_sum(kind, self.sum@, other.sum@) },
            min: if number_lt(kind, other.min@, self.min@) {
                other.min
            } else {
                self.min
            },
            max: if number_lt(kind, self.max@, other.max@) {
                other.max
            } else {
                self.max
            },
        }
    }

    /// The state of a period in which nothing was recorded yet.
    pub fn empty(kind: &NumberKind) -> (r: State)
        ensures
            r == State::empty_state(*kind),
    {
        State { count: Number { bits: 0 }, sum: kind.zero(), min: kind.max(), max: kind.min() }
    }
}

/// A fresh aggregator for the instrument that `descriptor` describes.
pub fn min_max_sum_count(descriptor: &Descriptor) -> (r: MinMaxSumCountAggregator)
    ensures
        r == (MinMaxSumCountAggregator {
            kind: descriptor.number_kind,
            current: State::empty_state(descriptor.number_kind),
            checkpoint: None,
        }),
{
    let kind = *descriptor.number_kind();
    MinMaxSumCountAggregator { kind, current: State::empty(&kind), checkpoint: None }
}

/// Keeps count, sum, least and greatest of what is recorded.
#[derive(Clone, Copy, Debug, PartialEq, Eq, Structural)]
pub struct MinMaxSumCountAggregator {
    /// How the numbers of the instrument are read.
    pub kind: NumberKind,
    /// The period that is running.
    pub current: State,
    /// The period last closed, once there is one.
    pub checkpoint: Option<State>,
}

impl MinMaxSumCountAggregator {
    /// The aggregator after one measurement.
    pub open spec fn updated(self, kind: NumberKind, number: u64) -> MinMaxSumCountAggregator {
        MinMaxSumCountAggregator { current: self.current.updated(kind, number), ..self }
    }

    /// The aggregator after a checkpoint.
    pub open spec fn checkpointed(self) -> MinMaxSumCountAggregator {
        MinMaxSumCountAggregator {
            current: State::empty_state(self.kind),
            checkpoint: Some(self.current),
            ..self
        }
    }

    /// The aggregator after the checkpoint of `other` was merged into it.
    /// Where only one of the two has a checkpoint, that one is the result.
    pub open spec fn merged(self, kind: NumberKind, other: MinMaxSumCountAggregator) -> MinMaxSumCountAggregator {
        MinMaxSumCountAggregator {
            checkpoint: match (self.checkpoint, other.checkpoint) {
                (None, Some(theirs)) => Some(theirs),
                (Some(ours), Some(theirs)) => Some(ours.merged(kind, theirs)),
                (ours, None) => ours,
            },
            ..self
        }
    }

    /// Takes one measurement into the running period.
    pub fn update_with_context(&mut self, cx: &Context, number: &Number, descriptor: &Descriptor) -> (r:
        Result<(), MetricsError>)
        ensures
            r.is_ok(),
            *final(self) == old(self).updated(descriptor.number_kind, number@),
    {
        let kind = descriptor.number_kind();
        self.current.count.add(&NumberKind::U64, &Number { bits: 1 });
        self.current.sum.add(kind, number);
        if number.is_below(kind, &self.current.min) {
            self.current.min = *number;
        }
        if self.current.max.is_below(kind, number) {
            self.current.max = *number;
        }
        Ok(())
    }

    /// Closes the running period: it becomes the checkpoint, and a period
    /// without measurements starts.
    pub fn checkpoint(&mut self, descriptor: &Descriptor)
        ensures
            *final(self) == old(self).checkpointed(),
    {
        self.checkpoint = Some(self.current);
        self.current = State::empty(&self.kind);
    }

    /// Merges the checkpoint of `other` into the checkpoint of this
    /// aggregator.
    pub fn merge(&mut self, other: &MinMaxSumCountAggregator, descriptor: &Descriptor) -> (r: Result<
        (),
        MetricsError,
    >)
        ensures
            r.is_ok(),
            *final(self) == old(self).merged(descriptor.number_kind, *other),
    {
        let kind = descriptor.number_kind();
        match (self.checkpoint, other.checkpoint) {
            (None, Some(theirs)) => {
                self.checkpoint = Some(theirs);
            },
            (Some(ours), Some(theirs)) => {
                let mut state = ours;
                state.count.add(&NumberKind::U64, &theirs.count);
                state.sum.add(kind, &theirs.sum);
                if theirs.min.is_below(kind, &state.min) {
                    state.min.assign(kind, &theirs.min);
                }
                if state.max.is_below(kind, &theirs.max) {
                    state.max.assign(kind, &theirs.max);
                }
                self.checkpoint = Some(state);
            },
            (_, None) => {},
        }
        Ok(())
    }

    /// The least measurement of the period last closed; zero before the
    /// first checkpoint.
    pub fn min(&self) -> (r: Result<Number, MetricsError>)
        ensures
            r == Ok::<Number, MetricsError>(
                match self.checkpoint {
                    Some(state) => state.min,
                    None => Number { bits: 0 },
                },
            ),
    {
        match self.checkpoint {
            Some(state) => Ok(state.min),
            None => Ok(Number { bits: 0 }),
        }
    }

    /// The greatest measurement of the period last closed; zero before the
    /// first checkpoint.
    pub fn max(&self) -> (r: Result<Number, MetricsError>)
        ensures
            r == Ok::<Number, MetricsError>(
                match self.checkpoint {
                    Some(state) => state.max,
                    None => Number { bits: 0 },
                },
            ),
    {
        match self.checkpoint {
            Some(state) => Ok(state.max),
            None => Ok(Number { bits: 0 }),
        }
    }

    /// The total of the period last closed; zero before the first
    /// checkpoint.
    pub fn sum(&self) -> (r: Result<Number, MetricsError>)
        ensures
            r == Ok::<Number, MetricsError>(
                match self.checkpoint {
                    Some(state) => state.sum,
                    None => Number { bits: 0 },
                },
            ),
    {
        match self.checkpoint {
            Some(state) => Ok(state.sum),
            None => Ok(Number { bits: 0 }),
        }
    }

    /// How many measurements the period last closed took; zero before the
    /// first checkpoint.
    pub fn count(&self) -> (r: Result<u64, MetricsError>)
        ensures
            r == Ok::<u64, MetricsError>(
                match self.checkpoint {
                    Some(state) => state.count@,
                    None => 0,
                },
            ),
    {
        match self.checkpoint {
            Some(state) => Ok(state.count.to_u64()),
            None => Ok(0),
        }
    }
}

/// What a period holds once the measurements `updates` were taken into it,
/// starting from nothing: their number modulo 2^64 and their total; and,
/// where they are in range, the least and the greatest among them. Without
/// measurements, least and greatest are the values they start from.
pub proof fn period_summarises_updates(kind: NumberKind, updates: Seq<u64>)
    requires
        all_in_range(kind, updates),
    ensures
        ({
            let state = State::empty_state(kind).after_updates(kind, updates);
            &&& state.count@ == updates.len() % 0x1_0000_0000_0000_0000
            &&& state.sum@ == total(kind, updates)
            &&& in_range(kind, state.min@)
            &&& in_range(kind, state.max@)
            &&& updates.len() > 0 ==> is_minimum(kind, updates, state.min@) && is_maximum(
                kind,
                updates,
                state.max@,
            )
            &&& updates.len() == 0 ==> state == State::empty_state(kind)
        }),
    decreases updates.len(),
{
    if updates.len() > 0 {
        let front = updates.drop_last();
        let x = updates.last();
        assert(all_in_range(kind, front)) by {
            assert forall|i: int| 0 <= i < front.len() implies in_range(kind, #[trigger] front[i]) by {
                assert(front[i] == updates[i]);
            }
        }
        period_summarises_updates(kind, front);
        let before = State::empty_state(kind).after_updates(kind, front);
        let state = before.updated(kind, x);
        assert(in_range(kind, x)) by {
            assert(updates[updates.len() - 1] == x);
        }
        assert(state.count@ == updates.len() % 0x1_0000_0000_0000_0000) by {
            vstd::arithmetic::div_mod::lemma_add_mod_noop(
                front.len() as int,
                1,
                0x1_0000_0000_0000_0000,
            );
            vstd::arithmetic::div_mod::lemma_small_mod(1, 0x1_0000_0000_0000_0000);
            vstd::arithmetic::div_mod::lemma_mod_twice(front.len() as int, 0x1_0000_0000_0000_0000);
        }
        if front.len() > 0 {
            let i = choose|i: int| 0 <= i < front.len() && #[trigger] front[i] == before.min@;
            let j = choose|j: int| 0 <= j < front.len() && #[trigger] front[j] == before.max@;
            assert(updates[i] == before.min@ && updates[j] == before.max@);
            assert forall|n: int| 0 <= n < updates.len() implies !number_lt(
                kind,
                #[trigger] updates[n],
                state.min@,
            ) && !number_lt(kind, state.max@, updates[n]) by {
                if n < front.len() {
                    assert(front[n] == updates[n]);
                }
            }
        } else {
            assert forall|n: int| 0 <= n < updates.len() implies !number_lt(
                kind,
                #[trigger] updates[n],
                state.min@,
            ) && !number_lt(kind, state.max@, updates[n]) by {}
        }
        assert(updates[updates.len() - 1] == x);
        assert(is_minimum(kind, updates, state.min@));
        assert(is_maximum(kind, updates, state.max@));
    }
}

/// After a checkpoint, the aggregator reports of the period that it closed
/// how many measurements were made and, where they are in range, the least
/// and the greatest of them.
pub proof fn checkpoint_summarises_period(
    fresh: MinMaxSumCountAggregator,
    kind: NumberKind,
    updates: Seq<u64>,
)
    requires
        fresh.kind == kind,
        fresh.current == State::empty_state(kind),
        all_in_range(kind, updates),
    ensures
        ({
            let closed = after_updates(fresh, kind, updates).checkpointed();
            &&& closed.checkpoint.is_some()
            &&& closed.checkpoint.unwrap().count@ == updates.len() % 0x1_0000_0000_0000_0000
            &&& closed.checkpoint.unwrap().sum@ == total(kind, updates)
            &&& updates.len() > 0 ==> is_minimum(kind, updates, closed.checkpoint.unwrap().min@)
                && is_maximum(kind, updates, closed.checkpoint.unwrap().max@)
            &&& closed.current == State::empty_state(kind)
        }),
{
    period_summarises_updates(kind, updates);
    after_updates_folds_current(fresh, kind, updates);
}

/// The aggregator after a sequence of measurements.
pub open spec fn after_updates(
    aggregator: MinMaxSumCountAggregator,
    kind: NumberKind,
    updates: Seq<u64>,
) -> MinMaxSumCountAggregator
    decreases updates.len(),
{
    if updates.len() == 0 {
        aggregator
    } else {
        after_updates(aggregator, kind, updates.drop_last()).updated(kind, updates.last())
    }
}

/// Measurements touch the running period alone.
pub proof fn after_updates_folds_current(
    aggregator: MinMaxSumCountAggregator,
    kind: NumberKind,
    updates: Seq<u64>,
)
    ensures
        after_updates(aggregator, kind, updates) == (MinMaxSumCountAggregator {
            current: aggregator.current.after_updates(kind, updates),
            ..aggregator
        }),
    decreases updates.len(),
{
    if updates.len() > 0 {
        after_updates_folds_current(aggregator, kind, updates.drop_last());
    }
}

/// Merging the summaries of two periods gives the summary of one period
/// that took the measurements of both: the counts add up, and where the
/// measurements are in range, least and greatest are those of all of them.
/// For integers the sums add up as well.
pub proof fn merge_summarises_both(kind: NumberKind, first: Seq<u64>, second: Seq<u64>)
    requires
        all_in_range(kind, first),
        all_in_range(kind, second),
    ensures
        ({
            let ours = State::empty_state(kind).after_updates(kind, first);
            let theirs = State::empty_state(kind).after_updates(kind, second);
            let both = ours.merged(kind, theirs);
            &&& both.count@ == (first + second).len() % 0x1_0000_0000_0000_0000
            &&& (first + second).len() > 0 ==> is_minimum(kind, first + second, both.min@)
                && is_maximum(kind, first + second, both.max@)
            &&& kind == NumberKind::U64 ==> both == State::empty_state(kind).after_updates(
                kind,
                first + second,
            )
        }),
{
    let ours = State::empty_state(kind).after_updates(kind, first);
    let theirs = State::empty_state(kind).after_updates(kind, second);
    let both = ours.merged(kind, theirs);
    let all = first + second;
    period_summarises_updates(kind, first);
    period_summarises_updates(kind, second);
    assert(all_in_range(kind, all)) by {
        assert forall|i: int| 0 <= i < all.len() implies in_range(kind, #[trigger] all[i]) by {
            if i < first.len() {
                assert(all[i] == first[i]);
            } else {
                assert(all[i] == second[i - first.len()]);
            }
        }
    }
    period_summarises_updates(kind, all);
    assert(both.count@ == all.len() % 0x1_0000_0000_0000_0000) by {
        vstd::arithmetic::div_mod::lemma_add_mod_noop(
            first.len() as int,
            second.len() as int,
            0x1_0000_0000_0000_0000,
        );
    }
    if all.len() > 0 {
        assert forall|n: int| 0 <= n < all.len() implies !number_lt(kind, #[trigger] all[n], both.min@)
            && !number_lt(kind, both.max@, all[n]) by {
            if n < first.len() {
                assert(all[n] == first[n]);
            } else {
                assert(all[n] == second[n - first.len()]);
            }
        }
        if first.len() > 0 {
            let i = choose|i: int| 0 <= i < first.len() && #[trigger] first[i] == ours.min@;
            let j = choose|j: int| 0 <= j < first.len() && #[trigger] first[j] == ours.max@;
            assert(all[i] == ours.min@ && all[j] == ours.max@);
        }
        if second.len() > 0 {
            let i = choose|i: int| 0 <= i < second.len() && #[trigger] second[i] == theirs.min@;
            let j = choose|j: int| 0 <= j < second.len() && #[trigger] second[j] == theirs.max@;
            assert(all[first.len() + i] == theirs.min@ && all[first.len() + j] == theirs.max@);
        }
        assert(is_minimum(kind, all, both.min@));
        assert(is_maximum(kind, all, both.max@));
    }
    if kind == NumberKind::U64 {
        let one = State::empty_state(kind).after_updates(kind, all);
        integer_total_is_arithmetic_sum(first);
        integer_total_is_arithmetic_sum(second);
        integer_total_is_arithmetic_sum(all);
        arithmetic_sum_of_both(first, second);
        assert(both.sum@ == one.sum@) by {
            vstd::arithmetic::div_mod::lemma_add_mod_noop(
                arithmetic_sum(first),
                arithmetic_sum(second),
                0x1_0000_0000_0000_0000,
            );
        }
        if all.len() > 0 {
            assert(both.min@ == one.min@) by {
                let i = choose|i: int| 0 <= i < all.len() && #[trigger] all[i] == both.min@;
                let j = choose|j: int| 0 <= j < all.len() && #[trigger] all[j] == one.min@;
            }
            assert(both.max@ == one.max@) by {
                let i = choose|i: int| 0 <= i < all.len() && #[trigger] all[i] == both.max@;
                let j = choose|j: int| 0 <= j < all.len() && #[trigger] all[j] == one.max@;
            }
        } else {
            assert(first.len() == 0 && second.len() == 0);
        }
    }
}

/// The arithmetic sum of two sequences in a row is the sum of their sums.
pub proof fn arithmetic_sum_of_both(first: Seq<u64>, second: Seq<u64>)
    ensures
        arithmetic_sum(first + second) == arithmetic_sum(first) + arithmetic_sum(second),
    decreases second.len(),
{
    if second.len() == 0 {
        assert(first + second =~= first);
    } else {
        assert((first + second).drop_last() =~= first + second.drop_last());
        arithmetic_sum_of_both(first, second.drop_last());
    }
}

} // verus!
