//! The running total.
use crate::context::Context;
use crate::descriptor::Descriptor;
use crate::error::MetricsError;
use crate::number::{number_sum, Number, NumberKind};
use vstd::prelude::*;

verus! {

/// A fresh sum aggregator: both totals zero.
pub fn sum() -> (r: SumAggregator)
    ensures
        r.current@ == 0,
        r.checkpoint@ == 0,
{
    SumAggregator { current: Number { bits: 0 }, checkpoint: Number { bits: 0 } }
}

/// Adds up what is recorded. `current` is the total of the period that is
/// running, `checkpoint` that of the period last closed.
#[derive(Clone, Copy, Debug, PartialEq, Eq, Structural)]
pub struct SumAggregator {
    /// The total since the last checkpoint.
    pub current: Number,
    /// The total of the period that the last checkpoint closed.
    pub checkpoint: Number,
}

/// The total of a sequence of measurements under a kind, added up from zero
/// in the order in which they came.
pub open spec fn total(kind: NumberKind, updates: Seq<u64>) -> u64
    decreases updates.len(),
{
    if updates.len() == 0 {
        0
    } else {
        number_sum(kind, total(kind, updates.drop_last()), updates.last())
    }
}

/// The sum of a sequence of integers, without bound.
pub open spec fn arithmetic_sum(updates: Seq<u64>) -> int
    decreases updates.len(),
{
    if updates.len() == 0 {
        0
    } else {
        arithmetic_sum(updates.drop_last()) + updates.last()
    }
}

impl SumAggregator {
    /// The aggregator after one measurement.
    pub open spec fn updated(self, kind: NumberKind, number: u64) -> SumAggregator {
        SumAggregator { current: Number { bits: number_sum(kind, self.current@, number) }, ..self }
    }

    /// The aggregator after a sequence of measurements.
    pub open spec fn after_updates(self, kind: NumberKind, updates: Seq<u64>) -> SumAggregator
        decreases updates.len(),
    {
        if updates.len() == 0 {
            self
        } else {
            self.after_updates(kind, updates.drop_last()).updated(kind, updates.last())
        }
    }

    /// The aggregator after a checkpoint.
    pub open spec fn checkpointed(self) -> SumAggregator {
        SumAggregator { current: Number { bits: 0 }, checkpoint: self.current }
    }

    /// The aggregator after the checkpoint of `other` was merged into it.
    pub open spec fn merged(self, kind: NumberKind, other: SumAggregator) -> SumAggregator {
        SumAggregator {
            checkpoint: Number { bits: number_sum(kind, self.checkpoint@, other.checkpoint@) },
            ..self
        }
    }

    /// Adds one measurement to the running total.
    pub fn update_with_context(&mut self, cx: &Context, number: &Number, descriptor: &Descriptor) -> (r:
        Result<(), MetricsError>)
        ensures
            r.is_ok(),
            *final(self) == old(self).updated(descriptor.number_kind, number@),
    {
        self.current.add(descriptor.number_kind(), number);
        Ok(())
    }

    /// Closes the running period: its total becomes the checkpoint, and the
    /// running total starts again from zero.
    pub fn checkpoint(&mut self, descriptor: &Descriptor)
        ensures
            *final(self) == old(self).checkpointed(),
    {
        let kind = descriptor.number_kind();
        let closed = self.current;
        self.checkpoint.assign(kind, &closed);
        self.current.assign(kind, &kind.zero());
    }

    /// Adds the checkpoint of `other` to the checkpoint of this aggregator.
    pub fn merge(&mut self, other: &SumAggregator, descriptor: &Descriptor) -> (r: Result<
        (),
        MetricsError,
    >)
        ensures
            r.is_ok(),
            *final(self) == old(self).merged(descriptor.number_kind, *other),
    {
        self.checkpoint.add(descriptor.number_kind(), &other.checkpoint);
        Ok(())
    }

    /// The total of the period last closed.
    pub fn sum(&self) -> (r: Result<Number, MetricsError>)
        ensures
            r == Ok::<Number, MetricsError>(self.checkpoint),
    {
        Ok(self.checkpoint)
    }

    /// After a checkpoint, the sum is the total of exactly the measurements
    /// made since the running total was last zero: what was recorded in
    /// earlier periods has no part in it.
    pub proof fn checkpoint_holds_total_of_period(self, kind: NumberKind, updates: Seq<u64>)
        requires
            self.current@ == 0,
        ensures
            self.after_updates(kind, updates).checkpointed().checkpoint@ == total(kind, updates),
            self.after_updates(kind, updates).checkpoint == self.checkpoint,
        decreases updates.len(),
    {
        if updates.len() > 0 {
            self.checkpoint_holds_total_of_period(kind, updates.drop_last());
        }
    }

    /// A checkpoint starts a new period whatever came before: the
    /// measurements made after it, once checkpointed in turn, give their own
    /// total and nothing of the earlier total.
    pub proof fn checkpoint_starts_new_period(self, kind: NumberKind, updates: Seq<u64>)
        ensures
            self.checkpointed().current@ == 0,
            self.checkpointed().after_updates(kind, updates).checkpointed().checkpoint@ == total(
                kind,
                updates,
            ),
    {
        self.checkpointed().checkpoint_holds_total_of_period(kind, updates);
    }
}

/// For integers the total is the arithmetic sum modulo 2^64, so it is the
/// arithmetic sum itself wherever that fits in 64 bits.
pub proof fn integer_total_is_arithmetic_sum(updates: Seq<u64>)
    ensures
        total(NumberKind::U64, updates) == arithmetic_sum(updates) % 0x1_0000_0000_0000_0000,
        arithmetic_sum(updates) <= u64::MAX ==> total(NumberKind::U64, updates) == arithmetic_sum(
            updates,
        ),
        arithmetic_sum(updates) >= 0,
    decreases updates.len(),
{
    if updates.len() > 0 {
        integer_total_is_arithmetic_sum(updates.drop_last());
        let before = arithmetic_sum(updates.drop_last());
        let last = updates.last() as int;
        assert(((before % 0x1_0000_0000_0000_0000) + last) % 0x1_0000_0000_0000_0000 == (before
            + last) % 0x1_0000_0000_0000_0000) by {
            vstd::arithmetic::div_mod::lemma_add_mod_noop(before, last, 0x1_0000_0000_0000_0000);
            vstd::arithmetic::div_mod::lemma_small_mod(last as nat, 0x1_0000_0000_0000_0000);
            vstd::arithmetic::div_mod::lemma_mod_twice(before, 0x1_0000_0000_0000_0000);
        }
    }
}

} // verus!
