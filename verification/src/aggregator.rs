//! The aggregators as one type, and the check that every measurement passes
//! before it reaches one.
use crate::aggregators::array::{ArrayAggregator, ArrayView};
use crate::aggregators::histogram::{HistogramAggregator, HistogramView, StateView};
use crate::aggregators::last_value::LastValueAggregator;
use crate::aggregators::min_max_sum_count::{MinMaxSumCountAggregator, State};
use crate::aggregators::sum::SumAggregator;
use crate::context::Context;
use crate::descriptor::{Descriptor, InstrumentKind};
use crate::error::MetricsError;
use crate::ieee;
use crate::number::{number_is_negative, Number, NumberKind};
use vstd::prelude::*;

verus! {

/// Why a measurement is refused, if it is: a NaN where the instrument takes
/// binary64 values, and a negative value where the instrument is monotonic.
pub open spec fn range_fault(number: u64, descriptor: Descriptor) -> Option<MetricsError> {
    if descriptor.number_kind == NumberKind::F64 && ieee::is_nan(number) {
        Some(MetricsError::NaNInput)
    } else if descriptor.instrument_kind.monotonic() && number_is_negative(
        descriptor.number_kind,
        number,
    ) {
        Some(MetricsError::NegativeInput)
    } else {
        None
    }
}

/// Checks a measurement against the instrument that it is made on.
pub fn range_test(number: &Number, descriptor: &Descriptor) -> (r: Result<(), MetricsError>)
    ensures
        match range_fault(number@, *descriptor) {
            Some(fault) => r == Err::<(), MetricsError>(fault),
            None => r.is_ok(),
        },
{
    if *descriptor.number_kind() == NumberKind::F64 && number.is_nan() {
        return Err(MetricsError::NaNInput);
    }
    match descriptor.instrument_kind() {
        InstrumentKind::Counter | InstrumentKind::SumObserver => {
            if number.is_negative(descriptor.number_kind()) {
                return Err(MetricsError::NegativeInput);
            }
        },
        _ => {},
    }
    Ok(())
}

/// The state that folds the measurements of one instrument and label set
/// into a summary, in one of five ways.
#[derive(Debug)]
pub enum Aggregator {
    /// The running total.
    Sum(SumAggregator),
    /// Count, sum, least and greatest.
    MinMaxSumCount(MinMaxSumCountAggregator),
    /// Counts in buckets.
    Histogram(HistogramAggregator),
    /// The measurement made last.
    LastValue(LastValueAggregator),
    /// Every measurement.
    Array(ArrayAggregator),
}

/// What an aggregator holds.
pub enum AggregatorView {
    /// The running total.
    Sum(SumAggregator),
    /// Count, sum, least and greatest.
    MinMaxSumCount(MinMaxSumCountAggregator),
    /// Counts in buckets.
    Histogram(HistogramView),
    /// The measurement made last.
    LastValue(LastValueAggregator),
    /// Every measurement.
    Array(ArrayView),
}

impl AggregatorView {
    /// Whether the aggregator is in order: a histogram has its boundaries
    /// sorted and a count for every bucket.
    pub open spec fn wf(self) -> bool {
        match self {
            AggregatorView::Histogram(h) => h.wf(),
            _ => true,
        }
    }

    /// Whether the aggregator holds no measurement: neither in the period
    /// that is running nor in a checkpoint.
    pub open spec fn fresh(self) -> bool {
        match self {
            AggregatorView::Sum(a) => a.current@ == 0 && a.checkpoint@ == 0,
            AggregatorView::MinMaxSumCount(a) => a.current == State::empty_state(a.kind)
                && a.checkpoint.is_none(),
            AggregatorView::Histogram(a) => a.current == StateView::empty_state(a.boundaries.len() + 1)
                && a.checkpoint == StateView::empty_state(a.boundaries.len() + 1),
            AggregatorView::LastValue(a) => a.current.is_none() && a.checkpoint.is_none(),
            AggregatorView::Array(a) => a == ArrayView::fresh(),
        }
    }

    /// The aggregator after a measurement made at `timestamp` on an
    /// instrument of the given kind.
    pub open spec fn updated(self, timestamp: u64, kind: NumberKind, number: u64) -> AggregatorView {
        match self {
            AggregatorView::Sum(a) => AggregatorView::Sum(a.updated(kind, number)),
            AggregatorView::MinMaxSumCount(a) => AggregatorView::MinMaxSumCount(a.updated(kind, number)),
            AggregatorView::Histogram(a) => AggregatorView::Histogram(a.updated(kind, number)),
            AggregatorView::LastValue(a) => AggregatorView::LastValue(a.updated(timestamp, number)),
            AggregatorView::Array(a) => AggregatorView::Array(a.updated(number)),
        }
    }

    /// The aggregator after a checkpoint.
    pub open spec fn checkpointed(self, kind: NumberKind) -> AggregatorView {
        match self {
            AggregatorView::Sum(a) => AggregatorView::Sum(a.checkpointed()),
            AggregatorView::MinMaxSumCount(a) => AggregatorView::MinMaxSumCount(a.checkpointed()),
            AggregatorView::Histogram(a) => AggregatorView::Histogram(a.checkpointed()),
            AggregatorView::LastValue(a) => AggregatorView::LastValue(a.checkpointed()),
            AggregatorView::Array(a) => AggregatorView::Array(a.checkpointed(kind)),
        }
    }

    /// Whether the checkpoint of `other` can be merged into this
    /// aggregator: the two are of the same variant, and two histograms have
    /// the same boundaries.
    pub open spec fn mergeable(self, other: AggregatorView) -> bool {
        match (self, other) {
            (AggregatorView::Sum(_), AggregatorView::Sum(_)) => true,
            (AggregatorView::MinMaxSumCount(_), AggregatorView::MinMaxSumCount(_)) => true,
            (AggregatorView::Histogram(a), AggregatorView::Histogram(b)) => a.boundaries == b.boundaries,
            (AggregatorView::LastValue(_), AggregatorView::LastValue(_)) => true,
            (AggregatorView::Array(_), AggregatorView::Array(_)) => true,
            _ => false,
        }
    }

    /// The aggregator after the checkpoint of `other` was merged into it.
    /// Where the two cannot be merged it is as before.
    pub open spec fn merged(self, kind: NumberKind, other: AggregatorView) -> AggregatorView {
        match (self, other) {
            (AggregatorView::Sum(a), AggregatorView::Sum(b)) => AggregatorView::Sum(a.merged(kind, b)),
            (
                AggregatorView::MinMaxSumCount(a),
                AggregatorView::MinMaxSumCount(b),
            ) => AggregatorView::MinMaxSumCount(a.merged(kind, b)),
            (AggregatorView::Histogram(a), AggregatorView::Histogram(b)) => if a.boundaries
                == b.boundaries {
                AggregatorView::Histogram(a.merged(kind, b))
            } else {
                self
            },
            (AggregatorView::LastValue(a), AggregatorView::LastValue(b)) => AggregatorView::LastValue(
                a.merged(b),
            ),
            (AggregatorView::Array(a), AggregatorView::Array(b)) => AggregatorView::Array(
                a.merged(kind, b),
            ),
            _ => self,
        }
    }
}

impl View for Aggregator {
    type V = AggregatorView;

    open spec fn view(&self) -> AggregatorView {
        match *self {
            Aggregator::Sum(a) => AggregatorView::Sum(a),
            Aggregator::MinMaxSumCount(a) => AggregatorView::MinMaxSumCount(a),
            Aggregator::Histogram(a) => AggregatorView::Histogram(a@),
            Aggregator::LastValue(a) => AggregatorView::LastValue(a),
            Aggregator::Array(a) => AggregatorView::Array(a@),
        }
    }
}

impl Clone for Aggregator {
    fn clone(&self) -> (r: Aggregator)
        ensures
            r@ == self@,
    {
        match self {
            Aggregator::Sum(a) => Aggregator::Sum(*a),
            Aggregator::MinMaxSumCount(a) => Aggregator::MinMaxSumCount(*a),
            Aggregator::Histogram(a) => Aggregator::Histogram(a.clone()),
            Aggregator::LastValue(a) => Aggregator::LastValue(*a),
            Aggregator::Array(a) => Aggregator::Array(a.clone()),
        }
    }
}

impl Aggregator {
    /// Takes one measurement into the running period.
    pub fn update_with_context(&mut self, cx: &Context, number: &Number, descriptor: &Descriptor) -> (r:
        Result<(), MetricsError>)
        requires
            old(self)@.wf(),
        ensures
            r.is_ok(),
            final(self)@ == old(self)@.updated(cx.timestamp, descriptor.number_kind, number@),
            final(self)@.wf(),
    {
        match self {
            Aggregator::Sum(a) => a.update_with_context(cx, number, descriptor),
            Aggregator::MinMaxSumCount(a) => a.update_with_context(cx, number, descriptor),
            Aggregator::Histogram(a) => a.update_with_context(cx, number, descriptor),
            Aggregator::LastValue(a) => a.update_with_context(cx, number, descriptor),
            Aggregator::Array(a) => a.update_with_context(cx, number, descriptor),
        }
    }

    /// Closes the running period: what it gathered becomes the checkpoint,
    /// and an empty period starts.
    pub fn checkpoint(&mut self, descriptor: &Descriptor)
        requires
            old(self)@.wf(),
        ensures
            final(self)@ == old(self)@.checkpointed(descriptor.number_kind),
            final(self)@.wf(),
    {
        match self {
            Aggregator::Sum(a) => a.checkpoint(descriptor),
            Aggregator::MinMaxSumCount(a) => a.checkpoint(descriptor),
            Aggregator::Histogram(a) => a.checkpoint(descriptor),
            Aggregator::LastValue(a) => a.checkpoint(descriptor),
            Aggregator::Array(a) => a.checkpoint(descriptor),
        }
    }

    /// Merges the checkpoint of `other` into the checkpoint of this
    /// aggregator. Aggregators of different variants, and histograms with
    /// different boundaries, are not merged: the call fails and changes
    /// nothing.
    pub fn merge(&mut self, other: &Aggregator, descriptor: &Descriptor) -> (r: Result<(), MetricsError>)
        requires
            old(self)@.wf(),
            other@.wf(),
        ensures
            final(self)@.wf(),
            final(self)@ == old(self)@.merged(descriptor.number_kind, other@),
            old(self)@.mergeable(other@) ==> r.is_ok(),
            !old(self)@.mergeable(other@) ==> r matches Err(MetricsError::InconsistentMergeError(_)),
    {
        match (self, other) {
            (Aggregator::Sum(a), Aggregator::Sum(b)) => a.merge(b, descriptor),
            (Aggregator::MinMaxSumCount(a), Aggregator::MinMaxSumCount(b)) => a.merge(b, descriptor),
            (Aggregator::Histogram(a), Aggregator::Histogram(b)) => a.merge(b, descriptor),
            (Aggregator::LastValue(a), Aggregator::LastValue(b)) => a.merge(b, descriptor),
            (Aggregator::Array(a), Aggregator::Array(b)) => a.merge(b, descriptor),
            _ => Err(
                MetricsError::InconsistentMergeError(String::from_str("aggregators of different variants")),
            ),
        }
    }
}

} // verus!
