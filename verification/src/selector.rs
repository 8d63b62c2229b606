//! The choice of an aggregator for an instrument.
use crate::aggregator::{Aggregator, AggregatorView};
use crate::aggregators::array::{array, ArrayView};
use crate::aggregators::histogram::{histogram, HistogramView};
use crate::aggregators::min_max_sum_count::{min_max_sum_count, MinMaxSumCountAggregator, State};
use crate::aggregators::sum::{sum, SumAggregator};
use crate::descriptor::{Descriptor, InstrumentKind};
use crate::number::Number;
use std::sync::Arc;
use vstd::prelude::*;

verus! {

/// Chooses the aggregator of an instrument. The choice depends on the
/// descriptor alone, and what is chosen holds no measurement yet.
pub trait AggregationSelector {
    /// What `aggregator_for` gives for a descriptor. This is read by the
    /// verifier alone; nothing that runs calls it.
    spec fn selection(&self, descriptor: Descriptor) -> Option<AggregatorView>;

    /// A fresh aggregator for the instrument, or none, which switches the
    /// instrument off.
    fn aggregator_for(&self, descriptor: &Descriptor) -> (r: Option<Aggregator>)
        ensures
            r.is_some() == self.selection(*descriptor).is_some(),
            r.is_some() ==> r.unwrap()@ == self.selection(*descriptor).unwrap() && r.unwrap()@.wf()
                && r.unwrap()@.fresh(),
    ;
}

/// What a selector gives for each descriptor.
pub type Selection = spec_fn(Descriptor) -> Option<AggregatorView>;

/// What the selector gives for each descriptor.
pub open spec fn selection_of<S: AggregationSelector>(selector: &S) -> Selection {
    |descriptor: Descriptor| selector.selection(descriptor)
}

/// Calls `Arc::clone` of std, which makes another pointer to the value
/// that `selector` points to: both lead to the same selector.
#[verifier::external_body]
pub(crate) fn share<S>(selector: &Arc<S>) -> (r: Arc<S>)
    ensures
        r == *selector,
{
    Arc::clone(selector)
}

/// The selectors that come with the engine. Each gives instruments that
/// add up a sum aggregator; they differ in what they give to recorders and
/// observers of single values.
#[derive(Debug)]
pub enum Selector {
    /// Count, sum, least and greatest.
    Inexpensive,
    /// Every measurement.
    Exact,
    /// A histogram with the given boundaries, which are patterns of
    /// binary64 values.
    Histogram(Vec<u64>),
}

impl Clone for Selector {
    fn clone(&self) -> (r: Selector)
        ensures
            r.choice() == self.choice(),
    {
        match self {
            Selector::Inexpensive => Selector::Inexpensive,
            Selector::Exact => Selector::Exact,
            Selector::Histogram(boundaries) => Selector::Histogram(boundaries.clone()),
        }
    }
}

/// What a selector gives to recorders and observers of single values.
pub enum Choice {
    /// Count, sum, least and greatest.
    Inexpensive,
    /// Every measurement.
    Exact,
    /// A histogram with the given boundaries.
    Histogram(Seq<u64>),
}

/// The sum aggregator without measurements.
pub open spec fn fresh_sum() -> AggregatorView {
    AggregatorView::Sum(SumAggregator { current: Number { bits: 0 }, checkpoint: Number { bits: 0 } })
}

/// The aggregator that a choice gives for a descriptor.
pub open spec fn chosen(choice: Choice, descriptor: Descriptor) -> AggregatorView {
    if descriptor.instrument_kind.grouping() {
        match choice {
            Choice::Inexpensive => AggregatorView::MinMaxSumCount(
                MinMaxSumCountAggregator {
                    kind: descriptor.number_kind,
                    current: State::empty_state(descriptor.number_kind),
                    checkpoint: None,
                },
            ),
            Choice::Exact => AggregatorView::Array(ArrayView::fresh()),
            Choice::Histogram(boundaries) => AggregatorView::Histogram(
                HistogramView::fresh(descriptor.number_kind, boundaries),
            ),
        }
    } else {
        fresh_sum()
    }
}

impl Selector {
    /// What this selector gives to recorders and observers of single
    /// values.
    pub open spec fn choice(&self) -> Choice {
        match *self {
            Selector::Inexpensive => Choice::Inexpensive,
            Selector::Exact => Choice::Exact,
            Selector::Histogram(boundaries) => Choice::Histogram(boundaries@),
        }
    }
}

impl AggregationSelector for Selector {
    open spec fn selection(&self, descriptor: Descriptor) -> Option<AggregatorView> {
        Some(chosen(self.choice(), descriptor))
    }

    fn aggregator_for(&self, descriptor: &Descriptor) -> (r: Option<Aggregator>) {
        let single = match descriptor.instrument_kind() {
            InstrumentKind::ValueObserver | InstrumentKind::ValueRecorder => true,
            _ => false,
        };
        if !single {
            return Some(Aggregator::Sum(sum()));
        }
        match self {
            Selector::Inexpensive => Some(Aggregator::MinMaxSumCount(min_max_sum_count(descriptor))),
            Selector::Exact => Some(Aggregator::Array(array())),
            Selector::Histogram(boundaries) => Some(
                Aggregator::Histogram(histogram(descriptor, boundaries.as_slice())),
            ),
        }
    }
}

} // verus!
