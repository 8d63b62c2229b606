//! What can be read off an aggregator once a period is closed. An exporter
//! asks for these by trait, whatever aggregator it is handed.
use crate::aggregators::array::{quantile_of, ArrayAggregator};
use crate::aggregators::histogram::{numbers_of, Buckets, HistogramAggregator};
use crate::aggregators::last_value::LastValueAggregator;
use crate::aggregators::min_max_sum_count::MinMaxSumCountAggregator;
use crate::aggregators::sum::SumAggregator;
use crate::error::MetricsError;
use crate::ieee;
use crate::number::Number;
use vstd::prelude::*;

verus! {

/// The total of what was aggregated.
pub trait Sum {
    /// What `sum` returns.
    spec fn summed(&self) -> Result<Number, MetricsError>;

    /// The total.
    fn sum(&self) -> (r: Result<Number, MetricsError>)
        ensures
            r == self.summed(),
    ;
}

/// The number of values that were aggregated.
pub trait Count {
    /// What `count` returns.
    spec fn counted(&self) -> Result<u64, MetricsError>;

    /// The number of values.
    fn count(&self) -> (r: Result<u64, MetricsError>)
        ensures
            r == self.counted(),
    ;
}

/// The least of the values that were aggregated.
pub trait Min {
    /// What `min` returns.
    spec fn least(&self) -> Result<Number, MetricsError>;

    /// The least value.
    fn min(&self) -> (r: Result<Number, MetricsError>)
        ensures
            r == self.least(),
    ;
}

/// The greatest of the values that were aggregated.
pub trait Max {
    /// What `max` returns.
    spec fn greatest(&self) -> Result<Number, MetricsError>;

    /// The greatest value.
    fn max(&self) -> (r: Result<Number, MetricsError>)
        ensures
            r == self.greatest(),
    ;
}

/// A quantile of the values that were aggregated.
pub trait Quantile {
    /// What `quantile` returns for a quantile.
    spec fn quantile_at(&self, q: u64) -> Result<Number, MetricsError>;

    /// The value at a quantile, which is given as the pattern of a
    /// binary64 value from 0 to 1.
    fn quantile(&self, q: u64) -> (r: Result<Number, MetricsError>)
        ensures
            r == self.quantile_at(q),
    ;
}

/// The value that was aggregated last.
pub trait LastValue {
    /// What `last_value` returns.
    spec fn latest(&self) -> Result<(Number, u64), MetricsError>;

    /// The last value and the time at which it was recorded, in
    /// nanoseconds since the Unix epoch.
    fn last_value(&self) -> (r: Result<(Number, u64), MetricsError>)
        ensures
            r == self.latest(),
    ;
}

/// The values that were aggregated, one by one.
pub trait Points {
    /// The values that `points` returns.
    spec fn measured(&self) -> Seq<Number>;

    /// The values.
    fn points(&self) -> (r: Result<Vec<Number>, MetricsError>)
        ensures
            r.is_ok(),
            r.unwrap()@ == self.measured(),
    ;
}

/// The counts of the values that were aggregated, in buckets.
pub trait Histogram: Sum {
    /// The boundaries of the buckets.
    spec fn bucket_boundaries(&self) -> Seq<Number>;

    /// The count of each bucket.
    spec fn bucket_counts(&self) -> Seq<u64>;

    /// The boundaries and the counts.
    fn histogram(&self) -> (r: Result<Buckets, MetricsError>)
        ensures
            r.is_ok(),
            numbers_of(r.unwrap().spec_boundaries()) == self.bucket_boundaries(),
            r.unwrap().spec_counts() == self.bucket_counts(),
    ;
}

/// Least, greatest, total and number together.
pub trait MinMaxSumCount: Min + Max + Sum + Count {

}

/// Least, greatest, total and number, and the quantiles.
pub trait Distribution: MinMaxSumCount + Quantile {

}

impl Sum for SumAggregator {
    open spec fn summed(&self) -> Result<Number, MetricsError> {
        Ok(self.checkpoint)
    }

    fn sum(&self) -> (r: Result<Number, MetricsError>) {
        SumAggregator::sum(self)
    }
}

impl Min for MinMaxSumCountAggregator {
    open spec fn least(&self) -> Result<Number, MetricsError> {
        Ok(
            match self.checkpoint {
                Some(state) => state.min,
                None => Number { bits: 0 },
            },
        )
    }

    fn min(&self) -> (r: Result<Number, MetricsError>) {
        MinMaxSumCountAggregator::min(self)
    }
}

impl Max for MinMaxSumCountAggregator {
    open spec fn greatest(&self) -> Result<Number, MetricsError> {
        Ok(
            match self.checkpoint {
                Some(state) => state.max,
                None => Number { bits: 0 },
            },
        )
    }

    fn max(&self) -> (r: Result<Number, MetricsError>) {
        MinMaxSumCountAggregator::max(self)
    }
}

impl Sum for MinMaxSumCountAggregator {
    open spec fn summed(&self) -> Result<Number, MetricsError> {
        Ok(
            match self.checkpoint {
                Some(state) => state.sum,
                None => Number { bits: 0 },
            },
        )
    }

    fn sum(&self) -> (r: Result<Number, MetricsError>) {
        MinMaxSumCountAggregator::sum(self)
    }
}

impl Count for MinMaxSumCountAggregator {
    open spec fn counted(&self) -> Result<u64, MetricsError> {
        Ok(
            match self.checkpoint {
                Some(state) => state.count@,
                None => 0,
            },
        )
    }

    fn count(&self) -> (r: Result<u64, MetricsError>) {
        MinMaxSumCountAggregator::count(self)
    }
}

impl MinMaxSumCount for MinMaxSumCountAggregator {

}

impl Sum for HistogramAggregator {
    open spec fn summed(&self) -> Result<Number, MetricsError> {
        Ok(Number { bits: self@.checkpoint.sum })
    }

    fn sum(&self) -> (r: Result<Number, MetricsError>) {
        HistogramAggregator::sum(self)
    }
}

impl Count for HistogramAggregator {
    open spec fn counted(&self) -> Result<u64, MetricsError> {
        Ok(self@.checkpoint.count)
    }

    fn count(&self) -> (r: Result<u64, MetricsError>) {
        HistogramAggregator::count(self)
    }
}

impl Histogram for HistogramAggregator {
    open spec fn bucket_boundaries(&self) -> Seq<Number> {
        self@.boundaries
    }

    open spec fn bucket_counts(&self) -> Seq<u64> {
        self@.checkpoint.bucket_counts
    }

    fn histogram(&self) -> (r: Result<Buckets, MetricsError>) {
        HistogramAggregator::histogram(self)
    }
}

impl LastValue for LastValueAggregator {
    open spec fn latest(&self) -> Result<(Number, u64), MetricsError> {
        match self.checkpoint {
            Some(data) => Ok((data.value, data.timestamp)),
            None => Err(MetricsError::NoDataCollected),
        }
    }

    fn last_value(&self) -> (r: Result<(Number, u64), MetricsError>) {
        LastValueAggregator::last_value(self)
    }
}

impl Min for ArrayAggregator {
    open spec fn least(&self) -> Result<Number, MetricsError> {
        quantile_of(self@.checkpoint, 0)
    }

    fn min(&self) -> (r: Result<Number, MetricsError>) {
        ArrayAggregator::min(self)
    }
}

impl Max for ArrayAggregator {
    open spec fn greatest(&self) -> Result<Number, MetricsError> {
        quantile_of(self@.checkpoint, ieee::ONE_BITS)
    }

    fn max(&self) -> (r: Result<Number, MetricsError>) {
        ArrayAggregator::max(self)
    }
}

impl Sum for ArrayAggregator {
    open spec fn summed(&self) -> Result<Number, MetricsError> {
        Ok(self@.checkpoint_sum)
    }

    fn sum(&self) -> (r: Result<Number, MetricsError>) {
        ArrayAggregator::sum(self)
    }
}

impl Count for ArrayAggregator {
    open spec fn counted(&self) -> Result<u64, MetricsError> {
        Ok(self@.checkpoint.len() as u64)
    }

    fn count(&self) -> (r: Result<u64, MetricsError>) {
        ArrayAggregator::count(self)
    }
}

impl Quantile for ArrayAggregator {
    open spec fn quantile_at(&self, q: u64) -> Result<Number, MetricsError> {
        quantile_of(self@.checkpoint, q)
    }

    fn quantile(&self, q: u64) -> (r: Result<Number, MetricsError>) {
        ArrayAggregator::quantile(self, q)
    }
}

impl Points for ArrayAggregator {
    open spec fn measured(&self) -> Seq<Number> {
        self@.checkpoint
    }

    fn points(&self) -> (r: Result<Vec<Number>, MetricsError>) {
        ArrayAggregator::points(self)
    }
}

impl MinMaxSumCount for ArrayAggregator {

}

impl Distribution for ArrayAggregator {

}

} // verus!
