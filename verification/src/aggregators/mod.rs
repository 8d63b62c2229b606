//! The aggregators: one for each way of folding measurements into a summary.
pub mod array;
pub mod histogram;
pub mod last_value;
pub mod min_max_sum_count;
pub mod sum;

pub use array::{array, ArrayAggregator};
pub use histogram::{histogram, HistogramAggregator};
pub use last_value::{last_value, LastValueAggregator};
pub use min_max_sum_count::{min_max_sum_count, MinMaxSumCountAggregator};
pub use sum::{sum, SumAggregator};
