//! The errors of the metrics engine.
use vstd::prelude::*;

verus! {

/// What can go wrong while recording, merging or reading metrics.
#[derive(Debug)]
pub enum MetricsError {
    /// An error that fits none of the other cases, with its message.
    Other(String),
    /// A quantile outside the range from 0 to 1 was asked for.
    InvalidQuantile,
    /// A NaN was recorded.
    NaNInput,
    /// A negative value was recorded on a monotonic instrument.
    NegativeInput,
    /// Two aggregators of different shapes were to be merged.
    InconsistentMergeError(String),
    /// An input or output error, with its message.
    IO(String),
    /// Data was asked of an aggregator that has collected none.
    NoDataCollected,
    /// An instrument was registered twice under one name with different kinds.
    MetricKindMismatch(String),
}

impl Clone for MetricsError {
    fn clone(&self) -> (r: MetricsError)
        ensures
            r == *self,
    {
        match self {
            MetricsError::Other(detail) => MetricsError::Other(detail.clone()),
            MetricsError::InvalidQuantile => MetricsError::InvalidQuantile,
            MetricsError::NaNInput => MetricsError::NaNInput,
            MetricsError::NegativeInput => MetricsError::NegativeInput,
            MetricsError::InconsistentMergeError(detail) => MetricsError::InconsistentMergeError(
                detail.clone(),
            ),
            MetricsError::IO(detail) => MetricsError::IO(detail.clone()),
            MetricsError::NoDataCollected => MetricsError::NoDataCollected,
            MetricsError::MetricKindMismatch(detail) => MetricsError::MetricKindMismatch(
                detail.clone(),
            ),
        }
    }
}

impl MetricsError {
    /// The message of this error.
    pub fn message(&self) -> (r: String)
        ensures
            r@ == self.message_text(),
    {
        match self {
            MetricsError::Other(detail) => String::from_str("metrics error: ").concat(detail.as_str()),
            MetricsError::InvalidQuantile => String::from_str("the requested quantile is out of range"),
            MetricsError::NaNInput => String::from_str("NaN value is an invalid input"),
            MetricsError::NegativeInput => String::from_str(
                "negative value is out of range for this instrument",
            ),
            MetricsError::InconsistentMergeError(detail) => String::from_str("cannot merge ").concat(
                detail.as_str(),
            ).concat(", inconsistent aggregator types"),
            MetricsError::IO(detail) => String::from_str("io error: ").concat(detail.as_str()),
            MetricsError::NoDataCollected => String::from_str("no data collected by this aggregator"),
            MetricsError::MetricKindMismatch(detail) => String::from_str(
                "A metric was already registered by this name with another kind or number type: ",
            ).concat(detail.as_str()),
        }
    }

    /// The text that `message` returns.
    pub open spec fn message_text(&self) -> Seq<char> {
        match *self {
            MetricsError::Other(detail) => "metrics error: "@ + detail@,
            MetricsError::InvalidQuantile => "the requested quantile is out of range"@,
            MetricsError::NaNInput => "NaN value is an invalid input"@,
            MetricsError::NegativeInput => "negative value is out of range for this instrument"@,
            MetricsError::InconsistentMergeError(detail) => "cannot merge "@ + detail@
                + ", inconsistent aggregator types"@,
            MetricsError::IO(detail) => "io error: "@ + detail@,
            MetricsError::NoDataCollected => "no data collected by this aggregator"@,
            MetricsError::MetricKindMismatch(detail) =>
                "A metric was already registered by this name with another kind or number type: "@
                + detail@,
        }
    }
}

} // verus!
