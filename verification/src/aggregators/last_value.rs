//! The measurement made last.
use crate::context::Context;
use crate::descriptor::Descriptor;
use crate::error::MetricsError;
use crate::number::Number;
use vstd::prelude::*;

verus! {

/// A measurement and the time at which it was made.
#[derive(Clone, Copy, Debug, PartialEq, Eq, Structural)]
pub struct LastValueData {
    /// The measurement.
    pub value: Number,
    /// When it was made, in nanoseconds since the Unix epoch.
    pub timestamp: u64,
}

/// A fresh aggregator: no measurement, no checkpoint.
pub fn last_value() -> (r: LastValueAggregator)
    ensures
        r == (LastValueAggregator { current: None, checkpoint: None }),
{
    LastValueAggregator { current: None, checkpoint: None }
}

/// Keeps the measurement made last, with its time.
#[derive(Clone, Copy, Debug, PartialEq, Eq, Structural)]
pub struct LastValueAggregator {
    /// The last measurement of the period that is running.
    pub current: Option<LastValueData>,
    /// The last measurement of the period last closed.
    pub checkpoint: Option<LastValueData>,
}

impl LastValueAggregator {
    /// The aggregator after a measurement made at `timestamp`.
    pub open spec fn updated(self, timestamp: u64, number: u64) -> LastValueAggregator {
        LastValueAggregator {
            current: Some(LastValueData { value: Number { bits: number }, timestamp }),
            ..self
        }
    }

    /// The aggregator after a checkpoint.
    pub open spec fn checkpointed(self) -> LastValueAggregator {
        LastValueAggregator { current: None, checkpoint: self.current }
    }

    /// The aggregator after the checkpoint of `other` was merged into it:
    /// the later of the two checkpoints stays, this one where both are of
    /// the same time, and the one there is where the other is missing.
    pub open spec fn merged(self, other: LastValueAggregator) -> LastValueAggregator {
        LastValueAggregator {
            checkpoint: match (self.checkpoint, other.checkpoint) {
                (Some(ours), Some(theirs)) => if theirs.timestamp > ours.timestamp {
                    Some(theirs)
                } else {
                    Some(ours)
                },
                (None, Some(theirs)) => Some(theirs),
                (ours, None) => ours,
            },
            ..self
        }
    }

    /// Takes a measurement, in place of any made before in this period.
    pub fn update_with_context(&mut self, cx: &Context, number: &Number, descriptor: &Descriptor) -> (r:
        Result<(), MetricsError>)
        ensures
            r.is_ok(),
            *final(self) == old(self).updated(cx.timestamp, number@),
    {
        self.current = Some(LastValueData { value: *number, timestamp: cx.timestamp });
        Ok(())
    }

    /// Closes the running period: its last measurement becomes the
    /// checkpoint, and a period without measurement starts.
    pub fn checkpoint(&mut self, descriptor: &Descriptor)
        ensures
            *final(self) == old(self).checkpointed(),
    {
        self.checkpoint = self.current;
        self.current = None;
    }

    /// Merges the checkpoint of `other` into the checkpoint of this
    /// aggregator.
    pub fn merge(&mut self, other: &LastValueAggregator, descriptor: &Descriptor) -> (r: Result<
        (),
        MetricsError,
    >)
        ensures
            r.is_ok(),
            *final(self) == old(self).merged(*other),
    {
        match (self.checkpoint, other.checkpoint) {
            (Some(ours), Some(theirs)) => {
                if theirs.timestamp > ours.timestamp {
                    self.checkpoint = Some(theirs);
                }
            },
            (None, Some(theirs)) => {
                self.checkpoint = Some(theirs);
            },
            (_, None) => {},
        }
        Ok(())
    }

    /// The last measurement of the period last closed, and its time.
    pub fn last_value(&self) -> (r: Result<(Number, u64), MetricsError>)
        ensures
            match self.checkpoint {
                Some(data) => r == Ok::<(Number, u64), MetricsError>((data.value, data.timestamp)),
                None => r == Err::<(Number, u64), MetricsError>(MetricsError::NoDataCollected),
            },
    {
        match self.checkpoint {
            Some(data) => Ok((data.value, data.timestamp)),
            None => Err(MetricsError::NoDataCollected),
        }
    }

    /// Merging two checkpoints gives the same checkpoint in either order,
    /// unless both hold a measurement and the two are of the same time: then
    /// each keeps its own.
    pub proof fn merge_commutes(self, other: LastValueAggregator)
        requires
            self.checkpoint.is_some() && other.checkpoint.is_some()
                ==> self.checkpoint.unwrap().timestamp != other.checkpoint.unwrap().timestamp,
        ensures
            self.merged(other).checkpoint == other.merged(self).checkpoint,
    {
    }

    /// Of two checkpoints that both hold a measurement, the merge keeps the
    /// later one.
    pub proof fn merge_keeps_later(self, other: LastValueAggregator)
        requires
            self.checkpoint.is_some(),
            other.checkpoint.is_some(),
            self.checkpoint.unwrap().timestamp < other.checkpoint.unwrap().timestamp,
        ensures
            self.merged(other).checkpoint == other.checkpoint,
            other.merged(self).checkpoint == other.checkpoint,
    {
    }
}

} // verus!
