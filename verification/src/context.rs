//! What a caller hands along with a measurement.
use vstd::prelude::*;

verus! {

/// The circumstances of one call. The engine reads no clock: the caller says
/// what time it is.
#[derive(Clone, Copy, Debug, PartialEq, Eq, Structural)]
pub struct Context {
    /// The time of the call, in nanoseconds since the Unix epoch.
    pub timestamp: u64,
}

impl Context {
    /// The context of a call made at `timestamp`.
    pub fn at(timestamp: u64) -> (r: Context)
        ensures
            r.timestamp == timestamp,
    {
        Context { timestamp }
    }
}

} // verus!
