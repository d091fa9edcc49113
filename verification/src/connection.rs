//! What the connection tells the congestion controller.

use vstd::prelude::*;

use crate::time::Duration;

verus! {

/// The connection's view of the round-trip time, as far as congestion control
/// looks at it.
#[derive(Debug, Clone, Copy, PartialEq, Eq, Structural)]
pub struct RttEstimator {
    /// The smallest round-trip time seen.
    pub min: Duration,
}

impl RttEstimator {
    /// The smallest round-trip time seen.
    pub fn min(&self) -> (min: Duration)
        ensures
            min == self.min,
    {
        self.min
    }
}

} // verus!
