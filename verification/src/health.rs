//! Discrete network-health classification and delay-trend direction.

use vstd::prelude::*;

verus! {

/// Six-tier severity classification of a smoothed transport delay,
/// from best to worst. The order is used to pick the worst tier
/// across all viewers.
#[derive(Clone, Copy, PartialEq, Eq, Structural, Debug)]
pub enum NetworkHealth {
    Excellent,
    Good,
    Fair,
    Poor,
    Bad,
    Critical,
}

/// Short-term direction of the transport delay, comparing a recent
/// average against the immediately preceding average.
#[derive(Clone, Copy, PartialEq, Eq, Structural, Debug)]
pub enum DelayTrend {
    Decreasing,
    Stable,
    Increasing,
}

impl NetworkHealth {
    /// Numeric severity of a tier: `Excellent` is 0, `Critical` is 5.
    pub open spec fn severity(self) -> u32 {
        match self {
            NetworkHealth::Excellent => 0,
            NetworkHealth::Good => 1,
            NetworkHealth::Fair => 2,
            NetworkHealth::Poor => 3,
            NetworkHealth::Bad => 4,
            NetworkHealth::Critical => 5,
        }
    }

    /// Tier of a smoothed delay, by the fixed millisecond bands
    /// [0,50), [50,100), [100,150), [150,300), [300,600), [600,inf).
    pub open spec fn spec_from_delay(delay_ms: u32) -> NetworkHealth {
        if delay_ms < 50 {
            NetworkHealth::Excellent
        } else if delay_ms < 100 {
            NetworkHealth::Good
        } else if delay_ms < 150 {
            NetworkHealth::Fair
        } else if delay_ms < 300 {
            NetworkHealth::Poor
        } else if delay_ms < 600 {
            NetworkHealth::Bad
        } else {
            NetworkHealth::Critical
        }
    }

    /// Classifies a smoothed delay into its health tier.
    pub fn from_delay(delay_ms: u32) -> (r: NetworkHealth)
        ensures
            r == Self::spec_from_delay(delay_ms),
    {
        if delay_ms < 50 {
            NetworkHealth::Excellent
        } else if delay_ms < 100 {
            NetworkHealth::Good
        } else if delay_ms < 150 {
            NetworkHealth::Fair
        } else if delay_ms < 300 {
            NetworkHealth::Poor
        } else if delay_ms < 600 {
            NetworkHealth::Bad
        } else {
            NetworkHealth::Critical
        }
    }

    /// Numeric severity, for comparing tiers at run time.
    pub fn severity_level(&self) -> (r: u32)
        ensures
            r == self.severity(),
    {
        match self {
            NetworkHealth::Excellent => 0,
            NetworkHealth::Good => 1,
            NetworkHealth::Fair => 2,
            NetworkHealth::Poor => 3,
            NetworkHealth::Bad => 4,
            NetworkHealth::Critical => 5,
        }
    }
}

} // verus!
