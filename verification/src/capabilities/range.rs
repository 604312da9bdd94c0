//! Range capability: a Webots `DistanceSensor` bounded by the range limits the
//! component declares.

use super::{SampledSpec, SensorHealth};
use crate::binary64::Binary64;
use vstd::prelude::*;

verus! {

/// One range capability the robot declares.
#[derive(Clone, Debug)]
pub struct RangeSpec {
    pub sampled: SampledSpec,
    pub min_range_m: Binary64,
    pub max_range_m: Binary64,
}

/// One distance as the contract carries it.
#[derive(Clone, Copy, Debug, PartialEq, Eq, Structural)]
pub struct Sample {
    pub distance_m: Binary64,
    pub min_m: Binary64,
    pub max_m: Binary64,
    pub valid: bool,
    pub confidence: Option<Binary64>,
    pub health: SensorHealth,
}

impl RangeSpec {
    /// The sample a measured distance becomes. Webots tells no confidence, so
    /// none is reported.
    pub fn read(&self, distance_m: Binary64) -> (sample: Sample)
        ensures
            sample == (Sample {
                distance_m,
                min_m: self.min_range_m,
                max_m: self.max_range_m,
                valid: true,
                confidence: None,
                health: SensorHealth::Nominal,
            }),
    {
        Sample {
            distance_m,
            min_m: self.min_range_m,
            max_m: self.max_range_m,
            valid: true,
            confidence: None,
            health: SensorHealth::Nominal,
        }
    }
}

} // verus!
