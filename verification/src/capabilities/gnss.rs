//! GNSS capability: what the Webots `Gps` device's readings come to, each of
//! which is already a latitude/longitude/altitude triple.
//!
//! Webots models no fix quality, so the covariance is reported as all zeros:
//! the contract has no way to say "unknown", and any non-zero figure invented
//! here would describe an uncertainty nobody measured.

use crate::binary64::Binary64;
use vstd::prelude::*;

verus! {

/// One position as the contract carries it.
#[derive(Clone, Copy, Debug, PartialEq, Eq)]
pub struct Sample {
    pub latitude: Binary64,
    pub longitude: Binary64,
    pub altitude: Binary64,
    pub covariance: [Binary64; 9],
}

/// The sample a position becomes.
pub fn read(position: [Binary64; 3]) -> (sample: Sample)
    ensures
        sample.latitude == position@[0],
        sample.longitude == position@[1],
        sample.altitude == position@[2],
        forall|i: int| 0 <= i < 9 ==> #[trigger] sample.covariance@[i] == (Binary64 { bits: 0 }),
{
    Sample {
        latitude: position[0],
        longitude: position[1],
        altitude: position[2],
        covariance: [Binary64::from_bits(0); 9],
    }
}

} // verus!
