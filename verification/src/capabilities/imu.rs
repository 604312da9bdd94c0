//! IMU capability: which world nodes one declared IMU binds.
//!
//! Webots has no single inertial device, so one declared IMU binds three world
//! nodes. The two extra nodes are named by suffixing the capability, which is
//! the naming a simulated component must use for its IMU to bind at all.

use super::CapabilityRef;
use vstd::prelude::*;
use vstd::string::*;

verus! {

/// The names of the three devices one IMU reads.
#[derive(Clone, Debug, PartialEq, Eq)]
pub struct ImuDevices {
    pub inertial_unit: String,
    pub accelerometer: String,
    pub gyro: String,
}

impl ImuDevices {
    /// The devices of the IMU declared as `reference`.
    pub fn new(reference: &CapabilityRef) -> (devices: ImuDevices)
        ensures
            devices.inertial_unit@ == reference.spec_text(),
            devices.accelerometer@ == reference.spec_text() + "__accel"@,
            devices.gyro@ == reference.spec_text() + "__gyro"@,
    {
        let inertial_unit = reference.text();
        let mut accelerometer = inertial_unit.clone();
        accelerometer.append("__accel");
        let mut gyro = inertial_unit.clone();
        gyro.append("__gyro");
        ImuDevices { inertial_unit, accelerometer, gyro }
    }
}

} // verus!
