//! Encoder capability: what the Webots `PositionSensor` device's readings come
//! to.
//!
//! Webots reports the joint's own angle. The contract carries the actuator's,
//! so both position and the velocity differentiated from it are scaled by the
//! declared gear ratio. The host multiplies and divides.

use super::{window, Reading, SampledSpec, SensorStep, Window};
use crate::binary64::Binary64;
use crate::sample_schedule::{ScheduleFault, ScheduleFaultView, ScheduleState};
use vstd::prelude::*;

verus! {

/// One encoder capability the robot declares.
#[derive(Clone, Debug)]
pub struct EncoderSpec {
    pub sampled: SampledSpec,
    pub gear_ratio: Binary64,
}

/// One encoder sample as the contract carries it.
#[derive(Clone, Copy, Debug, PartialEq, Eq, Structural)]
pub struct Sample {
    pub position_rad: Binary64,
    pub velocity_radps: Binary64,
}

/// A bound encoder and its previous published reading.
#[derive(Clone, Debug)]
pub struct NativeEncoder {
    pub spec: EncoderSpec,
    pub last: Option<Reading>,
}

/// The velocity a reading reports: what the host got for the window, or zero
/// when no time has passed since the previous reading.
pub fn velocity_radps(quotient: Binary64, time_ns: u64, previous_time_ns: u64) -> (velocity:
    Binary64)
    ensures
        velocity == if time_ns > previous_time_ns {
            quotient
        } else {
            (Binary64 { bits: 0 })
        },
{
    let dt_ns: u64 = time_ns.saturating_sub(previous_time_ns);
    if dt_ns == 0 {
        Binary64::from_bits(0)
    } else {
        quotient
    }
}

impl NativeEncoder {
    pub fn new(spec: EncoderSpec) -> (encoder: NativeEncoder)
        ensures
            encoder.spec == spec,
            encoder.last is None,
    {
        NativeEncoder { spec, last: None }
    }

    /// Re-anchor the schedule on a new world history, and forget the reading
    /// that was taken on the previous one.
    pub fn reset(&mut self, logical_time_ns: u64) -> (result: Result<(), ScheduleFault>)
        ensures
            match result {
                Ok(()) => logical_time_ns + old(self).spec.sampled.schedule@.period <= u64::MAX
                    && final(self).spec.sampled.schedule@ == ScheduleState::anchored(
                    old(self).spec.sampled.schedule@.period,
                    logical_time_ns as nat + old(self).spec.sampled.schedule@.period,
                ) && final(self).last is None,
                Err(fault) => logical_time_ns + old(self).spec.sampled.schedule@.period > u64::MAX
                    && fault@ == ScheduleFaultView::RangeExhausted
                    && final(self).spec.sampled.schedule@ == old(self).spec.sampled.schedule@
                    && final(self).last == old(self).last,
            },
            final(self).spec.sampled.reference == old(self).spec.sampled.reference,
            final(self).spec.sampled.sampling_period_ms
                == old(self).spec.sampled.sampling_period_ms,
            final(self).spec.gear_ratio == old(self).spec.gear_ratio,
    {
        match self.spec.sampled.reset(logical_time_ns) {
            Ok(()) => {
                self.last = None;
                Ok(())
            },
            Err(fault) => Err(fault),
        }
    }

    /// The window the host differentiates the position over, when there is one.
    pub fn window(&self, step: SensorStep) -> (span: Option<Window>)
        ensures
            span == super::window_since(self.last, step.time_ns),
    {
        window(self.last, step.time_ns)
    }

    /// The sample an actuator position read at `step` becomes.
    ///
    /// Webots exposes no joint velocity, so it is differentiated across the
    /// window between two published readings; `quotient` is what the host got
    /// for it. The first reading has no window to differentiate over and
    /// reports zero.
    pub fn read(&self, position_rad: Binary64, quotient: Binary64, step: SensorStep) -> (sample:
        Sample)
        ensures
            sample.position_rad == position_rad,
            sample.velocity_radps == if super::window_since(self.last, step.time_ns) is Some {
                quotient
            } else {
                (Binary64 { bits: 0 })
            },
    {
        let velocity = match self.last {
            Some(last) => velocity_radps(quotient, step.time_ns, last.time_ns),
            None => Binary64::from_bits(0),
        };
        Sample { position_rad, velocity_radps: velocity }
    }

    /// Settle a reading: one that was published is what the next one is
    /// differentiated against, and one that was refused starts no window.
    pub fn settle(&mut self, position_rad: Binary64, step: SensorStep, accepted: bool)
        ensures
            final(self).last == super::settled(
                old(self).last,
                (Reading { value: position_rad, time_ns: step.time_ns }),
                accepted,
            ),
            final(self).spec == old(self).spec,
    {
        if accepted {
            self.last = Some(Reading { value: position_rad, time_ns: step.time_ns });
        }
    }
}

} // verus!
