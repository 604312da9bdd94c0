//! Battery capability: decides what the Webots robot battery sensor's readings
//! come to.
//!
//! The battery is the one capability Webots hangs off the robot rather than off
//! a device: its sensor reports the present energy level in Joules, and minus
//! one when the world's `Robot` node left its `battery` field empty. There is
//! exactly one per robot, so exactly one declared battery capability may bind
//! it.
//!
//! Joules alone do not make a battery state. The pack's nominal voltage and
//! capacity come from the component manifest and turn that energy into the
//! reported charge ratio and current. Voltage is reported as the declared
//! nominal: Webots models pack energy, not terminal voltage, and a discharge
//! curve invented here would describe no simulated hardware. The host does the
//! divisions.

use super::{window, Reading, SampledSpec, SensorStep, Window};
use crate::binary64::Binary64;
use crate::sample_schedule::{ScheduleFault, ScheduleFaultView, ScheduleState};
use vstd::prelude::*;

verus! {

/// The pattern of one.
pub const ONE_BITS: u64 = 0x3ff0_0000_0000_0000;

/// One battery capability the robot declares.
#[derive(Clone, Debug)]
pub struct BatterySpec {
    pub sampled: SampledSpec,
    pub voltage_v: Binary64,
    pub capacity_ah: Binary64,
}

/// What the pack is, as the contract carries it.
#[derive(Clone, Copy, Debug, PartialEq, Eq, Structural)]
pub struct State {
    pub voltage_v: Binary64,
    pub current_a: Binary64,
    pub charge_ratio: Binary64,
}

/// What one reading of the battery sensor comes to.
#[derive(Clone, Copy, Debug, PartialEq, Eq, Structural)]
pub enum BatteryReading {
    /// The world models no battery: nothing is published. `unreported` the
    /// first time, when an operator is told.
    Absent { unreported: bool },
    /// The pack holds energy; its current is differentiated over the window,
    /// when there is one.
    Present { window: Option<Window> },
}

/// A reading of a world that models no battery.
pub open spec fn absent(energy_j: Binary64) -> bool {
    !energy_j.finite() || energy_j.below_zero()
}

/// A charge ratio bounded to between empty and full.
pub open spec fn bounded_ratio(ratio: Binary64) -> Binary64 {
    if ratio.below_zero() {
        Binary64 { bits: 0 }
    } else if ratio.greater_than(Binary64 { bits: ONE_BITS }) {
        Binary64 { bits: ONE_BITS }
    } else {
        ratio
    }
}

impl BatterySpec {
    /// The pack state a reading at `time_ns` describes, given the previous
    /// reading.
    ///
    /// `energy_ratio` is the host's quotient of the pack's energy by a full
    /// pack's, and `window_current_a` the current it got from the energy lost
    /// over the window at nominal voltage; positive is discharge. A reading
    /// without a window reports no current.
    pub fn state(
        &self,
        energy_ratio: Binary64,
        previous: Option<Reading>,
        time_ns: u64,
        window_current_a: Binary64,
    ) -> (state: State)
        ensures
            state.voltage_v == self.voltage_v,
            state.charge_ratio == bounded_ratio(energy_ratio),
            state.current_a == if super::window_since(previous, time_ns) is Some {
                window_current_a
            } else {
                (Binary64 { bits: 0 })
            },
    {
        let full = Binary64::from_bits(ONE_BITS);
        let charge_ratio = if energy_ratio.is_negative() {
            Binary64::from_bits(0)
        } else if energy_ratio.exceeds(full) {
            full
        } else {
            energy_ratio
        };
        let current_a = match window(previous, time_ns) {
            Some(_) => window_current_a,
            None => Binary64::from_bits(0),
        };
        State { voltage_v: self.voltage_v, current_a, charge_ratio }
    }
}

/// A bound battery: the last energy reading that was published, and whether an
/// operator has been told that the world models no battery.
#[derive(Clone, Debug)]
pub struct NativeBattery {
    pub spec: BatterySpec,
    pub last: Option<Reading>,
    pub reported_absent: bool,
}

impl NativeBattery {
    pub fn new(spec: BatterySpec) -> (battery: NativeBattery)
        ensures
            battery.spec == spec,
            battery.last is None,
            !battery.reported_absent,
    {
        NativeBattery { spec, last: None, reported_absent: false }
    }

    /// Re-anchor the schedule on a new world history, and forget the reading
    /// that was taken on the previous one.
    pub fn reset(&mut self, logical_time_ns: u64) -> (result: Result<(), ScheduleFault>)
        ensures
            match result {
                Ok(()) => logical_time_ns + old(self).spec.sampled.schedule@.period <= u64::MAX
                    && final(self).spec.sampled.schedule@ == ScheduleState::anchored(
                    old(self).spec.sampled.schedule@.period,
                    logical_time_ns as nat + old(self).spec.sampled.schedule@.period,
                ) && final(self).last is None,
                Err(fault) => logical_time_ns + old(self).spec.sampled.schedule@.period > u64::MAX
                    && fault@ == ScheduleFaultView::RangeExhausted
                    && final(self).spec.sampled.schedule@ == old(self).spec.sampled.schedule@
                    && final(self).last == old(self).last,
            },
            final(self).spec.sampled.reference == old(self).spec.sampled.reference,
            final(self).spec.sampled.sampling_period_ms
                == old(self).spec.sampled.sampling_period_ms,
            final(self).spec.voltage_v == old(self).spec.voltage_v,
            final(self).spec.capacity_ah == old(self).spec.capacity_ah,
            final(self).reported_absent == old(self).reported_absent,
    {
        match self.spec.sampled.reset(logical_time_ns) {
            Ok(()) => {
                self.last = None;
                Ok(())
            },
            Err(fault) => Err(fault),
        }
    }

    /// What an energy reading taken at `step` comes to.
    ///
    /// A world whose `Robot` node has no `battery` field models no battery.
    /// Saying so once beats either a silent gap or a log line per step.
    pub fn read(&mut self, energy_j: Binary64, step: SensorStep) -> (reading: BatteryReading)
        ensures
            reading == if absent(energy_j) {
                BatteryReading::Absent { unreported: !old(self).reported_absent }
            } else {
                BatteryReading::Present { window: super::window_since(old(self).last, step.time_ns) }
            },
            final(self).reported_absent == (old(self).reported_absent || absent(energy_j)),
            final(self).spec == old(self).spec,
            final(self).last == old(self).last,
    {
        if !energy_j.is_finite() || energy_j.is_negative() {
            let unreported: bool = !self.reported_absent;
            self.reported_absent = true;
            return BatteryReading::Absent { unreported };
        }
        BatteryReading::Present { window: window(self.last, step.time_ns) }
    }

    /// Settle a reading: one that was published is what the next one is
    /// differentiated against, and one that was refused starts no window.
    pub fn settle(&mut self, energy_j: Binary64, step: SensorStep, accepted: bool)
        ensures
            final(self).last == super::settled(
                old(self).last,
                (Reading { value: energy_j, time_ns: step.time_ns }),
                accepted,
            ),
            final(self).spec == old(self).spec,
            final(self).reported_absent == old(self).reported_absent,
    {
        if accepted {
            self.last = Some(Reading { value: energy_j, time_ns: step.time_ns });
        }
    }
}

/// Whether an operator has been told, after the first `count` of `readings`.
pub open spec fn reported_after(readings: Seq<Binary64>, count: nat) -> bool
    decreases count,
{
    count > 0 && (reported_after(readings, (count - 1) as nat) || absent(readings[count - 1]))
}

/// An absent battery is reported once: of the readings in turn, the first
/// absent one is reported and no later one is.
pub proof fn law_absence_is_reported_once(readings: Seq<Binary64>, earlier: nat, later: nat)
    requires
        earlier < later < readings.len(),
        absent(readings[earlier as int]),
        absent(readings[later as int]),
    ensures
        reported_after(readings, later),
        (forall|i: int| 0 <= i < earlier ==> !absent(#[trigger] readings[i])) ==> !reported_after(
            readings,
            earlier,
        ),
{
    lemma_reported_stays(readings, earlier + 1, later);
    if forall|i: int| 0 <= i < earlier ==> !absent(#[trigger] readings[i]) {
        lemma_unreported(readings, earlier);
    }
}

proof fn lemma_reported_stays(readings: Seq<Binary64>, from: nat, to: nat)
    requires
        from <= to,
        reported_after(readings, from),
    ensures
        reported_after(readings, to),
    decreases to,
{
    if from < to {
        lemma_reported_stays(readings, from, (to - 1) as nat);
    }
}

proof fn lemma_unreported(readings: Seq<Binary64>, count: nat)
    requires
        forall|i: int| 0 <= i < count ==> !absent(#[trigger] readings[i]),
    ensures
        !reported_after(readings, count),
    decreases count,
{
    if count > 0 {
        lemma_unreported(readings, (count - 1) as nat);
    }
}

/// Neither an overfull nor an overdrawn pack makes a battery more than full or
/// less than empty: a ratio that is a number is reported between zero and one.
pub proof fn law_a_charge_ratio_lies_between_empty_and_full(ratio: Binary64)
    requires
        !ratio.nan(),
    ensures
        !bounded_ratio(ratio).below_zero(),
        !bounded_ratio(ratio).greater_than(Binary64 { bits: ONE_BITS }),
        !ratio.below_zero() && !ratio.greater_than(Binary64 { bits: ONE_BITS }) ==> bounded_ratio(
            ratio,
        ) == ratio,
{
    let one = Binary64 { bits: ONE_BITS };
    let zero = Binary64 { bits: 0 };
    assert(zero.magnitude() == 0) by {
        assert(zero.significand() == 0);
        assert(0 * vstd::arithmetic::power2::pow2(zero.scale()) == 0);
    }
    assert(one.units() >= 0);
}

/// A ratio above full is reported as one, a ratio below empty as zero, and any
/// other as it is.
pub proof fn law_a_charge_ratio_is_held_to_its_bounds(ratio: Binary64)
    ensures
        ratio.greater_than(Binary64 { bits: 0x3ff0_0000_0000_0000 }) ==> bounded_ratio(ratio) == (
        Binary64 { bits: 0x3ff0_0000_0000_0000 }),
        ratio.below_zero() ==> bounded_ratio(ratio) == (Binary64 { bits: 0 }),
        !ratio.below_zero() && !ratio.greater_than(Binary64 { bits: 0x3ff0_0000_0000_0000 })
            ==> bounded_ratio(ratio) == ratio,
{
    crate::binary64::law_order_is_read_off_the_patterns(
        ratio,
        Binary64 { bits: 0x3ff0_0000_0000_0000 },
    );
    crate::binary64::law_classes_are_read_off_the_pattern(ratio);
}

/// A world models a battery exactly where its energy is a number from zero up,
/// the negative zero among them, and not infinite.
pub proof fn law_a_battery_holds_a_finite_energy(energy_j: Binary64)
    ensures
        !absent(energy_j) <==> energy_j.bits < 0x7ff0_0000_0000_0000 || energy_j.bits
            == 0x8000_0000_0000_0000,
{
    crate::binary64::law_classes_are_read_off_the_pattern(energy_j);
}

} // verus!
