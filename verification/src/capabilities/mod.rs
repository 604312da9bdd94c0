//! One module per component-capability family with rules of its own, and the
//! rules every sampled family shares.
//!
//! A device is read only on the steps its publish cadence is due on, and a step
//! that produced no observation says so rather than repeating the last one.

pub mod battery;
pub mod camera;
pub mod depth;
pub mod encoder;
pub mod gnss;
pub mod imu;
pub mod lidar;
pub mod microphone;
pub mod motor;
pub mod range;

use crate::binary64::Binary64;
use crate::sample_schedule::{
    RateReading, SampleSchedule, ScheduleFault, ScheduleFaultView, ScheduleState,
};
use vstd::arithmetic::div_mod::*;
use vstd::arithmetic::mul::*;
use vstd::prelude::*;
use vstd::string::*;

verus! {

/// How many nanoseconds a millisecond has.
pub const NS_PER_MS: u64 = 1_000_000;

/// One capability of one mounted component.
#[derive(Debug, PartialEq, Eq)]
pub struct CapabilityRef {
    pub component_id: String,
    pub capability_id: String,
}

impl View for CapabilityRef {
    type V = (Seq<char>, Seq<char>);

    open spec fn view(&self) -> (Seq<char>, Seq<char>) {
        (self.component_id@, self.capability_id@)
    }
}

impl Clone for CapabilityRef {
    fn clone(&self) -> (copy: Self)
        ensures
            copy@ == self@,
    {
        CapabilityRef {
            component_id: self.component_id.clone(),
            capability_id: self.capability_id.clone(),
        }
    }
}

impl CapabilityRef {
    pub fn new(component_id: &str, capability_id: &str) -> (reference: CapabilityRef)
        ensures
            reference@ == (component_id@, capability_id@),
    {
        CapabilityRef {
            component_id: component_id.to_owned(),
            capability_id: capability_id.to_owned(),
        }
    }

    /// The dotted form: the component, a dot, the capability.
    pub open spec fn spec_text(self) -> Seq<char> {
        self.component_id@ + "."@ + self.capability_id@
    }

    /// The dotted form a device is named by: the component, a dot, the
    /// capability.
    pub fn text(&self) -> (text: String)
        ensures
            text@ == self.spec_text(),
    {
        let mut text = self.component_id.clone();
        text.append(".");
        text.append(self.capability_id.as_str());
        text
    }
}

/// The world instant one completed step advanced to.
///
/// Every sensor uses the logical time for its deadline schedule. The encoder
/// and the battery also use the instant to differentiate their reading over
/// the elapsed window to report a rate.
#[derive(Clone, Copy, Debug, PartialEq, Eq, Structural)]
pub struct SensorStep {
    pub time_ns: u64,
}

/// A reading and the instant it was taken at.
#[derive(Clone, Copy, Debug, PartialEq, Eq, Structural)]
pub struct Reading {
    pub value: Binary64,
    pub time_ns: u64,
}

/// The span between two readings, to differentiate over.
#[derive(Clone, Copy, Debug, PartialEq, Eq, Structural)]
pub struct Window {
    pub previous: Binary64,
    pub elapsed_ns: u64,
}

/// The window from the previous reading to `time_ns`, when time has passed.
pub open spec fn window_since(previous: Option<Reading>, time_ns: u64) -> Option<Window> {
    match previous {
        Some(reading) => if time_ns > reading.time_ns {
            Some(
                Window {
                    previous: reading.value,
                    elapsed_ns: (time_ns - reading.time_ns) as u64,
                },
            )
        } else {
            None
        },
        None => None,
    }
}

/// The reading the next one is differentiated against, once `reading` has been
/// published or refused: only a published reading starts a window.
pub open spec fn settled(last: Option<Reading>, reading: Reading, accepted: bool) -> Option<
    Reading,
> {
    if accepted {
        Some(reading)
    } else {
        last
    }
}

/// The reading the next one is differentiated against, once `readings` have
/// been settled in turn, each with whether it was published, from the start of
/// a world history.
pub open spec fn last_settled(readings: Seq<(Reading, bool)>) -> Option<Reading>
    decreases readings.len(),
{
    if readings.len() == 0 {
        None
    } else {
        settled(last_settled(readings.drop_last()), readings.last().0, readings.last().1)
    }
}

/// A window runs between two published readings: it starts at the last one that
/// was published, whatever was refused since.
pub proof fn law_windows_run_between_published_readings(
    readings: Seq<(Reading, bool)>,
    at: int,
    time_ns: u64,
)
    requires
        0 <= at < readings.len(),
        readings[at].1,
        forall|i: int| at < i < readings.len() ==> !(#[trigger] readings[i]).1,
    ensures
        last_settled(readings) == Some(readings[at].0),
        window_since(last_settled(readings), time_ns) == if time_ns > readings[at].0.time_ns {
            Some(
                Window {
                    previous: readings[at].0.value,
                    elapsed_ns: (time_ns - readings[at].0.time_ns) as u64,
                },
            )
        } else {
            None
        },
    decreases readings.len(),
{
    if at + 1 < readings.len() {
        law_windows_run_between_published_readings(readings.drop_last(), at, time_ns);
    }
}

/// Where nothing was published yet there is no window, whatever was refused.
pub proof fn law_refused_readings_start_no_window(readings: Seq<(Reading, bool)>, time_ns: u64)
    requires
        forall|i: int| 0 <= i < readings.len() ==> !(#[trigger] readings[i]).1,
    ensures
        last_settled(readings) is None,
        window_since(last_settled(readings), time_ns) is None,
    decreases readings.len(),
{
    if readings.len() > 0 {
        law_refused_readings_start_no_window(readings.drop_last(), time_ns);
    }
}

/// What a sensor says of itself. A simulated device does not wear or fail.
#[derive(Clone, Copy, Debug, PartialEq, Eq, Structural)]
pub enum SensorHealth {
    Nominal,
}

/// The window from the previous reading to `time_ns`, when time has passed.
pub fn window(previous: Option<Reading>, time_ns: u64) -> (window: Option<Window>)
    ensures
        window == window_since(previous, time_ns),
{
    match previous {
        Some(reading) => {
            let elapsed_ns: u64 = time_ns.saturating_sub(reading.time_ns);
            if elapsed_ns == 0 {
                None
            } else {
                Some(Window { previous: reading.value, elapsed_ns })
            }
        },
        None => None,
    }
}

/// How a world models one capability. The sampled families carry the rate the
/// world samples them at.
#[derive(Clone, Debug)]
pub enum SimulatedCapability {
    Motor,
    Encoder(RateReading),
    Accelerometer(RateReading),
    Gyroscope(RateReading),
    Magnetometer(RateReading),
    Imu(RateReading),
    Gnss(RateReading),
    Camera(RateReading),
    Depth(RateReading),
    Range(RateReading),
    Lidar(RateReading),
    Mmwave(RateReading),
    Microphone(RateReading),
    EmergencyStop,
    Speaker,
    Battery,
    Led,
}

/// Why a sampled capability could not be resolved.
#[derive(Clone, Debug, PartialEq, Eq)]
pub enum SamplingFault {
    /// A world without a positive step has no grid to sample on.
    BasicTimeStepNotPositive,
    /// A rate that is not a positive finite number describes no cadence.
    RateNotPositive,
    /// The requested period exceeds what Webots counts in milliseconds.
    PeriodTooLong,
    /// A negative period is no period.
    PeriodNotPositive,
    /// The period on the world's grid exceeds what Webots counts in
    /// milliseconds.
    GridPeriodTooLong,
    /// The publish schedule could not be built.
    Schedule(ScheduleFault),
}

/// What a [`SamplingFault`] says.
pub ghost enum SamplingFaultView {
    BasicTimeStepNotPositive,
    RateNotPositive,
    PeriodTooLong,
    PeriodNotPositive,
    GridPeriodTooLong,
    Schedule(ScheduleFaultView),
}

impl View for SamplingFault {
    type V = SamplingFaultView;

    open spec fn view(&self) -> SamplingFaultView {
        match *self {
            SamplingFault::BasicTimeStepNotPositive => SamplingFaultView::BasicTimeStepNotPositive,
            SamplingFault::RateNotPositive => SamplingFaultView::RateNotPositive,
            SamplingFault::PeriodTooLong => SamplingFaultView::PeriodTooLong,
            SamplingFault::PeriodNotPositive => SamplingFaultView::PeriodNotPositive,
            SamplingFault::GridPeriodTooLong => SamplingFaultView::GridPeriodTooLong,
            SamplingFault::Schedule(fault) => SamplingFaultView::Schedule(fault@),
        }
    }
}

impl SamplingFaultView {
    /// The diagnostic an operator reads.
    pub open spec fn text(self) -> Seq<char> {
        match self {
            SamplingFaultView::BasicTimeStepNotPositive => "Webots basicTimeStep must be > 0"@,
            SamplingFaultView::RateNotPositive => "sampling_period_hz must be finite and > 0"@,
            SamplingFaultView::PeriodTooLong =>
                "sampling period does not fit in Webots milliseconds"@,
            SamplingFaultView::PeriodNotPositive => "Webots sampling period must be positive"@,
            SamplingFaultView::GridPeriodTooLong =>
                "Webots sampling period does not fit in milliseconds"@,
            SamplingFaultView::Schedule(fault) => fault.text(),
        }
    }
}

impl SamplingFault {
    /// The diagnostic an operator reads.
    pub fn message(&self) -> (message: String)
        ensures
            message@ == self@.text(),
    {
        match self {
            SamplingFault::BasicTimeStepNotPositive =>
                "Webots basicTimeStep must be > 0".to_owned(),
            SamplingFault::RateNotPositive =>
                "sampling_period_hz must be finite and > 0".to_owned(),
            SamplingFault::PeriodTooLong =>
                "sampling period does not fit in Webots milliseconds".to_owned(),
            SamplingFault::PeriodNotPositive =>
                "Webots sampling period must be positive".to_owned(),
            SamplingFault::GridPeriodTooLong =>
                "Webots sampling period does not fit in milliseconds".to_owned(),
            SamplingFault::Schedule(fault) => fault.message(),
        }
    }
}

/// A capability the world samples at a configured rate and the controller
/// publishes at the slower of the requested cadence and the effective device
/// refresh cadence.
#[derive(Debug, PartialEq, Eq)]
pub struct SampledSpec {
    pub reference: CapabilityRef,
    pub schedule: SampleSchedule,
    /// The refresh period the Webots device is enabled with, in milliseconds.
    /// A world may model a device that samples faster than the component
    /// publishes, so this is resolved separately from the publish cadence.
    pub sampling_period_ms: i32,
}

impl Clone for SampledSpec {
    fn clone(&self) -> (copy: Self)
        ensures
            copy.reference@ == self.reference@,
            copy.schedule@ == self.schedule@,
            copy.sampling_period_ms == self.sampling_period_ms,
    {
        SampledSpec {
            reference: self.reference.clone(),
            schedule: self.schedule.clone(),
            sampling_period_ms: self.sampling_period_ms,
        }
    }
}

/// The rate the world samples a capability at, when it models one.
pub open spec fn modelled_rate(simulated: Option<&SimulatedCapability>) -> Option<RateReading> {
    match simulated {
        None => None,
        Some(capability) => match *capability {
            SimulatedCapability::Encoder(rate) => Some(rate),
            SimulatedCapability::Accelerometer(rate) => Some(rate),
            SimulatedCapability::Gyroscope(rate) => Some(rate),
            SimulatedCapability::Magnetometer(rate) => Some(rate),
            SimulatedCapability::Imu(rate) => Some(rate),
            SimulatedCapability::Gnss(rate) => Some(rate),
            SimulatedCapability::Camera(rate) => Some(rate),
            SimulatedCapability::Depth(rate) => Some(rate),
            SimulatedCapability::Range(rate) => Some(rate),
            SimulatedCapability::Lidar(rate) => Some(rate),
            SimulatedCapability::Mmwave(rate) => Some(rate),
            SimulatedCapability::Microphone(rate) => Some(rate),
            SimulatedCapability::Motor => None,
            SimulatedCapability::EmergencyStop => None,
            SimulatedCapability::Speaker => None,
            SimulatedCapability::Battery => None,
            SimulatedCapability::Led => None,
        },
    }
}

/// The whole-millisecond period a rate asks for: the nearest one to the host's
/// quotient, and never less than one.
pub open spec fn requested_period(rate: RateReading) -> Result<i32, SamplingFaultView> {
    let quotient = rate.period_ms;
    if !rate.hz.finite() || !rate.hz.above_zero() {
        Err(SamplingFaultView::RateNotPositive)
    } else if quotient.nan() || quotient.below_zero() || quotient.rounded_magnitude() == 0 {
        Ok(1)
    } else if quotient.rounded_magnitude() > i32::MAX {
        Err(SamplingFaultView::PeriodTooLong)
    } else {
        Ok(quotient.rounded_magnitude() as i32)
    }
}

/// The least multiple of `basic` that is no less than `requested`.
pub open spec fn grid_period(requested: nat, basic: nat) -> nat {
    if requested % basic == 0 {
        requested
    } else {
        (requested - requested % basic + basic) as nat
    }
}

/// The requested period on the world's grid.
pub open spec fn quantized_period(requested_ms: i32, basic_time_step_ms: i32) -> Result<
    i32,
    SamplingFaultView,
> {
    if basic_time_step_ms <= 0 {
        Err(SamplingFaultView::BasicTimeStepNotPositive)
    } else if requested_ms < 0 {
        Err(SamplingFaultView::PeriodNotPositive)
    } else {
        let quantized = grid_period(requested_ms as nat, basic_time_step_ms as nat);
        if quantized > i32::MAX {
            Err(SamplingFaultView::GridPeriodTooLong)
        } else {
            Ok(quantized as i32)
        }
    }
}

/// What resolving a sampled capability comes to: the refresh period its device
/// is enabled with, and its publish schedule.
pub open spec fn resolved(
    name: Seq<char>,
    basic_time_step_ms: i32,
    publish: RateReading,
    simulated: Option<&SimulatedCapability>,
) -> Result<(i32, ScheduleState), SamplingFaultView> {
    let sampling = match modelled_rate(simulated) {
        Some(rate) => rate,
        None => publish,
    };
    if basic_time_step_ms <= 0 {
        Err(SamplingFaultView::BasicTimeStepNotPositive)
    } else {
        match requested_period(sampling) {
            Err(fault) => Err(fault),
            Ok(requested) => match quantized_period(requested, basic_time_step_ms) {
                Err(fault) => Err(fault),
                Ok(period_ms) => match SampleSchedule::from_source(
                    name,
                    (period_ms * NS_PER_MS) as u64,
                    publish,
                ) {
                    Err(fault) => Err(SamplingFaultView::Schedule(fault)),
                    Ok(schedule) => Ok(
                        (period_ms, ScheduleState::anchored(schedule.period, schedule.period)),
                    ),
                },
            },
        }
    }
}

impl SampledSpec {
    /// Resolve one sampled capability's publish cadence and device refresh
    /// period.
    ///
    /// `simulated` is the world's entry for the same capability, when the
    /// component type authored one. It decides how fast the device samples;
    /// with no entry the device samples at the rate the component publishes.
    /// The first publish deadline is one period into the world, when the device
    /// has refreshed.
    ///
    /// # Errors
    ///
    /// Returns an error when the declared publish or sampling rate is not a
    /// positive finite number, which describes no cadence at all.
    pub fn new(
        reference: CapabilityRef,
        basic_time_step_ms: i32,
        publish_rate: &RateReading,
        simulated: Option<&SimulatedCapability>,
    ) -> (result: Result<SampledSpec, SamplingFault>)
        ensures
            match result {
                Ok(spec) => resolved(
                    reference.spec_text(),
                    basic_time_step_ms,
                    *publish_rate,
                    simulated,
                ) == Ok::<_, SamplingFaultView>((spec.sampling_period_ms, spec.schedule@))
                    && spec.reference@ == reference@,
                Err(fault) => resolved(
                    reference.spec_text(),
                    basic_time_step_ms,
                    *publish_rate,
                    simulated,
                ) == Err::<(i32, ScheduleState), _>(fault@),
            },
    {
        if basic_time_step_ms <= 0 {
            return Err(SamplingFault::BasicTimeStepNotPositive);
        }
        let modelled = match simulated {
            Some(capability) => Self::simulated_sampling_hz(capability),
            None => None,
        };
        let sampling = match modelled {
            Some(rate) => rate,
            None => publish_rate,
        };
        let requested_sampling_period_ms: i32 = match Self::sampling_period_ms(sampling) {
            Ok(period) => period,
            Err(fault) => return Err(fault),
        };
        let sampling_period_ms: i32 = match Self::quantized_sampling_period_ms(
            requested_sampling_period_ms,
            basic_time_step_ms,
        ) {
            Ok(period) => period,
            Err(fault) => return Err(fault),
        };
        proof {
            lemma_grid_period(requested_sampling_period_ms as nat, basic_time_step_ms as nat);
        }
        let effective_sampling_period_ns: u64 = (sampling_period_ms as u64) * NS_PER_MS;
        let name = reference.text();
        let mut schedule = match SampleSchedule::from_source_period_ns(
            name.as_str(),
            effective_sampling_period_ns,
            publish_rate,
        ) {
            Ok(schedule) => schedule,
            Err(fault) => return Err(SamplingFault::Schedule(fault)),
        };
        let period_ns: u64 = schedule.period_ns();
        if let Err(fault) = schedule.reanchor_after(0, period_ns) {
            return Err(SamplingFault::Schedule(fault));
        }
        Ok(SampledSpec { reference, schedule, sampling_period_ms })
    }

    /// The rate the world samples this capability at, when it models one.
    ///
    /// The actuator and event families carry no rate: nothing about a motor,
    /// speaker, battery, LED or emergency stop is sampled on a schedule the
    /// world sets.
    pub fn simulated_sampling_hz(capability: &SimulatedCapability) -> (rate: Option<&RateReading>)
        ensures
            match rate {
                Some(rate) => modelled_rate(Some(capability)) == Some(*rate),
                None => modelled_rate(Some(capability)) is None,
            },
    {
        match capability {
            SimulatedCapability::Encoder(rate) => Some(rate),
            SimulatedCapability::Accelerometer(rate) => Some(rate),
            SimulatedCapability::Gyroscope(rate) => Some(rate),
            SimulatedCapability::Magnetometer(rate) => Some(rate),
            SimulatedCapability::Imu(rate) => Some(rate),
            SimulatedCapability::Gnss(rate) => Some(rate),
            SimulatedCapability::Camera(rate) => Some(rate),
            SimulatedCapability::Depth(rate) => Some(rate),
            SimulatedCapability::Range(rate) => Some(rate),
            SimulatedCapability::Lidar(rate) => Some(rate),
            SimulatedCapability::Mmwave(rate) => Some(rate),
            SimulatedCapability::Microphone(rate) => Some(rate),
            SimulatedCapability::Motor => None,
            SimulatedCapability::EmergencyStop => None,
            SimulatedCapability::Speaker => None,
            SimulatedCapability::Battery => None,
            SimulatedCapability::Led => None,
        }
    }

    /// The refresh period a sampling rate asks Webots for: a positive
    /// whole-millisecond period, rounded up to the world's `basicTimeStep` grid
    /// before the device is enabled.
    pub fn sampling_period_ms(rate: &RateReading) -> (period: Result<i32, SamplingFault>)
        ensures
            match period {
                Ok(period) => requested_period(*rate) == Ok::<_, SamplingFaultView>(period),
                Err(fault) => requested_period(*rate) == Err::<i32, _>(fault@),
            },
    {
        if !rate.hz.is_finite() || !rate.hz.is_positive() {
            return Err(SamplingFault::RateNotPositive);
        }
        if rate.period_ms.is_nan() || rate.period_ms.is_negative() {
            return Ok(1);
        }
        match rate.period_ms.round_magnitude() {
            Some(whole) => {
                if whole == 0 {
                    Ok(1)
                } else if whole > i32::MAX as u64 {
                    Err(SamplingFault::PeriodTooLong)
                } else {
                    Ok(whole as i32)
                }
            },
            None => Err(SamplingFault::PeriodTooLong),
        }
    }

    /// Webots updates a device on the world's integer-step grid. Rounding a
    /// requested period upward to that grid is conservative: the schedule can
    /// never publish a repeated value before the device has had a chance to
    /// refresh it.
    pub fn quantized_sampling_period_ms(requested_ms: i32, basic_time_step_ms: i32) -> (period:
        Result<i32, SamplingFault>)
        ensures
            match period {
                Ok(period) => quantized_period(requested_ms, basic_time_step_ms) == Ok::<
                    _,
                    SamplingFaultView,
                >(period),
                Err(fault) => quantized_period(requested_ms, basic_time_step_ms) == Err::<i32, _>(
                    fault@,
                ),
            },
    {
        if basic_time_step_ms <= 0 {
            return Err(SamplingFault::BasicTimeStepNotPositive);
        }
        if requested_ms < 0 {
            return Err(SamplingFault::PeriodNotPositive);
        }
        let requested: u64 = requested_ms as u64;
        let basic: u64 = basic_time_step_ms as u64;
        let steps: u64 = (requested + (basic - 1)) / basic;
        proof {
            lemma_rounding_up(requested as nat, basic as nat);
        }
        let quantized: u64 = steps * basic;
        if quantized > i32::MAX as u64 {
            return Err(SamplingFault::GridPeriodTooLong);
        }
        Ok(quantized as i32)
    }

    /// Re-anchor this device after Webots starts a new logical world history:
    /// its next deadline is one publish period into it.
    pub fn reset(&mut self, logical_time_ns: u64) -> (result: Result<(), ScheduleFault>)
        ensures
            match result {
                Ok(()) => logical_time_ns + old(self).schedule@.period <= u64::MAX
                    && final(self).schedule@ == ScheduleState::anchored(
                    old(self).schedule@.period,
                    logical_time_ns as nat + old(self).schedule@.period,
                ),
                Err(fault) => logical_time_ns + old(self).schedule@.period > u64::MAX && fault@
                    == ScheduleFaultView::RangeExhausted && final(self).schedule@
                    == old(self).schedule@,
            },
            final(self).reference == old(self).reference,
            final(self).sampling_period_ms == old(self).sampling_period_ms,
    {
        let delay_ns: u64 = self.schedule.period_ns();
        self.schedule.reanchor_after(logical_time_ns, delay_ns)
    }

    /// Whether the device is read for `step`: it is when `step` is a publish
    /// deadline.
    pub fn read_if_due(&mut self, step: SensorStep) -> (result: Result<bool, ScheduleFault>)
        ensures
            match result {
                Ok(due) => old(self).schedule@.due_at(step.time_ns as nat) == Ok::<
                    bool,
                    ScheduleFaultView,
                >(due),
                Err(fault) => old(self).schedule@.due_at(step.time_ns as nat) == Err::<
                    bool,
                    ScheduleFaultView,
                >(fault@),
            },
            final(self).schedule@ == old(self).schedule@.queried_at(step.time_ns as nat),
            final(self).reference == old(self).reference,
            final(self).sampling_period_ms == old(self).sampling_period_ms,
    {
        self.schedule.is_due_at(step.time_ns)
    }
}

proof fn lemma_grid_period(requested: nat, basic: nat)
    requires
        basic > 0,
    ensures
        grid_period(requested, basic) >= requested,
        requested > 0 ==> grid_period(requested, basic) > 0,
        grid_period(requested, basic) < requested + basic,
        grid_period(requested, basic) % basic == 0,
{
    lemma_mod_bound(requested as int, basic as int);
    lemma_fundamental_div_mod(requested as int, basic as int);
    let whole = requested as int / basic as int;
    let part = requested as int % basic as int;
    lemma_mul_is_commutative(basic as int, whole);
    if part != 0 {
        lemma_mul_is_distributive_add_other_way(basic as int, whole, 1);
        lemma_mod_multiples_basic(whole + 1, basic as int);
    }
}

proof fn lemma_rounding_up(requested: nat, basic: nat)
    requires
        basic > 0,
    ensures
        (requested + (basic - 1)) / basic as int * basic == grid_period(requested, basic),
{
    let b = basic as int;
    let r = requested as int;
    lemma_mod_bound(r, b);
    lemma_fundamental_div_mod(r, b);
    let whole = r / b;
    let part = r % b;
    lemma_mul_is_commutative(b, whole);
    if part == 0 {
        lemma_fundamental_div_mod_converse(r + (b - 1), b, whole, b - 1);
    } else {
        lemma_mul_is_distributive_add_other_way(b, whole, 1);
        lemma_mul_is_commutative(b, whole + 1);
        lemma_fundamental_div_mod_converse(r + (b - 1), b, whole + 1, part - 1);
    }
}

/// Rounding up to the world's grid is conservative and no coarser than it must
/// be: the period Webots is given is the least multiple of its step that is no
/// shorter than the requested period.
pub proof fn law_the_grid_period_is_the_least_that_serves(
    requested_ms: i32,
    basic_time_step_ms: i32,
    other: int,
)
    requires
        quantized_period(requested_ms, basic_time_step_ms) is Ok,
    ensures
        ({
            let quantized = quantized_period(requested_ms, basic_time_step_ms)->Ok_0;
            &&& quantized >= requested_ms
            &&& quantized % basic_time_step_ms == 0
            &&& other >= requested_ms && other % (basic_time_step_ms as int) == 0 ==> other
                >= quantized
        }),
{
    let requested = requested_ms as nat;
    let basic = basic_time_step_ms as nat;
    lemma_grid_period(requested, basic);
    let quantized = grid_period(requested, basic) as int;
    if other >= requested && other % (basic as int) == 0 && other < quantized {
        let b = basic as int;
        lemma_fundamental_div_mod(other, b);
        lemma_fundamental_div_mod(quantized, b);
        let fewer = other / b;
        let enough = quantized / b;
        assert(b * fewer < b * enough);
        lemma_mul_is_commutative(b, fewer);
        lemma_mul_is_commutative(b, enough);
        lemma_mul_strict_inequality_converse(fewer, enough, b);
        assert(b * (fewer + 1) <= b * enough) by {
            lemma_mul_inequality(fewer + 1, enough, b);
            lemma_mul_is_commutative(b, fewer + 1);
        }
        lemma_mul_is_distributive_add(b, fewer, 1);
    }
}

/// A resolved capability's device refreshes on the world's grid, its publish
/// cadence is never faster than that refresh, and nothing is due before the
/// device has refreshed once.
pub proof fn law_no_value_is_published_before_its_refresh(
    name: Seq<char>,
    basic_time_step_ms: i32,
    publish: RateReading,
    simulated: Option<&SimulatedCapability>,
    time: nat,
)
    requires
        resolved(name, basic_time_step_ms, publish, simulated) is Ok,
    ensures
        ({
            let (period_ms, schedule) = resolved(
                name,
                basic_time_step_ms,
                publish,
                simulated,
            )->Ok_0;
            &&& period_ms > 0
            &&& period_ms % basic_time_step_ms == 0
            &&& schedule.valid()
            &&& schedule.period >= period_ms * NS_PER_MS
            &&& schedule.next_deadline == schedule.period
            &&& time < schedule.period ==> schedule.due_at(time) == Ok::<bool, ScheduleFaultView>(
                false,
            )
        }),
{
    let sampling = match modelled_rate(simulated) {
        Some(rate) => rate,
        None => publish,
    };
    let requested = requested_period(sampling)->Ok_0;
    lemma_grid_period(requested as nat, basic_time_step_ms as nat);
    let (period_ms, schedule) = resolved(name, basic_time_step_ms, publish, simulated)->Ok_0;
    assert((schedule.next_deadline - schedule.anchor) % (schedule.period as int) == 0) by {
        lemma_small_mod(0, schedule.period);
    }
}

/// A device re-anchored on a new world history is not read before it has had a
/// whole publish period to refresh in, and is read once it has, as long as the
/// deadline after that can be told.
pub proof fn law_a_rewound_device_waits_for_a_refresh(period: nat, rewound_to: nat, time: nat)
    requires
        period > 0,
    ensures
        ({
            let schedule = ScheduleState::anchored(period, rewound_to + period);
            &&& time < rewound_to + period ==> schedule.due_at(time) == Ok::<
                bool,
                ScheduleFaultView,
            >(false)
            &&& rewound_to + 2 * period <= u64::MAX ==> schedule.due_at(rewound_to + period)
                == Ok::<bool, ScheduleFaultView>(true)
        }),
{
    if rewound_to + 2 * period <= u64::MAX {
        crate::sample_schedule::lemma_first_deadline(period, rewound_to + period);
    }
}

proof fn lemma_refresh(rate: RateReading, basic_time_step_ms: i32)
    requires
        basic_time_step_ms > 0,
    ensures
        ({
            let one = crate::binary64::one_unit();
            let quotient = rate.period_ms;
            let counts = !quotient.nan() && !quotient.below_zero();
            let valid = rate.hz.finite() && rate.hz.above_zero();
            &&& valid && (counts ==> 2 * quotient.magnitude() < (2 * (i32::MAX - basic_time_step_ms)
                + 1) * one) ==> requested_period(rate) is Ok && quantized_period(
                requested_period(rate)->Ok_0,
                basic_time_step_ms,
            ) is Ok
            &&& requested_period(rate) matches Ok(requested) ==> quantized_period(
                requested,
                basic_time_step_ms,
            ) matches Ok(period_ms) ==> {
                &&& period_ms > 0
                &&& period_ms % basic_time_step_ms == 0
                &&& !counts ==> period_ms == basic_time_step_ms
                &&& counts ==> 2 * quotient.magnitude() < (2 * period_ms + 1) * one
                &&& period_ms > basic_time_step_ms ==> (2 * (period_ms - basic_time_step_ms) + 1)
                    * one <= 2 * quotient.magnitude()
            }
        }),
{
    let one = crate::binary64::one_unit() as int;
    vstd::arithmetic::power2::lemma_pow2_pos(crate::binary64::ONE_SCALE as nat);
    let quotient = rate.period_ms;
    let m = quotient.magnitude() as int;
    let r = quotient.rounded_magnitude() as int;
    let b = basic_time_step_ms as int;
    crate::binary64::law_rounding_is_nearest(quotient);
    if rate.hz.finite() && rate.hz.above_zero() && !quotient.nan() && !quotient.below_zero() {
        if r > i32::MAX - b {
            let limit = i32::MAX - b;
            assert((2 * limit + 1) * one <= 2 * m) by (nonlinear_arith)
                requires
                    r >= limit + 1,
                    (2 * r) * one <= 2 * m + one,
                    one > 0,
            ;
        }
    }
    lemma_grid_period(1, basic_time_step_ms as nat);
    if let Ok(requested) = requested_period(rate) {
        let n = requested as int;
        lemma_grid_period(requested as nat, basic_time_step_ms as nat);
        if let Ok(period_ms) = quantized_period(requested, basic_time_step_ms) {
            let p = period_ms as int;
            assert(p >= n && p < n + b);
            if n == 1 {
                if b > 1 {
                    lemma_small_mod(1, b as nat);
                }
                assert(p == b);
            }
            if !quotient.nan() && !quotient.below_zero() {
                assert((2 * r + 1) * one <= (2 * p + 1) * one) by (nonlinear_arith)
                    requires
                        r <= p,
                        one > 0,
                ;
                if p > b {
                    assert((2 * (p - b) + 1) * one <= 2 * m) by (nonlinear_arith)
                        requires
                            r >= p - b + 1,
                            (2 * r) * one <= 2 * m + one,
                            one > 0,
                    ;
                }
            }
        }
    }
}

/// How fast a device samples is the world's to say: a capability of any sampled
/// family that the world models at `rate` refreshes at the least multiple of
/// the world's step that is no shorter than the whole millisecond nearest to
/// that rate, whatever the publish rate. It publishes, from one period on, at
/// the slower of that refresh and the period nearest to the publish rate.
pub proof fn law_a_modelled_rate_decides_the_refresh(
    name: Seq<char>,
    basic_time_step_ms: i32,
    publish: RateReading,
    simulated: SimulatedCapability,
    rate: RateReading,
)
    requires
        basic_time_step_ms > 0,
        simulated == SimulatedCapability::Encoder(rate) || simulated
            == SimulatedCapability::Accelerometer(rate) || simulated
            == SimulatedCapability::Gyroscope(rate) || simulated
            == SimulatedCapability::Magnetometer(rate) || simulated == SimulatedCapability::Imu(
            rate,
        ) || simulated == SimulatedCapability::Gnss(rate) || simulated
            == SimulatedCapability::Camera(rate) || simulated == SimulatedCapability::Depth(rate)
            || simulated == SimulatedCapability::Range(rate) || simulated
            == SimulatedCapability::Lidar(rate) || simulated == SimulatedCapability::Mmwave(rate)
            || simulated == SimulatedCapability::Microphone(rate),
    ensures
        ({
            let one = crate::binary64::one_unit();
            let quotient = rate.period_ms;
            let counts = !quotient.nan() && !quotient.below_zero();
            let valid = rate.hz.finite() && rate.hz.above_zero();
            let result = resolved(name, basic_time_step_ms, publish, Some(&simulated));
            &&& !valid ==> result == Err::<(i32, ScheduleState), _>(
                SamplingFaultView::RateNotPositive,
            )
            &&& valid && (counts ==> 2 * quotient.magnitude() < (2 * (i32::MAX - basic_time_step_ms)
                + 1) * one) && crate::sample_schedule::rate_period(
                name,
                crate::sample_schedule::RateName::PublishRateHz,
                publish,
            ) is Ok ==> result is Ok
            &&& result matches Ok((period_ms, schedule)) ==> {
                &&& period_ms > 0
                &&& period_ms % basic_time_step_ms == 0
                &&& !counts ==> period_ms == basic_time_step_ms
                &&& counts ==> 2 * quotient.magnitude() < (2 * period_ms + 1) * one
                &&& period_ms > basic_time_step_ms ==> (2 * (period_ms - basic_time_step_ms) + 1)
                    * one <= 2 * quotient.magnitude()
                &&& schedule.anchor == schedule.period
                &&& schedule.next_deadline == schedule.period
                &&& !schedule.exhausted
                &&& schedule.period >= period_ms * 1_000_000
                &&& 2 * publish.period_ns.magnitude() < (2 * schedule.period + 1) * one
                &&& schedule.period == period_ms * 1_000_000 || (2 * schedule.period) * one <= 2
                    * publish.period_ns.magnitude() + one
            }
        }),
{
    lemma_refresh(rate, basic_time_step_ms);
    if let Ok(requested) = requested_period(rate) {
        if let Ok(period_ms) = quantized_period(requested, basic_time_step_ms) {
            crate::sample_schedule::law_a_device_schedule_is_the_slower_cadence(
                name,
                (period_ms * NS_PER_MS) as u64,
                publish,
            );
        }
    }
}

/// Where the world gives no rate, be it that it has no entry for the capability
/// or that the entry is of a family that is not sampled, the publish rate
/// stands in for it.
pub proof fn law_without_a_modelled_rate_the_publish_rate_stands_in(
    name: Seq<char>,
    basic_time_step_ms: i32,
    publish: RateReading,
    simulated: Option<&SimulatedCapability>,
)
    requires
        basic_time_step_ms > 0,
        simulated matches Some(capability) ==> capability is Motor || capability is EmergencyStop
            || capability is Speaker || capability is Battery || capability is Led,
    ensures
        ({
            let one = crate::binary64::one_unit();
            let quotient = publish.period_ms;
            let counts = !quotient.nan() && !quotient.below_zero();
            let valid = publish.hz.finite() && publish.hz.above_zero();
            let result = resolved(name, basic_time_step_ms, publish, simulated);
            &&& !valid ==> result == Err::<(i32, ScheduleState), _>(
                SamplingFaultView::RateNotPositive,
            )
            &&& valid && (counts ==> 2 * quotient.magnitude() < (2 * (i32::MAX - basic_time_step_ms)
                + 1) * one) && crate::sample_schedule::rate_period(
                name,
                crate::sample_schedule::RateName::PublishRateHz,
                publish,
            ) is Ok ==> result is Ok
            &&& result matches Ok((period_ms, schedule)) ==> {
                &&& period_ms > 0
                &&& period_ms % basic_time_step_ms == 0
                &&& !counts ==> period_ms == basic_time_step_ms
                &&& counts ==> 2 * quotient.magnitude() < (2 * period_ms + 1) * one
                &&& period_ms > basic_time_step_ms ==> (2 * (period_ms - basic_time_step_ms) + 1)
                    * one <= 2 * quotient.magnitude()
                &&& schedule.anchor == schedule.period
                &&& schedule.next_deadline == schedule.period
                &&& !schedule.exhausted
                &&& schedule.period >= period_ms * 1_000_000
                &&& 2 * publish.period_ns.magnitude() < (2 * schedule.period + 1) * one
                &&& schedule.period == period_ms * 1_000_000 || (2 * schedule.period) * one <= 2
                    * publish.period_ns.magnitude() + one
            }
        }),
{
    lemma_refresh(publish, basic_time_step_ms);
    if let Ok(requested) = requested_period(publish) {
        if let Ok(period_ms) = quantized_period(requested, basic_time_step_ms) {
            crate::sample_schedule::law_a_device_schedule_is_the_slower_cadence(
                name,
                (period_ms * NS_PER_MS) as u64,
                publish,
            );
        }
    }
}

/// A world without a positive step has no grid to sample on, whatever else is
/// declared.
pub proof fn law_a_world_without_a_step_resolves_nothing(
    name: Seq<char>,
    basic_time_step_ms: i32,
    publish: RateReading,
    simulated: Option<&SimulatedCapability>,
)
    requires
        basic_time_step_ms <= 0,
    ensures
        resolved(name, basic_time_step_ms, publish, simulated) == Err::<(i32, ScheduleState), _>(
            SamplingFaultView::BasicTimeStepNotPositive,
        ),
{
}

/// A capability is named by its component, one dot, and itself, and by nothing
/// else.
pub proof fn law_a_reference_names_its_component_and_capability(reference: CapabilityRef)
    ensures
        ({
            let text = reference.spec_text();
            let component = reference.component_id@;
            let capability = reference.capability_id@;
            &&& text.len() == component.len() + 1 + capability.len()
            &&& text.take(component.len() as int) == component
            &&& text[component.len() as int] == '.'
            &&& text.skip(component.len() as int + 1) == capability
        }),
{
    reveal_strlit(".");
    let text = reference.spec_text();
    let component = reference.component_id@;
    assert(text.take(component.len() as int) =~= component);
    assert(text.skip(component.len() as int + 1) =~= reference.capability_id@);
}

/// A sampling rate that is a positive finite number asks for the whole number of
/// milliseconds nearest to the host's quotient, and never for less than one;
/// only a period that Webots cannot count is refused.
pub proof fn law_a_sampling_rate_asks_for_the_nearest_millisecond(rate: RateReading)
    ensures
        ({
            let one = crate::binary64::one_unit();
            let double = 2 * rate.period_ms.magnitude();
            let counts = !rate.period_ms.nan() && !rate.period_ms.below_zero();
            let valid = rate.hz.finite() && rate.hz.above_zero();
            let period = requested_period(rate);
            &&& !valid ==> period == Err::<i32, _>(SamplingFaultView::RateNotPositive)
            &&& valid && counts && double >= 0xffff_ffff * one ==> period == Err::<i32, _>(
                SamplingFaultView::PeriodTooLong,
            )
            &&& valid && (counts ==> double < 0xffff_ffff * one) ==> period is Ok
            &&& period matches Ok(period_ms) ==> {
                &&& period_ms >= 1
                &&& !counts ==> period_ms == 1
                &&& counts ==> double < (2 * period_ms + 1) * one
                &&& period_ms > 1 ==> (2 * period_ms) * one <= double + one
            }
        }),
{
    let one = crate::binary64::one_unit() as int;
    vstd::arithmetic::power2::lemma_pow2_pos(crate::binary64::ONE_SCALE as nat);
    let m = rate.period_ms.magnitude() as int;
    let r = rate.period_ms.rounded_magnitude() as int;
    crate::binary64::law_rounding_is_nearest(rate.period_ms);
    assert(r <= 0x7fff_ffff <==> 2 * m < 0xffff_ffff * one) by (nonlinear_arith)
        requires
            2 * m < (2 * r + 1) * one,
            (2 * r) * one <= 2 * m + one,
            one > 0,
    ;
    if r == 0 {
        assert((2 * r + 1) * one == one) by (nonlinear_arith)
            requires
                r == 0,
        ;
        assert((2 * 1 + 1) * one == 3 * one) by (nonlinear_arith);
    }
}

/// A period is brought onto the world's grid unless there is no grid, it is
/// negative, or the grid has no period for it that Webots can count.
pub proof fn law_a_period_is_refused_only_off_the_grid(requested_ms: i32, basic_time_step_ms: i32)
    ensures
        ({
            let quantized = quantized_period(requested_ms, basic_time_step_ms);
            &&& basic_time_step_ms <= 0 ==> quantized == Err::<i32, _>(
                SamplingFaultView::BasicTimeStepNotPositive,
            )
            &&& basic_time_step_ms > 0 && requested_ms < 0 ==> quantized == Err::<i32, _>(
                SamplingFaultView::PeriodNotPositive,
            )
            &&& basic_time_step_ms > 0 && requested_ms >= 0 && quantized is Err ==> {
                &&& quantized == Err::<i32, _>(SamplingFaultView::GridPeriodTooLong)
                &&& requested_ms + basic_time_step_ms > i32::MAX + 1
                &&& requested_ms % basic_time_step_ms != 0
            }
        }),
{
    if basic_time_step_ms > 0 && requested_ms >= 0 {
        lemma_grid_period(requested_ms as nat, basic_time_step_ms as nat);
    }
}

} // verus!
