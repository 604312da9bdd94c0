//! The capabilities of one robot, resolved against the world that simulates it.
//!
//! Three of the capability kinds a component may declare are not simulated.
//! Webots has no button, switch or toggle node, so nothing in a simulated world
//! could engage or release an `emergency_stop`: it is skipped and left
//! unpublished. `led` and `speaker` are refused outright, because no participant
//! owns those effects in the graph, and applying them from any source would turn
//! arrival order into authority. Every other kind is simulated, but a robot has
//! one battery sensor, so it may declare one battery.

use crate::binary64::Binary64;
use crate::capabilities::battery::BatterySpec;
use crate::capabilities::camera::{CameraMode, CameraSpec};
use crate::capabilities::depth::DepthSpec;
use crate::capabilities::encoder::EncoderSpec;
use crate::capabilities::lidar::{LidarOutput, LidarSpec};
use crate::capabilities::motor::{MotorCommand, MotorSpec};
use crate::capabilities::range::RangeSpec;
use crate::capabilities::{
    CapabilityRef, SampledSpec, SamplingFault, SamplingFaultView, SimulatedCapability,
};
use crate::sample_schedule::RateReading;
use vstd::prelude::*;

verus! {

/// The device kind a capability describes.
#[derive(Clone, Copy, Debug, PartialEq, Eq, Structural)]
pub enum CapabilityKind {
    Motor,
    Encoder,
    Accelerometer,
    Gyroscope,
    Magnetometer,
    Imu,
    Gnss,
    Camera,
    Depth,
    EmergencyStop,
    Range,
    Lidar,
    Mmwave,
    Microphone,
    Speaker,
    Battery,
    Led,
}

impl CapabilityKind {
    /// The name of the kind, as it appears in authored documents.
    pub open spec fn spec_str(self) -> Seq<char> {
        match self {
            CapabilityKind::Motor => "motor"@,
            CapabilityKind::Encoder => "encoder"@,
            CapabilityKind::Accelerometer => "accelerometer"@,
            CapabilityKind::Gyroscope => "gyroscope"@,
            CapabilityKind::Magnetometer => "magnetometer"@,
            CapabilityKind::Imu => "imu"@,
            CapabilityKind::Gnss => "gnss"@,
            CapabilityKind::Camera => "camera"@,
            CapabilityKind::Depth => "depth"@,
            CapabilityKind::EmergencyStop => "emergency_stop"@,
            CapabilityKind::Range => "range"@,
            CapabilityKind::Lidar => "lidar"@,
            CapabilityKind::Mmwave => "mmwave"@,
            CapabilityKind::Microphone => "microphone"@,
            CapabilityKind::Speaker => "speaker"@,
            CapabilityKind::Battery => "battery"@,
            CapabilityKind::Led => "led"@,
        }
    }

    /// The name of the kind, as it appears in authored documents.
    pub fn as_str(self) -> (name: &'static str)
        ensures
            name@ == self.spec_str(),
    {
        match self {
            CapabilityKind::Motor => "motor",
            CapabilityKind::Encoder => "encoder",
            CapabilityKind::Accelerometer => "accelerometer",
            CapabilityKind::Gyroscope => "gyroscope",
            CapabilityKind::Magnetometer => "magnetometer",
            CapabilityKind::Imu => "imu",
            CapabilityKind::Gnss => "gnss",
            CapabilityKind::Camera => "camera",
            CapabilityKind::Depth => "depth",
            CapabilityKind::EmergencyStop => "emergency_stop",
            CapabilityKind::Range => "range",
            CapabilityKind::Lidar => "lidar",
            CapabilityKind::Mmwave => "mmwave",
            CapabilityKind::Microphone => "microphone",
            CapabilityKind::Speaker => "speaker",
            CapabilityKind::Battery => "battery",
            CapabilityKind::Led => "led",
        }
    }
}

/// What a component type says of one capability.
#[derive(Clone, Debug)]
pub enum Declaration {
    Motor { command: MotorCommand, gear_ratio: Binary64 },
    Encoder { publish_rate: RateReading, gear_ratio: Binary64 },
    Accelerometer { publish_rate: RateReading },
    Gyroscope { publish_rate: RateReading },
    Magnetometer { publish_rate: RateReading },
    Imu { publish_rate: RateReading },
    Gnss { publish_rate: RateReading },
    Camera { publish_rate: RateReading, mode: CameraMode, width: u32, height: u32 },
    Depth { publish_rate: RateReading, width: u32, height: u32 },
    EmergencyStop,
    Range { publish_rate: RateReading, min_range_m: Binary64, max_range_m: Binary64 },
    Lidar { publish_rate: RateReading, output: LidarOutput },
    Mmwave { publish_rate: RateReading },
    Microphone { publish_rate: RateReading },
    Speaker,
    Battery { publish_rate: RateReading, voltage_v: Binary64, capacity_ah: Binary64 },
    Led,
}

/// One capability of one mounted component: what its type declares of it, and
/// how the world models it, when the component type authored that.
#[derive(Debug)]
pub struct DeclaredCapability {
    pub reference: CapabilityRef,
    pub declaration: Declaration,
    pub simulated: Option<SimulatedCapability>,
}

impl Declaration {
    /// The rate the capability publishes at, when it publishes on a schedule.
    pub open spec fn publish_rate(self) -> Option<RateReading> {
        match self {
            Declaration::Encoder { publish_rate, .. } => Some(publish_rate),
            Declaration::Accelerometer { publish_rate } => Some(publish_rate),
            Declaration::Gyroscope { publish_rate } => Some(publish_rate),
            Declaration::Magnetometer { publish_rate } => Some(publish_rate),
            Declaration::Imu { publish_rate } => Some(publish_rate),
            Declaration::Gnss { publish_rate } => Some(publish_rate),
            Declaration::Camera { publish_rate, .. } => Some(publish_rate),
            Declaration::Depth { publish_rate, .. } => Some(publish_rate),
            Declaration::Range { publish_rate, .. } => Some(publish_rate),
            Declaration::Lidar { publish_rate, .. } => Some(publish_rate),
            Declaration::Mmwave { publish_rate } => Some(publish_rate),
            Declaration::Microphone { publish_rate } => Some(publish_rate),
            Declaration::Battery { publish_rate, .. } => Some(publish_rate),
            Declaration::Motor { .. } => None,
            Declaration::EmergencyStop => None,
            Declaration::Speaker => None,
            Declaration::Led => None,
        }
    }

    /// A kind whose effect no participant owns.
    pub open spec fn unowned(self) -> bool {
        self is Led || self is Speaker
    }
}

impl DeclaredCapability {
    /// What resolving this capability's cadence comes to.
    pub open spec fn cadence(self, publish_rate: RateReading, basic_time_step_ms: i32) -> Result<
        (i32, crate::sample_schedule::ScheduleState),
        SamplingFaultView,
    > {
        crate::capabilities::resolved(
            self.reference.spec_text(),
            basic_time_step_ms,
            publish_rate,
            match self.simulated {
                Some(simulated) => Some(&simulated),
                None => None,
            },
        )
    }

    /// `sampled` is this capability at its resolved cadence.
    pub open spec fn sampled_as(self, sampled: SampledSpec, basic_time_step_ms: i32) -> bool {
        &&& sampled.reference@ == self.reference@
        &&& self.declaration.publish_rate() matches Some(publish_rate)
        &&& self.cadence(publish_rate, basic_time_step_ms) == Ok::<_, SamplingFaultView>(
            (sampled.sampling_period_ms, sampled.schedule@),
        )
    }

    /// `spec` is this capability, ready to be bound.
    pub open spec fn resolved_as(self, spec: CapabilitySpec, basic_time_step_ms: i32) -> bool {
        match (spec, self.declaration) {
            (CapabilitySpec::Motor(motor), Declaration::Motor { command, gear_ratio }) =>
                motor.reference@ == self.reference@ && motor.actuator_type == command
                    && motor.gear_ratio == gear_ratio,
            (CapabilitySpec::Encoder(encoder), Declaration::Encoder { gear_ratio, .. }) =>
                self.sampled_as(encoder.sampled, basic_time_step_ms) && encoder.gear_ratio
                    == gear_ratio,
            (CapabilitySpec::Accelerometer(sampled), Declaration::Accelerometer { .. }) =>
                self.sampled_as(sampled, basic_time_step_ms),
            (CapabilitySpec::Gyroscope(sampled), Declaration::Gyroscope { .. }) =>
                self.sampled_as(sampled, basic_time_step_ms),
            (CapabilitySpec::Magnetometer(sampled), Declaration::Magnetometer { .. }) =>
                self.sampled_as(sampled, basic_time_step_ms),
            (CapabilitySpec::Imu(sampled), Declaration::Imu { .. }) => self.sampled_as(
                sampled,
                basic_time_step_ms,
            ),
            (CapabilitySpec::Gnss(sampled), Declaration::Gnss { .. }) => self.sampled_as(
                sampled,
                basic_time_step_ms,
            ),
            (CapabilitySpec::Camera(camera), Declaration::Camera { mode, width, height, .. }) =>
                self.sampled_as(camera.sampled, basic_time_step_ms) && camera.mode == mode
                    && camera.width == width && camera.height == height,
            (CapabilitySpec::Depth(depth), Declaration::Depth { width, height, .. }) =>
                self.sampled_as(depth.sampled, basic_time_step_ms) && depth.width == width
                    && depth.height == height,
            (
                CapabilitySpec::Range(range),
                Declaration::Range { min_range_m, max_range_m, .. },
            ) => self.sampled_as(range.sampled, basic_time_step_ms) && range.min_range_m
                == min_range_m && range.max_range_m == max_range_m,
            (CapabilitySpec::Lidar(lidar), Declaration::Lidar { output, .. }) => self.sampled_as(
                lidar.sampled,
                basic_time_step_ms,
            ) && lidar.output == output,
            (CapabilitySpec::Mmwave(sampled), Declaration::Mmwave { .. }) => self.sampled_as(
                sampled,
                basic_time_step_ms,
            ),
            (CapabilitySpec::Microphone(sampled), Declaration::Microphone { .. }) =>
                self.sampled_as(sampled, basic_time_step_ms),
            (
                CapabilitySpec::Battery(battery),
                Declaration::Battery { voltage_v, capacity_ah, .. },
            ) => self.sampled_as(battery.sampled, basic_time_step_ms) && battery.voltage_v
                == voltage_v && battery.capacity_ah == capacity_ah,
            _ => false,
        }
    }
}

/// One simulated capability, ready to be bound to its device and handle.
#[derive(Debug)]
pub enum CapabilitySpec {
    Motor(MotorSpec),
    Encoder(EncoderSpec),
    Imu(SampledSpec),
    Accelerometer(SampledSpec),
    Gyroscope(SampledSpec),
    Range(RangeSpec),
    Camera(CameraSpec),
    Depth(DepthSpec),
    Gnss(SampledSpec),
    Magnetometer(SampledSpec),
    Lidar(LidarSpec),
    Mmwave(SampledSpec),
    Microphone(SampledSpec),
    Battery(BatterySpec),
}

impl CapabilitySpec {
    /// The kind of this capability.
    pub open spec fn spec_kind(self) -> CapabilityKind {
        match self {
            CapabilitySpec::Motor(_) => CapabilityKind::Motor,
            CapabilitySpec::Encoder(_) => CapabilityKind::Encoder,
            CapabilitySpec::Imu(_) => CapabilityKind::Imu,
            CapabilitySpec::Accelerometer(_) => CapabilityKind::Accelerometer,
            CapabilitySpec::Gyroscope(_) => CapabilityKind::Gyroscope,
            CapabilitySpec::Range(_) => CapabilityKind::Range,
            CapabilitySpec::Camera(_) => CapabilityKind::Camera,
            CapabilitySpec::Depth(_) => CapabilityKind::Depth,
            CapabilitySpec::Gnss(_) => CapabilityKind::Gnss,
            CapabilitySpec::Magnetometer(_) => CapabilityKind::Magnetometer,
            CapabilitySpec::Lidar(_) => CapabilityKind::Lidar,
            CapabilitySpec::Mmwave(_) => CapabilityKind::Mmwave,
            CapabilitySpec::Microphone(_) => CapabilityKind::Microphone,
            CapabilitySpec::Battery(_) => CapabilityKind::Battery,
        }
    }

    /// The kind of this capability.
    pub fn kind(&self) -> (kind: CapabilityKind)
        ensures
            kind == self.spec_kind(),
    {
        match self {
            CapabilitySpec::Motor(_) => CapabilityKind::Motor,
            CapabilitySpec::Encoder(_) => CapabilityKind::Encoder,
            CapabilitySpec::Imu(_) => CapabilityKind::Imu,
            CapabilitySpec::Accelerometer(_) => CapabilityKind::Accelerometer,
            CapabilitySpec::Gyroscope(_) => CapabilityKind::Gyroscope,
            CapabilitySpec::Range(_) => CapabilityKind::Range,
            CapabilitySpec::Camera(_) => CapabilityKind::Camera,
            CapabilitySpec::Depth(_) => CapabilityKind::Depth,
            CapabilitySpec::Gnss(_) => CapabilityKind::Gnss,
            CapabilitySpec::Magnetometer(_) => CapabilityKind::Magnetometer,
            CapabilitySpec::Lidar(_) => CapabilityKind::Lidar,
            CapabilitySpec::Mmwave(_) => CapabilityKind::Mmwave,
            CapabilitySpec::Microphone(_) => CapabilityKind::Microphone,
            CapabilitySpec::Battery(_) => CapabilityKind::Battery,
        }
    }

    /// The cadence of this capability, when it has one.
    pub open spec fn spec_sampled(self) -> Option<SampledSpec> {
        match self {
            CapabilitySpec::Motor(_) => None,
            CapabilitySpec::Encoder(spec) => Some(spec.sampled),
            CapabilitySpec::Imu(spec) => Some(spec),
            CapabilitySpec::Accelerometer(spec) => Some(spec),
            CapabilitySpec::Gyroscope(spec) => Some(spec),
            CapabilitySpec::Range(spec) => Some(spec.sampled),
            CapabilitySpec::Camera(spec) => Some(spec.sampled),
            CapabilitySpec::Depth(spec) => Some(spec.sampled),
            CapabilitySpec::Gnss(spec) => Some(spec),
            CapabilitySpec::Magnetometer(spec) => Some(spec),
            CapabilitySpec::Lidar(spec) => Some(spec.sampled),
            CapabilitySpec::Mmwave(spec) => Some(spec),
            CapabilitySpec::Microphone(spec) => Some(spec),
            CapabilitySpec::Battery(spec) => Some(spec.sampled),
        }
    }

    /// The cadence of this capability, when it has one.
    pub fn sampled(&self) -> (sampled: Option<&SampledSpec>)
        ensures
            match sampled {
                Some(sampled) => self.spec_sampled() == Some(*sampled),
                None => self.spec_sampled() is None,
            },
    {
        match self {
            CapabilitySpec::Motor(_) => None,
            CapabilitySpec::Encoder(spec) => Some(&spec.sampled),
            CapabilitySpec::Imu(spec) => Some(spec),
            CapabilitySpec::Accelerometer(spec) => Some(spec),
            CapabilitySpec::Gyroscope(spec) => Some(spec),
            CapabilitySpec::Range(spec) => Some(&spec.sampled),
            CapabilitySpec::Camera(spec) => Some(&spec.sampled),
            CapabilitySpec::Depth(spec) => Some(&spec.sampled),
            CapabilitySpec::Gnss(spec) => Some(spec),
            CapabilitySpec::Magnetometer(spec) => Some(spec),
            CapabilitySpec::Lidar(spec) => Some(&spec.sampled),
            CapabilitySpec::Mmwave(spec) => Some(spec),
            CapabilitySpec::Microphone(spec) => Some(spec),
            CapabilitySpec::Battery(spec) => Some(&spec.sampled),
        }
    }

    /// The capability this was declared as.
    pub open spec fn spec_reference(self) -> CapabilityRef {
        match self.spec_sampled() {
            Some(sampled) => sampled.reference,
            None => self->Motor_0.reference,
        }
    }

    /// The capability this was declared as.
    pub fn reference(&self) -> (reference: &CapabilityRef)
        ensures
            *reference == self.spec_reference(),
    {
        match self {
            CapabilitySpec::Motor(spec) => &spec.reference,
            CapabilitySpec::Encoder(spec) => &spec.sampled.reference,
            CapabilitySpec::Imu(spec) => &spec.reference,
            CapabilitySpec::Accelerometer(spec) => &spec.reference,
            CapabilitySpec::Gyroscope(spec) => &spec.reference,
            CapabilitySpec::Range(spec) => &spec.sampled.reference,
            CapabilitySpec::Camera(spec) => &spec.sampled.reference,
            CapabilitySpec::Depth(spec) => &spec.sampled.reference,
            CapabilitySpec::Gnss(spec) => &spec.reference,
            CapabilitySpec::Magnetometer(spec) => &spec.reference,
            CapabilitySpec::Lidar(spec) => &spec.sampled.reference,
            CapabilitySpec::Mmwave(spec) => &spec.reference,
            CapabilitySpec::Microphone(spec) => &spec.reference,
            CapabilitySpec::Battery(spec) => &spec.sampled.reference,
        }
    }
}

/// Why a robot cannot be simulated. Each names the capability at fault by its
/// position in the robot's canonical order.
#[derive(Debug, PartialEq, Eq)]
pub enum CatalogFault {
    /// No participant owns the effect.
    Unowned { index: usize },
    /// The robot's one battery sensor is already bound.
    SecondBattery { index: usize },
    /// The declared cadence cannot be served.
    Sampling { index: usize, fault: SamplingFault },
}

/// What a [`CatalogFault`] says.
pub ghost enum CatalogFaultView {
    Unowned { index: nat },
    SecondBattery { index: nat },
    Sampling { index: nat, fault: SamplingFaultView },
}

impl View for CatalogFault {
    type V = CatalogFaultView;

    open spec fn view(&self) -> CatalogFaultView {
        match *self {
            CatalogFault::Unowned { index } => CatalogFaultView::Unowned { index: index as nat },
            CatalogFault::SecondBattery { index } => CatalogFaultView::SecondBattery {
                index: index as nat,
            },
            CatalogFault::Sampling { index, fault } => CatalogFaultView::Sampling {
                index: index as nat,
                fault: fault@,
            },
        }
    }
}

/// Whether a battery is declared among the first `count` capabilities.
pub open spec fn battery_among(declared: Seq<DeclaredCapability>, count: nat) -> bool {
    exists|i: int| 0 <= i < count && (#[trigger] declared[i]).declaration is Battery
}

/// Why the capability at `index` cannot be simulated, if it cannot.
pub open spec fn fault_at(
    declared: Seq<DeclaredCapability>,
    index: nat,
    basic_time_step_ms: i32,
) -> Option<CatalogFaultView> {
    let capability = declared[index as int];
    if capability.declaration.unowned() {
        Some(CatalogFaultView::Unowned { index })
    } else if capability.declaration is Battery && battery_among(declared, index) {
        Some(CatalogFaultView::SecondBattery { index })
    } else {
        match capability.declaration.publish_rate() {
            None => None,
            Some(publish_rate) => match capability.cadence(publish_rate, basic_time_step_ms) {
                Ok(_) => None,
                Err(fault) => Some(CatalogFaultView::Sampling { index, fault }),
            },
        }
    }
}

/// The first fault among the first `count` capabilities, in order.
pub open spec fn first_fault(
    declared: Seq<DeclaredCapability>,
    count: nat,
    basic_time_step_ms: i32,
) -> Option<CatalogFaultView>
    decreases count,
{
    if count == 0 {
        None
    } else {
        match first_fault(declared, (count - 1) as nat, basic_time_step_ms) {
            Some(fault) => Some(fault),
            None => fault_at(declared, (count - 1) as nat, basic_time_step_ms),
        }
    }
}

/// The capabilities that are simulated: all but the emergency stops, in order.
pub open spec fn simulated_of(declared: Seq<DeclaredCapability>) -> Seq<DeclaredCapability> {
    declared.filter(|capability: DeclaredCapability| !(capability.declaration is EmergencyStop))
}

/// `specs` are the capabilities of `declared` that are simulated, in order,
/// each ready to be bound.
pub open spec fn lists(
    specs: Seq<CapabilitySpec>,
    declared: Seq<DeclaredCapability>,
    basic_time_step_ms: i32,
) -> bool {
    let simulated = simulated_of(declared);
    &&& specs.len() == simulated.len()
    &&& forall|i: int|
        0 <= i < specs.len() ==> simulated[i].resolved_as(#[trigger] specs[i], basic_time_step_ms)
}

/// The simulated capabilities of one robot, in its canonical order.
#[derive(Debug)]
pub struct CapabilityCatalog {
    pub specs: Vec<CapabilitySpec>,
}

impl CapabilityCatalog {
    /// Resolve every declared capability against the world's step.
    ///
    /// # Errors
    ///
    /// Returns an error for the first capability whose effect nobody owns, that
    /// is a second battery, or whose cadence cannot be served.
    pub fn from_robot(declared: &Vec<DeclaredCapability>, basic_time_step_ms: i32) -> (result:
        Result<CapabilityCatalog, CatalogFault>)
        ensures
            match result {
                Ok(catalog) => first_fault(declared@, declared@.len(), basic_time_step_ms) is None
                    && lists(catalog.specs@, declared@, basic_time_step_ms),
                Err(fault) => first_fault(declared@, declared@.len(), basic_time_step_ms) == Some(
                    fault@,
                ),
            },
    {
        let mut specs: Vec<CapabilitySpec> = Vec::new();
        let mut battery_bound: bool = false;
        let mut index: usize = 0;
        proof {
            reveal(Seq::filter);
            assert(declared@.take(0) =~= Seq::empty());
        }
        while index < declared.len()
            invariant
                index <= declared@.len(),
                battery_bound == battery_among(declared@, index as nat),
                first_fault(declared@, index as nat, basic_time_step_ms) is None,
                lists(specs@, declared@.take(index as int), basic_time_step_ms),
            decreases declared@.len() - index,
        {
            let capability = &declared[index];
            let ghost before = specs@;
            proof {
                reveal(Seq::filter);
                lemma_fault_stays(
                    declared@,
                    index as nat + 1,
                    declared@.len(),
                    basic_time_step_ms,
                );
                assert(declared@.take(index + 1).drop_last() =~= declared@.take(index as int));
                assert(declared@.take(index + 1).last() == *capability);
            }
            if let Declaration::Battery { .. } = capability.declaration {
                if battery_bound {
                    return Err(CatalogFault::SecondBattery { index });
                }
                battery_bound = true;
            }
            match resolve(capability, basic_time_step_ms) {
                Ok(Some(spec)) => {
                    specs.push(spec);
                },
                Ok(None) => {},
                Err(Refusal::Unowned) => return Err(CatalogFault::Unowned { index }),
                Err(Refusal::Sampling(fault)) => return Err(
                    CatalogFault::Sampling { index, fault },
                ),
            }
            index = index + 1;
        }
        assert(declared@.take(declared@.len() as int) =~= declared@);
        Ok(CapabilityCatalog { specs })
    }
}

proof fn lemma_fault_stays(
    declared: Seq<DeclaredCapability>,
    from: nat,
    to: nat,
    basic_time_step_ms: i32,
)
    requires
        from <= to,
    ensures
        first_fault(declared, from, basic_time_step_ms) is Some ==> first_fault(
            declared,
            to,
            basic_time_step_ms,
        ) == first_fault(declared, from, basic_time_step_ms),
    decreases to,
{
    if from < to {
        lemma_fault_stays(declared, from, (to - 1) as nat, basic_time_step_ms);
    }
}

/// A robot that declares an effect nobody owns is refused.
pub proof fn law_an_unowned_effect_refuses_the_robot(
    declared: Seq<DeclaredCapability>,
    index: nat,
    basic_time_step_ms: i32,
)
    requires
        index < declared.len(),
        declared[index as int].declaration is Led || declared[index as int].declaration is Speaker,
    ensures
        first_fault(declared, declared.len(), basic_time_step_ms) is Some,
{
    lemma_fault_stays(declared, index + 1, declared.len(), basic_time_step_ms);
}

/// A robot that declares two batteries is refused.
pub proof fn law_a_second_battery_refuses_the_robot(
    declared: Seq<DeclaredCapability>,
    earlier: nat,
    later: nat,
    basic_time_step_ms: i32,
)
    requires
        earlier < later < declared.len(),
        declared[earlier as int].declaration is Battery,
        declared[later as int].declaration is Battery,
    ensures
        first_fault(declared, declared.len(), basic_time_step_ms) is Some,
{
    lemma_fault_stays(declared, later + 1, declared.len(), basic_time_step_ms);
}

/// Every capability but an emergency stop is simulated, and no emergency stop
/// is.
pub proof fn law_only_emergency_stops_are_skipped(
    declared: Seq<DeclaredCapability>,
    capability: DeclaredCapability,
)
    requires
        declared.contains(capability),
    ensures
        simulated_of(declared).contains(capability) <==> !(capability.declaration is EmergencyStop),
{
    let kept = |capability: DeclaredCapability| !(capability.declaration is EmergencyStop);
    if simulated_of(declared).contains(capability) {
        let at = choose|i: int|
            0 <= i < simulated_of(declared).len() && simulated_of(declared)[i] == capability;
        declared.lemma_filter_pred(kept, at);
    }
    let at = choose|i: int| 0 <= i < declared.len() && declared[i] == capability;
    if kept(capability) {
        declared.lemma_filter_contains(kept, at);
    }
}

/// Why one capability alone cannot be simulated.
enum Refusal {
    Unowned,
    Sampling(SamplingFault),
}

/// Resolve one capability: its specification, or nothing when it is skipped.
fn resolve(capability: &DeclaredCapability, basic_time_step_ms: i32) -> (result: Result<
    Option<CapabilitySpec>,
    Refusal,
>)
    ensures
        match result {
            Ok(Some(spec)) => capability.resolved_as(spec, basic_time_step_ms)
                && !capability.declaration.unowned() && !(capability.declaration is EmergencyStop),
            Ok(None) => capability.declaration is EmergencyStop,
            Err(Refusal::Unowned) => capability.declaration.unowned(),
            Err(Refusal::Sampling(fault)) => {
                &&& !capability.declaration.unowned()
                &&& capability.declaration.publish_rate() matches Some(publish_rate)
                &&& capability.cadence(publish_rate, basic_time_step_ms) == Err::<
                    (i32, crate::sample_schedule::ScheduleState),
                    _,
                >(fault@)
            },
        },
{
    let publish_rate: &RateReading = match &capability.declaration {
        Declaration::EmergencyStop => return Ok(None),
        Declaration::Speaker | Declaration::Led => return Err(Refusal::Unowned),
        Declaration::Motor { command, gear_ratio } => return Ok(
            Some(
                CapabilitySpec::Motor(
                    MotorSpec {
                        reference: capability.reference.clone(),
                        actuator_type: *command,
                        gear_ratio: *gear_ratio,
                    },
                ),
            ),
        ),
        Declaration::Encoder { publish_rate, .. } => publish_rate,
        Declaration::Accelerometer { publish_rate } => publish_rate,
        Declaration::Gyroscope { publish_rate } => publish_rate,
        Declaration::Magnetometer { publish_rate } => publish_rate,
        Declaration::Imu { publish_rate } => publish_rate,
        Declaration::Gnss { publish_rate } => publish_rate,
        Declaration::Camera { publish_rate, .. } => publish_rate,
        Declaration::Depth { publish_rate, .. } => publish_rate,
        Declaration::Range { publish_rate, .. } => publish_rate,
        Declaration::Lidar { publish_rate, .. } => publish_rate,
        Declaration::Mmwave { publish_rate } => publish_rate,
        Declaration::Microphone { publish_rate } => publish_rate,
        Declaration::Battery { publish_rate, .. } => publish_rate,
    };
    let simulated: Option<&SimulatedCapability> = match &capability.simulated {
        Some(simulated) => Some(simulated),
        None => None,
    };
    let reference = capability.reference.clone();
    let sampled = match SampledSpec::new(reference, basic_time_step_ms, publish_rate, simulated) {
        Ok(sampled) => sampled,
        Err(fault) => return Err(Refusal::Sampling(fault)),
    };
    let spec = match &capability.declaration {
        Declaration::Encoder { gear_ratio, .. } => CapabilitySpec::Encoder(
            EncoderSpec { sampled, gear_ratio: *gear_ratio },
        ),
        Declaration::Accelerometer { .. } => CapabilitySpec::Accelerometer(sampled),
        Declaration::Gyroscope { .. } => CapabilitySpec::Gyroscope(sampled),
        Declaration::Magnetometer { .. } => CapabilitySpec::Magnetometer(sampled),
        Declaration::Imu { .. } => CapabilitySpec::Imu(sampled),
        Declaration::Gnss { .. } => CapabilitySpec::Gnss(sampled),
        Declaration::Camera { mode, width, height, .. } => CapabilitySpec::Camera(
            CameraSpec { sampled, mode: *mode, width: *width, height: *height },
        ),
        Declaration::Depth { width, height, .. } => CapabilitySpec::Depth(
            DepthSpec { sampled, width: *width, height: *height },
        ),
        Declaration::Range { min_range_m, max_range_m, .. } => CapabilitySpec::Range(
            RangeSpec { sampled, min_range_m: *min_range_m, max_range_m: *max_range_m },
        ),
        Declaration::Lidar { output, .. } => CapabilitySpec::Lidar(
            LidarSpec { sampled, output: *output },
        ),
        Declaration::Mmwave { .. } => CapabilitySpec::Mmwave(sampled),
        Declaration::Microphone { .. } => CapabilitySpec::Microphone(sampled),
        Declaration::Battery { voltage_v, capacity_ah, .. } => CapabilitySpec::Battery(
            BatterySpec { sampled, voltage_v: *voltage_v, capacity_ah: *capacity_ah },
        ),
        _ => vstd::pervasive::unreached(),
    };
    Ok(Some(spec))
}

/// A capability publishes at the rate its own declaration gives; motors and the
/// families that are not simulated give none.
pub proof fn law_a_capability_publishes_at_its_own_rate(declaration: Declaration)
    ensures
        declaration matches Declaration::Encoder { publish_rate, .. }
            ==> declaration.publish_rate() == Some(publish_rate),
        declaration matches Declaration::Camera { publish_rate, .. }
            ==> declaration.publish_rate() == Some(publish_rate),
        declaration matches Declaration::Depth { publish_rate, .. }
            ==> declaration.publish_rate() == Some(publish_rate),
        declaration matches Declaration::Range { publish_rate, .. }
            ==> declaration.publish_rate() == Some(publish_rate),
        declaration matches Declaration::Lidar { publish_rate, .. }
            ==> declaration.publish_rate() == Some(publish_rate),
        declaration matches Declaration::Battery { publish_rate, .. }
            ==> declaration.publish_rate() == Some(publish_rate),
        declaration matches Declaration::Accelerometer { publish_rate } ==> declaration.publish_rate()
            == Some(publish_rate),
        declaration matches Declaration::Gyroscope { publish_rate } ==> declaration.publish_rate()
            == Some(publish_rate),
        declaration matches Declaration::Magnetometer { publish_rate } ==> declaration.publish_rate()
            == Some(publish_rate),
        declaration matches Declaration::Imu { publish_rate } ==> declaration.publish_rate()
            == Some(publish_rate),
        declaration matches Declaration::Gnss { publish_rate } ==> declaration.publish_rate()
            == Some(publish_rate),
        declaration matches Declaration::Mmwave { publish_rate } ==> declaration.publish_rate()
            == Some(publish_rate),
        declaration matches Declaration::Microphone { publish_rate } ==> declaration.publish_rate()
            == Some(publish_rate),
        declaration is Motor || declaration is EmergencyStop || declaration is Speaker
            || declaration is Led ==> declaration.publish_rate() is None,
{
}

/// What a capability is resolved to is what was declared of it: the same
/// family under the same name, with every setting as declared, and with the
/// cadence that its own rate and the world's entry for it resolve to.
pub proof fn law_a_resolved_capability_is_as_declared(
    capability: DeclaredCapability,
    spec: CapabilitySpec,
    basic_time_step_ms: i32,
)
    requires
        capability.resolved_as(spec, basic_time_step_ms),
    ensures
        ({
            let keeps = |sampled: SampledSpec, publish_rate: RateReading|
                {
                    &&& sampled.reference@ == capability.reference@
                    &&& crate::capabilities::resolved(
                        capability.reference.spec_text(),
                        basic_time_step_ms,
                        publish_rate,
                        match capability.simulated {
                            Some(simulated) => Some(&simulated),
                            None => None,
                        },
                    ) == Ok::<_, SamplingFaultView>((sampled.sampling_period_ms, sampled.schedule@))
                };
            match capability.declaration {
                Declaration::Motor { command, gear_ratio } => spec matches CapabilitySpec::Motor(
                    motor,
                ) && motor.reference@ == capability.reference@ && motor.actuator_type == command
                    && motor.gear_ratio == gear_ratio,
                Declaration::Encoder {
                    publish_rate,
                    gear_ratio,
                } => spec matches CapabilitySpec::Encoder(encoder) && keeps(
                    encoder.sampled,
                    publish_rate,
                ) && encoder.gear_ratio == gear_ratio,
                Declaration::Camera {
                    publish_rate,
                    mode,
                    width,
                    height,
                } => spec matches CapabilitySpec::Camera(camera) && keeps(
                    camera.sampled,
                    publish_rate,
                ) && camera.mode == mode && camera.width == width && camera.height == height,
                Declaration::Depth {
                    publish_rate,
                    width,
                    height,
                } => spec matches CapabilitySpec::Depth(depth) && keeps(depth.sampled, publish_rate)
                    && depth.width == width && depth.height == height,
                Declaration::Range {
                    publish_rate,
                    min_range_m,
                    max_range_m,
                } => spec matches CapabilitySpec::Range(range) && keeps(range.sampled, publish_rate)
                    && range.min_range_m == min_range_m && range.max_range_m == max_range_m,
                Declaration::Lidar {
                    publish_rate,
                    output,
                } => spec matches CapabilitySpec::Lidar(lidar) && keeps(lidar.sampled, publish_rate)
                    && lidar.output == output,
                Declaration::Battery {
                    publish_rate,
                    voltage_v,
                    capacity_ah,
                } => spec matches CapabilitySpec::Battery(battery) && keeps(
                    battery.sampled,
                    publish_rate,
                ) && battery.voltage_v == voltage_v && battery.capacity_ah == capacity_ah,
                Declaration::Accelerometer { publish_rate } => spec matches CapabilitySpec::Accelerometer(
                    sampled,
                ) && keeps(sampled, publish_rate),
                Declaration::Gyroscope { publish_rate } => spec matches CapabilitySpec::Gyroscope(
                    sampled,
                ) && keeps(sampled, publish_rate),
                Declaration::Magnetometer { publish_rate } => spec matches CapabilitySpec::Magnetometer(
                    sampled,
                ) && keeps(sampled, publish_rate),
                Declaration::Imu { publish_rate } => spec matches CapabilitySpec::Imu(
                    sampled,
                ) && keeps(sampled, publish_rate),
                Declaration::Gnss { publish_rate } => spec matches CapabilitySpec::Gnss(
                    sampled,
                ) && keeps(sampled, publish_rate),
                Declaration::Mmwave { publish_rate } => spec matches CapabilitySpec::Mmwave(
                    sampled,
                ) && keeps(sampled, publish_rate),
                Declaration::Microphone { publish_rate } => spec matches CapabilitySpec::Microphone(
                    sampled,
                ) && keeps(sampled, publish_rate),
                Declaration::EmergencyStop => false,
                Declaration::Speaker => false,
                Declaration::Led => false,
            }
        }),
        spec.spec_reference()@ == capability.reference@,
{
}

/// The cadence of a specification is the one its family holds, and a motor has
/// none.
pub proof fn law_a_specification_holds_its_cadence(spec: CapabilitySpec)
    ensures
        match spec {
            CapabilitySpec::Motor(motor) => spec.spec_sampled() is None && spec.spec_reference()
                == motor.reference,
            CapabilitySpec::Encoder(encoder) => spec.spec_sampled() == Some(encoder.sampled),
            CapabilitySpec::Range(range) => spec.spec_sampled() == Some(range.sampled),
            CapabilitySpec::Camera(camera) => spec.spec_sampled() == Some(camera.sampled),
            CapabilitySpec::Depth(depth) => spec.spec_sampled() == Some(depth.sampled),
            CapabilitySpec::Lidar(lidar) => spec.spec_sampled() == Some(lidar.sampled),
            CapabilitySpec::Battery(battery) => spec.spec_sampled() == Some(battery.sampled),
            CapabilitySpec::Imu(sampled) | CapabilitySpec::Accelerometer(sampled)
            | CapabilitySpec::Gyroscope(sampled) | CapabilitySpec::Gnss(sampled)
            | CapabilitySpec::Magnetometer(sampled) | CapabilitySpec::Mmwave(sampled)
            | CapabilitySpec::Microphone(sampled) => spec.spec_sampled() == Some(sampled),
        },
        !(spec is Motor) ==> spec.spec_reference() == spec.spec_sampled()->0.reference,
{
}

/// A robot is refused for the first of its capabilities that cannot be
/// simulated, and for no other; where there is none, it is not refused.
pub proof fn law_the_first_fault_refuses_the_robot(
    declared: Seq<DeclaredCapability>,
    basic_time_step_ms: i32,
    index: nat,
)
    requires
        index < declared.len(),
        forall|i: nat| i < index ==> (#[trigger] fault_at(declared, i, basic_time_step_ms)) is None,
    ensures
        fault_at(declared, index, basic_time_step_ms) is Some ==> first_fault(
            declared,
            declared.len(),
            basic_time_step_ms,
        ) == fault_at(declared, index, basic_time_step_ms),
        index + 1 == declared.len() && fault_at(declared, index, basic_time_step_ms) is None
            ==> first_fault(declared, declared.len(), basic_time_step_ms) is None,
{
    lemma_no_fault_yet(declared, index, basic_time_step_ms);
    lemma_fault_stays(declared, index + 1, declared.len(), basic_time_step_ms);
}

proof fn lemma_no_fault_yet(
    declared: Seq<DeclaredCapability>,
    count: nat,
    basic_time_step_ms: i32,
)
    requires
        forall|i: nat| i < count ==> (#[trigger] fault_at(declared, i, basic_time_step_ms)) is None,
    ensures
        first_fault(declared, count, basic_time_step_ms) is None,
    decreases count,
{
    if count > 0 {
        lemma_no_fault_yet(declared, (count - 1) as nat, basic_time_step_ms);
        assert(fault_at(declared, (count - 1) as nat, basic_time_step_ms) is None);
    }
}

/// A capability is at fault, by its place in the robot, exactly where nobody
/// owns its effect, it is a battery after another, or its own rate and the
/// world's entry for it resolve to no cadence, which is then the fault.
pub proof fn law_a_fault_is_the_capabilitys_own(
    declared: Seq<DeclaredCapability>,
    index: nat,
    basic_time_step_ms: i32,
    earlier: int,
)
    requires
        index < declared.len(),
    ensures
        ({
            let capability = declared[index as int];
            let declaration = capability.declaration;
            let fault = fault_at(declared, index, basic_time_step_ms);
            let cadence = |publish_rate: RateReading|
                crate::capabilities::resolved(
                    capability.reference.spec_text(),
                    basic_time_step_ms,
                    publish_rate,
                    match capability.simulated {
                        Some(simulated) => Some(&simulated),
                        None => None,
                    },
                );
            &&& declaration is Led || declaration is Speaker ==> fault == Some(
                CatalogFaultView::Unowned { index },
            )
            &&& declaration is Battery && 0 <= earlier < index
                && declared[earlier].declaration is Battery ==> fault == Some(
                CatalogFaultView::SecondBattery { index },
            )
            &&& declaration is Motor || declaration is EmergencyStop ==> fault is None
            &&& declaration.publish_rate() matches Some(publish_rate) ==> {
                &&& cadence(publish_rate) is Ok && fault is Some ==> declaration is Battery && fault
                    == Some(CatalogFaultView::SecondBattery { index })
                &&& cadence(publish_rate) matches Err(reason) ==> fault is Some && (!(
                declaration is Battery) ==> fault == Some(
                    CatalogFaultView::Sampling { index, fault: reason },
                ))
            }
            &&& fault == Some(CatalogFaultView::SecondBattery { index }) ==> exists|i: int|
                0 <= i < index && (#[trigger] declared[i]).declaration is Battery
        }),
{
}

/// A specification is of the kind of its family.
pub proof fn law_a_specification_is_of_its_familys_kind(spec: CapabilitySpec)
    ensures
        spec is Motor <==> spec.spec_kind() == CapabilityKind::Motor,
        spec is Encoder <==> spec.spec_kind() == CapabilityKind::Encoder,
        spec is Imu <==> spec.spec_kind() == CapabilityKind::Imu,
        spec is Accelerometer <==> spec.spec_kind() == CapabilityKind::Accelerometer,
        spec is Gyroscope <==> spec.spec_kind() == CapabilityKind::Gyroscope,
        spec is Range <==> spec.spec_kind() == CapabilityKind::Range,
        spec is Camera <==> spec.spec_kind() == CapabilityKind::Camera,
        spec is Depth <==> spec.spec_kind() == CapabilityKind::Depth,
        spec is Gnss <==> spec.spec_kind() == CapabilityKind::Gnss,
        spec is Magnetometer <==> spec.spec_kind() == CapabilityKind::Magnetometer,
        spec is Lidar <==> spec.spec_kind() == CapabilityKind::Lidar,
        spec is Mmwave <==> spec.spec_kind() == CapabilityKind::Mmwave,
        spec is Microphone <==> spec.spec_kind() == CapabilityKind::Microphone,
        spec is Battery <==> spec.spec_kind() == CapabilityKind::Battery,
{
}

/// A catalog follows its robot capability by capability, in order: an emergency
/// stop adds nothing to it, and every other capability adds what it is resolved
/// to.
pub proof fn law_a_catalog_follows_its_robot(
    specs: Seq<CapabilitySpec>,
    spec: CapabilitySpec,
    declared: Seq<DeclaredCapability>,
    capability: DeclaredCapability,
    basic_time_step_ms: i32,
)
    ensures
        lists(Seq::empty(), Seq::empty(), basic_time_step_ms),
        capability.declaration is EmergencyStop ==> (lists(
            specs,
            declared.push(capability),
            basic_time_step_ms,
        ) <==> lists(specs, declared, basic_time_step_ms)),
        !(capability.declaration is EmergencyStop) ==> !lists(
            Seq::empty(),
            declared.push(capability),
            basic_time_step_ms,
        ) && (lists(specs.push(spec), declared.push(capability), basic_time_step_ms) <==> lists(
            specs,
            declared,
            basic_time_step_ms,
        ) && capability.resolved_as(spec, basic_time_step_ms)),
{
    reveal(Seq::filter);
    let more = declared.push(capability);
    assert(more.drop_last() =~= declared);
    assert(more.last() == capability);
    if !(capability.declaration is EmergencyStop) {
        let simulated = simulated_of(declared);
        assert(simulated_of(more) == simulated.push(capability));
        let longer = specs.push(spec);
        if lists(longer, more, basic_time_step_ms) {
            assert(specs.len() == simulated.len());
            assert forall|i: int| 0 <= i < specs.len() implies simulated[i].resolved_as(
                #[trigger] specs[i],
                basic_time_step_ms,
            ) by {
                assert(simulated_of(more)[i].resolved_as(longer[i], basic_time_step_ms));
            }
            assert(simulated_of(more)[specs.len() as int].resolved_as(
                longer[specs.len() as int],
                basic_time_step_ms,
            ));
        }
        if lists(specs, declared, basic_time_step_ms) && capability.resolved_as(
            spec,
            basic_time_step_ms,
        ) {
            assert forall|i: int| 0 <= i < longer.len() implies simulated_of(more)[i].resolved_as(
                #[trigger] longer[i],
                basic_time_step_ms,
            ) by {
                if i < specs.len() {
                    assert(simulated[i].resolved_as(specs[i], basic_time_step_ms));
                }
            }
        }
    }
}

} // verus!
