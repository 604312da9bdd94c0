//! One capability's Webots device bound to the bus handle that serves it.
//!
//! Binding the device and its handle into one record is what keeps them from
//! being re-paired by position on every step: a sample is published on the
//! handle it was just read through, in the same call, and a queued command
//! already sits next to the device it drives. The controller holds one sequence
//! of channels in the robot's canonical capability order.
//!
//! The host owns the devices and the handles. Which devices and which contract
//! serve a capability, whether a step reads it, and in which order a motor's
//! inputs are taken are decided here.

use crate::capabilities::battery::{BatterySpec, NativeBattery};
use crate::capabilities::camera::CameraSpec;
use crate::capabilities::depth::DepthSpec;
use crate::capabilities::encoder::NativeEncoder;
use crate::capabilities::imu::ImuDevices;
use crate::capabilities::lidar::LidarSpec;
use crate::capabilities::motor::NativeMotor;
use crate::capabilities::range::RangeSpec;
use crate::capabilities::{CapabilityRef, SampledSpec, SensorStep};
use crate::catalog::{CapabilityKind, CapabilitySpec};
use crate::sample_schedule::{ScheduleFault, ScheduleFaultView, ScheduleState};
use vstd::prelude::*;

verus! {

/// How long the motor authority may stay silent before its command lapses, in
/// milliseconds.
pub const MOTOR_SOURCE_SILENCE_MS: u64 = 150;

/// Whom a motor answers to.
#[derive(Clone, Copy, Debug, PartialEq, Eq)]
pub struct MotorAuthority {
    /// The one participant allowed to command the motor.
    pub participant: &'static str,
    /// The name the authority keeps its records under.
    pub label: &'static str,
    /// How long the participant may stay silent before its command lapses, in
    /// milliseconds.
    pub silence_ms: u64,
    /// The lease's own time limit, in milliseconds; without one it is
    /// unbounded.
    pub lease_limit_ms: Option<u64>,
}

impl MotorAuthority {
    /// The authority that admits `drive` and nobody else.
    pub open spec fn is_drive(self) -> bool {
        &&& self.participant@ == "drive"@
        &&& self.label@ == "component/motor/command"@
        &&& self.silence_ms == MOTOR_SOURCE_SILENCE_MS
        &&& self.lease_limit_ms is None
    }

    /// The authority of every simulated motor.
    fn drive() -> (authority: MotorAuthority)
        ensures
            authority.is_drive(),
    {
        MotorAuthority {
            participant: "drive",
            label: "component/motor/command",
            silence_ms: MOTOR_SOURCE_SILENCE_MS,
            lease_limit_ms: None,
        }
    }
}

/// The kind of world node a capability reads or drives.
#[derive(Clone, Copy, Debug, PartialEq, Eq, Structural)]
pub enum DeviceNode {
    Motor,
    PositionSensor,
    InertialUnit,
    Accelerometer,
    Gyro,
    DistanceSensor,
    Camera,
    RangeFinder,
    Gps,
    Compass,
    Lidar,
    Radar,
    Microphone,
    BatterySensor,
}

/// One device to open: the battery sensor has no name, and a motor is not
/// sampled.
#[derive(Clone, Debug, PartialEq, Eq)]
pub struct Device {
    pub node: DeviceNode,
    pub name: Option<String>,
    pub sampling_period_ms: Option<i32>,
}

/// What a [`Device`] says.
pub ghost struct DeviceView {
    pub node: DeviceNode,
    pub name: Option<Seq<char>>,
    pub sampling_period_ms: Option<i32>,
}

impl View for Device {
    type V = DeviceView;

    open spec fn view(&self) -> DeviceView {
        DeviceView {
            node: self.node,
            name: match self.name {
                Some(name) => Some(name@),
                None => None,
            },
            sampling_period_ms: self.sampling_period_ms,
        }
    }
}

/// The contract of a capability that its handle serves, and with it the kind
/// of handle: commands are received, state is published as state, and the
/// others are published as samples.
#[derive(Clone, Copy, Debug, PartialEq, Eq, Structural)]
pub enum Contract {
    Command,
    Sample,
    Frame,
    Scan,
    State,
}

/// What binding one capability opens: its devices in order, each to be enabled
/// at its sampling period once all are open, the contract its handle serves,
/// and, of a motor, whom it answers to.
#[derive(Clone, Debug, PartialEq, Eq)]
pub struct BindingPlan {
    pub devices: Vec<Device>,
    pub contract: Contract,
    pub authority: Option<MotorAuthority>,
}

/// The one named device of a sampled capability.
pub open spec fn named_device(node: DeviceNode, sampled: SampledSpec) -> Seq<DeviceView> {
    seq![
        DeviceView {
            node,
            name: Some(sampled.reference.spec_text()),
            sampling_period_ms: Some(sampled.sampling_period_ms),
        },
    ]
}

/// The devices `spec` is served by, in the order they are opened.
pub open spec fn devices_of(spec: CapabilitySpec) -> Seq<DeviceView> {
    match spec {
        CapabilitySpec::Motor(motor) => seq![
            DeviceView {
                node: DeviceNode::Motor,
                name: Some(motor.reference.spec_text()),
                sampling_period_ms: None,
            },
        ],
        CapabilitySpec::Encoder(encoder) => named_device(
            DeviceNode::PositionSensor,
            encoder.sampled,
        ),
        CapabilitySpec::Imu(sampled) => seq![
            DeviceView {
                node: DeviceNode::InertialUnit,
                name: Some(sampled.reference.spec_text()),
                sampling_period_ms: Some(sampled.sampling_period_ms),
            },
            DeviceView {
                node: DeviceNode::Accelerometer,
                name: Some(sampled.reference.spec_text() + "__accel"@),
                sampling_period_ms: Some(sampled.sampling_period_ms),
            },
            DeviceView {
                node: DeviceNode::Gyro,
                name: Some(sampled.reference.spec_text() + "__gyro"@),
                sampling_period_ms: Some(sampled.sampling_period_ms),
            },
        ],
        CapabilitySpec::Accelerometer(sampled) => named_device(DeviceNode::Accelerometer, sampled),
        CapabilitySpec::Gyroscope(sampled) => named_device(DeviceNode::Gyro, sampled),
        CapabilitySpec::Range(range) => named_device(DeviceNode::DistanceSensor, range.sampled),
        CapabilitySpec::Camera(camera) => named_device(DeviceNode::Camera, camera.sampled),
        CapabilitySpec::Depth(depth) => named_device(DeviceNode::RangeFinder, depth.sampled),
        CapabilitySpec::Gnss(sampled) => named_device(DeviceNode::Gps, sampled),
        CapabilitySpec::Magnetometer(sampled) => named_device(DeviceNode::Compass, sampled),
        CapabilitySpec::Lidar(lidar) => named_device(DeviceNode::Lidar, lidar.sampled),
        CapabilitySpec::Mmwave(sampled) => named_device(DeviceNode::Radar, sampled),
        CapabilitySpec::Microphone(sampled) => named_device(DeviceNode::Microphone, sampled),
        CapabilitySpec::Battery(battery) => seq![
            DeviceView {
                node: DeviceNode::BatterySensor,
                name: None,
                sampling_period_ms: Some(battery.sampled.sampling_period_ms),
            },
        ],
    }
}

/// The contract a capability kind is served on.
pub open spec fn contract_of(kind: CapabilityKind) -> Contract {
    match kind {
        CapabilityKind::Motor => Contract::Command,
        CapabilityKind::Battery => Contract::State,
        CapabilityKind::Camera => Contract::Frame,
        CapabilityKind::Depth => Contract::Frame,
        CapabilityKind::Microphone => Contract::Frame,
        CapabilityKind::Lidar => Contract::Scan,
        CapabilityKind::Mmwave => Contract::Scan,
        _ => Contract::Sample,
    }
}

/// What the host keeps of one bound capability beside its devices and handle,
/// by the family it belongs to.
#[derive(Debug)]
pub enum CapabilityBinding {
    Motor(NativeMotor),
    Encoder(NativeEncoder),
    Imu(SampledSpec),
    Accelerometer(SampledSpec),
    Gyroscope(SampledSpec),
    Range(RangeSpec),
    Camera(CameraSpec),
    Depth(DepthSpec),
    Gnss(SampledSpec),
    Magnetometer(SampledSpec),
    Lidar(LidarSpec),
    Mmwave(SampledSpec),
    Microphone(SampledSpec),
    Battery(NativeBattery),
}

impl CapabilityBinding {
    /// The binding of a capability that has not been read yet.
    pub open spec fn fresh(spec: CapabilitySpec) -> CapabilityBinding {
        match spec {
            CapabilitySpec::Motor(motor) => CapabilityBinding::Motor(
                NativeMotor { actuator_type: motor.actuator_type, gear_ratio: motor.gear_ratio },
            ),
            CapabilitySpec::Encoder(encoder) => CapabilityBinding::Encoder(
                NativeEncoder { spec: encoder, last: None },
            ),
            CapabilitySpec::Imu(sampled) => CapabilityBinding::Imu(sampled),
            CapabilitySpec::Accelerometer(sampled) => CapabilityBinding::Accelerometer(sampled),
            CapabilitySpec::Gyroscope(sampled) => CapabilityBinding::Gyroscope(sampled),
            CapabilitySpec::Range(range) => CapabilityBinding::Range(range),
            CapabilitySpec::Camera(camera) => CapabilityBinding::Camera(camera),
            CapabilitySpec::Depth(depth) => CapabilityBinding::Depth(depth),
            CapabilitySpec::Gnss(sampled) => CapabilityBinding::Gnss(sampled),
            CapabilitySpec::Magnetometer(sampled) => CapabilityBinding::Magnetometer(sampled),
            CapabilitySpec::Lidar(lidar) => CapabilityBinding::Lidar(lidar),
            CapabilitySpec::Mmwave(sampled) => CapabilityBinding::Mmwave(sampled),
            CapabilitySpec::Microphone(sampled) => CapabilityBinding::Microphone(sampled),
            CapabilitySpec::Battery(battery) => CapabilityBinding::Battery(
                NativeBattery { spec: battery, last: None, reported_absent: false },
            ),
        }
    }

    /// The cadence this capability was bound at. Actuators have none.
    pub open spec fn sampled(self) -> Option<SampledSpec> {
        match self {
            CapabilityBinding::Motor(_) => None,
            CapabilityBinding::Encoder(encoder) => Some(encoder.spec.sampled),
            CapabilityBinding::Imu(sampled) => Some(sampled),
            CapabilityBinding::Accelerometer(sampled) => Some(sampled),
            CapabilityBinding::Gyroscope(sampled) => Some(sampled),
            CapabilityBinding::Range(range) => Some(range.sampled),
            CapabilityBinding::Camera(camera) => Some(camera.sampled),
            CapabilityBinding::Depth(depth) => Some(depth.sampled),
            CapabilityBinding::Gnss(sampled) => Some(sampled),
            CapabilityBinding::Magnetometer(sampled) => Some(sampled),
            CapabilityBinding::Lidar(lidar) => Some(lidar.sampled),
            CapabilityBinding::Mmwave(sampled) => Some(sampled),
            CapabilityBinding::Microphone(sampled) => Some(sampled),
            CapabilityBinding::Battery(battery) => Some(battery.spec.sampled),
        }
    }

    /// The publish schedule of this capability. Actuators have none.
    pub open spec fn schedule(self) -> Option<ScheduleState> {
        match self.sampled() {
            Some(sampled) => Some(sampled.schedule@),
            None => None,
        }
    }

    /// The reading the next one is differentiated against.
    pub open spec fn last(self) -> Option<crate::capabilities::Reading> {
        match self {
            CapabilityBinding::Encoder(encoder) => encoder.last,
            CapabilityBinding::Battery(battery) => battery.last,
            _ => None,
        }
    }

    /// `self` and `other` differ in nothing but their publish schedules and
    /// last readings.
    pub open spec fn same_settings(self, other: CapabilityBinding) -> bool {
        &&& match (self.sampled(), other.sampled()) {
            (Some(own), Some(others)) => own.reference == others.reference
                && own.sampling_period_ms == others.sampling_period_ms,
            (None, None) => true,
            _ => false,
        }
        &&& match (self, other) {
            (CapabilityBinding::Motor(own), CapabilityBinding::Motor(others)) => own == others,
            (CapabilityBinding::Encoder(own), CapabilityBinding::Encoder(others)) =>
                own.spec.gear_ratio == others.spec.gear_ratio,
            (CapabilityBinding::Imu(_), CapabilityBinding::Imu(_)) => true,
            (CapabilityBinding::Accelerometer(_), CapabilityBinding::Accelerometer(_)) => true,
            (CapabilityBinding::Gyroscope(_), CapabilityBinding::Gyroscope(_)) => true,
            (CapabilityBinding::Range(own), CapabilityBinding::Range(others)) => own.min_range_m
                == others.min_range_m && own.max_range_m == others.max_range_m,
            (CapabilityBinding::Camera(own), CapabilityBinding::Camera(others)) => own.mode
                == others.mode && own.width == others.width && own.height == others.height,
            (CapabilityBinding::Depth(own), CapabilityBinding::Depth(others)) => own.width
                == others.width && own.height == others.height,
            (CapabilityBinding::Gnss(_), CapabilityBinding::Gnss(_)) => true,
            (CapabilityBinding::Magnetometer(_), CapabilityBinding::Magnetometer(_)) => true,
            (CapabilityBinding::Lidar(own), CapabilityBinding::Lidar(others)) => own.output
                == others.output,
            (CapabilityBinding::Mmwave(_), CapabilityBinding::Mmwave(_)) => true,
            (CapabilityBinding::Microphone(_), CapabilityBinding::Microphone(_)) => true,
            (CapabilityBinding::Battery(own), CapabilityBinding::Battery(others)) =>
                own.spec.voltage_v == others.spec.voltage_v && own.spec.capacity_ah
                    == others.spec.capacity_ah && own.reported_absent == others.reported_absent,
            _ => false,
        }
    }
}

/// What a step asks of one capability once the world has advanced.
#[derive(Clone, Copy, Debug, PartialEq, Eq, Structural)]
pub enum Publication {
    /// The step is none this capability publishes on.
    Nothing,
    /// Read the device and publish what it saw, captured at exactly the instant
    /// the world advanced to.
    Sample,
    /// Read the device and publish what it is, stamped with the world step like
    /// the clock itself.
    State,
}

/// One bound capability: the reference it was declared under, and what is kept
/// of the device and handle serving it.
#[derive(Debug)]
pub struct CapabilityChannel {
    pub reference: CapabilityRef,
    pub binding: CapabilityBinding,
}

fn device(node: DeviceNode, sampled: &SampledSpec) -> (devices: Vec<Device>)
    ensures
        devices@.map_values(|device: Device| device@) == named_device(node, *sampled),
{
    let mut devices: Vec<Device> = Vec::new();
    devices.push(
        Device {
            node,
            name: Some(sampled.reference.text()),
            sampling_period_ms: Some(sampled.sampling_period_ms),
        },
    );
    assert(devices@.map_values(|device: Device| device@) =~= named_device(node, *sampled));
    devices
}

fn imu_devices(sampled: &SampledSpec) -> (devices: Vec<Device>)
    ensures
        devices@.map_values(|device: Device| device@) == devices_of(CapabilitySpec::Imu(*sampled)),
{
    let names = ImuDevices::new(&sampled.reference);
    let sampling_period_ms: Option<i32> = Some(sampled.sampling_period_ms);
    let mut devices: Vec<Device> = Vec::new();
    devices.push(
        Device {
            node: DeviceNode::InertialUnit,
            name: Some(names.inertial_unit),
            sampling_period_ms,
        },
    );
    devices.push(
        Device {
            node: DeviceNode::Accelerometer,
            name: Some(names.accelerometer),
            sampling_period_ms,
        },
    );
    devices.push(
        Device { node: DeviceNode::Gyro, name: Some(names.gyro), sampling_period_ms },
    );
    assert(devices@.map_values(|device: Device| device@) =~= devices_of(
        CapabilitySpec::Imu(*sampled),
    ));
    devices
}

fn motor_device(spec: &crate::capabilities::motor::MotorSpec) -> (devices: Vec<Device>)
    ensures
        devices@.map_values(|device: Device| device@) == devices_of(CapabilitySpec::Motor(*spec)),
{
    let mut devices: Vec<Device> = Vec::new();
    devices.push(
        Device {
            node: DeviceNode::Motor,
            name: Some(spec.reference.text()),
            sampling_period_ms: None,
        },
    );
    assert(devices@.map_values(|device: Device| device@) =~= devices_of(
        CapabilitySpec::Motor(*spec),
    ));
    devices
}

fn battery_device(spec: &BatterySpec) -> (devices: Vec<Device>)
    ensures
        devices@.map_values(|device: Device| device@) == devices_of(
            CapabilitySpec::Battery(*spec),
        ),
{
    let mut devices: Vec<Device> = Vec::new();
    devices.push(
        Device {
            node: DeviceNode::BatterySensor,
            name: None,
            sampling_period_ms: Some(spec.sampled.sampling_period_ms),
        },
    );
    assert(devices@.map_values(|device: Device| device@) =~= devices_of(
        CapabilitySpec::Battery(*spec),
    ));
    devices
}

impl CapabilityChannel {
    /// Bind one capability: what is opened for it, and what is kept of it.
    pub fn bind(spec: CapabilitySpec) -> (bound: (CapabilityChannel, BindingPlan))
        ensures
            bound.0.reference@ == spec.spec_reference()@,
            bound.0.binding == CapabilityBinding::fresh(spec),
            bound.1.devices@.map_values(|device: Device| device@) == devices_of(spec),
            bound.1.contract == contract_of(spec.spec_kind()),
            match bound.1.authority {
                Some(authority) => spec is Motor && authority.is_drive(),
                None => !(spec is Motor),
            },
    {
        let reference = spec.reference().clone();
        let authority = match spec {
            CapabilitySpec::Motor(_) => Some(MotorAuthority::drive()),
            _ => None,
        };
        let (devices, contract, binding) = match spec {
            CapabilitySpec::Motor(spec) => {
                let motor = NativeMotor::new(&spec);
                (motor_device(&spec), Contract::Command, CapabilityBinding::Motor(motor))
            },
            CapabilitySpec::Encoder(spec) => {
                let devices = device(DeviceNode::PositionSensor, &spec.sampled);
                let encoder = NativeEncoder::new(spec);
                (devices, Contract::Sample, CapabilityBinding::Encoder(encoder))
            },
            CapabilitySpec::Imu(spec) => (
                imu_devices(&spec),
                Contract::Sample,
                CapabilityBinding::Imu(spec),
            ),
            CapabilitySpec::Accelerometer(spec) => (
                device(DeviceNode::Accelerometer, &spec),
                Contract::Sample,
                CapabilityBinding::Accelerometer(spec),
            ),
            CapabilitySpec::Gyroscope(spec) => (
                device(DeviceNode::Gyro, &spec),
                Contract::Sample,
                CapabilityBinding::Gyroscope(spec),
            ),
            CapabilitySpec::Range(spec) => (
                device(DeviceNode::DistanceSensor, &spec.sampled),
                Contract::Sample,
                CapabilityBinding::Range(spec),
            ),
            CapabilitySpec::Camera(spec) => (
                device(DeviceNode::Camera, &spec.sampled),
                Contract::Frame,
                CapabilityBinding::Camera(spec),
            ),
            CapabilitySpec::Depth(spec) => (
                device(DeviceNode::RangeFinder, &spec.sampled),
                Contract::Frame,
                CapabilityBinding::Depth(spec),
            ),
            CapabilitySpec::Gnss(spec) => (
                device(DeviceNode::Gps, &spec),
                Contract::Sample,
                CapabilityBinding::Gnss(spec),
            ),
            CapabilitySpec::Magnetometer(spec) => (
                device(DeviceNode::Compass, &spec),
                Contract::Sample,
                CapabilityBinding::Magnetometer(spec),
            ),
            CapabilitySpec::Lidar(spec) => (
                device(DeviceNode::Lidar, &spec.sampled),
                Contract::Scan,
                CapabilityBinding::Lidar(spec),
            ),
            CapabilitySpec::Mmwave(spec) => (
                device(DeviceNode::Radar, &spec),
                Contract::Scan,
                CapabilityBinding::Mmwave(spec),
            ),
            CapabilitySpec::Microphone(spec) => (
                device(DeviceNode::Microphone, &spec),
                Contract::Frame,
                CapabilityBinding::Microphone(spec),
            ),
            CapabilitySpec::Battery(spec) => {
                let devices = battery_device(&spec);
                let battery = NativeBattery::new(spec);
                (devices, Contract::State, CapabilityBinding::Battery(battery))
            },
        };
        (CapabilityChannel { reference, binding }, BindingPlan { devices, contract, authority })
    }

    /// Whether the graph's inputs since the previous step are to be applied to
    /// this capability. Sensors have nothing to apply: they are read after the
    /// world advances, not before.
    pub fn apply_backlog(&self) -> (applies: bool)
        ensures
            applies == (self.binding is Motor),
    {
        match self.binding {
            CapabilityBinding::Motor(_) => true,
            _ => false,
        }
    }

    /// Whether this capability is to be left quiet when the simulation stops.
    /// Sensors have nothing to quiet.
    pub fn park(&self) -> (parks: bool)
        ensures
            parks == (self.binding is Motor),
    {
        match self.binding {
            CapabilityBinding::Motor(_) => true,
            _ => false,
        }
    }

    /// Re-anchor sensor schedules and clear state derived from the previous
    /// world history before the first sample on a rewound timeline.
    pub fn reset(&mut self, logical_time_ns: u64) -> (result: Result<(), ScheduleFault>)
        ensures
            match old(self).binding.schedule() {
                None => result is Ok && *final(self) == *old(self),
                Some(schedule) => match result {
                    Ok(()) => {
                        &&& logical_time_ns + schedule.period <= u64::MAX
                        &&& final(self).binding.schedule() == Some(
                            ScheduleState::anchored(
                                schedule.period,
                                logical_time_ns as nat + schedule.period,
                            ),
                        )
                        &&& final(self).binding.last() is None
                    },
                    Err(fault) => {
                        &&& logical_time_ns + schedule.period > u64::MAX
                        &&& fault@ == ScheduleFaultView::RangeExhausted
                        &&& final(self).binding.schedule() == Some(schedule)
                        &&& final(self).binding.last() == old(self).binding.last()
                    },
                },
            },
            final(self).reference == old(self).reference,
            final(self).binding.same_settings(old(self).binding),
    {
        match &mut self.binding {
            CapabilityBinding::Encoder(channel) => channel.reset(logical_time_ns),
            CapabilityBinding::Imu(channel) => channel.reset(logical_time_ns),
            CapabilityBinding::Accelerometer(channel) => channel.reset(logical_time_ns),
            CapabilityBinding::Gyroscope(channel) => channel.reset(logical_time_ns),
            CapabilityBinding::Range(channel) => channel.sampled.reset(logical_time_ns),
            CapabilityBinding::Camera(channel) => channel.sampled.reset(logical_time_ns),
            CapabilityBinding::Depth(channel) => channel.sampled.reset(logical_time_ns),
            CapabilityBinding::Gnss(channel) => channel.reset(logical_time_ns),
            CapabilityBinding::Magnetometer(channel) => channel.reset(logical_time_ns),
            CapabilityBinding::Lidar(channel) => channel.sampled.reset(logical_time_ns),
            CapabilityBinding::Mmwave(channel) => channel.reset(logical_time_ns),
            CapabilityBinding::Microphone(channel) => channel.reset(logical_time_ns),
            CapabilityBinding::Battery(channel) => channel.reset(logical_time_ns),
            CapabilityBinding::Motor(_) => Ok(()),
        }
    }

    /// What `step` asks of this capability: to be read and published when the
    /// step is one it publishes on. Actuators produce nothing.
    ///
    /// Simulated sensors read the world at exactly the instant it advanced to,
    /// so their capture is exact rather than uncertain. A battery reports what
    /// the pack is, not what a sensor saw at an instant, so it is state.
    pub fn publish_due(&mut self, step: SensorStep) -> (result: Result<Publication, ScheduleFault>)
        ensures
            match old(self).binding.schedule() {
                None => result == Ok::<Publication, ScheduleFault>(Publication::Nothing)
                    && *final(self) == *old(self),
                Some(schedule) => {
                    &&& match result {
                        Ok(publication) => schedule.due_at(step.time_ns as nat) == Ok::<
                            bool,
                            ScheduleFaultView,
                        >(publication != Publication::Nothing) && (publication
                            != Publication::Nothing ==> publication == if old(
                            self,
                        ).binding is Battery {
                            Publication::State
                        } else {
                            Publication::Sample
                        }),
                        Err(fault) => schedule.due_at(step.time_ns as nat) == Err::<
                            bool,
                            ScheduleFaultView,
                        >(fault@),
                    }
                    &&& final(self).binding.schedule() == Some(
                        schedule.queried_at(step.time_ns as nat),
                    )
                },
            },
            final(self).reference == old(self).reference,
            final(self).binding.same_settings(old(self).binding),
            final(self).binding.last() == old(self).binding.last(),
    {
        let (due, publication) = match &mut self.binding {
            CapabilityBinding::Encoder(channel) => (
                channel.spec.sampled.read_if_due(step),
                Publication::Sample,
            ),
            CapabilityBinding::Imu(channel) => (channel.read_if_due(step), Publication::Sample),
            CapabilityBinding::Accelerometer(channel) => (
                channel.read_if_due(step),
                Publication::Sample,
            ),
            CapabilityBinding::Gyroscope(channel) => (
                channel.read_if_due(step),
                Publication::Sample,
            ),
            CapabilityBinding::Range(channel) => (
                channel.sampled.read_if_due(step),
                Publication::Sample,
            ),
            CapabilityBinding::Camera(channel) => (
                channel.sampled.read_if_due(step),
                Publication::Sample,
            ),
            CapabilityBinding::Depth(channel) => (
                channel.sampled.read_if_due(step),
                Publication::Sample,
            ),
            CapabilityBinding::Gnss(channel) => (channel.read_if_due(step), Publication::Sample),
            CapabilityBinding::Magnetometer(channel) => (
                channel.read_if_due(step),
                Publication::Sample,
            ),
            CapabilityBinding::Lidar(channel) => (
                channel.sampled.read_if_due(step),
                Publication::Sample,
            ),
            CapabilityBinding::Mmwave(channel) => (
                channel.read_if_due(step),
                Publication::Sample,
            ),
            CapabilityBinding::Microphone(channel) => (
                channel.read_if_due(step),
                Publication::Sample,
            ),
            CapabilityBinding::Battery(channel) => (
                channel.spec.sampled.read_if_due(step),
                Publication::State,
            ),
            CapabilityBinding::Motor(_) => return Ok(Publication::Nothing),
        };
        match due {
            Ok(true) => Ok(publication),
            Ok(false) => Ok(Publication::Nothing),
            Err(fault) => Err(fault),
        }
    }
}

/// The devices of a capability are named after it and enabled at its own
/// sampling period: the first carries its very name, and any other its name and
/// more. A motor is not sampled, and the battery sensor is the robot's own and
/// has no name. Only an IMU has more than one device.
pub proof fn law_devices_carry_their_capabilitys_name_and_period(spec: CapabilitySpec, index: int)
    requires
        0 <= index < devices_of(spec).len(),
    ensures
        ({
            let device = devices_of(spec)[index];
            let text = spec.spec_reference().spec_text();
            &&& device.sampling_period_ms == match spec.spec_sampled() {
                Some(sampled) => Some(sampled.sampling_period_ms),
                None => None,
            }
            &&& device.name is None <==> spec is Battery
            &&& !(spec is Battery) && index == 0 ==> device.name == Some(text)
            &&& device.name matches Some(name) ==> name.len() >= text.len() && name.take(
                text.len() as int,
            ) == text
            &&& devices_of(spec).len() == if spec is Imu {
                3nat
            } else {
                1nat
            }
        }),
{
    let text = spec.spec_reference().spec_text();
    assert((text + "__accel"@).take(text.len() as int) =~= text);
    assert((text + "__gyro"@).take(text.len() as int) =~= text);
    assert(text.take(text.len() as int) =~= text);
}

/// The further devices of an IMU are told apart by their suffixes.
pub proof fn law_an_imu_has_an_accelerometer_and_a_gyro_beside_it(sampled: SampledSpec)
    ensures
        ({
            let devices = devices_of(CapabilitySpec::Imu(sampled));
            let text = sampled.reference.spec_text();
            &&& devices[0].node == DeviceNode::InertialUnit
            &&& devices[1].node == DeviceNode::Accelerometer
            &&& devices[1].name->0.skip(text.len() as int) == "__accel"@
            &&& devices[2].node == DeviceNode::Gyro
            &&& devices[2].name->0.skip(text.len() as int) == "__gyro"@
        }),
{
    let text = sampled.reference.spec_text();
    assert((text + "__accel"@).skip(text.len() as int) =~= "__accel"@);
    assert((text + "__gyro"@).skip(text.len() as int) =~= "__gyro"@);
}

/// Each family is served by its own kind of world node, on its own contract:
/// motors take commands, the battery is state, images and sound are frames,
/// lidar and radar are scans, and everything else is a sample.
pub proof fn law_each_family_has_its_node_and_contract(spec: CapabilitySpec)
    ensures
        ({
            let node = devices_of(spec)[0].node;
            let contract = contract_of(spec.spec_kind());
            match spec {
                CapabilitySpec::Motor(_) => node == DeviceNode::Motor && contract
                    == Contract::Command,
                CapabilitySpec::Encoder(_) => node == DeviceNode::PositionSensor && contract
                    == Contract::Sample,
                CapabilitySpec::Imu(_) => node == DeviceNode::InertialUnit && contract
                    == Contract::Sample,
                CapabilitySpec::Accelerometer(_) => node == DeviceNode::Accelerometer && contract
                    == Contract::Sample,
                CapabilitySpec::Gyroscope(_) => node == DeviceNode::Gyro && contract
                    == Contract::Sample,
                CapabilitySpec::Range(_) => node == DeviceNode::DistanceSensor && contract
                    == Contract::Sample,
                CapabilitySpec::Camera(_) => node == DeviceNode::Camera && contract
                    == Contract::Frame,
                CapabilitySpec::Depth(_) => node == DeviceNode::RangeFinder && contract
                    == Contract::Frame,
                CapabilitySpec::Gnss(_) => node == DeviceNode::Gps && contract == Contract::Sample,
                CapabilitySpec::Magnetometer(_) => node == DeviceNode::Compass && contract
                    == Contract::Sample,
                CapabilitySpec::Lidar(_) => node == DeviceNode::Lidar && contract == Contract::Scan,
                CapabilitySpec::Mmwave(_) => node == DeviceNode::Radar && contract
                    == Contract::Scan,
                CapabilitySpec::Microphone(_) => node == DeviceNode::Microphone && contract
                    == Contract::Frame,
                CapabilitySpec::Battery(_) => node == DeviceNode::BatterySensor && contract
                    == Contract::State,
            }
        }),
{
}

/// A capability is bound as it was specified: at its own cadence, with its own
/// settings, and with nothing read yet.
pub proof fn law_a_capability_is_bound_as_specified(spec: CapabilitySpec)
    ensures
        ({
            let binding = CapabilityBinding::fresh(spec);
            &&& binding.sampled() == spec.spec_sampled()
            &&& binding.last() is None
            &&& match spec {
                CapabilitySpec::Motor(motor) => binding matches CapabilityBinding::Motor(bound)
                    && bound.actuator_type == motor.actuator_type && bound.gear_ratio
                    == motor.gear_ratio,
                CapabilitySpec::Encoder(encoder) => binding matches CapabilityBinding::Encoder(
                    bound,
                ) && bound.spec == encoder,
                CapabilitySpec::Imu(sampled) => binding == CapabilityBinding::Imu(sampled),
                CapabilitySpec::Accelerometer(sampled) => binding
                    == CapabilityBinding::Accelerometer(sampled),
                CapabilitySpec::Gyroscope(sampled) => binding == CapabilityBinding::Gyroscope(
                    sampled,
                ),
                CapabilitySpec::Range(range) => binding == CapabilityBinding::Range(range),
                CapabilitySpec::Camera(camera) => binding == CapabilityBinding::Camera(camera),
                CapabilitySpec::Depth(depth) => binding == CapabilityBinding::Depth(depth),
                CapabilitySpec::Gnss(sampled) => binding == CapabilityBinding::Gnss(sampled),
                CapabilitySpec::Magnetometer(sampled) => binding
                    == CapabilityBinding::Magnetometer(sampled),
                CapabilitySpec::Lidar(lidar) => binding == CapabilityBinding::Lidar(lidar),
                CapabilitySpec::Mmwave(sampled) => binding == CapabilityBinding::Mmwave(sampled),
                CapabilitySpec::Microphone(sampled) => binding == CapabilityBinding::Microphone(
                    sampled,
                ),
                CapabilitySpec::Battery(battery) => binding matches CapabilityBinding::Battery(
                    bound,
                ) && bound.spec == battery && !bound.reported_absent,
            }
        }),
{
}

/// Every family but the motor is read on a schedule, which is its own, and only
/// the encoder and the battery remember a reading.
pub proof fn law_every_sensor_is_read_on_its_own_schedule(binding: CapabilityBinding)
    ensures
        match binding {
            CapabilityBinding::Motor(_) => binding.schedule() is None,
            CapabilityBinding::Encoder(e) => binding.schedule() == Some(e.spec.sampled.schedule@),
            CapabilityBinding::Imu(e) => binding.schedule() == Some(e.schedule@),
            CapabilityBinding::Accelerometer(e) => binding.schedule() == Some(e.schedule@),
            CapabilityBinding::Gyroscope(e) => binding.schedule() == Some(e.schedule@),
            CapabilityBinding::Range(e) => binding.schedule() == Some(e.sampled.schedule@),
            CapabilityBinding::Camera(e) => binding.schedule() == Some(e.sampled.schedule@),
            CapabilityBinding::Depth(e) => binding.schedule() == Some(e.sampled.schedule@),
            CapabilityBinding::Gnss(e) => binding.schedule() == Some(e.schedule@),
            CapabilityBinding::Magnetometer(e) => binding.schedule() == Some(e.schedule@),
            CapabilityBinding::Lidar(e) => binding.schedule() == Some(e.sampled.schedule@),
            CapabilityBinding::Mmwave(e) => binding.schedule() == Some(e.schedule@),
            CapabilityBinding::Microphone(e) => binding.schedule() == Some(e.schedule@),
            CapabilityBinding::Battery(e) => binding.schedule() == Some(e.spec.sampled.schedule@),
        },
        match binding {
            CapabilityBinding::Encoder(encoder) => binding.last() == encoder.last,
            CapabilityBinding::Battery(battery) => binding.last() == battery.last,
            _ => binding.last() is None,
        },
{
}

/// Two bindings of the same settings are of one family, for one capability, at
/// one sampling period, and agree on everything that was declared of it.
pub proof fn law_same_settings_are_the_same(own: CapabilityBinding, others: CapabilityBinding)
    requires
        own.same_settings(others),
    ensures
        own is Motor ==> own == others,
        own.sampled() is Some <==> others.sampled() is Some,
        own.sampled() is Some ==> own.sampled()->0.reference == others.sampled()->0.reference
            && own.sampled()->0.sampling_period_ms == others.sampled()->0.sampling_period_ms,
        own matches CapabilityBinding::Encoder(a) ==> others matches CapabilityBinding::Encoder(b)
            && a.spec.gear_ratio == b.spec.gear_ratio,
        own matches CapabilityBinding::Range(a) ==> others matches CapabilityBinding::Range(b)
            && a.min_range_m == b.min_range_m && a.max_range_m == b.max_range_m,
        own matches CapabilityBinding::Camera(a) ==> others matches CapabilityBinding::Camera(b)
            && a.mode == b.mode && a.width == b.width && a.height == b.height,
        own matches CapabilityBinding::Depth(a) ==> others matches CapabilityBinding::Depth(b)
            && a.width == b.width && a.height == b.height,
        own matches CapabilityBinding::Lidar(a) ==> others matches CapabilityBinding::Lidar(b)
            && a.output == b.output,
        own matches CapabilityBinding::Battery(a) ==> others matches CapabilityBinding::Battery(b)
            && a.spec.voltage_v == b.spec.voltage_v && a.spec.capacity_ah == b.spec.capacity_ah
            && a.reported_absent == b.reported_absent,
        own is Imu <==> others is Imu,
        own is Accelerometer <==> others is Accelerometer,
        own is Gyroscope <==> others is Gyroscope,
        own is Gnss <==> others is Gnss,
        own is Magnetometer <==> others is Magnetometer,
        own is Mmwave <==> others is Mmwave,
        own is Microphone <==> others is Microphone,
{
}

} // verus!
