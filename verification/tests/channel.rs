//! The catalog of a robot, and how each capability is bound.

use phoxal_model::component::capability::CapabilityKind as ModelKind;
use phoxal_model::identity::CapabilityRef as ModelRef;
use phoxal_simulator_webots_controller::binary64::Binary64;
use phoxal_simulator_webots_controller::capabilities::camera::CameraMode;
use phoxal_simulator_webots_controller::capabilities::lidar::LidarOutput;
use phoxal_simulator_webots_controller::capabilities::motor::MotorCommand;
use phoxal_simulator_webots_controller::capabilities::{
    CapabilityRef, SamplingFault, SensorStep, SimulatedCapability,
};
use phoxal_simulator_webots_controller::catalog::{
    CapabilityCatalog, CapabilityKind, CapabilitySpec, CatalogFault, Declaration,
    DeclaredCapability,
};
use phoxal_simulator_webots_controller::channel::{
    BindingPlan, CapabilityBinding, CapabilityChannel, Contract, DeviceNode, MotorAuthority,
    Publication, MOTOR_SOURCE_SILENCE_MS,
};
use phoxal_simulator_webots_controller::sample_schedule::{RateReading, ScheduleFault};

fn bits(value: f64) -> Binary64 {
    Binary64::from_bits(value.to_bits())
}

fn rate(hz: f64) -> RateReading {
    RateReading {
        hz: bits(hz),
        period_ns: bits(1_000_000_000.0 / hz),
        period_ms: bits(1000.0 / hz),
        text: format!("{}", hz),
    }
}

fn declared(capability: &str, declaration: Declaration) -> DeclaredCapability {
    DeclaredCapability {
        reference: CapabilityRef::new("rover", capability),
        declaration,
        simulated: None,
    }
}

fn battery(capability: &str) -> DeclaredCapability {
    declared(
        capability,
        Declaration::Battery {
            publish_rate: rate(1.0),
            voltage_v: bits(16.0),
            capacity_ah: bits(10.0),
        },
    )
}

fn motor(capability: &str) -> DeclaredCapability {
    declared(
        capability,
        Declaration::Motor {
            command: MotorCommand::Velocity,
            gear_ratio: bits(2.0),
        },
    )
}

/// One capability of every kind that is simulated.
fn every_kind() -> Vec<DeclaredCapability> {
    let publish_rate = rate(10.0);
    vec![
        motor("motor"),
        declared(
            "encoder",
            Declaration::Encoder {
                publish_rate: publish_rate.clone(),
                gear_ratio: bits(2.0),
            },
        ),
        declared(
            "accelerometer",
            Declaration::Accelerometer {
                publish_rate: publish_rate.clone(),
            },
        ),
        declared(
            "gyroscope",
            Declaration::Gyroscope {
                publish_rate: publish_rate.clone(),
            },
        ),
        declared(
            "magnetometer",
            Declaration::Magnetometer {
                publish_rate: publish_rate.clone(),
            },
        ),
        declared(
            "imu",
            Declaration::Imu {
                publish_rate: publish_rate.clone(),
            },
        ),
        declared(
            "gnss",
            Declaration::Gnss {
                publish_rate: publish_rate.clone(),
            },
        ),
        declared(
            "camera",
            Declaration::Camera {
                publish_rate: publish_rate.clone(),
                mode: CameraMode::Rgb,
                width: 4,
                height: 3,
            },
        ),
        declared(
            "depth",
            Declaration::Depth {
                publish_rate: publish_rate.clone(),
                width: 4,
                height: 3,
            },
        ),
        declared("emergency_stop", Declaration::EmergencyStop),
        declared(
            "range",
            Declaration::Range {
                publish_rate: publish_rate.clone(),
                min_range_m: bits(0.1),
                max_range_m: bits(4.0),
            },
        ),
        declared(
            "lidar",
            Declaration::Lidar {
                publish_rate: publish_rate.clone(),
                output: LidarOutput::Points,
            },
        ),
        declared(
            "mmwave",
            Declaration::Mmwave {
                publish_rate: publish_rate.clone(),
            },
        ),
        declared("microphone", Declaration::Microphone { publish_rate }),
        battery("battery"),
    ]
}

#[test]
fn every_kind_but_an_emergency_stop_is_simulated_in_order() {
    let catalog = CapabilityCatalog::from_robot(&every_kind(), 10).unwrap();
    let names: Vec<&str> = catalog.specs.iter().map(|spec| spec.kind().as_str()).collect();
    assert_eq!(
        names,
        [
            "motor",
            "encoder",
            "accelerometer",
            "gyroscope",
            "magnetometer",
            "imu",
            "gnss",
            "camera",
            "depth",
            "range",
            "lidar",
            "mmwave",
            "microphone",
            "battery"
        ]
    );
    for spec in &catalog.specs {
        assert_eq!(
            spec.reference().text(),
            format!("rover.{}", spec.kind().as_str())
        );
        assert_eq!(
            spec.sampled().is_none(),
            spec.kind() == CapabilityKind::Motor
        );
    }
}

#[test]
fn unsimulated_kinds_have_names_too() {
    assert_eq!(CapabilityKind::EmergencyStop.as_str(), "emergency_stop");
    assert_eq!(CapabilityKind::Speaker.as_str(), "speaker");
    assert_eq!(CapabilityKind::Led.as_str(), "led");
}

#[test]
fn kinds_are_named_as_the_model_names_them() {
    let kinds = [
        (CapabilityKind::Motor, ModelKind::Motor),
        (CapabilityKind::Encoder, ModelKind::Encoder),
        (CapabilityKind::Accelerometer, ModelKind::Accelerometer),
        (CapabilityKind::Gyroscope, ModelKind::Gyroscope),
        (CapabilityKind::Magnetometer, ModelKind::Magnetometer),
        (CapabilityKind::Imu, ModelKind::Imu),
        (CapabilityKind::Gnss, ModelKind::Gnss),
        (CapabilityKind::Camera, ModelKind::Camera),
        (CapabilityKind::Depth, ModelKind::Depth),
        (CapabilityKind::EmergencyStop, ModelKind::EmergencyStop),
        (CapabilityKind::Range, ModelKind::Range),
        (CapabilityKind::Lidar, ModelKind::Lidar),
        (CapabilityKind::Mmwave, ModelKind::Mmwave),
        (CapabilityKind::Microphone, ModelKind::Microphone),
        (CapabilityKind::Speaker, ModelKind::Speaker),
        (CapabilityKind::Battery, ModelKind::Battery),
        (CapabilityKind::Led, ModelKind::Led),
    ];
    for (kind, model) in kinds {
        assert_eq!(kind.as_str(), model.as_str());
    }
    let reference: ModelRef = "front_camera.rgb".parse().unwrap();
    assert_eq!(
        CapabilityRef::new("front_camera", "rgb").text(),
        reference.to_string()
    );
}

#[test]
fn an_effect_nobody_owns_refuses_the_robot() {
    for effect in [Declaration::Led, Declaration::Speaker] {
        let robot = vec![motor("motor"), declared("effect", effect)];
        assert_eq!(
            CapabilityCatalog::from_robot(&robot, 10).unwrap_err(),
            CatalogFault::Unowned { index: 1 }
        );
    }
}

#[test]
fn a_second_battery_refuses_the_robot() {
    let robot = vec![battery("first"), motor("motor"), battery("second")];
    assert_eq!(
        CapabilityCatalog::from_robot(&robot, 10).unwrap_err(),
        CatalogFault::SecondBattery { index: 2 }
    );
}

#[test]
fn a_cadence_that_cannot_be_served_refuses_the_robot() {
    let robot = vec![
        motor("motor"),
        declared(
            "gnss",
            Declaration::Gnss {
                publish_rate: rate(0.0),
            },
        ),
        declared("led", Declaration::Led),
    ];
    assert_eq!(
        CapabilityCatalog::from_robot(&robot, 10).unwrap_err(),
        CatalogFault::Sampling {
            index: 1,
            fault: SamplingFault::RateNotPositive
        }
    );
}

#[test]
fn the_world_decides_how_fast_a_device_samples() {
    let mut robot = vec![declared(
        "gnss",
        Declaration::Gnss {
            publish_rate: rate(10.0),
        },
    )];
    robot[0].simulated = Some(SimulatedCapability::Gnss(rate(50.0)));
    let catalog = CapabilityCatalog::from_robot(&robot, 10).unwrap();
    let sampled = catalog.specs[0].sampled().unwrap();
    assert_eq!(sampled.sampling_period_ms, 20);
    assert_eq!(sampled.schedule.period_ns(), 100_000_000);
}

fn bound() -> Vec<(CapabilityChannel, BindingPlan)> {
    CapabilityCatalog::from_robot(&every_kind(), 10)
        .unwrap()
        .specs
        .into_iter()
        .map(CapabilityChannel::bind)
        .collect()
}

#[test]
fn each_kind_is_bound_to_its_nodes_and_contract() {
    let plans: Vec<(Vec<DeviceNode>, Contract)> = bound()
        .iter()
        .map(|(_, plan)| {
            (
                plan.devices.iter().map(|device| device.node).collect(),
                plan.contract,
            )
        })
        .collect();
    assert_eq!(
        plans,
        [
            (vec![DeviceNode::Motor], Contract::Command),
            (vec![DeviceNode::PositionSensor], Contract::Sample),
            (vec![DeviceNode::Accelerometer], Contract::Sample),
            (vec![DeviceNode::Gyro], Contract::Sample),
            (vec![DeviceNode::Compass], Contract::Sample),
            (
                vec![
                    DeviceNode::InertialUnit,
                    DeviceNode::Accelerometer,
                    DeviceNode::Gyro
                ],
                Contract::Sample
            ),
            (vec![DeviceNode::Gps], Contract::Sample),
            (vec![DeviceNode::Camera], Contract::Frame),
            (vec![DeviceNode::RangeFinder], Contract::Frame),
            (vec![DeviceNode::DistanceSensor], Contract::Sample),
            (vec![DeviceNode::Lidar], Contract::Scan),
            (vec![DeviceNode::Radar], Contract::Scan),
            (vec![DeviceNode::Microphone], Contract::Frame),
            (vec![DeviceNode::BatterySensor], Contract::State),
        ]
    );
}

#[test]
fn devices_are_named_by_their_capability() {
    for (channel, plan) in bound() {
        let name = channel.reference.text();
        match channel.binding {
            CapabilityBinding::Battery(_) => {
                assert_eq!(plan.devices[0].name, None);
                assert_eq!(plan.devices[0].sampling_period_ms, Some(1000));
            }
            CapabilityBinding::Motor(_) => {
                assert_eq!(plan.devices[0].name, Some(name));
                assert_eq!(plan.devices[0].sampling_period_ms, None);
            }
            CapabilityBinding::Imu(_) => {
                let names: Vec<Option<String>> =
                    plan.devices.into_iter().map(|device| device.name).collect();
                assert_eq!(
                    names,
                    [
                        Some("rover.imu".to_owned()),
                        Some("rover.imu__accel".to_owned()),
                        Some("rover.imu__gyro".to_owned())
                    ]
                );
            }
            _ => {
                assert_eq!(plan.devices[0].name, Some(name));
                assert_eq!(plan.devices[0].sampling_period_ms, Some(100));
            }
        }
    }
}

#[test]
fn only_motors_take_inputs_and_are_quieted() {
    for (channel, _) in bound() {
        let is_motor = matches!(channel.binding, CapabilityBinding::Motor(_));
        assert_eq!(channel.apply_backlog(), is_motor);
        assert_eq!(channel.park(), is_motor);
    }
}

#[test]
fn sensors_are_read_on_their_deadlines_and_a_battery_is_state() {
    for (mut channel, _) in bound() {
        let early = SensorStep { time_ns: 1 };
        let late = SensorStep {
            time_ns: 1_000_000_000,
        };
        assert_eq!(channel.publish_due(early).unwrap(), Publication::Nothing);
        let expected = match channel.binding {
            CapabilityBinding::Motor(_) => Publication::Nothing,
            CapabilityBinding::Battery(_) => Publication::State,
            _ => Publication::Sample,
        };
        assert_eq!(channel.publish_due(late).unwrap(), expected);
        assert_eq!(channel.publish_due(late).unwrap(), Publication::Nothing);
    }
}

#[test]
fn a_rewind_re_anchors_every_sensor() {
    for (mut channel, _) in bound() {
        let is_motor = matches!(channel.binding, CapabilityBinding::Motor(_));
        let late = SensorStep {
            time_ns: 5_000_000_000,
        };
        let _ = channel.publish_due(late).unwrap();
        assert!(channel.reset(7).is_ok());
        let due = SensorStep {
            time_ns: 1_000_000_007,
        };
        assert_eq!(
            channel.publish_due(due).unwrap() == Publication::Nothing,
            is_motor
        );
        assert_eq!(
            matches!(channel.reset(u64::MAX), Err(ScheduleFault::RangeExhausted)),
            !is_motor
        );
    }
}

#[test]
fn a_bound_capability_keeps_what_was_declared_of_it() {
    let specs = CapabilityCatalog::from_robot(&every_kind(), 10).unwrap().specs;
    for spec in specs {
        let kind = spec.kind();
        match spec {
            CapabilitySpec::Motor(spec) => {
                assert_eq!(spec.actuator_type, MotorCommand::Velocity);
                assert_eq!(spec.gear_ratio, bits(2.0));
            }
            CapabilitySpec::Encoder(spec) => assert_eq!(spec.gear_ratio, bits(2.0)),
            CapabilitySpec::Camera(spec) => {
                assert_eq!((spec.mode, spec.width, spec.height), (CameraMode::Rgb, 4, 3));
            }
            CapabilitySpec::Depth(spec) => assert_eq!((spec.width, spec.height), (4, 3)),
            CapabilitySpec::Range(spec) => {
                assert_eq!((spec.min_range_m, spec.max_range_m), (bits(0.1), bits(4.0)));
            }
            CapabilitySpec::Lidar(spec) => assert_eq!(spec.output, LidarOutput::Points),
            CapabilitySpec::Battery(spec) => {
                assert_eq!((spec.voltage_v, spec.capacity_ah), (bits(16.0), bits(10.0)));
            }
            _ => assert_ne!(kind, CapabilityKind::Motor),
        }
    }
}

#[test]
fn motors_answer_to_drive_alone() {
    for (channel, plan) in bound() {
        let expected = match channel.binding {
            CapabilityBinding::Motor(_) => Some(MotorAuthority {
                participant: "drive",
                label: "component/motor/command",
                silence_ms: 150,
                lease_limit_ms: None,
            }),
            _ => None,
        };
        assert_eq!(plan.authority, expected);
    }
    assert_eq!(MOTOR_SOURCE_SILENCE_MS, 150);
}
