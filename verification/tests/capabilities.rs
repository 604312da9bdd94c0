//! The capability families.

use phoxal_simulator_webots_controller::binary64::Binary64;
use phoxal_simulator_webots_controller::capabilities::battery::{
    BatteryReading, BatterySpec, NativeBattery, State,
};
use phoxal_simulator_webots_controller::capabilities::camera::{
    bgra_to_luma, bgra_to_rgb, CameraMode, CameraSpec, Encoding,
};
use phoxal_simulator_webots_controller::capabilities::depth::{
    meters_to_u16_mm, DepthReading, DepthSpec, Encoding as DepthEncoding, InvalidSamplePolicy,
};
use phoxal_simulator_webots_controller::capabilities::encoder::{
    velocity_radps, EncoderSpec, NativeEncoder,
};
use phoxal_simulator_webots_controller::capabilities::imu::ImuDevices;
use phoxal_simulator_webots_controller::capabilities::lidar::{
    scan_geometry, LidarOutput, LidarReading, LidarSpec, NativeLidar, Point, PointSample,
    RangeLimits, RangeSample, Scan, ScanGeometry,
};
use phoxal_simulator_webots_controller::capabilities::range::{RangeSpec, Sample as RangeReport};
use phoxal_simulator_webots_controller::capabilities::{
    gnss, microphone, CapabilityRef, Reading, SampledSpec, SamplingFault, SensorHealth,
    SensorStep, SimulatedCapability, Window,
};
use phoxal_simulator_webots_controller::sample_schedule::{
    RateReading, SampleSchedule, ScheduleFault,
};

fn bits(value: f64) -> Binary64 {
    Binary64::from_bits(value.to_bits())
}

fn number(value: Binary64) -> f64 {
    f64::from_bits(value.to_bits())
}

fn rate(hz: f64) -> RateReading {
    RateReading {
        hz: bits(hz),
        period_ns: bits(1_000_000_000.0 / hz),
        period_ms: bits(1000.0 / hz),
        text: format!("{}", hz),
    }
}

fn sampled(component: &str, capability: &str) -> SampledSpec {
    let reference = CapabilityRef::new(component, capability);
    SampledSpec::new(reference, 10, &rate(10.0), None).unwrap()
}

fn pack() -> BatterySpec {
    BatterySpec {
        sampled: SampledSpec {
            reference: CapabilityRef::new("pack", "battery"),
            schedule: SampleSchedule::from_source_period_ns(
                "pack.battery",
                10_000_000,
                &rate(100.0),
            )
            .expect("a valid publish rate"),
            sampling_period_ms: 100,
        },
        voltage_v: bits(16.0),
        capacity_ah: bits(10.0),
    }
}

const FULL_ENERGY_J: f64 = 16.0 * 10.0 * 3_600.0;

/// The state of a pack, with the divisions a host does.
fn state(energy_j: f64, previous: Option<(f64, u64)>, time_ns: u64) -> State {
    let previous_reading = previous.map(|(value, time_ns)| Reading {
        value: bits(value),
        time_ns,
    });
    let current_a = previous
        .map(|(previous_energy_j, previous_time_ns)| {
            let elapsed = time_ns.saturating_sub(previous_time_ns) as f64;
            (previous_energy_j - energy_j) * 1_000_000_000.0 / elapsed / 16.0
        })
        .unwrap_or(f64::NAN);
    pack().state(
        bits(energy_j / FULL_ENERGY_J),
        previous_reading,
        time_ns,
        bits(current_a),
    )
}

#[test]
fn charge_ratio_is_energy_over_a_full_pack() {
    assert_eq!(number(state(FULL_ENERGY_J, None, 0).charge_ratio), 1.0);
    assert_eq!(number(state(FULL_ENERGY_J / 2.0, None, 0).charge_ratio), 0.5);
    assert_eq!(number(state(0.0, None, 0).charge_ratio), 0.0);
}

#[test]
fn a_pack_over_its_declared_capacity_still_reads_full() {
    let over = FULL_ENERGY_J * 2.0;
    assert_eq!(number(state(over, None, 0).charge_ratio), 1.0);
    assert_eq!(number(state(-1.0, None, 0).charge_ratio), 0.0);
}

#[test]
fn current_is_the_energy_lost_over_the_window_at_nominal_voltage() {
    // 160 J lost in one second at 16 V is 160 W, so 10 A.
    let state = state(1_000.0, Some((1_160.0, 0)), 1_000_000_000);
    assert!((number(state.current_a) - 10.0).abs() < 1e-3);
    assert_eq!(number(state.voltage_v), 16.0);
}

#[test]
fn a_charging_pack_reports_negative_current() {
    let state = state(1_160.0, Some((1_000.0, 0)), 1_000_000_000);
    assert!(number(state.current_a) < 0.0);
}

#[test]
fn the_first_reading_has_no_window_to_differentiate() {
    assert_eq!(number(state(1_000.0, None, 0).current_a), 0.0);
    assert_eq!(
        number(state(1_000.0, Some((2_000.0, 5)), 5).current_a),
        0.0
    );
}

#[test]
fn a_world_without_a_battery_is_reported_once_and_publishes_nothing() {
    let mut battery = NativeBattery::new(pack());
    let step = SensorStep { time_ns: 1_000 };
    assert_eq!(
        battery.read(bits(-1.0), step),
        BatteryReading::Absent { unreported: true }
    );
    assert_eq!(
        battery.read(bits(f64::NAN), step),
        BatteryReading::Absent { unreported: false }
    );
    assert_eq!(battery.last, None);
    assert_eq!(
        battery.read(bits(5.0), step),
        BatteryReading::Present { window: None }
    );
}

#[test]
fn a_battery_is_differentiated_against_the_last_kept_reading_until_a_rewind() {
    let mut battery = NativeBattery::new(pack());
    battery.settle(bits(1_160.0), SensorStep { time_ns: 100 }, true);
    battery.settle(bits(9_999.0), SensorStep { time_ns: 200 }, false);
    assert_eq!(
        battery.read(bits(1_000.0), SensorStep { time_ns: 350 }),
        BatteryReading::Present {
            window: Some(Window {
                previous: bits(1_160.0),
                elapsed_ns: 250
            })
        }
    );
    assert!(battery.reset(50).is_ok());
    assert_eq!(
        battery.read(bits(1_000.0), SensorStep { time_ns: 400 }),
        BatteryReading::Present { window: None }
    );
    assert!(matches!(
        battery.reset(u64::MAX),
        Err(ScheduleFault::RangeExhausted)
    ));
}

#[test]
fn bgra_to_rgb_swaps_channel_order() {
    assert_eq!(bgra_to_rgb(&[10, 20, 30, 255]), vec![30, 20, 10]);
}

#[test]
fn bgra_to_luma_applies_bt601_weights() {
    assert_eq!(bgra_to_luma(&[10, 20, 30, 255]), vec![21]);
}

#[test]
fn only_whole_pixels_are_converted() {
    let image = [1, 2, 3, 0, 4, 5, 6, 0, 7, 8, 9];
    assert_eq!(bgra_to_rgb(&image), vec![3, 2, 1, 6, 5, 4]);
    assert_eq!(bgra_to_luma(&image).len(), 2);
    assert_eq!(bgra_to_rgb(&[]), Vec::<u8>::new());
    assert_eq!(bgra_to_luma(&[255, 255, 255, 0, 7, 7, 7, 0]), vec![255, 7]);
}

#[test]
fn the_declared_mode_decides_a_frame_encoding() {
    let camera = |mode| CameraSpec {
        sampled: sampled("front_camera", "rgb"),
        mode,
        width: 1,
        height: 1,
    };
    let mono = camera(CameraMode::Mono).read(&[10, 20, 30, 255]);
    assert_eq!((mono.encoding, mono.data), (Encoding::L8, vec![21]));
    let colour = camera(CameraMode::Rgb).read(&[10, 20, 30, 255]);
    assert_eq!(
        (colour.encoding, colour.data),
        (Encoding::Rgb8, vec![30, 20, 10])
    );
    assert_eq!((colour.width, colour.height), (1, 1));
}

fn depth(meters: f32) -> DepthReading {
    DepthReading {
        meters: bits(f64::from(meters)),
        thousandfold: bits(f64::from(meters * 1000.0)),
    }
}

#[test]
fn meters_to_u16_mm_rounds_and_marks_unrepresentable_values_invalid() {
    assert_eq!(meters_to_u16_mm(depth(1.25)), 1250);
    assert_eq!(meters_to_u16_mm(depth(f32::NAN)), 0);
    assert_eq!(meters_to_u16_mm(depth(0.0001)), 0);
    assert_eq!(meters_to_u16_mm(depth(70.0)), 0);
}

#[test]
fn a_depth_image_is_converted_reading_by_reading() {
    let spec = DepthSpec {
        sampled: sampled("front_camera", "depth"),
        width: 2,
        height: 2,
    };
    let frame = spec.read(&[
        depth(0.0005),
        depth(-1.0),
        depth(65.535),
        depth(f32::INFINITY),
    ]);
    assert_eq!(frame.samples_mm, vec![1, 0, 65_535, 0]);
    assert_eq!((frame.width, frame.height), (2, 2));
    assert_eq!(frame.encoding, DepthEncoding::U16Millimeters);
    assert_eq!(frame.invalid_samples, InvalidSamplePolicy::ZeroIsInvalid);
}

#[test]
fn velocity_is_position_delta_over_time_delta() {
    let quotient = (2.0 - 1.0) * 1_000_000_000.0 / (2_000_000_000u64 - 1_000_000_000) as f64;
    assert_eq!(
        number(velocity_radps(bits(quotient), 2_000_000_000, 1_000_000_000)),
        1.0
    );
    assert_eq!(number(velocity_radps(bits(5.0), 7, 7)), 0.0);
    assert_eq!(number(velocity_radps(bits(5.0), 6, 7)), 0.0);
}

#[test]
fn an_encoder_differentiates_between_published_readings() {
    let mut encoder = NativeEncoder::new(EncoderSpec {
        sampled: sampled("left_drive", "encoder"),
        gear_ratio: bits(2.0),
    });
    let first = SensorStep { time_ns: 100 };
    assert_eq!(encoder.window(first), None);
    let sample = encoder.read(bits(1.0), bits(9.0), first);
    assert_eq!(sample.position_rad, bits(1.0));
    assert_eq!(sample.velocity_radps, bits(0.0));
    encoder.settle(bits(1.0), first, true);
    let second = SensorStep { time_ns: 300 };
    assert_eq!(
        encoder.window(second),
        Some(Window {
            previous: bits(1.0),
            elapsed_ns: 200
        })
    );
    assert_eq!(
        encoder.read(bits(2.0), bits(9.0), second).velocity_radps,
        bits(9.0)
    );
    assert!(encoder.reset(0).is_ok());
    assert_eq!(encoder.window(SensorStep { time_ns: 900 }), None);
}

#[test]
fn a_refused_reading_starts_no_window() {
    let mut encoder = NativeEncoder::new(EncoderSpec {
        sampled: sampled("left_drive", "encoder"),
        gear_ratio: bits(2.0),
    });
    // Nothing was published yet, so a refused reading leaves nothing behind.
    let first = SensorStep { time_ns: 50 };
    let _ = encoder.read(bits(f64::NAN), bits(0.0), first);
    encoder.settle(bits(f64::NAN), first, false);
    assert_eq!(encoder.window(SensorStep { time_ns: 100 }), None);

    let published = SensorStep { time_ns: 100 };
    let _ = encoder.read(bits(1.0), bits(0.0), published);
    encoder.settle(bits(1.0), published, true);
    let refused = SensorStep { time_ns: 200 };
    let sample = encoder.read(bits(f64::INFINITY), bits(7.0), refused);
    assert_eq!(sample.position_rad, bits(f64::INFINITY));
    encoder.settle(sample.position_rad, refused, false);

    let next = SensorStep { time_ns: 300 };
    assert_eq!(
        encoder.window(next),
        Some(Window {
            previous: bits(1.0),
            elapsed_ns: 200
        })
    );
    assert_eq!(
        encoder.read(bits(2.0), bits(9.0), next).velocity_radps,
        bits(9.0)
    );
}

#[test]
fn geometry_spreads_the_field_of_view_across_the_rays() {
    let fov = std::f64::consts::PI;
    let gaps = scan_geometry(bits(fov), 3).expect("a 3-ray sweep has geometry");
    let lidar = NativeLidar {
        geometry: Some(ScanGeometry {
            angle_min_rad: bits(-fov / 2.0),
            angle_increment_rad: bits(fov / f64::from(gaps)),
        }),
        limits: RangeLimits {
            min_m: bits(0.1),
            max_m: bits(30.0),
        },
    };
    let Scan::Ranges {
        geometry: Some(geometry),
        ..
    } = lidar.read(&LidarReading::RangeImage(vec![]))
    else {
        panic!("a range image becomes a scan with geometry");
    };
    assert_eq!(
        number(geometry.angle_min_rad) as f32,
        -(std::f64::consts::PI / 2.0) as f32
    );
    assert_eq!(
        number(geometry.angle_increment_rad) as f32,
        (std::f64::consts::PI / 2.0) as f32
    );
}

#[test]
fn a_single_ray_or_absent_sweep_reports_no_geometry() {
    assert!(scan_geometry(bits(std::f64::consts::PI), 1).is_none());
    assert!(scan_geometry(bits(0.0), 8).is_none());
    assert!(scan_geometry(bits(f64::NAN), 8).is_none());
}

#[test]
fn a_scan_marks_what_was_not_seen_and_counts_the_rest() {
    let geometry = ScanGeometry {
        angle_min_rad: bits(-1.0),
        angle_increment_rad: bits(0.5),
    };
    let limits = RangeLimits {
        min_m: bits(0.1),
        max_m: bits(30.0),
    };
    let lidar = NativeLidar {
        geometry: Some(geometry),
        limits,
    };
    let image = LidarReading::RangeImage(vec![bits(1.5), bits(f64::INFINITY), bits(2.5)]);
    assert_eq!(
        lidar.read(&image),
        Scan::Ranges {
            ranges: vec![
                RangeSample::Valid(bits(1.5)),
                RangeSample::Invalid,
                RangeSample::Valid(bits(2.5))
            ],
            geometry: Some(geometry),
            limits,
            valid_points: 2,
            health: SensorHealth::Nominal,
        }
    );
    let seen = Point {
        x: bits(1.0),
        y: bits(2.0),
        z: bits(3.0),
    };
    let unseen = Point {
        z: bits(f64::NAN),
        ..seen
    };
    assert_eq!(
        lidar.read(&LidarReading::PointCloud(vec![unseen, seen])),
        Scan::Points {
            points: vec![PointSample::Invalid, PointSample::Valid(seen)],
            limits,
            valid_points: 1,
            health: SensorHealth::Nominal,
        }
    );
}

#[test]
fn only_a_point_output_opens_a_point_cloud() {
    let lidar = |output| LidarSpec {
        sampled: sampled("mast", "lidar"),
        output,
    };
    assert!(lidar(LidarOutput::Points).point_cloud());
    assert!(!lidar(LidarOutput::Ranges).point_cloud());
}

#[test]
fn an_imu_binds_three_named_nodes() {
    let devices = ImuDevices::new(&CapabilityRef::new("body", "imu"));
    assert_eq!(devices.inertial_unit, "body.imu");
    assert_eq!(devices.accelerometer, "body.imu__accel");
    assert_eq!(devices.gyro, "body.imu__gyro");
}

#[test]
fn a_distance_is_reported_within_the_declared_limits() {
    let spec = RangeSpec {
        sampled: sampled("bumper", "range"),
        min_range_m: bits(0.1),
        max_range_m: bits(4.0),
    };
    assert_eq!(
        spec.read(bits(1.5)),
        RangeReport {
            distance_m: bits(1.5),
            min_m: bits(0.1),
            max_m: bits(4.0),
            valid: true,
            confidence: None,
            health: SensorHealth::Nominal,
        }
    );
}

#[test]
fn a_position_carries_no_invented_covariance() {
    let sample = gnss::read([bits(48.1), bits(11.5), bits(520.0)]);
    assert_eq!(sample.latitude, bits(48.1));
    assert_eq!(sample.longitude, bits(11.5));
    assert_eq!(sample.altitude, bits(520.0));
    assert_eq!(sample.covariance, [bits(0.0); 9]);
}

#[test]
fn a_silent_window_publishes_no_frame() {
    assert_eq!(microphone::read(vec![]), None);
    assert_eq!(microphone::read(vec![1, 2]), Some(vec![1, 2]));
}

#[test]
fn webots_sampling_period_is_quantized_up_to_the_world_grid() {
    assert_eq!(SampledSpec::sampling_period_ms(&rate(30.0)).unwrap(), 33);
    assert_eq!(
        SampledSpec::quantized_sampling_period_ms(33, 10).unwrap(),
        40
    );
    assert_eq!(
        SampledSpec::quantized_sampling_period_ms(50, 10).unwrap(),
        50
    );
}

#[test]
fn quantized_device_refresh_sets_the_effective_publish_cadence() {
    let reference = CapabilityRef::new("front_camera", "rgb");
    assert_eq!(reference.text(), "front_camera.rgb");
    let spec = SampledSpec::new(reference, 10, &rate(30.0), None).unwrap();
    assert_eq!(spec.sampling_period_ms, 40);
    assert_eq!(spec.schedule.period_ns(), 40_000_000);

    let mut schedule = spec.schedule;
    assert!(!schedule.is_due_at(0).unwrap());
    assert!(!schedule.is_due_at(39_999_999).unwrap());
    assert!(schedule.is_due_at(40_000_000).unwrap());
}

#[test]
fn a_faster_device_preserves_the_requested_publish_cadence() {
    let reference = CapabilityRef::new("front_camera", "rgb");
    let simulated = SimulatedCapability::Camera(rate(100.0));
    let spec = SampledSpec::new(reference, 10, &rate(30.0), Some(&simulated)).unwrap();
    assert_eq!(spec.sampling_period_ms, 10);
    assert_eq!(spec.schedule.period_ns(), 33_333_333);
}

#[test]
fn the_first_deadline_waits_for_the_device_refresh() {
    let reference = CapabilityRef::new("front_camera", "rgb");
    let spec = SampledSpec::new(reference, 10, &rate(20.0), None).unwrap();
    let mut schedule = spec.schedule;
    assert!(!schedule.is_due_at(0).unwrap());
    assert!(schedule.is_due_at(50_000_000).unwrap());
}

#[test]
fn a_capability_that_describes_no_cadence_is_refused() {
    let resolve = |basic, publish, simulated: Option<SimulatedCapability>| {
        SampledSpec::new(
            CapabilityRef::new("front_camera", "rgb"),
            basic,
            &rate(publish),
            simulated.as_ref(),
        )
        .unwrap_err()
    };
    let cases = [
        (
            resolve(0, 30.0, None),
            SamplingFault::BasicTimeStepNotPositive,
            "Webots basicTimeStep must be > 0",
        ),
        (
            resolve(10, f64::NAN, None),
            SamplingFault::RateNotPositive,
            "sampling_period_hz must be finite and > 0",
        ),
        (
            resolve(10, 1e-9, None),
            SamplingFault::PeriodTooLong,
            "sampling period does not fit in Webots milliseconds",
        ),
    ];
    for (fault, expected, text) in cases {
        assert_eq!(fault, expected);
        assert_eq!(fault.message(), text);
    }
    let fault = SampledSpec::quantized_sampling_period_ms(i32::MAX, i32::MAX - 1).unwrap_err();
    assert_eq!(fault, SamplingFault::GridPeriodTooLong);
    assert_eq!(
        fault.message(),
        "Webots sampling period does not fit in milliseconds"
    );
    let fault = SampledSpec::quantized_sampling_period_ms(-1, 10).unwrap_err();
    assert_eq!(fault, SamplingFault::PeriodNotPositive);
    assert_eq!(fault.message(), "Webots sampling period must be positive");
    let modelled = SimulatedCapability::Camera(rate(100.0));
    let fault = resolve(10, -1.0, Some(modelled));
    assert_eq!(
        fault.message(),
        "capability 'front_camera.rgb' publish_rate_hz must be finite and > 0"
    );
}

#[test]
fn only_sampled_families_carry_a_rate() {
    let sampled = SimulatedCapability::Lidar(rate(5.0));
    assert_eq!(
        SampledSpec::simulated_sampling_hz(&sampled).map(|rate| rate.hz),
        Some(bits(5.0))
    );
    for unsampled in [
        SimulatedCapability::Motor,
        SimulatedCapability::EmergencyStop,
        SimulatedCapability::Speaker,
        SimulatedCapability::Battery,
        SimulatedCapability::Led,
    ] {
        assert!(SampledSpec::simulated_sampling_hz(&unsampled).is_none());
    }
}

#[test]
fn a_very_fast_rate_still_samples_each_millisecond() {
    assert_eq!(SampledSpec::sampling_period_ms(&rate(1e6)).unwrap(), 1);
    assert_eq!(SampledSpec::quantized_sampling_period_ms(0, 10).unwrap(), 0);
}

#[test]
fn a_device_is_read_on_its_deadlines_and_re_anchored_on_a_rewind() {
    let mut spec = sampled("front_camera", "rgb");
    assert!(!spec.read_if_due(SensorStep { time_ns: 0 }).unwrap());
    assert!(spec
        .read_if_due(SensorStep {
            time_ns: 100_000_000
        })
        .unwrap());
    assert!(spec.reset(30).is_ok());
    assert!(!spec
        .read_if_due(SensorStep {
            time_ns: 100_000_029
        })
        .unwrap());
    assert!(spec
        .read_if_due(SensorStep {
            time_ns: 100_000_030
        })
        .unwrap());
    assert!(matches!(
        spec.reset(u64::MAX),
        Err(ScheduleFault::RangeExhausted)
    ));
}
