//! Publish schedules on a logical timeline.

use phoxal_simulator_webots_controller::binary64::Binary64;
use phoxal_simulator_webots_controller::sample_schedule::{
    MissedTickPolicy, RateName, RateReading, SampleSchedule, ScheduleFault,
};

fn rate(hz: f64) -> RateReading {
    RateReading {
        hz: Binary64::from_bits(hz.to_bits()),
        period_ns: Binary64::from_bits((1_000_000_000.0 / hz).to_bits()),
        period_ms: Binary64::from_bits((1000.0 / hz).to_bits()),
        text: format!("{}", hz),
    }
}

fn schedule(name: &str, step_hz: f64, publish_rate_hz: f64) -> SampleSchedule {
    match SampleSchedule::new(name, &rate(step_hz), &rate(publish_rate_hz)) {
        Ok(schedule) => schedule,
        Err(fault) => panic!("{}", fault.message()),
    }
}

fn due(schedule: &mut SampleSchedule, time_ns: u64) -> bool {
    match schedule.is_due_at(time_ns) {
        Ok(due) => due,
        Err(fault) => panic!("{}", fault.message()),
    }
}

#[test]
fn a_rate_at_the_source_cadence_publishes_on_every_source_step() {
    let mut schedule = schedule("imu", 100.0, 100.0);
    assert_eq!(schedule.period_ns(), 10_000_000);
    assert!((0..5).all(|step| due(&mut schedule, step * 10_000_000)));
}

#[test]
fn a_slower_exact_rate_keeps_its_nanosecond_phase() {
    let mut schedule = schedule("range", 100.0, 25.0);
    assert_eq!(schedule.period_ns(), 40_000_000);
    assert_eq!(
        (0..9)
            .map(|step| due(&mut schedule, step * 10_000_000))
            .collect::<Vec<_>>(),
        [true, false, false, false, true, false, false, false, true]
    );
}

#[test]
fn thirty_hz_on_a_hundred_hz_source_does_not_round_to_a_divisor() {
    let mut schedule = schedule("gnss", 100.0, 30.0);
    assert_eq!(schedule.period_ns(), 33_333_333);

    let due_steps = (0..31)
        .filter(|step| due(&mut schedule, *step * 10_000_000))
        .collect::<Vec<_>>();
    assert_eq!(due_steps, [0, 4, 7, 10, 14, 17, 20, 24, 27, 30]);
}

#[test]
fn common_rates_keep_their_long_run_cadence() {
    for (rate_hz, expected_samples) in [(10.0, 101), (20.0, 201), (30.0, 301), (50.0, 501)] {
        let mut schedule = schedule("camera", 100.0, rate_hz);
        let samples = (0..=1_000)
            .filter(|step| due(&mut schedule, *step * 10_000_000))
            .count();
        assert_eq!(samples, expected_samples, "{rate_hz} Hz");
    }
}

#[test]
fn missed_deadlines_are_skipped_under_the_shared_policy() {
    let mut schedule = schedule("camera", 100.0, 20.0);
    assert_eq!(schedule.missed_tick_policy(), MissedTickPolicy::Skip);
    assert!(due(&mut schedule, 0));
    // The 50 ms and 100 ms deadlines were missed; one observation is
    // emitted now, and the phase resumes at 150 ms.
    assert!(due(&mut schedule, 120_000_000));
    assert!(!due(&mut schedule, 130_000_000));
    assert!(due(&mut schedule, 150_000_000));
}

#[test]
fn reset_and_reanchor_start_a_fresh_phase() {
    let mut schedule = schedule("imu", 100.0, 25.0);
    assert!(due(&mut schedule, 0));
    assert!(!due(&mut schedule, 10_000_000));

    schedule.reanchor(100_000_000);
    assert!(!due(&mut schedule, 90_000_000));
    assert!(due(&mut schedule, 100_000_000));
    assert!(!due(&mut schedule, 110_000_000));
    assert!(due(&mut schedule, 140_000_000));

    schedule.reset();
    assert!(due(&mut schedule, 0));
}

#[test]
fn exhausted_deadline_is_a_checked_terminal_error_and_reset_recovers() {
    let mut schedule = schedule("camera", 100.0, 100.0);
    schedule.reanchor(u64::MAX);
    let error = schedule
        .is_due_at(u64::MAX)
        .expect_err("advancing beyond u64 nanoseconds must be checked");
    assert_eq!(
        error.message(),
        "sample schedule exhausted its logical-time range"
    );
    assert!(schedule.is_due_at(u64::MAX).is_err());
    schedule.reset();
    assert!(due(&mut schedule, 0));
}

#[test]
fn non_positive_non_finite_and_too_fast_rates_are_rejected() {
    for publish_rate_hz in [0.0, -1.0, f64::NAN, f64::INFINITY] {
        let error = SampleSchedule::new("camera", &rate(100.0), &rate(publish_rate_hz))
            .expect_err("invalid publish rate must be rejected")
            .message();
        assert_eq!(
            error,
            "capability 'camera' publish_rate_hz must be finite and > 0"
        );
    }

    let error = SampleSchedule::new("camera", &rate(100.0), &rate(100.1))
        .expect_err("a producer cannot publish faster than its source")
        .message();
    assert_eq!(
        error,
        "capability 'camera' publish_rate_hz (100.1) must not exceed source step_hz (100)"
    );
}

#[test]
fn invalid_source_rate_is_rejected() {
    let error = SampleSchedule::new("camera", &rate(f64::NAN), &rate(10.0))
        .expect_err("invalid source rate must be rejected")
        .message();
    assert_eq!(error, "capability 'camera' step_hz must be finite and > 0");
}

#[test]
fn an_effective_source_period_slower_than_the_request_sets_the_schedule() {
    let schedule =
        SampleSchedule::from_source_period_ns("camera", 40_000_000, &rate(30.0)).unwrap();
    assert_eq!(schedule.period_ns(), 40_000_000);
}

#[test]
fn a_faster_source_keeps_the_requested_period() {
    let schedule =
        SampleSchedule::from_source_period_ns("camera", 10_000_000, &rate(30.0)).unwrap();
    assert_eq!(schedule.period_ns(), 33_333_333);
}

#[test]
fn a_source_without_a_period_is_rejected() {
    let fault = SampleSchedule::from_source_period_ns("camera", 0, &rate(30.0)).unwrap_err();
    assert_eq!(
        fault,
        ScheduleFault::SourcePeriodZero {
            capability_id: "camera".to_owned()
        }
    );
    assert_eq!(
        fault.message(),
        "capability 'camera' source period must be > 0 ns"
    );
}

#[test]
fn a_period_outside_the_nanosecond_domain_is_rejected() {
    let slow = SampleSchedule::from_source_period_ns("camera", 1, &rate(1e-11)).unwrap_err();
    assert_eq!(
        slow,
        ScheduleFault::PeriodTooLong {
            capability_id: "camera".to_owned(),
            name: RateName::PublishRateHz
        }
    );
    assert_eq!(
        slow.message(),
        "capability 'camera' publish_rate_hz period does not fit in nanoseconds"
    );
    let overflowing = SampleSchedule::from_source_period_ns("camera", 1, &rate(1e-300));
    assert!(matches!(
        overflowing,
        Err(ScheduleFault::PeriodTooLong { .. })
    ));
    let fast = SampleSchedule::new("camera", &rate(3e9), &rate(10.0)).unwrap_err();
    assert_eq!(
        fast.message(),
        "capability 'camera' step_hz period must be at least 1 ns"
    );
    // Half a nanosecond rounds away from zero, to one.
    let just_fits = SampleSchedule::from_source_period_ns("camera", 1, &rate(2e9)).unwrap();
    assert_eq!(just_fits.period_ns(), 1);
}

#[test]
fn a_reanchor_beyond_the_domain_leaves_the_schedule_alone() {
    let mut schedule = schedule("camera", 100.0, 100.0);
    assert!(matches!(
        schedule.reanchor_after(u64::MAX, 1),
        Err(ScheduleFault::RangeExhausted)
    ));
    assert!(due(&mut schedule, 0));
    assert!(schedule.reanchor_after(5, 7).is_ok());
    assert!(!due(&mut schedule, 11));
    assert!(due(&mut schedule, 12));
    assert!(!due(&mut schedule, 10_000_011));
    assert!(due(&mut schedule, 10_000_012));
}

#[test]
fn a_step_yields_at_most_one_sample_however_late() {
    let mut schedule = SampleSchedule::from_periods(10);
    assert!(due(&mut schedule, 95));
    assert!(!due(&mut schedule, 95));
    assert!(!due(&mut schedule, 99));
    assert!(due(&mut schedule, 100));
}

#[test]
fn a_copied_schedule_keeps_its_phase() {
    let mut schedule = SampleSchedule::from_periods(10);
    assert!(due(&mut schedule, 25));
    let mut copy = schedule.clone();
    assert!(!due(&mut copy, 29));
    assert!(due(&mut copy, 30));
    assert!(due(&mut schedule, 30));
}
