//! The world, its step and its clock.

use phoxal_simulator_webots_controller::backend::{
    basic_time_step_ms, simulation_time_ns, step_ns_from_ms, time_was_rewound, Advance,
    AdvanceAction, AdvanceEvent, AdvanceFault, ParkTurn, PublishAction, PublishTurn,
    WebotsBackend, WorldFault,
};
use phoxal_simulator_webots_controller::binary64::Binary64;

fn bits(value: f64) -> Binary64 {
    Binary64::from_bits(value.to_bits())
}

fn instant(seconds: f64) -> Result<u64, WorldFault> {
    simulation_time_ns(bits(seconds), bits(seconds * 1_000_000_000.0))
}

#[test]
fn webots_step_duration_must_be_positive() {
    assert_eq!(step_ns_from_ms(10).expect("10 ms is valid"), 10_000_000);
    assert!(step_ns_from_ms(0).is_err());
    assert!(step_ns_from_ms(-1).is_err());
}

#[test]
fn webots_time_is_checked_when_converted_to_nanoseconds() {
    assert_eq!(instant(0.125).unwrap(), 125_000_000);
    assert!(instant(-1.0).is_err());
    assert!(instant(f64::NAN).is_err());
    assert!(instant(f64::INFINITY).is_err());
}

#[test]
fn a_webots_rewind_is_detected_before_sensor_reads() {
    assert!(!time_was_rewound(None, 0));
    assert!(!time_was_rewound(Some(10_000_000), 20_000_000));
    assert!(time_was_rewound(Some(20_000_000), 10_000_000));
}

#[test]
fn world_faults_say_what_is_wrong() {
    let cases = [
        (
            step_ns_from_ms(-1).unwrap_err(),
            "Webots basicTimeStep must be a positive integer",
        ),
        (
            step_ns_from_ms(0).unwrap_err(),
            "Webots basicTimeStep must be > 0",
        ),
        (
            instant(f64::NAN).unwrap_err(),
            "Webots simulation time must be finite and >= 0",
        ),
        (
            instant(1e11).unwrap_err(),
            "Webots simulation time overflows nanoseconds",
        ),
    ];
    for (fault, expected) in cases {
        assert_eq!(fault.message(), expected);
        if fault != WorldFault::StepNegative {
            assert_eq!(fault.cause(), None);
            assert_eq!(fault.report(), expected);
        }
    }
}

#[test]
fn a_negative_step_names_its_cause() {
    let fault = step_ns_from_ms(-1).unwrap_err();
    let cause = u64::try_from(-1_i32).unwrap_err().to_string();
    assert_eq!(fault.cause(), Some(cause.as_str()));
    assert_eq!(
        fault.report(),
        "Webots basicTimeStep must be a positive integer: \
         out of range integral type conversion attempted"
    );
}

#[test]
fn the_world_step_is_the_nearest_whole_millisecond() {
    assert_eq!(basic_time_step_ms(bits(31.5)), Ok(32));
    assert_eq!(basic_time_step_ms(bits(16.0)), Ok(16));
    assert_eq!(basic_time_step_ms(bits(0.4)), Err(WorldFault::StepZero));
    assert_eq!(basic_time_step_ms(bits(-0.5)), Err(WorldFault::StepNegative));
    assert_eq!(basic_time_step_ms(bits(f64::NAN)), Err(WorldFault::StepZero));
    assert_eq!(basic_time_step_ms(bits(1e18)), Ok(i32::MAX));
}

#[test]
fn the_clock_rounds_to_the_nearest_nanosecond_up_to_its_limit() {
    assert_eq!(instant(0.000_000_001_4), Ok(1));
    assert_eq!(instant(-0.0), Ok(0));
    assert_eq!(
        simulation_time_ns(bits(1.0), bits(18_446_744_073_709_549_568.0)),
        Ok(18_446_744_073_709_549_568)
    );
    assert_eq!(
        simulation_time_ns(bits(1.0), bits(18_446_744_073_709_551_616.0)),
        Err(WorldFault::TimeOverflows)
    );
}

#[test]
fn a_later_clock_never_gives_an_earlier_instant() {
    let clock = [0.0, 1e-10, 5e-10, 1e-9, 0.016, 0.032, 1.0, 1e9, 1.8e10];
    for pair in clock.windows(2) {
        assert!(instant(pair[0]).unwrap() <= instant(pair[1]).unwrap());
    }
}

/// Drive one advance of a world with these clock readings; what was asked, in
/// order, and how it ended.
fn advance(
    backend: &mut WebotsBackend,
    stepped: Result<bool, &'static str>,
    seconds: f64,
    failing_channel: Option<usize>,
) -> (Vec<String>, Result<Advance, AdvanceFault<&'static str>>) {
    let mut asked = Vec::new();
    let mut action = backend.advance::<&'static str>();
    loop {
        let event = match action {
            AdvanceAction::ApplyBacklog { channel } => {
                asked.push(format!("apply {channel}"));
                AdvanceEvent::Applied(if failing_channel == Some(channel) {
                    Err("device rejected a command")
                } else {
                    Ok(())
                })
            }
            AdvanceAction::Step { step_ms } => {
                asked.push(format!("step {step_ms}"));
                AdvanceEvent::Stepped(stepped)
            }
            AdvanceAction::ReadTime => {
                asked.push("time".to_owned());
                AdvanceEvent::TimeRead(Ok((bits(seconds), bits(seconds * 1_000_000_000.0))))
            }
            AdvanceAction::Reset { channel, time_ns } => {
                asked.push(format!("reset {channel} at {time_ns}"));
                AdvanceEvent::WasReset(Ok(()))
            }
            AdvanceAction::Done(result) => return (asked, result),
        };
        action = backend.resume(event);
    }
}

#[test]
fn every_input_is_applied_before_the_world_steps() {
    let mut backend = WebotsBackend::new(10, 2);
    let (asked, result) = advance(&mut backend, Ok(true), 0.010, None);
    assert_eq!(asked, ["apply 0", "apply 1", "step 10", "time"]);
    assert!(matches!(
        result,
        Ok(Advance::Stepped {
            time_ns: 10_000_000,
            rewound: false
        })
    ));
}

#[test]
fn a_rewound_world_resets_every_capability() {
    let mut backend = WebotsBackend::new(10, 2);
    let _ = advance(&mut backend, Ok(true), 0.030, None);
    let (asked, result) = advance(&mut backend, Ok(true), 0.010, None);
    assert_eq!(
        asked,
        [
            "apply 0",
            "apply 1",
            "step 10",
            "time",
            "reset 0 at 10000000",
            "reset 1 at 10000000"
        ]
    );
    assert!(matches!(
        result,
        Ok(Advance::Stepped {
            time_ns: 10_000_000,
            rewound: true
        })
    ));
    assert_eq!(backend.last_time_ns(), Some(10_000_000));
}

#[test]
fn a_quit_world_stops_and_a_failed_one_does_not_move_time() {
    let mut backend = WebotsBackend::new(10, 2);
    let _ = advance(&mut backend, Ok(true), 0.030, None);
    let (_, stopped) = advance(&mut backend, Ok(false), 0.040, None);
    assert!(matches!(stopped, Ok(Advance::Stopped)));
    let (asked, refused) = advance(&mut backend, Ok(true), 0.040, Some(1));
    assert_eq!(asked, ["apply 0", "apply 1"]);
    assert!(matches!(
        refused,
        Err(AdvanceFault::Device("device rejected a command"))
    ));
    let (_, unusable) = advance(&mut backend, Ok(true), f64::NAN, None);
    assert!(matches!(
        unusable,
        Err(AdvanceFault::World(WorldFault::TimeNotFinite))
    ));
    assert_eq!(backend.last_time_ns(), Some(30_000_000));
}

#[test]
fn publishing_stops_at_the_first_failure() {
    let (mut turn, first) = PublishTurn::begin::<&'static str>(3);
    assert!(matches!(first, PublishAction::Publish { channel: 0 }));
    assert!(matches!(
        turn.resume::<&'static str>(Ok(())),
        PublishAction::Publish { channel: 1 }
    ));
    assert!(matches!(
        turn.resume(Err("refused")),
        PublishAction::Done(Err("refused"))
    ));
    let (_, none) = PublishTurn::begin::<&'static str>(0);
    assert!(matches!(none, PublishAction::Done(Ok(()))));
}

#[test]
fn parking_visits_every_capability_and_reports_the_first_failure() {
    let mut turn = ParkTurn::<&'static str>::begin(3);
    let mut parked = Vec::new();
    while let Some(channel) = turn.next_channel() {
        parked.push(channel);
        turn.record(match channel {
            0 => Ok(()),
            1 => Err("first"),
            _ => Err("second"),
        });
    }
    assert_eq!(parked, [0, 1, 2]);
    assert_eq!(turn.finish(), Err("first"));
}
