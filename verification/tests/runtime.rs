//! The step loop.

use phoxal_simulator_webots_controller::backend::Advance;
use phoxal_simulator_webots_controller::runtime::{
    exhausted_message, ControllerRuntime, ParkReason, RuntimeAction, RuntimeEvent, RuntimeFault,
};

/// What one scripted run ended as.
struct Scenario {
    outcome: Result<(), String>,
    parked: bool,
    /// The instant of every step whose outputs went out, in publish order.
    published_at: Vec<u64>,
    /// The step number and instant of every clock that closed a step.
    clocks: Vec<(u64, u64)>,
}

fn text(fault: RuntimeFault<&'static str>) -> String {
    match fault {
        RuntimeFault::World(error) => error.to_owned(),
        RuntimeFault::StepCounterExhausted => "step counter exhausted".to_owned(),
    }
}

/// Run a world scripted advance by advance to completion.
fn run_scenario(
    advances: Vec<Result<Advance, &'static str>>,
    stop_after_publish: bool,
    refuse_outputs: bool,
) -> Scenario {
    let mut advances = advances.into_iter();
    let mut stop = false;
    let mut parked = false;
    let mut published_at = Vec::new();
    let mut clocks = Vec::new();
    let (mut runtime, mut action) = ControllerRuntime::<&'static str>::new();
    loop {
        let event = match action {
            RuntimeAction::PollStop => RuntimeEvent::StopPolled(stop),
            RuntimeAction::Advance => {
                RuntimeEvent::Advanced(advances.next().unwrap_or(Ok(Advance::Stopped)))
            }
            RuntimeAction::Publish { time_ns, .. } => RuntimeEvent::Published(if refuse_outputs {
                Err("a capability refused this step's outputs")
            } else {
                published_at.push(time_ns);
                stop = stop || stop_after_publish;
                Ok(())
            }),
            RuntimeAction::PublishClock { time_ns, step } => {
                assert_eq!(published_at.last(), Some(&time_ns));
                clocks.push((step, time_ns));
                RuntimeEvent::ClockPublished(Ok(()))
            }
            RuntimeAction::Park { .. } => {
                parked = true;
                RuntimeEvent::Parked(Ok(()))
            }
            RuntimeAction::Finish { result, .. } => {
                return Scenario {
                    outcome: result.map_err(text),
                    parked,
                    published_at,
                    clocks,
                }
            }
        };
        action = runtime.run(event);
    }
}

/// One completed advance, stopped after it.
fn one_step() -> Vec<Result<Advance, &'static str>> {
    vec![Ok(Advance::Stepped {
        time_ns: 20_000_000,
        rewound: false,
    })]
}

#[test]
fn every_stop_parks_the_world_and_a_step_stamps_its_outputs_with_its_own_instant() {
    // Webots quits the world after one step: the step is committed, and the
    // world is quiet before the loop returns.
    let stopped = run_scenario(one_step(), false, false);
    assert!(stopped.outcome.is_ok(), "a quit world is not a failure");
    assert!(stopped.parked, "a stopped world must be left quiet");
    assert_eq!(
        stopped.published_at,
        vec![20_000_000],
        "a step's outputs carry the instant the world advanced to"
    );

    // A device that fails halfway through a commit is reported, and the
    // world is quiet all the same.
    let refused = run_scenario(one_step(), false, true);
    assert_eq!(
        refused
            .outcome
            .expect_err("a refused output must reach the caller"),
        "a capability refused this step's outputs"
    );
    assert!(
        refused.parked,
        "a world that failed mid-commit must still be left quiet"
    );

    // A host signal stops the loop at the next step boundary, before the
    // second scripted advance, and that world is left quiet too.
    let mut signalled_advances = one_step();
    signalled_advances.push(Err("the loop must never reach this advance"));
    let signalled = run_scenario(signalled_advances, true, false);
    assert!(
        signalled.outcome.is_ok(),
        "a requested stop is not a failure"
    );
    assert!(signalled.parked, "a signalled world must be left quiet");
    assert_eq!(
        signalled.published_at,
        vec![20_000_000],
        "the stop took effect at the step boundary, so only the first \
         advance ever published"
    );

    // A failing world is reported, and parked first: a motor left running
    // is worse than an error nobody sees.
    let failed = run_scenario(vec![Err("device rejected a command")], false, false);
    assert_eq!(
        failed
            .outcome
            .expect_err("a device failure must reach the caller"),
        "device rejected a command"
    );
    assert!(failed.parked, "a failed world must still be left quiet");
}

#[test]
fn steps_are_numbered_from_one_and_anew_after_a_rewind() {
    let step = |time_ns, rewound| Ok(Advance::Stepped { time_ns, rewound });
    let run = run_scenario(
        vec![
            step(10, false),
            step(20, false),
            step(5, true),
            step(15, false),
        ],
        false,
        false,
    );
    assert!(run.outcome.is_ok());
    assert_eq!(run.clocks, [(1, 10), (2, 20), (1, 5), (2, 15)]);
}

#[test]
fn an_exhausted_step_counter_fails_after_parking() {
    let (mut runtime, _) = ControllerRuntime::<&'static str>::counting_from(u64::MAX);
    assert_eq!(runtime.step_index(), u64::MAX);
    let _ = runtime.run(RuntimeEvent::StopPolled(false));
    let park = runtime.run(RuntimeEvent::Advanced(Ok(Advance::Stepped {
        time_ns: 1,
        rewound: false,
    })));
    assert!(matches!(
        park,
        RuntimeAction::Park {
            reason: ParkReason::Failed
        }
    ));
    match runtime.run(RuntimeEvent::Parked(Err("park failed"))) {
        RuntimeAction::Finish { result, unparked } => {
            assert!(matches!(result, Err(RuntimeFault::StepCounterExhausted)));
            assert_eq!(unparked, Some("park failed"));
        }
        _ => panic!("the loop is over once the world is parked"),
    }
    assert_eq!(
        exhausted_message(),
        "Webots controller step counter exhausted"
    );
}

#[test]
fn a_rewind_replaces_the_timeline() {
    let (mut runtime, _) = ControllerRuntime::<&'static str>::new();
    let _ = runtime.run(RuntimeEvent::StopPolled(false));
    assert!(matches!(
        runtime.run(RuntimeEvent::Advanced(Ok(Advance::Stepped {
            time_ns: 7,
            rewound: true
        }))),
        RuntimeAction::Publish {
            time_ns: 7,
            replace_timeline: true
        }
    ));
}

#[test]
fn a_stop_that_cannot_park_is_reported() {
    let (mut runtime, _) = ControllerRuntime::<&'static str>::new();
    assert!(matches!(
        runtime.run(RuntimeEvent::StopPolled(true)),
        RuntimeAction::Park {
            reason: ParkReason::HostAsked
        }
    ));
    assert!(matches!(
        runtime.run(RuntimeEvent::Parked(Err("a motor would not stop"))),
        RuntimeAction::Finish {
            result: Err(RuntimeFault::World("a motor would not stop")),
            unparked: None
        }
    ));
}
