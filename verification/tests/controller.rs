//! Whom the controller stands in for, and the order of its run.

use phoxal_model::{Robot, RobotBuilder};
use phoxal_simulator_webots_controller::capabilities::CapabilityRef;
use phoxal_simulator_webots_controller::catalog::CapabilityKind;
use phoxal_simulator_webots_controller::controller::{
    attach_context, bind_context, bundle_context, driven_components, presence_context,
    presented_participants, source_label, step_loop_thread, ControllerRun, MountedComponent,
    RunAction, RunEvent, RunFault,
};
use serde_json::Value;

/// A robot whose `wheel` instance is driven by a component driver and whose
/// `bumper` instance is not.
///
/// The builder states everything except the driver block, which no in-memory
/// constructor exposes, so the block is written into the same persisted
/// document a bundle carries and read back through the model's own validating
/// deserializer.
fn robot_with_one_driven_component() -> Robot {
    let robot = RobotBuilder::new("presence-rover")
        .component_type("wheel_drive", |wheel| wheel.motor("motor", "axle"))
        .component_type("bumper_pad", |bumper| bumper.range("range", "bumper_link"))
        .component("wheel", "wheel_drive")
        .component("bumper", "bumper_pad")
        .build()
        .expect("the presence model must build");

    let mut connection = serde_json::Map::new();
    connection.insert("type".to_owned(), Value::from("can"));
    connection.insert("bus".to_owned(), Value::from(0));
    connection.insert("node_id".to_owned(), Value::from(1));
    let mut driver = serde_json::Map::new();
    driver.insert("connection".to_owned(), Value::Object(connection));
    let mut document = serde_json::to_value(&robot).expect("a robot must serialize");
    document["components"]["wheel"]["driver"] = Value::Object(driver);
    serde_json::from_value(document).expect("the patched manifest must still validate")
}

#[test]
fn only_components_with_a_driver_block_are_presented() {
    let robot = robot_with_one_driven_component();
    assert_eq!(
        robot
            .components()
            .map(|component| component.id().as_str())
            .collect::<Vec<_>>(),
        ["bumper", "wheel"],
        "both components stay mounted, bound and simulated"
    );
    assert_eq!(presented_participants(&robot), ["wheel"]);
}

fn mounted(id: &str, driven: bool) -> MountedComponent {
    MountedComponent {
        id: id.to_owned(),
        driven,
    }
}

#[test]
fn driven_components_keep_their_order() {
    assert_eq!(
        driven_components(&vec![
            mounted("arm", true),
            mounted("bumper", false),
            mounted("wheel", true),
        ]),
        ["arm", "wheel"]
    );
    assert_eq!(driven_components(&vec![]), Vec::<String>::new());
}

/// How one scripted run goes.
#[derive(Clone, Copy, Default)]
struct Script {
    capabilities: usize,
    participants: usize,
    failing: Option<&'static str>,
    signalled: bool,
    panicked: bool,
    loop_error: Option<&'static str>,
}

fn done(script: Script, name: &'static str) -> Result<(), &'static str> {
    if script.failing == Some(name) {
        Err(name)
    } else {
        Ok(())
    }
}

/// Run a script to completion; what was asked, in order, and how it ended.
fn run(script: Script) -> (Vec<String>, Result<(), RunFault<&'static str>>) {
    let (mut run, mut action) = ControllerRun::<&'static str>::new();
    let mut asked = Vec::new();
    loop {
        let (name, event) = match action {
            RunAction::OpenBundle => (
                "bundle".to_owned(),
                RunEvent::BundleOpened(done(script, "bundle")),
            ),
            RunAction::OpenWorld => (
                "world".to_owned(),
                RunEvent::WorldOpened(done(script, "world")),
            ),
            RunAction::ResolveCatalog => (
                "catalog".to_owned(),
                RunEvent::CatalogResolved(done(script, "catalog").map(|()| script.capabilities)),
            ),
            RunAction::Attach => (
                "attach".to_owned(),
                RunEvent::Attached(done(script, "attach")),
            ),
            RunAction::Bind { index } => (
                format!("bind {index}"),
                RunEvent::Bound(if index == 1 {
                    done(script, "bind")
                } else {
                    Ok(())
                }),
            ),
            RunAction::NameParticipants => (
                "name".to_owned(),
                RunEvent::ParticipantsNamed(done(script, "name").map(|()| script.participants)),
            ),
            RunAction::Present { index } => (
                format!("present {index}"),
                RunEvent::Presented(done(script, "present")),
            ),
            RunAction::TakeWorldTime => (
                "time".to_owned(),
                RunEvent::WorldTimeTaken(done(script, "time")),
            ),
            RunAction::StartLoop => (
                "start".to_owned(),
                RunEvent::LoopStarted(done(script, "start")),
            ),
            RunAction::AwaitEnd => (
                "await".to_owned(),
                if script.signalled {
                    RunEvent::Signalled
                } else {
                    RunEvent::LoopEnded
                },
            ),
            RunAction::RequestStop => ("stop".to_owned(), RunEvent::StopRequested),
            RunAction::Join => (
                "join".to_owned(),
                RunEvent::Joined(if script.panicked {
                    None
                } else {
                    Some(script.loop_error.map_or(Ok(()), Err))
                }),
            ),
            RunAction::Close => ("close".to_owned(), RunEvent::Closed),
            RunAction::Finish(result) => return (asked, result),
        };
        asked.push(name);
        action = run.run(event);
    }
}

#[test]
fn a_run_binds_everything_before_it_is_present_and_joins_before_it_closes() {
    let (asked, result) = run(Script {
        capabilities: 2,
        participants: 1,
        signalled: true,
        ..Script::default()
    });
    assert!(result.is_ok());
    assert_eq!(
        asked,
        [
            "bundle", "world", "catalog", "attach", "bind 0", "bind 1", "name", "present 0",
            "time", "start", "await", "stop", "join", "close"
        ]
    );
    let (asked, result) = run(Script::default());
    assert!(result.is_ok());
    assert_eq!(
        asked,
        ["bundle", "world", "catalog", "attach", "name", "time", "start", "await", "join", "close"]
    );
}

#[test]
fn a_failed_loop_is_reported_after_the_session_closes() {
    let (asked, result) = run(Script {
        loop_error: Some("device rejected a command"),
        ..Script::default()
    });
    assert!(matches!(
        result,
        Err(RunFault::Loop("device rejected a command"))
    ));
    assert_eq!(asked.last().map(String::as_str), Some("close"));
}

#[test]
fn every_failure_ends_the_run_where_it_happened() {
    let failing = |name| {
        run(Script {
            capabilities: 2,
            participants: 2,
            failing: Some(name),
            ..Script::default()
        })
    };
    assert!(matches!(failing("bundle").1, Err(RunFault::Bundle("bundle"))));
    assert!(matches!(failing("world").1, Err(RunFault::World("world"))));
    assert!(matches!(
        failing("catalog").1,
        Err(RunFault::Catalog("catalog"))
    ));
    assert!(matches!(failing("attach").1, Err(RunFault::Attach("attach"))));
    assert!(matches!(
        failing("bind").1,
        Err(RunFault::Bind {
            index: 1,
            error: "bind"
        })
    ));
    assert!(matches!(
        failing("name").1,
        Err(RunFault::Participant("name"))
    ));
    assert!(matches!(
        failing("present").1,
        Err(RunFault::Presence {
            index: 0,
            error: "present"
        })
    ));
    assert!(matches!(failing("time").1, Err(RunFault::WorldTime("time"))));
    assert!(matches!(failing("start").1, Err(RunFault::Thread("start"))));
    let (asked, panicked) = run(Script {
        panicked: true,
        ..Script::default()
    });
    assert!(matches!(panicked, Err(RunFault::LoopPanicked)));
    assert_eq!(asked.last().map(String::as_str), Some("join"));
}

#[test]
fn failures_name_what_they_are_about() {
    assert_eq!(
        bundle_context("/srv/robot/bundle"),
        "failed to open the bundle at /srv/robot/bundle"
    );
    assert_eq!(
        attach_context("tcp/127.0.0.1:7447"),
        "failed to attach the Webots controller at tcp/127.0.0.1:7447"
    );
    assert_eq!(
        bind_context(
            CapabilityKind::Camera,
            &CapabilityRef::new("front_camera", "rgb")
        ),
        "failed to bind the camera capability front_camera.rgb the bundle manifest declares"
    );
    assert_eq!(
        presence_context("wheel"),
        "failed to declare presence for wheel"
    );
    assert_eq!(source_label(), "webots-controller");
    assert_eq!(step_loop_thread(), "webots-step-loop");
}
