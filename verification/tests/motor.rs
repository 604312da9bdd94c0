//! Motor commands and how a motor takes its inputs.

use phoxal_simulator_webots_controller::binary64::Binary64;
use phoxal_simulator_webots_controller::capabilities::motor::{
    dispatch, MotorAction, MotorCommand, MotorCommandFault, MotorSpec, MotorWrite, NativeMotor,
    WireCommand, WireMotorCommandMode,
};
use phoxal_simulator_webots_controller::capabilities::CapabilityRef;
use phoxal_simulator_webots_controller::motor_channel::{MotorEvent, MotorStep, MotorTurn};

fn bits(value: f64) -> Binary64 {
    Binary64::from_bits(value.to_bits())
}

/// Dispatch with the division a host does.
fn dispatched(
    configured: MotorCommand,
    command: WireCommand,
    gear_ratio: f64,
) -> Result<MotorAction, MotorCommandFault> {
    let quotient = command
        .value()
        .map(|value| f64::from_bits(value.to_bits()) / gear_ratio)
        .unwrap_or(0.0);
    dispatch(configured, &command, bits(gear_ratio), bits(quotient))
}

#[test]
fn position_dispatch_scales_and_targets_a_position_motor() {
    assert_eq!(
        dispatched(
            MotorCommand::Position,
            WireCommand::Position(bits(4.0)),
            2.0,
        ),
        Ok(MotorAction::Position(bits(2.0)))
    );
}

#[test]
fn every_non_stop_mode_mismatch_is_rejected_before_actuation() {
    for (configured, command) in [
        (MotorCommand::Position, WireCommand::Velocity(bits(1.0))),
        (MotorCommand::Position, WireCommand::Torque(bits(1.0))),
        (MotorCommand::Velocity, WireCommand::Position(bits(1.0))),
        (MotorCommand::Velocity, WireCommand::Torque(bits(1.0))),
        (MotorCommand::Torque, WireCommand::Position(bits(1.0))),
        (MotorCommand::Torque, WireCommand::Velocity(bits(1.0))),
    ] {
        assert!(matches!(
            dispatched(configured, command, 1.0),
            Err(MotorCommandFault::ModeMismatch { .. })
        ));
    }
}

#[test]
fn stop_is_the_explicit_park_action_for_every_mode() {
    for configured in [
        MotorCommand::Position,
        MotorCommand::Velocity,
        MotorCommand::Torque,
    ] {
        assert_eq!(
            dispatched(configured, WireCommand::Stop, 0.0),
            Ok(MotorAction::Stop)
        );
    }
}

#[test]
fn a_refused_command_says_why() {
    let cases = [
        (
            dispatched(MotorCommand::Velocity, WireCommand::Position(bits(1.0)), 1.0),
            "motor configured for Velocity cannot accept Position command",
        ),
        (
            dispatched(
                MotorCommand::Torque,
                WireCommand::Torque(bits(f64::NAN)),
                1.0,
            ),
            "motor Torque command is not finite: NaN",
        ),
        (
            dispatched(
                MotorCommand::Velocity,
                WireCommand::Velocity(bits(f64::NEG_INFINITY)),
                1.0,
            ),
            "motor Velocity command is not finite: -inf",
        ),
        (
            dispatched(
                MotorCommand::Velocity,
                WireCommand::Velocity(bits(1e38)),
                1e-300,
            ),
            "motor Velocity command is not finite: inf",
        ),
        (
            dispatched(MotorCommand::Velocity, WireCommand::Velocity(bits(1.0)), 0.0),
            "motor gear ratio must be finite and non-zero: 0",
        ),
        (
            dispatched(
                MotorCommand::Velocity,
                WireCommand::Velocity(bits(1.0)),
                -0.0,
            ),
            "motor gear ratio must be finite and non-zero: -0",
        ),
        (
            dispatched(
                MotorCommand::Velocity,
                WireCommand::Velocity(bits(1.0)),
                f64::INFINITY,
            ),
            "motor gear ratio must be finite and non-zero: inf",
        ),
    ];
    for (result, expected) in cases {
        assert_eq!(result.unwrap_err().message(), expected);
    }
    assert_eq!(
        dispatched(MotorCommand::Velocity, WireCommand::Position(bits(1.0)), 1.0),
        Err(MotorCommandFault::ModeMismatch {
            configured: MotorCommand::Velocity,
            received: WireMotorCommandMode::Position,
        })
    );
}

fn motor(actuator_type: MotorCommand) -> NativeMotor {
    NativeMotor::new(&MotorSpec {
        reference: CapabilityRef::new("left_drive", "motor"),
        actuator_type,
        gear_ratio: bits(2.0),
    })
}

#[test]
fn velocity_and_torque_commands_release_the_position_first() {
    let released = MotorWrite::SetPosition(bits(f64::INFINITY));
    assert_eq!(
        motor(MotorCommand::Velocity)
            .apply(&WireCommand::Velocity(bits(4.0)), bits(2.0))
            .unwrap(),
        vec![released, MotorWrite::SetVelocity(bits(2.0))]
    );
    assert_eq!(
        motor(MotorCommand::Torque)
            .apply(&WireCommand::Torque(bits(4.0)), bits(2.0))
            .unwrap(),
        vec![released, MotorWrite::SetTorque(bits(2.0))]
    );
    assert_eq!(
        motor(MotorCommand::Position)
            .apply(&WireCommand::Position(bits(4.0)), bits(2.0))
            .unwrap(),
        vec![MotorWrite::SetPosition(bits(2.0))]
    );
    assert!(motor(MotorCommand::Position)
        .apply(&WireCommand::Torque(bits(4.0)), bits(2.0))
        .is_err());
}

#[test]
fn a_stopped_motor_is_quiet_in_its_own_mode() {
    let released = MotorWrite::SetPosition(bits(f64::INFINITY));
    assert_eq!(
        motor(MotorCommand::Position).stop(),
        vec![MotorWrite::SetVelocity(bits(0.0))]
    );
    assert_eq!(
        motor(MotorCommand::Velocity).stop(),
        vec![released, MotorWrite::SetVelocity(bits(0.0))]
    );
    assert_eq!(
        motor(MotorCommand::Torque).stop(),
        vec![released, MotorWrite::SetTorque(bits(0.0))]
    );
}

/// Take one motor turn; what was asked, in order.
fn turn(ready: usize, overflowed: bool, clock: bool, pending: usize, live: bool) -> Vec<MotorStep> {
    let mut ready = ready;
    let (mut turn, mut step) = MotorTurn::apply_backlog();
    let mut asked = vec![step];
    loop {
        let event = match step {
            MotorStep::PollReady => {
                let more = ready > 0;
                ready = ready.saturating_sub(1);
                MotorEvent::ReadyPolled(more)
            }
            MotorStep::ForwardReady => MotorEvent::ReadyForwarded,
            MotorStep::PollOverflow => MotorEvent::OverflowPolled(overflowed),
            MotorStep::MarkOverflow => MotorEvent::OverflowMarked,
            MotorStep::ReadClock => MotorEvent::ClockRead(clock),
            MotorStep::DrainPending => MotorEvent::Drained(pending),
            MotorStep::Offer { .. } => MotorEvent::Offered,
            MotorStep::SelectLive => MotorEvent::Selected(live),
            MotorStep::DiscardPending => MotorEvent::Discarded,
            MotorStep::ClearAuthority => MotorEvent::Cleared,
            MotorStep::Apply | MotorStep::Stop => return asked,
        };
        step = turn.resume(event);
        asked.push(step);
    }
}

#[test]
fn every_pending_command_is_offered_before_one_is_selected() {
    assert_eq!(
        turn(1, true, true, 3, true),
        vec![
            MotorStep::PollReady,
            MotorStep::ForwardReady,
            MotorStep::PollReady,
            MotorStep::PollOverflow,
            MotorStep::MarkOverflow,
            MotorStep::ReadClock,
            MotorStep::DrainPending,
            MotorStep::Offer { index: 0 },
            MotorStep::Offer { index: 1 },
            MotorStep::Offer { index: 2 },
            MotorStep::SelectLive,
            MotorStep::Apply,
        ]
    );
}

#[test]
fn a_motor_without_a_live_command_stops() {
    assert_eq!(turn(0, false, true, 0, false).last(), Some(&MotorStep::Stop));
}

#[test]
fn a_motor_without_a_clock_drops_everything_and_stops() {
    assert_eq!(
        turn(0, false, false, 3, true),
        vec![
            MotorStep::PollReady,
            MotorStep::PollOverflow,
            MotorStep::ReadClock,
            MotorStep::DiscardPending,
            MotorStep::ClearAuthority,
            MotorStep::Stop,
        ]
    );
}

#[test]
fn a_parked_motor_drops_what_is_pending_and_stops() {
    let (mut turn, first) = MotorTurn::park();
    assert_eq!(first, MotorStep::DiscardPending);
    assert_eq!(turn.resume(MotorEvent::Discarded), MotorStep::Stop);
}
