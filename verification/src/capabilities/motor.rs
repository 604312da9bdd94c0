//! Motor capability: turns motor commands into writes to the Webots `Motor`
//! device.
//!
//! A Webots motor is position-controlled by default, so every velocity and
//! torque command first releases the position target to infinity. The declared
//! gear ratio converts the actuator-side command the contract carries into the
//! joint-side value Webots takes; the host divides, and what it got is judged
//! here.

use crate::binary64::Binary64;
use crate::capabilities::CapabilityRef;
use vstd::prelude::*;
use vstd::string::*;

verus! {

/// The pattern of positive infinity, which releases a position target.
pub const INFINITY_BITS: u64 = 0x7ff0_0000_0000_0000;

/// What a motor is configured to be commanded in.
#[derive(Clone, Copy, Debug, PartialEq, Eq, Structural)]
pub enum MotorCommand {
    Position,
    Velocity,
    Torque,
}

/// One motor command, as the wire carries it.
#[derive(Clone, Copy, Debug, PartialEq, Eq, Structural)]
pub enum WireCommand {
    Position(Binary64),
    Velocity(Binary64),
    Torque(Binary64),
    Stop,
}

/// The command mode carried by the component wire enum, kept separate from
/// its numeric payload so a rejected mode mismatch cannot be mistaken for a
/// zero/stop command.
#[derive(Clone, Copy, Debug, PartialEq, Eq, Structural)]
pub enum WireMotorCommandMode {
    Position,
    Velocity,
    Torque,
    Stop,
}

/// The local actuation decision made before touching a Webots device.
///
/// A mismatched command produces an error and no action at all, while `Stop`
/// is the only explicit park action.
#[derive(Clone, Copy, Debug, PartialEq, Eq, Structural)]
pub enum MotorAction {
    Position(Binary64),
    Velocity(Binary64),
    Torque(Binary64),
    Stop,
}

/// One write to the motor device.
#[derive(Clone, Copy, Debug, PartialEq, Eq, Structural)]
pub enum MotorWrite {
    SetPosition(Binary64),
    SetVelocity(Binary64),
    SetTorque(Binary64),
}

/// Why a motor command was refused locally before any Webots call.
#[derive(Clone, Copy, Debug, PartialEq, Eq, Structural)]
pub enum MotorCommandFault {
    ModeMismatch { configured: MotorCommand, received: WireMotorCommandMode },
    NonFinite { mode: WireMotorCommandMode, value: Binary64 },
    InvalidGearRatio(Binary64),
}

/// One motor capability the robot declares.
#[derive(Clone, Debug)]
pub struct MotorSpec {
    pub reference: CapabilityRef,
    pub actuator_type: MotorCommand,
    pub gear_ratio: Binary64,
}

impl MotorCommand {
    pub open spec fn spec_name(self) -> Seq<char> {
        match self {
            MotorCommand::Position => "Position"@,
            MotorCommand::Velocity => "Velocity"@,
            MotorCommand::Torque => "Torque"@,
        }
    }

    /// The name of this configuration in diagnostics.
    pub fn name(self) -> (name: &'static str)
        ensures
            name@ == self.spec_name(),
    {
        match self {
            MotorCommand::Position => "Position",
            MotorCommand::Velocity => "Velocity",
            MotorCommand::Torque => "Torque",
        }
    }

    /// A motor accepts the mode it is configured for, and `Stop` always.
    pub open spec fn accepts(self, received: WireMotorCommandMode) -> bool {
        match received {
            WireMotorCommandMode::Position => self == MotorCommand::Position,
            WireMotorCommandMode::Velocity => self == MotorCommand::Velocity,
            WireMotorCommandMode::Torque => self == MotorCommand::Torque,
            WireMotorCommandMode::Stop => true,
        }
    }
}

impl WireMotorCommandMode {
    pub open spec fn spec_name(self) -> Seq<char> {
        match self {
            WireMotorCommandMode::Position => "Position"@,
            WireMotorCommandMode::Velocity => "Velocity"@,
            WireMotorCommandMode::Torque => "Torque"@,
            WireMotorCommandMode::Stop => "Stop"@,
        }
    }

    /// The name of this mode in diagnostics.
    pub fn name(self) -> (name: &'static str)
        ensures
            name@ == self.spec_name(),
    {
        match self {
            WireMotorCommandMode::Position => "Position",
            WireMotorCommandMode::Velocity => "Velocity",
            WireMotorCommandMode::Torque => "Torque",
            WireMotorCommandMode::Stop => "Stop",
        }
    }
}

impl WireCommand {
    /// The mode this command is in.
    pub open spec fn mode(self) -> WireMotorCommandMode {
        match self {
            WireCommand::Position(_) => WireMotorCommandMode::Position,
            WireCommand::Velocity(_) => WireMotorCommandMode::Velocity,
            WireCommand::Torque(_) => WireMotorCommandMode::Torque,
            WireCommand::Stop => WireMotorCommandMode::Stop,
        }
    }

    /// The actuator-side value this command carries; `Stop` carries none.
    pub open spec fn spec_value(self) -> Option<Binary64> {
        match self {
            WireCommand::Position(value) => Some(value),
            WireCommand::Velocity(value) => Some(value),
            WireCommand::Torque(value) => Some(value),
            WireCommand::Stop => None,
        }
    }

    /// The actuator-side value the host divides by the gear ratio; `Stop`
    /// carries none.
    pub fn value(self) -> (value: Option<Binary64>)
        ensures
            value == self.spec_value(),
    {
        match self {
            WireCommand::Position(value) => Some(value),
            WireCommand::Velocity(value) => Some(value),
            WireCommand::Torque(value) => Some(value),
            WireCommand::Stop => None,
        }
    }
}

/// How a number that is zero or not finite is written.
pub open spec fn singular_text(value: Binary64) -> Seq<char> {
    if value.nan() {
        "NaN"@
    } else if value.finite() {
        if value.sign_is_set() {
            "-0"@
        } else {
            "0"@
        }
    } else if value.sign_is_set() {
        "-inf"@
    } else {
        "inf"@
    }
}

fn write_singular(value: Binary64) -> (text: &'static str)
    ensures
        text@ == singular_text(value),
{
    let sign_is_set: bool = value.to_bits() >= crate::binary64::SIGN_WEIGHT;
    if value.is_nan() {
        "NaN"
    } else if value.is_finite() {
        if sign_is_set {
            "-0"
        } else {
            "0"
        }
    } else if sign_is_set {
        "-inf"
    } else {
        "inf"
    }
}

impl MotorCommandFault {
    /// A fault names a value that is at fault: one that is not finite, or a
    /// gear ratio that is not finite or is zero.
    pub open spec fn well_formed(self) -> bool {
        match self {
            MotorCommandFault::ModeMismatch { .. } => true,
            MotorCommandFault::NonFinite { value, .. } => !value.finite(),
            MotorCommandFault::InvalidGearRatio(value) => !value.finite() || value.magnitude() == 0,
        }
    }

    /// The diagnostic an operator reads.
    pub open spec fn text(self) -> Seq<char> {
        match self {
            MotorCommandFault::ModeMismatch { configured, received } => "motor configured for "@
                + configured.spec_name() + " cannot accept "@ + received.spec_name() + " command"@,
            MotorCommandFault::NonFinite { mode, value } => "motor "@ + mode.spec_name()
                + " command is not finite: "@ + singular_text(value),
            MotorCommandFault::InvalidGearRatio(value) =>
                "motor gear ratio must be finite and non-zero: "@ + singular_text(value),
        }
    }

    /// The diagnostic an operator reads.
    pub fn message(&self) -> (message: String)
        requires
            self.well_formed(),
        ensures
            message@ == self.text(),
    {
        match *self {
            MotorCommandFault::ModeMismatch { configured, received } => {
                let mut message = "motor configured for ".to_owned();
                message.append(configured.name());
                message.append(" cannot accept ");
                message.append(received.name());
                message.append(" command");
                message
            },
            MotorCommandFault::NonFinite { mode, value } => {
                let mut message = "motor ".to_owned();
                message.append(mode.name());
                message.append(" command is not finite: ");
                message.append(write_singular(value));
                message
            },
            MotorCommandFault::InvalidGearRatio(value) => {
                let mut message = "motor gear ratio must be finite and non-zero: ".to_owned();
                message.append(write_singular(value));
                message
            },
        }
    }
}

/// The action a command comes to, or why it is refused.
///
/// `joint_value` is the host's quotient of the command's value by the gear
/// ratio; it counts only where the command carries a value.
pub open spec fn dispatched(
    configured: MotorCommand,
    command: WireCommand,
    gear_ratio: Binary64,
    joint_value: Binary64,
) -> Result<MotorAction, MotorCommandFault> {
    let received = command.mode();
    if !configured.accepts(received) {
        Err(MotorCommandFault::ModeMismatch { configured, received })
    } else {
        match command.spec_value() {
            None => Ok(MotorAction::Stop),
            Some(value) => if !value.finite() {
                Err(MotorCommandFault::NonFinite { mode: received, value })
            } else if !gear_ratio.finite() || gear_ratio.magnitude() == 0 {
                Err(MotorCommandFault::InvalidGearRatio(gear_ratio))
            } else if !joint_value.finite() {
                Err(MotorCommandFault::NonFinite { mode: received, value: joint_value })
            } else {
                match configured {
                    MotorCommand::Position => Ok(MotorAction::Position(joint_value)),
                    MotorCommand::Velocity => Ok(MotorAction::Velocity(joint_value)),
                    MotorCommand::Torque => Ok(MotorAction::Torque(joint_value)),
                }
            },
        }
    }
}

/// Decide what `command` asks of a motor, before any device is touched.
pub fn dispatch(
    configured: MotorCommand,
    command: &WireCommand,
    gear_ratio: Binary64,
    joint_value: Binary64,
) -> (action: Result<MotorAction, MotorCommandFault>)
    ensures
        action == dispatched(configured, *command, gear_ratio, joint_value),
        action matches Err(fault) ==> fault.well_formed(),
{
    let (received, value) = match *command {
        WireCommand::Position(value) => (WireMotorCommandMode::Position, Some(value)),
        WireCommand::Velocity(value) => (WireMotorCommandMode::Velocity, Some(value)),
        WireCommand::Torque(value) => (WireMotorCommandMode::Torque, Some(value)),
        WireCommand::Stop => (WireMotorCommandMode::Stop, None),
    };

    let matches = match (configured, received) {
        (MotorCommand::Position, WireMotorCommandMode::Position) => true,
        (MotorCommand::Velocity, WireMotorCommandMode::Velocity) => true,
        (MotorCommand::Torque, WireMotorCommandMode::Torque) => true,
        (_, WireMotorCommandMode::Stop) => true,
        _ => false,
    };
    if !matches {
        return Err(MotorCommandFault::ModeMismatch { configured, received });
    }
    let value = match value {
        None => return Ok(MotorAction::Stop),
        Some(value) => value,
    };
    if !value.is_finite() {
        return Err(MotorCommandFault::NonFinite { mode: received, value });
    }
    if !gear_ratio.is_finite() || gear_ratio.is_zero() {
        return Err(MotorCommandFault::InvalidGearRatio(gear_ratio));
    }
    if !joint_value.is_finite() {
        return Err(MotorCommandFault::NonFinite { mode: received, value: joint_value });
    }
    Ok(
        match received {
            WireMotorCommandMode::Position => MotorAction::Position(joint_value),
            WireMotorCommandMode::Velocity => MotorAction::Velocity(joint_value),
            WireMotorCommandMode::Torque => MotorAction::Torque(joint_value),
            WireMotorCommandMode::Stop => MotorAction::Stop,
        },
    )
}

/// Zero.
pub open spec fn zero() -> Binary64 {
    Binary64 { bits: 0 }
}

/// Positive infinity.
pub open spec fn infinity() -> Binary64 {
    Binary64 { bits: INFINITY_BITS }
}

impl MotorAction {
    /// The writes that carry this action out on a motor configured for
    /// `configured`, in order.
    pub open spec fn writes(self, configured: MotorCommand) -> Seq<MotorWrite> {
        match self {
            MotorAction::Position(value) => seq![MotorWrite::SetPosition(value)],
            MotorAction::Velocity(value) => seq![
                MotorWrite::SetPosition(infinity()),
                MotorWrite::SetVelocity(value),
            ],
            MotorAction::Torque(value) => seq![
                MotorWrite::SetPosition(infinity()),
                MotorWrite::SetTorque(value),
            ],
            MotorAction::Stop => match configured {
                MotorCommand::Position => seq![MotorWrite::SetVelocity(zero())],
                MotorCommand::Velocity => seq![
                    MotorWrite::SetPosition(infinity()),
                    MotorWrite::SetVelocity(zero()),
                ],
                MotorCommand::Torque => seq![
                    MotorWrite::SetPosition(infinity()),
                    MotorWrite::SetTorque(zero()),
                ],
            },
        }
    }
}

/// The part of a bound motor that decides what is written to its device.
#[derive(Clone, Copy, Debug, PartialEq, Eq, Structural)]
pub struct NativeMotor {
    pub actuator_type: MotorCommand,
    pub gear_ratio: Binary64,
}

impl NativeMotor {
    /// A motor as its specification configures it.
    pub fn new(spec: &MotorSpec) -> (motor: NativeMotor)
        ensures
            motor.actuator_type == spec.actuator_type,
            motor.gear_ratio == spec.gear_ratio,
    {
        NativeMotor { actuator_type: spec.actuator_type, gear_ratio: spec.gear_ratio }
    }

    /// The writes `command` comes to, in order, or why none are made.
    pub open spec fn planned(self, command: WireCommand, joint_value: Binary64) -> Result<
        Seq<MotorWrite>,
        MotorCommandFault,
    > {
        match dispatched(self.actuator_type, command, self.gear_ratio, joint_value) {
            Ok(action) => Ok(action.writes(self.actuator_type)),
            Err(fault) => Err(fault),
        }
    }

    /// The device writes that apply `command`, in order, or why it is refused.
    ///
    /// `joint_value` is the host's quotient of the command's value by the gear
    /// ratio.
    pub fn apply(&self, command: &WireCommand, joint_value: Binary64) -> (writes: Result<
        Vec<MotorWrite>,
        MotorCommandFault,
    >)
        ensures
            match self.planned(*command, joint_value) {
                Ok(planned) => writes matches Ok(list) && list@ == planned,
                Err(fault) => writes == Err::<Vec<MotorWrite>, _>(fault) && fault.well_formed(),
            },
    {
        let action = match dispatch(self.actuator_type, command, self.gear_ratio, joint_value) {
            Ok(action) => action,
            Err(fault) => return Err(fault),
        };
        let mut writes: Vec<MotorWrite> = Vec::new();
        let released = MotorWrite::SetPosition(Binary64::from_bits(INFINITY_BITS));
        match action {
            MotorAction::Position(value) => writes.push(MotorWrite::SetPosition(value)),
            MotorAction::Velocity(value) => {
                writes.push(released);
                writes.push(MotorWrite::SetVelocity(value));
            },
            MotorAction::Torque(value) => {
                writes.push(released);
                writes.push(MotorWrite::SetTorque(value));
            },
            MotorAction::Stop => {
                let still = Binary64::from_bits(0);
                match self.actuator_type {
                    MotorCommand::Position => writes.push(MotorWrite::SetVelocity(still)),
                    MotorCommand::Velocity => {
                        writes.push(released);
                        writes.push(MotorWrite::SetVelocity(still));
                    },
                    MotorCommand::Torque => {
                        writes.push(released);
                        writes.push(MotorWrite::SetTorque(still));
                    },
                }
            },
        }
        assert(writes@ == action.writes(self.actuator_type));
        Ok(writes)
    }

    /// Leave the motor quiet: a simulation that stopped, or a step with no live
    /// authorised command, must not keep the wheel turning.
    pub fn stop(&self) -> (writes: Vec<MotorWrite>)
        ensures
            writes@ == MotorAction::Stop.writes(self.actuator_type),
    {
        match self.apply(&WireCommand::Stop, Binary64::from_bits(0)) {
            Ok(writes) => writes,
            Err(_) => vstd::pervasive::unreached(),
        }
    }
}

/// A command in a mode the motor is not configured for is refused before any
/// device is touched, whatever it carries.
pub proof fn law_a_mode_mismatch_moves_nothing(
    motor: NativeMotor,
    command: WireCommand,
    joint_value: Binary64,
)
    requires
        command != WireCommand::Stop,
        match command {
            WireCommand::Position(_) => motor.actuator_type != MotorCommand::Position,
            WireCommand::Velocity(_) => motor.actuator_type != MotorCommand::Velocity,
            WireCommand::Torque(_) => motor.actuator_type != MotorCommand::Torque,
            WireCommand::Stop => true,
        },
    ensures
        motor.planned(command, joint_value) == Err::<Seq<MotorWrite>, _>(
            MotorCommandFault::ModeMismatch {
                configured: motor.actuator_type,
                received: command.mode(),
            },
        ),
{
}

/// `Stop` is accepted by every motor, whatever its gear ratio and whatever the
/// host computed.
pub proof fn law_stop_is_always_accepted(motor: NativeMotor, joint_value: Binary64)
    ensures
        dispatched(motor.actuator_type, WireCommand::Stop, motor.gear_ratio, joint_value) == Ok::<
            _,
            MotorCommandFault,
        >(MotorAction::Stop),
        motor.planned(WireCommand::Stop, joint_value) == Ok::<_, MotorCommandFault>(
            MotorAction::Stop.writes(motor.actuator_type),
        ),
{
}

/// Nothing but a finite target is ever written, except the infinite position
/// that releases one; and a velocity or torque motor is released before its
/// target is written.
pub proof fn law_only_finite_targets_are_written(
    motor: NativeMotor,
    command: WireCommand,
    joint_value: Binary64,
)
    requires
        motor.planned(command, joint_value) is Ok,
    ensures
        ({
            let writes = motor.planned(command, joint_value)->Ok_0;
            &&& 1 <= writes.len() <= 2
            &&& match writes.last() {
                MotorWrite::SetPosition(value) => value.finite(),
                MotorWrite::SetVelocity(value) => value.finite(),
                MotorWrite::SetTorque(value) => value.finite(),
            }
            &&& motor.actuator_type != MotorCommand::Position ==> writes.len() == 2
            &&& writes.len() == 2 ==> writes[0] == MotorWrite::SetPosition(infinity())
        }),
{
    assert(zero().finite());
}

/// A value that is accepted reaches the joint as the host's quotient of it by
/// the gear ratio, whatever its sign, in the write of the command's own mode; a
/// velocity and a torque are written after the position target is released.
pub proof fn law_an_accepted_value_is_written_as_its_quotient(
    motor: NativeMotor,
    value: Binary64,
    quotient: Binary64,
)
    ensures
        motor.planned(WireCommand::Position(value), quotient) matches Ok(writes) ==> writes
            == seq![MotorWrite::SetPosition(quotient)],
        motor.planned(WireCommand::Velocity(value), quotient) matches Ok(writes) ==> writes == seq![
            MotorWrite::SetPosition(Binary64 { bits: 0x7ff0_0000_0000_0000 }),
            MotorWrite::SetVelocity(quotient),
        ],
        motor.planned(WireCommand::Torque(value), quotient) matches Ok(writes) ==> writes == seq![
            MotorWrite::SetPosition(Binary64 { bits: 0x7ff0_0000_0000_0000 }),
            MotorWrite::SetTorque(quotient),
        ],
        dispatched(
            motor.actuator_type,
            WireCommand::Position(value),
            motor.gear_ratio,
            quotient,
        ) matches Ok(action) ==> action == MotorAction::Position(quotient),
        dispatched(
            motor.actuator_type,
            WireCommand::Velocity(value),
            motor.gear_ratio,
            quotient,
        ) matches Ok(action) ==> action == MotorAction::Velocity(quotient),
        dispatched(
            motor.actuator_type,
            WireCommand::Torque(value),
            motor.gear_ratio,
            quotient,
        ) matches Ok(action) ==> action == MotorAction::Torque(quotient),
{
}

/// A command in the motor's own mode is refused only for a number: its value,
/// the gear ratio or the quotient is not finite, or the gear ratio is zero; the
/// first of these is what is reported. Every other one is accepted.
pub proof fn law_a_command_in_mode_is_refused_only_for_a_number(
    motor: NativeMotor,
    command: WireCommand,
    value: Binary64,
    mode: WireMotorCommandMode,
    quotient: Binary64,
)
    requires
        (motor.actuator_type == MotorCommand::Position && command == WireCommand::Position(value)
            && mode == WireMotorCommandMode::Position) || (motor.actuator_type
            == MotorCommand::Velocity && command == WireCommand::Velocity(value) && mode
            == WireMotorCommandMode::Velocity) || (motor.actuator_type == MotorCommand::Torque
            && command == WireCommand::Torque(value) && mode == WireMotorCommandMode::Torque),
    ensures
        ({
            let ratio = motor.gear_ratio;
            let turns = ratio.finite() && ratio.bits != 0 && ratio.bits != 0x8000_0000_0000_0000;
            let planned = motor.planned(command, quotient);
            &&& planned is Ok <==> value.finite() && turns && quotient.finite()
            &&& !value.finite() ==> planned == Err::<Seq<MotorWrite>, _>(
                MotorCommandFault::NonFinite { mode, value },
            )
            &&& value.finite() && !turns ==> planned == Err::<Seq<MotorWrite>, _>(
                MotorCommandFault::InvalidGearRatio(ratio),
            )
            &&& value.finite() && turns && !quotient.finite() ==> planned == Err::<
                Seq<MotorWrite>,
                _,
            >(MotorCommandFault::NonFinite { mode, value: quotient })
        }),
{
    crate::binary64::law_classes_are_read_off_the_pattern(motor.gear_ratio);
}

/// Stopping writes a target of zero in the motor's own way: a position motor is
/// held where it is, and a velocity or torque motor is released and given none.
pub proof fn law_a_stopped_motor_is_given_zero(motor: NativeMotor, quotient: Binary64)
    ensures
        ({
            let still = Binary64 { bits: 0 };
            let released = MotorWrite::SetPosition(Binary64 { bits: 0x7ff0_0000_0000_0000 });
            motor.planned(WireCommand::Stop, quotient) == Ok::<_, MotorCommandFault>(
                match motor.actuator_type {
                    MotorCommand::Position => seq![MotorWrite::SetVelocity(still)],
                    MotorCommand::Velocity => seq![released, MotorWrite::SetVelocity(still)],
                    MotorCommand::Torque => seq![released, MotorWrite::SetTorque(still)],
                },
            )
        }),
        MotorAction::Stop.writes(motor.actuator_type) == motor.planned(
            WireCommand::Stop,
            quotient,
        )->Ok_0,
{
}

/// A command is of the mode it is written in and carries the value it is
/// written with; stopping carries none.
pub proof fn law_a_command_is_of_its_own_mode(value: Binary64)
    ensures
        WireCommand::Position(value).mode() == WireMotorCommandMode::Position,
        WireCommand::Velocity(value).mode() == WireMotorCommandMode::Velocity,
        WireCommand::Torque(value).mode() == WireMotorCommandMode::Torque,
        WireCommand::Stop.mode() == WireMotorCommandMode::Stop,
        WireCommand::Position(value).spec_value() == Some(value),
        WireCommand::Velocity(value).spec_value() == Some(value),
        WireCommand::Torque(value).spec_value() == Some(value),
        WireCommand::Stop.spec_value() is None,
{
}

/// A motor and a command of the same mode are called the same in diagnostics,
/// and those of different modes differently.
pub proof fn law_modes_are_told_apart_by_name(value: Binary64)
    ensures
        MotorCommand::Position.spec_name() == WireCommand::Position(value).mode().spec_name(),
        MotorCommand::Velocity.spec_name() == WireCommand::Velocity(value).mode().spec_name(),
        MotorCommand::Torque.spec_name() == WireCommand::Torque(value).mode().spec_name(),
        forall|a: WireMotorCommandMode, b: WireMotorCommandMode|
            (#[trigger] a.spec_name()) == (#[trigger] b.spec_name()) ==> a == b,
{
    reveal_strlit("Position");
    reveal_strlit("Velocity");
    reveal_strlit("Torque");
    reveal_strlit("Stop");
    assert("Position"@[0] == 'P' && "Velocity"@[0] == 'V' && "Torque"@[0] == 'T' && "Stop"@[0]
        == 'S');
}

} // verus!
