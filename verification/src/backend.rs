//! The world the controller steps, and the order one step touches it in.
//!
//! The host performs each call into Webots and into the bound capabilities, and
//! hands the outcome back; what comes next is decided here.

use crate::binary64::Binary64;
use vstd::prelude::*;
use vstd::string::*;

verus! {

/// Why the world's own readings describe no usable step or instant.
#[derive(Clone, Copy, Debug, PartialEq, Eq, Structural)]
pub enum WorldFault {
    /// The world's `basicTimeStep` is negative.
    StepNegative,
    /// The world's `basicTimeStep` describes no advance at all.
    StepZero,
    /// The world's clock is not a finite instant at or after its start.
    TimeNotFinite,
    /// The world's clock lies beyond the nanosecond domain.
    TimeOverflows,
}

impl WorldFault {
    /// What is wrong.
    pub open spec fn text(self) -> Seq<char> {
        match self {
            WorldFault::StepNegative => "Webots basicTimeStep must be a positive integer"@,
            WorldFault::StepZero => "Webots basicTimeStep must be > 0"@,
            WorldFault::TimeNotFinite => "Webots simulation time must be finite and >= 0"@,
            WorldFault::TimeOverflows => "Webots simulation time overflows nanoseconds"@,
        }
    }

    /// The cause behind it: a negative step is a number out of the range of
    /// steps.
    pub open spec fn spec_cause(self) -> Option<Seq<char>> {
        match self {
            WorldFault::StepNegative => Some("out of range integral type conversion attempted"@),
            _ => None,
        }
    }

    /// The diagnostic an operator reads: what is wrong, and then the cause
    /// behind it, where there is one.
    pub open spec fn chain(self) -> Seq<char> {
        match self.spec_cause() {
            Some(cause) => self.text() + ": "@ + cause,
            None => self.text(),
        }
    }

    /// The cause behind it, where there is one.
    pub fn cause(self) -> (cause: Option<&'static str>)
        ensures
            match cause {
                Some(cause) => self.spec_cause() == Some(cause@),
                None => self.spec_cause() is None,
            },
    {
        match self {
            WorldFault::StepNegative => Some("out of range integral type conversion attempted"),
            _ => None,
        }
    }

    /// The diagnostic an operator reads.
    pub fn report(self) -> (report: String)
        ensures
            report@ == self.chain(),
    {
        let mut report = self.message();
        if let Some(cause) = self.cause() {
            report.append(": ");
            report.append(cause);
        }
        report
    }

    /// What is wrong.
    pub fn message(self) -> (message: String)
        ensures
            message@ == self.text(),
    {
        match self {
            WorldFault::StepNegative => "Webots basicTimeStep must be a positive integer".to_owned(),
            WorldFault::StepZero => "Webots basicTimeStep must be > 0".to_owned(),
            WorldFault::TimeNotFinite => "Webots simulation time must be finite and >= 0".to_owned(),
            WorldFault::TimeOverflows => "Webots simulation time overflows nanoseconds".to_owned(),
        }
    }
}

/// What the world's `basicTimeStep` reading is as a whole number of
/// milliseconds: rounded to the nearest, halves away from zero, held to the
/// 32-bit range, and zero when it is not a number.
pub open spec fn whole_milliseconds(reading: Binary64) -> int {
    if reading.nan() {
        0
    } else if reading.below_zero() {
        if reading.rounded_magnitude() > 0x8000_0000 {
            i32::MIN as int
        } else {
            -(reading.rounded_magnitude() as int)
        }
    } else if reading.rounded_magnitude() > i32::MAX {
        i32::MAX as int
    } else {
        reading.rounded_magnitude() as int
    }
}

/// The world's integer control step in milliseconds, which must describe an
/// advance.
pub fn basic_time_step_ms(reading: Binary64) -> (result: Result<i32, WorldFault>)
    ensures
        result == (if whole_milliseconds(reading) < 0 {
            Err::<i32, WorldFault>(WorldFault::StepNegative)
        } else if whole_milliseconds(reading) == 0 {
            Err(WorldFault::StepZero)
        } else {
            Ok(whole_milliseconds(reading) as i32)
        }),
{
    let step_ms: i32 = if reading.is_nan() {
        0
    } else if reading.is_negative() {
        match reading.round_magnitude() {
            Some(whole) => if whole >= 0x8000_0000 {
                i32::MIN
            } else {
                -(whole as i32)
            },
            None => i32::MIN,
        }
    } else {
        match reading.round_magnitude() {
            Some(whole) => if whole > 0x7fff_ffff {
                i32::MAX
            } else {
                whole as i32
            },
            None => i32::MAX,
        }
    };
    match step_ns_from_ms(step_ms) {
        Ok(_) => Ok(step_ms),
        Err(fault) => Err(fault),
    }
}

/// The world's step length in nanoseconds. Webots reports whole milliseconds,
/// and a non-positive step describes no advance at all.
pub fn step_ns_from_ms(step_ms: i32) -> (result: Result<u64, WorldFault>)
    ensures
        match result {
            Ok(step_ns) => step_ms > 0 && step_ns == step_ms * 1_000_000,
            Err(fault) => step_ms <= 0 && fault == (if step_ms < 0 {
                WorldFault::StepNegative
            } else {
                WorldFault::StepZero
            }),
        },
{
    if step_ms < 0 {
        return Err(WorldFault::StepNegative);
    }
    if step_ms == 0 {
        return Err(WorldFault::StepZero);
    }
    Ok(step_ms as u64 * 1_000_000)
}

/// The world instant in nanoseconds, given Webots' clock in seconds and the
/// host's product of it with a thousand million.
pub open spec fn instant_of(seconds: Binary64, nanos: Binary64) -> Result<u64, WorldFault> {
    if !seconds.finite() || seconds.below_zero() {
        Err(WorldFault::TimeNotFinite)
    } else if !nanos.finite() || nanos.below_zero() || nanos.rounded_magnitude() > u64::MAX {
        Err(WorldFault::TimeOverflows)
    } else {
        Ok(nanos.rounded_magnitude() as u64)
    }
}

/// Convert Webots' seconds clock to the framework's checked nanosecond domain.
///
/// `nanos` is the host's floating-point product of `seconds` and a thousand
/// million.
pub fn simulation_time_ns(seconds: Binary64, nanos: Binary64) -> (result: Result<u64, WorldFault>)
    ensures
        result == instant_of(seconds, nanos),
{
    if !seconds.is_finite() || seconds.is_negative() {
        return Err(WorldFault::TimeNotFinite);
    }
    if !nanos.is_finite() || nanos.is_negative() {
        return Err(WorldFault::TimeOverflows);
    }
    match nanos.round_magnitude() {
        Some(time_ns) => Ok(time_ns),
        None => Err(WorldFault::TimeOverflows),
    }
}

/// The clock is converted exactly where it is finite, not negative and, in
/// nanoseconds, below the end of the 64-bit domain; it never saturates, and the
/// instant is the nearest whole nanosecond.
pub proof fn law_the_clock_never_saturates(seconds: Binary64, nanos: Binary64)
    ensures
        instant_of(seconds, nanos) is Ok <==> seconds.finite() && !seconds.below_zero()
            && nanos.finite() && !nanos.below_zero() && nanos.magnitude()
            < 0x1_0000_0000_0000_0000 * crate::binary64::one_unit(),
        instant_of(seconds, nanos) matches Ok(time_ns) ==> 2 * nanos.magnitude() <= (2 * time_ns
            + 1) * crate::binary64::one_unit() && (2 * time_ns) * crate::binary64::one_unit() <= 2
            * nanos.magnitude() + crate::binary64::one_unit(),
{
    crate::binary64::law_rounding_fits_below_the_limit(nanos);
    crate::binary64::law_rounding_is_nearest(nanos);
}

/// A clock that is not a finite instant at or after the start is told from one
/// that is, but lies beyond the nanosecond domain.
pub proof fn law_an_unusable_clock_says_why(seconds: Binary64, nanos: Binary64)
    ensures
        !seconds.finite() || seconds.below_zero() ==> instant_of(seconds, nanos) == Err::<u64, _>(
            WorldFault::TimeNotFinite,
        ),
        seconds.finite() && !seconds.below_zero() && instant_of(seconds, nanos) is Err
            ==> instant_of(seconds, nanos) == Err::<u64, _>(WorldFault::TimeOverflows),
{
}

/// The world's step is the whole number of milliseconds nearest to its reading,
/// halves away from zero, as long as that is a 32-bit number; a reading beyond
/// is held to the last one there, and one that is no number is no step.
pub proof fn law_the_step_is_the_nearest_millisecond(reading: Binary64)
    ensures
        ({
            let one = crate::binary64::one_unit();
            let step = whole_milliseconds(reading);
            let double = 2 * reading.magnitude();
            &&& reading.nan() ==> step == 0
            &&& !reading.nan() && !reading.below_zero() ==> {
                &&& 0 <= step <= 0x7fff_ffff
                &&& double < 0xffff_ffff * one ==> double < (2 * step + 1) * one && (2 * step)
                    * one <= double + one
                &&& double >= 0xffff_ffff * one ==> step == 0x7fff_ffff
            }
            &&& reading.below_zero() ==> {
                &&& -0x8000_0000 <= step <= 0
                &&& double < 0x1_0000_0001 * one ==> double < (1 - 2 * step) * one && (-2 * step)
                    * one <= double + one
                &&& double >= 0x1_0000_0001 * one ==> step == -0x8000_0000
            }
        }),
{
    let one = crate::binary64::one_unit() as int;
    vstd::arithmetic::power2::lemma_pow2_pos(crate::binary64::ONE_SCALE as nat);
    crate::binary64::law_rounding_is_nearest(reading);
    let m = reading.magnitude() as int;
    let r = reading.rounded_magnitude() as int;
    assert(r <= 0x7fff_ffff <==> 2 * m < 0xffff_ffff * one) by (nonlinear_arith)
        requires
            2 * m < (2 * r + 1) * one,
            (2 * r) * one <= 2 * m + one,
            one > 0,
    ;
    assert(r <= 0x8000_0000 <==> 2 * m < 0x1_0000_0001 * one) by (nonlinear_arith)
        requires
            2 * m < (2 * r + 1) * one,
            (2 * r) * one <= 2 * m + one,
            one > 0,
    ;
}

/// A positive reading that is a whole number of milliseconds is its own step.
pub proof fn law_a_whole_reading_is_its_own_step(reading: Binary64, whole: nat)
    requires
        reading.above_zero(),
        reading.magnitude() == whole * crate::binary64::one_unit(),
        whole <= i32::MAX,
    ensures
        whole_milliseconds(reading) == whole,
{
    crate::binary64::law_whole_numbers_round_to_themselves(reading, whole);
}

/// A clock that is no earlier gives an instant that is no earlier: time only
/// goes back where the world's own clock does.
pub proof fn law_an_ordered_clock_gives_ordered_instants(
    earlier_seconds: Binary64,
    earlier_nanos: Binary64,
    later_seconds: Binary64,
    later_nanos: Binary64,
)
    requires
        instant_of(earlier_seconds, earlier_nanos) is Ok,
        instant_of(later_seconds, later_nanos) is Ok,
        earlier_nanos.units() <= later_nanos.units(),
    ensures
        instant_of(earlier_seconds, earlier_nanos)->Ok_0 <= instant_of(
            later_seconds,
            later_nanos,
        )->Ok_0,
        !rewinds(
            Some(instant_of(earlier_seconds, earlier_nanos)->Ok_0),
            instant_of(later_seconds, later_nanos)->Ok_0,
        ),
{
    crate::binary64::law_rounding_is_monotone(earlier_nanos, later_nanos);
}

/// Whether an instant precedes the previous one.
pub open spec fn rewinds(previous_time_ns: Option<u64>, time_ns: u64) -> bool {
    previous_time_ns is Some && time_ns < previous_time_ns->0
}

/// Whether the world started a new history rather than continuing this one.
pub fn time_was_rewound(previous_time_ns: Option<u64>, time_ns: u64) -> (rewound: bool)
    ensures
        rewound == rewinds(previous_time_ns, time_ns),
{
    match previous_time_ns {
        Some(previous) => time_ns < previous,
        None => false,
    }
}

/// What one turn of the Webots step loop produced.
#[derive(Clone, Copy, Debug, PartialEq, Eq, Structural)]
pub enum Advance {
    /// The world advanced one step, reaching `time_ns`. `rewound` reports that
    /// this instant precedes the previous one, which is Webots starting a new
    /// world history rather than continuing this one.
    Stepped { time_ns: u64, rewound: bool },
    /// Webots asked this controller to shut down - the world was reverted,
    /// reloaded, or quit. That is how a simulation ends, not how one fails, so
    /// it is a value here rather than an error.
    Stopped,
}

/// Why the world could not be advanced.
pub enum AdvanceFault<E> {
    /// A capability or Webots itself failed.
    Device(E),
    /// Webots reported an unusable clock.
    World(WorldFault),
}

/// What the host is asked to do next while the world advances.
pub enum AdvanceAction<E> {
    /// Apply everything the graph asked of this capability.
    ApplyBacklog { channel: usize },
    /// Step the world.
    Step { step_ms: i32 },
    /// Read the world's clock.
    ReadTime,
    /// Re-anchor this capability on a rewound timeline.
    Reset { channel: usize, time_ns: u64 },
    /// The advance is over.
    Done(Result<Advance, AdvanceFault<E>>),
}

/// What came of the action the host was asked to perform.
pub enum AdvanceEvent<E> {
    /// The capability applied its backlog, or failed to.
    Applied(Result<(), E>),
    /// Webots stepped (`true`), or asked this controller to shut down.
    Stepped(Result<bool, E>),
    /// Webots' clock in seconds, and the host's product of it with a thousand
    /// million.
    TimeRead(Result<(Binary64, Binary64), E>),
    /// The capability was re-anchored, or failed to be.
    WasReset(Result<(), E>),
}

/// Where an advance stands: the event it waits for.
#[derive(Clone, Copy, Debug, PartialEq, Eq, Structural)]
pub enum AdvancePhase {
    /// No advance is under way.
    Idle,
    Applying { channel: usize },
    Stepping,
    ReadingTime,
    Resetting { channel: usize, time_ns: u64 },
}

/// The world's step length, its last instant, how many capabilities are bound
/// to it, and where an advance stands.
#[derive(Clone, Copy, Debug, PartialEq, Eq, Structural)]
pub struct BackendState {
    pub step_ms: i32,
    pub last_time_ns: Option<u64>,
    pub channels: usize,
    pub phase: AdvancePhase,
}

impl BackendState {
    /// The phase stays within the bound capabilities.
    pub open spec fn valid(self) -> bool {
        match self.phase {
            AdvancePhase::Applying { channel } => channel < self.channels,
            AdvancePhase::Resetting { channel, .. } => channel < self.channels,
            _ => true,
        }
    }

    pub open spec fn in_phase(self, phase: AdvancePhase) -> BackendState {
        BackendState { phase, ..self }
    }

    /// The turn once `channel` capabilities have applied their backlog.
    pub open spec fn after_applying<E>(self, channel: usize) -> (BackendState, AdvanceAction<E>) {
        if channel < self.channels {
            (
                self.in_phase(AdvancePhase::Applying { channel }),
                AdvanceAction::ApplyBacklog { channel },
            )
        } else {
            (self.in_phase(AdvancePhase::Stepping), AdvanceAction::Step { step_ms: self.step_ms })
        }
    }

    /// The turn once `channel` capabilities have been re-anchored at `time_ns`.
    pub open spec fn after_resetting<E>(self, channel: usize, time_ns: u64) -> (
        BackendState,
        AdvanceAction<E>,
    ) {
        if channel < self.channels {
            (
                self.in_phase(AdvancePhase::Resetting { channel, time_ns }),
                AdvanceAction::Reset { channel, time_ns },
            )
        } else {
            self.arrived(time_ns, true)
        }
    }

    /// The completed advance to `time_ns`.
    pub open spec fn arrived<E>(self, time_ns: u64, rewound: bool) -> (
        BackendState,
        AdvanceAction<E>,
    ) {
        (
            BackendState { last_time_ns: Some(time_ns), phase: AdvancePhase::Idle, ..self },
            AdvanceAction::Done(Ok(Advance::Stepped { time_ns, rewound })),
        )
    }

    /// The advance ended by `fault`.
    pub open spec fn failed<E>(self, fault: AdvanceFault<E>) -> (BackendState, AdvanceAction<E>) {
        (self.in_phase(AdvancePhase::Idle), AdvanceAction::Done(Err(fault)))
    }

    /// Whether `event` answers the action this turn waits for.
    pub open spec fn awaits<E>(self, event: AdvanceEvent<E>) -> bool {
        match event {
            AdvanceEvent::Applied(_) => self.phase is Applying,
            AdvanceEvent::Stepped(_) => self.phase is Stepping,
            AdvanceEvent::TimeRead(_) => self.phase is ReadingTime,
            AdvanceEvent::WasReset(_) => self.phase is Resetting,
        }
    }

    /// The turn after `event`, and what is asked next.
    pub open spec fn respond<E>(self, event: AdvanceEvent<E>) -> (BackendState, AdvanceAction<E>) {
        match event {
            AdvanceEvent::Applied(Err(error)) => self.failed(AdvanceFault::Device(error)),
            AdvanceEvent::Applied(Ok(())) => self.after_applying(
                (self.phase->Applying_channel + 1) as usize,
            ),
            AdvanceEvent::Stepped(Err(error)) => self.failed(AdvanceFault::Device(error)),
            AdvanceEvent::Stepped(Ok(false)) => (
                self.in_phase(AdvancePhase::Idle),
                AdvanceAction::Done(Ok(Advance::Stopped)),
            ),
            AdvanceEvent::Stepped(Ok(true)) => (
                self.in_phase(AdvancePhase::ReadingTime),
                AdvanceAction::ReadTime,
            ),
            AdvanceEvent::TimeRead(Err(error)) => self.failed(AdvanceFault::Device(error)),
            AdvanceEvent::TimeRead(Ok((seconds, nanos))) => match instant_of(seconds, nanos) {
                Err(fault) => self.failed(AdvanceFault::World(fault)),
                Ok(time_ns) => if rewinds(self.last_time_ns, time_ns) {
                    self.after_resetting(0, time_ns)
                } else {
                    self.arrived(time_ns, false)
                },
            },
            AdvanceEvent::WasReset(Err(error)) => self.failed(AdvanceFault::Device(error)),
            AdvanceEvent::WasReset(Ok(())) => self.after_resetting(
                (self.phase->Resetting_channel + 1) as usize,
                self.phase->Resetting_time_ns,
            ),
        }
    }

    /// Take ownership of a world of the given step once every capability is
    /// bound to it.
    fn new(step_ms: i32, channels: usize) -> (backend: BackendState)
        ensures
            backend == (BackendState {
                step_ms,
                last_time_ns: None,
                channels,
                phase: AdvancePhase::Idle,
            }),
            backend.valid(),
    {
        BackendState { step_ms, last_time_ns: None, channels, phase: AdvancePhase::Idle }
    }

    /// Begin to apply the graph's inputs and advance the world one step.
    fn advance<E>(&mut self) -> (action: AdvanceAction<E>)
        requires
            old(self).phase is Idle,
        ensures
            (*final(self), action) == old(self).after_applying::<E>(0),
            final(self).valid(),
    {
        self.apply_from(0)
    }

    /// Go on with the advance under way, given what came of the last action.
    ///
    /// Webots asking the controller to shut down is [`Advance::Stopped`], not
    /// an error: a reverted or quit world ends the simulation normally.
    fn resume<E>(&mut self, event: AdvanceEvent<E>) -> (action: AdvanceAction<E>)
        requires
            old(self).valid(),
            old(self).awaits(event),
        ensures
            (*final(self), action) == old(self).respond(event),
            final(self).valid(),
    {
        match event {
            AdvanceEvent::Applied(Ok(())) => match self.phase {
                AdvancePhase::Applying { channel } => self.apply_from(channel + 1),
                _ => vstd::pervasive::unreached(),
            },
            AdvanceEvent::Stepped(Ok(stepped)) => {
                if stepped {
                    self.phase = AdvancePhase::ReadingTime;
                    AdvanceAction::ReadTime
                } else {
                    self.phase = AdvancePhase::Idle;
                    AdvanceAction::Done(Ok(Advance::Stopped))
                }
            },
            AdvanceEvent::TimeRead(Ok((seconds, nanos))) => match simulation_time_ns(
                seconds,
                nanos,
            ) {
                Ok(time_ns) => {
                    if time_was_rewound(self.last_time_ns, time_ns) {
                        self.reset_from(0, time_ns)
                    } else {
                        self.arrive(time_ns, false)
                    }
                },
                Err(fault) => {
                    self.phase = AdvancePhase::Idle;
                    AdvanceAction::Done(Err(AdvanceFault::World(fault)))
                },
            },
            AdvanceEvent::WasReset(Ok(())) => match self.phase {
                AdvancePhase::Resetting { channel, time_ns } => self.reset_from(
                    channel + 1,
                    time_ns,
                ),
                _ => vstd::pervasive::unreached(),
            },
            AdvanceEvent::Applied(Err(error)) => self.fail(error),
            AdvanceEvent::Stepped(Err(error)) => self.fail(error),
            AdvanceEvent::TimeRead(Err(error)) => self.fail(error),
            AdvanceEvent::WasReset(Err(error)) => self.fail(error),
        }
    }

    fn fail<E>(&mut self, error: E) -> (action: AdvanceAction<E>)
        ensures
            (*final(self), action) == old(self).failed(AdvanceFault::Device(error)),
    {
        self.phase = AdvancePhase::Idle;
        AdvanceAction::Done(Err(AdvanceFault::Device(error)))
    }

    fn apply_from<E>(&mut self, channel: usize) -> (action: AdvanceAction<E>)
        ensures
            (*final(self), action) == old(self).after_applying::<E>(channel),
            final(self).valid(),
    {
        if channel < self.channels {
            self.phase = AdvancePhase::Applying { channel };
            AdvanceAction::ApplyBacklog { channel }
        } else {
            self.phase = AdvancePhase::Stepping;
            AdvanceAction::Step { step_ms: self.step_ms }
        }
    }

    fn reset_from<E>(&mut self, channel: usize, time_ns: u64) -> (action: AdvanceAction<E>)
        ensures
            (*final(self), action) == old(self).after_resetting::<E>(channel, time_ns),
            final(self).valid(),
    {
        if channel < self.channels {
            self.phase = AdvancePhase::Resetting { channel, time_ns };
            AdvanceAction::Reset { channel, time_ns }
        } else {
            self.arrive(time_ns, true)
        }
    }

    fn arrive<E>(&mut self, time_ns: u64, rewound: bool) -> (action: AdvanceAction<E>)
        ensures
            (*final(self), action) == old(self).arrived::<E>(time_ns, rewound),
            final(self).valid(),
    {
        self.last_time_ns = Some(time_ns);
        self.phase = AdvancePhase::Idle;
        AdvanceAction::Done(Ok(Advance::Stepped { time_ns, rewound }))
    }
}

impl BackendState {
    /// Where an advance stands after its first `count` events, and what was
    /// asked then.
    pub open spec fn turn_after<E>(self, events: Seq<AdvanceEvent<E>>, count: nat) -> (
        BackendState,
        AdvanceAction<E>,
    )
        decreases count,
    {
        if count == 0 {
            self.after_applying(0)
        } else {
            self.turn_after(events, (count - 1) as nat).0.respond(events[count - 1])
        }
    }

    /// Every event answers the action that was asked for.
    pub open spec fn answered_by<E>(self, events: Seq<AdvanceEvent<E>>) -> bool {
        forall|i: nat| i < events.len() ==> (#[trigger] self.turn_after(events, i)).0.awaits(
            events[i as int],
        )
    }

    /// How far an advance has come is decided by how many events it has seen.
    pub open spec fn progressed<E>(self, turn: (BackendState, AdvanceAction<E>), count: nat) -> bool {
        let (now, action) = turn;
        &&& now.step_ms == self.step_ms
        &&& now.channels == self.channels
        &&& match now.phase {
            AdvancePhase::Idle => action is Done,
            AdvancePhase::Applying { channel } => {
                &&& channel == count
                &&& count < self.channels
                &&& action == AdvanceAction::<E>::ApplyBacklog { channel }
                &&& now.last_time_ns == self.last_time_ns
            },
            AdvancePhase::Stepping => {
                &&& count == self.channels
                &&& action == AdvanceAction::<E>::Step { step_ms: self.step_ms }
                &&& now.last_time_ns == self.last_time_ns
            },
            AdvancePhase::ReadingTime => {
                &&& count == self.channels + 1
                &&& action == AdvanceAction::<E>::ReadTime
                &&& now.last_time_ns == self.last_time_ns
            },
            AdvancePhase::Resetting { channel, time_ns } => {
                &&& count == self.channels + 2 + channel
                &&& channel < self.channels
                &&& action == AdvanceAction::<E>::Reset { channel, time_ns }
                &&& now.last_time_ns == self.last_time_ns
                &&& rewinds(self.last_time_ns, time_ns)
            },
        }
    }
}

proof fn lemma_advance_progresses<E>(
    backend: BackendState,
    events: Seq<AdvanceEvent<E>>,
    count: nat,
)
    requires
        backend.answered_by(events),
        count <= events.len(),
    ensures
        backend.progressed(backend.turn_after(events, count), count),
    decreases count,
{
    if count > 0 {
        let before = (count - 1) as nat;
        lemma_advance_progresses(backend, events, before);
        assert(backend.turn_after(events, before).0.awaits(events[before as int]));
    }
}

/// The world steps only once every capability has applied its inputs, each
/// exactly once and in binding order.
pub proof fn law_inputs_precede_the_step<E>(
    backend: BackendState,
    events: Seq<AdvanceEvent<E>>,
    count: nat,
)
    requires
        backend.answered_by(events),
        count <= events.len(),
        backend.turn_after(events, count).1 is Step,
    ensures
        count == backend.channels,
        backend.turn_after(events, count).1 == (AdvanceAction::<E>::Step {
            step_ms: backend.step_ms,
        }),
        forall|channel: usize|
            channel < backend.channels ==> (#[trigger] backend.turn_after(
                events,
                channel as nat,
            )).1 == (AdvanceAction::<E>::ApplyBacklog { channel }),
{
    lemma_advance_progresses(backend, events, count);
    assert forall|channel: usize| channel < backend.channels implies (
    #[trigger] backend.turn_after(events, channel as nat)).1 == (AdvanceAction::<
        E,
    >::ApplyBacklog { channel }) by {
        lemma_advance_progresses(backend, events, channel as nat);
        assert(backend.turn_after(events, channel as nat).0.awaits(events[channel as int]));
    }
}

/// An advance reports a rewind exactly when its instant precedes the previous
/// one, and remembers the instant it reached.
pub proof fn law_a_rewind_is_an_earlier_instant<E>(
    backend: BackendState,
    events: Seq<AdvanceEvent<E>>,
    count: nat,
    time_ns: u64,
    rewound: bool,
)
    requires
        backend.answered_by(events),
        count <= events.len(),
        backend.turn_after(events, count).1 == AdvanceAction::<E>::Done(
            Ok(Advance::Stepped { time_ns, rewound }),
        ),
    ensures
        rewound == rewinds(backend.last_time_ns, time_ns),
        backend.turn_after(events, count).0.last_time_ns == Some(time_ns),
        count == if rewound {
            2 * backend.channels + 2
        } else {
            backend.channels + 2
        },
{
    lemma_advance_progresses(backend, events, count);
    if count > 0 {
        let before = (count - 1) as nat;
        lemma_advance_progresses(backend, events, before);
        assert(backend.turn_after(events, before).0.awaits(events[before as int]));
    }
}

/// Before a rewound advance is reported, every capability has been re-anchored
/// at the instant the world rewound to, in binding order.
pub proof fn law_a_rewind_resets_every_capability<E>(
    backend: BackendState,
    events: Seq<AdvanceEvent<E>>,
    count: nat,
    time_ns: u64,
)
    requires
        backend.answered_by(events),
        count <= events.len(),
        backend.turn_after(events, count).1 == AdvanceAction::<E>::Done(
            Ok(Advance::Stepped { time_ns, rewound: true }),
        ),
    ensures
        forall|channel: nat|
            channel < backend.channels ==> (#[trigger] backend.turn_after(
                events,
                (backend.channels + 2 + channel) as nat,
            )).1 == (AdvanceAction::<E>::Reset { channel: channel as usize, time_ns }),
{
    law_a_rewind_is_an_earlier_instant(backend, events, count, time_ns, true);
    assert forall|channel: nat| channel < backend.channels implies (#[trigger] backend.turn_after(
        events,
        (backend.channels + 2 + channel) as nat,
    )).1 == (AdvanceAction::<E>::Reset { channel: channel as usize, time_ns }) by {
        lemma_resets_share_the_instant(backend, events, count, time_ns, channel);
    }
}

proof fn lemma_resets_share_the_instant<E>(
    backend: BackendState,
    events: Seq<AdvanceEvent<E>>,
    count: nat,
    time_ns: u64,
    channel: nat,
)
    requires
        backend.answered_by(events),
        count == 2 * backend.channels + 2,
        count <= events.len(),
        backend.turn_after(events, count).1 == AdvanceAction::<E>::Done(
            Ok(Advance::Stepped { time_ns, rewound: true }),
        ),
        channel < backend.channels,
    ensures
        backend.turn_after(events, (backend.channels + 2 + channel) as nat).0.phase == (
        AdvancePhase::Resetting { channel: channel as usize, time_ns }),
        backend.turn_after(events, (backend.channels + 2 + channel) as nat).1 == (AdvanceAction::<
            E,
        >::Reset { channel: channel as usize, time_ns }),
    decreases backend.channels - channel,
{
    let at = (backend.channels + 2 + channel) as nat;
    lemma_advance_progresses(backend, events, at);
    assert(backend.turn_after(events, at).0.awaits(events[at as int]));
    if channel + 1 < backend.channels {
        lemma_resets_share_the_instant(backend, events, count, time_ns, channel + 1);
        assert(backend.turn_after(events, (at + 1) as nat) == backend.turn_after(
            events,
            at,
        ).0.respond(events[at as int]));
    } else {
        assert(at + 1 == count);
    }
}

/// An advance that does not complete leaves the last instant as it was.
pub proof fn law_only_a_completed_advance_moves_time<E>(
    backend: BackendState,
    events: Seq<AdvanceEvent<E>>,
    count: nat,
)
    requires
        backend.answered_by(events),
        count <= events.len(),
        !(backend.turn_after(events, count).1 matches AdvanceAction::Done(
            Ok(Advance::Stepped { .. }),
        )),
    ensures
        backend.turn_after(events, count).0.last_time_ns == backend.last_time_ns,
{
    lemma_advance_progresses(backend, events, count);
    if count > 0 {
        let before = (count - 1) as nat;
        lemma_advance_progresses(backend, events, before);
        assert(backend.turn_after(events, before).0.awaits(events[before as int]));
    }
}

/// While every capability applies its inputs, the next is asked in turn, and
/// after the last the world is stepped by its own step.
pub proof fn law_the_world_steps_once_every_input_is_applied<E>(
    backend: BackendState,
    events: Seq<AdvanceEvent<E>>,
    count: nat,
)
    requires
        backend.answered_by(events),
        count <= events.len(),
        count <= backend.channels,
        forall|i: int| 0 <= i < count ==> ((#[trigger] events[i]) matches AdvanceEvent::Applied(Ok(_))),
    ensures
        backend.turn_after(events, count).1 == if count < backend.channels {
            AdvanceAction::<E>::ApplyBacklog { channel: count as usize }
        } else {
            AdvanceAction::<E>::Step { step_ms: backend.step_ms }
        },
    decreases count,
{
    lemma_advance_progresses(backend, events, count);
    if count > 0 {
        let before = (count - 1) as nat;
        law_the_world_steps_once_every_input_is_applied(backend, events, before);
        lemma_advance_progresses(backend, events, before);
        assert(backend.turn_after(events, before).0.awaits(events[before as int]));
    }
}

/// A world that stepped has its clock read, and one that did not has stopped.
pub proof fn law_a_stepped_world_has_its_clock_read<E>(
    backend: BackendState,
    events: Seq<AdvanceEvent<E>>,
    at: nat,
    stepped: bool,
)
    requires
        backend.answered_by(events),
        at < events.len(),
        events[at as int] == AdvanceEvent::<E>::Stepped(Ok(stepped)),
    ensures
        backend.turn_after(events, at + 1).1 == if stepped {
            AdvanceAction::<E>::ReadTime
        } else {
            AdvanceAction::<E>::Done(Ok(Advance::Stopped))
        },
{
    assert(backend.turn_after(events, at).0.awaits(events[at as int]));
}

/// Whatever fails ends the advance, and is what it ends with; so does a clock
/// that gives no instant.
pub proof fn law_a_failed_advance_says_what_failed<E>(
    backend: BackendState,
    events: Seq<AdvanceEvent<E>>,
    at: nat,
)
    requires
        backend.answered_by(events),
        at < events.len(),
    ensures
        ({
            let next = backend.turn_after(events, at + 1).1;
            match events[at as int] {
                AdvanceEvent::Applied(Err(error)) => next == AdvanceAction::<E>::Done(
                    Err(AdvanceFault::Device(error)),
                ),
                AdvanceEvent::Stepped(Err(error)) => next == AdvanceAction::<E>::Done(
                    Err(AdvanceFault::Device(error)),
                ),
                AdvanceEvent::TimeRead(Err(error)) => next == AdvanceAction::<E>::Done(
                    Err(AdvanceFault::Device(error)),
                ),
                AdvanceEvent::WasReset(Err(error)) => next == AdvanceAction::<E>::Done(
                    Err(AdvanceFault::Device(error)),
                ),
                AdvanceEvent::TimeRead(Ok((seconds, nanos))) => instant_of(
                    seconds,
                    nanos,
                ) matches Err(fault) ==> next == AdvanceAction::<E>::Done(
                    Err(AdvanceFault::World(fault)),
                ),
                _ => true,
            }
        }),
        events.len() > at + 1 ==> !(backend.turn_after(events, at + 1).1 is Done),
{
    assert(backend.turn_after(events, at).0.awaits(events[at as int]));
    if events.len() > at + 1 {
        lemma_advance_progresses(backend, events, at + 1);
        assert(backend.turn_after(events, at + 1).0.awaits(events[(at + 1) as int]));
    }
}

/// A completed advance reached the instant its clock was read at: a continued
/// history at once, and a rewound one after every capability, each in turn, was
/// re-anchored there.
pub proof fn law_an_advance_reaches_the_instant_of_its_clock<E>(
    backend: BackendState,
    events: Seq<AdvanceEvent<E>>,
    at: nat,
    seconds: Binary64,
    nanos: Binary64,
    resets: nat,
)
    requires
        backend.answered_by(events),
        at + resets < events.len(),
        events[at as int] == AdvanceEvent::<E>::TimeRead(Ok((seconds, nanos))),
        instant_of(seconds, nanos) is Ok,
        resets <= backend.channels,
        forall|i: int|
            at < i <= at + resets ==> ((#[trigger] events[i]) matches AdvanceEvent::WasReset(Ok(_))),
    ensures
        ({
            let time_ns = instant_of(seconds, nanos)->Ok_0;
            let rewound = backend.last_time_ns is Some && time_ns < backend.last_time_ns->0;
            &&& !rewound ==> backend.turn_after(events, at + 1).1 == AdvanceAction::<E>::Done(
                Ok(Advance::Stepped { time_ns, rewound: false }),
            )
            &&& rewound ==> backend.turn_after(events, at + 1 + resets).1 == if resets
                < backend.channels {
                AdvanceAction::<E>::Reset { channel: resets as usize, time_ns }
            } else {
                AdvanceAction::<E>::Done(Ok(Advance::Stepped { time_ns, rewound: true }))
            }
        }),
    decreases resets,
{
    lemma_advance_progresses(backend, events, at);
    assert(backend.turn_after(events, at).0.awaits(events[at as int]));
    let time_ns = instant_of(seconds, nanos)->Ok_0;
    let rewound = backend.last_time_ns is Some && time_ns < backend.last_time_ns->0;
    if resets > 0 {
        let fewer = (resets - 1) as nat;
        law_an_advance_reaches_the_instant_of_its_clock(
            backend,
            events,
            at,
            seconds,
            nanos,
            fewer,
        );
        if rewound {
            let before = (at + resets) as nat;
            assert(before == at + 1 + fewer);
            lemma_advance_progresses(backend, events, before);
            assert(backend.turn_after(events, before).0.awaits(events[before as int]));
        }
    }
}

/// What the host is asked to do next while a completed step is published.
pub enum PublishAction<E> {
    /// Read and publish this capability for the step.
    Publish { channel: usize },
    /// The step's outputs are out, or one of them was refused.
    Done(Result<(), E>),
}

/// How many capabilities have published the step, and how many are to.
#[derive(Clone, Copy, Debug, PartialEq, Eq, Structural)]
pub struct PublishState {
    pub channel: usize,
    pub channels: usize,
}

impl PublishState {
    /// What is asked when `channel` capabilities have published.
    pub open spec fn asks<E>(self) -> PublishAction<E> {
        if self.channel < self.channels {
            PublishAction::Publish { channel: self.channel }
        } else {
            PublishAction::Done(Ok(()))
        }
    }

    /// The turn once `result` has come of publishing its current capability,
    /// and what is asked next.
    pub open spec fn respond<E>(self, result: Result<(), E>) -> (PublishState, PublishAction<E>) {
        match result {
            Ok(()) => {
                let next = PublishState { channel: (self.channel + 1) as usize, ..self };
                (next, next.asks())
            },
            Err(error) => (self, PublishAction::Done(Err(error))),
        }
    }

    /// Where the turn stands once `results` have come in, and what was asked
    /// then.
    pub open spec fn turn_after<E>(channels: usize, results: Seq<Result<(), E>>) -> (
        PublishState,
        PublishAction<E>,
    )
        decreases results.len(),
    {
        if results.len() == 0 {
            let first = PublishState { channel: 0, channels };
            (first, first.asks())
        } else {
            Self::turn_after(channels, results.drop_last()).0.respond(results.last())
        }
    }

    /// Begin to publish a step over `channels` capabilities.
    fn begin<E>(channels: usize) -> (turn: (PublishState, PublishAction<E>))
        ensures
            turn.0 == (PublishState { channel: 0, channels }),
            turn.1 == turn.0.asks::<E>(),
    {
        if 0 < channels {
            (PublishState { channel: 0, channels }, PublishAction::Publish { channel: 0 })
        } else {
            (PublishState { channel: 0, channels }, PublishAction::Done(Ok(())))
        }
    }

    /// Go on, given what came of publishing the current capability.
    fn resume<E>(&mut self, result: Result<(), E>) -> (action: PublishAction<E>)
        requires
            old(self).channel < old(self).channels,
        ensures
            (*final(self), action) == old(self).respond(result),
    {
        match result {
            Ok(()) => {
                self.channel = self.channel + 1;
                if self.channel < self.channels {
                    PublishAction::Publish { channel: self.channel }
                } else {
                    PublishAction::Done(Ok(()))
                }
            },
            Err(error) => PublishAction::Done(Err(error)),
        }
    }
}

/// A step is published capability by capability in binding order, each once,
/// until all are out or one of them fails, which ends it.
pub proof fn law_publishing_runs_in_binding_order<E>(channels: usize, results: Seq<Result<(), E>>)
    requires
        results.len() <= channels,
        forall|i: int| 0 <= i < results.len() - 1 ==> (#[trigger] results[i]) is Ok,
    ensures
        results.len() == 0 || results.last() is Ok ==> PublishState::turn_after(channels, results).1
            == if results.len() < channels {
            PublishAction::<E>::Publish { channel: results.len() as usize }
        } else {
            PublishAction::<E>::Done(Ok(()))
        },
        results.len() > 0 ==> (results.last() matches Err(error) ==> PublishState::turn_after(
            channels,
            results,
        ).1 == PublishAction::Done(Err::<(), E>(error))),
{
    if results.len() > 0 {
        lemma_published(channels, results.drop_last());
    }
}

proof fn lemma_published<E>(channels: usize, results: Seq<Result<(), E>>)
    requires
        results.len() <= channels,
        forall|i: int| 0 <= i < results.len() ==> (#[trigger] results[i]) is Ok,
    ensures
        PublishState::turn_after(channels, results).0 == (PublishState {
            channel: results.len() as usize,
            channels,
        }),
    decreases results.len(),
{
    if results.len() > 0 {
        lemma_published(channels, results.drop_last());
    }
}

/// How many capabilities have been asked to park, how many are to, and the
/// first failure among them.
pub struct ParkState<E> {
    pub channel: usize,
    pub channels: usize,
    pub first_error: Option<E>,
}

impl<E> ParkState<E> {
    /// The turn once `outcome` has been recorded for its current capability.
    pub open spec fn with_outcome(self, outcome: Result<(), E>) -> ParkState<E> {
        ParkState {
            channel: (self.channel + 1) as usize,
            channels: self.channels,
            first_error: match (self.first_error, outcome) {
                (None, Err(error)) => Some(error),
                _ => self.first_error,
            },
        }
    }

    /// The turn once `outcomes` have been recorded in turn.
    pub open spec fn recorded(self, outcomes: Seq<Result<(), E>>) -> ParkState<E>
        decreases outcomes.len(),
    {
        if outcomes.len() == 0 {
            self
        } else {
            self.recorded(outcomes.drop_last()).with_outcome(outcomes.last())
        }
    }

    /// Begin to park `channels` capabilities.
    fn begin(channels: usize) -> (turn: ParkState<E>)
        ensures
            turn == (ParkState::<E> { channel: 0, channels, first_error: None }),
    {
        ParkState { channel: 0, channels, first_error: None }
    }

    /// The capability to park next, until every one has been asked.
    fn next_channel(&self) -> (channel: Option<usize>)
        ensures
            channel == if self.channel < self.channels {
                Some(self.channel)
            } else {
                None
            },
    {
        if self.channel < self.channels {
            Some(self.channel)
        } else {
            None
        }
    }

    /// Record what came of parking the current capability, and move on.
    fn record(&mut self, outcome: Result<(), E>)
        requires
            old(self).channel < old(self).channels,
        ensures
            *final(self) == old(self).with_outcome(outcome),
    {
        self.channel = self.channel + 1;
        if let Err(error) = outcome {
            if self.first_error.is_none() {
                self.first_error = Some(error);
            }
        }
    }

    /// The first failure, if any capability could not be parked.
    fn finish(self) -> (result: Result<(), E>)
        requires
            self.channel == self.channels,
        ensures
            result == match self.first_error {
                Some(error) => Err::<(), E>(error),
                None => Ok(()),
            },
    {
        match self.first_error {
            Some(error) => Err(error),
            None => Ok(()),
        }
    }
}

/// Parking never stops early, and what it reports is the first failure.
pub proof fn law_parking_visits_every_capability<E>(
    channels: usize,
    outcomes: Seq<Result<(), E>>,
)
    requires
        outcomes.len() <= channels,
    ensures
        ({
            let turn = (ParkState::<E> { channel: 0, channels, first_error: None }).recorded(
                outcomes,
            );
            &&& turn.channel == outcomes.len()
            &&& turn.channels == channels
            &&& match turn.first_error {
                None => forall|i: int| 0 <= i < outcomes.len() ==> #[trigger] outcomes[i] is Ok,
                Some(error) => exists|i: int|
                    0 <= i < outcomes.len() && #[trigger] outcomes[i] == Err::<(), E>(error) && (
                    forall|j: int| 0 <= j < i ==> #[trigger] outcomes[j] is Ok),
            }
        }),
    decreases outcomes.len(),
{
    if outcomes.len() > 0 {
        let earlier = outcomes.drop_last();
        law_parking_visits_every_capability(channels, earlier);
        let last = outcomes.len() - 1;
        let before = (ParkState::<E> { channel: 0, channels, first_error: None }).recorded(earlier);
        match before.first_error {
            Some(error) => {
                let i = choose|i: int|
                    0 <= i < earlier.len() && #[trigger] earlier[i] == Err::<(), E>(error) && (
                    forall|j: int| 0 <= j < i ==> #[trigger] earlier[j] is Ok);
                assert(outcomes[i] == earlier[i]);
                assert forall|j: int| 0 <= j < i implies #[trigger] outcomes[j] is Ok by {
                    assert(outcomes[j] == earlier[j]);
                }
            },
            None => {
                assert forall|j: int| 0 <= j < last implies #[trigger] outcomes[j] is Ok by {
                    assert(outcomes[j] == earlier[j]);
                }
                assert(outcomes[last] == outcomes.last());
            },
        }
    }
}

/// The world the controller steps.
#[derive(Debug)]
pub struct WebotsBackend {
    state: BackendState,
}

impl View for WebotsBackend {
    type V = BackendState;

    closed spec fn view(&self) -> BackendState {
        self.state
    }
}

impl WebotsBackend {
    #[verifier::type_invariant]
    spec fn holds_a_valid_state(self) -> bool {
        self@.valid()
    }

    /// Take ownership of a world of the given step once every capability is
    /// bound to it.
    pub fn new(step_ms: i32, channels: usize) -> (backend: WebotsBackend)
        ensures
            backend@ == (BackendState {
                step_ms,
                last_time_ns: None,
                channels,
                phase: AdvancePhase::Idle,
            }),
    {
        WebotsBackend { state: BackendState::new(step_ms, channels) }
    }

    /// The instant the last completed advance reached.
    pub fn last_time_ns(&self) -> (last_time_ns: Option<u64>)
        ensures
            last_time_ns == self@.last_time_ns,
    {
        self.state.last_time_ns
    }

    /// Begin to apply the graph's inputs and advance the world one step.
    pub fn advance<E>(&mut self) -> (action: AdvanceAction<E>)
        requires
            old(self)@.phase is Idle,
        ensures
            (final(self)@, action) == old(self)@.after_applying::<E>(0),
    {
        let mut state = self.state;
        let action = state.advance();
        self.state = state;
        action
    }

    /// Go on with the advance under way, given what came of the last action.
    ///
    /// Webots asking the controller to shut down is [`Advance::Stopped`], not
    /// an error: a reverted or quit world ends the simulation normally.
    pub fn resume<E>(&mut self, event: AdvanceEvent<E>) -> (action: AdvanceAction<E>)
        requires
            old(self)@.awaits(event),
        ensures
            (final(self)@, action) == old(self)@.respond(event),
    {
        proof {
            use_type_invariant(&*self);
        }
        let mut state = self.state;
        let action = state.resume(event);
        self.state = state;
        action
    }
}

/// Publishing one completed step: every capability in binding order, stopping
/// at the first failure.
#[derive(Debug)]
pub struct PublishTurn {
    state: PublishState,
}

impl View for PublishTurn {
    type V = PublishState;

    closed spec fn view(&self) -> PublishState {
        self.state
    }
}

impl PublishTurn {
    /// Begin to publish a step over `channels` capabilities.
    pub fn begin<E>(channels: usize) -> (turn: (PublishTurn, PublishAction<E>))
        ensures
            (turn.0@, turn.1) == PublishState::turn_after::<E>(channels, Seq::empty()),
    {
        let (state, action) = PublishState::begin(channels);
        (PublishTurn { state }, action)
    }

    /// Go on, given what came of publishing the current capability.
    pub fn resume<E>(&mut self, result: Result<(), E>) -> (action: PublishAction<E>)
        requires
            old(self)@.channel < old(self)@.channels,
        ensures
            (final(self)@, action) == old(self)@.respond(result),
    {
        self.state.resume(result)
    }
}

/// Leaving the world quiet: every capability is parked even after one of them
/// fails, because a motor left running is worse than an unreported error; the
/// first failure is what the caller sees.
pub struct ParkTurn<E> {
    state: ParkState<E>,
}

impl<E> View for ParkTurn<E> {
    type V = ParkState<E>;

    closed spec fn view(&self) -> ParkState<E> {
        self.state
    }
}

impl<E> ParkTurn<E> {
    /// Begin to park `channels` capabilities.
    pub fn begin(channels: usize) -> (turn: ParkTurn<E>)
        ensures
            turn@ == (ParkState::<E> { channel: 0, channels, first_error: None }),
    {
        ParkTurn { state: ParkState::begin(channels) }
    }

    /// The capability to park next, until every one has been asked.
    pub fn next_channel(&self) -> (channel: Option<usize>)
        ensures
            channel == if self@.channel < self@.channels {
                Some(self@.channel)
            } else {
                None
            },
    {
        self.state.next_channel()
    }

    /// Record what came of parking the current capability, and move on.
    pub fn record(&mut self, outcome: Result<(), E>)
        requires
            old(self)@.channel < old(self)@.channels,
        ensures
            final(self)@ == old(self)@.with_outcome(outcome),
    {
        self.state.record(outcome)
    }

    /// The first failure, if any capability could not be parked.
    pub fn finish(self) -> (result: Result<(), E>)
        requires
            self@.channel == self@.channels,
        ensures
            result == match self@.first_error {
                Some(error) => Err::<(), E>(error),
                None => Ok(()),
            },
    {
        self.state.finish()
    }
}

} // verus!
