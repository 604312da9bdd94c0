//! The external Webots step loop.
//!
//! Webots owns the cadence, so this controller runs no framework step loop of
//! its own. Each iteration applies the actuator inputs, advances the world one
//! step, publishes everything that step produced, and closes it with the world
//! clock.
//!
//! The host performs each of those and hands the outcome back; which comes
//! next, which step number closes a step, and what the loop ends with are
//! decided here.

use crate::backend::Advance;
use vstd::prelude::*;

verus! {

/// Why the step loop failed.
pub enum RuntimeFault<E> {
    /// The world, a device or the bus failed.
    World(E),
    /// The step counter has no further value.
    StepCounterExhausted,
}

/// The diagnostic an operator reads when the step counter is exhausted.
pub fn exhausted_message() -> (message: &'static str)
    ensures
        message@ == "Webots controller step counter exhausted"@,
{
    "Webots controller step counter exhausted"
}

/// Why the world is being left quiet.
#[derive(Clone, Copy, Debug, PartialEq, Eq, Structural)]
pub enum ParkReason {
    /// The host asked the step loop to stop.
    HostAsked,
    /// Webots asked the controller to shut down.
    WorldStopped,
    /// A step failed.
    Failed,
}

/// What the host is asked to do next.
pub enum RuntimeAction<E> {
    /// Read the stop flag.
    PollStop,
    /// Apply the graph's inputs and advance the world one step.
    Advance,
    /// Mint the token of the step that reached `time_ns`, on a fresh timeline
    /// when the world rewound, and publish every output of the step with it.
    Publish { time_ns: u64, replace_timeline: bool },
    /// Publish the clock that closes the step, stamped with the same token.
    PublishClock { time_ns: u64, step: u64 },
    /// Leave the world quiet.
    Park { reason: ParkReason },
    /// The loop is over. `unparked` is a parking failure that only accompanies
    /// an earlier one, and is reported nowhere else.
    Finish { result: Result<(), RuntimeFault<E>>, unparked: Option<E> },
}

/// What came of the action the host was asked to perform.
pub enum RuntimeEvent<E> {
    StopPolled(bool),
    Advanced(Result<Advance, E>),
    Published(Result<(), E>),
    ClockPublished(Result<(), E>),
    Parked(Result<(), E>),
}

/// Where the loop stands: the event it waits for.
#[derive(Clone, Copy, Debug, PartialEq, Eq, Structural)]
pub enum RuntimePhase {
    PollingStop,
    Advancing,
    Publishing { time_ns: u64, next_step: u64 },
    ClosingStep { time_ns: u64, next_step: u64 },
    Parking,
    Finished,
}

/// How many steps the loop has closed on the current timeline, where it stands,
/// and the failure it is stopping for.
pub struct RuntimeState<E> {
    pub step_index: u64,
    pub phase: RuntimePhase,
    pub failure: Option<RuntimeFault<E>>,
}

impl<E> RuntimeState<E> {
    /// The loop before its first step.
    pub open spec fn initial() -> RuntimeState<E> {
        RuntimeState { step_index: 0, phase: RuntimePhase::PollingStop, failure: None }
    }

    pub open spec fn in_phase(self, phase: RuntimePhase) -> RuntimeState<E> {
        RuntimeState { phase, ..self }
    }

    /// The loop leaving the world quiet for `reason`.
    pub open spec fn parking(self, reason: ParkReason, failure: Option<RuntimeFault<E>>) -> (
        RuntimeState<E>,
        RuntimeAction<E>,
    ) {
        (
            RuntimeState { phase: RuntimePhase::Parking, failure, ..self },
            RuntimeAction::Park { reason },
        )
    }

    /// Whether `event` answers the action this loop waits for.
    pub open spec fn awaits(self, event: RuntimeEvent<E>) -> bool {
        match event {
            RuntimeEvent::StopPolled(_) => self.phase is PollingStop,
            RuntimeEvent::Advanced(_) => self.phase is Advancing,
            RuntimeEvent::Published(_) => self.phase is Publishing,
            RuntimeEvent::ClockPublished(_) => self.phase is ClosingStep,
            RuntimeEvent::Parked(_) => self.phase is Parking,
        }
    }

    /// The loop after the world advanced to `time_ns`: a rewound world starts
    /// counting its steps anew.
    pub open spec fn after_advance(self, time_ns: u64, rewound: bool) -> (
        RuntimeState<E>,
        RuntimeAction<E>,
    ) {
        let closed: u64 = if rewound {
            0
        } else {
            self.step_index
        };
        let counted = RuntimeState { step_index: closed, ..self };
        if closed == u64::MAX {
            counted.parking(ParkReason::Failed, Some(RuntimeFault::StepCounterExhausted))
        } else {
            (
                counted.in_phase(
                    RuntimePhase::Publishing { time_ns, next_step: (closed + 1) as u64 },
                ),
                RuntimeAction::Publish { time_ns, replace_timeline: rewound },
            )
        }
    }

    /// The loop after `event`, and what is asked next.
    pub open spec fn respond(self, event: RuntimeEvent<E>) -> (
        RuntimeState<E>,
        RuntimeAction<E>,
    ) {
        match event {
            RuntimeEvent::StopPolled(true) => self.parking(ParkReason::HostAsked, None),
            RuntimeEvent::StopPolled(false) => (
                self.in_phase(RuntimePhase::Advancing),
                RuntimeAction::Advance,
            ),
            RuntimeEvent::Advanced(Ok(Advance::Stopped)) => self.parking(
                ParkReason::WorldStopped,
                None,
            ),
            RuntimeEvent::Advanced(Ok(Advance::Stepped { time_ns, rewound })) => self.after_advance(
                time_ns,
                rewound,
            ),
            RuntimeEvent::Published(Ok(())) => {
                let time_ns = self.phase->Publishing_time_ns;
                let next_step = self.phase->Publishing_next_step;
                (
                    self.in_phase(RuntimePhase::ClosingStep { time_ns, next_step }),
                    RuntimeAction::PublishClock { time_ns, step: next_step },
                )
            },
            RuntimeEvent::ClockPublished(Ok(())) => (
                RuntimeState {
                    step_index: self.phase->ClosingStep_next_step,
                    phase: RuntimePhase::PollingStop,
                    ..self
                },
                RuntimeAction::PollStop,
            ),
            RuntimeEvent::Advanced(Err(error)) => self.parking(
                ParkReason::Failed,
                Some(RuntimeFault::World(error)),
            ),
            RuntimeEvent::Published(Err(error)) => self.parking(
                ParkReason::Failed,
                Some(RuntimeFault::World(error)),
            ),
            RuntimeEvent::ClockPublished(Err(error)) => self.parking(
                ParkReason::Failed,
                Some(RuntimeFault::World(error)),
            ),
            RuntimeEvent::Parked(parked) => (
                RuntimeState { phase: RuntimePhase::Finished, failure: None, ..self },
                match (self.failure, parked) {
                    (Some(failure), Ok(())) => RuntimeAction::Finish {
                        result: Err(failure),
                        unparked: None,
                    },
                    (Some(failure), Err(error)) => RuntimeAction::Finish {
                        result: Err(failure),
                        unparked: Some(error),
                    },
                    (None, Ok(())) => RuntimeAction::Finish { result: Ok(()), unparked: None },
                    (None, Err(error)) => RuntimeAction::Finish {
                        result: Err(RuntimeFault::World(error)),
                        unparked: None,
                    },
                },
            ),
        }
    }

    /// Go on with the loop, given what came of the last action.
    fn run(&mut self, event: RuntimeEvent<E>) -> (action: RuntimeAction<E>)
        requires
            old(self).awaits(event),
        ensures
            (*final(self), action) == old(self).respond(event),
    {
        match event {
            RuntimeEvent::StopPolled(stop) => {
                if stop {
                    self.park(ParkReason::HostAsked, None)
                } else {
                    self.phase = RuntimePhase::Advancing;
                    RuntimeAction::Advance
                }
            },
            RuntimeEvent::Advanced(Ok(advance)) => self.step_once(advance),
            RuntimeEvent::Published(Ok(())) => match self.phase {
                RuntimePhase::Publishing { time_ns, next_step } => {
                    self.phase = RuntimePhase::ClosingStep { time_ns, next_step };
                    RuntimeAction::PublishClock { time_ns, step: next_step }
                },
                _ => vstd::pervasive::unreached(),
            },
            RuntimeEvent::ClockPublished(Ok(())) => match self.phase {
                RuntimePhase::ClosingStep { next_step, .. } => {
                    self.step_index = next_step;
                    self.phase = RuntimePhase::PollingStop;
                    RuntimeAction::PollStop
                },
                _ => vstd::pervasive::unreached(),
            },
            RuntimeEvent::Advanced(Err(error)) => self.park(
                ParkReason::Failed,
                Some(RuntimeFault::World(error)),
            ),
            RuntimeEvent::Published(Err(error)) => self.park(
                ParkReason::Failed,
                Some(RuntimeFault::World(error)),
            ),
            RuntimeEvent::ClockPublished(Err(error)) => self.park(
                ParkReason::Failed,
                Some(RuntimeFault::World(error)),
            ),
            RuntimeEvent::Parked(parked) => {
                self.phase = RuntimePhase::Finished;
                match self.failure.take() {
                    Some(failure) => RuntimeAction::Finish {
                        result: Err(failure),
                        unparked: match parked {
                            Ok(()) => None,
                            Err(error) => Some(error),
                        },
                    },
                    None => RuntimeAction::Finish {
                        result: match parked {
                            Ok(()) => Ok(()),
                            Err(error) => Err(RuntimeFault::World(error)),
                        },
                        unparked: None,
                    },
                }
            },
        }
    }

    /// Commit what one advance of the world produced.
    ///
    /// The order is the contract: the world advances, the instant it reached
    /// mints this step's token, every capability publishes what it read at that
    /// instant, and only then does the clock close the step. A reader that has
    /// seen a step's clock has already seen that step's outputs.
    fn step_once(&mut self, advance: Advance) -> (action: RuntimeAction<E>)
        requires
            old(self).phase is Advancing,
        ensures
            (*final(self), action) == old(self).respond(RuntimeEvent::Advanced(Ok(advance))),
    {
        match advance {
            Advance::Stopped => self.park(ParkReason::WorldStopped, None),
            Advance::Stepped { time_ns, rewound } => {
                if rewound {
                    self.step_index = 0;
                }
                match self.step_index.checked_add(1) {
                    Some(next_step) => {
                        self.phase = RuntimePhase::Publishing { time_ns, next_step };
                        RuntimeAction::Publish { time_ns, replace_timeline: rewound }
                    },
                    None => self.park(
                        ParkReason::Failed,
                        Some(RuntimeFault::StepCounterExhausted),
                    ),
                }
            },
        }
    }

    fn park(&mut self, reason: ParkReason, failure: Option<RuntimeFault<E>>) -> (action:
        RuntimeAction<E>)
        ensures
            (*final(self), action) == old(self).parking(reason, failure),
    {
        self.phase = RuntimePhase::Parking;
        self.failure = failure;
        RuntimeAction::Park { reason }
    }

    /// Where the loop stands after its first `count` events, and what was
    /// asked then.
    pub open spec fn turn_after(events: Seq<RuntimeEvent<E>>, count: nat) -> (
        RuntimeState<E>,
        RuntimeAction<E>,
    )
        decreases count,
    {
        if count == 0 {
            (Self::initial(), RuntimeAction::PollStop)
        } else {
            Self::turn_after(events, (count - 1) as nat).0.respond(events[count - 1])
        }
    }

    /// Every event answers the action that was asked for.
    pub open spec fn answered_by(events: Seq<RuntimeEvent<E>>) -> bool {
        forall|i: nat| i < events.len() ==> (#[trigger] Self::turn_after(events, i)).0.awaits(
            events[i as int],
        )
    }

    /// The last action asked for is the one the loop waits on.
    pub open spec fn consistent(turn: (RuntimeState<E>, RuntimeAction<E>)) -> bool {
        let (now, action) = turn;
        match now.phase {
            RuntimePhase::PollingStop => action == RuntimeAction::<E>::PollStop,
            RuntimePhase::Advancing => action == RuntimeAction::<E>::Advance,
            RuntimePhase::Publishing { time_ns, next_step } => {
                &&& action matches RuntimeAction::Publish { time_ns: published, .. }
                &&& published == time_ns
                &&& next_step == now.step_index + 1
            },
            RuntimePhase::ClosingStep { time_ns, next_step } => {
                &&& action == RuntimeAction::<E>::PublishClock { time_ns, step: next_step }
                &&& next_step == now.step_index + 1
            },
            RuntimePhase::Parking => action is Park,
            RuntimePhase::Finished => action is Finish,
        }
    }
}

proof fn lemma_turns_are_consistent<E>(events: Seq<RuntimeEvent<E>>, count: nat)
    requires
        RuntimeState::<E>::answered_by(events),
        count <= events.len(),
    ensures
        RuntimeState::<E>::consistent(RuntimeState::<E>::turn_after(events, count)),
    decreases count,
{
    if count > 0 {
        let before = (count - 1) as nat;
        lemma_turns_are_consistent(events, before);
        assert(RuntimeState::<E>::turn_after(events, before).0.awaits(events[before as int]));
    }
}

/// A reader that has seen a step's clock has already seen that step's outputs:
/// a clock is only ever asked for once the outputs of the same instant have
/// been published without failure.
pub proof fn law_outputs_precede_the_clock<E>(
    events: Seq<RuntimeEvent<E>>,
    count: nat,
    time_ns: u64,
    step: u64,
)
    requires
        RuntimeState::<E>::answered_by(events),
        count <= events.len(),
        RuntimeState::<E>::turn_after(events, count).1 == (RuntimeAction::<E>::PublishClock {
            time_ns,
            step,
        }),
    ensures
        count > 0,
        events[count - 1] matches RuntimeEvent::Published(Ok(_)),
        RuntimeState::<E>::turn_after(
            events,
            (count - 1) as nat,
        ).1 matches RuntimeAction::Publish { time_ns: published, .. } && published == time_ns,
{
    lemma_turns_are_consistent(events, count);
    if count > 0 {
        let before = (count - 1) as nat;
        lemma_turns_are_consistent(events, before);
        assert(RuntimeState::<E>::turn_after(events, before).0.awaits(events[before as int]));
    }
}

/// However the loop stops, the world has been left quiet first.
pub proof fn law_every_stop_parks_the_world<E>(events: Seq<RuntimeEvent<E>>, count: nat)
    requires
        RuntimeState::<E>::answered_by(events),
        count <= events.len(),
        RuntimeState::<E>::turn_after(events, count).1 is Finish,
    ensures
        count > 0,
        events[count - 1] is Parked,
        RuntimeState::<E>::turn_after(events, (count - 1) as nat).1 is Park,
        events.len() == count,
{
    lemma_turns_are_consistent(events, count);
    let before = (count - 1) as nat;
    lemma_turns_are_consistent(events, before);
    assert(RuntimeState::<E>::turn_after(events, before).0.awaits(events[before as int]));
    if count < events.len() {
        assert(RuntimeState::<E>::turn_after(events, count).0.awaits(events[count as int]));
    }
}

/// A stop the host asked for takes effect at the step boundary: nothing follows
/// it but leaving the world quiet and ending with what parking came to.
pub proof fn law_a_stop_takes_effect_at_the_boundary<E>(events: Seq<RuntimeEvent<E>>, at: nat)
    requires
        RuntimeState::<E>::answered_by(events),
        at < events.len(),
        events[at as int] == RuntimeEvent::<E>::StopPolled(true),
    ensures
        RuntimeState::<E>::turn_after(events, at + 1).1 == (RuntimeAction::<E>::Park {
            reason: ParkReason::HostAsked,
        }),
        events.len() <= at + 2,
        events.len() == at + 2 ==> RuntimeState::<E>::turn_after(events, at + 2).1 == (
        RuntimeAction::<E>::Finish {
            result: match events[(at + 1) as int]->Parked_0 {
                Ok(()) => Ok(()),
                Err(error) => Err(RuntimeFault::World(error)),
            },
            unparked: None,
        }),
{
    lemma_parking_is_the_end(events, at);
}

/// A quit world ends the loop as a stop does: it is not a failure.
pub proof fn law_a_quit_world_is_not_a_failure<E>(events: Seq<RuntimeEvent<E>>, at: nat)
    requires
        RuntimeState::<E>::answered_by(events),
        at < events.len(),
        events[at as int] == RuntimeEvent::<E>::Advanced(Ok(Advance::Stopped)),
    ensures
        RuntimeState::<E>::turn_after(events, at + 1).1 == (RuntimeAction::<E>::Park {
            reason: ParkReason::WorldStopped,
        }),
        events.len() <= at + 2,
        events.len() == at + 2 ==> RuntimeState::<E>::turn_after(events, at + 2).1 == (
        RuntimeAction::<E>::Finish {
            result: match events[(at + 1) as int]->Parked_0 {
                Ok(()) => Ok(()),
                Err(error) => Err(RuntimeFault::World(error)),
            },
            unparked: None,
        }),
{
    lemma_parking_is_the_end(events, at);
}

/// A failure of the world, a device or the bus anywhere in a step is what the
/// loop ends with, whatever parking comes to.
pub proof fn law_a_failure_is_reported<E>(events: Seq<RuntimeEvent<E>>, at: nat, error: E)
    requires
        RuntimeState::<E>::answered_by(events),
        at < events.len(),
        events[at as int] == RuntimeEvent::<E>::Advanced(Err(error)) || events[at as int]
            == RuntimeEvent::<E>::Published(Err(error)) || events[at as int] == RuntimeEvent::<
            E,
        >::ClockPublished(Err(error)),
    ensures
        RuntimeState::<E>::turn_after(events, at + 1).1 == (RuntimeAction::<E>::Park {
            reason: ParkReason::Failed,
        }),
        events.len() <= at + 2,
        events.len() == at + 2 ==> (RuntimeState::<E>::turn_after(
            events,
            at + 2,
        ).1 matches RuntimeAction::Finish { result, unparked } && result == Err::<
            (),
            RuntimeFault<E>,
        >(RuntimeFault::World(error)) && unparked == match events[(at + 1) as int]->Parked_0 {
            Ok(()) => None,
            Err(parking) => Some(parking),
        }),
{
    lemma_parking_is_the_end(events, at);
}

/// A step that cannot be numbered is a failure too: it is neither published nor
/// closed, and the loop ends with it, whatever parking comes to.
pub proof fn law_an_exhausted_counter_is_reported<E>(
    events: Seq<RuntimeEvent<E>>,
    at: nat,
    time_ns: u64,
)
    requires
        RuntimeState::<E>::answered_by(events),
        at < events.len(),
        events[at as int] == RuntimeEvent::<E>::Advanced(
            Ok(Advance::Stepped { time_ns, rewound: false }),
        ),
        RuntimeState::<E>::turn_after(events, at).0.step_index == u64::MAX,
    ensures
        RuntimeState::<E>::turn_after(events, at + 1).1 == (RuntimeAction::<E>::Park {
            reason: ParkReason::Failed,
        }),
        events.len() <= at + 2,
        events.len() == at + 2 ==> (RuntimeState::<E>::turn_after(
            events,
            at + 2,
        ).1 matches RuntimeAction::Finish { result, unparked } && result == Err::<
            (),
            RuntimeFault<E>,
        >(RuntimeFault::StepCounterExhausted) && unparked == match events[(at
            + 1) as int]->Parked_0 {
            Ok(()) => None,
            Err(parking) => Some(parking),
        }),
{
    lemma_parking_is_the_end(events, at);
}

/// Once the world is being parked, one more event ends the loop.
proof fn lemma_parking_is_the_end<E>(events: Seq<RuntimeEvent<E>>, at: nat)
    requires
        RuntimeState::<E>::answered_by(events),
        at < events.len(),
        RuntimeState::<E>::turn_after(events, at).0.respond(events[at as int]).1 is Park,
    ensures
        events.len() <= at + 2,
        events.len() == at + 2 ==> events[(at + 1) as int] is Parked,
        RuntimeState::<E>::turn_after(events, at + 1) == RuntimeState::<E>::turn_after(
            events,
            at,
        ).0.respond(events[at as int]),
        events.len() == at + 2 ==> RuntimeState::<E>::turn_after(events, at + 2)
            == RuntimeState::<E>::turn_after(events, at + 1).0.respond(events[(at + 1) as int]),
{
    lemma_turns_are_consistent(events, at);
    assert(RuntimeState::<E>::turn_after(events, at).0.awaits(events[at as int]));
    lemma_turns_are_consistent(events, at + 1);
    if at + 1 < events.len() {
        assert(RuntimeState::<E>::turn_after(events, at + 1).0.awaits(events[(at + 1) as int]));
        lemma_turns_are_consistent(events, at + 2);
        if at + 2 < events.len() {
            assert(RuntimeState::<E>::turn_after(events, at + 2).0.awaits(events[(at + 2) as int]));
        }
    }
}

/// One committed step: from the boundary, an advance to `time_ns` publishes its
/// outputs, closes with the next step number, and returns to the boundary. A
/// rewound world replaces the timeline and counts from one again.
pub proof fn law_a_committed_step_counts_one<E>(
    runtime: RuntimeState<E>,
    time_ns: u64,
    rewound: bool,
)
    requires
        runtime.phase is PollingStop,
        rewound || runtime.step_index < u64::MAX,
    ensures
        ({
            let step: u64 = if rewound {
                1
            } else {
                (runtime.step_index + 1) as u64
            };
            let polled = runtime.respond(RuntimeEvent::StopPolled(false));
            let advanced = polled.0.respond(
                RuntimeEvent::Advanced(Ok(Advance::Stepped { time_ns, rewound })),
            );
            let published = advanced.0.respond(RuntimeEvent::Published(Ok(())));
            let closed = published.0.respond(RuntimeEvent::ClockPublished(Ok(())));
            &&& polled.1 == RuntimeAction::<E>::Advance
            &&& advanced.1 == (RuntimeAction::<E>::Publish { time_ns, replace_timeline: rewound })
            &&& published.1 == (RuntimeAction::<E>::PublishClock { time_ns, step })
            &&& closed.1 == RuntimeAction::<E>::PollStop
            &&& closed.0 == (RuntimeState { step_index: step, ..runtime })
        }),
{
}

/// How many clocks have been published, among the first `count` events, since
/// the world last rewound.
pub open spec fn clocks_published<E>(events: Seq<RuntimeEvent<E>>, count: nat) -> nat
    decreases count,
{
    if count == 0 {
        0
    } else {
        match events[count - 1] {
            RuntimeEvent::ClockPublished(Ok(_)) => clocks_published(events, (count - 1) as nat) + 1,
            RuntimeEvent::Advanced(Ok(Advance::Stepped { rewound: true, .. })) => 0,
            _ => clocks_published(events, (count - 1) as nat),
        }
    }
}

/// The clock numbers the steps of a timeline: each carries one more than the
/// number of clocks that went out before it since the world last rewound.
pub proof fn law_the_clock_numbers_the_steps<E>(events: Seq<RuntimeEvent<E>>, count: nat)
    requires
        RuntimeState::<E>::answered_by(events),
        count <= events.len(),
    ensures
        RuntimeState::<E>::turn_after(events, count).0.step_index == clocks_published(
            events,
            count,
        ),
        RuntimeState::<E>::turn_after(
            events,
            count,
        ).1 matches RuntimeAction::PublishClock { step, .. } ==> step == clocks_published(
            events,
            count,
        ) + 1,
    decreases count,
{
    lemma_turns_are_consistent(events, count);
    if count > 0 {
        let before = (count - 1) as nat;
        law_the_clock_numbers_the_steps(events, before);
        lemma_turns_are_consistent(events, before);
        assert(RuntimeState::<E>::turn_after(events, before).0.awaits(events[before as int]));
    }
}

/// What follows a step that goes well: an advance is published on the instant
/// it reached, on a fresh timeline exactly where the world rewound; its outputs
/// are closed by the clock of that instant; and the clock by the next boundary,
/// where the loop goes on unless it was asked to stop.
pub proof fn law_a_step_goes_on_to_its_clock<E>(events: Seq<RuntimeEvent<E>>, at: nat)
    requires
        RuntimeState::<E>::answered_by(events),
        at < events.len(),
    ensures
        ({
            let last = RuntimeState::<E>::turn_after(events, at).1;
            let next = RuntimeState::<E>::turn_after(events, at + 1).1;
            match events[at as int] {
                RuntimeEvent::StopPolled(false) => next == RuntimeAction::<E>::Advance,
                RuntimeEvent::Advanced(Ok(Advance::Stepped { time_ns, rewound })) => next == (
                RuntimeAction::<E>::Publish { time_ns, replace_timeline: rewound }) || (!rewound
                    && clocks_published(events, at) == u64::MAX),
                RuntimeEvent::Published(Ok(_)) => next matches RuntimeAction::PublishClock {
                    time_ns,
                    ..
                } && last matches RuntimeAction::Publish { time_ns: reached, .. } && time_ns
                    == reached,
                RuntimeEvent::ClockPublished(Ok(_)) => next == RuntimeAction::<E>::PollStop,
                _ => next is Park || next is Finish,
            }
        }),
{
    lemma_turns_are_consistent(events, at);
    law_the_clock_numbers_the_steps(events, at);
    assert(RuntimeState::<E>::turn_after(events, at).0.awaits(events[at as int]));
}

/// The step loop.
pub struct ControllerRuntime<E> {
    state: RuntimeState<E>,
}

impl<E> View for ControllerRuntime<E> {
    type V = RuntimeState<E>;

    closed spec fn view(&self) -> RuntimeState<E> {
        self.state
    }
}

impl<E> ControllerRuntime<E> {
    /// The loop before its first step, and what is asked first.
    pub fn new() -> (turn: (ControllerRuntime<E>, RuntimeAction<E>))
        ensures
            turn.0@ == RuntimeState::<E>::initial(),
            turn.1 == RuntimeAction::<E>::PollStop,
    {
        Self::counting_from(0)
    }

    /// The loop at a step boundary of a timeline on which `step_index` steps
    /// have been closed, and what is asked first.
    pub fn counting_from(step_index: u64) -> (turn: (ControllerRuntime<E>, RuntimeAction<E>))
        ensures
            turn.0@ == (RuntimeState { step_index, ..RuntimeState::<E>::initial() }),
            turn.1 == RuntimeAction::<E>::PollStop,
    {
        let state = RuntimeState { step_index, phase: RuntimePhase::PollingStop, failure: None };
        (ControllerRuntime { state }, RuntimeAction::PollStop)
    }

    /// How many steps the loop has closed on the current timeline.
    pub fn step_index(&self) -> (step_index: u64)
        ensures
            step_index == self@.step_index,
    {
        self.state.step_index
    }

    /// Step the world until it stops: go on with the loop, given what came of
    /// the last action.
    ///
    /// However it stops - the host asking this controller to stop, Webots
    /// asking it to shut down, or a device failing - the world is left quiet
    /// before the loop is over, so a stopped loop never leaves the motors
    /// running. Only the last is an error: a reverted or quit world is how a
    /// simulation ends.
    pub fn run(&mut self, event: RuntimeEvent<E>) -> (action: RuntimeAction<E>)
        requires
            old(self)@.awaits(event),
        ensures
            (final(self)@, action) == old(self)@.respond(event),
    {
        self.state.run(event)
    }
}

} // verus!
