//! How a motor takes the graph's inputs before a step.
//!
//! The motor is the only device the graph drives: LED and speaker effects are
//! refused at startup for want of a declared command authority, and Webots
//! models no emergency-stop control at all.
//!
//! The host owns the receiver, the authority and the clock, and performs what
//! it is asked to here: first the authority learns which participants are
//! ready, then it is offered every pending command, and only then is the one
//! it holds selected.

use vstd::prelude::*;

verus! {

/// What the host is asked to do next. [`MotorStep::Apply`] and
/// [`MotorStep::Stop`] end the turn.
#[derive(Clone, Copy, Debug, PartialEq, Eq, Structural)]
pub enum MotorStep {
    /// Take the next readiness event, if there is one.
    PollReady,
    /// Tell the authority of the readiness event just taken.
    ForwardReady,
    /// Ask whether readiness events were lost.
    PollOverflow,
    /// Tell the authority that readiness events were lost.
    MarkOverflow,
    /// Read this host's clock.
    ReadClock,
    /// Take every pending command, in receiver order.
    DrainPending,
    /// Offer the authority the pending command at `index`.
    Offer { index: usize },
    /// Ask the authority for the command it holds, as of the clock just read.
    SelectLive,
    /// Take every pending command and drop it.
    DiscardPending,
    /// Make the authority forget what it holds.
    ClearAuthority,
    /// Apply the command just selected.
    Apply,
    /// Leave the motor quiet.
    Stop,
}

/// What came of the step the host was asked to take.
#[derive(Clone, Copy, Debug, PartialEq, Eq, Structural)]
pub enum MotorEvent {
    /// Whether there was a readiness event.
    ReadyPolled(bool),
    ReadyForwarded,
    /// Whether readiness events were lost.
    OverflowPolled(bool),
    OverflowMarked,
    /// Whether the clock could be read.
    ClockRead(bool),
    /// How many commands were pending.
    Drained(usize),
    Offered,
    /// Whether the authority holds a live command.
    Selected(bool),
    Discarded,
    Cleared,
}

/// Where a turn stands: the event it waits for.
#[derive(Clone, Copy, Debug, PartialEq, Eq, Structural)]
pub enum MotorPhase {
    PollingReady,
    ForwardingReady,
    PollingOverflow,
    MarkingOverflow,
    ReadingClock,
    Draining,
    Offering { index: usize, pending: usize },
    Selecting,
    Discarding { clear: bool },
    Clearing,
    Done,
}

impl MotorPhase {
    /// Every offer is of a pending command.
    pub open spec fn valid(self) -> bool {
        self matches MotorPhase::Offering { index, pending } ==> index < pending
    }

    /// Whether `event` answers the step this turn waits for.
    pub open spec fn awaits(self, event: MotorEvent) -> bool {
        match event {
            MotorEvent::ReadyPolled(_) => self is PollingReady,
            MotorEvent::ReadyForwarded => self is ForwardingReady,
            MotorEvent::OverflowPolled(_) => self is PollingOverflow,
            MotorEvent::OverflowMarked => self is MarkingOverflow,
            MotorEvent::ClockRead(_) => self is ReadingClock,
            MotorEvent::Drained(_) => self is Draining,
            MotorEvent::Offered => self is Offering,
            MotorEvent::Selected(_) => self is Selecting,
            MotorEvent::Discarded => self is Discarding,
            MotorEvent::Cleared => self is Clearing,
        }
    }

    /// The turn once the commands before `index` have been offered.
    pub open spec fn offering(index: usize, pending: usize) -> (MotorPhase, MotorStep) {
        if index < pending {
            (MotorPhase::Offering { index, pending }, MotorStep::Offer { index })
        } else {
            (MotorPhase::Selecting, MotorStep::SelectLive)
        }
    }

    /// The turn after `event`, and what is asked next.
    pub open spec fn respond(self, event: MotorEvent) -> (MotorPhase, MotorStep) {
        match event {
            MotorEvent::ReadyPolled(true) => (MotorPhase::ForwardingReady, MotorStep::ForwardReady),
            MotorEvent::ReadyPolled(false) => (MotorPhase::PollingOverflow, MotorStep::PollOverflow),
            MotorEvent::ReadyForwarded => (MotorPhase::PollingReady, MotorStep::PollReady),
            MotorEvent::OverflowPolled(true) => (
                MotorPhase::MarkingOverflow,
                MotorStep::MarkOverflow,
            ),
            MotorEvent::OverflowPolled(false) => (MotorPhase::ReadingClock, MotorStep::ReadClock),
            MotorEvent::OverflowMarked => (MotorPhase::ReadingClock, MotorStep::ReadClock),
            MotorEvent::ClockRead(true) => (MotorPhase::Draining, MotorStep::DrainPending),
            MotorEvent::ClockRead(false) => (
                MotorPhase::Discarding { clear: true },
                MotorStep::DiscardPending,
            ),
            MotorEvent::Drained(pending) => Self::offering(0, pending),
            MotorEvent::Offered => Self::offering(
                (self->index + 1) as usize,
                self->pending,
            ),
            MotorEvent::Selected(true) => (MotorPhase::Done, MotorStep::Apply),
            MotorEvent::Selected(false) => (MotorPhase::Done, MotorStep::Stop),
            MotorEvent::Discarded => if self == (MotorPhase::Discarding { clear: true }) {
                (MotorPhase::Clearing, MotorStep::ClearAuthority)
            } else {
                (MotorPhase::Done, MotorStep::Stop)
            },
            MotorEvent::Cleared => (MotorPhase::Done, MotorStep::Stop),
        }
    }

    /// Go on with the turn, given what came of the last step.
    fn resume(&mut self, event: MotorEvent) -> (step: MotorStep)
        requires
            old(self).valid(),
            old(self).awaits(event),
        ensures
            (*final(self), step) == old(self).respond(event),
            final(self).valid(),
    {
        let (turn, step) = match event {
            MotorEvent::ReadyPolled(true) => (MotorPhase::ForwardingReady, MotorStep::ForwardReady),
            MotorEvent::ReadyPolled(false) => (MotorPhase::PollingOverflow, MotorStep::PollOverflow),
            MotorEvent::ReadyForwarded => (MotorPhase::PollingReady, MotorStep::PollReady),
            MotorEvent::OverflowPolled(true) => (
                MotorPhase::MarkingOverflow,
                MotorStep::MarkOverflow,
            ),
            MotorEvent::OverflowPolled(false) | MotorEvent::OverflowMarked => (
                MotorPhase::ReadingClock,
                MotorStep::ReadClock,
            ),
            MotorEvent::ClockRead(true) => (MotorPhase::Draining, MotorStep::DrainPending),
            MotorEvent::ClockRead(false) => (
                MotorPhase::Discarding { clear: true },
                MotorStep::DiscardPending,
            ),
            MotorEvent::Drained(pending) => Self::offer_from(0, pending),
            MotorEvent::Offered => match *self {
                MotorPhase::Offering { index, pending } => Self::offer_from(index + 1, pending),
                _ => vstd::pervasive::unreached(),
            },
            MotorEvent::Selected(true) => (MotorPhase::Done, MotorStep::Apply),
            MotorEvent::Selected(false) => (MotorPhase::Done, MotorStep::Stop),
            MotorEvent::Discarded => match *self {
                MotorPhase::Discarding { clear: true } => (
                    MotorPhase::Clearing,
                    MotorStep::ClearAuthority,
                ),
                _ => (MotorPhase::Done, MotorStep::Stop),
            },
            MotorEvent::Cleared => (MotorPhase::Done, MotorStep::Stop),
        };
        *self = turn;
        step
    }

    /// Admit every pending command before selecting the held value to apply.
    ///
    /// The receiver preserves one pending command per producer. Offering that
    /// complete set to the authority keeps an unauthorised producer from
    /// coalescing away the candidate of the authorised one before the authority
    /// check can reject it.
    fn offer_from(index: usize, pending: usize) -> (turn: (MotorPhase, MotorStep))
        ensures
            turn == Self::offering(index, pending),
            turn.0.valid(),
    {
        if index < pending {
            (MotorPhase::Offering { index, pending }, MotorStep::Offer { index })
        } else {
            (MotorPhase::Selecting, MotorStep::SelectLive)
        }
    }

    /// Where a turn that applies the backlog stands after its first `count`
    /// events, and what was asked then.
    pub open spec fn turn_after(events: Seq<MotorEvent>, count: nat) -> (MotorPhase, MotorStep)
        decreases count,
    {
        if count == 0 {
            (MotorPhase::PollingReady, MotorStep::PollReady)
        } else {
            Self::turn_after(events, (count - 1) as nat).0.respond(events[count - 1])
        }
    }

    /// Every event answers the step that was asked for.
    pub open spec fn answered_by(events: Seq<MotorEvent>) -> bool {
        forall|i: nat| i < events.len() ==> (#[trigger] Self::turn_after(events, i)).0.awaits(
            events[i as int],
        )
    }
}

/// The step last asked for is the one the turn waits on.
spec fn consistent(turn: (MotorPhase, MotorStep)) -> bool {
    match turn.0 {
        MotorPhase::PollingReady => turn.1 == MotorStep::PollReady,
        MotorPhase::ForwardingReady => turn.1 == MotorStep::ForwardReady,
        MotorPhase::PollingOverflow => turn.1 == MotorStep::PollOverflow,
        MotorPhase::MarkingOverflow => turn.1 == MotorStep::MarkOverflow,
        MotorPhase::ReadingClock => turn.1 == MotorStep::ReadClock,
        MotorPhase::Draining => turn.1 == MotorStep::DrainPending,
        MotorPhase::Offering { index, pending } => index < pending && turn.1 == (MotorStep::Offer {
            index,
        }),
        MotorPhase::Selecting => turn.1 == MotorStep::SelectLive,
        MotorPhase::Discarding { clear } => clear && turn.1 == MotorStep::DiscardPending,
        MotorPhase::Clearing => turn.1 == MotorStep::ClearAuthority,
        MotorPhase::Done => turn.1 == MotorStep::Apply || turn.1 == MotorStep::Stop,
    }
}

proof fn lemma_turns_are_consistent(events: Seq<MotorEvent>, count: nat)
    requires
        MotorPhase::answered_by(events),
        count <= events.len(),
    ensures
        consistent(MotorPhase::turn_after(events, count)),
    decreases count,
{
    if count > 0 {
        lemma_turns_are_consistent(events, (count - 1) as nat);
        assert(MotorPhase::turn_after(events, (count - 1) as nat).0.awaits(events[count - 1]));
    }
}

/// The pending commands were offered one by one since they were taken.
proof fn lemma_offers_run_in_order(events: Seq<MotorEvent>, count: nat)
    requires
        MotorPhase::answered_by(events),
        count <= events.len(),
        MotorPhase::turn_after(events, count).0 is Offering,
    ensures
        ({
            let index = MotorPhase::turn_after(events, count).0->index;
            let pending = MotorPhase::turn_after(events, count).0->pending;
            &&& index < pending
            &&& count > index
            &&& events[count - 1 - index] == MotorEvent::Drained(pending)
            &&& forall|k: nat|
                k <= index ==> (#[trigger] MotorPhase::turn_after(
                    events,
                    (count - index + k) as nat,
                )).1 == (MotorStep::Offer { index: k as usize })
        }),
    decreases count,
{
    lemma_turns_are_consistent(events, count);
    let before = (count - 1) as nat;
    lemma_turns_are_consistent(events, before);
    assert(MotorPhase::turn_after(events, before).0.awaits(events[before as int]));
    let index = MotorPhase::turn_after(events, count).0->index;
    if index > 0 {
        lemma_offers_run_in_order(events, before);
        assert forall|k: nat| k <= index implies (#[trigger] MotorPhase::turn_after(
            events,
            (count - index + k) as nat,
        )).1 == (MotorStep::Offer { index: k as usize }) by {
            if k < index {
                let earlier = MotorPhase::turn_after(events, before).0->index;
                assert((count - index + k) as nat == (before - earlier + k) as nat);
            }
        }
    }
}

/// A command is selected only once the clock has been read and every command
/// that was pending has been offered to the authority, each once and in
/// receiver order. `pending` is how many there were.
pub proof fn law_every_pending_command_is_offered_before_selection(
    events: Seq<MotorEvent>,
    count: nat,
) -> (pending: usize)
    requires
        MotorPhase::answered_by(events),
        count <= events.len(),
        MotorPhase::turn_after(events, count).1 == MotorStep::SelectLive,
    ensures
        count >= pending + 2,
        events[count - 2 - pending] == MotorEvent::ClockRead(true),
        events[count - 1 - pending] == MotorEvent::Drained(pending),
        forall|k: nat|
            k < pending ==> (#[trigger] MotorPhase::turn_after(
                events,
                (count - pending + k) as nat,
            )).1 == (MotorStep::Offer { index: k as usize }),
{
    lemma_turns_are_consistent(events, count);
    let before = (count - 1) as nat;
    lemma_turns_are_consistent(events, before);
    assert(MotorPhase::turn_after(events, before).0.awaits(events[before as int]));
    let pending = match events[count - 1] {
        MotorEvent::Drained(pending) => pending,
        _ => {
            lemma_offers_run_in_order(events, before);
            MotorPhase::turn_after(events, before).0->pending
        },
    };
    if pending > 0 {
        let earlier = MotorPhase::turn_after(events, before).0->index;
        assert forall|k: nat| k < pending implies (#[trigger] MotorPhase::turn_after(
            events,
            (count - pending + k) as nat,
        )).1 == (MotorStep::Offer { index: k as usize }) by {
            assert((count - pending + k) as nat == (before - earlier + k) as nat);
        }
    }
    let drained = (count - 1 - pending) as nat;
    lemma_turns_are_consistent(events, drained);
    assert(MotorPhase::turn_after(events, drained).0.awaits(events[drained as int]));
    let read = (drained - 1) as nat;
    lemma_turns_are_consistent(events, read);
    assert(MotorPhase::turn_after(events, read).0.awaits(events[read as int]));
    pending
}

/// A motor is driven only by a command the authority holds live: a turn that
/// ends in anything else leaves it quiet.
pub proof fn law_only_a_live_command_drives_the_motor(events: Seq<MotorEvent>)
    requires
        MotorPhase::answered_by(events),
        MotorPhase::turn_after(events, events.len()).0 is Done,
    ensures
        events.len() > 0,
        MotorPhase::turn_after(events, events.len()).1 == if events.last() == MotorEvent::Selected(
            true,
        ) {
            MotorStep::Apply
        } else {
            MotorStep::Stop
        },
{
    lemma_turns_are_consistent(events, events.len());
    let before = (events.len() - 1) as nat;
    lemma_turns_are_consistent(events, before);
    assert(MotorPhase::turn_after(events, before).0.awaits(events[before as int]));
}

/// Without a clock nothing is selected: what is pending is dropped, what is
/// held is forgotten, and the motor stops.
pub proof fn law_without_a_clock_the_motor_stops(events: Seq<MotorEvent>, at: nat)
    requires
        MotorPhase::answered_by(events),
        at < events.len(),
        events[at as int] == MotorEvent::ClockRead(false),
    ensures
        events.len() <= at + 3,
        MotorPhase::turn_after(events, at + 1).1 == MotorStep::DiscardPending,
        events.len() >= at + 2 ==> MotorPhase::turn_after(events, at + 2).1
            == MotorStep::ClearAuthority,
        events.len() == at + 3 ==> MotorPhase::turn_after(events, at + 3).1 == MotorStep::Stop,
{
    assert(MotorPhase::turn_after(events, at).0.awaits(events[at as int]));
    if events.len() > at + 1 {
        assert(MotorPhase::turn_after(events, at + 1).0.awaits(events[(at + 1) as int]));
    }
    if events.len() > at + 2 {
        assert(MotorPhase::turn_after(events, at + 2).0.awaits(events[(at + 2) as int]));
    }
    if events.len() > at + 3 {
        assert(MotorPhase::turn_after(events, at + 3).0.awaits(events[(at + 3) as int]));
    }
}

/// By the time the clock is read the authority has been told of every readiness
/// event there was, and of lost ones if any were lost.
pub proof fn law_readiness_is_current_before_the_clock(events: Seq<MotorEvent>, count: nat)
    requires
        MotorPhase::answered_by(events),
        count <= events.len(),
        MotorPhase::turn_after(events, count).1 == MotorStep::ReadClock,
    ensures
        count >= 2,
        events[count - 1] == MotorEvent::OverflowPolled(false) && events[count - 2]
            == MotorEvent::ReadyPolled(false) || count >= 3 && events[count - 1]
            == MotorEvent::OverflowMarked && events[count - 2] == MotorEvent::OverflowPolled(true)
            && events[count - 3] == MotorEvent::ReadyPolled(false),
{
    lemma_turns_are_consistent(events, count);
    let first = (count - 1) as nat;
    lemma_turns_are_consistent(events, first);
    assert(MotorPhase::turn_after(events, first).0.awaits(events[first as int]));
    let second = (first - 1) as nat;
    lemma_turns_are_consistent(events, second);
    assert(MotorPhase::turn_after(events, second).0.awaits(events[second as int]));
    if events[first as int] is OverflowMarked {
        let third = (second - 1) as nat;
        lemma_turns_are_consistent(events, third);
        assert(MotorPhase::turn_after(events, third).0.awaits(events[third as int]));
    }
}

/// Every readiness event that is taken is told to the authority before another
/// is asked for.
pub proof fn law_every_readiness_event_is_forwarded(events: Seq<MotorEvent>, at: nat)
    requires
        MotorPhase::answered_by(events),
        at < events.len(),
        events[at as int] == MotorEvent::ReadyPolled(true),
    ensures
        MotorPhase::turn_after(events, at + 1).1 == MotorStep::ForwardReady,
        events.len() > at + 1 ==> MotorPhase::turn_after(events, at + 2).1 == MotorStep::PollReady,
{
    assert(MotorPhase::turn_after(events, at).0.awaits(events[at as int]));
    if events.len() > at + 1 {
        assert(MotorPhase::turn_after(events, at + 1).0.awaits(events[(at + 1) as int]));
    }
}

/// Once the pending commands are taken, each is offered in turn, and the one the
/// authority holds is selected right after the last.
pub proof fn law_pending_commands_lead_to_a_selection(
    events: Seq<MotorEvent>,
    at: nat,
    pending: usize,
    offered: nat,
)
    requires
        MotorPhase::answered_by(events),
        at + offered < events.len(),
        events[at as int] == MotorEvent::Drained(pending),
        offered <= pending,
        forall|i: int| at < i <= at + offered ==> (#[trigger] events[i]) == MotorEvent::Offered,
    ensures
        MotorPhase::turn_after(events, at + 1 + offered).1 == if offered < pending {
            MotorStep::Offer { index: offered as usize }
        } else {
            MotorStep::SelectLive
        },
        offered < pending ==> MotorPhase::turn_after(events, at + 1 + offered).0 == (
        MotorPhase::Offering { index: offered as usize, pending }),
    decreases offered,
{
    assert(MotorPhase::turn_after(events, at).0.awaits(events[at as int]));
    if offered > 0 {
        let fewer = (offered - 1) as nat;
        law_pending_commands_lead_to_a_selection(events, at, pending, fewer);
        let before = (at + offered) as nat;
        assert(before == at + 1 + fewer);
        assert(MotorPhase::turn_after(events, before).0.awaits(events[before as int]));
        assert(events[before as int] == MotorEvent::Offered);
    }
}

/// A turn goes on from readiness to the clock and from a clock that could be
/// read to the pending commands: lost readiness is marked, and a live command
/// is applied.
pub proof fn law_a_turn_goes_on_to_the_motor(events: Seq<MotorEvent>, at: nat)
    requires
        MotorPhase::answered_by(events),
        at < events.len(),
    ensures
        ({
            let next = MotorPhase::turn_after(events, at + 1).1;
            match events[at as int] {
                MotorEvent::ReadyPolled(more) => next == if more {
                    MotorStep::ForwardReady
                } else {
                    MotorStep::PollOverflow
                },
                MotorEvent::ReadyForwarded => next == MotorStep::PollReady,
                MotorEvent::OverflowPolled(lost) => next == if lost {
                    MotorStep::MarkOverflow
                } else {
                    MotorStep::ReadClock
                },
                MotorEvent::OverflowMarked => next == MotorStep::ReadClock,
                MotorEvent::ClockRead(read) => next == if read {
                    MotorStep::DrainPending
                } else {
                    MotorStep::DiscardPending
                },
                MotorEvent::Selected(live) => next == if live {
                    MotorStep::Apply
                } else {
                    MotorStep::Stop
                },
                _ => true,
            }
        }),
{
    assert(MotorPhase::turn_after(events, at).0.awaits(events[at as int]));
}

/// A motor that is parked has what is pending dropped and is then stopped; what
/// its authority holds is left alone.
pub proof fn law_a_parked_motor_stops(parked: MotorPhase)
    requires
        parked == (MotorPhase::Discarding { clear: false }),
    ensures
        parked.awaits(MotorEvent::Discarded),
        parked.respond(MotorEvent::Discarded) == (MotorPhase::Done, MotorStep::Stop),
{
}

/// One turn of a motor.
#[derive(Debug, PartialEq, Eq)]
pub struct MotorTurn {
    phase: MotorPhase,
}

impl View for MotorTurn {
    type V = MotorPhase;

    closed spec fn view(&self) -> MotorPhase {
        self.phase
    }
}

impl MotorTurn {
    #[verifier::type_invariant]
    spec fn holds_a_valid_phase(self) -> bool {
        self@.valid()
    }

    /// Begin to apply everything the graph asked of the motor since the
    /// previous step.
    pub fn apply_backlog() -> (turn: (MotorTurn, MotorStep))
        ensures
            turn.0@ == MotorPhase::PollingReady,
            turn.1 == MotorStep::PollReady,
    {
        (MotorTurn { phase: MotorPhase::PollingReady }, MotorStep::PollReady)
    }

    /// Begin to leave the motor quiet.
    ///
    /// Whatever the graph sent that the stopped loop will never apply goes with
    /// it; leaving it queued would apply it to a later world.
    pub fn park() -> (turn: (MotorTurn, MotorStep))
        ensures
            turn.0@ == (MotorPhase::Discarding { clear: false }),
            turn.1 == MotorStep::DiscardPending,
    {
        (MotorTurn { phase: MotorPhase::Discarding { clear: false } }, MotorStep::DiscardPending)
    }

    /// Go on with the turn, given what came of the last step.
    ///
    /// A receiver that cannot stamp its own clock cannot prove that a retained
    /// motor command is still live: what is pending is dropped, what is held is
    /// forgotten, and the motor is parked before the next Webots step.
    pub fn resume(&mut self, event: MotorEvent) -> (step: MotorStep)
        requires
            old(self)@.awaits(event),
        ensures
            (final(self)@, step) == old(self)@.respond(event),
    {
        proof {
            use_type_invariant(&*self);
        }
        let mut phase = self.phase;
        let step = phase.resume(event);
        self.phase = phase;
        step
    }
}

} // verus!
