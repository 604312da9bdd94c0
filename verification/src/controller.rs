//! The Webots controller: an external simulator host that simulates one robot.
//!
//! Binds one Webots-owned controller process to a robot's component
//! capabilities and serves exactly the contracts those capabilities need. It is
//! not a Phoxal participant: there is no runner, no role attribute and no setup
//! context. The host opens the bundle, the world and the bus session; the order
//! it does so in, whom it stands in for, and what its run ends with are decided
//! here.

use crate::capabilities::CapabilityRef;
use crate::catalog::CapabilityKind;
use vstd::prelude::*;
use vstd::string::*;

verus! {

/// The diagnostic label this session's samples carry. It never affects
/// routing, authority, or Ready admission - it only says which external client
/// produced a sample when someone reads the metadata.
pub fn source_label() -> (label: &'static str)
    ensures
        label@ == "webots-controller"@,
{
    "webots-controller"
}

/// The name the step loop's thread carries in a debugger, a crash report and
/// `ps -T`. There is exactly one of it for the life of the process.
pub fn step_loop_thread() -> (name: &'static str)
    ensures
        name@ == "webots-step-loop"@,
{
    "webots-step-loop"
}

/// A robot as the model crate holds it.
#[verifier::external_type_specification]
#[verifier::external_body]
pub struct ExRobot(phoxal_model::Robot);

/// One component instance the robot mounts.
#[derive(Debug, PartialEq, Eq)]
pub struct MountedComponent {
    pub id: String,
    /// Whether the instance declares a `driver` block.
    pub driven: bool,
}

impl View for MountedComponent {
    type V = (Seq<char>, bool);

    open spec fn view(&self) -> (Seq<char>, bool) {
        (self.id@, self.driven)
    }
}

/// The component instances a robot mounts, in its canonical order: the id of
/// each, and whether it declares a `driver` block.
pub uninterp spec fn mounted_on(robot: phoxal_model::Robot) -> Seq<(Seq<char>, bool)>;

/// The component instances `robot` mounts.
///
/// Calls `phoxal_model::Robot::components`, which walks a map from instance id
/// to instance in the order of its keys, so no id occurs twice; of each it
/// hands out the id and whether `ComponentInstance::driver` is there.
#[verifier::external_body]
fn mounted_components(robot: &phoxal_model::Robot) -> (mounted: Vec<MountedComponent>)
    ensures
        mounted@.map_values(|component: MountedComponent| component@) == mounted_on(*robot),
        forall|i: int, j: int|
            0 <= i < j < mounted@.len() ==> (#[trigger] mounted@[i]).id@ != (
            #[trigger] mounted@[j]).id@,
{
    robot
        .components()
        .map(|component| MountedComponent {
            id: component.id().as_str().to_owned(),
            driven: component.instance().driver().is_some(),
        })
        .collect()
}

/// The ids of the instances that declare a `driver` block, in order.
pub open spec fn driven_ids(mounted: Seq<(Seq<char>, bool)>) -> Seq<Seq<char>> {
    mounted.filter(|component: (Seq<char>, bool)| component.1).map_values(
        |component: (Seq<char>, bool)| component.0,
    )
}

/// The ids of the instances that declare a `driver` block, in order.
pub fn driven_components(mounted: &Vec<MountedComponent>) -> (ids: Vec<String>)
    ensures
        ids@.map_values(|id: String| id@) == driven_ids(
            mounted@.map_values(|component: MountedComponent| component@),
        ),
{
    let mut ids: Vec<String> = Vec::new();
    let mut index: usize = 0;
    let ghost rows = mounted@.map_values(|component: MountedComponent| component@);
    let ghost driven = |component: (Seq<char>, bool)| component.1;
    let ghost id_of = |component: (Seq<char>, bool)| component.0;
    proof {
        reveal(Seq::filter);
        assert(rows.take(0) =~= Seq::empty());
        assert(ids@.map_values(|id: String| id@) =~= driven_ids(rows.take(0)));
    }
    while index < mounted.len()
        invariant
            index <= mounted@.len(),
            rows == mounted@.map_values(|component: MountedComponent| component@),
            ids@.map_values(|id: String| id@) == driven_ids(rows.take(index as int)),
        decreases mounted@.len() - index,
    {
        let ghost before = ids@;
        if mounted[index].driven {
            ids.push(mounted[index].id.clone());
        }
        proof {
            reveal(Seq::filter);
            let taken = rows.take(index + 1);
            assert(taken.drop_last() =~= rows.take(index as int));
            assert(taken.last() == mounted@[index as int]@);
            if mounted@[index as int].driven {
                assert(ids@.map_values(|id: String| id@) =~= before.map_values(
                    |id: String| id@,
                ).push(mounted@[index as int].id@));
                assert(driven_ids(taken) =~= driven_ids(rows.take(index as int)).push(
                    mounted@[index as int].id@,
                ));
            }
        }
        index = index + 1;
    }
    assert(rows.take(rows.len() as int) =~= rows);
    ids
}

/// The component instances this controller stands in for, in the robot's
/// canonical instance order.
///
/// Exactly the instances that declare a `driver` block, which is the same
/// derivation every launcher applies to decide which driver processes a real
/// robot starts. A component without a driver block has no process on a real
/// robot either, so nothing expects it to be present and nothing here declares
/// it: presenting one would put a participant id on the bus that the supervisor
/// never asked about, and a simulated robot would read as *more* complete than
/// the same robot on hardware.
///
/// The controller itself is never in this set. The supervisor watches presence
/// per participant id and a driver's participant id IS its component instance
/// id; this one process stands in for all of them and is not itself an expected
/// runtime.
pub fn presented_participants(robot: &phoxal_model::Robot) -> (ids: Vec<String>)
    ensures
        ids@.map_values(|id: String| id@) == driven_ids(mounted_on(*robot)),
        driven_ids(mounted_on(*robot)).no_duplicates(),
{
    let mounted = mounted_components(robot);
    proof {
        let rows = mounted@.map_values(|component: MountedComponent| component@);
        assert forall|i: int, j: int| 0 <= i < j < rows.len() implies (#[trigger] rows[i]).0 != (
        #[trigger] rows[j]).0 by {
            assert(mounted@[i].id@ != mounted@[j].id@);
        }
        law_no_participant_is_presented_twice(rows);
    }
    driven_components(&mounted)
}

/// The presented set is exactly the robot's driver set: an id is in it if and
/// only if an instance of that id declares a `driver` block.
pub proof fn law_exactly_the_driven_are_presented(mounted: Seq<(Seq<char>, bool)>, id: Seq<char>)
    ensures
        driven_ids(mounted).contains(id) <==> mounted.contains((id, true)),
    decreases mounted.len(),
{
    reveal(Seq::filter);
    if mounted.len() > 0 {
        let rest = mounted.drop_last();
        law_exactly_the_driven_are_presented(rest, id);
        assert(mounted =~= rest.push(mounted.last()));
        if mounted.last().1 {
            assert(driven_ids(mounted) =~= driven_ids(rest).push(mounted.last().0));
            lemma_push_contains(driven_ids(rest), mounted.last().0, id);
        } else {
            assert(driven_ids(mounted) =~= driven_ids(rest));
        }
        lemma_push_contains(rest, mounted.last(), (id, true));
    } else {
        assert(driven_ids(mounted) =~= Seq::empty());
    }
}

proof fn lemma_push_contains<A>(items: Seq<A>, last: A, item: A)
    ensures
        items.push(last).contains(item) <==> items.contains(item) || item == last,
{
    let more = items.push(last);
    if items.contains(item) {
        let at = choose|i: int| 0 <= i < items.len() && items[i] == item;
        assert(more[at] == item);
    }
    assert(more[items.len() as int] == last);
}

/// Drivers are presented in the order in which the robot mounts them: one more
/// instance, mounted last, adds its own id last where it declares a `driver`
/// block, and nothing where it does not.
pub proof fn law_drivers_are_presented_in_mounting_order(
    mounted: Seq<(Seq<char>, bool)>,
    id: Seq<char>,
)
    ensures
        driven_ids(Seq::empty()) == Seq::<Seq<char>>::empty(),
        driven_ids(mounted.push((id, true))) == driven_ids(mounted).push(id),
        driven_ids(mounted.push((id, false))) == driven_ids(mounted),
{
    reveal(Seq::filter);
    assert(mounted.push((id, true)).drop_last() =~= mounted);
    assert(mounted.push((id, false)).drop_last() =~= mounted);
    assert(driven_ids(Seq::empty()) =~= Seq::<Seq<char>>::empty());
    assert(driven_ids(mounted.push((id, true))) =~= driven_ids(mounted).push(id));
    assert(driven_ids(mounted.push((id, false))) =~= driven_ids(mounted));
}

/// Each driver is presented once, when no two instances share an id.
pub proof fn law_no_participant_is_presented_twice(mounted: Seq<(Seq<char>, bool)>)
    requires
        forall|i: int, j: int|
            0 <= i < j < mounted.len() ==> (#[trigger] mounted[i]).0 != (#[trigger] mounted[j]).0,
    ensures
        driven_ids(mounted).no_duplicates(),
    decreases mounted.len(),
{
    reveal(Seq::filter);
    if mounted.len() > 0 {
        let rest = mounted.drop_last();
        law_no_participant_is_presented_twice(rest);
        if mounted.last().1 {
            let id = mounted.last().0;
            assert(driven_ids(mounted) =~= driven_ids(rest).push(id));
            law_exactly_the_driven_are_presented(rest, id);
            if rest.contains((id, true)) {
                let at = choose|i: int| 0 <= i < rest.len() && rest[i] == (id, true);
                assert(mounted[at].0 != mounted[mounted.len() - 1].0);
            }
        } else {
            assert(driven_ids(mounted) =~= driven_ids(rest));
        }
    } else {
        assert(driven_ids(mounted) =~= Seq::empty());
    }
}

/// What the host is asked to do next.
pub enum RunAction<E> {
    /// Read the robot out of the bundle.
    OpenBundle,
    /// Open the Webots handle and resolve the world's step.
    OpenWorld,
    /// Resolve the robot's capabilities against the world's step.
    ResolveCatalog,
    /// Attach to the one execution that is reachable.
    Attach,
    /// Bind the device and the handle of the capability at `index`.
    Bind { index: usize },
    /// Make participant ids of the driven component instances.
    NameParticipants,
    /// Declare presence for the participant at `index`.
    Present { index: usize },
    /// Take the world's time, which moves to the step loop.
    TakeWorldTime,
    /// Start the step loop on its own thread.
    StartLoop,
    /// Wait for the step loop to end or the host to ask for a stop.
    AwaitEnd,
    /// Set the flag the step loop reads between steps.
    RequestStop,
    /// Join the step loop, which leaves the world quiet before it returns.
    Join,
    /// Close the session, which drops the presence it declared.
    Close,
    /// The run is over.
    Finish(Result<(), RunFault<E>>),
}

/// Why a run failed.
pub enum RunFault<E> {
    Bundle(E),
    World(E),
    Catalog(E),
    Attach(E),
    Bind { index: usize, error: E },
    Participant(E),
    Presence { index: usize, error: E },
    WorldTime(E),
    Thread(E),
    LoopPanicked,
    Loop(E),
}

/// What came of the action the host was asked to perform.
pub enum RunEvent<E> {
    BundleOpened(Result<(), E>),
    WorldOpened(Result<(), E>),
    /// How many capabilities are simulated.
    CatalogResolved(Result<usize, E>),
    Attached(Result<(), E>),
    Bound(Result<(), E>),
    /// How many participants are presented.
    ParticipantsNamed(Result<usize, E>),
    Presented(Result<(), E>),
    WorldTimeTaken(Result<(), E>),
    LoopStarted(Result<(), E>),
    LoopEnded,
    Signalled,
    StopRequested,
    /// What the step loop ended with; nothing when it panicked.
    Joined(Option<Result<(), E>>),
    Closed,
}

/// Where the run stands: the event it waits for.
#[derive(Clone, Copy, Debug, PartialEq, Eq, Structural)]
pub enum RunPhase {
    OpeningBundle,
    OpeningWorld,
    ResolvingCatalog,
    Attaching { capabilities: usize },
    Binding { index: usize, capabilities: usize },
    NamingParticipants,
    Presenting { index: usize, participants: usize },
    TakingWorldTime,
    StartingLoop,
    AwaitingEnd,
    RequestingStop,
    Joining,
    Closing,
    Finished,
}

/// Where a run stands, and what its step loop ended with once that is known.
pub struct RunState<E> {
    pub phase: RunPhase,
    pub outcome: Option<Result<(), E>>,
}

impl<E> RunState<E> {
    /// Every index is of something there is, and the session is closed only
    /// with the step loop's outcome in hand.
    pub open spec fn valid(self) -> bool {
        &&& match self.phase {
            RunPhase::Binding { index, capabilities } => index < capabilities,
            RunPhase::Presenting { index, participants } => index < participants,
            _ => true,
        }
        &&& self.phase is Closing <==> self.outcome is Some
    }

    /// The run before anything is open.
    pub open spec fn initial() -> RunState<E> {
        RunState { phase: RunPhase::OpeningBundle, outcome: None }
    }

    /// The run on to the next phase, and what is asked for it.
    pub open spec fn entering(self, phase: RunPhase, action: RunAction<E>) -> (
        RunState<E>,
        RunAction<E>,
    ) {
        (RunState { phase, outcome: self.outcome }, action)
    }

    /// The run ended.
    pub open spec fn finished(self, result: Result<(), RunFault<E>>) -> (
        RunState<E>,
        RunAction<E>,
    ) {
        (RunState { phase: RunPhase::Finished, outcome: None }, RunAction::Finish(result))
    }

    /// The run once the capabilities before `index` are bound.
    pub open spec fn binding(self, index: usize, capabilities: usize) -> (
        RunState<E>,
        RunAction<E>,
    ) {
        if index < capabilities {
            self.entering(RunPhase::Binding { index, capabilities }, RunAction::Bind { index })
        } else {
            self.entering(RunPhase::NamingParticipants, RunAction::NameParticipants)
        }
    }

    /// The run once the participants before `index` are presented.
    pub open spec fn presenting(self, index: usize, participants: usize) -> (
        RunState<E>,
        RunAction<E>,
    ) {
        if index < participants {
            self.entering(
                RunPhase::Presenting { index, participants },
                RunAction::Present { index },
            )
        } else {
            self.entering(RunPhase::TakingWorldTime, RunAction::TakeWorldTime)
        }
    }

    /// Whether `event` answers the action this run waits for.
    pub open spec fn awaits(self, event: RunEvent<E>) -> bool {
        match event {
            RunEvent::BundleOpened(_) => self.phase is OpeningBundle,
            RunEvent::WorldOpened(_) => self.phase is OpeningWorld,
            RunEvent::CatalogResolved(_) => self.phase is ResolvingCatalog,
            RunEvent::Attached(_) => self.phase is Attaching,
            RunEvent::Bound(_) => self.phase is Binding,
            RunEvent::ParticipantsNamed(_) => self.phase is NamingParticipants,
            RunEvent::Presented(_) => self.phase is Presenting,
            RunEvent::WorldTimeTaken(_) => self.phase is TakingWorldTime,
            RunEvent::LoopStarted(_) => self.phase is StartingLoop,
            RunEvent::LoopEnded => self.phase is AwaitingEnd,
            RunEvent::Signalled => self.phase is AwaitingEnd,
            RunEvent::StopRequested => self.phase is RequestingStop,
            RunEvent::Joined(_) => self.phase is Joining,
            RunEvent::Closed => self.phase is Closing,
        }
    }

    /// The run after `event`, and what is asked next.
    ///
    /// Presence is declared only once every capability is bound: a driver that
    /// reads as present must already be able to serve its contracts. The
    /// session is closed only once the step loop has been joined: closing while
    /// the wheels were still turning would let a reader believe the drivers are
    /// already gone.
    pub open spec fn respond(self, event: RunEvent<E>) -> (RunState<E>, RunAction<E>) {
        match event {
            RunEvent::BundleOpened(Err(error)) => self.finished(Err(RunFault::Bundle(error))),
            RunEvent::BundleOpened(Ok(())) => self.entering(
                RunPhase::OpeningWorld,
                RunAction::OpenWorld,
            ),
            RunEvent::WorldOpened(Err(error)) => self.finished(Err(RunFault::World(error))),
            RunEvent::WorldOpened(Ok(())) => self.entering(
                RunPhase::ResolvingCatalog,
                RunAction::ResolveCatalog,
            ),
            RunEvent::CatalogResolved(Err(error)) => self.finished(Err(RunFault::Catalog(error))),
            RunEvent::CatalogResolved(Ok(capabilities)) => self.entering(
                RunPhase::Attaching { capabilities },
                RunAction::Attach,
            ),
            RunEvent::Attached(Err(error)) => self.finished(Err(RunFault::Attach(error))),
            RunEvent::Attached(Ok(())) => self.binding(0, self.phase->Attaching_capabilities),
            RunEvent::Bound(Err(error)) => self.finished(
                Err(RunFault::Bind { index: self.phase->Binding_index, error }),
            ),
            RunEvent::Bound(Ok(())) => self.binding(
                (self.phase->Binding_index + 1) as usize,
                self.phase->Binding_capabilities,
            ),
            RunEvent::ParticipantsNamed(Err(error)) => self.finished(
                Err(RunFault::Participant(error)),
            ),
            RunEvent::ParticipantsNamed(Ok(participants)) => self.presenting(0, participants),
            RunEvent::Presented(Err(error)) => self.finished(
                Err(RunFault::Presence { index: self.phase->Presenting_index, error }),
            ),
            RunEvent::Presented(Ok(())) => self.presenting(
                (self.phase->Presenting_index + 1) as usize,
                self.phase->Presenting_participants,
            ),
            RunEvent::WorldTimeTaken(Err(error)) => self.finished(Err(RunFault::WorldTime(error))),
            RunEvent::WorldTimeTaken(Ok(())) => self.entering(
                RunPhase::StartingLoop,
                RunAction::StartLoop,
            ),
            RunEvent::LoopStarted(Err(error)) => self.finished(Err(RunFault::Thread(error))),
            RunEvent::LoopStarted(Ok(())) => self.entering(
                RunPhase::AwaitingEnd,
                RunAction::AwaitEnd,
            ),
            RunEvent::LoopEnded => self.entering(RunPhase::Joining, RunAction::Join),
            RunEvent::Signalled => self.entering(RunPhase::RequestingStop, RunAction::RequestStop),
            RunEvent::StopRequested => self.entering(RunPhase::Joining, RunAction::Join),
            RunEvent::Joined(None) => self.finished(Err(RunFault::LoopPanicked)),
            RunEvent::Joined(Some(outcome)) => (
                RunState { phase: RunPhase::Closing, outcome: Some(outcome) },
                RunAction::Close,
            ),
            RunEvent::Closed => self.finished(
                match self.outcome->Some_0 {
                    Ok(()) => Ok(()),
                    Err(error) => Err(RunFault::Loop(error)),
                },
            ),
        }
    }

    /// Go on with the run, given what came of the last action.
    fn run(&mut self, event: RunEvent<E>) -> (action: RunAction<E>)
        requires
            old(self).valid(),
            old(self).awaits(event),
        ensures
            (*final(self), action) == old(self).respond(event),
            final(self).valid(),
    {
        match event {
            RunEvent::BundleOpened(Ok(())) => self.enter(
                RunPhase::OpeningWorld,
                RunAction::OpenWorld,
            ),
            RunEvent::WorldOpened(Ok(())) => self.enter(
                RunPhase::ResolvingCatalog,
                RunAction::ResolveCatalog,
            ),
            RunEvent::CatalogResolved(Ok(capabilities)) => self.enter(
                RunPhase::Attaching { capabilities },
                RunAction::Attach,
            ),
            RunEvent::Attached(Ok(())) => match self.phase {
                RunPhase::Attaching { capabilities } => self.bind_from(0, capabilities),
                _ => vstd::pervasive::unreached(),
            },
            RunEvent::Bound(Ok(())) => match self.phase {
                RunPhase::Binding { index, capabilities } => self.bind_from(
                    index + 1,
                    capabilities,
                ),
                _ => vstd::pervasive::unreached(),
            },
            RunEvent::ParticipantsNamed(Ok(participants)) => self.present_from(0, participants),
            RunEvent::Presented(Ok(())) => match self.phase {
                RunPhase::Presenting { index, participants } => self.present_from(
                    index + 1,
                    participants,
                ),
                _ => vstd::pervasive::unreached(),
            },
            RunEvent::WorldTimeTaken(Ok(())) => self.enter(
                RunPhase::StartingLoop,
                RunAction::StartLoop,
            ),
            RunEvent::LoopStarted(Ok(())) => self.enter(
                RunPhase::AwaitingEnd,
                RunAction::AwaitEnd,
            ),
            RunEvent::LoopEnded => self.enter(RunPhase::Joining, RunAction::Join),
            RunEvent::Signalled => self.enter(RunPhase::RequestingStop, RunAction::RequestStop),
            RunEvent::StopRequested => self.enter(RunPhase::Joining, RunAction::Join),
            RunEvent::Joined(Some(outcome)) => {
                self.phase = RunPhase::Closing;
                self.outcome = Some(outcome);
                RunAction::Close
            },
            RunEvent::Closed => match self.outcome.take() {
                Some(Ok(())) => self.finish(Ok(())),
                Some(Err(error)) => self.finish(Err(RunFault::Loop(error))),
                None => vstd::pervasive::unreached(),
            },
            RunEvent::BundleOpened(Err(error)) => self.finish(Err(RunFault::Bundle(error))),
            RunEvent::WorldOpened(Err(error)) => self.finish(Err(RunFault::World(error))),
            RunEvent::CatalogResolved(Err(error)) => self.finish(Err(RunFault::Catalog(error))),
            RunEvent::Attached(Err(error)) => self.finish(Err(RunFault::Attach(error))),
            RunEvent::Bound(Err(error)) => match self.phase {
                RunPhase::Binding { index, .. } => self.finish(
                    Err(RunFault::Bind { index, error }),
                ),
                _ => vstd::pervasive::unreached(),
            },
            RunEvent::ParticipantsNamed(Err(error)) => self.finish(
                Err(RunFault::Participant(error)),
            ),
            RunEvent::Presented(Err(error)) => match self.phase {
                RunPhase::Presenting { index, .. } => self.finish(
                    Err(RunFault::Presence { index, error }),
                ),
                _ => vstd::pervasive::unreached(),
            },
            RunEvent::WorldTimeTaken(Err(error)) => self.finish(Err(RunFault::WorldTime(error))),
            RunEvent::LoopStarted(Err(error)) => self.finish(Err(RunFault::Thread(error))),
            RunEvent::Joined(None) => self.finish(Err(RunFault::LoopPanicked)),
        }
    }

    fn enter(&mut self, phase: RunPhase, action: RunAction<E>) -> (asked: RunAction<E>)
        ensures
            (*final(self), asked) == old(self).entering(phase, action),
    {
        self.phase = phase;
        action
    }

    fn finish(&mut self, result: Result<(), RunFault<E>>) -> (asked: RunAction<E>)
        ensures
            (*final(self), asked) == old(self).finished(result),
    {
        self.phase = RunPhase::Finished;
        self.outcome = None;
        RunAction::Finish(result)
    }

    fn bind_from(&mut self, index: usize, capabilities: usize) -> (asked: RunAction<E>)
        ensures
            (*final(self), asked) == old(self).binding(index, capabilities),
    {
        if index < capabilities {
            self.enter(RunPhase::Binding { index, capabilities }, RunAction::Bind { index })
        } else {
            self.enter(RunPhase::NamingParticipants, RunAction::NameParticipants)
        }
    }

    fn present_from(&mut self, index: usize, participants: usize) -> (asked: RunAction<E>)
        ensures
            (*final(self), asked) == old(self).presenting(index, participants),
    {
        if index < participants {
            self.enter(RunPhase::Presenting { index, participants }, RunAction::Present { index })
        } else {
            self.enter(RunPhase::TakingWorldTime, RunAction::TakeWorldTime)
        }
    }

    /// Where the run stands after its first `count` events, and what was asked
    /// then.
    pub open spec fn turn_after(events: Seq<RunEvent<E>>, count: nat) -> (
        RunState<E>,
        RunAction<E>,
    )
        decreases count,
    {
        if count == 0 {
            (Self::initial(), RunAction::OpenBundle)
        } else {
            Self::turn_after(events, (count - 1) as nat).0.respond(events[count - 1])
        }
    }

    /// Every event answers the action that was asked for.
    pub open spec fn answered_by(events: Seq<RunEvent<E>>) -> bool {
        forall|i: nat| i < events.len() ==> (#[trigger] Self::turn_after(events, i)).0.awaits(
            events[i as int],
        )
    }

    /// The action last asked for is the one the run waits on.
    pub open spec fn consistent(turn: (RunState<E>, RunAction<E>)) -> bool {
        let (now, action) = turn;
        &&& now.valid()
        &&& match now.phase {
            RunPhase::OpeningBundle => action is OpenBundle,
            RunPhase::OpeningWorld => action is OpenWorld,
            RunPhase::ResolvingCatalog => action is ResolveCatalog,
            RunPhase::Attaching { .. } => action is Attach,
            RunPhase::Binding { index, .. } => action == RunAction::<E>::Bind { index },
            RunPhase::NamingParticipants => action is NameParticipants,
            RunPhase::Presenting { index, .. } => action == RunAction::<E>::Present { index },
            RunPhase::TakingWorldTime => action is TakeWorldTime,
            RunPhase::StartingLoop => action is StartLoop,
            RunPhase::AwaitingEnd => action is AwaitEnd,
            RunPhase::RequestingStop => action is RequestStop,
            RunPhase::Joining => action is Join,
            RunPhase::Closing => action is Close,
            RunPhase::Finished => action is Finish,
        }
    }
}

proof fn lemma_turns_are_consistent<E>(events: Seq<RunEvent<E>>, count: nat)
    requires
        RunState::<E>::answered_by(events),
        count <= events.len(),
    ensures
        RunState::<E>::consistent(RunState::<E>::turn_after(events, count)),
    decreases count,
{
    if count > 0 {
        let before = (count - 1) as nat;
        lemma_turns_are_consistent(events, before);
        assert(RunState::<E>::turn_after(events, before).0.awaits(events[before as int]));
    }
}

/// The `capabilities` bindings before `count` were asked for in order, and each
/// succeeded.
pub open spec fn all_bound_before<E>(
    events: Seq<RunEvent<E>>,
    count: nat,
    capabilities: nat,
) -> bool {
    &&& capabilities <= count <= events.len()
    &&& forall|k: nat|
        #![trigger RunState::<E>::turn_after(events, (count - capabilities + k) as nat)]
        k < capabilities ==> RunState::<E>::turn_after(
            events,
            (count - capabilities + k) as nat,
        ).1 == (RunAction::<E>::Bind { index: k as usize }) && (events[count - capabilities
            + k] matches RunEvent::Bound(Ok(_)))
}

proof fn lemma_bindings_run_in_order<E>(events: Seq<RunEvent<E>>, count: nat)
    requires
        RunState::<E>::answered_by(events),
        count <= events.len(),
        RunState::<E>::turn_after(events, count).0.phase is Binding,
    ensures
        ({
            let phase = RunState::<E>::turn_after(events, count).0.phase;
            let index = phase->Binding_index as nat;
            &&& all_bound_before(events, count, index)
            &&& count >= index + 2
            &&& events[count - index - 2] == RunEvent::<E>::CatalogResolved(
                Ok(phase->Binding_capabilities),
            )
        }),
    decreases count,
{
    lemma_turns_are_consistent(events, count);
    let before = (count - 1) as nat;
    lemma_turns_are_consistent(events, before);
    assert(RunState::<E>::turn_after(events, before).0.awaits(events[before as int]));
    let index = RunState::<E>::turn_after(events, count).0.phase->Binding_index as nat;
    if index > 0 {
        lemma_bindings_run_in_order(events, before);
        let fewer = (index - 1) as nat;
        assert forall|k: nat|
            #![trigger RunState::<E>::turn_after(events, (count - index + k) as nat)]
            k < index implies RunState::<E>::turn_after(
            events,
            (count - index + k) as nat,
        ).1 == (RunAction::<E>::Bind { index: k as usize }) && (events[count - index
            + k] matches RunEvent::Bound(Ok(_))) by {
            assert((count - index + k) as nat == (before - fewer + k) as nat);
        }
    } else {
        let resolved = (count - 2) as nat;
        lemma_turns_are_consistent(events, resolved);
        assert(RunState::<E>::turn_after(events, resolved).0.awaits(events[resolved as int]));
    }
}

/// Presence is declared only once every capability is bound: when participant
/// ids are asked for, which is before the first presence is declared, every
/// simulated capability has been bound, each once and in order.
pub proof fn law_every_capability_is_bound_before_presence<E>(
    events: Seq<RunEvent<E>>,
    count: nat,
) -> (capabilities: usize)
    requires
        RunState::<E>::answered_by(events),
        count <= events.len(),
        RunState::<E>::turn_after(events, count).1 is NameParticipants,
    ensures
        count >= capabilities + 2,
        events[count - capabilities - 2] == RunEvent::<E>::CatalogResolved(Ok(capabilities)),
        all_bound_before(events, count, capabilities as nat),
{
    lemma_turns_are_consistent(events, count);
    let before = (count - 1) as nat;
    lemma_turns_are_consistent(events, before);
    assert(RunState::<E>::turn_after(events, before).0.awaits(events[before as int]));
    let now = RunState::<E>::turn_after(events, before).0.phase;
    match now {
        RunPhase::Binding { index, capabilities } => {
            lemma_bindings_run_in_order(events, before);
            assert(index + 1 == capabilities);
            assert forall|k: nat|
                #![trigger RunState::<E>::turn_after(
                    events,
                    (count - capabilities as nat + k) as nat,
                )]
                k < capabilities implies RunState::<E>::turn_after(
                events,
                (count - capabilities as nat + k) as nat,
            ).1 == (RunAction::<E>::Bind { index: k as usize }) && (events[count
                - capabilities as nat + k] matches RunEvent::Bound(Ok(_))) by {
                assert((count - capabilities as nat + k) as nat == (before - index as nat
                    + k) as nat);
            }
            capabilities
        },
        _ => {
            let resolved = (count - 2) as nat;
            lemma_turns_are_consistent(events, resolved);
            assert(RunState::<E>::turn_after(events, resolved).0.awaits(
                events[resolved as int],
            ));
            0
        },
    }
}

/// Presence is declared, and the step loop started, only after participant ids
/// were asked for.
pub proof fn law_presence_and_the_loop_follow_the_naming<E>(
    events: Seq<RunEvent<E>>,
    count: nat,
) -> (named: nat)
    requires
        RunState::<E>::answered_by(events),
        count <= events.len(),
        RunState::<E>::turn_after(events, count).1 is Present || RunState::<
            E,
        >::turn_after(events, count).1 is TakeWorldTime || RunState::<E>::turn_after(
            events,
            count,
        ).1 is StartLoop,
    ensures
        named < count,
        RunState::<E>::turn_after(events, named).1 is NameParticipants,
    decreases count,
{
    lemma_turns_are_consistent(events, count);
    let before = (count - 1) as nat;
    lemma_turns_are_consistent(events, before);
    assert(RunState::<E>::turn_after(events, before).0.awaits(events[before as int]));
    if RunState::<E>::turn_after(events, before).1 is NameParticipants {
        before
    } else {
        law_presence_and_the_loop_follow_the_naming(events, before)
    }
}

/// The `participants` presences before `count` were declared in order, and each
/// succeeded.
pub open spec fn all_presented_before<E>(
    events: Seq<RunEvent<E>>,
    count: nat,
    participants: nat,
) -> bool {
    &&& participants <= count <= events.len()
    &&& forall|k: nat|
        #![trigger RunState::<E>::turn_after(events, (count - participants + k) as nat)]
        k < participants ==> RunState::<E>::turn_after(
            events,
            (count - participants + k) as nat,
        ).1 == (RunAction::<E>::Present { index: k as usize }) && (events[count - participants
            + k] matches RunEvent::Presented(Ok(_)))
}

proof fn lemma_presences_run_in_order<E>(events: Seq<RunEvent<E>>, count: nat)
    requires
        RunState::<E>::answered_by(events),
        count <= events.len(),
        RunState::<E>::turn_after(events, count).0.phase is Presenting,
    ensures
        ({
            let phase = RunState::<E>::turn_after(events, count).0.phase;
            let index = phase->Presenting_index as nat;
            &&& all_presented_before(events, count, index)
            &&& count >= index + 1
            &&& events[count - index - 1] == RunEvent::<E>::ParticipantsNamed(
                Ok(phase->Presenting_participants),
            )
        }),
    decreases count,
{
    lemma_turns_are_consistent(events, count);
    let before = (count - 1) as nat;
    lemma_turns_are_consistent(events, before);
    assert(RunState::<E>::turn_after(events, before).0.awaits(events[before as int]));
    let index = RunState::<E>::turn_after(events, count).0.phase->Presenting_index as nat;
    if index > 0 {
        lemma_presences_run_in_order(events, before);
        let fewer = (index - 1) as nat;
        assert forall|k: nat|
            #![trigger RunState::<E>::turn_after(events, (count - index + k) as nat)]
            k < index implies RunState::<E>::turn_after(events, (count - index + k) as nat).1 == (
        RunAction::<E>::Present { index: k as usize }) && (events[count - index
            + k] matches RunEvent::Presented(Ok(_))) by {
            assert((count - index + k) as nat == (before - fewer + k) as nat);
        }
    }
}

/// Every participant is presented before the world's time is asked for, and so
/// before the step loop starts: since the participants were named, presence was
/// declared for each of them, once and in order, and every time it succeeded.
pub proof fn law_every_participant_is_presented_before_world_time<E>(
    events: Seq<RunEvent<E>>,
    count: nat,
) -> (participants: usize)
    requires
        RunState::<E>::answered_by(events),
        count <= events.len(),
        RunState::<E>::turn_after(events, count).1 is TakeWorldTime,
    ensures
        count >= participants + 1,
        events[count - participants - 1] == RunEvent::<E>::ParticipantsNamed(Ok(participants)),
        all_presented_before(events, count, participants as nat),
{
    lemma_turns_are_consistent(events, count);
    let before = (count - 1) as nat;
    lemma_turns_are_consistent(events, before);
    assert(RunState::<E>::turn_after(events, before).0.awaits(events[before as int]));
    match RunState::<E>::turn_after(events, before).0.phase {
        RunPhase::Presenting { index, participants } => {
            lemma_presences_run_in_order(events, before);
            assert(index + 1 == participants);
            assert forall|k: nat|
                #![trigger RunState::<E>::turn_after(
                    events,
                    (count - participants as nat + k) as nat,
                )]
                k < participants implies RunState::<E>::turn_after(
                events,
                (count - participants as nat + k) as nat,
            ).1 == (RunAction::<E>::Present { index: k as usize }) && (events[count
                - participants as nat + k] matches RunEvent::Presented(Ok(_))) by {
                assert((count - participants as nat + k) as nat == (before - index as nat
                    + k) as nat);
            }
            participants
        },
        _ => 0,
    }
}

/// A run that goes well goes on: it opens the bundle, then the world, resolves
/// the catalog and attaches; takes the world's time, starts the loop with it
/// and waits; and joins the loop once it has ended or has been asked to stop.
pub proof fn law_a_run_that_goes_well_goes_on<E>(events: Seq<RunEvent<E>>, at: nat)
    requires
        RunState::<E>::answered_by(events),
        at < events.len(),
    ensures
        ({
            let next = RunState::<E>::turn_after(events, at + 1).1;
            match events[at as int] {
                RunEvent::BundleOpened(Ok(_)) => at == 0 && next is OpenWorld,
                RunEvent::WorldOpened(Ok(_)) => at == 1 && next is ResolveCatalog,
                RunEvent::CatalogResolved(Ok(_)) => at == 2 && next is Attach,
                RunEvent::WorldTimeTaken(Ok(_)) => next is StartLoop,
                RunEvent::LoopStarted(Ok(_)) => next is AwaitEnd,
                RunEvent::LoopEnded => next is Join,
                RunEvent::Signalled => next is RequestStop,
                RunEvent::StopRequested => next is Join,
                RunEvent::Joined(Some(_)) => next is Close,
                _ => true,
            }
        }),
{
    lemma_opening(events, at);
    assert(RunState::<E>::turn_after(events, at).0.awaits(events[at as int]));
}

proof fn lemma_opening<E>(events: Seq<RunEvent<E>>, at: nat)
    requires
        RunState::<E>::answered_by(events),
        at <= events.len(),
    ensures
        match RunState::<E>::turn_after(events, at).0.phase {
            RunPhase::OpeningBundle => at == 0,
            RunPhase::OpeningWorld => at == 1,
            RunPhase::ResolvingCatalog => at == 2,
            RunPhase::Attaching { .. } => at == 3,
            _ => at > 0,
        },
    decreases at,
{
    if at > 0 {
        let before = (at - 1) as nat;
        lemma_opening(events, before);
        assert(RunState::<E>::turn_after(events, before).0.awaits(events[before as int]));
    }
}

/// Attached to its session, a run binds every simulated capability in turn and
/// names its participants right after the last.
pub proof fn law_capabilities_are_bound_until_all_are<E>(
    events: Seq<RunEvent<E>>,
    at: nat,
    capabilities: usize,
    bound: nat,
)
    requires
        RunState::<E>::answered_by(events),
        at + 1 + bound < events.len(),
        events[at as int] == RunEvent::<E>::CatalogResolved(Ok(capabilities)),
        events[(at + 1) as int] matches RunEvent::Attached(Ok(_)),
        bound <= capabilities,
        forall|i: int|
            at + 1 < i <= at + 1 + bound ==> ((#[trigger] events[i]) matches RunEvent::Bound(Ok(_))),
    ensures
        ({
            let (now, next) = RunState::<E>::turn_after(events, at + 2 + bound);
            if bound < capabilities {
                &&& next == (RunAction::<E>::Bind { index: bound as usize })
                &&& now.phase == (RunPhase::Binding { index: bound as usize, capabilities })
            } else {
                next is NameParticipants
            }
        }),
    decreases bound,
{
    assert(RunState::<E>::turn_after(events, at).0.awaits(events[at as int]));
    assert(RunState::<E>::turn_after(events, at + 1).0.awaits(events[(at + 1) as int]));
    if bound > 0 {
        let fewer = (bound - 1) as nat;
        law_capabilities_are_bound_until_all_are(events, at, capabilities, fewer);
        let before = (at + 1 + bound) as nat;
        assert(before == at + 2 + fewer);
        assert(RunState::<E>::turn_after(events, before).0.awaits(events[before as int]));
        assert(events[before as int] matches RunEvent::Bound(Ok(_)));
    }
}

/// With its participants named, a run presents each in turn and takes the
/// world's time right after the last.
pub proof fn law_participants_are_presented_until_all_are<E>(
    events: Seq<RunEvent<E>>,
    at: nat,
    participants: usize,
    presented: nat,
)
    requires
        RunState::<E>::answered_by(events),
        at + presented < events.len(),
        events[at as int] == RunEvent::<E>::ParticipantsNamed(Ok(participants)),
        presented <= participants,
        forall|i: int|
            at < i <= at + presented ==> ((#[trigger] events[i]) matches RunEvent::Presented(
                Ok(_),
            )),
    ensures
        ({
            let (now, next) = RunState::<E>::turn_after(events, at + 1 + presented);
            if presented < participants {
                &&& next == (RunAction::<E>::Present { index: presented as usize })
                &&& now.phase == (RunPhase::Presenting { index: presented as usize, participants })
            } else {
                next is TakeWorldTime
            }
        }),
    decreases presented,
{
    assert(RunState::<E>::turn_after(events, at).0.awaits(events[at as int]));
    if presented > 0 {
        let fewer = (presented - 1) as nat;
        law_participants_are_presented_until_all_are(events, at, participants, fewer);
        let before = (at + presented) as nat;
        assert(before == at + 1 + fewer);
        assert(RunState::<E>::turn_after(events, before).0.awaits(events[before as int]));
        assert(events[before as int] matches RunEvent::Presented(Ok(_)));
    }
}

/// Whatever fails ends the run at once, and is what it ends with; of a
/// capability or a participant, it names the one that was asked for.
pub proof fn law_a_failed_run_says_what_failed<E>(events: Seq<RunEvent<E>>, at: nat)
    requires
        RunState::<E>::answered_by(events),
        at < events.len(),
    ensures
        ({
            let asked = RunState::<E>::turn_after(events, at).1;
            let next = RunState::<E>::turn_after(events, at + 1).1;
            match events[at as int] {
                RunEvent::BundleOpened(Err(error)) => next == RunAction::<E>::Finish(
                    Err(RunFault::Bundle(error)),
                ),
                RunEvent::WorldOpened(Err(error)) => next == RunAction::<E>::Finish(
                    Err(RunFault::World(error)),
                ),
                RunEvent::CatalogResolved(Err(error)) => next == RunAction::<E>::Finish(
                    Err(RunFault::Catalog(error)),
                ),
                RunEvent::Attached(Err(error)) => next == RunAction::<E>::Finish(
                    Err(RunFault::Attach(error)),
                ),
                RunEvent::Bound(Err(error)) => asked matches RunAction::Bind { index } && next
                    == RunAction::<E>::Finish(Err(RunFault::Bind { index, error })),
                RunEvent::ParticipantsNamed(Err(error)) => next == RunAction::<E>::Finish(
                    Err(RunFault::Participant(error)),
                ),
                RunEvent::Presented(Err(error)) => asked matches RunAction::Present { index }
                    && next == RunAction::<E>::Finish(Err(RunFault::Presence { index, error })),
                RunEvent::WorldTimeTaken(Err(error)) => next == RunAction::<E>::Finish(
                    Err(RunFault::WorldTime(error)),
                ),
                RunEvent::LoopStarted(Err(error)) => next == RunAction::<E>::Finish(
                    Err(RunFault::Thread(error)),
                ),
                RunEvent::Joined(None) => next == RunAction::<E>::Finish(
                    Err(RunFault::LoopPanicked),
                ),
                _ => true,
            }
        }),
        RunState::<E>::turn_after(events, at + 1).1 is Finish ==> events.len() == at + 1,
{
    lemma_turns_are_consistent(events, at);
    assert(RunState::<E>::turn_after(events, at).0.awaits(events[at as int]));
    lemma_turns_are_consistent(events, at + 1);
    if events.len() > at + 1 {
        assert(RunState::<E>::turn_after(events, at + 1).0.awaits(events[(at + 1) as int]));
    }
}

/// A run succeeds only once its loop has ended well, has been joined, and its
/// session has been closed after that.
pub proof fn law_only_a_closed_run_succeeds<E>(events: Seq<RunEvent<E>>, count: nat)
    requires
        RunState::<E>::answered_by(events),
        count <= events.len(),
        RunState::<E>::turn_after(events, count).1 matches RunAction::Finish(Ok(_)),
    ensures
        count >= 2,
        events[count - 1] is Closed,
        events[count - 2] matches RunEvent::Joined(Some(Ok(_))),
{
    lemma_turns_are_consistent(events, count);
    let before = (count - 1) as nat;
    lemma_turns_are_consistent(events, before);
    assert(RunState::<E>::turn_after(events, before).0.awaits(events[before as int]));
    let joined = (before - 1) as nat;
    lemma_turns_are_consistent(events, joined);
    assert(RunState::<E>::turn_after(events, joined).0.awaits(events[joined as int]));
}

/// The session is closed only once the step loop has been joined, and the run
/// then ends with what the loop ended with.
pub proof fn law_the_session_closes_after_the_loop<E>(
    events: Seq<RunEvent<E>>,
    count: nat,
    outcome: Result<(), E>,
)
    requires
        RunState::<E>::answered_by(events),
        0 < count <= events.len(),
        RunState::<E>::turn_after(events, count).1 is Close,
        events[count - 1] == RunEvent::Joined(Some(outcome)),
    ensures
        RunState::<E>::turn_after(events, (count - 1) as nat).1 is Join,
        events.len() <= count + 1,
        events.len() == count + 1 ==> RunState::<E>::turn_after(events, count + 1).1
            == RunAction::<E>::Finish(
            match outcome {
                Ok(()) => Ok(()),
                Err(error) => Err(RunFault::Loop(error)),
            },
        ),
{
    lemma_turns_are_consistent(events, count);
    lemma_turns_are_consistent(events, (count - 1) as nat);
    assert(RunState::<E>::turn_after(events, (count - 1) as nat).0.awaits(events[count - 1]));
    if events.len() > count {
        assert(RunState::<E>::turn_after(events, count).0.awaits(events[count as int]));
        if events.len() > count + 1 {
            assert(RunState::<E>::turn_after(events, count + 1).0.awaits(
                events[(count + 1) as int],
            ));
        }
    }
}

/// Nothing else closes the session: a close always follows a join that handed
/// over what the loop ended with.
pub proof fn law_only_a_joined_loop_closes_the_session<E>(events: Seq<RunEvent<E>>, count: nat)
    requires
        RunState::<E>::answered_by(events),
        count <= events.len(),
        RunState::<E>::turn_after(events, count).1 is Close,
    ensures
        count > 0,
        events[count - 1] matches RunEvent::Joined(Some(_)),
{
    lemma_turns_are_consistent(events, count);
    lemma_turns_are_consistent(events, (count - 1) as nat);
    assert(RunState::<E>::turn_after(events, (count - 1) as nat).0.awaits(events[count - 1]));
}

/// A signal sets the stop flag before the loop is joined.
pub proof fn law_a_signal_stops_the_loop_before_the_join<E>(events: Seq<RunEvent<E>>, at: nat)
    requires
        RunState::<E>::answered_by(events),
        at < events.len(),
        events[at as int] is Signalled,
    ensures
        RunState::<E>::turn_after(events, at + 1).1 is RequestStop,
        events.len() > at + 1 ==> RunState::<E>::turn_after(events, at + 2).1 is Join,
{
    assert(RunState::<E>::turn_after(events, at).0.awaits(events[at as int]));
    if events.len() > at + 1 {
        assert(RunState::<E>::turn_after(events, at + 1).0.awaits(events[(at + 1) as int]));
    }
}

/// What failed when the bundle at `bundle_root` could not be opened.
pub fn bundle_context(bundle_root: &str) -> (context: String)
    ensures
        context@ == "failed to open the bundle at "@ + bundle_root@,
{
    let mut context = "failed to open the bundle at ".to_owned();
    context.append(bundle_root);
    context
}

/// What failed when no execution could be attached to at `connect`.
pub fn attach_context(connect: &str) -> (context: String)
    ensures
        context@ == "failed to attach the Webots controller at "@ + connect@,
{
    let mut context = "failed to attach the Webots controller at ".to_owned();
    context.append(connect);
    context
}

/// What failed when a capability could not be bound.
pub fn bind_context(kind: CapabilityKind, reference: &CapabilityRef) -> (context: String)
    ensures
        context@ == "failed to bind the "@ + kind.spec_str() + " capability "@
            + reference.spec_text() + " the bundle manifest declares"@,
{
    let mut context = "failed to bind the ".to_owned();
    context.append(kind.as_str());
    context.append(" capability ");
    let name = reference.text();
    context.append(name.as_str());
    context.append(" the bundle manifest declares");
    context
}

/// What failed when presence could not be declared.
pub fn presence_context(participant: &str) -> (context: String)
    ensures
        context@ == "failed to declare presence for "@ + participant@,
{
    let mut context = "failed to declare presence for ".to_owned();
    context.append(participant);
    context
}

/// One run of the controller.
pub struct ControllerRun<E> {
    state: RunState<E>,
}

impl<E> View for ControllerRun<E> {
    type V = RunState<E>;

    closed spec fn view(&self) -> RunState<E> {
        self.state
    }
}

impl<E> ControllerRun<E> {
    #[verifier::type_invariant]
    spec fn holds_a_valid_state(self) -> bool {
        self@.valid()
    }

    /// The run before anything is open, and what is asked first.
    pub fn new() -> (turn: (ControllerRun<E>, RunAction<E>))
        ensures
            turn.0@ == RunState::<E>::initial(),
            turn.1 == RunAction::<E>::OpenBundle,
    {
        let state = RunState { phase: RunPhase::OpeningBundle, outcome: None };
        (ControllerRun { state }, RunAction::OpenBundle)
    }

    /// Run the controller until the world stops or the host asks it to: go on,
    /// given what came of the last action.
    pub fn run(&mut self, event: RunEvent<E>) -> (action: RunAction<E>)
        requires
            old(self)@.awaits(event),
        ensures
            (final(self)@, action) == old(self)@.respond(event),
    {
        proof {
            use_type_invariant(&*self);
        }
        let mut state = RunState { phase: RunPhase::Finished, outcome: None };
        std::mem::swap(&mut self.state, &mut state);
        let action = state.run(event);
        self.state = state;
        action
    }
}

} // verus!
