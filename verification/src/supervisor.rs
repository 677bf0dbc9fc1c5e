//! The relay supervisor: the state machine that owns the listening endpoint,
//! the one upstream task and the shutdown.
//!
//! The supervisor decides; a driver acts. The driver performs the action that
//! `Supervisor::handle` returns and reports what came of it as the next event.
//! After `Launch`, `Serve` and `Accept` the driver waits for the next inbound
//! connection. Nothing that happens to one connection or one frame is ever
//! reported here: only a listener that cannot be bound ends the relay.

use vstd::prelude::*;

verus! {

/// Where the supervisor stands.
#[derive(Clone, Copy, Debug, PartialEq, Eq, Structural)]
pub enum SupervisorState {
    /// The listening endpoint is being bound.
    Starting,
    /// The relay runs and accepts clients.
    Serving,
    /// The relay was shut down.
    Stopped,
    /// The listening endpoint could not be bound.
    Failed,
}

/// What the driver reports to the supervisor.
#[derive(Clone, Copy, Debug, PartialEq, Eq, Structural)]
pub enum SupervisorEvent {
    /// The listening endpoint is bound.
    Bound,
    /// The listening endpoint could not be bound.
    BindFailed,
    /// A client connected.
    Accepted,
    /// Accepting a client failed.
    AcceptFailed,
    /// The relay is to shut down.
    Shutdown,
}

/// What the supervisor asks the driver to do.
#[derive(Clone, Copy, Debug, PartialEq, Eq, Structural)]
pub enum SupervisorAction {
    /// Start the upstream task, then accept clients.
    Launch,
    /// Start a session for the client that connected, then accept the next.
    Serve,
    /// Note the failure and accept the next client.
    Accept,
    /// Tell the upstream task to stop, close the hub and accept no more
    /// clients.
    Teardown,
    /// Give up: without its listening endpoint the relay cannot run.
    Abort,
    /// The event was not awaited in this state: go on as before.
    Ignore,
}

/// The supervisor's transitions: the state and the event give the next state
/// and the action. A relay that was shut down or has failed stays so.
pub open spec fn transition(state: SupervisorState, event: SupervisorEvent) -> (
    SupervisorState,
    SupervisorAction,
) {
    match (state, event) {
        (SupervisorState::Stopped, _) => (SupervisorState::Stopped, SupervisorAction::Teardown),
        (SupervisorState::Failed, _) => (SupervisorState::Failed, SupervisorAction::Abort),
        (_, SupervisorEvent::Shutdown) => (SupervisorState::Stopped, SupervisorAction::Teardown),
        (SupervisorState::Starting, SupervisorEvent::Bound) => (
            SupervisorState::Serving,
            SupervisorAction::Launch,
        ),
        (SupervisorState::Starting, SupervisorEvent::BindFailed) => (
            SupervisorState::Failed,
            SupervisorAction::Abort,
        ),
        (SupervisorState::Serving, SupervisorEvent::Accepted) => (
            SupervisorState::Serving,
            SupervisorAction::Serve,
        ),
        (SupervisorState::Serving, SupervisorEvent::AcceptFailed) => (
            SupervisorState::Serving,
            SupervisorAction::Accept,
        ),
        _ => (state, SupervisorAction::Ignore),
    }
}

/// The relay supervisor.
pub struct Supervisor {
    state: SupervisorState,
}

impl View for Supervisor {
    type V = SupervisorState;

    closed spec fn view(&self) -> SupervisorState {
        self.state
    }
}

impl Supervisor {
    /// The supervisor of a relay that is about to bind its endpoint.
    pub fn new() -> (supervisor: Supervisor)
        ensures
            supervisor@ == SupervisorState::Starting,
    {
        Supervisor { state: SupervisorState::Starting }
    }

    /// Where the supervisor stands.
    pub fn state(&self) -> (state: SupervisorState)
        ensures
            state == self@,
    {
        self.state
    }

    /// Takes one event and says what to do next.
    pub fn handle(&mut self, event: SupervisorEvent) -> (action: SupervisorAction)
        ensures
            (final(self)@, action) == transition(old(self)@, event),
    {
        let (next, action) = step(self.state, event);
        self.state = next;
        action
    }
}

/// One transition of the supervisor, from a state and an event to the next
/// state and the action.
pub fn step(state: SupervisorState, event: SupervisorEvent) -> (next: (
    SupervisorState,
    SupervisorAction,
))
    ensures
        next == transition(state, event),
{
    match state {
        SupervisorState::Stopped => (SupervisorState::Stopped, SupervisorAction::Teardown),
        SupervisorState::Failed => (SupervisorState::Failed, SupervisorAction::Abort),
        SupervisorState::Starting => match event {
            SupervisorEvent::Shutdown => (SupervisorState::Stopped, SupervisorAction::Teardown),
            SupervisorEvent::Bound => (SupervisorState::Serving, SupervisorAction::Launch),
            SupervisorEvent::BindFailed => (SupervisorState::Failed, SupervisorAction::Abort),
            _ => (state, SupervisorAction::Ignore),
        },
        SupervisorState::Serving => match event {
            SupervisorEvent::Shutdown => (SupervisorState::Stopped, SupervisorAction::Teardown),
            SupervisorEvent::Accepted => (SupervisorState::Serving, SupervisorAction::Serve),
            SupervisorEvent::AcceptFailed => (SupervisorState::Serving, SupervisorAction::Accept),
            _ => (state, SupervisorAction::Ignore),
        },
    }
}

/// The state after a history of events.
pub open spec fn state_after(start: SupervisorState, events: Seq<SupervisorEvent>) -> SupervisorState
    decreases events.len(),
{
    if events.len() == 0 {
        start
    } else {
        transition(state_after(start, events.drop_last()), events.last()).0
    }
}

/// The action that answered the last event of a history that is not empty.
pub open spec fn last_action(start: SupervisorState, events: Seq<SupervisorEvent>) -> SupervisorAction
    recommends
        events.len() > 0,
{
    transition(state_after(start, events.drop_last()), events.last()).1
}

/// How many upstream tasks the supervisor asked for in a history.
pub open spec fn launches(start: SupervisorState, events: Seq<SupervisorEvent>) -> nat
    decreases events.len(),
{
    if events.len() == 0 {
        0
    } else if last_action(start, events) == SupervisorAction::Launch {
        launches(start, events.drop_last()) + 1
    } else {
        launches(start, events.drop_last())
    }
}

/// How many sessions the supervisor asked for in a history.
pub open spec fn sessions(start: SupervisorState, events: Seq<SupervisorEvent>) -> nat
    decreases events.len(),
{
    if events.len() == 0 {
        0
    } else if last_action(start, events) == SupervisorAction::Serve {
        sessions(start, events.drop_last()) + 1
    } else {
        sessions(start, events.drop_last())
    }
}

/// How many clients connected while the relay was serving.
pub open spec fn accepted_while_serving(
    start: SupervisorState,
    events: Seq<SupervisorEvent>,
) -> nat
    decreases events.len(),
{
    if events.len() == 0 {
        0
    } else if state_after(start, events.drop_last()) == SupervisorState::Serving && events.last()
        == SupervisorEvent::Accepted {
        accepted_while_serving(start, events.drop_last()) + 1
    } else {
        accepted_while_serving(start, events.drop_last())
    }
}

/// There is one upstream task and never a second: a relay that is serving
/// has asked for exactly one, a relay that is starting or has failed for none,
/// and no relay for more than one.
pub proof fn lemma_one_upstream_task(events: Seq<SupervisorEvent>)
    ensures
        launches(SupervisorState::Starting, events) <= 1,
        state_after(SupervisorState::Starting, events) == SupervisorState::Serving ==> launches(
            SupervisorState::Starting,
            events,
        ) == 1,
        state_after(SupervisorState::Starting, events) == SupervisorState::Starting ==> launches(
            SupervisorState::Starting,
            events,
        ) == 0,
        state_after(SupervisorState::Starting, events) == SupervisorState::Failed ==> launches(
            SupervisorState::Starting,
            events,
        ) == 0,
    decreases events.len(),
{
    if events.len() > 0 {
        lemma_one_upstream_task(events.drop_last());
    }
}

/// Every client that connects while the relay serves gets a session, and no
/// session is asked for otherwise.
pub proof fn lemma_one_session_per_client(start: SupervisorState, events: Seq<SupervisorEvent>)
    ensures
        sessions(start, events) == accepted_while_serving(start, events),
    decreases events.len(),
{
    if events.len() > 0 {
        lemma_one_session_per_client(start, events.drop_last());
    }
}

/// Only a listener that cannot be bound is fatal: the relay fails on that
/// event in its first state and on no other event in any state. The failure
/// is final: the relay does not try to bind again.
pub proof fn lemma_only_bind_failure_is_fatal(state: SupervisorState, event: SupervisorEvent)
    ensures
        state != SupervisorState::Failed ==> (transition(state, event).0
            == SupervisorState::Failed <==> state == SupervisorState::Starting && event
            == SupervisorEvent::BindFailed),
        transition(SupervisorState::Failed, event) == (
            SupervisorState::Failed,
            SupervisorAction::Abort,
        ),
{
}

/// A shutdown is final, and it may be repeated: once it was reported to a
/// relay that has not failed, the relay is stopped after every further event,
/// and launches and serves nothing more.
pub proof fn lemma_shutdown_is_final(
    start: SupervisorState,
    before: Seq<SupervisorEvent>,
    after: Seq<SupervisorEvent>,
)
    requires
        state_after(start, before) != SupervisorState::Failed,
    ensures
        state_after(start, before.push(SupervisorEvent::Shutdown) + after)
            == SupervisorState::Stopped,
        last_action(start, before.push(SupervisorEvent::Shutdown) + after)
            == SupervisorAction::Teardown,
    decreases after.len(),
{
    let stopped = before.push(SupervisorEvent::Shutdown);
    let events = stopped + after;
    if after.len() == 0 {
        assert(events =~= stopped);
        assert(stopped.drop_last() =~= before);
    } else {
        lemma_shutdown_is_final(start, before, after.drop_last());
        assert(events.drop_last() =~= stopped + after.drop_last());
        assert(events.last() == after.last());
    }
}

} // verus!
