//! The subscriber session: the state machine that serves one connected
//! client.
//!
//! The session decides; a driver acts. The driver performs the action that
//! `Session::handle` returns and reports what came of it as the next event.
//! A session knows of no other session: nothing that another client does is
//! ever reported to it.

use crate::hub::{Delivery, DeliveryView};
use vstd::prelude::*;

verus! {

/// Where a session stands.
#[derive(Clone, Copy, Debug, PartialEq, Eq, Structural)]
pub enum SessionState {
    /// The transport handshake with the client is under way.
    Handshaking,
    /// The session reads its subscription.
    Receiving,
    /// A message is being written to the client.
    Forwarding,
    /// The session is over.
    Finished,
}

/// What the driver reports to the session.
#[derive(Debug, PartialEq, Eq)]
pub enum SessionEvent {
    /// The handshake succeeded.
    HandshakeSucceeded,
    /// The handshake failed.
    HandshakeFailed,
    /// The subscription was read, with this outcome.
    Delivered(Delivery),
    /// The message was written to the client.
    WriteSucceeded,
    /// The message could not be written to the client.
    WriteFailed,
}

/// What the session asks the driver to do.
#[derive(Debug, PartialEq, Eq)]
pub enum SessionAction {
    /// Subscribe to the hub, then read the subscription.
    Subscribe,
    /// Read the subscription.
    Read,
    /// Suspend until the hub has news, then read the subscription.
    Wait,
    /// Write this message to the client as one text frame.
    Forward(String),
    /// Release the subscription and end.
    Finish,
    /// Give the connection up and end: it never had a subscription.
    Abandon,
    /// The event was not awaited in this state: go on as before.
    Ignore,
}

/// An event as a mathematical value.
pub enum SessionEventView {
    HandshakeSucceeded,
    HandshakeFailed,
    Delivered(DeliveryView),
    WriteSucceeded,
    WriteFailed,
}

/// An action as a mathematical value.
pub enum SessionActionView {
    Subscribe,
    Read,
    Wait,
    Forward(Seq<char>),
    Finish,
    Abandon,
    Ignore,
}

impl View for SessionEvent {
    type V = SessionEventView;

    open spec fn view(&self) -> SessionEventView {
        match self {
            SessionEvent::HandshakeSucceeded => SessionEventView::HandshakeSucceeded,
            SessionEvent::HandshakeFailed => SessionEventView::HandshakeFailed,
            SessionEvent::Delivered(delivery) => SessionEventView::Delivered(delivery@),
            SessionEvent::WriteSucceeded => SessionEventView::WriteSucceeded,
            SessionEvent::WriteFailed => SessionEventView::WriteFailed,
        }
    }
}

impl View for SessionAction {
    type V = SessionActionView;

    open spec fn view(&self) -> SessionActionView {
        match self {
            SessionAction::Subscribe => SessionActionView::Subscribe,
            SessionAction::Read => SessionActionView::Read,
            SessionAction::Wait => SessionActionView::Wait,
            SessionAction::Forward(message) => SessionActionView::Forward(message@),
            SessionAction::Finish => SessionActionView::Finish,
            SessionAction::Abandon => SessionActionView::Abandon,
            SessionAction::Ignore => SessionActionView::Ignore,
        }
    }
}

/// What a session that reads its subscription does with the outcome. A
/// message is forwarded, a lag is passed over without a write, and a closed
/// hub ends the session.
pub open spec fn delivery_transition(delivery: DeliveryView) -> (SessionState, SessionActionView) {
    match delivery {
        DeliveryView::Message(message) => (
            SessionState::Forwarding,
            SessionActionView::Forward(message),
        ),
        DeliveryView::Lagged(_) => (SessionState::Receiving, SessionActionView::Read),
        DeliveryView::Pending => (SessionState::Receiving, SessionActionView::Wait),
        DeliveryView::Closed => (SessionState::Finished, SessionActionView::Finish),
    }
}

/// The session's transitions: the state and the event give the next state
/// and the action. A session that is over stays so.
pub open spec fn transition(state: SessionState, event: SessionEventView) -> (
    SessionState,
    SessionActionView,
) {
    match (state, event) {
        (SessionState::Finished, _) => (SessionState::Finished, SessionActionView::Finish),
        (SessionState::Handshaking, SessionEventView::HandshakeSucceeded) => (
            SessionState::Receiving,
            SessionActionView::Subscribe,
        ),
        (SessionState::Handshaking, SessionEventView::HandshakeFailed) => (
            SessionState::Finished,
            SessionActionView::Abandon,
        ),
        (SessionState::Receiving, SessionEventView::Delivered(delivery)) => delivery_transition(
            delivery,
        ),
        (SessionState::Forwarding, SessionEventView::WriteSucceeded) => (
            SessionState::Receiving,
            SessionActionView::Read,
        ),
        (SessionState::Forwarding, SessionEventView::WriteFailed) => (
            SessionState::Finished,
            SessionActionView::Finish,
        ),
        _ => (state, SessionActionView::Ignore),
    }
}

/// One subscriber session.
pub struct Session {
    state: SessionState,
}

impl View for Session {
    type V = SessionState;

    closed spec fn view(&self) -> SessionState {
        self.state
    }
}

impl Session {
    /// The session of a client that has just connected.
    pub fn new() -> (session: Session)
        ensures
            session@ == SessionState::Handshaking,
    {
        Session { state: SessionState::Handshaking }
    }

    /// Where the session stands.
    pub fn state(&self) -> (state: SessionState)
        ensures
            state == self@,
    {
        self.state
    }

    /// Whether the session is over.
    pub fn is_finished(&self) -> (finished: bool)
        ensures
            finished == (self@ == SessionState::Finished),
    {
        match self.state {
            SessionState::Finished => true,
            _ => false,
        }
    }

    /// Takes one event and says what to do next.
    pub fn handle(&mut self, event: SessionEvent) -> (action: SessionAction)
        ensures
            (final(self)@, action@) == transition(old(self)@, event@),
    {
        let (next, action) = step(self.state, event);
        self.state = next;
        action
    }
}

/// One transition of a session, from a state and an event to the next state
/// and the action.
pub fn step(state: SessionState, event: SessionEvent) -> (next: (SessionState, SessionAction))
    ensures
        (next.0, next.1@) == transition(state, event@),
{
    match state {
        SessionState::Finished => (SessionState::Finished, SessionAction::Finish),
        SessionState::Handshaking => match event {
            SessionEvent::HandshakeSucceeded => (SessionState::Receiving, SessionAction::Subscribe),
            SessionEvent::HandshakeFailed => (SessionState::Finished, SessionAction::Abandon),
            _ => (state, SessionAction::Ignore),
        },
        SessionState::Receiving => match event {
            SessionEvent::Delivered(delivery) => match delivery {
                Delivery::Message(message) => (
                    SessionState::Forwarding,
                    SessionAction::Forward(message),
                ),
                Delivery::Lagged(_) => (SessionState::Receiving, SessionAction::Read),
                Delivery::Pending => (SessionState::Receiving, SessionAction::Wait),
                Delivery::Closed => (SessionState::Finished, SessionAction::Finish),
            },
            _ => (state, SessionAction::Ignore),
        },
        SessionState::Forwarding => match event {
            SessionEvent::WriteSucceeded => (SessionState::Receiving, SessionAction::Read),
            SessionEvent::WriteFailed => (SessionState::Finished, SessionAction::Finish),
            _ => (state, SessionAction::Ignore),
        },
    }
}

/// The state after a history of events.
pub open spec fn state_after(start: SessionState, events: Seq<SessionEventView>) -> SessionState
    decreases events.len(),
{
    if events.len() == 0 {
        start
    } else {
        transition(state_after(start, events.drop_last()), events.last()).0
    }
}

/// The action that answered the last event of a history that is not empty.
pub open spec fn last_action(
    start: SessionState,
    events: Seq<SessionEventView>,
) -> SessionActionView
    recommends
        events.len() > 0,
{
    transition(state_after(start, events.drop_last()), events.last()).1
}

/// The messages that the session asked to be written in a history, in order.
pub open spec fn forwarded(start: SessionState, events: Seq<SessionEventView>) -> Seq<Seq<char>>
    decreases events.len(),
{
    if events.len() == 0 {
        Seq::empty()
    } else {
        let earlier = forwarded(start, events.drop_last());
        match last_action(start, events) {
            SessionActionView::Forward(message) => earlier.push(message),
            _ => earlier,
        }
    }
}

/// The messages that were delivered to the session in a history while it was
/// reading its subscription, in order.
pub open spec fn delivered(start: SessionState, events: Seq<SessionEventView>) -> Seq<Seq<char>>
    decreases events.len(),
{
    if events.len() == 0 {
        Seq::empty()
    } else {
        let earlier = delivered(start, events.drop_last());
        match (state_after(start, events.drop_last()), events.last()) {
            (
                SessionState::Receiving,
                SessionEventView::Delivered(DeliveryView::Message(message)),
            ) => earlier.push(message),
            _ => earlier,
        }
    }
}

/// A session writes to its client what its subscription handed it, all of it
/// and in that order, and nothing else.
pub proof fn lemma_forwards_what_was_delivered(start: SessionState, events: Seq<SessionEventView>)
    ensures
        forwarded(start, events) == delivered(start, events),
    decreases events.len(),
{
    if events.len() > 0 {
        lemma_forwards_what_was_delivered(start, events.drop_last());
    }
}

/// A lag is passed over: the session writes nothing and reads again.
pub proof fn lemma_lag_is_passed_over(missed: nat)
    ensures
        transition(SessionState::Receiving, SessionEventView::Delivered(DeliveryView::Lagged(missed)))
            == (SessionState::Receiving, SessionActionView::Read),
{
}

/// A session ends when the hub is closed and when a write fails, and a
/// session that has ended stays so and asks for no write again.
pub proof fn lemma_session_ends(state: SessionState, event: SessionEventView)
    ensures
        transition(SessionState::Receiving, SessionEventView::Delivered(DeliveryView::Closed)).0
            == SessionState::Finished,
        transition(SessionState::Forwarding, SessionEventView::WriteFailed).0
            == SessionState::Finished,
        transition(SessionState::Finished, event) == (
            SessionState::Finished,
            SessionActionView::Finish,
        ),
{
}

} // verus!
