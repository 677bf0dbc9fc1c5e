//! The upstream feed adapter: the state machine that keeps one connection to
//! the telemetry source alive.
//!
//! The adapter decides; a driver acts. The driver performs the action that
//! `FeedAdapter::handle` returns and reports what came of it as the next
//! event. After `Publish`, `Inform`, `DropMalformed` and `DropUnexpected` the
//! driver reads the next frame, as it does after `Receive`. A shutdown may be
//! reported at any time, in place of the event that the driver was waiting for.

use crate::codec::{decode, decoding, DecodeError, TelemetryRecord};
use vstd::prelude::*;

verus! {

/// How long the adapter waits before it connects again, in milliseconds. The
/// wait is the same after every failure.
pub const BACKOFF_MILLIS: u64 = 1000;

/// Where the adapter stands.
#[derive(Clone, Copy, Debug, PartialEq, Eq, Structural)]
pub enum ConnectionState {
    /// Not started yet.
    Disconnected,
    /// A connection attempt is under way.
    Connecting,
    /// The connection stands and frames are read from it.
    Connected,
    /// The last attempt or the connection failed; the backoff runs.
    Retrying,
    /// Shut down for good.
    Terminated,
}

/// A frame that the upstream sent.
#[derive(Debug, PartialEq, Eq)]
pub enum Frame {
    /// A binary frame with its payload.
    Binary(Vec<u8>),
    /// A text frame.
    Text,
    /// Any other frame.
    Other,
}

/// What the driver reports to the adapter.
#[derive(Debug, PartialEq, Eq)]
pub enum FeedEvent {
    /// The adapter is to begin its work.
    Start,
    /// The connection attempt succeeded.
    ConnectSucceeded,
    /// The connection attempt failed.
    ConnectFailed,
    /// A frame was read.
    FrameArrived(Frame),
    /// Reading from the connection failed.
    ReadFailed,
    /// The upstream closed the connection.
    UpstreamClosed,
    /// The backoff is over.
    BackoffElapsed,
    /// The relay shuts down.
    Shutdown,
}

/// What the adapter asks the driver to do.
#[derive(Clone, Copy, Debug, PartialEq, Eq, Structural)]
pub enum FeedAction {
    /// Open a connection to the upstream.
    Connect,
    /// Read the next frame.
    Receive,
    /// Publish this record, then read the next frame.
    Publish(TelemetryRecord),
    /// Pass the text frame to the informational channel, then read the next
    /// frame.
    Inform,
    /// Drop the binary frame, which is no record, with a diagnostic, then read
    /// the next frame.
    DropMalformed(DecodeError),
    /// Drop the frame, which is neither binary nor text, with a diagnostic,
    /// then read the next frame.
    DropUnexpected,
    /// Wait so many milliseconds, then report `BackoffElapsed`.
    Backoff(u64),
    /// Stop: release the connection, if there is one, and report nothing more.
    Halt,
    /// The event was not awaited in this state: go on as before.
    Ignore,
}

/// A frame as a mathematical value.
pub enum FrameView {
    Binary(Seq<u8>),
    Text,
    Other,
}

/// An event as a mathematical value.
pub enum FeedEventView {
    Start,
    ConnectSucceeded,
    ConnectFailed,
    FrameArrived(FrameView),
    ReadFailed,
    UpstreamClosed,
    BackoffElapsed,
    Shutdown,
}

impl View for Frame {
    type V = FrameView;

    open spec fn view(&self) -> FrameView {
        match self {
            Frame::Binary(payload) => FrameView::Binary(payload@),
            Frame::Text => FrameView::Text,
            Frame::Other => FrameView::Other,
        }
    }
}

impl View for FeedEvent {
    type V = FeedEventView;

    open spec fn view(&self) -> FeedEventView {
        match self {
            FeedEvent::Start => FeedEventView::Start,
            FeedEvent::ConnectSucceeded => FeedEventView::ConnectSucceeded,
            FeedEvent::ConnectFailed => FeedEventView::ConnectFailed,
            FeedEvent::FrameArrived(frame) => FeedEventView::FrameArrived(frame@),
            FeedEvent::ReadFailed => FeedEventView::ReadFailed,
            FeedEvent::UpstreamClosed => FeedEventView::UpstreamClosed,
            FeedEvent::BackoffElapsed => FeedEventView::BackoffElapsed,
            FeedEvent::Shutdown => FeedEventView::Shutdown,
        }
    }
}

/// What becomes of a frame that was read from a standing connection. Only a
/// binary frame is decoded.
pub open spec fn frame_action(frame: FrameView) -> FeedAction {
    match frame {
        FrameView::Binary(payload) => match decoding(payload) {
            Ok(record) => FeedAction::Publish(record),
            Err(error) => FeedAction::DropMalformed(error),
        },
        FrameView::Text => FeedAction::Inform,
        FrameView::Other => FeedAction::DropUnexpected,
    }
}

/// The adapter's transitions: the state and the event give the next state and
/// the action.
///
/// A shutdown ends the adapter from every state, and an adapter that has
/// ended stays so. A failed attempt, a failed read and a closed connection
/// all lead to the same backoff and then to a new attempt. No frame, whatever
/// it holds, ends the connection.
pub open spec fn transition(state: ConnectionState, event: FeedEventView) -> (
    ConnectionState,
    FeedAction,
) {
    match (state, event) {
        (ConnectionState::Terminated, _) => (ConnectionState::Terminated, FeedAction::Halt),
        (_, FeedEventView::Shutdown) => (ConnectionState::Terminated, FeedAction::Halt),
        (ConnectionState::Disconnected, FeedEventView::Start) => (
            ConnectionState::Connecting,
            FeedAction::Connect,
        ),
        (ConnectionState::Connecting, FeedEventView::ConnectSucceeded) => (
            ConnectionState::Connected,
            FeedAction::Receive,
        ),
        (ConnectionState::Connecting, FeedEventView::ConnectFailed) => (
            ConnectionState::Retrying,
            FeedAction::Backoff(BACKOFF_MILLIS),
        ),
        (ConnectionState::Connected, FeedEventView::FrameArrived(frame)) => (
            ConnectionState::Connected,
            frame_action(frame),
        ),
        (ConnectionState::Connected, FeedEventView::ReadFailed) => (
            ConnectionState::Retrying,
            FeedAction::Backoff(BACKOFF_MILLIS),
        ),
        (ConnectionState::Connected, FeedEventView::UpstreamClosed) => (
            ConnectionState::Retrying,
            FeedAction::Backoff(BACKOFF_MILLIS),
        ),
        (ConnectionState::Retrying, FeedEventView::BackoffElapsed) => (
            ConnectionState::Connecting,
            FeedAction::Connect,
        ),
        _ => (state, FeedAction::Ignore),
    }
}

/// The upstream feed adapter.
pub struct FeedAdapter {
    state: ConnectionState,
}

impl View for FeedAdapter {
    type V = ConnectionState;

    closed spec fn view(&self) -> ConnectionState {
        self.state
    }
}

impl FeedAdapter {
    /// An adapter that has not started.
    pub fn new() -> (adapter: FeedAdapter)
        ensures
            adapter@ == ConnectionState::Disconnected,
    {
        FeedAdapter { state: ConnectionState::Disconnected }
    }

    /// Where the adapter stands.
    pub fn state(&self) -> (state: ConnectionState)
        ensures
            state == self@,
    {
        self.state
    }

    /// Takes one event and says what to do next.
    pub fn handle(&mut self, event: FeedEvent) -> (action: FeedAction)
        ensures
            (final(self)@, action) == transition(old(self)@, event@),
    {
        let (next, action) = step(self.state, event);
        self.state = next;
        action
    }
}

/// What becomes of a frame that was read from a standing connection.
pub fn handle_frame(frame: &Frame) -> (action: FeedAction)
    ensures
        action == frame_action(frame@),
{
    match frame {
        Frame::Binary(payload) => match decode(payload.as_slice()) {
            Ok(record) => FeedAction::Publish(record),
            Err(error) => FeedAction::DropMalformed(error),
        },
        Frame::Text => FeedAction::Inform,
        Frame::Other => FeedAction::DropUnexpected,
    }
}

/// One transition of the adapter, from a state and an event to the next
/// state and the action.
pub fn step(state: ConnectionState, event: FeedEvent) -> (next: (ConnectionState, FeedAction))
    ensures
        next == transition(state, event@),
{
    match state {
        ConnectionState::Terminated => (ConnectionState::Terminated, FeedAction::Halt),
        ConnectionState::Disconnected => match event {
            FeedEvent::Shutdown => (ConnectionState::Terminated, FeedAction::Halt),
            FeedEvent::Start => (ConnectionState::Connecting, FeedAction::Connect),
            _ => (state, FeedAction::Ignore),
        },
        ConnectionState::Connecting => match event {
            FeedEvent::Shutdown => (ConnectionState::Terminated, FeedAction::Halt),
            FeedEvent::ConnectSucceeded => (ConnectionState::Connected, FeedAction::Receive),
            FeedEvent::ConnectFailed => (
                ConnectionState::Retrying,
                FeedAction::Backoff(BACKOFF_MILLIS),
            ),
            _ => (state, FeedAction::Ignore),
        },
        ConnectionState::Connected => match event {
            FeedEvent::Shutdown => (ConnectionState::Terminated, FeedAction::Halt),
            FeedEvent::FrameArrived(frame) => (ConnectionState::Connected, handle_frame(&frame)),
            FeedEvent::ReadFailed => (
                ConnectionState::Retrying,
                FeedAction::Backoff(BACKOFF_MILLIS),
            ),
            FeedEvent::UpstreamClosed => (
                ConnectionState::Retrying,
                FeedAction::Backoff(BACKOFF_MILLIS),
            ),
            _ => (state, FeedAction::Ignore),
        },
        ConnectionState::Retrying => match event {
            FeedEvent::Shutdown => (ConnectionState::Terminated, FeedAction::Halt),
            FeedEvent::BackoffElapsed => (ConnectionState::Connecting, FeedAction::Connect),
            _ => (state, FeedAction::Ignore),
        },
    }
}

/// The state after a history of events.
pub open spec fn state_after(start: ConnectionState, events: Seq<FeedEventView>) -> ConnectionState
    decreases events.len(),
{
    if events.len() == 0 {
        start
    } else {
        transition(state_after(start, events.drop_last()), events.last()).0
    }
}

/// The action that answered the last event of a history that is not empty.
pub open spec fn last_action(start: ConnectionState, events: Seq<FeedEventView>) -> FeedAction
    recommends
        events.len() > 0,
{
    transition(state_after(start, events.drop_last()), events.last()).1
}

/// How many connection attempts the adapter asked for in a history.
pub open spec fn attempts(start: ConnectionState, events: Seq<FeedEventView>) -> nat
    decreases events.len(),
{
    if events.len() == 0 {
        0
    } else if last_action(start, events) == FeedAction::Connect {
        attempts(start, events.drop_last()) + 1
    } else {
        attempts(start, events.drop_last())
    }
}

/// How many connection attempts came to an end in a history: the adapter
/// stood in `Connecting` and left it.
pub open spec fn attempts_ended(start: ConnectionState, events: Seq<FeedEventView>) -> nat
    decreases events.len(),
{
    if events.len() == 0 {
        0
    } else if state_after(start, events.drop_last()) == ConnectionState::Connecting && state_after(
        start,
        events,
    ) != ConnectionState::Connecting {
        attempts_ended(start, events.drop_last()) + 1
    } else {
        attempts_ended(start, events.drop_last())
    }
}

/// What an adapter is told that is started against an upstream which refuses
/// the first `failures` attempts: the start, and for each refusal the failure
/// and the end of the backoff that followed it.
pub open spec fn refusals(failures: nat) -> Seq<FeedEventView>
    decreases failures,
{
    if failures == 0 {
        seq![FeedEventView::Start]
    } else {
        refusals((failures - 1) as nat).push(FeedEventView::ConnectFailed).push(
            FeedEventView::BackoffElapsed,
        )
    }
}

/// After any number of refusals the adapter has just asked for a new attempt
/// and stands in `Connecting`, with one attempt more asked for than were
/// refused.
pub proof fn lemma_retries_after_refusals(failures: nat)
    ensures
        state_after(ConnectionState::Disconnected, refusals(failures))
            == ConnectionState::Connecting,
        last_action(ConnectionState::Disconnected, refusals(failures)) == FeedAction::Connect,
        attempts(ConnectionState::Disconnected, refusals(failures)) == failures + 1,
    decreases failures,
{
    let start = ConnectionState::Disconnected;
    if failures == 0 {
        let events = refusals(0);
        assert(events.drop_last() =~= Seq::<FeedEventView>::empty());
        assert(state_after(start, events.drop_last()) == start);
        assert(attempts(start, events.drop_last()) == 0);
    } else {
        let earlier = refusals((failures - 1) as nat);
        lemma_retries_after_refusals((failures - 1) as nat);
        let failed = earlier.push(FeedEventView::ConnectFailed);
        let events = failed.push(FeedEventView::BackoffElapsed);
        assert(failed.drop_last() =~= earlier);
        assert(events.drop_last() =~= failed);
        assert(state_after(start, failed) == ConnectionState::Retrying);
        assert(attempts(start, failed) == attempts(start, earlier));
        assert(state_after(start, events) == ConnectionState::Connecting);
    }
}

/// Reconnection: an adapter whose upstream refuses `failures` attempts and
/// accepts the next one stands in `Connected` once that attempt succeeds. It
/// has asked for `failures + 1` attempts by then, and nothing but the
/// outcomes of its own attempts and backoffs was reported to it.
pub proof fn lemma_reconnects_after_refusals(failures: nat)
    ensures
        state_after(
            ConnectionState::Disconnected,
            refusals(failures).push(FeedEventView::ConnectSucceeded),
        ) == ConnectionState::Connected,
        attempts(
            ConnectionState::Disconnected,
            refusals(failures).push(FeedEventView::ConnectSucceeded),
        ) == failures + 1,
{
    lemma_retries_after_refusals(failures);
    let events = refusals(failures).push(FeedEventView::ConnectSucceeded);
    assert(events.drop_last() =~= refusals(failures));
}

/// At most one attempt is under way at any time: whatever is reported to an
/// adapter, the attempts it has asked for exceed those that have ended by one
/// while it stands in `Connecting`, and by none otherwise.
pub proof fn lemma_one_attempt_at_a_time(events: Seq<FeedEventView>)
    ensures
        attempts(ConnectionState::Disconnected, events) == attempts_ended(
            ConnectionState::Disconnected,
            events,
        ) + (if state_after(ConnectionState::Disconnected, events)
            == ConnectionState::Connecting {
            1nat
        } else {
            0nat
        }),
    decreases events.len(),
{
    if events.len() > 0 {
        lemma_one_attempt_at_a_time(events.drop_last());
    }
}

/// The adapter asks for an attempt only while none is under way.
pub proof fn lemma_connect_only_when_idle(state: ConnectionState, event: FeedEventView)
    ensures
        transition(state, event).1 == FeedAction::Connect ==> state != ConnectionState::Connecting
            && transition(state, event).0 == ConnectionState::Connecting,
{
}

/// Every backoff is the same fixed wait.
pub proof fn lemma_backoff_is_constant(state: ConnectionState, event: FeedEventView)
    ensures
        transition(state, event).1 is Backoff ==> transition(state, event).1
            == FeedAction::Backoff(BACKOFF_MILLIS),
{
}

/// A shutdown is final: once it was reported, the adapter is terminated after
/// every further event, and answers every further event with `Halt`.
pub proof fn lemma_shutdown_is_final(
    start: ConnectionState,
    before: Seq<FeedEventView>,
    after: Seq<FeedEventView>,
)
    ensures
        state_after(start, before.push(FeedEventView::Shutdown) + after)
            == ConnectionState::Terminated,
        last_action(start, before.push(FeedEventView::Shutdown) + after) == FeedAction::Halt,
    decreases after.len(),
{
    let stopped = before.push(FeedEventView::Shutdown);
    let events = stopped + after;
    if after.len() == 0 {
        assert(events =~= stopped);
        assert(stopped.drop_last() =~= before);
    } else {
        lemma_shutdown_is_final(start, before, after.drop_last());
        assert(events.drop_last() =~= stopped + after.drop_last());
        assert(events.last() == after.last());
    }
}

} // verus!
