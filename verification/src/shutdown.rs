//! What a shutdown does to each part of the relay.
//!
//! The supervisor answers the shutdown with `Teardown`: the driver reports
//! the shutdown to the upstream adapter and closes the hub. How soon a driver
//! reports it is the driver's matter and is not stated here.

use crate::feed::{self, ConnectionState, FeedAction, FeedEventView};
use crate::hub::{DeliveryView, HubView};
use crate::session::{self, SessionActionView, SessionEventView, SessionState};
use crate::supervisor::{self, SupervisorAction, SupervisorEvent, SupervisorState};
use vstd::prelude::*;

verus! {

/// A shutdown ends every task, and no message is handed out after it.
///
/// The supervisor stops accepting and asks for the teardown. The adapter
/// terminates from whatever state it stands in. The closed hub takes no
/// further message and answers every read with `Closed`, whatever waited for
/// the subscription. A session that reads its subscription ends on that
/// answer, and a session that is in the middle of a write ends after it,
/// whether the write succeeds or fails.
pub proof fn lemma_shutdown_ends_every_task(
    relay: SupervisorState,
    adapter: ConnectionState,
    hub: HubView,
    position: nat,
)
    requires
        relay != SupervisorState::Failed,
    ensures
        supervisor::transition(relay, SupervisorEvent::Shutdown) == (
            SupervisorState::Stopped,
            SupervisorAction::Teardown,
        ),
        feed::transition(adapter, FeedEventView::Shutdown) == (
            ConnectionState::Terminated,
            FeedAction::Halt,
        ),
        !hub.close().accepts(),
        hub.close().read(position) == DeliveryView::Closed,
        session::transition(
            SessionState::Receiving,
            SessionEventView::Delivered(hub.close().read(position)),
        ) == (SessionState::Finished, SessionActionView::Finish),
        session::state_after(
            SessionState::Forwarding,
            seq![
                SessionEventView::WriteSucceeded,
                SessionEventView::Delivered(hub.close().read(position)),
            ],
        ) == SessionState::Finished,
        session::state_after(SessionState::Forwarding, seq![SessionEventView::WriteFailed])
            == SessionState::Finished,
{
    let none = Seq::<SessionEventView>::empty();
    let closed = SessionEventView::Delivered(hub.close().read(position));
    let succeeded = seq![SessionEventView::WriteSucceeded];
    let failed = seq![SessionEventView::WriteFailed];
    let written = seq![SessionEventView::WriteSucceeded, closed];
    assert(session::state_after(SessionState::Forwarding, none) == SessionState::Forwarding);
    assert(succeeded.drop_last() =~= none);
    assert(failed.drop_last() =~= none);
    assert(written.drop_last() =~= succeeded);
    assert(session::state_after(SessionState::Forwarding, succeeded) == SessionState::Receiving);
}

} // verus!
