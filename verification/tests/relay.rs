use telemetry_relay::codec::{encode, Axis, Position, TelemetryRecord};
use telemetry_relay::feed::{ConnectionState, FeedAction, FeedAdapter, FeedEvent, Frame};
use telemetry_relay::hub::{Hub, Subscription};
use telemetry_relay::session::{Session, SessionAction, SessionEvent};
use telemetry_relay::supervisor::{Supervisor, SupervisorAction, SupervisorEvent, SupervisorState};

fn record(x: f64, y: f64, z: f64) -> TelemetryRecord {
    TelemetryRecord {
        pos: Position {
            x: Axis { value: x.to_bits() },
            y: Axis { value: y.to_bits() },
            z: Axis { value: z.to_bits() },
        },
    }
}

fn axis_json(axis: &Axis) -> serde_json::Value {
    let mut object = serde_json::Map::new();
    object.insert("value".to_string(), serde_json::Value::from(f64::from_bits(axis.value)));
    serde_json::Value::Object(object)
}

/// The outbound text of a record, as a driver renders it.
fn to_json(record: &TelemetryRecord) -> String {
    let mut pos = serde_json::Map::new();
    pos.insert("x".to_string(), axis_json(&record.pos.x));
    pos.insert("y".to_string(), axis_json(&record.pos.y));
    pos.insert("z".to_string(), axis_json(&record.pos.z));
    let mut root = serde_json::Map::new();
    root.insert("pos".to_string(), serde_json::Value::Object(pos));
    serde_json::to_string(&serde_json::Value::Object(root)).unwrap()
}

/// A relay with a connected upstream.
fn running() -> (Supervisor, FeedAdapter, Hub) {
    let mut supervisor = Supervisor::new();
    assert_eq!(supervisor.handle(SupervisorEvent::Bound), SupervisorAction::Launch);
    let mut adapter = FeedAdapter::new();
    assert_eq!(adapter.handle(FeedEvent::Start), FeedAction::Connect);
    assert_eq!(adapter.handle(FeedEvent::ConnectSucceeded), FeedAction::Receive);
    (supervisor, adapter, Hub::new())
}

/// A client that connects now.
fn connect(supervisor: &mut Supervisor, hub: &Hub) -> (Session, Subscription) {
    assert_eq!(supervisor.handle(SupervisorEvent::Accepted), SupervisorAction::Serve);
    let mut session = Session::new();
    assert_eq!(session.handle(SessionEvent::HandshakeSucceeded), SessionAction::Subscribe);
    (session, hub.subscribe())
}

/// The upstream emits one frame.
fn emit(adapter: &mut FeedAdapter, hub: &mut Hub, payload: Vec<u8>) {
    match adapter.handle(FeedEvent::FrameArrived(Frame::Binary(payload))) {
        FeedAction::Publish(record) => assert!(hub.publish(to_json(&record))),
        other => panic!("the frame was not published: {other:?}"),
    }
}

/// Runs a session until it has to wait or is over, and returns what it wrote.
fn pump(session: &mut Session, subscription: &mut Subscription, hub: &Hub) -> Vec<String> {
    let mut written = Vec::new();
    let mut action = session.handle(SessionEvent::Delivered(subscription.next(hub)));
    loop {
        action = match action {
            SessionAction::Forward(text) => {
                written.push(text);
                session.handle(SessionEvent::WriteSucceeded)
            }
            SessionAction::Read => session.handle(SessionEvent::Delivered(subscription.next(hub))),
            _ => return written,
        };
    }
}

#[test]
fn a_frame_reaches_a_connected_subscriber_as_json() {
    let (mut supervisor, mut adapter, mut hub) = running();
    let (mut session, mut subscription) = connect(&mut supervisor, &hub);
    assert!(pump(&mut session, &mut subscription, &hub).is_empty());

    emit(&mut adapter, &mut hub, encode(&record(1.0, 0.5, 0.25)));

    assert_eq!(
        pump(&mut session, &mut subscription, &hub),
        vec![r#"{"pos":{"x":{"value":1.0},"y":{"value":0.5},"z":{"value":0.25}}}"#.to_string()]
    );
}

#[test]
fn a_subscriber_that_connects_late_gets_only_later_frames() {
    let (mut supervisor, mut adapter, mut hub) = running();
    for n in 1..=3 {
        emit(&mut adapter, &mut hub, encode(&record(n as f64, 0.0, 0.0)));
    }
    let (mut session, mut subscription) = connect(&mut supervisor, &hub);
    assert!(pump(&mut session, &mut subscription, &hub).is_empty());
    for n in 4..=5 {
        emit(&mut adapter, &mut hub, encode(&record(n as f64, 0.0, 0.0)));
    }
    assert_eq!(
        pump(&mut session, &mut subscription, &hub),
        vec![
            to_json(&record(4.0, 0.0, 0.0)),
            to_json(&record(5.0, 0.0, 0.0)),
        ]
    );
    assert_eq!(
        to_json(&record(4.0, 0.0, 0.0)),
        r#"{"pos":{"x":{"value":4.0},"y":{"value":0.0},"z":{"value":0.0}}}"#
    );
}

#[test]
fn every_connected_subscriber_gets_every_frame() {
    let (mut supervisor, mut adapter, mut hub) = running();
    let mut clients: Vec<(Session, Subscription)> =
        (0..4).map(|_| connect(&mut supervisor, &hub)).collect();
    let mut expected = Vec::new();
    for n in 0..10 {
        let sample = record(n as f64, -(n as f64), 0.5 * n as f64);
        emit(&mut adapter, &mut hub, encode(&sample));
        expected.push(to_json(&sample));
    }
    for (session, subscription) in clients.iter_mut() {
        assert_eq!(pump(session, subscription, &hub), expected);
    }
}

#[test]
fn a_slow_client_skips_frames_and_the_others_do_not() {
    let (mut supervisor, mut adapter, mut hub) = running();
    let (mut slow, mut slow_subscription) = connect(&mut supervisor, &hub);
    let (mut quick, mut quick_subscription) = connect(&mut supervisor, &hub);
    let mut quick_got = Vec::new();
    let mut expected = Vec::new();
    for n in 0..20 {
        let sample = record(n as f64, 0.0, 0.0);
        emit(&mut adapter, &mut hub, encode(&sample));
        expected.push(to_json(&sample));
        quick_got.extend(pump(&mut quick, &mut quick_subscription, &hub));
    }
    assert_eq!(quick_got, expected);
    assert_eq!(pump(&mut slow, &mut slow_subscription, &hub), expected[4..].to_vec());
    assert!(!slow.is_finished());
}

#[test]
fn a_client_whose_write_fails_is_dropped_alone() {
    let (mut supervisor, mut adapter, mut hub) = running();
    let (mut broken, mut broken_subscription) = connect(&mut supervisor, &hub);
    let (mut sound, mut sound_subscription) = connect(&mut supervisor, &hub);
    emit(&mut adapter, &mut hub, encode(&record(1.0, 2.0, 3.0)));

    let action = broken.handle(SessionEvent::Delivered(broken_subscription.next(&hub)));
    assert_eq!(action, SessionAction::Forward(to_json(&record(1.0, 2.0, 3.0))));
    assert_eq!(broken.handle(SessionEvent::WriteFailed), SessionAction::Finish);
    assert!(broken.is_finished());

    emit(&mut adapter, &mut hub, encode(&record(4.0, 5.0, 6.0)));
    assert_eq!(
        pump(&mut sound, &mut sound_subscription, &hub),
        vec![to_json(&record(1.0, 2.0, 3.0)), to_json(&record(4.0, 5.0, 6.0))]
    );
    assert_eq!(supervisor.state(), SupervisorState::Serving);
    assert_eq!(adapter.state(), ConnectionState::Connected);
}

#[test]
fn a_failed_handshake_leaves_the_relay_running() {
    let (mut supervisor, mut adapter, mut hub) = running();
    assert_eq!(supervisor.handle(SupervisorEvent::Accepted), SupervisorAction::Serve);
    let mut refused = Session::new();
    assert_eq!(refused.handle(SessionEvent::HandshakeFailed), SessionAction::Abandon);
    assert!(refused.is_finished());

    let (mut session, mut subscription) = connect(&mut supervisor, &hub);
    emit(&mut adapter, &mut hub, encode(&record(1.0, 1.0, 1.0)));
    assert_eq!(
        pump(&mut session, &mut subscription, &hub),
        vec![to_json(&record(1.0, 1.0, 1.0))]
    );
}

#[test]
fn an_upstream_outage_is_an_absence_of_updates() {
    let (mut supervisor, mut adapter, mut hub) = running();
    let (mut session, mut subscription) = connect(&mut supervisor, &hub);
    emit(&mut adapter, &mut hub, encode(&record(1.0, 0.0, 0.0)));
    assert_eq!(adapter.handle(FeedEvent::ReadFailed), FeedAction::Backoff(1000));
    assert_eq!(
        pump(&mut session, &mut subscription, &hub),
        vec![to_json(&record(1.0, 0.0, 0.0))]
    );
    assert!(pump(&mut session, &mut subscription, &hub).is_empty());
    assert!(!session.is_finished());

    assert_eq!(adapter.handle(FeedEvent::BackoffElapsed), FeedAction::Connect);
    assert_eq!(adapter.handle(FeedEvent::ConnectFailed), FeedAction::Backoff(1000));
    assert_eq!(adapter.handle(FeedEvent::BackoffElapsed), FeedAction::Connect);
    assert_eq!(adapter.handle(FeedEvent::ConnectSucceeded), FeedAction::Receive);
    emit(&mut adapter, &mut hub, encode(&record(2.0, 0.0, 0.0)));
    assert_eq!(
        pump(&mut session, &mut subscription, &hub),
        vec![to_json(&record(2.0, 0.0, 0.0))]
    );
}

#[test]
fn shutdown_ends_every_task_and_delivers_nothing_more() {
    let (mut supervisor, mut adapter, mut hub) = running();
    let (mut idle, mut idle_subscription) = connect(&mut supervisor, &hub);
    let (mut behind, mut behind_subscription) = connect(&mut supervisor, &hub);
    assert!(pump(&mut idle, &mut idle_subscription, &hub).is_empty());
    emit(&mut adapter, &mut hub, encode(&record(1.0, 2.0, 3.0)));

    assert_eq!(supervisor.handle(SupervisorEvent::Shutdown), SupervisorAction::Teardown);
    assert_eq!(adapter.handle(FeedEvent::Shutdown), FeedAction::Halt);
    hub.close();

    assert_eq!(supervisor.state(), SupervisorState::Stopped);
    assert_eq!(adapter.state(), ConnectionState::Terminated);
    assert!(pump(&mut idle, &mut idle_subscription, &hub).is_empty());
    assert!(idle.is_finished());
    assert!(pump(&mut behind, &mut behind_subscription, &hub).is_empty());
    assert!(behind.is_finished());

    assert_eq!(
        adapter.handle(FeedEvent::FrameArrived(Frame::Binary(encode(&record(9.0, 9.0, 9.0))))),
        FeedAction::Halt
    );
    assert!(!hub.publish("late".to_string()));
    assert_eq!(supervisor.handle(SupervisorEvent::Accepted), SupervisorAction::Teardown);
}
