use telemetry_relay::supervisor::{
    step, Supervisor, SupervisorAction, SupervisorEvent, SupervisorState,
};

const EVENTS: [SupervisorEvent; 5] = [
    SupervisorEvent::Bound,
    SupervisorEvent::BindFailed,
    SupervisorEvent::Accepted,
    SupervisorEvent::AcceptFailed,
    SupervisorEvent::Shutdown,
];

#[test]
fn a_new_supervisor_is_starting() {
    assert_eq!(Supervisor::new().state(), SupervisorState::Starting);
}

#[test]
fn a_bound_listener_launches_the_upstream_task() {
    let mut supervisor = Supervisor::new();
    assert_eq!(supervisor.handle(SupervisorEvent::Bound), SupervisorAction::Launch);
    assert_eq!(supervisor.state(), SupervisorState::Serving);
}

#[test]
fn a_listener_that_cannot_be_bound_is_fatal() {
    let mut supervisor = Supervisor::new();
    assert_eq!(supervisor.handle(SupervisorEvent::BindFailed), SupervisorAction::Abort);
    assert_eq!(supervisor.state(), SupervisorState::Failed);
    for event in EVENTS {
        assert_eq!(supervisor.handle(event), SupervisorAction::Abort);
        assert_eq!(supervisor.state(), SupervisorState::Failed);
    }
}

#[test]
fn every_client_gets_a_session() {
    let mut supervisor = Supervisor::new();
    supervisor.handle(SupervisorEvent::Bound);
    for _ in 0..10 {
        assert_eq!(supervisor.handle(SupervisorEvent::Accepted), SupervisorAction::Serve);
        assert_eq!(supervisor.state(), SupervisorState::Serving);
    }
}

#[test]
fn a_failed_accept_is_noted_and_the_relay_goes_on() {
    let mut supervisor = Supervisor::new();
    supervisor.handle(SupervisorEvent::Bound);
    assert_eq!(supervisor.handle(SupervisorEvent::AcceptFailed), SupervisorAction::Accept);
    assert_eq!(supervisor.state(), SupervisorState::Serving);
    assert_eq!(supervisor.handle(SupervisorEvent::Accepted), SupervisorAction::Serve);
}

#[test]
fn the_upstream_task_is_launched_once() {
    let mut supervisor = Supervisor::new();
    let mut launches = 0;
    for event in [
        SupervisorEvent::Bound,
        SupervisorEvent::Bound,
        SupervisorEvent::Accepted,
        SupervisorEvent::BindFailed,
        SupervisorEvent::Bound,
        SupervisorEvent::Shutdown,
        SupervisorEvent::Bound,
    ] {
        if supervisor.handle(event) == SupervisorAction::Launch {
            launches += 1;
        }
    }
    assert_eq!(launches, 1);
}

#[test]
fn shutdown_tears_the_relay_down() {
    let mut supervisor = Supervisor::new();
    supervisor.handle(SupervisorEvent::Bound);
    assert_eq!(supervisor.handle(SupervisorEvent::Shutdown), SupervisorAction::Teardown);
    assert_eq!(supervisor.state(), SupervisorState::Stopped);
}

#[test]
fn shutdown_may_be_repeated() {
    let mut supervisor = Supervisor::new();
    supervisor.handle(SupervisorEvent::Bound);
    for _ in 0..3 {
        assert_eq!(supervisor.handle(SupervisorEvent::Shutdown), SupervisorAction::Teardown);
        assert_eq!(supervisor.state(), SupervisorState::Stopped);
    }
}

#[test]
fn a_stopped_relay_serves_no_one() {
    let mut supervisor = Supervisor::new();
    supervisor.handle(SupervisorEvent::Bound);
    supervisor.handle(SupervisorEvent::Shutdown);
    for event in EVENTS {
        assert_eq!(supervisor.handle(event), SupervisorAction::Teardown);
        assert_eq!(supervisor.state(), SupervisorState::Stopped);
    }
}

#[test]
fn shutdown_before_the_listener_is_bound_stops_the_relay() {
    assert_eq!(
        step(SupervisorState::Starting, SupervisorEvent::Shutdown),
        (SupervisorState::Stopped, SupervisorAction::Teardown)
    );
}

#[test]
fn supervisor_events_that_are_not_awaited_change_nothing() {
    assert_eq!(
        step(SupervisorState::Starting, SupervisorEvent::Accepted),
        (SupervisorState::Starting, SupervisorAction::Ignore)
    );
    assert_eq!(
        step(SupervisorState::Starting, SupervisorEvent::AcceptFailed),
        (SupervisorState::Starting, SupervisorAction::Ignore)
    );
    assert_eq!(
        step(SupervisorState::Serving, SupervisorEvent::Bound),
        (SupervisorState::Serving, SupervisorAction::Ignore)
    );
    assert_eq!(
        step(SupervisorState::Serving, SupervisorEvent::BindFailed),
        (SupervisorState::Serving, SupervisorAction::Ignore)
    );
}
