use remo_broker::audit::{AuditEvent, SocketRecoveredEvent, Timestamp};
use remo_broker::listener::{ListenEvent, ListenStep, ListenTurn};

const NOON: Timestamp = Timestamp { unix_nanos: 43_200_000_000_000 };

fn turn(step: ListenStep, event: ListenEvent) -> ListenTurn {
    step.advance(event, "alpha", "/run/alpha.sock", NOON)
}

fn next(step: ListenStep, event: ListenEvent) -> ListenStep {
    match turn(step, event) {
        ListenTurn::Next(next) => next,
        other => panic!("unexpected: {other:?}"),
    }
}

#[test]
fn lost_sockets_are_bound_again_and_logged() {
    let step = next(ListenStep::Accept, ListenEvent::Failed);
    assert_eq!(step, ListenStep::Inspect);
    let step = next(step, ListenEvent::Missing);
    assert_eq!(step, ListenStep::Rebind);
    match turn(step, ListenEvent::Bound) {
        ListenTurn::Recovered(event) => assert_eq!(
            event,
            AuditEvent::SocketRecovered(SocketRecoveredEvent {
                timestamp: NOON,
                project: "alpha".to_owned(),
                socket_path: "/run/alpha.sock".to_owned(),
            })
        ),
        other => panic!("unexpected: {other:?}"),
    }
    // One that cannot be bound is tried again after a while.
    let step = next(step, ListenEvent::Failed);
    assert_eq!(step, ListenStep::Backoff);
    assert_eq!(next(step, ListenEvent::Done), ListenStep::Accept);
}

#[test]
fn sockets_that_are_still_there_are_left_alone() {
    let step = next(ListenStep::Inspect, ListenEvent::Present);
    assert_eq!(step, ListenStep::Backoff);
    assert_eq!(next(step, ListenEvent::Done), ListenStep::Accept);
}

#[test]
fn connections_are_served_until_the_end() {
    let step = next(ListenStep::Accept, ListenEvent::Connection);
    assert_eq!(step, ListenStep::Serve);
    assert_eq!(next(step, ListenEvent::Done), ListenStep::Accept);
    for step in [
        ListenStep::Accept,
        ListenStep::Serve,
        ListenStep::Inspect,
        ListenStep::Rebind,
        ListenStep::Backoff,
    ] {
        assert!(matches!(turn(step, ListenEvent::Stopped), ListenTurn::Finished));
    }
    assert_eq!(next(ListenStep::Inspect, ListenEvent::Bound), ListenStep::Inspect);
}
