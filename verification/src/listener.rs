//! The life of a project's socket: connections are accepted and served until it is told to
//! close, and a socket whose file was removed behind the daemon's back is bound again, which
//! leaves an event in the audit log.

use crate::audit::{AuditEvent, EventModel, SocketRecoveredEvent, Timestamp};
use crate::text::copy_text;
use vstd::prelude::*;
use vstd::string::*;

verus! {

/// What is to be done next with a project's socket.
#[derive(Debug, Clone, Copy, PartialEq, Eq, Structural)]
pub enum ListenStep {
    /// Wait for a connection.
    Accept,
    /// Serve the connection that was accepted.
    Serve,
    /// Look whether the socket's file is still there.
    Inspect,
    /// Bind the socket again.
    Rebind,
    /// Wait a little.
    Backoff,
}

/// What came of a step.
#[derive(Debug, Clone, Copy, PartialEq, Eq, Structural)]
pub enum ListenEvent {
    Connection,
    /// No connection could be accepted, or the socket could not be bound again.
    Failed,
    /// The socket's file is there, or it cannot be told.
    Present,
    /// The socket's file is gone.
    Missing,
    Bound,
    Done,
    /// The socket was told to close, which may come at any step.
    Stopped,
}

/// How it goes on.
#[derive(Debug)]
pub enum ListenTurn {
    Next(ListenStep),
    /// Log this event, then accept connections on the socket that was bound again.
    Recovered(AuditEvent),
    /// Close the socket.
    Finished,
}

/// The model of a `ListenTurn`.
pub enum ListenTurnView {
    Next(ListenStep),
    /// What the event tells, and when it took place.
    Recovered(EventModel, Timestamp),
    Finished,
}

impl View for ListenTurn {
    type V = ListenTurnView;

    open spec fn view(&self) -> ListenTurnView {
        match *self {
            ListenTurn::Next(step) => ListenTurnView::Next(step),
            ListenTurn::Recovered(event) => ListenTurnView::Recovered(event.told(), event.stamp()),
            ListenTurn::Finished => ListenTurnView::Finished,
        }
    }
}

/// Where a step leads, for the socket of `project` at `socket_path`. What cannot come of a
/// step leads back to it.
pub open spec fn listen_turn(
    step: ListenStep,
    event: ListenEvent,
    project: Seq<char>,
    socket_path: Seq<char>,
    timestamp: Timestamp,
) -> ListenTurnView {
    match (step, event) {
        (_, ListenEvent::Stopped) => ListenTurnView::Finished,
        (ListenStep::Accept, ListenEvent::Connection) => ListenTurnView::Next(ListenStep::Serve),
        (ListenStep::Accept, ListenEvent::Failed) => ListenTurnView::Next(ListenStep::Inspect),
        (ListenStep::Inspect, ListenEvent::Missing) => ListenTurnView::Next(ListenStep::Rebind),
        (ListenStep::Inspect, ListenEvent::Present) => ListenTurnView::Next(ListenStep::Backoff),
        (ListenStep::Rebind, ListenEvent::Bound) => ListenTurnView::Recovered(
            EventModel::SocketRecovered(project, socket_path),
            timestamp,
        ),
        (ListenStep::Rebind, ListenEvent::Failed) => ListenTurnView::Next(ListenStep::Backoff),
        (ListenStep::Serve, _) => ListenTurnView::Next(ListenStep::Accept),
        (ListenStep::Backoff, _) => ListenTurnView::Next(ListenStep::Accept),
        (step, _) => ListenTurnView::Next(step),
    }
}

impl ListenStep {
    /// Takes what came of this step and tells how to go on.
    pub fn advance(
        self,
        event: ListenEvent,
        project: &str,
        socket_path: &str,
        timestamp: Timestamp,
    ) -> (r: ListenTurn)
        ensures
            r@ == listen_turn(self, event, project@, socket_path@, timestamp),
    {
        match (self, event) {
            (_, ListenEvent::Stopped) => ListenTurn::Finished,
            (ListenStep::Accept, ListenEvent::Connection) => ListenTurn::Next(ListenStep::Serve),
            (ListenStep::Accept, ListenEvent::Failed) => ListenTurn::Next(ListenStep::Inspect),
            (ListenStep::Inspect, ListenEvent::Missing) => ListenTurn::Next(ListenStep::Rebind),
            (ListenStep::Inspect, ListenEvent::Present) => ListenTurn::Next(ListenStep::Backoff),
            (ListenStep::Rebind, ListenEvent::Bound) => ListenTurn::Recovered(
                AuditEvent::SocketRecovered(
                    SocketRecoveredEvent {
                        timestamp,
                        project: copy_text(project),
                        socket_path: copy_text(socket_path),
                    },
                ),
            ),
            (ListenStep::Rebind, ListenEvent::Failed) => ListenTurn::Next(ListenStep::Backoff),
            (ListenStep::Serve, _) => ListenTurn::Next(ListenStep::Accept),
            (ListenStep::Backoff, _) => ListenTurn::Next(ListenStep::Accept),
            (step, _) => ListenTurn::Next(step),
        }
    }
}

/// Where a run of events leads from a step, or nowhere once the socket is closed. After an
/// event was logged, connections are accepted again.
pub open spec fn listening(
    step: ListenStep,
    events: Seq<ListenEvent>,
    project: Seq<char>,
    socket_path: Seq<char>,
    timestamp: Timestamp,
) -> Option<ListenStep>
    decreases events.len(),
{
    if events.len() == 0 {
        Some(step)
    } else {
        match listening(step, events.drop_last(), project, socket_path, timestamp) {
            None => None,
            Some(last) => match listen_turn(last, events.last(), project, socket_path, timestamp) {
                ListenTurnView::Next(next) => Some(next),
                ListenTurnView::Recovered(_, _) => Some(ListenStep::Accept),
                ListenTurnView::Finished => None,
            },
        }
    }
}

/// A socket that accepts no connection because its file is gone is bound again; once it is,
/// the log is told which project's socket it was, where it stands and when, and connections
/// are accepted again. Where it cannot be bound, that is tried again after a while.
pub proof fn lost_sockets_are_recovered(
    project: Seq<char>,
    socket_path: Seq<char>,
    timestamp: Timestamp,
)
    ensures
        listening(
            ListenStep::Accept,
            seq![ListenEvent::Failed, ListenEvent::Missing],
            project,
            socket_path,
            timestamp,
        ) == Some(ListenStep::Rebind),
        listen_turn(ListenStep::Rebind, ListenEvent::Bound, project, socket_path, timestamp)
            == ListenTurnView::Recovered(
            EventModel::SocketRecovered(project, socket_path),
            timestamp,
        ),
        listening(
            ListenStep::Accept,
            seq![ListenEvent::Failed, ListenEvent::Missing, ListenEvent::Bound],
            project,
            socket_path,
            timestamp,
        ) == Some(ListenStep::Accept),
        listening(
            ListenStep::Accept,
            seq![ListenEvent::Failed, ListenEvent::Missing, ListenEvent::Failed, ListenEvent::Done],
            project,
            socket_path,
            timestamp,
        ) == Some(ListenStep::Accept),
{
    let lost = seq![ListenEvent::Failed, ListenEvent::Missing];
    let bound = lost.push(ListenEvent::Bound);
    let failed = lost.push(ListenEvent::Failed);
    let waited = failed.push(ListenEvent::Done);
    assert(lost.drop_last() =~= seq![ListenEvent::Failed]);
    assert(lost.drop_last().drop_last() =~= Seq::empty());
    assert(bound.drop_last() =~= lost);
    assert(failed.drop_last() =~= lost);
    assert(waited.drop_last() =~= failed);
    assert(bound =~= seq![ListenEvent::Failed, ListenEvent::Missing, ListenEvent::Bound]);
    assert(waited =~= seq![
        ListenEvent::Failed,
        ListenEvent::Missing,
        ListenEvent::Failed,
        ListenEvent::Done,
    ]);
    reveal_with_fuel(listening, 3);
}

/// Nothing is logged but that a socket was bound again, and none is bound again whose file
/// was not found missing after it failed to accept a connection.
pub proof fn only_lost_sockets_are_logged(
    events: Seq<ListenEvent>,
    project: Seq<char>,
    socket_path: Seq<char>,
    timestamp: Timestamp,
)
    ensures
        forall|step: ListenStep, event: ListenEvent|
            (#[trigger] listen_turn(step, event, project, socket_path, timestamp)) is Recovered
                <==> step == ListenStep::Rebind && event == ListenEvent::Bound,
        listening(ListenStep::Accept, events, project, socket_path, timestamp) == Some(
            ListenStep::Rebind,
        ) ==> exists|i: int, j: int|
            0 <= i < j < events.len() && #[trigger] events[i] == ListenEvent::Failed
                && #[trigger] events[j] == ListenEvent::Missing,
{
    lemma_lost(events, project, socket_path, timestamp);
}

proof fn lemma_lost(
    events: Seq<ListenEvent>,
    project: Seq<char>,
    socket_path: Seq<char>,
    timestamp: Timestamp,
)
    ensures
        ({
            let step = listening(ListenStep::Accept, events, project, socket_path, timestamp);
            &&& step == Some(ListenStep::Inspect) ==> exists|i: int|
                0 <= i < events.len() && #[trigger] events[i] == ListenEvent::Failed
            &&& step == Some(ListenStep::Rebind) ==> exists|i: int, j: int|
                0 <= i < j < events.len() && #[trigger] events[i] == ListenEvent::Failed
                    && #[trigger] events[j] == ListenEvent::Missing
        }),
    decreases events.len(),
{
    if events.len() > 0 {
        let before = events.drop_last();
        lemma_lost(before, project, socket_path, timestamp);
        let last = events.len() - 1;
        assert(events[last] == events.last());
        assert(forall|i: int| 0 <= i < last ==> before[i] == #[trigger] events[i]);
    }
}

/// A socket that is told to close closes at whatever step it is. One that has a connection serves
/// it and accepts the next; one that cannot accept looks for its file, waits a little where the
/// file is there and binds again where it is gone; one that cannot bind waits a little. What
/// cannot come of a step leads back to it.
pub proof fn sockets_go_on_from_step_to_step(
    step: ListenStep,
    event: ListenEvent,
    project: Seq<char>,
    socket_path: Seq<char>,
    timestamp: Timestamp,
    turn: ListenTurn,
)
    ensures
        ({
            let next = listen_turn(step, event, project, socket_path, timestamp);
            &&& next is Finished <==> event == ListenEvent::Stopped
            &&& event != ListenEvent::Stopped ==> match step {
                ListenStep::Accept => next == ListenTurnView::Next(
                    if event == ListenEvent::Connection {
                        ListenStep::Serve
                    } else if event == ListenEvent::Failed {
                        ListenStep::Inspect
                    } else {
                        ListenStep::Accept
                    },
                ),
                ListenStep::Inspect => next == ListenTurnView::Next(
                    if event == ListenEvent::Missing {
                        ListenStep::Rebind
                    } else if event == ListenEvent::Present {
                        ListenStep::Backoff
                    } else {
                        ListenStep::Inspect
                    },
                ),
                ListenStep::Rebind => if event == ListenEvent::Bound {
                    next == ListenTurnView::Recovered(
                        EventModel::SocketRecovered(project, socket_path),
                        timestamp,
                    )
                } else if event == ListenEvent::Failed {
                    next == ListenTurnView::Next(ListenStep::Backoff)
                } else {
                    next == ListenTurnView::Next(ListenStep::Rebind)
                },
                ListenStep::Serve => next == ListenTurnView::Next(ListenStep::Accept),
                ListenStep::Backoff => next == ListenTurnView::Next(ListenStep::Accept),
            }
        }),
        match turn {
            ListenTurn::Next(step) => turn@ == ListenTurnView::Next(step),
            ListenTurn::Recovered(event) => turn@ == ListenTurnView::Recovered(
                event.told(),
                event.stamp(),
            ),
            ListenTurn::Finished => turn@ == ListenTurnView::Finished,
        },
{
}

} // verus!
