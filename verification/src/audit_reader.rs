//! Reads the lines of the audit log back into the events that they were written from.

use crate::audit::{self, AuditEvent, Decision, EventModel, FetchEvent, ManifestInvalidEvent};
use crate::audit::{Outcome, ShutdownEvent, SocketRecoveredEvent, Timestamp};
use crate::member::{self, read_name_member, read_number_member, read_optional_i32_member};
use crate::member::{read_optional_text_member, read_optional_u32_member, read_text_member};
use crate::message::{self, read_members, Atom, Members, MessageFault, MessageFaultView};
use crate::proto::WireCode;
use crate::text::{self, copy_text, same_text};
use time::format_description::well_known::Rfc3339;
use time::OffsetDateTime;
use vstd::prelude::*;
use vstd::string::*;

verus! {

/// The moment that a text in RFC 3339 stands for, in nanoseconds since the start of 1970,
/// UTC, if it stands for one.
pub uninterp spec fn rfc3339_moment(s: Seq<char>) -> Option<i128>;

/// Calls `OffsetDateTime::parse` with `Rfc3339`. Trusted: the moment depends on the text
/// alone, and a moment that was written with `Rfc3339` is read back.
#[verifier::external_body]
fn parse_rfc3339(s: &str) -> (r: Option<i128>)
    ensures
        r == rfc3339_moment(s@),
        forall|unix_nanos: i128| #[trigger]
            audit::rfc3339_text(unix_nanos as int) == Some(s@) ==> r == Some(unix_nanos),
{
    match OffsetDateTime::parse(s, &Rfc3339) {
        Ok(moment) => Some(moment.unix_timestamp_nanos()),
        Err(_) => None,
    }
}

/// What an event tells, and when it took place.
pub type Told = (EventModel, i128);

/// The moment of an event.
pub open spec fn stamp_in(members: Members) -> Result<i128, MessageFaultView> {
    match member::text_member(members, "timestamp"@) {
        Err(fault) => Err(fault),
        Ok(s) => match rfc3339_moment(s) {
            Some(unix_nanos) => Ok(unix_nanos),
            None => Err(MessageFaultView::WrongValue("timestamp"@)),
        },
    }
}

/// The decision of a name.
pub open spec fn decision_named(name: Seq<char>) -> Option<Decision> {
    if name == "allow"@ {
        Some(Decision::Allow)
    } else if name == "deny"@ {
        Some(Decision::Deny)
    } else {
        None
    }
}

/// The decision of a fetch.
pub open spec fn decision_in(members: Members) -> Result<Decision, MessageFaultView> {
    match member::name_member(members, "decision"@) {
        Err(fault) => Err(fault),
        Ok(name) => match decision_named(name) {
            Some(decision) => Ok(decision),
            None => Err(MessageFaultView::WrongValue("decision"@)),
        },
    }
}

/// The outcome of a name.
pub open spec fn outcome_named(name: Seq<char>) -> Option<Outcome> {
    if name == "ok"@ {
        Some(Outcome::Success)
    } else if name == "not_found"@ {
        Some(Outcome::NotFound)
    } else if name == "backend_error"@ {
        Some(Outcome::BackendError)
    } else if name == "backend_unreachable"@ {
        Some(Outcome::BackendUnreachable)
    } else {
        None
    }
}

/// The outcome of a fetch.
pub open spec fn outcome_in(members: Members) -> Result<Outcome, MessageFaultView> {
    match member::name_member(members, "outcome"@) {
        Err(fault) => Err(fault),
        Ok(name) => match outcome_named(name) {
            Some(outcome) => Ok(outcome),
            None => Err(MessageFaultView::WrongValue("outcome"@)),
        },
    }
}

/// The fetch that the members of a line tell of; the first that is wrong is the fault.
pub open spec fn fetch_in(members: Members) -> Result<Told, MessageFaultView> {
    let stamp = stamp_in(members);
    let project = member::text_member(members, "project"@);
    let secret_name = member::text_member(members, "secret_name"@);
    let decision = decision_in(members);
    let outcome = outcome_in(members);
    let peer_pid = member::optional_i32_member(members, "peer_pid"@);
    let peer_uid = member::optional_u32_member(members, "peer_uid"@);
    let latency_ms = member::number_member(members, "latency_ms"@, u32::MAX as u64);
    let backend = member::optional_text_member(members, "backend"@);
    let reason = member::optional_text_member(members, "reason"@);
    if stamp is Err {
        Err(stamp->Err_0)
    } else if project is Err {
        Err(project->Err_0)
    } else if secret_name is Err {
        Err(secret_name->Err_0)
    } else if decision is Err {
        Err(decision->Err_0)
    } else if outcome is Err {
        Err(outcome->Err_0)
    } else if peer_pid is Err {
        Err(peer_pid->Err_0)
    } else if peer_uid is Err {
        Err(peer_uid->Err_0)
    } else if latency_ms is Err {
        Err(latency_ms->Err_0)
    } else if backend is Err {
        Err(backend->Err_0)
    } else if reason is Err {
        Err(reason->Err_0)
    } else {
        Ok(
            (
                EventModel::Fetch {
                    project: project->Ok_0,
                    secret_name: secret_name->Ok_0,
                    decision: decision->Ok_0,
                    outcome: outcome->Ok_0,
                    peer_pid: peer_pid->Ok_0,
                    peer_uid: peer_uid->Ok_0,
                    latency_ms: latency_ms->Ok_0 as u32,
                    backend: backend->Ok_0,
                    reason: reason->Ok_0,
                },
                stamp->Ok_0,
            ),
        )
    }
}

/// The broken manifest that the members of a line tell of.
pub open spec fn manifest_invalid_in(members: Members) -> Result<Told, MessageFaultView> {
    let stamp = stamp_in(members);
    let project = member::text_member(members, "project"@);
    let manifest_path = member::text_member(members, "manifest_path"@);
    let error = member::text_member(members, "error"@);
    if stamp is Err {
        Err(stamp->Err_0)
    } else if project is Err {
        Err(project->Err_0)
    } else if manifest_path is Err {
        Err(manifest_path->Err_0)
    } else if error is Err {
        Err(error->Err_0)
    } else {
        Ok(
            (
                EventModel::ManifestInvalid(project->Ok_0, manifest_path->Ok_0, error->Ok_0),
                stamp->Ok_0,
            ),
        )
    }
}

/// The recovered socket that the members of a line tell of.
pub open spec fn socket_recovered_in(members: Members) -> Result<Told, MessageFaultView> {
    let stamp = stamp_in(members);
    let project = member::text_member(members, "project"@);
    let socket_path = member::text_member(members, "socket_path"@);
    if stamp is Err {
        Err(stamp->Err_0)
    } else if project is Err {
        Err(project->Err_0)
    } else if socket_path is Err {
        Err(socket_path->Err_0)
    } else {
        Ok((EventModel::SocketRecovered(project->Ok_0, socket_path->Ok_0), stamp->Ok_0))
    }
}

/// The shutdown that the members of a line tell of.
pub open spec fn shutdown_in(members: Members) -> Result<Told, MessageFaultView> {
    let stamp = stamp_in(members);
    let reason = member::text_member(members, "reason"@);
    let dropped = member::number_member(members, "events_dropped"@, u64::MAX);
    let buffered = member::number_member(members, "events_in_degraded_buffer"@, u64::MAX);
    if stamp is Err {
        Err(stamp->Err_0)
    } else if reason is Err {
        Err(reason->Err_0)
    } else if dropped is Err {
        Err(dropped->Err_0)
    } else if buffered is Err {
        Err(buffered->Err_0)
    } else {
        Ok((EventModel::Shutdown(reason->Ok_0, dropped->Ok_0, buffered->Ok_0), stamp->Ok_0))
    }
}

/// The event that the members of a line tell of. Members that the event does not have are
/// passed over.
pub open spec fn event_in(members: Members) -> Result<Told, MessageFaultView> {
    match member::text_member(members, "event"@) {
        Err(fault) => Err(fault),
        Ok(name) => if name == "fetch"@ {
            fetch_in(members)
        } else if name == "manifest.invalid"@ {
            manifest_invalid_in(members)
        } else if name == "socket.recovered"@ {
            socket_recovered_in(members)
        } else if name == "shutdown"@ {
            shutdown_in(members)
        } else {
            Err(MessageFaultView::WrongValue("event"@))
        },
    }
}

/// The event that a line tells of.
pub open spec fn line_event(bytes: Seq<u8>) -> Result<Told, MessageFaultView> {
    match message::message_members(bytes) {
        Err(fault) => Err(fault),
        Ok(members) => event_in(members),
    }
}

/// Whether members are those of an event, as it is written.
pub open spec fn written_from(members: Members, event: AuditEvent) -> bool {
    exists|stamp: Seq<char>|
        members == message::flat_encoded(#[trigger] event.pairs(stamp)) && audit::rfc3339_text(
            event.moment(),
        ) == Some(stamp)
}

/// Whether `r` is what `told` says.
pub open spec fn tells(
    r: Result<AuditEvent, MessageFault>,
    told: Result<Told, MessageFaultView>,
) -> bool {
    told == match r {
        Ok(event) => Ok((event.told(), event.stamp().unix_nanos)),
        Err(fault) => Err(fault@),
    }
}

/// Whether `r` is `event` again.
pub open spec fn again(r: Result<AuditEvent, MessageFault>, event: AuditEvent) -> bool {
    r is Ok && r->Ok_0.told() == event.told() && r->Ok_0.stamp() == event.stamp()
}

/// Reads the moment of an event.
fn read_stamp(members: &Vec<(String, &[u8])>) -> (r: Result<Timestamp, MessageFault>)
    ensures
        stamp_in(message::member_views(members@)) == match r {
            Ok(timestamp) => Ok(timestamp.unix_nanos),
            Err(fault) => Err(fault@),
        },
        forall|s: Seq<char>, unix_nanos: i128| #[trigger]
            member::holds(message::member_views(members@), "timestamp"@, Some(Atom::Text(s)))
                && #[trigger] audit::rfc3339_text(unix_nanos as int) == Some(s) ==> r is Ok
                && r->Ok_0.unix_nanos == unix_nanos,
{
    let text = match read_text_member(members, "timestamp") {
        Ok(text) => text,
        Err(fault) => return Err(fault),
    };
    match parse_rfc3339(text.as_str()) {
        Some(unix_nanos) => Ok(Timestamp { unix_nanos }),
        None => Err(MessageFault::WrongValue(copy_text("timestamp"))),
    }
}

/// Reads the decision of a fetch.
fn read_decision(members: &Vec<(String, &[u8])>) -> (r: Result<Decision, MessageFault>)
    ensures
        decision_in(message::member_views(members@)) == match r {
            Ok(decision) => Ok(decision),
            Err(fault) => Err(fault@),
        },
        forall|decision: Decision| #[trigger]
            member::holds(
                message::member_views(members@),
                "decision"@,
                Some(Atom::Text(decision.wire())),
            ) ==> r == Ok::<Decision, MessageFault>(decision),
{
    let name = match read_name_member(members, "decision") {
        Ok(name) => name,
        Err(fault) => return Err(fault),
    };
    proof {
        reveal_strlit("allow");
        reveal_strlit("deny");
        assert("allow"@.len() != "deny"@.len());
    }
    if same_text(name.as_str(), "allow") {
        Ok(Decision::Allow)
    } else if same_text(name.as_str(), "deny") {
        Ok(Decision::Deny)
    } else {
        Err(MessageFault::WrongValue(copy_text("decision")))
    }
}

/// Reads the outcome of a fetch.
fn read_outcome(members: &Vec<(String, &[u8])>) -> (r: Result<Outcome, MessageFault>)
    ensures
        outcome_in(message::member_views(members@)) == match r {
            Ok(outcome) => Ok(outcome),
            Err(fault) => Err(fault@),
        },
        forall|outcome: Outcome| #[trigger]
            member::holds(
                message::member_views(members@),
                "outcome"@,
                Some(Atom::Text(outcome.wire())),
            ) ==> r == Ok::<Outcome, MessageFault>(outcome),
{
    let name = match read_name_member(members, "outcome") {
        Ok(name) => name,
        Err(fault) => return Err(fault),
    };
    proof {
        reveal_strlit("ok");
        reveal_strlit("not_found");
        reveal_strlit("backend_error");
        reveal_strlit("backend_unreachable");
        assert("ok"@.len() == 2 && "not_found"@.len() == 9);
        assert("backend_error"@.len() == 13 && "backend_unreachable"@.len() == 19);
    }
    if same_text(name.as_str(), "ok") {
        Ok(Outcome::Success)
    } else if same_text(name.as_str(), "not_found") {
        Ok(Outcome::NotFound)
    } else if same_text(name.as_str(), "backend_error") {
        Ok(Outcome::BackendError)
    } else if same_text(name.as_str(), "backend_unreachable") {
        Ok(Outcome::BackendUnreachable)
    } else {
        Err(MessageFault::WrongValue(copy_text("outcome")))
    }
}

/// Whether members have those of a fetch, with its moment written as `stamp`.
spec fn fetch_held(members: Members, e: FetchEvent, stamp: Seq<char>) -> bool {
    &&& member::holds(members, "event"@, Some(Atom::Text("fetch"@)))
    &&& member::holds(members, "timestamp"@, Some(Atom::Text(stamp)))
    &&& member::holds(members, "project"@, Some(Atom::Text(e.project@)))
    &&& member::holds(members, "secret_name"@, Some(Atom::Text(e.secret_name@)))
    &&& member::holds(members, "decision"@, Some(Atom::Text(e.decision.wire())))
    &&& member::holds(members, "outcome"@, Some(Atom::Text(e.outcome.wire())))
    &&& member::holds(
        members,
        "peer_pid"@,
        message::number_atom(audit::optional_pid(e.peer_pid)),
    )
    &&& member::holds(
        members,
        "peer_uid"@,
        message::number_atom(audit::optional_uid(e.peer_uid)),
    )
    &&& member::holds(members, "latency_ms"@, Some(Atom::Number(e.latency_ms as int)))
    &&& member::holds(members, "backend"@, message::text_atom(text::optional_text(e.backend)))
    &&& member::holds(members, "reason"@, message::text_atom(text::optional_text(e.reason)))
}

/// The members of a fetch, as it is written, are found.
proof fn lemma_fetch_members(e: FetchEvent, stamp: Seq<char>)
    ensures
        fetch_held(message::flat_encoded(e.pairs(stamp)), e, stamp),
{
    reveal_strlit("event");
    reveal_strlit("timestamp");
    reveal_strlit("project");
    reveal_strlit("secret_name");
    reveal_strlit("decision");
    reveal_strlit("outcome");
    reveal_strlit("peer_pid");
    reveal_strlit("peer_uid");
    reveal_strlit("latency_ms");
    reveal_strlit("backend");
    reveal_strlit("reason");
    assert("event"@[0] == 'e' && "timestamp"@[0] == 't' && "secret_name"@[0] == 's');
    assert("decision"@[0] == 'd' && "outcome"@[0] == 'o' && "latency_ms"@[0] == 'l');
    assert("backend"@[0] == 'b' && "reason"@[0] == 'r');
    assert("project"@[0] == 'p' && "peer_pid"@[0] == 'p' && "peer_uid"@[0] == 'p');
    assert("project"@[1] == 'r' && "peer_pid"@[1] == 'e' && "peer_uid"@[1] == 'e');
    assert("peer_pid"@[5] == 'p' && "peer_uid"@[5] == 'u');
    let pairs = e.pairs(stamp);
    member::members_are_found(pairs, 0);
    member::members_are_found(pairs, 1);
    member::members_are_found(pairs, 2);
    member::members_are_found(pairs, 3);
    member::members_are_found(pairs, 4);
    member::members_are_found(pairs, 5);
    let pid = 6int;
    if e.peer_pid is Some {
        member::members_are_found(pairs, pid);
    } else {
        member::other_members_are_absent(pairs, "peer_pid"@);
    }
    let uid = if e.peer_pid is Some {
        pid + 1
    } else {
        pid
    };
    if e.peer_uid is Some {
        member::members_are_found(pairs, uid);
    } else {
        member::other_members_are_absent(pairs, "peer_uid"@);
    }
    let latency = if e.peer_uid is Some {
        uid + 1
    } else {
        uid
    };
    member::members_are_found(pairs, latency);
    if e.backend is Some {
        member::members_are_found(pairs, latency + 1);
    } else {
        member::other_members_are_absent(pairs, "backend"@);
    }
    if e.reason is Some {
        member::members_are_found(pairs, pairs.len() - 1);
    } else {
        member::other_members_are_absent(pairs, "reason"@);
    }
}

/// Whether members have those of an event, with its moment written as `stamp`.
spec fn event_held(members: Members, event: AuditEvent, stamp: Seq<char>) -> bool {
    match event {
        AuditEvent::Fetch(e) => fetch_held(members, e, stamp),
        AuditEvent::ManifestInvalid(e) => {
            &&& member::holds(members, "event"@, Some(Atom::Text("manifest.invalid"@)))
            &&& member::holds(members, "timestamp"@, Some(Atom::Text(stamp)))
            &&& member::holds(members, "project"@, Some(Atom::Text(e.project@)))
            &&& member::holds(members, "manifest_path"@, Some(Atom::Text(e.manifest_path@)))
            &&& member::holds(members, "error"@, Some(Atom::Text(e.error@)))
        },
        AuditEvent::SocketRecovered(e) => {
            &&& member::holds(members, "event"@, Some(Atom::Text("socket.recovered"@)))
            &&& member::holds(members, "timestamp"@, Some(Atom::Text(stamp)))
            &&& member::holds(members, "project"@, Some(Atom::Text(e.project@)))
            &&& member::holds(members, "socket_path"@, Some(Atom::Text(e.socket_path@)))
        },
        AuditEvent::Shutdown(e) => {
            &&& member::holds(members, "event"@, Some(Atom::Text("shutdown"@)))
            &&& member::holds(members, "timestamp"@, Some(Atom::Text(stamp)))
            &&& member::holds(members, "reason"@, Some(Atom::Text(e.reason@)))
            &&& member::holds(
                members,
                "events_dropped"@,
                Some(Atom::Number(e.events_dropped as int)),
            )
            &&& member::holds(
                members,
                "events_in_degraded_buffer"@,
                Some(Atom::Number(e.events_in_degraded_buffer as int)),
            )
        },
    }
}

/// The members of an event, as it is written, are found.
proof fn lemma_event_members(event: AuditEvent, stamp: Seq<char>)
    ensures
        event_held(message::flat_encoded(event.pairs(stamp)), event, stamp),
{
    let pairs = event.pairs(stamp);
    if let AuditEvent::Fetch(e) = event {
        lemma_fetch_members(e, stamp);
    } else {
        reveal_strlit("event");
        reveal_strlit("timestamp");
        reveal_strlit("project");
        reveal_strlit("manifest_path");
        reveal_strlit("error");
        reveal_strlit("socket_path");
        reveal_strlit("reason");
        reveal_strlit("events_dropped");
        reveal_strlit("events_in_degraded_buffer");
        assert("timestamp"@[0] == 't' && "project"@[0] == 'p' && "manifest_path"@[0] == 'm');
        assert("socket_path"@[0] == 's' && "reason"@[0] == 'r' && "event"@[0] == 'e');
        assert("error"@[0] == 'e' && "error"@[1] == 'r' && "event"@[1] == 'v');
        assert("events_dropped"@[0] == 'e' && "events_in_degraded_buffer"@[0] == 'e');
        assert("event"@.len() == 5 && "events_dropped"@.len() == 14);
        assert("events_in_degraded_buffer"@.len() == 25);
        member::members_are_found(pairs, 0);
        member::members_are_found(pairs, 1);
        member::members_are_found(pairs, 2);
        member::members_are_found(pairs, 3);
        if pairs.len() > 4 {
            member::members_are_found(pairs, 4);
        }
    }
}

/// What is written from an event has its members.
proof fn lemma_written_members(members: Members)
    ensures
        forall|event: AuditEvent| #[trigger]
            written_from(members, event) ==> exists|stamp: Seq<char>| #[trigger]
                event_held(members, event, stamp) && audit::rfc3339_text(event.moment()) == Some(
                    stamp,
                ),
{
    assert forall|event: AuditEvent| #[trigger] written_from(members, event) implies exists|
        stamp: Seq<char>,
    | #[trigger]
        event_held(members, event, stamp) && audit::rfc3339_text(event.moment()) == Some(
            stamp,
        ) by {
        let stamp = choose|stamp: Seq<char>|
            members == message::flat_encoded(#[trigger] event.pairs(stamp))
                && audit::rfc3339_text(event.moment()) == Some(stamp);
        lemma_event_members(event, stamp);
        assert(event_held(members, event, stamp));
    }
}

/// Reads a fetch.
fn read_fetch(members: &Vec<(String, &[u8])>) -> (r: Result<AuditEvent, MessageFault>)
    ensures
        tells(r, fetch_in(message::member_views(members@))),
        forall|e: FetchEvent| #[trigger]
            written_from(message::member_views(members@), AuditEvent::Fetch(e)) ==> again(
                r,
                AuditEvent::Fetch(e),
            ),
{
    proof {
        lemma_written_members(message::member_views(members@));
    }
    let timestamp = match read_stamp(members) {
        Ok(timestamp) => timestamp,
        Err(fault) => return Err(fault),
    };
    let project = match read_text_member(members, "project") {
        Ok(project) => project,
        Err(fault) => return Err(fault),
    };
    let secret_name = match read_text_member(members, "secret_name") {
        Ok(secret_name) => secret_name,
        Err(fault) => return Err(fault),
    };
    let decision = match read_decision(members) {
        Ok(decision) => decision,
        Err(fault) => return Err(fault),
    };
    let outcome = match read_outcome(members) {
        Ok(outcome) => outcome,
        Err(fault) => return Err(fault),
    };
    let peer_pid = match read_optional_i32_member(members, "peer_pid") {
        Ok(peer_pid) => peer_pid,
        Err(fault) => return Err(fault),
    };
    let peer_uid = match read_optional_u32_member(members, "peer_uid") {
        Ok(peer_uid) => peer_uid,
        Err(fault) => return Err(fault),
    };
    let latency_ms: u32 = match read_number_member(members, "latency_ms", u32::MAX as u64) {
        Ok(latency_ms) => latency_ms as u32,
        Err(fault) => return Err(fault),
    };
    let backend = match read_optional_text_member(members, "backend") {
        Ok(backend) => backend,
        Err(fault) => return Err(fault),
    };
    let reason = match read_optional_text_member(members, "reason") {
        Ok(reason) => reason,
        Err(fault) => return Err(fault),
    };
    Ok(
        AuditEvent::Fetch(
            FetchEvent {
                timestamp,
                project,
                secret_name,
                decision,
                outcome,
                peer_pid,
                peer_uid,
                latency_ms,
                backend,
                reason,
            },
        ),
    )
}

/// Reads a broken manifest.
fn read_manifest_invalid(members: &Vec<(String, &[u8])>) -> (r: Result<AuditEvent, MessageFault>)
    ensures
        tells(r, manifest_invalid_in(message::member_views(members@))),
        forall|e: ManifestInvalidEvent| #[trigger]
            written_from(message::member_views(members@), AuditEvent::ManifestInvalid(e))
                ==> again(r, AuditEvent::ManifestInvalid(e)),
{
    proof {
        lemma_written_members(message::member_views(members@));
    }
    let timestamp = match read_stamp(members) {
        Ok(timestamp) => timestamp,
        Err(fault) => return Err(fault),
    };
    let project = match read_text_member(members, "project") {
        Ok(project) => project,
        Err(fault) => return Err(fault),
    };
    let manifest_path = match read_text_member(members, "manifest_path") {
        Ok(manifest_path) => manifest_path,
        Err(fault) => return Err(fault),
    };
    let error = match read_text_member(members, "error") {
        Ok(error) => error,
        Err(fault) => return Err(fault),
    };
    Ok(
        AuditEvent::ManifestInvalid(
            ManifestInvalidEvent { timestamp, project, manifest_path, error },
        ),
    )
}

/// Reads a recovered socket.
fn read_socket_recovered(members: &Vec<(String, &[u8])>) -> (r: Result<AuditEvent, MessageFault>)
    ensures
        tells(r, socket_recovered_in(message::member_views(members@))),
        forall|e: SocketRecoveredEvent| #[trigger]
            written_from(message::member_views(members@), AuditEvent::SocketRecovered(e))
                ==> again(r, AuditEvent::SocketRecovered(e)),
{
    proof {
        lemma_written_members(message::member_views(members@));
    }
    let timestamp = match read_stamp(members) {
        Ok(timestamp) => timestamp,
        Err(fault) => return Err(fault),
    };
    let project = match read_text_member(members, "project") {
        Ok(project) => project,
        Err(fault) => return Err(fault),
    };
    let socket_path = match read_text_member(members, "socket_path") {
        Ok(socket_path) => socket_path,
        Err(fault) => return Err(fault),
    };
    Ok(AuditEvent::SocketRecovered(SocketRecoveredEvent { timestamp, project, socket_path }))
}

/// Reads a shutdown.
fn read_shutdown(members: &Vec<(String, &[u8])>) -> (r: Result<AuditEvent, MessageFault>)
    ensures
        tells(r, shutdown_in(message::member_views(members@))),
        forall|e: ShutdownEvent| #[trigger]
            written_from(message::member_views(members@), AuditEvent::Shutdown(e)) ==> again(
                r,
                AuditEvent::Shutdown(e),
            ),
{
    proof {
        lemma_written_members(message::member_views(members@));
    }
    let timestamp = match read_stamp(members) {
        Ok(timestamp) => timestamp,
        Err(fault) => return Err(fault),
    };
    let reason = match read_text_member(members, "reason") {
        Ok(reason) => reason,
        Err(fault) => return Err(fault),
    };
    let events_dropped: u64 = match read_number_member(members, "events_dropped", u64::MAX) {
        Ok(events_dropped) => events_dropped,
        Err(fault) => return Err(fault),
    };
    let events_in_degraded_buffer: u64 = match read_number_member(
        members,
        "events_in_degraded_buffer",
        u64::MAX,
    ) {
        Ok(events_in_degraded_buffer) => events_in_degraded_buffer,
        Err(fault) => return Err(fault),
    };
    Ok(
        AuditEvent::Shutdown(
            ShutdownEvent { timestamp, reason, events_dropped, events_in_degraded_buffer },
        ),
    )
}

impl AuditEvent {
    /// Reads an event from the members of a line. An event that they were written from is
    /// read back.
    pub fn from_members(members: &Vec<(String, &[u8])>) -> (r: Result<AuditEvent, MessageFault>)
        ensures
            tells(r, event_in(message::member_views(members@))),
            forall|event: AuditEvent| #[trigger]
                written_from(message::member_views(members@), event) ==> again(r, event),
    {
        proof {
            lemma_written_members(message::member_views(members@));
            reveal_strlit("fetch");
            reveal_strlit("manifest.invalid");
            reveal_strlit("socket.recovered");
            reveal_strlit("shutdown");
            assert("fetch"@[0] == 'f' && "manifest.invalid"@[0] == 'm');
            assert("socket.recovered"@[1] == 'o' && "shutdown"@[1] == 'h');
            assert("socket.recovered"@[0] == 's' && "shutdown"@[0] == 's');
        }
        let name = match read_text_member(members, "event") {
            Ok(name) => name,
            Err(fault) => return Err(fault),
        };
        if same_text(name.as_str(), "fetch") {
            read_fetch(members)
        } else if same_text(name.as_str(), "manifest.invalid") {
            read_manifest_invalid(members)
        } else if same_text(name.as_str(), "socket.recovered") {
            read_socket_recovered(members)
        } else if same_text(name.as_str(), "shutdown") {
            read_shutdown(members)
        } else {
            Err(MessageFault::WrongValue(copy_text("event")))
        }
    }

    /// Reads an event from a line, with its line break or without. Every event that a line was
    /// written from is read back: what it tells and, to the nanosecond, when it took place.
    pub fn from_slice(bytes: &[u8]) -> (r: Result<AuditEvent, MessageFault>)
        ensures
            tells(r, line_event(bytes@)),
            forall|event: AuditEvent|
                (#[trigger] event.json()) is Some && (bytes@ == vstd::utf8::encode_utf8(
                    event.json()->0 + seq!['\n'],
                ) || bytes@ == vstd::utf8::encode_utf8(event.json()->0)) ==> again(r, event),
    {
        let read = read_members(bytes);
        proof {
            assert forall|event: AuditEvent|
                (#[trigger] event.json()) is Some && (bytes@ == vstd::utf8::encode_utf8(
                    event.json()->0 + seq!['\n'],
                ) || bytes@ == vstd::utf8::encode_utf8(event.json()->0)) implies read is Ok
                && written_from(message::member_views(read->Ok_0@), event) by {
                let stamp = audit::rfc3339_text(event.moment())->0;
                audit::events_are_flat(event, stamp);
                assert(message::is_written(bytes@, event.pairs(stamp)));
                assert(message::member_views(read->Ok_0@) == message::flat_encoded(
                    event.pairs(stamp),
                ));
            }
        }
        match read {
            Ok(members) => AuditEvent::from_members(&members),
            Err(fault) => Err(fault),
        }
    }
}

/// A line that tells of a fetch is read member by member, each part of the event from the member
/// of its own name; the first that is wrong is the fault.
pub proof fn fetches_are_read_member_by_member(members: Members)
    ensures
        ({
            let stamp = stamp_in(members);
            let project = member::text_member(members, "project"@);
            let secret = member::text_member(members, "secret_name"@);
            let decision = decision_in(members);
            let outcome = outcome_in(members);
            let pid = member::optional_i32_member(members, "peer_pid"@);
            let uid = member::optional_u32_member(members, "peer_uid"@);
            let latency = member::number_member(members, "latency_ms"@, 4_294_967_295u64);
            let backend = member::optional_text_member(members, "backend"@);
            let reason = member::optional_text_member(members, "reason"@);
            match fetch_in(members) {
                Ok((told, moment)) => {
                    &&& stamp == Ok::<_, MessageFaultView>(moment)
                    &&& told is Fetch
                    &&& project == Ok::<_, MessageFaultView>(told->project)
                    &&& secret == Ok::<_, MessageFaultView>(told->secret_name)
                    &&& decision == Ok::<_, MessageFaultView>(told->decision)
                    &&& outcome == Ok::<_, MessageFaultView>(told->outcome)
                    &&& pid == Ok::<_, MessageFaultView>(told->peer_pid)
                    &&& uid == Ok::<_, MessageFaultView>(told->peer_uid)
                    &&& latency == Ok::<_, MessageFaultView>(told->latency_ms as u64)
                    &&& backend == Ok::<_, MessageFaultView>(told->backend)
                    &&& reason == Ok::<_, MessageFaultView>(told->reason)
                },
                Err(fault) => {
                    ||| stamp == Err::<i128, _>(fault)
                    ||| stamp is Ok && project == Err::<Seq<char>, _>(fault)
                    ||| stamp is Ok && project is Ok && secret == Err::<Seq<char>, _>(fault)
                    ||| stamp is Ok && project is Ok && secret is Ok && decision == Err::<
                        Decision,
                        _,
                    >(fault)
                    ||| stamp is Ok && project is Ok && secret is Ok && decision is Ok && outcome
                        == Err::<Outcome, _>(fault)
                    ||| stamp is Ok && project is Ok && secret is Ok && decision is Ok && outcome
                        is Ok && pid == Err::<Option<i32>, _>(fault)
                    ||| stamp is Ok && project is Ok && secret is Ok && decision is Ok && outcome
                        is Ok && pid is Ok && uid == Err::<Option<u32>, _>(fault)
                    ||| stamp is Ok && project is Ok && secret is Ok && decision is Ok && outcome
                        is Ok && pid is Ok && uid is Ok && latency == Err::<u64, _>(fault)
                    ||| stamp is Ok && project is Ok && secret is Ok && decision is Ok && outcome
                        is Ok && pid is Ok && uid is Ok && latency is Ok && backend == Err::<
                        Option<Seq<char>>,
                        _,
                    >(fault)
                    ||| stamp is Ok && project is Ok && secret is Ok && decision is Ok && outcome
                        is Ok && pid is Ok && uid is Ok && latency is Ok && backend is Ok && reason
                        == Err::<Option<Seq<char>>, _>(fault)
                },
            }
        }),
{
}

/// The other lines are read in the same way.
pub proof fn other_events_are_read_member_by_member(members: Members)
    ensures
        ({
            let stamp = stamp_in(members);
            let project = member::text_member(members, "project"@);
            let path = member::text_member(members, "manifest_path"@);
            let error = member::text_member(members, "error"@);
            match manifest_invalid_in(members) {
                Ok((told, moment)) => {
                    &&& stamp == Ok::<_, MessageFaultView>(moment)
                    &&& project is Ok && path is Ok && error is Ok
                    &&& told == EventModel::ManifestInvalid(project->Ok_0, path->Ok_0, error->Ok_0)
                },
                Err(fault) => {
                    ||| stamp == Err::<i128, _>(fault)
                    ||| stamp is Ok && project == Err::<Seq<char>, _>(fault)
                    ||| stamp is Ok && project is Ok && path == Err::<Seq<char>, _>(fault)
                    ||| stamp is Ok && project is Ok && path is Ok && error == Err::<Seq<char>, _>(
                        fault,
                    )
                },
            }
        }),
        ({
            let stamp = stamp_in(members);
            let project = member::text_member(members, "project"@);
            let path = member::text_member(members, "socket_path"@);
            match socket_recovered_in(members) {
                Ok((told, moment)) => {
                    &&& stamp == Ok::<_, MessageFaultView>(moment)
                    &&& project is Ok && path is Ok
                    &&& told == EventModel::SocketRecovered(project->Ok_0, path->Ok_0)
                },
                Err(fault) => {
                    ||| stamp == Err::<i128, _>(fault)
                    ||| stamp is Ok && project == Err::<Seq<char>, _>(fault)
                    ||| stamp is Ok && project is Ok && path == Err::<Seq<char>, _>(fault)
                },
            }
        }),
        ({
            let max = 18_446_744_073_709_551_615u64;
            let stamp = stamp_in(members);
            let reason = member::text_member(members, "reason"@);
            let dropped = member::number_member(members, "events_dropped"@, max);
            let buffered = member::number_member(members, "events_in_degraded_buffer"@, max);
            match shutdown_in(members) {
                Ok((told, moment)) => {
                    &&& stamp == Ok::<_, MessageFaultView>(moment)
                    &&& reason is Ok && dropped is Ok && buffered is Ok
                    &&& told == EventModel::Shutdown(reason->Ok_0, dropped->Ok_0, buffered->Ok_0)
                },
                Err(fault) => {
                    ||| stamp == Err::<i128, _>(fault)
                    ||| stamp is Ok && reason == Err::<Seq<char>, _>(fault)
                    ||| stamp is Ok && reason is Ok && dropped == Err::<u64, _>(fault)
                    ||| stamp is Ok && reason is Ok && dropped is Ok && buffered == Err::<u64, _>(
                        fault,
                    )
                },
            }
        }),
{
}

/// A moment, a decision and an outcome are read from the members of their names, and any other
/// text there is at fault.
pub proof fn names_are_read_as_they_are_written(members: Members, name: Seq<char>)
    ensures
        match member::text_member(members, "timestamp"@) {
            Err(fault) => stamp_in(members) == Err::<i128, _>(fault),
            Ok(s) => match rfc3339_moment(s) {
                Some(moment) => stamp_in(members) == Ok::<_, MessageFaultView>(moment),
                None => stamp_in(members) == Err::<i128, _>(
                    MessageFaultView::WrongValue("timestamp"@),
                ),
            },
        },
        decision_named("allow"@) == Some(Decision::Allow),
        decision_named("deny"@) == Some(Decision::Deny),
        decision_named(name) is Some <==> name == "allow"@ || name == "deny"@,
        match member::name_member(members, "decision"@) {
            Err(fault) => decision_in(members) == Err::<Decision, _>(fault),
            Ok(s) => {
                &&& decision_named(s) is Some ==> decision_in(members) == Ok::<_, MessageFaultView>(
                    decision_named(s)->0,
                )
                &&& decision_named(s) is None ==> decision_in(members) == Err::<Decision, _>(
                    MessageFaultView::WrongValue("decision"@),
                )
            },
        },
        outcome_named("ok"@) == Some(Outcome::Success),
        outcome_named("not_found"@) == Some(Outcome::NotFound),
        outcome_named("backend_error"@) == Some(Outcome::BackendError),
        outcome_named("backend_unreachable"@) == Some(Outcome::BackendUnreachable),
        outcome_named(name) is Some <==> name == "ok"@ || name == "not_found"@ || name
            == "backend_error"@ || name == "backend_unreachable"@,
        match member::name_member(members, "outcome"@) {
            Err(fault) => outcome_in(members) == Err::<Outcome, _>(fault),
            Ok(s) => {
                &&& outcome_named(s) is Some ==> outcome_in(members) == Ok::<_, MessageFaultView>(
                    outcome_named(s)->0,
                )
                &&& outcome_named(s) is None ==> outcome_in(members) == Err::<Outcome, _>(
                    MessageFaultView::WrongValue("outcome"@),
                )
            },
        },
{
    reveal_strlit("allow");
    reveal_strlit("deny");
    reveal_strlit("ok");
    reveal_strlit("not_found");
    reveal_strlit("backend_error");
    reveal_strlit("backend_unreachable");
    assert("allow"@.len() == 5 && "deny"@.len() == 4);
    assert("ok"@.len() == 2 && "not_found"@.len() == 9);
    assert("backend_error"@.len() == 13 && "backend_unreachable"@.len() == 19);
}

/// A line is read as the event that it names, and as none where it names none; a line that is no
/// message is at fault for that.
pub proof fn lines_are_read_by_their_event(bytes: Seq<u8>, members: Members)
    ensures
        match message::message_members(bytes) {
            Err(fault) => line_event(bytes) == Err::<Told, _>(fault),
            Ok(found) => line_event(bytes) == event_in(found),
        },
        match member::text_member(members, "event"@) {
            Err(fault) => event_in(members) == Err::<Told, _>(fault),
            Ok(name) => {
                &&& name == "fetch"@ ==> event_in(members) == fetch_in(members)
                &&& name == "manifest.invalid"@ ==> event_in(members) == manifest_invalid_in(
                    members,
                )
                &&& name == "socket.recovered"@ ==> event_in(members) == socket_recovered_in(
                    members,
                )
                &&& name == "shutdown"@ ==> event_in(members) == shutdown_in(members)
                &&& name != "fetch"@ && name != "manifest.invalid"@ && name != "socket.recovered"@
                    && name != "shutdown"@ ==> event_in(members) == Err::<Told, _>(
                    MessageFaultView::WrongValue("event"@),
                )
            },
        },
{
    reveal_strlit("fetch");
    reveal_strlit("manifest.invalid");
    reveal_strlit("socket.recovered");
    reveal_strlit("shutdown");
    assert("fetch"@.len() == 5 && "shutdown"@.len() == 8);
    assert("manifest.invalid"@[0] == 'm' && "socket.recovered"@[0] == 's');
    assert("socket.recovered"@.len() == 16);
}

/// What was read is told with its moment, and is the same event again exactly where it tells the
/// same at the same moment.
pub proof fn readings_are_told_as_they_are(
    read: AuditEvent,
    event: AuditEvent,
    fault: MessageFault,
    told: Result<Told, MessageFaultView>,
)
    ensures
        tells(Ok(read), told) <==> told == Ok::<Told, MessageFaultView>(
            (read.told(), read.stamp().unix_nanos),
        ),
        tells(Err(fault), told) <==> told == Err::<Told, _>(fault@),
        again(Ok(read), event) <==> read.told() == event.told() && read.stamp() == event.stamp(),
        !again(Err(fault), event),
{
}

/// Members are those of an event exactly where they are its pairs as they are written, with its
/// own moment as the stamp.
pub proof fn written_members_carry_their_moment(
    members: Members,
    event: AuditEvent,
    stamp: Seq<char>,
)
    requires
        audit::rfc3339_text(event.moment()) == Some(stamp),
    ensures
        written_from(members, event) <==> members == message::flat_encoded(event.pairs(stamp)),
{
    if members == message::flat_encoded(event.pairs(stamp)) {
        assert(members == message::flat_encoded(event.pairs(stamp)) && audit::rfc3339_text(
            event.moment(),
        ) == Some(stamp));
    }
}

} // verus!
