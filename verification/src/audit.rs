//! Append-only JSONL audit log.
//!
//! Every event is one line of JSON. The events carry the names of secrets and never their
//! values. A log that cannot be written never holds up the serving of secrets: events that
//! could not be written wait in a bounded buffer, and go out in order once the log can be
//! written again.

use crate::json::{self, signed_json, Member, ObjectWriter};
use crate::message::{self, Atom, Pairs};
use crate::proto::WireCode;
use crate::text;
use std::collections::VecDeque;
use time::format_description::well_known::Rfc3339;
use time::OffsetDateTime;
use vstd::prelude::*;
use vstd::string::*;

verus! {

/// How many events may wait for the writer. A full queue means that the writer is stuck;
/// further events are dropped and counted.
pub const CHANNEL_CAP: usize = 1_000;

/// How many events are kept while the log cannot be written. The oldest goes first.
pub const DEGRADED_BUFFER_CAP: usize = 1_000;

/// A moment in time, in nanoseconds since the start of 1970, UTC.
#[derive(Debug, Clone, Copy, PartialEq, Eq, Structural)]
pub struct Timestamp {
    pub unix_nanos: i128,
}

/// The first moment that RFC 3339 cannot write: the year 10000.
pub const YEAR_10000: i128 = 253_402_300_800_000_000_000;

/// A moment in RFC 3339, if it can be written so.
pub uninterp spec fn rfc3339_text(unix_nanos: int) -> Option<Seq<char>>;

/// Calls `OffsetDateTime::from_unix_timestamp_nanos` and formats what comes out with
/// `Rfc3339`. Trusted: the text depends on the moment alone, no other moment has the same
/// one, as it goes down to the nanosecond, and there is one for every moment from 1970 up to
/// the year 9999. Which text it is stays unsaid here.
#[verifier::external_body]
fn rfc3339(unix_nanos: i128) -> (r: Option<String>)
    ensures
        match r {
            Some(s) => rfc3339_text(unix_nanos as int) == Some(s@),
            None => rfc3339_text(unix_nanos as int) is None,
        },
        0 <= unix_nanos < YEAR_10000 ==> r is Some,
        forall|other: i128| #[trigger]
            rfc3339_text(other as int) == text::optional_text(r) && r is Some ==> other
                == unix_nanos,
{
    OffsetDateTime::from_unix_timestamp_nanos(unix_nanos).ok()?.format(&Rfc3339).ok()
}

/// Any line of the audit log.
#[derive(Debug, Clone, PartialEq, Eq)]
pub enum AuditEvent {
    Fetch(FetchEvent),
    ManifestInvalid(ManifestInvalidEvent),
    SocketRecovered(SocketRecoveredEvent),
    Shutdown(ShutdownEvent),
}

/// The model of an `AuditEvent`, but for its moment.
pub enum EventModel {
    Fetch {
        project: Seq<char>,
        secret_name: Seq<char>,
        decision: Decision,
        outcome: Outcome,
        peer_pid: Option<i32>,
        peer_uid: Option<u32>,
        latency_ms: u32,
        backend: Option<Seq<char>>,
        reason: Option<Seq<char>>,
    },
    ManifestInvalid(Seq<char>, Seq<char>, Seq<char>),
    SocketRecovered(Seq<char>, Seq<char>),
    Shutdown(Seq<char>, u64, u64),
}

/// One attempt to fetch a secret: allowed or denied, successful or not.
#[derive(Debug, Clone, PartialEq, Eq)]
pub struct FetchEvent {
    pub timestamp: Timestamp,
    pub project: String,
    pub secret_name: String,
    pub decision: Decision,
    pub outcome: Outcome,
    pub peer_pid: Option<i32>,
    pub peer_uid: Option<u32>,
    pub latency_ms: u32,
    pub backend: Option<String>,
    /// Why the fetch was denied; absent where it was allowed.
    pub reason: Option<String>,
}

#[derive(Debug, Clone, PartialEq, Eq)]
pub struct ManifestInvalidEvent {
    pub timestamp: Timestamp,
    pub project: String,
    pub manifest_path: String,
    pub error: String,
}

#[derive(Debug, Clone, PartialEq, Eq)]
pub struct SocketRecoveredEvent {
    pub timestamp: Timestamp,
    pub project: String,
    pub socket_path: String,
}

#[derive(Debug, Clone, PartialEq, Eq)]
pub struct ShutdownEvent {
    pub timestamp: Timestamp,
    pub reason: String,
    pub events_dropped: u64,
    pub events_in_degraded_buffer: u64,
}

#[derive(Debug, Clone, Copy, PartialEq, Eq, Structural)]
pub enum Decision {
    Allow,
    Deny,
}

impl WireCode for Decision {
    open spec fn wire(&self) -> Seq<char> {
        match *self {
            Decision::Allow => "allow"@,
            Decision::Deny => "deny"@,
        }
    }

    fn wire_text(&self) -> (r: &'static str) {
        match self {
            Decision::Allow => "allow",
            Decision::Deny => "deny",
        }
    }
}

#[derive(Debug, Clone, Copy, PartialEq, Eq, Structural)]
pub enum Outcome {
    /// Nothing went wrong; stands in the log as `ok`.
    Success,
    NotFound,
    BackendError,
    BackendUnreachable,
}

impl WireCode for Outcome {
    open spec fn wire(&self) -> Seq<char> {
        match *self {
            Outcome::Success => "ok"@,
            Outcome::NotFound => "not_found"@,
            Outcome::BackendError => "backend_error"@,
            Outcome::BackendUnreachable => "backend_unreachable"@,
        }
    }

    fn wire_text(&self) -> (r: &'static str) {
        match self {
            Outcome::Success => "ok",
            Outcome::NotFound => "not_found",
            Outcome::BackendError => "backend_error",
            Outcome::BackendUnreachable => "backend_unreachable",
        }
    }
}

/// The pairs with one more, where there is a value for it.
pub open spec fn with_pair(pairs: Pairs, key: Seq<char>, value: Option<Atom>) -> Pairs {
    match value {
        Some(atom) => pairs.push((key, atom)),
        None => pairs,
    }
}

/// A process number that may be absent.
pub open spec fn optional_pid(n: Option<i32>) -> Option<int> {
    match n {
        Some(n) => Some(n as int),
        None => None,
    }
}

/// A user number that may be absent.
pub open spec fn optional_uid(n: Option<u32>) -> Option<int> {
    match n {
        Some(n) => Some(n as int),
        None => None,
    }
}

/// A process number that may be absent, as JSON text.
pub open spec fn optional_signed(n: Option<i32>) -> Option<Seq<char>> {
    match n {
        Some(v) => Some(json::signed_text(v as int)),
        None => None,
    }
}

impl AuditEvent {
    /// When the event took place.
    pub open spec fn stamp(&self) -> Timestamp {
        match *self {
            AuditEvent::Fetch(e) => e.timestamp,
            AuditEvent::ManifestInvalid(e) => e.timestamp,
            AuditEvent::SocketRecovered(e) => e.timestamp,
            AuditEvent::Shutdown(e) => e.timestamp,
        }
    }

    /// When the event took place, in nanoseconds since the start of 1970, UTC.
    pub open spec fn moment(&self) -> int {
        self.stamp().unix_nanos as int
    }

    /// The event's line as an object, with its moment written as `stamp`.
    pub open spec fn members(&self, stamp: Seq<char>) -> Seq<Member> {
        match *self {
            AuditEvent::Fetch(e) => e.members(stamp),
            AuditEvent::ManifestInvalid(e) => seq![
                ("event"@, json::quoted("manifest.invalid"@)),
                ("timestamp"@, json::quoted(stamp)),
                ("project"@, json::quoted(e.project@)),
                ("manifest_path"@, json::quoted(e.manifest_path@)),
                ("error"@, json::quoted(e.error@)),
            ],
            AuditEvent::SocketRecovered(e) => seq![
                ("event"@, json::quoted("socket.recovered"@)),
                ("timestamp"@, json::quoted(stamp)),
                ("project"@, json::quoted(e.project@)),
                ("socket_path"@, json::quoted(e.socket_path@)),
            ],
            AuditEvent::Shutdown(e) => seq![
                ("event"@, json::quoted("shutdown"@)),
                ("timestamp"@, json::quoted(stamp)),
                ("reason"@, json::quoted(e.reason@)),
                ("events_dropped"@, text::decimal(e.events_dropped as nat)),
                ("events_in_degraded_buffer"@, text::decimal(e.events_in_degraded_buffer as nat)),
            ],
        }
    }

    /// The event's members as an object of strings and numbers, with its moment written as
    /// `stamp`.
    pub open spec fn pairs(&self, stamp: Seq<char>) -> Pairs {
        match *self {
            AuditEvent::Fetch(e) => e.pairs(stamp),
            AuditEvent::ManifestInvalid(e) => seq![
                ("event"@, Atom::Text("manifest.invalid"@)),
                ("timestamp"@, Atom::Text(stamp)),
                ("project"@, Atom::Text(e.project@)),
                ("manifest_path"@, Atom::Text(e.manifest_path@)),
                ("error"@, Atom::Text(e.error@)),
            ],
            AuditEvent::SocketRecovered(e) => seq![
                ("event"@, Atom::Text("socket.recovered"@)),
                ("timestamp"@, Atom::Text(stamp)),
                ("project"@, Atom::Text(e.project@)),
                ("socket_path"@, Atom::Text(e.socket_path@)),
            ],
            AuditEvent::Shutdown(e) => seq![
                ("event"@, Atom::Text("shutdown"@)),
                ("timestamp"@, Atom::Text(stamp)),
                ("reason"@, Atom::Text(e.reason@)),
                ("events_dropped"@, Atom::Number(e.events_dropped as int)),
                ("events_in_degraded_buffer"@, Atom::Number(e.events_in_degraded_buffer as int)),
            ],
        }
    }

    /// What the event tells, but for its moment.
    pub open spec fn told(&self) -> EventModel {
        match *self {
            AuditEvent::Fetch(e) => EventModel::Fetch {
                project: e.project@,
                secret_name: e.secret_name@,
                decision: e.decision,
                outcome: e.outcome,
                peer_pid: e.peer_pid,
                peer_uid: e.peer_uid,
                latency_ms: e.latency_ms,
                backend: text::optional_text(e.backend),
                reason: text::optional_text(e.reason),
            },
            AuditEvent::ManifestInvalid(e) => EventModel::ManifestInvalid(
                e.project@,
                e.manifest_path@,
                e.error@,
            ),
            AuditEvent::SocketRecovered(e) => EventModel::SocketRecovered(
                e.project@,
                e.socket_path@,
            ),
            AuditEvent::Shutdown(e) => EventModel::Shutdown(
                e.reason@,
                e.events_dropped,
                e.events_in_degraded_buffer,
            ),
        }
    }

    /// The event as JSON, if its moment can be written.
    pub open spec fn json(&self) -> Option<Seq<char>> {
        match rfc3339_text(self.moment()) {
            Some(stamp) => Some(json::object_text(self.members(stamp))),
            None => None,
        }
    }

    /// Writes the event as an object, with its moment written as `stamp`.
    pub fn render(&self, stamp: &str) -> (r: String)
        ensures
            r@ == json::object_text(self.members(stamp@)),
    {
        match self {
            AuditEvent::Fetch(e) => e.render(stamp),
            AuditEvent::ManifestInvalid(e) => {
                let mut w = ObjectWriter::new();
                w.text_member("event", "manifest.invalid");
                w.text_member("timestamp", stamp);
                w.text_member("project", e.project.as_str());
                w.text_member("manifest_path", e.manifest_path.as_str());
                w.text_member("error", e.error.as_str());
                assert(w.members() =~= self.members(stamp@));
                w.finish()
            },
            AuditEvent::SocketRecovered(e) => {
                let mut w = ObjectWriter::new();
                w.text_member("event", "socket.recovered");
                w.text_member("timestamp", stamp);
                w.text_member("project", e.project.as_str());
                w.text_member("socket_path", e.socket_path.as_str());
                assert(w.members() =~= self.members(stamp@));
                w.finish()
            },
            AuditEvent::Shutdown(e) => {
                let mut w = ObjectWriter::new();
                w.text_member("event", "shutdown");
                w.text_member("timestamp", stamp);
                w.text_member("reason", e.reason.as_str());
                w.number_member("events_dropped", e.events_dropped);
                w.number_member("events_in_degraded_buffer", e.events_in_degraded_buffer);
                assert(w.members() =~= self.members(stamp@));
                w.finish()
            },
        }
    }

    /// The event as JSON, if its moment can be written. No other event is written so.
    pub fn to_json(&self) -> (r: Option<String>)
        ensures
            self.json() == text::optional_text(r),
            0 <= self.moment() < YEAR_10000 ==> r is Some,
            forall|other: AuditEvent| #[trigger]
                other.json() == self.json() && r is Some ==> other.told() == self.told()
                    && other.moment() == self.moment(),
    {
        let timestamp = match self {
            AuditEvent::Fetch(e) => e.timestamp,
            AuditEvent::ManifestInvalid(e) => e.timestamp,
            AuditEvent::SocketRecovered(e) => e.timestamp,
            AuditEvent::Shutdown(e) => e.timestamp,
        };
        match rfc3339(timestamp.unix_nanos) {
            Some(stamp) => {
                proof {
                    assert forall|other: AuditEvent| #[trigger]
                        other.json() == self.json() implies other.told() == self.told()
                        && other.moment() == self.moment() by {
                        let written = rfc3339_text(other.moment())->0;
                        objects_tell_events(other, written, *self, stamp@);
                        assert(rfc3339_text(other.stamp().unix_nanos as int) == Some(stamp@));
                    }
                }
                Some(self.render(stamp.as_str()))
            },
            None => None,
        }
    }
}

impl FetchEvent {
    pub open spec fn members(&self, stamp: Seq<char>) -> Seq<Member> {
        json::with_optional(
            json::with_optional(
                json::with_optional(
                    json::with_optional(
                        seq![
                            ("event"@, json::quoted("fetch"@)),
                            ("timestamp"@, json::quoted(stamp)),
                            ("project"@, json::quoted(self.project@)),
                            ("secret_name"@, json::quoted(self.secret_name@)),
                            ("decision"@, json::quoted(self.decision.wire())),
                            ("outcome"@, json::quoted(self.outcome.wire())),
                        ],
                        "peer_pid"@,
                        optional_signed(self.peer_pid),
                    ),
                    "peer_uid"@,
                    crate::proto::optional_number(self.peer_uid),
                ).push(("latency_ms"@, text::decimal(self.latency_ms as nat))),
                "backend"@,
                crate::proto::optional_string(self.backend),
            ),
            "reason"@,
            crate::proto::optional_string(self.reason),
        )
    }

    pub open spec fn pairs(&self, stamp: Seq<char>) -> Pairs {
        with_pair(
            with_pair(
                with_pair(
                    with_pair(
                        seq![
                            ("event"@, Atom::Text("fetch"@)),
                            ("timestamp"@, Atom::Text(stamp)),
                            ("project"@, Atom::Text(self.project@)),
                            ("secret_name"@, Atom::Text(self.secret_name@)),
                            ("decision"@, Atom::Text(self.decision.wire())),
                            ("outcome"@, Atom::Text(self.outcome.wire())),
                        ],
                        "peer_pid"@,
                        message::number_atom(optional_pid(self.peer_pid)),
                    ),
                    "peer_uid"@,
                    message::number_atom(optional_uid(self.peer_uid)),
                ).push(("latency_ms"@, Atom::Number(self.latency_ms as int))),
                "backend"@,
                message::text_atom(text::optional_text(self.backend)),
            ),
            "reason"@,
            message::text_atom(text::optional_text(self.reason)),
        )
    }

    fn render(&self, stamp: &str) -> (r: String)
        ensures
            r@ == json::object_text(self.members(stamp@)),
    {
        let mut w = ObjectWriter::new();
        w.text_member("event", "fetch");
        w.text_member("timestamp", stamp);
        w.text_member("project", self.project.as_str());
        w.text_member("secret_name", self.secret_name.as_str());
        w.text_member("decision", self.decision.wire_text());
        w.text_member("outcome", self.outcome.wire_text());
        assert(w.members() =~= seq![
            ("event"@, json::quoted("fetch"@)),
            ("timestamp"@, json::quoted(stamp@)),
            ("project"@, json::quoted(self.project@)),
            ("secret_name"@, json::quoted(self.secret_name@)),
            ("decision"@, json::quoted(self.decision.wire())),
            ("outcome"@, json::quoted(self.outcome.wire())),
        ]);
        if let Some(pid) = self.peer_pid {
            w.member("peer_pid", signed_json(pid).as_str());
        }
        if let Some(uid) = self.peer_uid {
            w.number_member("peer_uid", uid as u64);
        }
        w.number_member("latency_ms", self.latency_ms as u64);
        if let Some(backend) = &self.backend {
            w.text_member("backend", backend.as_str());
        }
        if let Some(reason) = &self.reason {
            w.text_member("reason", reason.as_str());
        }
        w.finish()
    }
}

/// The audit log's file. It is opened anew for every event, so that a log that was moved
/// away is followed by a new one.
#[derive(Debug)]
pub struct AuditFile {
    path: String,
}

impl AuditFile {
    /// The path of the file.
    pub closed spec fn location(&self) -> Seq<char> {
        self.path@
    }

    pub fn new(path: String) -> (r: AuditFile)
        ensures
            r.location() == path@,
    {
        AuditFile { path }
    }

    pub fn path(&self) -> (r: &str)
        ensures
            r@ == self.location(),
    {
        self.path.as_str()
    }

    /// The line to append to the file for `event`, line break and all. An event whose
    /// moment cannot be written has none, and counts as one that could not be written. A line
    /// tells which event it was written from.
    pub fn write_event(&self, event: &AuditEvent) -> (r: Option<String>)
        ensures
            text::optional_text(r) == match event.json() {
                Some(object) => Some(object + seq!['\n']),
                None => None,
            },
            0 <= event.moment() < YEAR_10000 ==> r is Some,
            forall|other: AuditEvent| #[trigger]
                other.json() == event.json() && r is Some ==> other.told() == event.told()
                    && other.moment() == event.moment(),
    {
        proof {
            reveal_strlit("\n");
            assert("\n"@ =~= seq!['\n']);
        }
        match event.to_json() {
            Some(object) => {
                let mut line = object;
                line.append("\n");
                Some(line)
            },
            None => None,
        }
    }
}

/// Every event that is written is one line: there is one line break in it, at its end.
pub proof fn events_are_one_line(event: AuditEvent, stamp: Seq<char>)
    ensures
        json::one_line(json::object_text(event.members(stamp))),
{
    json::quoted_text_is_one_line(stamp);
    match event {
        AuditEvent::Fetch(e) => {
            fetch_is_one_line(e, stamp);
        },
        AuditEvent::ManifestInvalid(e) => {
            json::quoted_text_is_one_line("manifest.invalid"@);
            json::quoted_text_is_one_line(e.project@);
            json::quoted_text_is_one_line(e.manifest_path@);
            json::quoted_text_is_one_line(e.error@);
            json::object_is_one_line(event.members(stamp));
        },
        AuditEvent::SocketRecovered(e) => {
            json::quoted_text_is_one_line("socket.recovered"@);
            json::quoted_text_is_one_line(e.project@);
            json::quoted_text_is_one_line(e.socket_path@);
            json::object_is_one_line(event.members(stamp));
        },
        AuditEvent::Shutdown(e) => {
            json::quoted_text_is_one_line("shutdown"@);
            json::quoted_text_is_one_line(e.reason@);
            json::decimal_is_one_line(e.events_dropped as nat);
            json::decimal_is_one_line(e.events_in_degraded_buffer as nat);
            json::object_is_one_line(event.members(stamp));
        },
    }
}

proof fn fetch_is_one_line(e: FetchEvent, stamp: Seq<char>)
    ensures
        json::one_line(json::object_text(e.members(stamp))),
{
    json::quoted_text_is_one_line("fetch"@);
    json::quoted_text_is_one_line(stamp);
    json::quoted_text_is_one_line(e.project@);
    json::quoted_text_is_one_line(e.secret_name@);
    json::quoted_text_is_one_line(e.decision.wire());
    json::quoted_text_is_one_line(e.outcome.wire());
    if let Some(pid) = e.peer_pid {
        json::signed_is_one_line(pid as int);
    }
    if let Some(uid) = e.peer_uid {
        json::decimal_is_one_line(uid as nat);
    }
    json::decimal_is_one_line(e.latency_ms as nat);
    if let Some(backend) = e.backend {
        json::quoted_text_is_one_line(backend@);
    }
    if let Some(reason) = e.reason {
        json::quoted_text_is_one_line(reason@);
    }
    json::object_is_one_line(e.members(stamp));
}

/// The members of an event are strings and numbers, and the numbers fit.
pub proof fn events_are_flat(event: AuditEvent, stamp: Seq<char>)
    ensures
        event.members(stamp) == message::flat_members(event.pairs(stamp)),
        message::pairs_fit(event.pairs(stamp)),
{
    let flat = message::flat_members(event.pairs(stamp));
    assert(event.members(stamp) =~= flat);
}

/// The text of an event, with its moment written as `stamp`, tells that stamp and all else
/// that the event tells: two events that differ in anything differ in their text.
pub proof fn objects_tell_events(
    a: AuditEvent,
    stamp_a: Seq<char>,
    b: AuditEvent,
    stamp_b: Seq<char>,
)
    requires
        json::object_text(a.members(stamp_a)) == json::object_text(b.members(stamp_b)),
    ensures
        stamp_a == stamp_b,
        a.members(stamp_a) == b.members(stamp_b),
        a.told() == b.told(),
{
    events_are_flat(a, stamp_a);
    events_are_flat(b, stamp_b);
    let p = a.pairs(stamp_a);
    let q = b.pairs(stamp_b);
    message::lines_tell_objects(p, q);
    reveal_strlit("fetch");
    reveal_strlit("manifest.invalid");
    reveal_strlit("socket.recovered");
    reveal_strlit("shutdown");
    assert("fetch"@.len() == 5 && "shutdown"@.len() == 8);
    assert("manifest.invalid"@[0] == 'm' && "socket.recovered"@[0] == 's');
    assert("shutdown"@.len() != "socket.recovered"@.len());
    assert(p[0].1 == q[0].1);
    assert(p[1].1 == Atom::Text(stamp_a) && q[1].1 == Atom::Text(stamp_b));
    match (a, b) {
        (AuditEvent::Fetch(e), AuditEvent::Fetch(f)) => {
            lemma_fetches_told(e, stamp_a, f, stamp_b);
        },
        (AuditEvent::ManifestInvalid(e), AuditEvent::ManifestInvalid(f)) => {
            assert(p[2].1 == q[2].1 && p[3].1 == q[3].1 && p[4].1 == q[4].1);
        },
        (AuditEvent::SocketRecovered(e), AuditEvent::SocketRecovered(f)) => {
            assert(p[2].1 == q[2].1 && p[3].1 == q[3].1);
        },
        (AuditEvent::Shutdown(e), AuditEvent::Shutdown(f)) => {
            assert(p[2].1 == q[2].1 && p[3].1 == q[3].1 && p[4].1 == q[4].1);
        },
        _ => {},
    }
}

proof fn lemma_fetches_told(e: FetchEvent, s: Seq<char>, f: FetchEvent, t: Seq<char>)
    requires
        e.pairs(s) == f.pairs(t),
    ensures
        AuditEvent::Fetch(e).told() == AuditEvent::Fetch(f).told(),
{
    let p = e.pairs(s);
    let q = f.pairs(t);
    reveal_strlit("allow");
    reveal_strlit("deny");
    reveal_strlit("ok");
    reveal_strlit("not_found");
    reveal_strlit("backend_error");
    reveal_strlit("backend_unreachable");
    assert("allow"@.len() == 5 && "deny"@.len() == 4);
    assert("ok"@.len() == 2 && "not_found"@.len() == 9);
    assert("backend_error"@.len() == 13 && "backend_unreachable"@.len() == 19);
    reveal_strlit("peer_pid");
    reveal_strlit("peer_uid");
    reveal_strlit("latency_ms");
    reveal_strlit("backend");
    reveal_strlit("reason");
    assert("peer_pid"@[5] == 'p' && "peer_uid"@[5] == 'u');
    assert("peer_pid"@.len() == 8 && "peer_uid"@.len() == 8 && "latency_ms"@.len() == 10);
    assert("backend"@.len() == 7 && "reason"@.len() == 6);
    assert(p[2].1 == q[2].1 && p[3].1 == q[3].1 && p[4].1 == q[4].1 && p[5].1 == q[5].1);
    assert(p[6] == q[6]);
    assert(e.peer_pid is Some == f.peer_pid is Some);
    let i = if e.peer_pid is Some {
        7int
    } else {
        6int
    };
    assert(p[i] == q[i]);
    assert(e.peer_uid is Some == f.peer_uid is Some);
    let j = if e.peer_uid is Some {
        i + 1
    } else {
        i
    };
    assert(p[j] == q[j]);
    assert(p[j].1 == Atom::Number(e.latency_ms as int));
    assert(q[j].1 == Atom::Number(f.latency_ms as int));
    assert(p.len() == q.len());
    if j + 1 < p.len() {
        assert(p[j + 1] == q[j + 1]);
    }
    if j + 2 < p.len() {
        assert(p[j + 2] == q[j + 2]);
    }
}

/// Whether a text is one line, line break and all.
pub open spec fn is_line(s: Seq<char>) -> bool {
    &&& s.len() > 0
    &&& s.last() == '\n'
    &&& json::one_line(s.drop_last())
}

/// What appending lines, one after the other, adds to a file.
pub open spec fn log_text(lines: Seq<Seq<char>>) -> Seq<char>
    decreases lines.len(),
{
    if lines.len() == 0 {
        Seq::empty()
    } else {
        lines[0] + log_text(lines.skip(1))
    }
}

/// The lines of a run of events that can be written.
pub open spec fn event_lines(events: Seq<AuditEvent>) -> Seq<Seq<char>> {
    Seq::new(events.len(), |i: int| events[i].json()->0 + seq!['\n'])
}

/// A file that lines were appended to still starts with what it held, and the rest of it
/// tells which lines those were: how many, and each as it was.
pub proof fn logs_keep_their_lines(before: Seq<char>, a: Seq<Seq<char>>, b: Seq<Seq<char>>)
    requires
        forall|i: int| 0 <= i < a.len() ==> is_line(#[trigger] a[i]),
        forall|i: int| 0 <= i < b.len() ==> is_line(#[trigger] b[i]),
        before + log_text(a) == before + log_text(b),
    ensures
        (before + log_text(a)).take(before.len() as int) == before,
        a == b,
{
    assert((before + log_text(a)).take(before.len() as int) =~= before);
    assert((before + log_text(a)).skip(before.len() as int) =~= log_text(a));
    assert((before + log_text(b)).skip(before.len() as int) =~= log_text(b));
    lemma_log_tells(a, b);
}

proof fn lemma_log_tells(a: Seq<Seq<char>>, b: Seq<Seq<char>>)
    requires
        forall|i: int| 0 <= i < a.len() ==> is_line(#[trigger] a[i]),
        forall|i: int| 0 <= i < b.len() ==> is_line(#[trigger] b[i]),
        log_text(a) == log_text(b),
    ensures
        a == b,
    decreases a.len(),
{
    if a.len() == 0 || b.len() == 0 {
        if a.len() > 0 {
            assert(is_line(a[0]));
            assert(log_text(a).len() >= a[0].len());
        }
        if b.len() > 0 {
            assert(is_line(b[0]));
            assert(log_text(b).len() >= b[0].len());
        }
        assert(a =~= b);
    } else {
        let x = a[0];
        let y = b[0];
        let whole = log_text(a);
        assert(is_line(x) && is_line(y));
        assert(whole[x.len() - 1] == '\n' && whole[y.len() - 1] == '\n');
        if x.len() < y.len() {
            assert(y.drop_last()[x.len() - 1] == whole[x.len() - 1]);
        } else if y.len() < x.len() {
            assert(x.drop_last()[y.len() - 1] == whole[y.len() - 1]);
        }
        assert(whole.take(x.len() as int) =~= x);
        assert(whole.take(x.len() as int) =~= y);
        assert(whole.skip(x.len() as int) =~= log_text(a.skip(1)));
        assert(whole.skip(x.len() as int) =~= log_text(b.skip(1)));
        assert forall|i: int| 0 <= i < a.skip(1).len() implies is_line(#[trigger] a.skip(1)[i]) by {
            assert(a.skip(1)[i] == a[i + 1]);
        }
        assert forall|i: int| 0 <= i < b.skip(1).len() implies is_line(#[trigger] b.skip(1)[i]) by {
            assert(b.skip(1)[i] == b[i + 1]);
        }
        lemma_log_tells(a.skip(1), b.skip(1));
        assert(a =~= seq![x] + a.skip(1));
        assert(b =~= seq![y] + b.skip(1));
    }
}

/// A log tells which events were appended to it: how many, in which order, and each with all
/// that it tells and with its moment as it is written.
pub proof fn logs_tell_their_events(
    before: Seq<char>,
    a: Seq<AuditEvent>,
    b: Seq<AuditEvent>,
)
    requires
        forall|i: int| 0 <= i < a.len() ==> (#[trigger] a[i]).json() is Some,
        forall|i: int| 0 <= i < b.len() ==> (#[trigger] b[i]).json() is Some,
        before + log_text(event_lines(a)) == before + log_text(event_lines(b)),
    ensures
        a.len() == b.len(),
        forall|i: int|
            0 <= i < a.len() ==> (#[trigger] a[i]).told() == b[i].told() && rfc3339_text(
                a[i].moment(),
            ) == rfc3339_text(b[i].moment()),
{
    let xs = event_lines(a);
    let ys = event_lines(b);
    assert forall|i: int| 0 <= i < xs.len() implies is_line(#[trigger] xs[i]) by {
        lemma_event_line(a[i]);
    }
    assert forall|i: int| 0 <= i < ys.len() implies is_line(#[trigger] ys[i]) by {
        lemma_event_line(b[i]);
    }
    logs_keep_their_lines(before, xs, ys);
    assert forall|i: int| 0 <= i < a.len() implies (#[trigger] a[i]).told() == b[i].told()
        && rfc3339_text(a[i].moment()) == rfc3339_text(b[i].moment()) by {
        assert(xs[i].drop_last() =~= a[i].json()->0);
        assert(ys[i].drop_last() =~= b[i].json()->0);
        assert(b[i].json() is Some);
        objects_tell_events(
            a[i],
            rfc3339_text(a[i].moment())->0,
            b[i],
            rfc3339_text(b[i].moment())->0,
        );
    }
}

proof fn lemma_event_line(event: AuditEvent)
    requires
        event.json() is Some,
    ensures
        is_line(event.json()->0 + seq!['\n']),
{
    let object = event.json()->0;
    events_are_one_line(event, rfc3339_text(event.moment())->0);
    assert((object + seq!['\n']).drop_last() =~= object);
}

/// No event has a place for a secret's value: no member of any line is called `value` or
/// `value_b64`.
pub proof fn events_carry_no_values(event: AuditEvent, stamp: Seq<char>, i: int)
    requires
        0 <= i < event.members(stamp).len(),
    ensures
        event.members(stamp)[i].0 != "value"@,
        event.members(stamp)[i].0 != "value_b64"@,
{
    reveal_strlit("value");
    reveal_strlit("value_b64");
    reveal_strlit("event");
    reveal_strlit("timestamp");
    reveal_strlit("project");
    reveal_strlit("secret_name");
    reveal_strlit("decision");
    reveal_strlit("outcome");
    reveal_strlit("peer_pid");
    reveal_strlit("peer_uid");
    reveal_strlit("latency_ms");
    reveal_strlit("backend");
    reveal_strlit("reason");
    reveal_strlit("manifest_path");
    reveal_strlit("error");
    reveal_strlit("socket_path");
    reveal_strlit("events_dropped");
    reveal_strlit("events_in_degraded_buffer");
    assert("value"@[0] == 'v' && "value_b64"@[0] == 'v');
    assert("event"@[0] == 'e' && "timestamp"@[0] == 't' && "project"@[0] == 'p');
    assert("secret_name"@[0] == 's' && "decision"@[0] == 'd' && "outcome"@[0] == 'o');
    assert("peer_pid"@[0] == 'p' && "peer_uid"@[0] == 'p' && "latency_ms"@[0] == 'l');
    assert("backend"@[0] == 'b' && "reason"@[0] == 'r' && "manifest_path"@[0] == 'm');
    assert("error"@[0] == 'e' && "socket_path"@[0] == 's');
    assert("events_dropped"@[0] == 'e' && "events_in_degraded_buffer"@[0] == 'e');
}

/// What came of handing an event to the writer's queue.
#[derive(Debug, Clone, Copy, PartialEq, Eq, Structural)]
pub enum SendOutcome {
    Queued,
    /// The queue is full: the writer is stuck.
    Full,
    /// The writer is gone: the daemon is shutting down.
    Closed,
}

/// The producers' side of the log: counts the events that the queue had no room for.
#[derive(Debug)]
pub struct AuditWriter {
    dropped: u64,
}

impl AuditWriter {
    /// How many events were dropped.
    pub closed spec fn drops(&self) -> u64 {
        self.dropped
    }

    pub fn new() -> (r: AuditWriter)
        ensures
            r.drops() == 0,
    {
        AuditWriter { dropped: 0 }
    }

    /// Takes note of what came of an event. An event that found the queue full counts as
    /// dropped; one that came after the writer had gone does not. The count wraps.
    pub fn record(&mut self, sent: SendOutcome)
        ensures
            final(self).drops() == if sent == SendOutcome::Full {
                counted(old(self).drops())
            } else {
                old(self).drops()
            },
    {
        match sent {
            SendOutcome::Full => {
                self.dropped = next_count(self.dropped);
            },
            SendOutcome::Queued => {},
            SendOutcome::Closed => {},
        }
    }

    /// The number of events that were dropped because the queue was full.
    pub fn dropped(&self) -> (r: u64)
        ensures
            r == self.drops(),
    {
        self.dropped
    }
}

/// The count after `n`; the largest is followed by none.
pub open spec fn counted(n: u64) -> u64 {
    if n == u64::MAX {
        0
    } else {
        (n + 1) as u64
    }
}

fn next_count(n: u64) -> (r: u64)
    ensures
        r == counted(n),
{
    if n == u64::MAX {
        0
    } else {
        n + 1
    }
}

/// The writer's tallies when it ends.
#[derive(Debug, Clone, Copy, PartialEq, Eq, Structural)]
pub struct WriterShutdown {
    /// Events that were never written.
    pub degraded_buffer_remaining: u64,
    /// Events that were written.
    pub events_written: u64,
}

impl Default for WriterShutdown {
    fn default() -> (r: WriterShutdown)
        ensures
            r.degraded_buffer_remaining == 0,
            r.events_written == 0,
    {
        WriterShutdown { degraded_buffer_remaining: 0, events_written: 0 }
    }
}

/// The state of the writer: events that wait because the log could not be written, oldest
/// first; the event that just came in; and whether the waiting ones are tried before it.
pub struct WriterModel {
    pub waiting: Seq<AuditEvent>,
    pub incoming: Option<AuditEvent>,
    pub draining: bool,
    pub written: u64,
}

impl WriterModel {
    /// Whether the state can come about.
    pub open spec fn wf(self) -> bool {
        &&& self.waiting.len() <= DEGRADED_BUFFER_CAP
        &&& self.draining ==> self.incoming is Some && self.waiting.len() > 0
    }

    /// The event that is to be written next.
    pub open spec fn next_write(self) -> Option<AuditEvent> {
        if self.draining {
            Some(self.waiting[0])
        } else {
            self.incoming
        }
    }

    /// The state after an event came in.
    pub open spec fn received(self, event: AuditEvent) -> WriterModel {
        WriterModel { incoming: Some(event), draining: self.waiting.len() > 0, ..self }
    }

    /// The state after the next event was written.
    pub open spec fn wrote(self) -> WriterModel {
        if self.draining {
            WriterModel {
                waiting: self.waiting.skip(1),
                draining: self.waiting.len() > 1,
                written: counted(self.written),
                ..self
            }
        } else {
            WriterModel { incoming: None, written: counted(self.written), ..self }
        }
    }

    /// The state after the next event could not be written. The waiting ones are not tried
    /// any more until another event comes in; the incoming one joins them, at the cost of
    /// the oldest where there is no room.
    pub open spec fn failed(self) -> WriterModel {
        if self.draining {
            WriterModel { draining: false, ..self }
        } else {
            WriterModel {
                waiting: if self.waiting.len() == DEGRADED_BUFFER_CAP {
                    self.waiting.skip(1).push(self.incoming->0)
                } else {
                    self.waiting.push(self.incoming->0)
                },
                incoming: None,
                ..self
            }
        }
    }

    /// The state after a run of attempts, each of which succeeds or not.
    pub open spec fn attempted(self, successes: Seq<bool>) -> WriterModel
        decreases successes.len(),
    {
        if successes.len() == 0 {
            self
        } else if successes[0] {
            self.wrote().attempted(successes.skip(1))
        } else {
            self.failed().attempted(successes.skip(1))
        }
    }

    /// The events that a run of attempts writes, in order.
    pub open spec fn log(self, successes: Seq<bool>) -> Seq<AuditEvent>
        decreases successes.len(),
    {
        if successes.len() == 0 {
            Seq::empty()
        } else if successes[0] {
            seq![self.next_write()->0] + self.wrote().log(successes.skip(1))
        } else {
            self.failed().log(successes.skip(1))
        }
    }
}

/// The writer's side of the log. It decides which event to write next; the writing itself
/// is its caller's.
#[derive(Debug)]
pub struct WriterLoop {
    degraded: VecDeque<AuditEvent>,
    incoming: Option<AuditEvent>,
    draining: bool,
    written: u64,
}

impl View for WriterLoop {
    type V = WriterModel;

    closed spec fn view(&self) -> WriterModel {
        WriterModel {
            waiting: self.degraded@,
            incoming: self.incoming,
            draining: self.draining,
            written: self.written,
        }
    }
}

impl WriterLoop {
    /// A writer that has seen no event.
    pub fn new() -> (r: WriterLoop)
        ensures
            r@.wf(),
            r@.waiting.len() == 0,
            r@.incoming is None,
            !r@.draining,
            r@.written == 0,
    {
        WriterLoop { degraded: VecDeque::new(), incoming: None, draining: false, written: 0 }
    }

    /// Takes in the next event. What waits is tried first.
    pub fn receive(&mut self, event: AuditEvent)
        requires
            old(self)@.wf(),
            old(self)@.incoming is None,
        ensures
            final(self)@.wf(),
            final(self)@ == old(self)@.received(event),
    {
        self.draining = self.degraded.len() > 0;
        self.incoming = Some(event);
    }

    /// The event that is to be written next; there is none once the incoming event is
    /// either written or waiting.
    pub fn next_write(&self) -> (r: Option<&AuditEvent>)
        requires
            self@.wf(),
        ensures
            match r {
                Some(event) => self@.next_write() == Some(*event),
                None => self@.next_write() is None,
            },
    {
        if self.draining {
            Some(&self.degraded[0])
        } else {
            match &self.incoming {
                Some(event) => Some(event),
                None => None,
            }
        }
    }

    /// Takes note of whether that event was written.
    pub fn attempted(&mut self, success: bool)
        requires
            old(self)@.wf(),
            old(self)@.next_write() is Some,
        ensures
            final(self)@.wf(),
            final(self)@ == if success {
                old(self)@.wrote()
            } else {
                old(self)@.failed()
            },
    {
        let ghost before = self@;
        if self.draining {
            if success {
                let _written = self.degraded.pop_front();
                assert(self.degraded@ =~= before.waiting.skip(1));
                self.written = next_count(self.written);
                self.draining = self.degraded.len() > 0;
            } else {
                self.draining = false;
            }
        } else if success {
            self.incoming = None;
            self.written = next_count(self.written);
        } else {
            let incoming = self.incoming.take();
            if let Some(event) = incoming {
                if self.degraded.len() == DEGRADED_BUFFER_CAP {
                    let _oldest = self.degraded.pop_front();
                    assert(self.degraded@ =~= before.waiting.skip(1));
                }
                self.degraded.push_back(event);
            }
        }
    }

    /// The tallies of a writer that is to end.
    pub fn shutdown(&self) -> (r: WriterShutdown)
        requires
            self@.wf(),
        ensures
            r.degraded_buffer_remaining == self@.waiting.len(),
            r.events_written == self@.written,
    {
        WriterShutdown {
            degraded_buffer_remaining: self.degraded.len() as u64,
            events_written: self.written,
        }
    }
}

/// The buffer never holds more than its bound, and attempts keep the state sound.
pub proof fn buffer_stays_bounded(state: WriterModel, event: AuditEvent)
    requires
        state.wf(),
    ensures
        state.incoming is None ==> state.received(event).wf(),
        state.next_write() is Some ==> state.wrote().wf() && state.failed().wf(),
        state.waiting.len() <= DEGRADED_BUFFER_CAP,
{
}

/// While the log can be written, an incoming event is preceded in it by everything that
/// waited, in the order in which it came, and nothing waits any more.
pub proof fn a_writable_log_gets_everything_in_order(
    state: WriterModel,
    event: AuditEvent,
    successes: Seq<bool>,
)
    requires
        state.wf(),
        state.incoming is None,
        successes.len() == state.waiting.len() + 1,
        forall|i: int| 0 <= i < successes.len() ==> #[trigger] successes[i],
    ensures
        state.received(event).log(successes) == state.waiting.push(event),
        state.received(event).attempted(successes).waiting.len() == 0,
        state.received(event).attempted(successes).incoming is None,
{
    lemma_drains(state.received(event), event, successes);
}

proof fn lemma_drains(state: WriterModel, event: AuditEvent, successes: Seq<bool>)
    requires
        state.wf(),
        state.incoming == Some(event),
        state.draining == (state.waiting.len() > 0),
        successes.len() == state.waiting.len() + 1,
        forall|i: int| 0 <= i < successes.len() ==> #[trigger] successes[i],
    ensures
        state.log(successes) == state.waiting.push(event),
        state.attempted(successes).waiting.len() == 0,
        state.attempted(successes).incoming is None,
    decreases state.waiting.len(),
{
    let rest = successes.skip(1);
    let next = state.wrote();
    assert(successes[0]);
    assert(state.attempted(successes) == next.attempted(rest));
    assert(state.log(successes) == seq![state.next_write()->0] + next.log(rest));
    if state.waiting.len() == 0 {
        assert(next.log(rest) =~= Seq::<AuditEvent>::empty());
        assert(next.attempted(rest) == next);
        assert(seq![event] + Seq::<AuditEvent>::empty() =~= state.waiting.push(event));
    } else {
        assert forall|i: int| 0 <= i < rest.len() implies #[trigger] rest[i] by {
            assert(rest[i] == successes[i + 1]);
        }
        lemma_drains(next, event, rest);
        assert(seq![state.waiting[0]] + next.waiting.push(event) =~= state.waiting.push(event));
    }
}

/// While the log cannot be written, an incoming event is kept behind those that wait, and
/// costs the oldest of them only where there is no room. It takes one attempt, or two where
/// something waits.
pub proof fn an_unwritable_log_keeps_the_newest(
    state: WriterModel,
    event: AuditEvent,
    failures: Seq<bool>,
)
    requires
        state.wf(),
        state.incoming is None,
        failures.len() == if state.waiting.len() > 0 {
            2int
        } else {
            1int
        },
        forall|i: int| 0 <= i < failures.len() ==> !(#[trigger] failures[i]),
    ensures
        state.received(event).attempted(failures).incoming is None,
        state.received(event).attempted(failures).written == state.written,
        state.received(event).attempted(failures).waiting == if state.waiting.len()
            == DEGRADED_BUFFER_CAP {
            state.waiting.skip(1).push(event)
        } else {
            state.waiting.push(event)
        },
{
    let first = state.received(event);
    let second = first.failed();
    let rest = failures.skip(1);
    assert(!failures[0]);
    assert(first.attempted(failures) == second.attempted(rest));
    if state.waiting.len() > 0 {
        assert(!failures[1]);
        assert(rest[0] == failures[1]);
        let last = rest.skip(1);
        assert(second.attempted(rest) == second.failed().attempted(last));
        assert(second.failed().attempted(last) == second.failed());
    } else {
        assert(second.attempted(rest) == second);
    }
}

/// What the writer holds at a time, oldest first.
pub open spec fn held(state: WriterModel) -> Seq<AuditEvent> {
    match state.incoming {
        Some(event) => state.waiting.push(event),
        None => state.waiting,
    }
}

/// No event is lost or written twice: a successful attempt takes exactly the event that was
/// written out of what the writer holds, and a failed one takes nothing, except that a full
/// buffer gives up its oldest event for the incoming one.
pub proof fn attempts_lose_nothing_else(state: WriterModel)
    requires
        state.wf(),
        state.next_write() is Some,
    ensures
        state.draining ==> held(state) == seq![state.next_write()->0] + held(state.wrote()),
        !state.draining ==> held(state) == held(state.wrote()).push(state.next_write()->0),
        state.draining || state.waiting.len() < DEGRADED_BUFFER_CAP ==> held(state.failed())
            == held(state),
        !state.draining && state.waiting.len() == DEGRADED_BUFFER_CAP ==> held(state.failed())
            == held(state).skip(1),
{
    if state.draining {
        assert(held(state) =~= seq![state.waiting[0]] + held(state.wrote()));
    } else {
        assert(state.waiting.skip(1).push(state.incoming->0) =~= held(state).skip(1)
            || state.waiting.len() == 0);
    }
}

/// A fetch stands in the log with all that is known of it, each under its own name and as it is:
/// what is not known of the peer, the backend and the reason is left out, and nothing else is.
pub proof fn fetches_stand_in_the_log_whole(e: FetchEvent, stamp: Seq<char>)
    ensures
        AuditEvent::Fetch(e).members(stamp) == seq![
            ("event"@, json::quoted("fetch"@)),
            ("timestamp"@, json::quoted(stamp)),
            ("project"@, json::quoted(e.project@)),
            ("secret_name"@, json::quoted(e.secret_name@)),
            (
                "decision"@,
                json::quoted(
                    match e.decision {
                        Decision::Allow => "allow"@,
                        Decision::Deny => "deny"@,
                    },
                ),
            ),
            (
                "outcome"@,
                json::quoted(
                    match e.outcome {
                        Outcome::Success => "ok"@,
                        Outcome::NotFound => "not_found"@,
                        Outcome::BackendError => "backend_error"@,
                        Outcome::BackendUnreachable => "backend_unreachable"@,
                    },
                ),
            ),
        ] + (match e.peer_pid {
            Some(pid) if pid >= 0 => seq![("peer_pid"@, text::decimal(pid as nat))],
            Some(pid) => seq![("peer_pid"@, "-"@ + text::decimal((-pid) as nat))],
            None => seq![],
        }) + (match e.peer_uid {
            Some(uid) => seq![("peer_uid"@, text::decimal(uid as nat))],
            None => seq![],
        }) + seq![("latency_ms"@, text::decimal(e.latency_ms as nat))] + (match e.backend {
            Some(backend) => seq![("backend"@, json::quoted(backend@))],
            None => seq![],
        }) + (match e.reason {
            Some(reason) => seq![("reason"@, json::quoted(reason@))],
            None => seq![],
        }),
{
    reveal_strlit("-");
    assert("-"@ =~= seq!['-']);
    let members = AuditEvent::Fetch(e).members(stamp);
    assert(members =~= seq![
        ("event"@, json::quoted("fetch"@)),
        ("timestamp"@, json::quoted(stamp)),
        ("project"@, json::quoted(e.project@)),
        ("secret_name"@, json::quoted(e.secret_name@)),
        (
            "decision"@,
            json::quoted(
                match e.decision {
                    Decision::Allow => "allow"@,
                    Decision::Deny => "deny"@,
                },
            ),
        ),
        (
            "outcome"@,
            json::quoted(
                match e.outcome {
                    Outcome::Success => "ok"@,
                    Outcome::NotFound => "not_found"@,
                    Outcome::BackendError => "backend_error"@,
                    Outcome::BackendUnreachable => "backend_unreachable"@,
                },
            ),
        ),
    ] + (match e.peer_pid {
        Some(pid) if pid >= 0 => seq![("peer_pid"@, text::decimal(pid as nat))],
        Some(pid) => seq![("peer_pid"@, "-"@ + text::decimal((-pid) as nat))],
        None => seq![],
    }) + (match e.peer_uid {
        Some(uid) => seq![("peer_uid"@, text::decimal(uid as nat))],
        None => seq![],
    }) + seq![("latency_ms"@, text::decimal(e.latency_ms as nat))] + (match e.backend {
        Some(backend) => seq![("backend"@, json::quoted(backend@))],
        None => seq![],
    }) + (match e.reason {
        Some(reason) => seq![("reason"@, json::quoted(reason@))],
        None => seq![],
    }));
}

/// The events other than fetches stand in the log with all that they tell.
pub proof fn events_stand_in_the_log_whole(
    invalid: ManifestInvalidEvent,
    recovered: SocketRecoveredEvent,
    shutdown: ShutdownEvent,
    stamp: Seq<char>,
)
    ensures
        AuditEvent::ManifestInvalid(invalid).members(stamp) == seq![
            ("event"@, json::quoted("manifest.invalid"@)),
            ("timestamp"@, json::quoted(stamp)),
            ("project"@, json::quoted(invalid.project@)),
            ("manifest_path"@, json::quoted(invalid.manifest_path@)),
            ("error"@, json::quoted(invalid.error@)),
        ],
        AuditEvent::SocketRecovered(recovered).members(stamp) == seq![
            ("event"@, json::quoted("socket.recovered"@)),
            ("timestamp"@, json::quoted(stamp)),
            ("project"@, json::quoted(recovered.project@)),
            ("socket_path"@, json::quoted(recovered.socket_path@)),
        ],
        AuditEvent::Shutdown(shutdown).members(stamp) == seq![
            ("event"@, json::quoted("shutdown"@)),
            ("timestamp"@, json::quoted(stamp)),
            ("reason"@, json::quoted(shutdown.reason@)),
            ("events_dropped"@, text::decimal(shutdown.events_dropped as nat)),
            (
                "events_in_degraded_buffer"@,
                text::decimal(shutdown.events_in_degraded_buffer as nat),
            ),
        ],
{
}

/// An event is stamped with its own moment and written wherever that moment can be.
pub proof fn events_are_stamped_with_their_moment(event: AuditEvent)
    ensures
        event.moment() == match event {
            AuditEvent::Fetch(e) => e.timestamp.unix_nanos as int,
            AuditEvent::ManifestInvalid(e) => e.timestamp.unix_nanos as int,
            AuditEvent::SocketRecovered(e) => e.timestamp.unix_nanos as int,
            AuditEvent::Shutdown(e) => e.timestamp.unix_nanos as int,
        },
        match rfc3339_text(event.moment()) {
            Some(stamp) => event.json() == Some(json::object_text(event.members(stamp))),
            None => event.json() is None,
        },
{
}

/// An event tells each of its parts as it is.
pub proof fn events_are_told_as_they_are(event: AuditEvent)
    ensures
        match event {
            AuditEvent::Fetch(e) => event.told() == (EventModel::Fetch {
                project: e.project@,
                secret_name: e.secret_name@,
                decision: e.decision,
                outcome: e.outcome,
                peer_pid: e.peer_pid,
                peer_uid: e.peer_uid,
                latency_ms: e.latency_ms,
                backend: text::optional_text(e.backend),
                reason: text::optional_text(e.reason),
            }),
            AuditEvent::ManifestInvalid(e) => event.told() == EventModel::ManifestInvalid(
                e.project@,
                e.manifest_path@,
                e.error@,
            ),
            AuditEvent::SocketRecovered(e) => event.told() == EventModel::SocketRecovered(
                e.project@,
                e.socket_path@,
            ),
            AuditEvent::Shutdown(e) => event.told() == EventModel::Shutdown(
                e.reason@,
                e.events_dropped,
                e.events_in_degraded_buffer,
            ),
        },
{
}

/// Counts go up by one, and start over behind the largest.
pub proof fn counts_go_up_by_one(n: u64)
    ensures
        counted(n) as int == (n + 1) % 18_446_744_073_709_551_616,
{
}

/// What waits is written first, oldest first, and the event that came in behind it. What was
/// written leaves, and counts as written; what could not be written stays, the event that came in
/// behind all others, and only where 1000 wait already does the oldest leave for it.
pub proof fn writers_write_the_oldest_first(state: WriterModel, event: AuditEvent)
    requires
        state.wf(),
    ensures
        ({
            let after = state.received(event);
            &&& after.waiting == state.waiting
            &&& after.incoming == Some(event)
            &&& after.written == state.written
            &&& after.draining <==> state.waiting.len() > 0
            &&& state.waiting.len() > 0 ==> after.next_write() == Some(state.waiting[0])
            &&& state.waiting.len() == 0 ==> after.next_write() == Some(event)
        }),
        state.draining ==> {
            let after = state.wrote();
            &&& state.next_write() == Some(state.waiting[0])
            &&& state.waiting == seq![state.waiting[0]] + after.waiting
            &&& after.incoming == state.incoming
            &&& after.written as int == (state.written + 1) % 18_446_744_073_709_551_616
            &&& after.draining <==> state.waiting.len() > 1
            &&& after.waiting.len() == 0 ==> after.next_write() == state.incoming
            &&& state.failed().waiting == state.waiting
            &&& state.failed().incoming == state.incoming
            &&& state.failed().written == state.written
            &&& !state.failed().draining
            &&& state.failed().next_write() == state.incoming
        },
        !state.draining && state.incoming == Some(event) ==> {
            let after = state.wrote();
            &&& state.next_write() == Some(event)
            &&& after.waiting == state.waiting
            &&& after.incoming is None
            &&& after.written as int == (state.written + 1) % 18_446_744_073_709_551_616
            &&& after.next_write() is None
            &&& state.waiting.len() < 1_000 ==> state.failed().waiting == state.waiting.push(event)
            &&& state.waiting.len() == 1_000 ==> seq![state.waiting[0]] + state.failed().waiting
                == state.waiting.push(event)
            &&& state.failed().incoming is None
            &&& state.failed().written == state.written
            &&& state.failed().next_write() is None
        },
        state.incoming is None ==> state.next_write() is None,
        state.waiting.len() <= 1_000,
{
    if state.draining {
        assert(state.waiting =~= seq![state.waiting[0]] + state.waiting.skip(1));
    } else if state.waiting.len() == 1_000 {
        assert(state.waiting.push(event) =~= seq![state.waiting[0]] + state.waiting.skip(1).push(
            event,
        ));
    }
}

} // verus!
