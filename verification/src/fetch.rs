//! The data plane: what a project socket answers.
//!
//! A `get` is held against the project's allowlist first; a name that is not on it is
//! denied without a look at the cache or the backend. Then the cache is asked, and only then
//! the backend, whose value goes into the cache. Every `get` leaves one event in the audit
//! log, which never carries the value.

use crate::audit::{AuditEvent, Decision, FetchEvent, Outcome, Timestamp};
use crate::cache::{self, BoundedCache, CacheContents, CacheSlot};
use crate::clock::{Moment, Span, NANOS_PER_SECOND};
use crate::json;
use crate::manifest::{Manifest, ManifestModel};
use crate::proto::project::{
    GetResponse, InfoResponse, PingResponse, ProjectError, ProjectErrorCode, ProjectRequest,
    ProjectRequestView,
};
use crate::proto::{self, WireCode};
use crate::secret::{self, Secret};
use crate::text::{self, copy_text, copy_texts};
use vstd::prelude::*;
use vstd::string::*;

verus! {

/// What the backend said when it was asked for a secret.
pub enum BackendReply {
    Value(String),
    /// It knows the name and has nothing under it.
    Missing,
    /// It failed, and said so.
    Failed(String),
    /// It did not answer in time.
    TimedOut,
    /// The daemon runs without a backend.
    Absent,
}

/// How a `get` ended.
#[derive(Debug)]
pub enum GetVerdict {
    /// The name is not on the allowlist.
    Denied,
    /// The cache had the value.
    Cached { value: Secret, ttl_seconds: u32 },
    /// The backend had the value.
    Fetched { value: Secret, ttl_seconds: u32 },
    Missing,
    Failed(String),
    TimedOut,
    NoBackend,
}

/// The model of a `GetVerdict`.
pub enum Verdict {
    Denied,
    Cached(Seq<char>, u32),
    Fetched(Seq<char>, u32),
    Missing,
    Failed(Seq<char>),
    TimedOut,
    NoBackend,
}

impl View for GetVerdict {
    type V = Verdict;

    open spec fn view(&self) -> Verdict {
        match *self {
            GetVerdict::Denied => Verdict::Denied,
            GetVerdict::Cached { value, ttl_seconds } => Verdict::Cached(
                secret::secret_text(value),
                ttl_seconds,
            ),
            GetVerdict::Fetched { value, ttl_seconds } => Verdict::Fetched(
                secret::secret_text(value),
                ttl_seconds,
            ),
            GetVerdict::Missing => Verdict::Missing,
            GetVerdict::Failed(message) => Verdict::Failed(message@),
            GetVerdict::TimedOut => Verdict::TimedOut,
            GetVerdict::NoBackend => Verdict::NoBackend,
        }
    }
}

/// How a `get` ends before the backend is asked; `None` where it has to be asked.
pub open spec fn early_verdict(
    allowlist: Seq<Seq<char>>,
    contents: CacheContents,
    name: Seq<char>,
    now: Moment,
) -> Option<Verdict> {
    if !allowlist.contains(name) {
        Some(Verdict::Denied)
    } else {
        match cache::lookup(contents, name, now) {
            Some((value, ttl_seconds)) => Some(Verdict::Cached(value, ttl_seconds)),
            None => None,
        }
    }
}

/// What that leaves in the cache. A denied name is not even looked up.
pub open spec fn early_contents(
    allowlist: Seq<Seq<char>>,
    contents: CacheContents,
    name: Seq<char>,
    now: Moment,
) -> CacheContents {
    if !allowlist.contains(name) {
        contents
    } else {
        cache::after_lookup(contents, name, now)
    }
}

/// The whole seconds of a lifetime, as the 32-bit number that goes out.
pub open spec fn lifetime_seconds(lifetime: Span) -> u32 {
    (lifetime.nanos / NANOS_PER_SECOND) as u32
}

/// How a `get` ends after the backend was asked.
pub open spec fn late_verdict(reply: BackendReply, lifetime: Span) -> Verdict {
    match reply {
        BackendReply::Value(value) => Verdict::Fetched(value@, lifetime_seconds(lifetime)),
        BackendReply::Missing => Verdict::Missing,
        BackendReply::Failed(message) => Verdict::Failed(message@),
        BackendReply::TimedOut => Verdict::TimedOut,
        BackendReply::Absent => Verdict::NoBackend,
    }
}

/// What goes into the cache of what the backend said.
pub open spec fn fetched_slot(value: Seq<char>, now: Moment, lifetime: Span) -> CacheSlot {
    CacheSlot { value, fetched_at: now, ttl: lifetime }
}

/// Holds a `get` against the allowlist, then asks the cache. `None` means that the backend
/// has to be asked.
pub fn begin_get(manifest: &Manifest, cache: &mut BoundedCache, name: &str, now: Moment) -> (r:
    Option<GetVerdict>)
    requires
        old(cache).wf(),
    ensures
        final(cache).wf(),
        final(cache).bound() == old(cache).bound(),
        final(cache).lifetime() == old(cache).lifetime(),
        final(cache)@ == early_contents(manifest@.secrets, old(cache)@, name@, now),
        early_verdict(manifest@.secrets, old(cache)@, name@, now) == match r {
            Some(verdict) => Some(verdict@),
            None => None,
        },
{
    if !manifest.allowlist.permits(name) {
        return Some(GetVerdict::Denied);
    }
    match cache.get(name, now) {
        Some(hit) => Some(GetVerdict::Cached { value: hit.value, ttl_seconds: hit.ttl_seconds }),
        None => None,
    }
}

/// Takes what the backend said. A value goes into the cache; nothing else does.
pub fn finish_get(cache: &mut BoundedCache, name: &str, reply: BackendReply, now: Moment) -> (r:
    GetVerdict)
    requires
        old(cache).wf(),
    ensures
        final(cache).wf(),
        final(cache).bound() == old(cache).bound(),
        final(cache).lifetime() == old(cache).lifetime(),
        r@ == late_verdict(reply, old(cache).lifetime()),
        match reply {
            BackendReply::Value(value) => cache::inserted(
                old(cache)@,
                final(cache)@,
                name@,
                fetched_slot(value@, now, old(cache).lifetime()),
                old(cache).bound(),
            ),
            _ => final(cache)@ == old(cache)@,
        },
{
    match reply {
        BackendReply::Value(value) => {
            let lifetime = cache.default_ttl();
            let secs: u128 = lifetime.as_secs();
            let ttl_seconds: u32 = #[verifier::truncate]
            (secs as u32);
            let value = Secret::seal(value);
            cache.insert(copy_text(name), value.duplicate(), None, now);
            GetVerdict::Fetched { value, ttl_seconds }
        },
        BackendReply::Missing => GetVerdict::Missing,
        BackendReply::Failed(message) => GetVerdict::Failed(message),
        BackendReply::TimedOut => GetVerdict::TimedOut,
        BackendReply::Absent => GetVerdict::NoBackend,
    }
}

/// The value that a `get` brings, and the seconds that it has left.
pub open spec fn served(verdict: Verdict) -> Option<(Seq<char>, u32)> {
    match verdict {
        Verdict::Cached(value, ttl_seconds) => Some((value, ttl_seconds)),
        Verdict::Fetched(value, ttl_seconds) => Some((value, ttl_seconds)),
        _ => None,
    }
}

/// The code of a `get` that brings no value.
pub open spec fn refusal_code(verdict: Verdict) -> ProjectErrorCode {
    match verdict {
        Verdict::Denied => ProjectErrorCode::Denied,
        Verdict::Missing => ProjectErrorCode::NotFound,
        Verdict::TimedOut => ProjectErrorCode::BackendUnreachable,
        _ => ProjectErrorCode::BackendError,
    }
}

/// The message of a `get` of `name` that brings no value.
pub open spec fn refusal_text(verdict: Verdict, name: Seq<char>) -> Seq<char> {
    match verdict {
        Verdict::Denied => "Secret '"@ + name + "' is not in this project's allowlist."@,
        Verdict::Missing => "Backend has no secret named '"@ + name + "'."@,
        Verdict::Failed(message) => "fnox-core: "@ + message,
        Verdict::TimedOut => "Backend did not answer in time."@,
        _ => "No backend is configured; start the daemon with --fnox-config."@,
    }
}

/// The members of the answer to a `get`.
pub open spec fn answer_members(verdict: Verdict, name: Seq<char>) -> Seq<json::Member> {
    match served(verdict) {
        Some((value, ttl_seconds)) => seq![
            ("ok"@, json::bool_text(true)),
            ("value"@, json::quoted(value)),
            ("ttl_seconds"@, text::decimal(ttl_seconds as nat)),
        ],
        None => seq![
            ("ok"@, json::bool_text(false)),
            ("code"@, json::quoted(refusal_code(verdict).wire())),
            ("message"@, json::quoted(refusal_text(verdict, name))),
        ],
    }
}

/// Writes an error answer.
fn refuse(code: ProjectErrorCode, message: &str) -> (r: String)
    ensures
        r@ == json::object_text(
            seq![
                ("ok"@, json::bool_text(false)),
                ("code"@, json::quoted(code.wire())),
                ("message"@, json::quoted(message@)),
            ],
        ),
{
    ProjectError::new(code, message).to_json()
}

/// Writes an answer with a value.
fn serve(value: &Secret, ttl_seconds: u32) -> (r: String)
    ensures
        r@ == json::object_text(
            seq![
                ("ok"@, json::bool_text(true)),
                ("value"@, json::quoted(secret::secret_text(*value))),
                ("ttl_seconds"@, text::decimal(ttl_seconds as nat)),
            ],
        ),
{
    let response = GetResponse::utf8(value.expose(), ttl_seconds);
    assert(response.members() =~= seq![
        ("ok"@, json::bool_text(true)),
        ("value"@, json::quoted(secret::secret_text(*value))),
        ("ttl_seconds"@, text::decimal(ttl_seconds as nat)),
    ]);
    response.to_json()
}

impl GetVerdict {
    /// The answer to the `get` of `name` that ended like this.
    pub fn answer(&self, name: &str) -> (r: String)
        ensures
            r@ == json::object_text(answer_members(self@, name@)),
    {
        match self {
            GetVerdict::Denied => {
                let mut message = copy_text("Secret '");
                message.append(name);
                message.append("' is not in this project's allowlist.");
                refuse(ProjectErrorCode::Denied, message.as_str())
            },
            GetVerdict::Cached { value, ttl_seconds } => serve(value, *ttl_seconds),
            GetVerdict::Fetched { value, ttl_seconds } => serve(value, *ttl_seconds),
            GetVerdict::Missing => {
                let mut message = copy_text("Backend has no secret named '");
                message.append(name);
                message.append("'.");
                refuse(ProjectErrorCode::NotFound, message.as_str())
            },
            GetVerdict::Failed(reason) => {
                let mut message = copy_text("fnox-core: ");
                message.append(reason.as_str());
                refuse(ProjectErrorCode::BackendError, message.as_str())
            },
            GetVerdict::TimedOut => refuse(
                ProjectErrorCode::BackendUnreachable,
                "Backend did not answer in time.",
            ),
            GetVerdict::NoBackend => refuse(
                ProjectErrorCode::BackendError,
                "No backend is configured; start the daemon with --fnox-config.",
            ),
        }
    }
}

/// What the audit log says of a `get`: the decision, the outcome, where a value came from,
/// and why it was denied.
pub open spec fn audited(verdict: Verdict) -> (
    Decision,
    Outcome,
    Option<Seq<char>>,
    Option<Seq<char>>,
) {
    match verdict {
        Verdict::Denied => (Decision::Deny, Outcome::Success, None, Some("allowlist"@)),
        Verdict::Cached(_, _) => (Decision::Allow, Outcome::Success, Some("cache"@), None),
        Verdict::Fetched(_, _) => (Decision::Allow, Outcome::Success, Some("fnox"@), None),
        Verdict::Missing => (Decision::Allow, Outcome::NotFound, Some("fnox"@), None),
        Verdict::Failed(_) => (Decision::Allow, Outcome::BackendError, Some("fnox"@), None),
        Verdict::TimedOut => (Decision::Allow, Outcome::BackendUnreachable, Some("fnox"@), None),
        Verdict::NoBackend => (Decision::Allow, Outcome::BackendError, None, None),
    }
}

/// Who asked: what the socket tells of the process at its other end.
#[derive(Debug, Clone, Copy)]
pub struct Peer {
    pub pid: Option<i32>,
    pub uid: Option<u32>,
}

/// Whether `event` is what the audit log has to say of a `get`.
pub open spec fn tells(
    event: FetchEvent,
    verdict: Verdict,
    project: Seq<char>,
    name: Seq<char>,
    peer: Peer,
    timestamp: Timestamp,
    latency_ms: u32,
) -> bool {
    &&& event.timestamp == timestamp
    &&& event.project@ == project
    &&& event.secret_name@ == name
    &&& event.decision == audited(verdict).0
    &&& event.outcome == audited(verdict).1
    &&& event.peer_pid == peer.pid
    &&& event.peer_uid == peer.uid
    &&& event.latency_ms == latency_ms
    &&& text::optional_text(event.backend) == audited(verdict).2
    &&& text::optional_text(event.reason) == audited(verdict).3
}

impl GetVerdict {
    /// The event that the audit log gets of the `get` of `name` that ended like this.
    pub fn event(
        &self,
        project: &str,
        name: &str,
        peer: Peer,
        timestamp: Timestamp,
        latency_ms: u32,
    ) -> (r: AuditEvent)
        ensures
            r is Fetch,
            tells(r->Fetch_0, self@, project@, name@, peer, timestamp, latency_ms),
    {
        let (decision, outcome) = match self {
            GetVerdict::Denied => (Decision::Deny, Outcome::Success),
            GetVerdict::Cached { .. } => (Decision::Allow, Outcome::Success),
            GetVerdict::Fetched { .. } => (Decision::Allow, Outcome::Success),
            GetVerdict::Missing => (Decision::Allow, Outcome::NotFound),
            GetVerdict::Failed(_) => (Decision::Allow, Outcome::BackendError),
            GetVerdict::TimedOut => (Decision::Allow, Outcome::BackendUnreachable),
            GetVerdict::NoBackend => (Decision::Allow, Outcome::BackendError),
        };
        let backend = match self {
            GetVerdict::Denied => None,
            GetVerdict::Cached { .. } => Some(copy_text("cache")),
            GetVerdict::NoBackend => None,
            _ => Some(copy_text("fnox")),
        };
        let reason = match self {
            GetVerdict::Denied => Some(copy_text("allowlist")),
            _ => None,
        };
        AuditEvent::Fetch(
            FetchEvent {
                timestamp,
                project: copy_text(project),
                secret_name: copy_text(name),
                decision,
                outcome,
                peer_pid: peer.pid,
                peer_uid: peer.uid,
                latency_ms,
                backend,
                reason,
            },
        )
    }
}

/// The members of the answer to a `ping`.
pub open spec fn ping_members(broker_version: Seq<char>, project: Seq<char>) -> Seq<json::Member> {
    seq![
        ("ok"@, json::bool_text(true)),
        ("broker_version"@, json::quoted(broker_version)),
        ("protocol_version"@, text::decimal(proto::PROTOCOL_VERSION as nat)),
        ("project"@, json::quoted(project)),
    ]
}

/// The members of the answer to an `info`.
pub open spec fn info_members(manifest: ManifestModel) -> Seq<json::Member> {
    seq![
        ("ok"@, json::bool_text(true)),
        ("project"@, json::quoted(manifest.name)),
        ("allowlist"@, json::texts_array(manifest.secrets)),
        ("schema_version"@, text::decimal(manifest.schema_version as nat)),
    ]
}

/// Answers a `ping`.
pub fn answer_ping(broker_version: &str, project: &str) -> (r: String)
    ensures
        r@ == json::object_text(ping_members(broker_version@, project@)),
{
    PingResponse::new(broker_version, project).to_json()
}

/// Answers an `info`.
pub fn answer_info(manifest: &Manifest) -> (r: String)
    ensures
        r@ == json::object_text(info_members(manifest@)),
{
    InfoResponse::new(
        manifest.project.name.as_str(),
        copy_texts(&manifest.allowlist.secrets),
        manifest.schema_version,
    ).to_json()
}

/// Answers a message that is no request, with the reason why it is none.
pub fn answer_fault(reason: &str) -> (r: String)
    ensures
        r@ == json::object_text(
            seq![
                ("ok"@, json::bool_text(false)),
                ("code"@, json::quoted(ProjectErrorCode::ProtocolError.wire())),
                ("message"@, json::quoted("malformed request: "@ + reason@)),
            ],
        ),
{
    let mut message = copy_text("malformed request: ");
    message.append(reason);
    refuse(ProjectErrorCode::ProtocolError, message.as_str())
}

/// What a request on a project socket leads to.
#[derive(Debug)]
pub enum ProjectStep {
    /// This is the answer.
    Answer(String),
    /// A `get` of this name is over.
    Settled { name: String, verdict: GetVerdict },
    /// The backend has to be asked for this name.
    AskBackend { name: String },
}

/// Where a request leads, and what it leaves in the cache.
pub open spec fn stepped(
    manifest: ManifestModel,
    contents: CacheContents,
    project: Seq<char>,
    broker_version: Seq<char>,
    request: ProjectRequestView,
    now: Moment,
    step: ProjectStep,
) -> bool {
    match request {
        ProjectRequestView::Get(name) => match early_verdict(
            manifest.secrets,
            contents,
            name,
            now,
        ) {
            Some(verdict) => step is Settled && step->Settled_name@ == name
                && step->Settled_verdict@ == verdict,
            None => step is AskBackend && step->AskBackend_name@ == name,
        },
        ProjectRequestView::Ping => step is Answer && step->Answer_0@ == json::object_text(
            ping_members(broker_version, project),
        ),
        ProjectRequestView::Info => step is Answer && step->Answer_0@ == json::object_text(
            info_members(manifest),
        ),
    }
}

/// What a request leaves in the cache.
pub open spec fn stepped_contents(
    manifest: ManifestModel,
    contents: CacheContents,
    request: ProjectRequestView,
    now: Moment,
) -> CacheContents {
    match request {
        ProjectRequestView::Get(name) => early_contents(manifest.secrets, contents, name, now),
        _ => contents,
    }
}

/// Takes a request on a project socket.
pub fn dispatch_project(
    project: &str,
    manifest: &Manifest,
    cache: &mut BoundedCache,
    broker_version: &str,
    request: ProjectRequest,
    now: Moment,
) -> (r: ProjectStep)
    requires
        old(cache).wf(),
    ensures
        final(cache).wf(),
        final(cache).bound() == old(cache).bound(),
        final(cache).lifetime() == old(cache).lifetime(),
        final(cache)@ == stepped_contents(manifest@, old(cache)@, request@, now),
        stepped(manifest@, old(cache)@, project@, broker_version@, request@, now, r),
{
    match request {
        ProjectRequest::Get { name } => match begin_get(manifest, cache, name.as_str(), now) {
            Some(verdict) => ProjectStep::Settled { name, verdict },
            None => ProjectStep::AskBackend { name },
        },
        ProjectRequest::Ping => ProjectStep::Answer(answer_ping(broker_version, project)),
        ProjectRequest::Info => ProjectStep::Answer(answer_info(manifest)),
    }
}

/// A name that is not on the allowlist is denied: the backend is not asked, the cache stays
/// as it is, and no value goes out, whatever the cache holds.
pub proof fn denied_names_reach_nothing(
    allowlist: Seq<Seq<char>>,
    contents: CacheContents,
    name: Seq<char>,
    now: Moment,
)
    requires
        !allowlist.contains(name),
    ensures
        early_verdict(allowlist, contents, name, now) == Some(Verdict::Denied),
        early_contents(allowlist, contents, name, now) == contents,
        served(Verdict::Denied) is None,
        audited(Verdict::Denied).0 == Decision::Deny,
        audited(Verdict::Denied).3 == Some("allowlist"@),
{
}

/// A value goes out without the backend only where the allowlist has its name and the
/// cache has it within its time to live.
pub proof fn cached_values_are_allowed_and_alive(
    allowlist: Seq<Seq<char>>,
    contents: CacheContents,
    name: Seq<char>,
    now: Moment,
)
    ensures
        match early_verdict(allowlist, contents, name, now) {
            Some(Verdict::Cached(value, _)) => {
                &&& allowlist.contains(name)
                &&& contents.contains_key(name)
                &&& contents[name].value == value
                &&& !contents[name].expired(now)
            },
            Some(verdict) => verdict == Verdict::Denied && !allowlist.contains(name),
            None => allowlist.contains(name) && (contents.contains_key(name)
                ==> contents[name].expired(now)),
        },
{
}

/// A value that the backend gave is served from the cache from then on, without the
/// backend, while its time to live lasts and its name stays on the allowlist.
pub proof fn fetched_values_are_served_again(
    before: CacheContents,
    after: CacheContents,
    allowlist: Seq<Seq<char>>,
    name: Seq<char>,
    value: Seq<char>,
    bound: nat,
    lifetime: Span,
    fetched_at: Moment,
    now: Moment,
)
    requires
        cache::inserted(before, after, name, fetched_slot(value, fetched_at, lifetime), bound),
        allowlist.contains(name),
        !fetched_slot(value, fetched_at, lifetime).expired(now),
    ensures
        early_verdict(allowlist, after, name, now) == Some(
            Verdict::Cached(value, fetched_slot(value, fetched_at, lifetime).seconds_left(now)),
        ),
{
    cache::lookups_give_back_inserts(
        before,
        after,
        name,
        fetched_slot(value, fetched_at, lifetime),
        bound,
        now,
    );
}

/// What the audit log says of a `get` does not depend on the secret's value.
pub proof fn events_do_not_depend_on_values(
    value: Seq<char>,
    other: Seq<char>,
    ttl: u32,
    other_ttl: u32,
)
    ensures
        audited(Verdict::Cached(value, ttl)) == audited(Verdict::Cached(other, other_ttl)),
        audited(Verdict::Fetched(value, ttl)) == audited(Verdict::Fetched(other, other_ttl)),
{
}

/// Every answer to a `get` is one line, whatever the value, the name or the backend's
/// message holds.
pub proof fn answers_are_one_line(verdict: Verdict, name: Seq<char>)
    ensures
        json::one_line(json::object_text(answer_members(verdict, name))),
{
    let members = answer_members(verdict, name);
    match served(verdict) {
        Some((value, ttl_seconds)) => {
            json::bool_is_one_line(true);
            json::quoted_text_is_one_line(value);
            json::decimal_is_one_line(ttl_seconds as nat);
        },
        None => {
            json::bool_is_one_line(false);
            json::quoted_text_is_one_line(refusal_code(verdict).wire());
            json::quoted_text_is_one_line(refusal_text(verdict, name));
        },
    }
    json::object_is_one_line(members);
}

/// A project whose allowlist is empty is denied everything.
pub proof fn empty_allowlists_deny_everything(contents: CacheContents, name: Seq<char>, now: Moment)
    ensures
        early_verdict(Seq::empty(), contents, name, now) == Some(Verdict::Denied),
{
}

/// Once a value has expired, it takes the backend to serve the name again: whatever else
/// the backend says, or where it says nothing, no value goes out.
pub proof fn expired_values_need_the_backend(
    allowlist: Seq<Seq<char>>,
    contents: CacheContents,
    name: Seq<char>,
    now: Moment,
    reply: BackendReply,
    lifetime: Span,
)
    requires
        allowlist.contains(name),
        contents.contains_key(name) ==> contents[name].expired(now),
    ensures
        early_verdict(allowlist, contents, name, now) is None,
        served(late_verdict(reply, lifetime)) is Some <==> reply is Value,
        reply is TimedOut ==> refusal_code(late_verdict(reply, lifetime))
            == ProjectErrorCode::BackendUnreachable,
{
}

/// A `get` is denied exactly where the allowlist does not have the name. Where it does, it
/// ends at the cache exactly where the cache has held the name for less than its time to live,
/// with the whole value and the whole seconds that are left; otherwise the backend is asked.
pub proof fn gets_end_at_the_allowlist_or_the_cache(
    allowlist: Seq<Seq<char>>,
    contents: CacheContents,
    name: Seq<char>,
    now: Moment,
)
    ensures
        ({
            let slot = contents[name];
            let held = if slot.fetched_at.nanos <= now.nanos {
                now.nanos - slot.fetched_at.nanos
            } else {
                0
            };
            let left = slot.ttl.nanos - held;
            let allowed = exists|i: int| 0 <= i < allowlist.len() && #[trigger] allowlist[i] == name;
            let verdict = early_verdict(allowlist, contents, name, now);
            &&& verdict == Some(Verdict::Denied) <==> !allowed
            &&& verdict is Some && verdict->0 is Cached <==> allowed && contents.contains_key(name)
                && left > 0
            &&& verdict is Some && verdict->0 is Cached ==> verdict->0->Cached_0 == slot.value
            &&& verdict is Some && verdict->0 is Cached ==> verdict->0->Cached_1 == (left
                / 1_000_000_000) % 4_294_967_296
            &&& verdict is Some && verdict->0 is Cached && left < 4_294_967_296_000_000_000
                ==> verdict->0->Cached_1 * 1_000_000_000 <= left < (verdict->0->Cached_1 + 1)
                * 1_000_000_000
            &&& verdict is Some ==> verdict->0 is Denied || verdict->0 is Cached
        }),
{
    cache::lookups_find_what_is_alive(contents, name, now);
}

/// A `get` leaves in the cache what was there, but for an entry of the name that it asked for,
/// that the allowlist has, and whose time to live is over.
pub proof fn gets_drop_only_what_is_over(
    allowlist: Seq<Seq<char>>,
    contents: CacheContents,
    name: Seq<char>,
    other: Seq<char>,
    now: Moment,
)
    ensures
        ({
            let left = early_contents(allowlist, contents, name, now);
            let slot = contents[name];
            let over = now.nanos >= slot.fetched_at.nanos + slot.ttl.nanos || slot.ttl.nanos == 0;
            let allowed = exists|i: int| 0 <= i < allowlist.len() && #[trigger] allowlist[i] == name;
            &&& left.contains_key(other) <==> contents.contains_key(other) && !(other == name
                && allowed && over)
            &&& left.contains_key(other) ==> left[other] == contents[other]
        }),
{
    cache::lookups_drop_only_what_is_over(contents, name, other, now);
}

/// What the backend said is what a `get` ends with: its value as it is, for the whole seconds
/// of the cache's lifetime, or the one way of having none that it named.
pub proof fn the_backend_settles_what_it_is_asked(reply: BackendReply, lifetime: Span)
    ensures
        ({
            let verdict = late_verdict(reply, lifetime);
            &&& verdict is Fetched <==> reply is Value
            &&& reply is Value ==> verdict->Fetched_0 == reply->Value_0@
            &&& reply is Value ==> verdict->Fetched_1 == (lifetime.nanos as int / 1_000_000_000)
                % 4_294_967_296
            &&& reply is Value && lifetime.nanos < 4_294_967_296_000_000_000
                ==> verdict->Fetched_1 * 1_000_000_000 <= lifetime.nanos < (verdict->Fetched_1 + 1)
                * 1_000_000_000
            &&& reply is Missing <==> verdict is Missing
            &&& reply is Failed <==> verdict is Failed
            &&& reply is Failed ==> verdict->Failed_0 == reply->Failed_0@
            &&& reply is TimedOut <==> verdict is TimedOut
            &&& reply is Absent <==> verdict is NoBackend
        }),
{
    crate::clock::counts_are_cut_to_their_width((lifetime.nanos / 1_000_000_000) as u128);
}

/// What the backend gave is kept as it is, from the moment that it came, for the cache's
/// lifetime.
pub proof fn fetched_values_are_kept_whole(value: Seq<char>, now: Moment, lifetime: Span)
    ensures
        fetched_slot(value, now, lifetime).value == value,
        fetched_slot(value, now, lifetime).fetched_at.nanos == now.nanos,
        fetched_slot(value, now, lifetime).ttl.nanos == lifetime.nanos,
{
}

/// The answer to a `get` that brings a value is the value between quotes and the seconds that
/// it has left, and nothing depends on whether the cache or the backend had it.
pub proof fn values_go_out_whole(value: Seq<char>, ttl_seconds: u32, name: Seq<char>)
    ensures
        json::object_text(answer_members(Verdict::Cached(value, ttl_seconds), name))
            == "{\"ok\":true,\"value\":"@ + json::quoted(value) + ",\"ttl_seconds\":"@
            + text::decimal(ttl_seconds as nat) + "}"@,
        json::object_text(answer_members(Verdict::Fetched(value, ttl_seconds), name))
            == "{\"ok\":true,\"value\":"@ + json::quoted(value) + ",\"ttl_seconds\":"@
            + text::decimal(ttl_seconds as nat) + "}"@,
{
    reveal_strlit("{\"ok\":true,\"value\":");
    reveal_strlit(",\"ttl_seconds\":");
    reveal_strlit("{");
    reveal_strlit("}");
    reveal_strlit(",");
    reveal_strlit(":");
    reveal_strlit("ok");
    reveal_strlit("true");
    reveal_strlit("value");
    reveal_strlit("ttl_seconds");
    json::plain_texts_are_quoted_as_they_are("ok"@);
    json::plain_texts_are_quoted_as_they_are("value"@);
    json::plain_texts_are_quoted_as_they_are("ttl_seconds"@);
    let expected = "{\"ok\":true,\"value\":"@ + json::quoted(value) + ",\"ttl_seconds\":"@
        + text::decimal(ttl_seconds as nat) + "}"@;
    let none = Seq::<json::Member>::empty();
    let one = seq![("ok"@, json::bool_text(true))];
    let two = one.push(("value"@, json::quoted(value)));
    let three = two.push(("ttl_seconds"@, text::decimal(ttl_seconds as nat)));
    json::objects_hold_their_members(none, "ok"@, json::bool_text(true));
    json::objects_hold_their_members(one, "value"@, json::quoted(value));
    json::objects_hold_their_members(two, "ttl_seconds"@, text::decimal(ttl_seconds as nat));
    assert(json::object_text(three) =~= expected);
    assert(answer_members(Verdict::Cached(value, ttl_seconds), name) =~= three);
    assert(answer_members(Verdict::Fetched(value, ttl_seconds), name) =~= three);
}

/// Two answers that bring values differ where the values differ in anything, or where the
/// seconds that are left do.
pub proof fn answers_tell_values_apart(
    a: Verdict,
    b: Verdict,
    value: Seq<char>,
    other: Seq<char>,
    ttl: u32,
    other_ttl: u32,
    name: Seq<char>,
    other_name: Seq<char>,
)
    requires
        a == Verdict::Cached(value, ttl) || a == Verdict::Fetched(value, ttl),
        b == Verdict::Cached(other, other_ttl) || b == Verdict::Fetched(other, other_ttl),
    ensures
        answer_members(a, name)[1].1 == answer_members(b, other_name)[1].1 <==> value == other,
        answer_members(a, name)[2].1 == answer_members(b, other_name)[2].1 <==> ttl == other_ttl,
        answer_members(a, name)[1] == ("value"@, json::quoted(value)),
{
    if json::quoted(value) == json::quoted(other) {
        json::quoted_texts_tell_texts(value, other);
    }
    text::decimals_tell_numbers(ttl as nat, other_ttl as nat);
}

/// A value that a `get` fetched is what every `get` of the name brings from the cache while
/// the time to live lasts: the two answers carry the same value, and at the moment of the
/// fetch they are the same answer.
pub proof fn the_cache_answers_as_the_backend_did(
    before: CacheContents,
    after: CacheContents,
    allowlist: Seq<Seq<char>>,
    name: Seq<char>,
    value: String,
    bound: nat,
    lifetime: Span,
    fetched_at: Moment,
    now: Moment,
)
    requires
        before.dom().finite(),
        cache::inserted(before, after, name, fetched_slot(value@, fetched_at, lifetime), bound),
        allowlist.contains(name),
        fetched_at.nanos <= now.nanos < fetched_at.nanos + lifetime.nanos,
    ensures
        ({
            let first = late_verdict(BackendReply::Value(value), lifetime);
            let second = early_verdict(allowlist, after, name, now);
            &&& second is Some
            &&& answer_members(second->0, name)[1] == answer_members(first, name)[1]
            &&& answer_members(first, name)[1].1 == json::quoted(value@)
            &&& now == fetched_at ==> answer_members(second->0, name) == answer_members(first, name)
        }),
{
    cache::inserts_keep_all_but_the_oldest(
        before,
        after,
        name,
        fetched_slot(value@, fetched_at, lifetime),
        bound,
    );
    gets_end_at_the_allowlist_or_the_cache(allowlist, after, name, now);
    let i = choose|i: int| 0 <= i < allowlist.len() && allowlist[i] == name;
    assert(allowlist[i] == name);
}

/// A `get` that brings no value is answered by the code and the words of what went wrong.
pub proof fn refusals_say_what_went_wrong(name: Seq<char>, message: Seq<char>)
    ensures
        refusal_code(Verdict::Denied) == ProjectErrorCode::Denied,
        refusal_code(Verdict::Missing) == ProjectErrorCode::NotFound,
        refusal_code(Verdict::Failed(message)) == ProjectErrorCode::BackendError,
        refusal_code(Verdict::TimedOut) == ProjectErrorCode::BackendUnreachable,
        refusal_code(Verdict::NoBackend) == ProjectErrorCode::BackendError,
        refusal_text(Verdict::Denied, name) == "Secret '"@ + name
            + "' is not in this project's allowlist."@,
        refusal_text(Verdict::Missing, name) == "Backend has no secret named '"@ + name + "'."@,
        refusal_text(Verdict::Failed(message), name) == "fnox-core: "@ + message,
        refusal_text(Verdict::TimedOut, name) == "Backend did not answer in time."@,
        refusal_text(Verdict::NoBackend, name)
            == "No backend is configured; start the daemon with --fnox-config."@,
{
}

/// The answer to a `get` that brings no value says that it is not well, by which code and in
/// which words, and nothing else.
pub proof fn refusals_go_out_whole(verdict: Verdict, name: Seq<char>)
    requires
        !(verdict is Cached),
        !(verdict is Fetched),
    ensures
        answer_members(verdict, name) == seq![
            ("ok"@, "false"@),
            ("code"@, json::quoted(refusal_code(verdict).wire())),
            ("message"@, json::quoted(refusal_text(verdict, name))),
        ],
        served(verdict) is None,
{
}

/// The audit log says `deny` exactly of a `get` whose name was not allowed, and gives a reason
/// exactly then. Of a `get` that handed out a value it says `allow`, a success, and whether it
/// came from the cache; of any other, what the answer says too.
pub proof fn the_log_says_what_was_answered(verdict: Verdict)
    ensures
        ({
            let (decision, outcome, backend, reason) = audited(verdict);
            let brings = verdict is Cached || verdict is Fetched;
            &&& decision == Decision::Deny <==> verdict is Denied
            &&& decision == Decision::Deny || decision == Decision::Allow
            &&& reason is Some <==> decision == Decision::Deny
            &&& reason is Some ==> reason == Some("allowlist"@)
            &&& brings <==> served(verdict) is Some
            &&& brings ==> decision == Decision::Allow && outcome == Outcome::Success
            &&& decision == Decision::Allow && outcome == Outcome::Success ==> brings
            &&& verdict is Denied ==> outcome == Outcome::Success && refusal_code(verdict)
                == ProjectErrorCode::Denied
            &&& outcome == Outcome::NotFound <==> !brings && refusal_code(verdict)
                == ProjectErrorCode::NotFound
            &&& outcome == Outcome::BackendError <==> !brings && refusal_code(verdict)
                == ProjectErrorCode::BackendError
            &&& outcome == Outcome::BackendUnreachable <==> !brings && refusal_code(verdict)
                == ProjectErrorCode::BackendUnreachable
            &&& outcome == Outcome::NotFound <==> verdict is Missing
            &&& outcome == Outcome::BackendUnreachable <==> verdict is TimedOut
            &&& outcome == Outcome::BackendError <==> verdict is Failed || verdict is NoBackend
            &&& backend == Some("cache"@) <==> verdict is Cached
            &&& backend is None <==> verdict is Denied || verdict is NoBackend
            &&& backend is Some && !(verdict is Cached) ==> backend == Some("fnox"@)
        }),
{
    reveal_strlit("cache");
    reveal_strlit("fnox");
    assert("cache"@.len() != "fnox"@.len());
}

/// What is served is the value and the seconds of the verdict, as they are.
pub proof fn what_is_served_is_what_was_found(value: Seq<char>, ttl_seconds: u32)
    ensures
        served(Verdict::Cached(value, ttl_seconds)) == Some((value, ttl_seconds)),
        served(Verdict::Fetched(value, ttl_seconds)) == Some((value, ttl_seconds)),
{
}

/// The event of a `get` tells whose it was, what it asked for, who asked, when and how long it
/// took, each as it was, beside how it ended.
pub proof fn events_tell_who_asked_for_what(
    event: FetchEvent,
    verdict: Verdict,
    project: Seq<char>,
    name: Seq<char>,
    peer: Peer,
    timestamp: Timestamp,
    latency_ms: u32,
)
    requires
        tells(event, verdict, project, name, peer, timestamp, latency_ms),
    ensures
        event.timestamp.unix_nanos == timestamp.unix_nanos,
        event.project@ == project,
        event.secret_name@ == name,
        event.peer_pid == peer.pid,
        event.peer_uid == peer.uid,
        event.latency_ms == latency_ms,
        event.decision == Decision::Deny <==> verdict is Denied,
        event.outcome == Outcome::Success <==> verdict is Denied || verdict is Cached || verdict
            is Fetched,
        event.outcome == Outcome::NotFound <==> verdict is Missing,
        event.outcome == Outcome::BackendUnreachable <==> verdict is TimedOut,
        event.reason is Some <==> verdict is Denied,
        verdict is Denied ==> event.reason->0@ == "allowlist"@,
        event.backend is Some <==> !(verdict is Denied || verdict is NoBackend),
        verdict is Cached ==> event.backend->0@ == "cache"@,
        event.backend is Some && !(verdict is Cached) ==> event.backend->0@ == "fnox"@,
{
    text::optional_texts_are_told(event.backend);
    text::optional_texts_are_told(event.reason);
}

/// `ping` is answered by the broker's version, the protocol's and the project's name, and
/// `info` by what the manifest says.
pub proof fn pings_and_infos_go_out_whole(
    broker_version: Seq<char>,
    project: Seq<char>,
    manifest: ManifestModel,
)
    ensures
        ping_members(broker_version, project) == seq![
            ("ok"@, "true"@),
            ("broker_version"@, json::quoted(broker_version)),
            ("protocol_version"@, "1"@),
            ("project"@, json::quoted(project)),
        ],
        info_members(manifest).len() == 4,
        info_members(manifest)[0] == ("ok"@, "true"@),
        info_members(manifest)[1] == ("project"@, json::quoted(manifest.name)),
        info_members(manifest)[2] == ("allowlist"@, json::texts_array(manifest.secrets)),
        info_members(manifest)[3] == (
            "schema_version"@,
            text::decimal(manifest.schema_version as nat),
        ),
{
    reveal_strlit("1");
    text::decimals_are_positional(0, 1);
    assert(text::decimal(1) =~= "1"@);
}

/// Where a request leads: a `get` to what the allowlist and the cache make of it, or to the
/// backend, always under the name that was asked for; `ping` and `info` to their answers, which
/// leave the cache as it is.
pub proof fn requests_lead_where_they_ask_to(
    manifest: ManifestModel,
    contents: CacheContents,
    project: Seq<char>,
    broker_version: Seq<char>,
    request: ProjectRequestView,
    now: Moment,
    step: ProjectStep,
)
    requires
        stepped(manifest, contents, project, broker_version, request, now, step),
    ensures
        match request {
            ProjectRequestView::Get(name) => {
                &&& step is Settled || step is AskBackend
                &&& step is Settled ==> step->Settled_name@ == name
                &&& step is AskBackend ==> step->AskBackend_name@ == name
                &&& step is Settled && step->Settled_verdict@ is Denied
                    <==> !manifest.secrets.contains(name)
                &&& step is Settled ==> step->Settled_verdict@ is Denied || step->Settled_verdict@
                    is Cached
                &&& step is Settled && step->Settled_verdict@ is Cached ==> contents.contains_key(
                    name,
                ) && step->Settled_verdict@->Cached_0 == contents[name].value && now.nanos
                    < contents[name].fetched_at.nanos + contents[name].ttl.nanos
                &&& step is AskBackend <==> early_verdict(manifest.secrets, contents, name, now)
                    is None
                &&& step is Settled ==> early_verdict(manifest.secrets, contents, name, now)
                    == Some(step->Settled_verdict@)
                &&& stepped_contents(manifest, contents, request, now) == early_contents(
                    manifest.secrets,
                    contents,
                    name,
                    now,
                )
            },
            ProjectRequestView::Ping => {
                &&& step is Answer && step->Answer_0@ == json::object_text(
                    ping_members(broker_version, project),
                )
                &&& stepped_contents(manifest, contents, request, now) == contents
            },
            ProjectRequestView::Info => {
                &&& step is Answer && step->Answer_0@ == json::object_text(info_members(manifest))
                &&& stepped_contents(manifest, contents, request, now) == contents
            },
        },
{
}

/// A verdict is told as what it is, with all that it holds.
pub proof fn verdicts_are_told_whole(verdict: GetVerdict)
    ensures
        match verdict {
            GetVerdict::Denied => verdict@ == Verdict::Denied,
            GetVerdict::Cached { value, ttl_seconds } => verdict@ == Verdict::Cached(
                secret::secret_text(value),
                ttl_seconds,
            ),
            GetVerdict::Fetched { value, ttl_seconds } => verdict@ == Verdict::Fetched(
                secret::secret_text(value),
                ttl_seconds,
            ),
            GetVerdict::Missing => verdict@ == Verdict::Missing,
            GetVerdict::Failed(message) => verdict@ == Verdict::Failed(message@),
            GetVerdict::TimedOut => verdict@ == Verdict::TimedOut,
            GetVerdict::NoBackend => verdict@ == Verdict::NoBackend,
        },
{
}

} // verus!
