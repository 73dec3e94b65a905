//! Daemon harness and admin socket.
//!
//! The daemon makes its socket directory, binds the admin socket, tells its supervisor that
//! it is ready, and serves until it is told to end. The doing is its caller's; what is to be
//! done, and what the admin socket answers, is decided here.
//!
//! Of the operations of the admin socket only `status` is served; the others are answered
//! with `internal_error`.

use crate::audit::{AuditEvent, ShutdownEvent, Timestamp};
use crate::clock::{self, Moment};
use crate::config::{BootstrapModel, BootstrapSource, Config};
use crate::fetch::{self, answer_fault, GetVerdict, ProjectStep};
use crate::json;
use crate::message;
use crate::paths::{self, join};
use crate::proto::admin::{
    self, AdminError, AdminErrorCode, AdminRequest, AdminRequestView, BootstrapMode, StatusResponse,
};
use crate::proto::project::{self, ProjectErrorCode, ProjectRequest, ProjectRequestView};
use crate::proto::{self, WireCode, MAX_MESSAGE_BYTES};
use crate::registry::{ProjectModel, ProjectRegistry};
use crate::sockets::{SocketFault, SocketFaultView};
use crate::text::{self, copy_text, decimal_text};
use vstd::prelude::*;
use vstd::string::*;

verus! {

/// The version that the broker tells of itself.
pub const BROKER_VERSION: &'static str = "0.1.0";

/// How long the daemon waits for connections to end once it is told to end.
pub const SHUTDOWN_DRAIN_MS: u64 = 5_000;

/// How long the daemon waits after a connection could not be accepted.
pub const ACCEPT_BACKOFF_MS: u64 = 50;

pub const ADMIN_SOCKET_NAME: &'static str = "admin.sock";

pub const ADMIN_SOCKET_MODE: u32 = 0o600;

pub const SOCKET_DIR_MODE: u32 = 0o755;

/// Why the daemon could not be set up.
#[derive(Debug)]
pub enum ServerError {
    CreateSocketDir { path: String, message: String },
    BindAdminSocket { path: String, message: String },
    AdminSocketPerms { path: String, message: String },
    SignalHandler(String),
}

/// The model of a `ServerError`.
pub enum ServerFault {
    CreateSocketDir(Seq<char>, Seq<char>),
    BindAdminSocket(Seq<char>, Seq<char>),
    AdminSocketPerms(Seq<char>, Seq<char>),
    SignalHandler(Seq<char>),
}

impl View for ServerError {
    type V = ServerFault;

    open spec fn view(&self) -> ServerFault {
        match *self {
            ServerError::CreateSocketDir { path, message } => ServerFault::CreateSocketDir(
                path@,
                message@,
            ),
            ServerError::BindAdminSocket { path, message } => ServerFault::BindAdminSocket(
                path@,
                message@,
            ),
            ServerError::AdminSocketPerms { path, message } => ServerFault::AdminSocketPerms(
                path@,
                message@,
            ),
            ServerError::SignalHandler(message) => ServerFault::SignalHandler(message@),
        }
    }
}

/// What is to be done next in the daemon's life.
#[derive(Debug, Clone, Copy, PartialEq, Eq, Structural)]
pub enum ServerStep {
    /// Make the socket directory and what leads to it.
    CreateSocketDir,
    /// Set the socket directory's mode, as far as that can be done.
    SetDirMode,
    /// Bind the admin socket, step by step.
    BindAdminSocket,
    /// Tell the supervisor that the daemon is ready.
    NotifyReady,
    /// Listen for the signals that end the daemon.
    InstallSignals,
    /// Wait for a connection or for the end.
    Accept,
    /// Hand the connection to a task of its own.
    Serve,
    /// Wait a little, so that a lasting failure to accept does not keep the daemon busy.
    Backoff,
    /// Tell the supervisor that the daemon is ending.
    NotifyStopping,
    /// Wait for the connections to end, up to the limit, then end them.
    Drain,
    /// Remove the admin socket.
    RemoveSocket,
    /// Write the last event and let the audit log's writer end.
    FlushAudit,
}

/// What came of a step.
#[derive(Debug)]
pub enum ServerEvent {
    Done,
    Failed(String),
    /// The admin socket could not be bound.
    BindFailed(SocketFault),
    /// There is a connection.
    Connection,
    /// The daemon is told to end.
    Terminated,
}

/// How the daemon goes on.
#[derive(Debug)]
pub enum ServerTurn {
    Next(ServerStep),
    Finished,
    Failed(ServerError),
}

/// The model of a `ServerTurn`.
pub enum ServerTurnView {
    Next(ServerStep),
    Finished,
    Failed(ServerFault),
}

impl View for ServerTurn {
    type V = ServerTurnView;

    open spec fn view(&self) -> ServerTurnView {
        match *self {
            ServerTurn::Next(step) => ServerTurnView::Next(step),
            ServerTurn::Finished => ServerTurnView::Finished,
            ServerTurn::Failed(e) => ServerTurnView::Failed(e@),
        }
    }
}

/// Where a step leads. What cannot be done at setup ends the daemon; what cannot be done
/// later does not. An event that a step does not bring leaves the daemon where it is.
pub open spec fn server_turn(
    socket_dir: Seq<char>,
    step: ServerStep,
    event: ServerEvent,
) -> ServerTurnView {
    match step {
        ServerStep::CreateSocketDir => match event {
            ServerEvent::Done => ServerTurnView::Next(ServerStep::SetDirMode),
            ServerEvent::Failed(message) => ServerTurnView::Failed(
                ServerFault::CreateSocketDir(socket_dir, message@),
            ),
            _ => ServerTurnView::Next(step),
        },
        ServerStep::SetDirMode => ServerTurnView::Next(ServerStep::BindAdminSocket),
        ServerStep::BindAdminSocket => match event {
            ServerEvent::Done => ServerTurnView::Next(ServerStep::NotifyReady),
            ServerEvent::BindFailed(fault) => ServerTurnView::Failed(
                match fault@ {
                    SocketFaultView::Bind(message) => ServerFault::BindAdminSocket(
                        admin_socket(socket_dir),
                        message,
                    ),
                    SocketFaultView::Mode(message) => ServerFault::AdminSocketPerms(
                        admin_socket(socket_dir),
                        message,
                    ),
                },
            ),
            _ => ServerTurnView::Next(step),
        },
        ServerStep::NotifyReady => ServerTurnView::Next(ServerStep::InstallSignals),
        ServerStep::InstallSignals => match event {
            ServerEvent::Done => ServerTurnView::Next(ServerStep::Accept),
            ServerEvent::Failed(message) => ServerTurnView::Failed(
                ServerFault::SignalHandler(message@),
            ),
            _ => ServerTurnView::Next(step),
        },
        ServerStep::Accept => match event {
            ServerEvent::Connection => ServerTurnView::Next(ServerStep::Serve),
            ServerEvent::Failed(_) => ServerTurnView::Next(ServerStep::Backoff),
            ServerEvent::Terminated => ServerTurnView::Next(ServerStep::NotifyStopping),
            _ => ServerTurnView::Next(step),
        },
        ServerStep::Serve => ServerTurnView::Next(ServerStep::Accept),
        ServerStep::Backoff => ServerTurnView::Next(ServerStep::Accept),
        ServerStep::NotifyStopping => ServerTurnView::Next(ServerStep::Drain),
        ServerStep::Drain => ServerTurnView::Next(ServerStep::RemoveSocket),
        ServerStep::RemoveSocket => ServerTurnView::Next(ServerStep::FlushAudit),
        ServerStep::FlushAudit => ServerTurnView::Finished,
    }
}

/// Where the admin socket stands.
pub open spec fn admin_socket(socket_dir: Seq<char>) -> Seq<char> {
    paths::joined(socket_dir, ADMIN_SOCKET_NAME@)
}

/// What the daemon's admin socket needs to know.
#[derive(Debug)]
pub struct Server {
    config: Config,
    broker_version: String,
    started_at: Moment,
}

/// The model of a `Server`.
pub struct ServerModel {
    pub bootstrap: BootstrapModel,
    pub socket_dir: Seq<char>,
    pub broker_version: Seq<char>,
    pub started_at: Moment,
}

impl View for Server {
    type V = ServerModel;

    closed spec fn view(&self) -> ServerModel {
        ServerModel {
            bootstrap: self.config.bootstrap@,
            socket_dir: self.config.socket_dir@,
            broker_version: self.broker_version@,
            started_at: self.started_at,
        }
    }
}

/// The bootstrap mode that `status` tells.
pub open spec fn mode_of(source: BootstrapModel) -> BootstrapMode {
    match source {
        BootstrapModel::File(_) => BootstrapMode::File,
        BootstrapModel::Imds => BootstrapMode::Imds,
        BootstrapModel::Env => BootstrapMode::Env,
    }
}

/// Tells the bootstrap mode of a source.
pub fn bootstrap_mode(source: &BootstrapSource) -> (r: BootstrapMode)
    ensures
        r == mode_of(source@),
{
    match source {
        BootstrapSource::File { .. } => BootstrapMode::File,
        BootstrapSource::Imds => BootstrapMode::Imds,
        BootstrapSource::Env => BootstrapMode::Env,
    }
}

/// The whole seconds from one moment to another, as the 64-bit number that goes out.
pub open spec fn uptime(started_at: Moment, now: Moment) -> u64 {
    (now.since(started_at).nanos / clock::NANOS_PER_SECOND) as u64
}

/// The members of an error answer.
pub open spec fn admin_error_members(code: AdminErrorCode, message: Seq<char>) -> Seq<
    json::Member,
> {
    seq![
        ("ok"@, json::bool_text(false)),
        ("code"@, json::quoted(code.wire())),
        ("message"@, json::quoted(message)),
    ]
}

/// The members of the answer to an admin request.
pub open spec fn admin_answer(server: ServerModel, request: AdminRequestView, now: Moment) -> Seq<
    json::Member,
> {
    match request {
        AdminRequestView::Status => seq![
            ("ok"@, json::bool_text(true)),
            ("broker_version"@, json::quoted(server.broker_version)),
            ("protocol_version"@, text::decimal(proto::PROTOCOL_VERSION as nat)),
            ("uptime_seconds"@, text::decimal(uptime(server.started_at, now) as nat)),
            ("bootstrap_mode"@, json::quoted(mode_of(server.bootstrap).wire())),
            ("projects"@, json::array_text(Seq::empty())),
        ],
        _ => admin_error_members(
            AdminErrorCode::InternalError,
            "operation not yet implemented in this build"@,
        ),
    }
}

/// Answers an admin request.
pub fn dispatch_admin(server: &Server, request: AdminRequest, now: Moment) -> (r: String)
    ensures
        r@ == json::object_text(admin_answer(server@, request@, now)),
{
    match request {
        AdminRequest::Status => {
            let secs: u128 = now.duration_since(server.started_at).as_secs();
            let uptime_seconds: u64 = #[verifier::truncate]
            (secs as u64);
            let response = StatusResponse::new(
                server.broker_version.as_str(),
                uptime_seconds,
                bootstrap_mode(&server.config.bootstrap),
                Vec::new(),
            );
            assert(admin::projects_json(response.projects@) =~= Seq::empty());
            assert(response.members() =~= admin_answer(server@, request@, now));
            response.to_json()
        },
        _ => AdminError::new(
            AdminErrorCode::InternalError,
            "operation not yet implemented in this build",
        ).to_json(),
    }
}

/// What reading one message from a connection came to.
#[derive(Debug, Clone, Copy, PartialEq, Eq, Structural)]
pub enum LineRead {
    /// There are no more messages.
    Eof,
    /// The message is longer than a message may be.
    Oversized,
    /// There is a message.
    Line,
}

/// What the bytes mean that were read up to a line break, to the limit or to the end,
/// whichever came first.
pub open spec fn line_read(bytes: Seq<u8>, max_bytes: nat) -> LineRead {
    if bytes.len() == 0 {
        LineRead::Eof
    } else if bytes.len() == max_bytes && bytes.last() != 10 {
        LineRead::Oversized
    } else {
        LineRead::Line
    }
}

/// Sorts out the bytes that were read from a connection up to a line break, to `max_bytes`
/// or to the end, whichever came first.
pub fn read_line_capped(bytes: &[u8], max_bytes: usize) -> (r: LineRead)
    ensures
        r == line_read(bytes@, max_bytes as nat),
{
    if bytes.len() == 0 {
        LineRead::Eof
    } else if bytes.len() == max_bytes && bytes[bytes.len() - 1] != 10 {
        LineRead::Oversized
    } else {
        LineRead::Line
    }
}

/// What a connection does next.
#[derive(Debug)]
pub enum ConnectionTurn {
    Close,
    /// Send this and read on.
    Reply(String),
    /// Send this, then close.
    ReplyAndClose(String),
}

/// What is told to a caller whose message, or the answer to it, is too long.
pub open spec fn oversized_text(what: Seq<char>) -> Seq<char> {
    what + " exceeds max message size of "@ + text::decimal(MAX_MESSAGE_BYTES as nat) + " bytes"@
}

/// The line that tells a caller of a protocol error; it is the same on both sockets.
pub open spec fn protocol_error_line(message: Seq<char>) -> Seq<char> {
    json::object_text(admin_error_members(AdminErrorCode::ProtocolError, message)) + seq!['\n']
}

/// The line that tells a caller that a message is too long.
pub open spec fn oversized_line(what: Seq<char>) -> Seq<char> {
    protocol_error_line(oversized_text(what))
}

/// Whether a line, line break and all, is no longer than a message may be.
pub open spec fn fits(line: Seq<char>) -> bool {
    vstd::utf8::encode_utf8(line).len() <= MAX_MESSAGE_BYTES
}

/// Whether `turn` sends `answer` as one line, or says that it is too long, and closes.
pub open spec fn delivers(turn: ConnectionTurn, answer: Seq<char>) -> bool {
    if fits(answer + seq!['\n']) {
        turn is Reply && turn->Reply_0@ == answer + seq!['\n']
    } else {
        turn is ReplyAndClose && turn->ReplyAndClose_0@ == oversized_line("response"@)
    }
}

/// The answer to what a message on the admin socket asks for.
pub open spec fn admin_reply(
    server: ServerModel,
    request: Result<AdminRequestView, Seq<char>>,
    now: Moment,
) -> Seq<char> {
    json::object_text(
        match request {
            Ok(request) => admin_answer(server, request, now),
            Err(reason) => admin_error_members(
                AdminErrorCode::ProtocolError,
                "malformed request: "@ + reason,
            ),
        },
    )
}

fn with_line_break(s: String) -> (r: String)
    ensures
        r@ == s@ + seq!['\n'],
{
    proof {
        reveal_strlit("\n");
        assert("\n"@ =~= seq!['\n']);
    }
    let mut r = s;
    r.append("\n");
    r
}

/// Says that a message, or the answer to it, is too long.
fn say_oversized(what: &str) -> (r: String)
    ensures
        r@ == oversized_line(what@),
{
    let mut message = copy_text(what);
    message.append(" exceeds max message size of ");
    message.append(decimal_text(MAX_MESSAGE_BYTES as u64).as_str());
    message.append(" bytes");
    let error = AdminError::new(AdminErrorCode::ProtocolError, message.as_str());
    with_line_break(error.to_json())
}

/// Sends an answer as one line. Where that is longer than a message may be, the caller is
/// told so instead, and the connection closes.
pub fn deliver(answer: String) -> (r: ConnectionTurn)
    ensures
        delivers(r, answer@),
{
    let line = with_line_break(answer);
    if line.as_str().as_bytes().len() <= MAX_MESSAGE_BYTES {
        ConnectionTurn::Reply(line)
    } else {
        ConnectionTurn::ReplyAndClose(say_oversized("response"))
    }
}

/// Answers what a message on the admin socket asks for, or why it asks for nothing.
pub fn answer_admin(server: &Server, request: Result<AdminRequest, String>, now: Moment) -> (r:
    ConnectionTurn)
    ensures
        delivers(
            r,
            admin_reply(
                server@,
                match request {
                    Ok(request) => Ok(request@),
                    Err(reason) => Err(reason@),
                },
                now,
            ),
        ),
{
    let response = match request {
        Ok(request) => dispatch_admin(server, request, now),
        Err(reason) => {
            let mut message = copy_text("malformed request: ");
            message.append(reason.as_str());
            AdminError::new(AdminErrorCode::ProtocolError, message.as_str()).to_json()
        },
    };
    deliver(response)
}

/// Takes what was read from a connection to the admin socket and tells what to do. Every
/// message is answered, and one that a request was written as gets the answer to that
/// request; one that is too long is the connection's last. `diagnosis` is what the caller's
/// decoder of requests has to say against the message, and goes out where it is refused.
pub fn handle_admin_connection(
    server: &Server,
    bytes: &[u8],
    diagnosis: Option<String>,
    now: Moment,
) -> (r: ConnectionTurn)
    ensures
        match line_read(bytes@, MAX_MESSAGE_BYTES as nat) {
            LineRead::Eof => r is Close,
            LineRead::Oversized => r is ReplyAndClose && r->ReplyAndClose_0@ == oversized_line(
                "admin request"@,
            ),
            LineRead::Line => delivers(
                r,
                admin_reply(
                    server@,
                    message::understood(
                        admin::admin_request(bytes@),
                        text::optional_text(diagnosis),
                    ),
                    now,
                ),
            ),
        },
        forall|request: AdminRequestView|
            message::is_written(bytes@, #[trigger] request.pairs()) && line_read(
                bytes@,
                MAX_MESSAGE_BYTES as nat,
            ) != LineRead::Oversized ==> delivers(r, admin_reply(server@, Ok(request), now)),
{
    proof {
        assert forall|request: AdminRequestView| message::is_written(
            bytes@,
            #[trigger] request.pairs(),
        ) implies line_read(bytes@, MAX_MESSAGE_BYTES as nat) != LineRead::Eof by {
            message::encoded_objects_are_lines(request.pairs());
        }
    }
    match read_line_capped(bytes, MAX_MESSAGE_BYTES) {
        LineRead::Eof => ConnectionTurn::Close,
        LineRead::Oversized => ConnectionTurn::ReplyAndClose(say_oversized("admin request")),
        LineRead::Line => {
            let request = match AdminRequest::from_slice(bytes) {
                Ok(request) => Ok(request),
                Err(fault) => Err(fault.reason(diagnosis)),
            };
            answer_admin(server, request, now)
        },
    }
}

/// What a connection to a project socket does next.
#[derive(Debug)]
pub enum ProjectTurn {
    /// Do this with the connection. A project that has gone closes it.
    Connection(ConnectionTurn),
    /// A `get` of this name is over: deliver its answer and log its event.
    Settled { name: String, verdict: GetVerdict },
    /// Ask the backend for this name, and hand what it says to the registry.
    AskBackend { name: String },
}

/// Whether `turn` sends `answer`.
pub open spec fn project_delivers(turn: ProjectTurn, answer: Seq<char>) -> bool {
    turn is Connection && delivers(turn->Connection_0, answer)
}

/// Whether `turn` closes the connection.
pub open spec fn project_closes(turn: ProjectTurn) -> bool {
    turn is Connection && turn->Connection_0 is Close
}

/// The members of an error answer on a project socket.
pub open spec fn project_error_members(code: ProjectErrorCode, message: Seq<char>) -> Seq<
    json::Member,
> {
    seq![
        ("ok"@, json::bool_text(false)),
        ("code"@, json::quoted(code.wire())),
        ("message"@, json::quoted(message)),
    ]
}

/// The answer to a message on a project socket that is no request.
pub open spec fn project_fault(reason: Seq<char>) -> Seq<char> {
    json::object_text(
        project_error_members(
            ProjectErrorCode::ProtocolError,
            "malformed request: "@ + reason,
        ),
    )
}

/// Whether `turn` is what a request to the project `before` asks of its connection.
pub open spec fn carries_on(
    before: ProjectModel,
    project: Seq<char>,
    broker_version: Seq<char>,
    request: ProjectRequestView,
    now: Moment,
    turn: ProjectTurn,
) -> bool {
    match request {
        ProjectRequestView::Get(name) => match fetch::early_verdict(
            before.manifest.secrets,
            before.cache,
            name,
            now,
        ) {
            Some(verdict) => turn is Settled && turn->Settled_name@ == name
                && turn->Settled_verdict@ == verdict,
            None => turn is AskBackend && turn->AskBackend_name@ == name,
        },
        ProjectRequestView::Ping => project_delivers(
            turn,
            json::object_text(fetch::ping_members(broker_version, project)),
        ),
        ProjectRequestView::Info => project_delivers(
            turn,
            json::object_text(fetch::info_members(before.manifest)),
        ),
    }
}

/// Whether `turn` answers a message on the socket of `project`, and `after` is what it
/// leaves of the projects.
pub open spec fn project_answered(
    before: Map<Seq<char>, ProjectModel>,
    after: Map<Seq<char>, ProjectModel>,
    project: Seq<char>,
    broker_version: Seq<char>,
    request: Result<ProjectRequestView, Seq<char>>,
    now: Moment,
    turn: ProjectTurn,
) -> bool {
    match request {
        Err(reason) => project_delivers(turn, project_fault(reason)) && after == before,
        Ok(request) => if !before.contains_key(project) {
            project_closes(turn) && after == before
        } else {
            &&& carries_on(before[project], project, broker_version, request, now, turn)
            &&& after == before.insert(
                project,
                ProjectModel {
                    cache: fetch::stepped_contents(
                        before[project].manifest,
                        before[project].cache,
                        request,
                        now,
                    ),
                    ..before[project]
                },
            )
        },
    }
}

/// Answers what a message on the socket of `project` asks for, or why it asks for nothing.
/// A project that has gone answers nothing.
pub fn answer_project(
    registry: &mut ProjectRegistry,
    project: &str,
    broker_version: &str,
    request: Result<ProjectRequest, String>,
    now: Moment,
) -> (r: ProjectTurn)
    requires
        old(registry).wf(),
    ensures
        final(registry).wf(),
        final(registry).config() == old(registry).config(),
        project_answered(
            old(registry)@,
            final(registry)@,
            project@,
            broker_version@,
            match request {
                Ok(request) => Ok(request@),
                Err(reason) => Err(reason@),
            },
            now,
            r,
        ),
{
    let request = match request {
        Err(reason) => return ProjectTurn::Connection(deliver(answer_fault(reason.as_str()))),
        Ok(request) => request,
    };
    match registry.dispatch(project, broker_version, request, now) {
        None => ProjectTurn::Connection(ConnectionTurn::Close),
        Some(ProjectStep::Answer(answer)) => ProjectTurn::Connection(deliver(answer)),
        Some(ProjectStep::Settled { name, verdict }) => ProjectTurn::Settled { name, verdict },
        Some(ProjectStep::AskBackend { name }) => ProjectTurn::AskBackend { name },
    }
}

/// Takes what was read from a connection to the socket of `project` and tells what to do.
/// Every message is answered, and one that a request was written as gets the answer to that
/// request; one that is too long is the connection's last. `diagnosis` is what the caller's
/// decoder of requests has to say against the message, and goes out where it is refused.
pub fn handle_project_connection(
    registry: &mut ProjectRegistry,
    project: &str,
    broker_version: &str,
    bytes: &[u8],
    diagnosis: Option<String>,
    now: Moment,
) -> (r: ProjectTurn)
    requires
        old(registry).wf(),
    ensures
        final(registry).wf(),
        final(registry).config() == old(registry).config(),
        match line_read(bytes@, MAX_MESSAGE_BYTES as nat) {
            LineRead::Eof => project_closes(r) && final(registry)@ == old(registry)@,
            LineRead::Oversized => {
                &&& r is Connection && r->Connection_0 is ReplyAndClose
                &&& r->Connection_0->ReplyAndClose_0@ == oversized_line("project request"@)
                &&& final(registry)@ == old(registry)@
            },
            LineRead::Line => project_answered(
                old(registry)@,
                final(registry)@,
                project@,
                broker_version@,
                message::understood(
                    project::project_request(bytes@),
                    text::optional_text(diagnosis),
                ),
                now,
                r,
            ),
        },
        forall|request: ProjectRequestView|
            message::is_written(bytes@, #[trigger] request.pairs()) && line_read(
                bytes@,
                MAX_MESSAGE_BYTES as nat,
            ) != LineRead::Oversized ==> project_answered(
            old(registry)@,
            final(registry)@,
            project@,
            broker_version@,
            Ok(request),
            now,
            r,
        ),
{
    proof {
        assert forall|request: ProjectRequestView| message::is_written(
            bytes@,
            #[trigger] request.pairs(),
        ) implies line_read(bytes@, MAX_MESSAGE_BYTES as nat) != LineRead::Eof by {
            message::encoded_objects_are_lines(request.pairs());
        }
    }
    match read_line_capped(bytes, MAX_MESSAGE_BYTES) {
        LineRead::Eof => ProjectTurn::Connection(ConnectionTurn::Close),
        LineRead::Oversized => ProjectTurn::Connection(
            ConnectionTurn::ReplyAndClose(say_oversized("project request")),
        ),
        LineRead::Line => {
            let request = match ProjectRequest::from_slice(bytes) {
                Ok(request) => Ok(request),
                Err(fault) => Err(fault.reason(diagnosis)),
            };
            answer_project(registry, project, broker_version, request, now)
        },
    }
}

impl Server {
    /// A daemon with this configuration that starts now.
    pub fn new(config: Config, broker_version: &str, started_at: Moment) -> (r: Server)
        ensures
            r@.bootstrap == config.bootstrap@,
            r@.socket_dir == config.socket_dir@,
            r@.broker_version == broker_version@,
            r@.started_at == started_at,
    {
        Server { config, broker_version: copy_text(broker_version), started_at }
    }

    /// Where the admin socket stands.
    pub fn admin_socket_path(&self) -> (r: String)
        ensures
            r@ == admin_socket(self@.socket_dir),
    {
        join(self.config.socket_dir.as_str(), ADMIN_SOCKET_NAME)
    }

    /// The directory that the sockets stand in.
    pub fn socket_dir(&self) -> (r: &str)
        ensures
            r@ == self@.socket_dir,
    {
        self.config.socket_dir.as_str()
    }

    /// Takes what came of a step of the daemon's life and tells how to go on. A life starts
    /// with `CreateSocketDir`.
    pub fn advance(&self, step: ServerStep, event: ServerEvent) -> (r: ServerTurn)
        ensures
            r@ == server_turn(self@.socket_dir, step, event),
    {
        match step {
            ServerStep::CreateSocketDir => match event {
                ServerEvent::Done => ServerTurn::Next(ServerStep::SetDirMode),
                ServerEvent::Failed(message) => ServerTurn::Failed(
                    ServerError::CreateSocketDir {
                        path: copy_text(self.config.socket_dir.as_str()),
                        message,
                    },
                ),
                _ => ServerTurn::Next(step),
            },
            ServerStep::SetDirMode => ServerTurn::Next(ServerStep::BindAdminSocket),
            ServerStep::BindAdminSocket => match event {
                ServerEvent::Done => ServerTurn::Next(ServerStep::NotifyReady),
                ServerEvent::BindFailed(fault) => ServerTurn::Failed(
                    bind_error(self.admin_socket_path(), fault),
                ),
                _ => ServerTurn::Next(step),
            },
            ServerStep::NotifyReady => ServerTurn::Next(ServerStep::InstallSignals),
            ServerStep::InstallSignals => match event {
                ServerEvent::Done => ServerTurn::Next(ServerStep::Accept),
                ServerEvent::Failed(message) => ServerTurn::Failed(
                    ServerError::SignalHandler(message),
                ),
                _ => ServerTurn::Next(step),
            },
            ServerStep::Accept => match event {
                ServerEvent::Connection => ServerTurn::Next(ServerStep::Serve),
                ServerEvent::Failed(_) => ServerTurn::Next(ServerStep::Backoff),
                ServerEvent::Terminated => ServerTurn::Next(ServerStep::NotifyStopping),
                _ => ServerTurn::Next(step),
            },
            ServerStep::Serve => ServerTurn::Next(ServerStep::Accept),
            ServerStep::Backoff => ServerTurn::Next(ServerStep::Accept),
            ServerStep::NotifyStopping => ServerTurn::Next(ServerStep::Drain),
            ServerStep::Drain => ServerTurn::Next(ServerStep::RemoveSocket),
            ServerStep::RemoveSocket => ServerTurn::Next(ServerStep::FlushAudit),
            ServerStep::FlushAudit => ServerTurn::Finished,
        }
    }
}

/// The failure of a daemon whose admin socket could not be bound.
fn bind_error(path: String, fault: SocketFault) -> (r: ServerError)
    ensures
        r@ == match fault@ {
            SocketFaultView::Bind(message) => ServerFault::BindAdminSocket(path@, message),
            SocketFaultView::Mode(message) => ServerFault::AdminSocketPerms(path@, message),
        },
{
    match fault {
        SocketFault::Bind(message) => ServerError::BindAdminSocket { path, message },
        SocketFault::Mode(message) => ServerError::AdminSocketPerms { path, message },
    }
}

/// The last event of the audit log: the daemon was told to end.
pub fn shutdown_event(timestamp: Timestamp, events_dropped: u64) -> (r: AuditEvent)
    ensures
        r is Shutdown,
        r->Shutdown_0.timestamp == timestamp,
        r->Shutdown_0.reason@ == "sigterm"@,
        r->Shutdown_0.events_dropped == events_dropped,
        r->Shutdown_0.events_in_degraded_buffer == 0,
{
    AuditEvent::Shutdown(
        ShutdownEvent {
            timestamp,
            reason: copy_text("sigterm"),
            events_dropped,
            events_in_degraded_buffer: 0,
        },
    )
}

/// Every message on the admin socket is answered with exactly one line.
pub proof fn admin_answers_are_one_line(
    server: ServerModel,
    request: Result<AdminRequestView, Seq<char>>,
    now: Moment,
)
    ensures
        json::one_line(admin_reply(server, request, now)),
{
    match request {
        Ok(request) => {
            if request is Status {
                json::bool_is_one_line(true);
                json::quoted_text_is_one_line(server.broker_version);
                json::decimal_is_one_line(proto::PROTOCOL_VERSION as nat);
                json::decimal_is_one_line(uptime(server.started_at, now) as nat);
                json::quoted_text_is_one_line(mode_of(server.bootstrap).wire());
                json::array_is_one_line(Seq::empty());
                json::object_is_one_line(admin_answer(server, request, now));
            } else {
                lemma_error_is_one_line(
                    AdminErrorCode::InternalError,
                    "operation not yet implemented in this build"@,
                );
            }
        },
        Err(reason) => {
            lemma_error_is_one_line(
                AdminErrorCode::ProtocolError,
                "malformed request: "@ + reason,
            );
        },
    }
}

/// Nothing that goes out is longer than a message may be, and all of it is whole lines: an
/// answer that is one line goes out as one, or one goes out in its place.
pub proof fn deliveries_are_lines_that_fit(turn: ConnectionTurn, answer: Seq<char>)
    requires
        delivers(turn, answer),
        json::one_line(answer),
    ensures
        match turn {
            ConnectionTurn::Close => false,
            ConnectionTurn::Reply(line) => fits(line@) && line@.last() == '\n' && json::one_line(
                line@.drop_last(),
            ),
            ConnectionTurn::ReplyAndClose(line) => fits(line@) && line@.last() == '\n'
                && json::one_line(line@.drop_last()),
        },
{
    reveal_strlit("response");
    oversized_lines_fit("response"@);
    if let ConnectionTurn::Reply(line) = turn {
        assert(line@.drop_last() =~= answer);
    }
}

/// The line that says that a message is too long is one line, and not too long itself.
pub proof fn oversized_lines_fit(what: Seq<char>)
    requires
        what.len() <= 100,
    ensures
        fits(oversized_line(what)),
        oversized_line(what).last() == '\n',
        json::one_line(oversized_line(what).drop_last()),
{
    reveal_strlit(" exceeds max message size of ");
    reveal_strlit(" bytes");
    reveal_strlit("ok");
    reveal_strlit("code");
    reveal_strlit("message");
    reveal_strlit("false");
    reveal_strlit("protocol_error");
    let code = AdminErrorCode::ProtocolError;
    let message = oversized_text(what);
    let members = admin_error_members(code, message);
    let object = json::object_text(members);
    lemma_error_is_one_line(code, message);
    assert(oversized_line(what).drop_last() =~= object);
    assert(text::decimal(MAX_MESSAGE_BYTES as nat).len() == 5) by {
        reveal_with_fuel(text::decimal, 5);
    }
    assert(message.len() <= 200);
    json::quoting_adds_little("ok"@);
    json::quoting_adds_little("code"@);
    json::quoting_adds_little("message"@);
    json::quoting_adds_little(code.wire());
    json::quoting_adds_little(message);
    let two = members.drop_last();
    let one = two.drop_last();
    assert(one =~= seq![members[0]]);
    assert(two.last() == members[1]);
    assert(json::members_text(one) == json::member_text(members[0]));
    assert(json::members_text(two) == json::members_text(one) + seq![','] + json::member_text(
        members[1],
    ));
    assert(json::members_text(members) == json::members_text(two) + seq![','] + json::member_text(
        members[2],
    ));
    assert(object.len() <= 2000);
    text::encoding_adds_little(oversized_line(what));
}

proof fn lemma_error_is_one_line(code: AdminErrorCode, message: Seq<char>)
    ensures
        json::one_line(json::object_text(admin_error_members(code, message))),
{
    json::bool_is_one_line(false);
    json::quoted_text_is_one_line(code.wire());
    json::quoted_text_is_one_line(message);
    json::object_is_one_line(admin_error_members(code, message));
}

/// A message that is no request, and an operation that there is not, are answered with
/// `protocol_error` on both sockets. The connection goes on, unless the answer would be too
/// long; then the answer is that.
pub proof fn malformed_requests_get_a_protocol_error(
    server: ServerModel,
    reason: Seq<char>,
    now: Moment,
    turn: ConnectionTurn,
)
    requires
        delivers(turn, admin_reply(server, Err(reason), now)) || delivers(
            turn,
            project_fault(reason),
        ),
    ensures
        ({
            let line = protocol_error_line("malformed request: "@ + reason);
            if fits(line) {
                turn is Reply && turn->Reply_0@ == line
            } else {
                turn is ReplyAndClose && turn->ReplyAndClose_0@ == oversized_line("response"@)
            }
        }),
{
    let message = "malformed request: "@ + reason;
    assert(project_error_members(ProjectErrorCode::ProtocolError, message)
        =~= admin_error_members(AdminErrorCode::ProtocolError, message));
}

/// Whether a step belongs to the setting up of the daemon.
pub open spec fn is_setup(step: ServerStep) -> bool {
    ||| step == ServerStep::CreateSocketDir
    ||| step == ServerStep::SetDirMode
    ||| step == ServerStep::BindAdminSocket
    ||| step == ServerStep::NotifyReady
    ||| step == ServerStep::InstallSignals
}

/// Whether a step belongs to the serving of connections.
pub open spec fn is_serving(step: ServerStep) -> bool {
    ||| step == ServerStep::Accept
    ||| step == ServerStep::Serve
    ||| step == ServerStep::Backoff
}

/// The daemon fails only while it is set up. Once it serves, it goes on serving until it is
/// told to end, whatever goes wrong; from then on it accepts nothing and ends.
pub proof fn a_serving_daemon_ends_only_when_told(
    socket_dir: Seq<char>,
    step: ServerStep,
    event: ServerEvent,
)
    ensures
        ({
            let turn = server_turn(socket_dir, step, event);
            &&& turn is Failed ==> is_setup(step)
            &&& is_serving(step) && !(step == ServerStep::Accept && event is Terminated) ==> turn
                is Next && is_serving(turn->Next_0)
            &&& step == ServerStep::Accept && event is Terminated ==> turn == ServerTurnView::Next(
                ServerStep::NotifyStopping,
            )
            &&& !is_setup(step) && !is_serving(step) ==> turn is Finished || (turn is Next
                && !is_setup(turn->Next_0) && !is_serving(turn->Next_0))
        }),
{
}

/// How many steps an ending daemon has left.
pub open spec fn steps_left(step: ServerStep) -> nat {
    match step {
        ServerStep::NotifyStopping => 4,
        ServerStep::Drain => 3,
        ServerStep::RemoveSocket => 2,
        ServerStep::FlushAudit => 1,
        _ => 0,
    }
}

/// A daemon that is ending gets nearer its end with every step, whatever comes of the step:
/// it drains its connections, removes its socket and writes its last event, in that order.
pub proof fn an_ending_daemon_ends(socket_dir: Seq<char>, step: ServerStep, event: ServerEvent)
    requires
        !is_setup(step),
        !is_serving(step),
    ensures
        match server_turn(socket_dir, step, event) {
            ServerTurnView::Finished => steps_left(step) == 1,
            ServerTurnView::Next(next) => steps_left(next) == steps_left(step) - 1,
            ServerTurnView::Failed(_) => false,
        },
{
}

/// The uptime that `status` tells is the whole number of seconds since the start, as far as a
/// number of 64 bits holds it, and it never falls as the clock goes on.
pub proof fn uptime_counts_whole_seconds(started_at: Moment, now: Moment, later: Moment)
    requires
        started_at.nanos <= now.nanos <= later.nanos,
    ensures
        uptime(started_at, now) as int == ((now.nanos - started_at.nanos) / 1_000_000_000)
            % 18_446_744_073_709_551_616,
        now.nanos - started_at.nanos < 18_446_744_073_709_551_616_000_000_000 ==> uptime(
            started_at,
            now,
        ) * 1_000_000_000 <= now.nanos - started_at.nanos < (uptime(started_at, now) + 1)
            * 1_000_000_000,
        later.nanos - started_at.nanos < 18_446_744_073_709_551_616_000_000_000 ==> uptime(
            started_at,
            now,
        ) <= uptime(started_at, later),
        uptime(now, started_at) == 0,
        uptime(now, now) == 0,
{
    lemma_uptime(started_at, now);
    lemma_uptime(started_at, later);
    lemma_uptime(started_at, started_at);
}

proof fn lemma_uptime(started_at: Moment, now: Moment)
    requires
        started_at.nanos <= now.nanos,
    ensures
        uptime(started_at, now) as int == ((now.nanos - started_at.nanos) / 1_000_000_000)
            % 18_446_744_073_709_551_616,
        now.nanos - started_at.nanos < 18_446_744_073_709_551_616_000_000_000 ==> uptime(
            started_at,
            now,
        ) as int == (now.nanos - started_at.nanos) / 1_000_000_000,
{
    clock::counts_are_cut_to_their_width(
        ((now.nanos - started_at.nanos) / 1_000_000_000) as u128,
    );
}

/// `status` is answered by the broker's version as it is, the protocol's, the whole seconds
/// since the start, and the name of the source that the token came from; every other operation
/// by the same error.
pub proof fn status_tells_version_uptime_and_mode(
    server: ServerModel,
    request: AdminRequestView,
    now: Moment,
)
    ensures
        ({
            let answer = admin_answer(server, AdminRequestView::Status, now);
            let elapsed = now.nanos - server.started_at.nanos;
            &&& answer.len() == 6
            &&& answer[0] == ("ok"@, "true"@)
            &&& answer[1] == ("broker_version"@, json::quoted(server.broker_version))
            &&& answer[2] == ("protocol_version"@, "1"@)
            &&& answer[3].0 == "uptime_seconds"@
            &&& elapsed <= 0 ==> answer[3].1 == text::decimal(0)
            &&& elapsed >= 0 ==> answer[3].1 == text::decimal(
                (elapsed / 1_000_000_000 % 18_446_744_073_709_551_616) as nat,
            )
            &&& 0 <= elapsed < 18_446_744_073_709_551_616_000_000_000 ==> answer[3].1
                == text::decimal((elapsed / 1_000_000_000) as nat)
            &&& answer[4].0 == "bootstrap_mode"@
            &&& server.bootstrap is File ==> answer[4].1 == json::quoted("file"@)
            &&& server.bootstrap is Imds ==> answer[4].1 == json::quoted("imds"@)
            &&& server.bootstrap is Env ==> answer[4].1 == json::quoted("env"@)
            &&& answer[5] == ("projects"@, "[]"@)
        }),
        !(request is Status) ==> admin_answer(server, request, now) == seq![
            ("ok"@, "false"@),
            ("code"@, json::quoted("internal_error"@)),
            ("message"@, json::quoted("operation not yet implemented in this build"@)),
        ],
{
    reveal_strlit("1");
    text::decimals_are_positional(0, 1);
    assert(text::decimal(1) =~= "1"@);
    if server.started_at.nanos <= now.nanos {
        lemma_uptime(server.started_at, now);
    } else {
        uptime_counts_whole_seconds(now, server.started_at, server.started_at);
    }
    json::arrays_hold_their_items(Seq::empty(), Seq::empty());
}

/// A message is there where bytes are, and it is too long exactly where it fills the limit
/// without coming to a line break.
pub proof fn messages_end_at_a_line_break(bytes: Seq<u8>, max_bytes: nat)
    ensures
        line_read(bytes, max_bytes) == LineRead::Eof <==> bytes.len() == 0,
        line_read(bytes, max_bytes) == LineRead::Oversized <==> bytes.len() > 0 && bytes.len()
            == max_bytes && bytes[bytes.len() - 1] != 10,
        line_read(bytes, max_bytes) == LineRead::Line <==> bytes.len() > 0 && !(bytes.len()
            == max_bytes && bytes[bytes.len() - 1] != 10),
{
}

/// An answer goes out as it is, with a line break behind it, where that takes 65536 bytes at
/// most, and the connection goes on; a longer one is replaced by an error that says so, and the
/// connection closes.
pub proof fn answers_go_out_as_they_are(turn: ConnectionTurn, answer: Seq<char>)
    requires
        delivers(turn, answer),
    ensures
        ({
            let line = answer.push('\n');
            let size = vstd::utf8::encode_utf8(line).len();
            &&& size <= 65_536 <==> turn is Reply
            &&& size > 65_536 <==> turn is ReplyAndClose
            &&& turn is Reply ==> turn->Reply_0@ == line
            &&& turn is ReplyAndClose ==> turn->ReplyAndClose_0@ == json::object_text(
                seq![
                    ("ok"@, "false"@),
                    ("code"@, json::quoted("protocol_error"@)),
                    (
                        "message"@,
                        json::quoted("response exceeds max message size of 65536 bytes"@),
                    ),
                ],
            ) + "\n"@
        }),
{
    assert(answer + seq!['\n'] =~= answer.push('\n'));
    lemma_oversized_text("response"@);
    reveal_strlit("\n");
    assert("\n"@ =~= seq!['\n']);
    reveal_strlit("response");
    reveal_strlit(" exceeds max message size of 65536 bytes");
    reveal_strlit("response exceeds max message size of 65536 bytes");
    assert("response"@ + " exceeds max message size of 65536 bytes"@
        =~= "response exceeds max message size of 65536 bytes"@);
}

/// A message that is too long is answered by an error that says which limit it passed.
pub proof fn long_messages_are_told_the_limit(what: Seq<char>)
    ensures
        oversized_line(what) == json::object_text(
            seq![
                ("ok"@, "false"@),
                ("code"@, json::quoted("protocol_error"@)),
                ("message"@, json::quoted(what + " exceeds max message size of 65536 bytes"@)),
            ],
        ) + "\n"@,
{
    lemma_oversized_text(what);
    reveal_strlit("\n");
    assert("\n"@ =~= seq!['\n']);
}

proof fn lemma_oversized_text(what: Seq<char>)
    ensures
        oversized_text(what) == what + " exceeds max message size of 65536 bytes"@,
{
    reveal_strlit(" exceeds max message size of ");
    reveal_strlit(" bytes");
    reveal_strlit(" exceeds max message size of 65536 bytes");
    text::decimals_are_positional(0, 6);
    text::decimals_are_positional(6, 5);
    text::decimals_are_positional(65, 5);
    text::decimals_are_positional(655, 3);
    text::decimals_are_positional(6553, 6);
    let d1 = text::decimal(6);
    let d2 = text::decimal(65);
    let d3 = text::decimal(655);
    let d4 = text::decimal(6553);
    let d5 = text::decimal(65536);
    assert(d1 =~= seq!['6']);
    assert(d2 =~= d1.push('5'));
    assert(d3 =~= d2.push('5'));
    assert(d4 =~= d3.push('3'));
    assert(d5 =~= d4.push('6'));
    assert(d5 =~= seq!['6', '5', '5', '3', '6']);
    assert(oversized_text(what) =~= what + " exceeds max message size of 65536 bytes"@);
}

/// What is no request is answered by `protocol_error` and the reason, as it is.
pub proof fn reasons_go_out_as_they_are(server: ServerModel, reason: Seq<char>, now: Moment)
    ensures
        admin_reply(server, Err(reason), now) == json::object_text(
            seq![
                ("ok"@, "false"@),
                ("code"@, json::quoted("protocol_error"@)),
                ("message"@, json::quoted("malformed request: "@ + reason)),
            ],
        ),
        project_fault(reason) == admin_reply(server, Err(reason), now),
{
    let members = seq![
        ("ok"@, "false"@),
        ("code"@, json::quoted("protocol_error"@)),
        ("message"@, json::quoted("malformed request: "@ + reason)),
    ];
    assert(admin_error_members(AdminErrorCode::ProtocolError, "malformed request: "@ + reason)
        =~= members);
    assert(project_error_members(ProjectErrorCode::ProtocolError, "malformed request: "@ + reason)
        =~= members);
}

/// A request is answered by what the operation says, whatever else was asked before.
pub proof fn requests_get_their_answers(server: ServerModel, request: AdminRequestView, now: Moment)
    ensures
        admin_reply(server, Ok(request), now) == json::object_text(
            admin_answer(server, request, now),
        ),
{
}

/// A message on a project's socket is answered for that project alone: what is no request by an
/// error, a request by what the project's manifest and cache make of it. Only the cache of the
/// project changes, and no other project does. A project that has gone closes the connection.
pub proof fn project_messages_concern_their_project(
    before: Map<Seq<char>, ProjectModel>,
    after: Map<Seq<char>, ProjectModel>,
    project: Seq<char>,
    other: Seq<char>,
    broker_version: Seq<char>,
    request: Result<ProjectRequestView, Seq<char>>,
    now: Moment,
    turn: ProjectTurn,
)
    requires
        project_answered(before, after, project, broker_version, request, now, turn),
    ensures
        after.contains_key(other) <==> before.contains_key(other),
        other != project && before.contains_key(other) ==> after[other] == before[other],
        request is Err ==> after == before && turn is Connection && delivers(
            turn->Connection_0,
            project_fault(request->Err_0),
        ),
        request is Ok && !before.contains_key(project) ==> after == before && turn is Connection
            && turn->Connection_0 is Close,
        request is Ok && before.contains_key(project) ==> {
            let model = before[project];
            &&& after[project].manifest == model.manifest
            &&& after[project].project_path == model.project_path
            &&& after[project].socket_path == model.socket_path
            &&& after[project].manifest_path == model.manifest_path
            &&& after[project].cache_bound == model.cache_bound
            &&& after[project].cache_lifetime == model.cache_lifetime
            &&& match request->Ok_0 {
                ProjectRequestView::Get(name) => {
                    let early = fetch::early_verdict(
                        model.manifest.secrets,
                        model.cache,
                        name,
                        now,
                    );
                    &&& after[project].cache == fetch::early_contents(
                        model.manifest.secrets,
                        model.cache,
                        name,
                        now,
                    )
                    &&& early is Some <==> turn is Settled
                    &&& early is None <==> turn is AskBackend
                    &&& turn is Settled ==> turn->Settled_name@ == name && turn->Settled_verdict@
                        == early->0
                    &&& turn is AskBackend ==> turn->AskBackend_name@ == name
                },
                ProjectRequestView::Ping => after[project].cache == model.cache && turn is Connection
                    && delivers(
                    turn->Connection_0,
                    json::object_text(fetch::ping_members(broker_version, project)),
                ),
                ProjectRequestView::Info => after[project].cache == model.cache && turn is Connection
                    && delivers(
                    turn->Connection_0,
                    json::object_text(fetch::info_members(model.manifest)),
                ),
            }
        },
{
}

/// The daemon is set up in its order: the directory, its mode, the admin socket, the word to the
/// supervisor, the signals; then it serves. What goes wrong is told with the path that it went
/// wrong at.
pub proof fn the_daemon_is_set_up_in_order(
    socket_dir: Seq<char>,
    event: ServerEvent,
    message: String,
)
    ensures
        server_turn(socket_dir, ServerStep::CreateSocketDir, ServerEvent::Done)
            == ServerTurnView::Next(ServerStep::SetDirMode),
        server_turn(socket_dir, ServerStep::SetDirMode, event) == ServerTurnView::Next(
            ServerStep::BindAdminSocket,
        ),
        server_turn(socket_dir, ServerStep::BindAdminSocket, ServerEvent::Done)
            == ServerTurnView::Next(ServerStep::NotifyReady),
        server_turn(socket_dir, ServerStep::NotifyReady, event) == ServerTurnView::Next(
            ServerStep::InstallSignals,
        ),
        server_turn(socket_dir, ServerStep::InstallSignals, ServerEvent::Done)
            == ServerTurnView::Next(ServerStep::Accept),
        server_turn(socket_dir, ServerStep::Accept, ServerEvent::Connection)
            == ServerTurnView::Next(ServerStep::Serve),
        server_turn(socket_dir, ServerStep::Serve, event) == ServerTurnView::Next(
            ServerStep::Accept,
        ),
        server_turn(socket_dir, ServerStep::Accept, ServerEvent::Failed(message))
            == ServerTurnView::Next(ServerStep::Backoff),
        server_turn(socket_dir, ServerStep::Backoff, event) == ServerTurnView::Next(
            ServerStep::Accept,
        ),
        server_turn(socket_dir, ServerStep::CreateSocketDir, ServerEvent::Failed(message))
            == ServerTurnView::Failed(ServerFault::CreateSocketDir(socket_dir, message@)),
        server_turn(
            socket_dir,
            ServerStep::BindAdminSocket,
            ServerEvent::BindFailed(SocketFault::Bind(message)),
        ) == ServerTurnView::Failed(
            ServerFault::BindAdminSocket(paths::joined(socket_dir, "admin.sock"@), message@),
        ),
        server_turn(
            socket_dir,
            ServerStep::BindAdminSocket,
            ServerEvent::BindFailed(SocketFault::Mode(message)),
        ) == ServerTurnView::Failed(
            ServerFault::AdminSocketPerms(paths::joined(socket_dir, "admin.sock"@), message@),
        ),
        server_turn(socket_dir, ServerStep::InstallSignals, ServerEvent::Failed(message))
            == ServerTurnView::Failed(ServerFault::SignalHandler(message@)),
        server_turn(socket_dir, ServerStep::NotifyStopping, event) == ServerTurnView::Next(
            ServerStep::Drain,
        ),
        server_turn(socket_dir, ServerStep::Drain, event) == ServerTurnView::Next(
            ServerStep::RemoveSocket,
        ),
        server_turn(socket_dir, ServerStep::RemoveSocket, event) == ServerTurnView::Next(
            ServerStep::FlushAudit,
        ),
        server_turn(socket_dir, ServerStep::FlushAudit, event) is Finished,
        admin_socket(socket_dir) == paths::joined(socket_dir, "admin.sock"@),
{
}

/// A daemon that is told to end while it waits for a connection begins to; one that is brought
/// an event that its step does not know stays where it is.
pub proof fn unexpected_events_change_nothing(
    socket_dir: Seq<char>,
    event: ServerEvent,
    error: ServerError,
    turn: ServerTurn,
)
    ensures
        server_turn(socket_dir, ServerStep::Accept, ServerEvent::Terminated)
            == ServerTurnView::Next(ServerStep::NotifyStopping),
        event is Done || event is BindFailed ==> server_turn(socket_dir, ServerStep::Accept, event)
            == ServerTurnView::Next(ServerStep::Accept),
        !(event is Done) && !(event is Failed) ==> server_turn(
            socket_dir,
            ServerStep::CreateSocketDir,
            event,
        ) == ServerTurnView::Next(ServerStep::CreateSocketDir),
        !(event is Done) && !(event is BindFailed) ==> server_turn(
            socket_dir,
            ServerStep::BindAdminSocket,
            event,
        ) == ServerTurnView::Next(ServerStep::BindAdminSocket),
        !(event is Done) && !(event is Failed) ==> server_turn(
            socket_dir,
            ServerStep::InstallSignals,
            event,
        ) == ServerTurnView::Next(ServerStep::InstallSignals),
        match error {
            ServerError::CreateSocketDir { path, message } => error@
                == ServerFault::CreateSocketDir(path@, message@),
            ServerError::BindAdminSocket { path, message } => error@
                == ServerFault::BindAdminSocket(path@, message@),
            ServerError::AdminSocketPerms { path, message } => error@
                == ServerFault::AdminSocketPerms(path@, message@),
            ServerError::SignalHandler(message) => error@ == ServerFault::SignalHandler(message@),
        },
        match turn {
            ServerTurn::Next(step) => turn@ == ServerTurnView::Next(step),
            ServerTurn::Finished => turn@ == ServerTurnView::Finished,
            ServerTurn::Failed(e) => turn@ == ServerTurnView::Failed(e@),
        },
{
}

} // verus!
