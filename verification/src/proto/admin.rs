//! Admin (control-plane) socket types.

use super::{ErrorResponse, WireCode, PROTOCOL_VERSION};
use crate::json::{self, array_json, bool_json, Member, ObjectWriter};
use crate::message::{
    self, read_field, read_message, Atom, MessageFault, MessageFaultView, Pairs,
};
use crate::text::{self, copy_text, same_text};
use vstd::prelude::*;

verus! {

/// What a privileged caller may ask for on the admin socket.
#[derive(Debug, Clone, PartialEq, Eq)]
pub enum AdminRequest {
    Register { name: String, project_path: String },
    Unregister { name: String },
    Reload { name: String },
    Status,
    RotateBootstrap,
}

/// The model of an `AdminRequest`.
pub enum AdminRequestView {
    Register(Seq<char>, Seq<char>),
    Unregister(Seq<char>),
    Reload(Seq<char>),
    Status,
    RotateBootstrap,
}

impl View for AdminRequest {
    type V = AdminRequestView;

    open spec fn view(&self) -> AdminRequestView {
        match *self {
            AdminRequest::Register { name, project_path } => AdminRequestView::Register(
                name@,
                project_path@,
            ),
            AdminRequest::Unregister { name } => AdminRequestView::Unregister(name@),
            AdminRequest::Reload { name } => AdminRequestView::Reload(name@),
            AdminRequest::Status => AdminRequestView::Status,
            AdminRequest::RotateBootstrap => AdminRequestView::RotateBootstrap,
        }
    }
}

impl AdminRequestView {
    /// The members of the request as it is written.
    pub open spec fn pairs(self) -> Pairs {
        match self {
            AdminRequestView::Register(name, project_path) => seq![
                ("op"@, Atom::Text("register"@)),
                ("name"@, Atom::Text(name)),
                ("project_path"@, Atom::Text(project_path)),
            ],
            AdminRequestView::Unregister(name) => seq![("op"@, Atom::Text("unregister"@)), ("name"@, Atom::Text(name))],
            AdminRequestView::Reload(name) => seq![("op"@, Atom::Text("reload"@)), ("name"@, Atom::Text(name))],
            AdminRequestView::Status => seq![("op"@, Atom::Text("status"@))],
            AdminRequestView::RotateBootstrap => seq![("op"@, Atom::Text("rotate-bootstrap"@))],
        }
    }
}

/// The operations of the admin socket, as they are listed to a caller who asks for another.
pub const ADMIN_OPS: &'static str =
    "`register`, `unregister`, `reload`, `status`, `rotate-bootstrap`";

/// The request that a message's fields make. Fields that an operation does not take are
/// passed over; one that it takes may stand there only once.
pub open spec fn admin_request_in(fields: message::Fields) -> Result<
    AdminRequestView,
    MessageFaultView,
> {
    match message::text_field(fields, "op"@) {
        Err(fault) => Err(fault),
        Ok(op) => if op == "register"@ {
            match message::text_field(fields, "name"@) {
                Err(fault) => Err(fault),
                Ok(name) => match message::text_field(fields, "project_path"@) {
                    Err(fault) => Err(fault),
                    Ok(path) => Ok(AdminRequestView::Register(name, path)),
                },
            }
        } else if op == "unregister"@ {
            match message::text_field(fields, "name"@) {
                Err(fault) => Err(fault),
                Ok(name) => Ok(AdminRequestView::Unregister(name)),
            }
        } else if op == "reload"@ {
            match message::text_field(fields, "name"@) {
                Err(fault) => Err(fault),
                Ok(name) => Ok(AdminRequestView::Reload(name)),
            }
        } else if op == "status"@ {
            Ok(AdminRequestView::Status)
        } else if op == "rotate-bootstrap"@ {
            Ok(AdminRequestView::RotateBootstrap)
        } else {
            Err(MessageFaultView::UnknownOp(op, ADMIN_OPS@))
        },
    }
}

/// The request that a message makes.
pub open spec fn admin_request(bytes: Seq<u8>) -> Result<AdminRequestView, MessageFaultView> {
    match message::message_fields(bytes) {
        Err(fault) => Err(fault),
        Ok(fields) => admin_request_in(fields),
    }
}

impl AdminRequest {
    /// Writes the request as a message.
    pub fn to_json(&self) -> (r: String)
        ensures
            r@ == json::object_text(message::flat_members(self@.pairs())),
    {
        let mut w = ObjectWriter::new();
        match self {
            AdminRequest::Register { name, project_path } => {
                w.text_member("op", "register");
                w.text_member("name", name.as_str());
                w.text_member("project_path", project_path.as_str());
            },
            AdminRequest::Unregister { name } => {
                w.text_member("op", "unregister");
                w.text_member("name", name.as_str());
            },
            AdminRequest::Reload { name } => {
                w.text_member("op", "reload");
                w.text_member("name", name.as_str());
            },
            AdminRequest::Status => {
                w.text_member("op", "status");
            },
            AdminRequest::RotateBootstrap => {
                w.text_member("op", "rotate-bootstrap");
            },
        }
        assert(w.members() =~= message::flat_members(self@.pairs()));
        w.finish()
    }

    /// Reads a request from a message. A request that is written out is read back, with a line
    /// break behind it or without.
    pub fn from_slice(bytes: &[u8]) -> (r: Result<AdminRequest, MessageFault>)
        ensures
            admin_request(bytes@) == match r {
                Ok(request) => Ok(request@),
                Err(fault) => Err(fault@),
            },
            forall|request: AdminRequestView| message::is_written(
                bytes@,
                #[trigger] request.pairs(),
            ) ==> admin_request(bytes@) == Ok::<AdminRequestView, MessageFaultView>(request),
    {
        proof {
            assert forall|request: AdminRequestView| message::is_written(
                bytes@,
                #[trigger] request.pairs(),
            ) implies admin_request_in(message::flat_fields(request.pairs())) == Ok::<
                AdminRequestView,
                MessageFaultView,
            >(request) by {
                written_requests_are_understood(request);
            }
        }
        match read_message(bytes) {
            Err(fault) => Err(fault),
            Ok(fields) => Self::from_fields(&fields),
        }
    }

    /// Reads a request from the fields of a message.
    pub fn from_fields(fields: &Vec<(String, Option<String>)>) -> (r: Result<
        AdminRequest,
        MessageFault,
    >)
        ensures
            admin_request_in(message::field_views(fields@)) == match r {
                Ok(request) => Ok(request@),
                Err(fault) => Err(fault@),
            },
    {
        let op = match read_field(fields, "op") {
            Err(fault) => return Err(fault),
            Ok(op) => op,
        };
        if same_text(op.as_str(), "register") {
            let name = match read_field(fields, "name") {
                Err(fault) => return Err(fault),
                Ok(name) => name,
            };
            match read_field(fields, "project_path") {
                Err(fault) => Err(fault),
                Ok(project_path) => Ok(AdminRequest::Register { name, project_path }),
            }
        } else if same_text(op.as_str(), "unregister") {
            match read_field(fields, "name") {
                Err(fault) => Err(fault),
                Ok(name) => Ok(AdminRequest::Unregister { name }),
            }
        } else if same_text(op.as_str(), "reload") {
            match read_field(fields, "name") {
                Err(fault) => Err(fault),
                Ok(name) => Ok(AdminRequest::Reload { name }),
            }
        } else if same_text(op.as_str(), "status") {
            Ok(AdminRequest::Status)
        } else if same_text(op.as_str(), "rotate-bootstrap") {
            Ok(AdminRequest::RotateBootstrap)
        } else {
            Err(MessageFault::UnknownOp(op, copy_text(ADMIN_OPS)))
        }
    }
}

/// The fields of a request as it is written make that request.
pub proof fn written_requests_are_understood(request: AdminRequestView)
    ensures
        admin_request_in(message::flat_fields(request.pairs())) == Ok::<
            AdminRequestView,
            MessageFaultView,
        >(request),
{
    reveal_strlit("op");
    reveal_strlit("name");
    reveal_strlit("project_path");
    reveal_strlit("register");
    reveal_strlit("unregister");
    reveal_strlit("reload");
    reveal_strlit("status");
    reveal_strlit("rotate-bootstrap");
    assert("op"@.len() == 2 && "name"@.len() == 4 && "project_path"@.len() == 12);
    assert("register"@.len() == 8 && "unregister"@.len() == 10);
    assert("reload"@[0] == 'r' && "status"@[0] == 's' && "rotate-bootstrap"@.len() == 16);
    let fields = message::flat_fields(request.pairs());
    assert(fields[0].0 == "op"@);
    assert(fields.len() > 1 ==> fields[1].0 == "name"@);
    assert(fields.len() > 2 ==> fields[2].0 == "project_path"@);
    message::fields_are_found(fields, 0);
    if fields.len() > 1 {
        message::fields_are_found(fields, 1);
    }
    if fields.len() > 2 {
        message::fields_are_found(fields, 2);
    }
}

/// A field that the protocol does not know changes nothing, wherever it stands: a client may
/// send fields that came later.
pub proof fn unknown_fields_are_tolerated(
    fields: message::Fields,
    at: int,
    extra: (Seq<char>, Option<Seq<char>>),
)
    requires
        0 <= at <= fields.len(),
        extra.0 != "op"@,
        extra.0 != "name"@,
        extra.0 != "project_path"@,
    ensures
        admin_request_in(fields.insert(at, extra)) == admin_request_in(fields),
{
    message::unknown_fields_are_passed_over(fields, at, extra, "op"@);
    message::unknown_fields_are_passed_over(fields, at, extra, "name"@);
    message::unknown_fields_are_passed_over(fields, at, extra, "project_path"@);
}

/// Why a request on the admin socket failed.
#[derive(Debug, Clone, Copy, PartialEq, Eq, Structural)]
pub enum AdminErrorCode {
    ManifestInvalid,
    ManifestNotFound,
    ProjectUnknown,
    ProjectExists,
    BootstrapError,
    ProtocolError,
    InternalError,
}

impl WireCode for AdminErrorCode {
    open spec fn wire(&self) -> Seq<char> {
        match *self {
            AdminErrorCode::ManifestInvalid => "manifest_invalid"@,
            AdminErrorCode::ManifestNotFound => "manifest_not_found"@,
            AdminErrorCode::ProjectUnknown => "project_unknown"@,
            AdminErrorCode::ProjectExists => "project_exists"@,
            AdminErrorCode::BootstrapError => "bootstrap_error"@,
            AdminErrorCode::ProtocolError => "protocol_error"@,
            AdminErrorCode::InternalError => "internal_error"@,
        }
    }

    fn wire_text(&self) -> (r: &'static str) {
        match self {
            AdminErrorCode::ManifestInvalid => "manifest_invalid",
            AdminErrorCode::ManifestNotFound => "manifest_not_found",
            AdminErrorCode::ProjectUnknown => "project_unknown",
            AdminErrorCode::ProjectExists => "project_exists",
            AdminErrorCode::BootstrapError => "bootstrap_error",
            AdminErrorCode::ProtocolError => "protocol_error",
            AdminErrorCode::InternalError => "internal_error",
        }
    }
}

impl AdminErrorCode {
    /// Reads a code's name.
    pub fn from_wire(s: &str) -> (r: Option<AdminErrorCode>)
        ensures
            match r {
                Some(code) => code.wire() == s@,
                None => forall|code: AdminErrorCode| #[trigger] code.wire() != s@,
            },
    {
        if same_text(s, "manifest_invalid") {
            Some(AdminErrorCode::ManifestInvalid)
        } else if same_text(s, "manifest_not_found") {
            Some(AdminErrorCode::ManifestNotFound)
        } else if same_text(s, "project_unknown") {
            Some(AdminErrorCode::ProjectUnknown)
        } else if same_text(s, "project_exists") {
            Some(AdminErrorCode::ProjectExists)
        } else if same_text(s, "bootstrap_error") {
            Some(AdminErrorCode::BootstrapError)
        } else if same_text(s, "protocol_error") {
            Some(AdminErrorCode::ProtocolError)
        } else if same_text(s, "internal_error") {
            Some(AdminErrorCode::InternalError)
        } else {
            None
        }
    }
}

pub type AdminError = ErrorResponse<AdminErrorCode>;

#[derive(Debug, Clone, PartialEq, Eq)]
pub struct RegisterResponse {
    pub ok: bool,
    pub socket_path: String,
}

impl RegisterResponse {
    pub fn new(socket_path: &str) -> (r: RegisterResponse)
        ensures
            r.ok,
            r.socket_path@ == socket_path@,
    {
        RegisterResponse { ok: true, socket_path: copy_text(socket_path) }
    }

    pub open spec fn members(&self) -> Seq<Member> {
        seq![
            ("ok"@, json::bool_text(self.ok)),
            ("socket_path"@, json::quoted(self.socket_path@)),
        ]
    }

    pub fn to_json(&self) -> (r: String)
        ensures
            r@ == json::object_text(self.members()),
    {
        let mut w = ObjectWriter::new();
        w.member("ok", bool_json(self.ok));
        w.text_member("socket_path", self.socket_path.as_str());
        assert(w.members() =~= self.members());
        w.finish()
    }
}

/// The answer of an operation that has nothing else to say.
#[derive(Debug, Clone, PartialEq, Eq)]
pub struct OkResponse {
    pub ok: bool,
}

impl Default for OkResponse {
    fn default() -> (r: OkResponse)
        ensures
            r.ok,
    {
        OkResponse { ok: true }
    }
}

impl OkResponse {
    pub fn new() -> (r: OkResponse)
        ensures
            r.ok,
    {
        OkResponse::default()
    }

    pub open spec fn members(&self) -> Seq<Member> {
        seq![("ok"@, json::bool_text(self.ok))]
    }

    pub fn to_json(&self) -> (r: String)
        ensures
            r@ == json::object_text(self.members()),
    {
        let mut w = ObjectWriter::new();
        w.member("ok", bool_json(self.ok));
        assert(w.members() =~= self.members());
        w.finish()
    }
}

#[derive(Debug, Clone, PartialEq, Eq)]
pub struct ReloadResponse {
    pub ok: bool,
    pub allowlist: Vec<String>,
}

impl ReloadResponse {
    pub fn new(allowlist: Vec<String>) -> (r: ReloadResponse)
        ensures
            r.ok,
            r.allowlist == allowlist,
    {
        ReloadResponse { ok: true, allowlist }
    }

    pub open spec fn members(&self) -> Seq<Member> {
        seq![
            ("ok"@, json::bool_text(self.ok)),
            ("allowlist"@, json::texts_array(text::text_views(self.allowlist@))),
        ]
    }

    pub fn to_json(&self) -> (r: String)
        ensures
            r@ == json::object_text(self.members()),
    {
        let mut w = ObjectWriter::new();
        w.member("ok", bool_json(self.ok));
        w.texts_member("allowlist", &self.allowlist);
        assert(w.members() =~= self.members());
        w.finish()
    }
}

/// The bootstrap source, as `status` tells it.
#[derive(Debug, Clone, Copy, PartialEq, Eq, Structural)]
pub enum BootstrapMode {
    File,
    Imds,
    Env,
}

impl WireCode for BootstrapMode {
    open spec fn wire(&self) -> Seq<char> {
        match *self {
            BootstrapMode::File => "file"@,
            BootstrapMode::Imds => "imds"@,
            BootstrapMode::Env => "env"@,
        }
    }

    fn wire_text(&self) -> (r: &'static str) {
        match self {
            BootstrapMode::File => "file",
            BootstrapMode::Imds => "imds",
            BootstrapMode::Env => "env",
        }
    }
}

#[derive(Debug, Clone, PartialEq, Eq)]
pub struct StatusResponse {
    pub ok: bool,
    pub broker_version: String,
    pub protocol_version: u32,
    pub uptime_seconds: u64,
    pub bootstrap_mode: BootstrapMode,
    pub projects: Vec<ProjectStatus>,
}

impl StatusResponse {
    pub fn new(
        broker_version: &str,
        uptime_seconds: u64,
        bootstrap_mode: BootstrapMode,
        projects: Vec<ProjectStatus>,
    ) -> (r: StatusResponse)
        ensures
            r.ok,
            r.broker_version@ == broker_version@,
            r.protocol_version == PROTOCOL_VERSION,
            r.uptime_seconds == uptime_seconds,
            r.bootstrap_mode == bootstrap_mode,
            r.projects == projects,
    {
        StatusResponse {
            ok: true,
            broker_version: copy_text(broker_version),
            protocol_version: PROTOCOL_VERSION,
            uptime_seconds,
            bootstrap_mode,
            projects,
        }
    }

    pub open spec fn members(&self) -> Seq<Member> {
        seq![
            ("ok"@, json::bool_text(self.ok)),
            ("broker_version"@, json::quoted(self.broker_version@)),
            ("protocol_version"@, text::decimal(self.protocol_version as nat)),
            ("uptime_seconds"@, text::decimal(self.uptime_seconds as nat)),
            ("bootstrap_mode"@, json::quoted(self.bootstrap_mode.wire())),
            ("projects"@, json::array_text(projects_json(self.projects@))),
        ]
    }

    pub fn to_json(&self) -> (r: String)
        ensures
            r@ == json::object_text(self.members()),
    {
        let mut items: Vec<String> = Vec::new();
        let mut i: usize = 0;
        while i < self.projects.len()
            invariant
                i <= self.projects@.len(),
                items@.len() == i,
                forall|j: int|
                    0 <= j < i ==> (#[trigger] items@[j])@ == json::object_text(
                        self.projects@[j].members(),
                    ),
            decreases self.projects@.len() - i,
        {
            items.push(self.projects[i].to_json());
            i = i + 1;
        }
        assert(text::text_views(items@) =~= projects_json(self.projects@));
        let projects = array_json(&items);
        let mut w = ObjectWriter::new();
        w.member("ok", bool_json(self.ok));
        w.text_member("broker_version", self.broker_version.as_str());
        w.number_member("protocol_version", self.protocol_version as u64);
        w.number_member("uptime_seconds", self.uptime_seconds);
        w.text_member("bootstrap_mode", self.bootstrap_mode.wire_text());
        w.member("projects", projects.as_str());
        assert(w.members() =~= self.members());
        w.finish()
    }
}

/// One project, as `status` lists it.
#[derive(Debug, Clone, PartialEq, Eq)]
pub struct ProjectStatus {
    pub name: String,
    pub socket_path: String,
    pub allowlist_size: u32,
    pub cache_entries: u32,
}

impl ProjectStatus {
    pub open spec fn members(&self) -> Seq<Member> {
        seq![
            ("name"@, json::quoted(self.name@)),
            ("socket_path"@, json::quoted(self.socket_path@)),
            ("allowlist_size"@, text::decimal(self.allowlist_size as nat)),
            ("cache_entries"@, text::decimal(self.cache_entries as nat)),
        ]
    }

    pub fn to_json(&self) -> (r: String)
        ensures
            r@ == json::object_text(self.members()),
    {
        let mut w = ObjectWriter::new();
        w.text_member("name", self.name.as_str());
        w.text_member("socket_path", self.socket_path.as_str());
        w.number_member("allowlist_size", self.allowlist_size as u64);
        w.number_member("cache_entries", self.cache_entries as u64);
        assert(w.members() =~= self.members());
        w.finish()
    }
}

/// The objects that stand for projects in `status`.
pub open spec fn projects_json(projects: Seq<ProjectStatus>) -> Seq<Seq<char>> {
    Seq::new(projects.len(), |i: int| json::object_text(projects[i].members()))
}

#[derive(Debug, Clone, PartialEq, Eq)]
pub struct RotateBootstrapResponse {
    pub ok: bool,
    pub backend_auth: BackendAuthState,
}

/// How the backend session stands after its bootstrap token was replaced.
#[derive(Debug, Clone, Copy, PartialEq, Eq, Structural)]
pub enum BackendAuthState {
    /// The backend took the new token; goes over the wire as `ok`.
    Authenticated,
}

impl WireCode for BackendAuthState {
    open spec fn wire(&self) -> Seq<char> {
        "ok"@
    }

    fn wire_text(&self) -> (r: &'static str) {
        "ok"
    }
}

impl RotateBootstrapResponse {
    pub fn ok() -> (r: RotateBootstrapResponse)
        ensures
            r.ok,
            r.backend_auth == BackendAuthState::Authenticated,
    {
        RotateBootstrapResponse { ok: true, backend_auth: BackendAuthState::Authenticated }
    }

    pub open spec fn members(&self) -> Seq<Member> {
        seq![
            ("ok"@, json::bool_text(self.ok)),
            ("backend_auth"@, json::quoted(self.backend_auth.wire())),
        ]
    }

    pub fn to_json(&self) -> (r: String)
        ensures
            r@ == json::object_text(self.members()),
    {
        let mut w = ObjectWriter::new();
        w.member("ok", bool_json(self.ok));
        w.text_member("backend_auth", self.backend_auth.wire_text());
        assert(w.members() =~= self.members());
        w.finish()
    }
}

/// No two error codes share a name.
pub proof fn error_code_names_are_distinct(a: AdminErrorCode, b: AdminErrorCode)
    requires
        a.wire() == b.wire(),
    ensures
        a == b,
{
    reveal_strlit("manifest_invalid");
    assert("manifest_invalid"@.len() == 16);
    reveal_strlit("manifest_not_found");
    assert("manifest_not_found"@.len() == 18);
    reveal_strlit("project_unknown");
    assert("project_unknown"@.len() == 15);
    reveal_strlit("project_exists");
    assert("project_exists"@.len() == 14);
    reveal_strlit("bootstrap_error");
    assert("bootstrap_error"@.len() == 15);
    reveal_strlit("protocol_error");
    assert("protocol_error"@.len() == 14);
    reveal_strlit("internal_error");
    assert("internal_error"@.len() == 14);
    assert("project_unknown"@[0] == 'p' && "bootstrap_error"@[0] == 'b');
    assert("project_exists"@[0] == 'p' && "protocol_error"@[0] == 'p' && "internal_error"@[0]
        == 'i');
    assert("project_exists"@[3] == 'j' && "protocol_error"@[3] == 't');
    assert(a.wire().len() == b.wire().len());
    assert(a.wire()[0] == b.wire()[0]);
    assert(a.wire()[3] == b.wire()[3]);
}

/// Every answer of the admin socket that is no error is one line, whatever the texts in it
/// hold.
pub proof fn responses_are_one_line(
    register: RegisterResponse,
    unregister: OkResponse,
    reload: ReloadResponse,
    status: StatusResponse,
    rotate: RotateBootstrapResponse,
)
    ensures
        json::one_line(json::object_text(register.members())),
        json::one_line(json::object_text(unregister.members())),
        json::one_line(json::object_text(reload.members())),
        json::one_line(json::object_text(status.members())),
        json::one_line(json::object_text(rotate.members())),
{
    json::bool_is_one_line(register.ok);
    json::quoted_text_is_one_line(register.socket_path@);
    json::object_is_one_line(register.members());
    json::bool_is_one_line(unregister.ok);
    json::object_is_one_line(unregister.members());
    json::bool_is_one_line(reload.ok);
    json::texts_array_is_one_line(text::text_views(reload.allowlist@));
    json::object_is_one_line(reload.members());
    status_is_one_line(status);
    json::bool_is_one_line(rotate.ok);
    json::quoted_text_is_one_line(rotate.backend_auth.wire());
    json::object_is_one_line(rotate.members());
}

proof fn status_is_one_line(status: StatusResponse)
    ensures
        json::one_line(json::object_text(status.members())),
{
    let items = projects_json(status.projects@);
    assert forall|i: int| 0 <= i < items.len() implies json::one_line(#[trigger] items[i]) by {
        let project = status.projects@[i];
        json::quoted_text_is_one_line(project.name@);
        json::quoted_text_is_one_line(project.socket_path@);
        json::decimal_is_one_line(project.allowlist_size as nat);
        json::decimal_is_one_line(project.cache_entries as nat);
        json::object_is_one_line(project.members());
    }
    json::array_is_one_line(items);
    json::bool_is_one_line(status.ok);
    json::quoted_text_is_one_line(status.broker_version@);
    json::decimal_is_one_line(status.protocol_version as nat);
    json::decimal_is_one_line(status.uptime_seconds as nat);
    json::quoted_text_is_one_line(status.bootstrap_mode.wire());
    json::object_is_one_line(status.members());
}

/// Codes, modes and states go over the wire by these names.
pub proof fn admin_codes_go_by_their_names(code: AdminErrorCode, mode: BootstrapMode)
    ensures
        code.wire() == match code {
            AdminErrorCode::ManifestInvalid => "manifest_invalid"@,
            AdminErrorCode::ManifestNotFound => "manifest_not_found"@,
            AdminErrorCode::ProjectUnknown => "project_unknown"@,
            AdminErrorCode::ProjectExists => "project_exists"@,
            AdminErrorCode::BootstrapError => "bootstrap_error"@,
            AdminErrorCode::ProtocolError => "protocol_error"@,
            AdminErrorCode::InternalError => "internal_error"@,
        },
        mode.wire() == match mode {
            BootstrapMode::File => "file"@,
            BootstrapMode::Imds => "imds"@,
            BootstrapMode::Env => "env"@,
        },
        BackendAuthState::Authenticated.wire() == "ok"@,
{
}

/// A message asks for the operation that it names, with the operands that the operation takes,
/// each as it stands under its own name; it is refused for the first that is missing, repeated or
/// no text, and for an operation that there is not.
pub proof fn admin_requests_ask_for_what_they_name(fields: message::Fields)
    ensures
        ({
            let asked = admin_request_in(fields);
            let name = message::text_field(fields, "name"@);
            let path = message::text_field(fields, "project_path"@);
            match message::text_field(fields, "op"@) {
                Err(fault) => asked == Err::<AdminRequestView, _>(fault),
                Ok(op) => {
                    &&& op == "status"@ ==> asked == Ok::<_, MessageFaultView>(
                        AdminRequestView::Status,
                    )
                    &&& op == "rotate-bootstrap"@ ==> asked == Ok::<_, MessageFaultView>(
                        AdminRequestView::RotateBootstrap,
                    )
                    &&& (op == "register"@ || op == "unregister"@ || op == "reload"@) && name is Err
                        ==> asked == Err::<AdminRequestView, _>(name->Err_0)
                    &&& op == "unregister"@ && name is Ok ==> asked == Ok::<_, MessageFaultView>(
                        AdminRequestView::Unregister(name->Ok_0),
                    )
                    &&& op == "reload"@ && name is Ok ==> asked == Ok::<_, MessageFaultView>(
                        AdminRequestView::Reload(name->Ok_0),
                    )
                    &&& op == "register"@ && name is Ok && path is Err ==> asked == Err::<
                        AdminRequestView,
                        _,
                    >(path->Err_0)
                    &&& op == "register"@ && name is Ok && path is Ok ==> asked == Ok::<
                        _,
                        MessageFaultView,
                    >(AdminRequestView::Register(name->Ok_0, path->Ok_0))
                    &&& op != "status"@ && op != "rotate-bootstrap"@ && op != "register"@ && op
                        != "unregister"@ && op != "reload"@ ==> asked == Err::<AdminRequestView, _>(
                        MessageFaultView::UnknownOp(
                            op,
                            "`register`, `unregister`, `reload`, `status`, `rotate-bootstrap`"@,
                        ),
                    )
                },
            }
        }),
{
    reveal_strlit("register");
    reveal_strlit("unregister");
    reveal_strlit("reload");
    reveal_strlit("status");
    reveal_strlit("rotate-bootstrap");
    assert("register"@.len() == 8 && "unregister"@.len() == 10);
    assert("reload"@[0] == 'r' && "status"@[0] == 's' && "rotate-bootstrap"@.len() == 16);
    assert("reload"@.len() == 6);
}

/// The bytes of a message ask for what its fields do, and a request is told as it is.
pub proof fn admin_messages_ask_by_their_fields(bytes: Seq<u8>, request: AdminRequest)
    ensures
        match message::message_fields(bytes) {
            Err(fault) => admin_request(bytes) == Err::<AdminRequestView, _>(fault),
            Ok(fields) => admin_request(bytes) == admin_request_in(fields),
        },
        match request {
            AdminRequest::Register { name, project_path } => request@
                == AdminRequestView::Register(name@, project_path@),
            AdminRequest::Unregister { name } => request@ == AdminRequestView::Unregister(name@),
            AdminRequest::Reload { name } => request@ == AdminRequestView::Reload(name@),
            AdminRequest::Status => request@ == AdminRequestView::Status,
            AdminRequest::RotateBootstrap => request@ == AdminRequestView::RotateBootstrap,
        },
{
}

/// A request is written with the name of its operation and its operands as they are.
pub proof fn admin_requests_are_written_whole(name: Seq<char>, path: Seq<char>)
    ensures
        AdminRequestView::Register(name, path).pairs() == seq![
            ("op"@, Atom::Text("register"@)),
            ("name"@, Atom::Text(name)),
            ("project_path"@, Atom::Text(path)),
        ],
        AdminRequestView::Unregister(name).pairs() == seq![
            ("op"@, Atom::Text("unregister"@)),
            ("name"@, Atom::Text(name)),
        ],
        AdminRequestView::Reload(name).pairs() == seq![
            ("op"@, Atom::Text("reload"@)),
            ("name"@, Atom::Text(name)),
        ],
        AdminRequestView::Status.pairs() == seq![("op"@, Atom::Text("status"@))],
        AdminRequestView::RotateBootstrap.pairs() == seq![("op"@, Atom::Text("rotate-bootstrap"@))],
{
}

/// Every answer of the admin socket goes out with all that it says, each under its own name.
pub proof fn admin_answers_go_out_whole(
    register: RegisterResponse,
    plain: OkResponse,
    reload: ReloadResponse,
    status: StatusResponse,
    project: ProjectStatus,
    rotate: RotateBootstrapResponse,
)
    ensures
        register.members() == seq![
            ("ok"@, json::bool_text(register.ok)),
            ("socket_path"@, json::quoted(register.socket_path@)),
        ],
        plain.members() == seq![("ok"@, json::bool_text(plain.ok))],
        reload.members() == seq![
            ("ok"@, json::bool_text(reload.ok)),
            ("allowlist"@, json::texts_array(text::text_views(reload.allowlist@))),
        ],
        status.members() == seq![
            ("ok"@, json::bool_text(status.ok)),
            ("broker_version"@, json::quoted(status.broker_version@)),
            ("protocol_version"@, text::decimal(status.protocol_version as nat)),
            ("uptime_seconds"@, text::decimal(status.uptime_seconds as nat)),
            ("bootstrap_mode"@, json::quoted(status.bootstrap_mode.wire())),
            ("projects"@, json::array_text(projects_json(status.projects@))),
        ],
        projects_json(status.projects@).len() == status.projects@.len(),
        forall|i: int|
            0 <= i < status.projects@.len() ==> #[trigger] projects_json(status.projects@)[i]
                == json::object_text(status.projects@[i].members()),
        project.members() == seq![
            ("name"@, json::quoted(project.name@)),
            ("socket_path"@, json::quoted(project.socket_path@)),
            ("allowlist_size"@, text::decimal(project.allowlist_size as nat)),
            ("cache_entries"@, text::decimal(project.cache_entries as nat)),
        ],
        rotate.members() == seq![
            ("ok"@, json::bool_text(rotate.ok)),
            ("backend_auth"@, json::quoted("ok"@)),
        ],
{
}

} // verus!
