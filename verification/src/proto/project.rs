//! Project (data-plane) socket types.

use super::{ErrorResponse, WireCode, PROTOCOL_VERSION};
use crate::json::{self, bool_json, Member, ObjectWriter};
use crate::message::{
    self, read_field, read_message, Atom, MessageFault, MessageFaultView, Pairs,
};
use crate::text::{self, copy_text, same_text};
use vstd::prelude::*;

verus! {

/// What a client in a devcontainer may ask for on its project's socket.
#[derive(Debug, Clone, PartialEq, Eq)]
pub enum ProjectRequest {
    Get { name: String },
    Ping,
    Info,
}

/// The model of a `ProjectRequest`.
pub enum ProjectRequestView {
    Get(Seq<char>),
    Ping,
    Info,
}

impl View for ProjectRequest {
    type V = ProjectRequestView;

    open spec fn view(&self) -> ProjectRequestView {
        match *self {
            ProjectRequest::Get { name } => ProjectRequestView::Get(name@),
            ProjectRequest::Ping => ProjectRequestView::Ping,
            ProjectRequest::Info => ProjectRequestView::Info,
        }
    }
}

impl ProjectRequestView {
    /// The members of the request as it is written.
    pub open spec fn pairs(self) -> Pairs {
        match self {
            ProjectRequestView::Get(name) => seq![("op"@, Atom::Text("get"@)), ("name"@, Atom::Text(name))],
            ProjectRequestView::Ping => seq![("op"@, Atom::Text("ping"@))],
            ProjectRequestView::Info => seq![("op"@, Atom::Text("info"@))],
        }
    }
}

/// The operations of a project socket, as they are listed to a caller who asks for another.
pub const PROJECT_OPS: &'static str = "`get`, `ping`, `info`";

/// The request that a message's fields make. Fields that an operation does not take are
/// passed over; one that it takes may stand there only once.
pub open spec fn project_request_in(fields: message::Fields) -> Result<
    ProjectRequestView,
    MessageFaultView,
> {
    match message::text_field(fields, "op"@) {
        Err(fault) => Err(fault),
        Ok(op) => if op == "get"@ {
            match message::text_field(fields, "name"@) {
                Err(fault) => Err(fault),
                Ok(name) => Ok(ProjectRequestView::Get(name)),
            }
        } else if op == "ping"@ {
            Ok(ProjectRequestView::Ping)
        } else if op == "info"@ {
            Ok(ProjectRequestView::Info)
        } else {
            Err(MessageFaultView::UnknownOp(op, PROJECT_OPS@))
        },
    }
}

/// The request that a message makes.
pub open spec fn project_request(bytes: Seq<u8>) -> Result<ProjectRequestView, MessageFaultView> {
    match message::message_fields(bytes) {
        Err(fault) => Err(fault),
        Ok(fields) => project_request_in(fields),
    }
}

impl ProjectRequest {
    /// Writes the request as a message.
    pub fn to_json(&self) -> (r: String)
        ensures
            r@ == json::object_text(message::flat_members(self@.pairs())),
    {
        let mut w = ObjectWriter::new();
        match self {
            ProjectRequest::Get { name } => {
                w.text_member("op", "get");
                w.text_member("name", name.as_str());
            },
            ProjectRequest::Ping => {
                w.text_member("op", "ping");
            },
            ProjectRequest::Info => {
                w.text_member("op", "info");
            },
        }
        assert(w.members() =~= message::flat_members(self@.pairs()));
        w.finish()
    }

    /// Reads a request from a message. A request that is written out is read back, with a line
    /// break behind it or without.
    pub fn from_slice(bytes: &[u8]) -> (r: Result<ProjectRequest, MessageFault>)
        ensures
            project_request(bytes@) == match r {
                Ok(request) => Ok(request@),
                Err(fault) => Err(fault@),
            },
            forall|request: ProjectRequestView| message::is_written(
                bytes@,
                #[trigger] request.pairs(),
            ) ==> project_request(bytes@) == Ok::<ProjectRequestView, MessageFaultView>(request),
    {
        proof {
            assert forall|request: ProjectRequestView| message::is_written(
                bytes@,
                #[trigger] request.pairs(),
            ) implies project_request_in(message::flat_fields(request.pairs())) == Ok::<
                ProjectRequestView,
                MessageFaultView,
            >(request) by {
                written_requests_are_understood(request);
            }
        }
        match read_message(bytes) {
            Err(fault) => Err(fault),
            Ok(fields) => Self::from_fields(&fields),
        }
    }

    /// Reads a request from the fields of a message.
    pub fn from_fields(fields: &Vec<(String, Option<String>)>) -> (r: Result<
        ProjectRequest,
        MessageFault,
    >)
        ensures
            project_request_in(message::field_views(fields@)) == match r {
                Ok(request) => Ok(request@),
                Err(fault) => Err(fault@),
            },
    {
        let op = match read_field(fields, "op") {
            Err(fault) => return Err(fault),
            Ok(op) => op,
        };
        if same_text(op.as_str(), "get") {
            match read_field(fields, "name") {
                Err(fault) => Err(fault),
                Ok(name) => Ok(ProjectRequest::Get { name }),
            }
        } else if same_text(op.as_str(), "ping") {
            Ok(ProjectRequest::Ping)
        } else if same_text(op.as_str(), "info") {
            Ok(ProjectRequest::Info)
        } else {
            Err(MessageFault::UnknownOp(op, copy_text(PROJECT_OPS)))
        }
    }
}

/// The fields of a request as it is written make that request.
pub proof fn written_requests_are_understood(request: ProjectRequestView)
    ensures
        project_request_in(message::flat_fields(request.pairs())) == Ok::<
            ProjectRequestView,
            MessageFaultView,
        >(request),
{
    reveal_strlit("op");
    reveal_strlit("name");
    reveal_strlit("get");
    reveal_strlit("ping");
    reveal_strlit("info");
    assert("op"@.len() == 2 && "name"@.len() == 4);
    assert("get"@.len() == 3 && "ping"@[0] == 'p' && "info"@[0] == 'i');
    let fields = message::flat_fields(request.pairs());
    assert(fields[0].0 == "op"@);
    assert(fields.len() > 1 ==> fields[1].0 == "name"@);
    message::fields_are_found(fields, 0);
    if request is Get {
        message::fields_are_found(fields, 1);
    }
}

/// A field that the protocol does not know changes nothing, wherever it stands: a client may
/// send fields that came later.
pub proof fn unknown_fields_are_tolerated(
    fields: message::Fields,
    at: int,
    extra: (Seq<char>, Option<Seq<char>>),
)
    requires
        0 <= at <= fields.len(),
        extra.0 != "op"@,
        extra.0 != "name"@,
    ensures
        project_request_in(fields.insert(at, extra)) == project_request_in(fields),
{
    message::unknown_fields_are_passed_over(fields, at, extra, "op"@);
    message::unknown_fields_are_passed_over(fields, at, extra, "name"@);
}

/// Why a request on a project socket failed.
#[derive(Debug, Clone, Copy, PartialEq, Eq, Structural)]
pub enum ProjectErrorCode {
    Denied,
    NotFound,
    BackendError,
    BackendUnreachable,
    RateLimited,
    ProtocolError,
    InternalError,
    PeerUnexpected,
}

impl WireCode for ProjectErrorCode {
    open spec fn wire(&self) -> Seq<char> {
        match *self {
            ProjectErrorCode::Denied => "denied"@,
            ProjectErrorCode::NotFound => "not_found"@,
            ProjectErrorCode::BackendError => "backend_error"@,
            ProjectErrorCode::BackendUnreachable => "backend_unreachable"@,
            ProjectErrorCode::RateLimited => "rate_limited"@,
            ProjectErrorCode::ProtocolError => "protocol_error"@,
            ProjectErrorCode::InternalError => "internal_error"@,
            ProjectErrorCode::PeerUnexpected => "peer_unexpected"@,
        }
    }

    fn wire_text(&self) -> (r: &'static str) {
        match self {
            ProjectErrorCode::Denied => "denied",
            ProjectErrorCode::NotFound => "not_found",
            ProjectErrorCode::BackendError => "backend_error",
            ProjectErrorCode::BackendUnreachable => "backend_unreachable",
            ProjectErrorCode::RateLimited => "rate_limited",
            ProjectErrorCode::ProtocolError => "protocol_error",
            ProjectErrorCode::InternalError => "internal_error",
            ProjectErrorCode::PeerUnexpected => "peer_unexpected",
        }
    }
}

impl ProjectErrorCode {
    /// Reads a code's name.
    pub fn from_wire(s: &str) -> (r: Option<ProjectErrorCode>)
        ensures
            match r {
                Some(code) => code.wire() == s@,
                None => forall|code: ProjectErrorCode| #[trigger] code.wire() != s@,
            },
    {
        if same_text(s, "denied") {
            Some(ProjectErrorCode::Denied)
        } else if same_text(s, "not_found") {
            Some(ProjectErrorCode::NotFound)
        } else if same_text(s, "backend_error") {
            Some(ProjectErrorCode::BackendError)
        } else if same_text(s, "backend_unreachable") {
            Some(ProjectErrorCode::BackendUnreachable)
        } else if same_text(s, "rate_limited") {
            Some(ProjectErrorCode::RateLimited)
        } else if same_text(s, "protocol_error") {
            Some(ProjectErrorCode::ProtocolError)
        } else if same_text(s, "internal_error") {
            Some(ProjectErrorCode::InternalError)
        } else if same_text(s, "peer_unexpected") {
            Some(ProjectErrorCode::PeerUnexpected)
        } else {
            None
        }
    }
}

pub type ProjectError = ErrorResponse<ProjectErrorCode>;

/// The answer to a `get` that succeeded. It carries `value` for text or `value_b64` for
/// other bytes, one of the two.
#[derive(Debug, Clone, PartialEq, Eq)]
pub struct GetResponse {
    /// Always `true`.
    pub ok: bool,
    pub value: Option<String>,
    pub value_b64: Option<String>,
    pub ttl_seconds: u32,
}

/// A successful `get` carries its value once: as text, or in base64.
pub open spec fn carries_one_value(get: GetResponse) -> bool {
    (get.value is Some) != (get.value_b64 is Some)
}

impl GetResponse {
    pub fn utf8(value: &str, ttl_seconds: u32) -> (r: GetResponse)
        ensures
            r.ok,
            text::optional_text(r.value) == Some(value@),
            r.value_b64 is None,
            r.ttl_seconds == ttl_seconds,
            carries_one_value(r),
    {
        GetResponse { ok: true, value: Some(copy_text(value)), value_b64: None, ttl_seconds }
    }

    /// `value_b64` is the value in base64.
    pub fn binary(value_b64: &str, ttl_seconds: u32) -> (r: GetResponse)
        ensures
            r.ok,
            r.value is None,
            text::optional_text(r.value_b64) == Some(value_b64@),
            r.ttl_seconds == ttl_seconds,
            carries_one_value(r),
    {
        GetResponse { ok: true, value: None, value_b64: Some(copy_text(value_b64)), ttl_seconds }
    }

    pub open spec fn members(&self) -> Seq<Member> {
        json::with_optional(
            json::with_optional(
                seq![("ok"@, json::bool_text(self.ok))],
                "value"@,
                super::optional_string(self.value),
            ),
            "value_b64"@,
            super::optional_string(self.value_b64),
        ).push(("ttl_seconds"@, text::decimal(self.ttl_seconds as nat)))
    }

    pub fn to_json(&self) -> (r: String)
        ensures
            r@ == json::object_text(self.members()),
    {
        let mut w = ObjectWriter::new();
        w.member("ok", bool_json(self.ok));
        assert(w.members() =~= seq![("ok"@, json::bool_text(self.ok))]);
        if let Some(value) = &self.value {
            w.text_member("value", value.as_str());
        }
        if let Some(value_b64) = &self.value_b64 {
            w.text_member("value_b64", value_b64.as_str());
        }
        w.number_member("ttl_seconds", self.ttl_seconds as u64);
        w.finish()
    }
}

#[derive(Debug, Clone, PartialEq, Eq)]
pub struct PingResponse {
    /// Always `true`.
    pub ok: bool,
    pub broker_version: String,
    pub protocol_version: u32,
    pub project: String,
}

impl PingResponse {
    pub fn new(broker_version: &str, project: &str) -> (r: PingResponse)
        ensures
            r.ok,
            r.broker_version@ == broker_version@,
            r.protocol_version == PROTOCOL_VERSION,
            r.project@ == project@,
    {
        PingResponse {
            ok: true,
            broker_version: copy_text(broker_version),
            protocol_version: PROTOCOL_VERSION,
            project: copy_text(project),
        }
    }

    pub open spec fn members(&self) -> Seq<Member> {
        seq![
            ("ok"@, json::bool_text(self.ok)),
            ("broker_version"@, json::quoted(self.broker_version@)),
            ("protocol_version"@, text::decimal(self.protocol_version as nat)),
            ("project"@, json::quoted(self.project@)),
        ]
    }

    pub fn to_json(&self) -> (r: String)
        ensures
            r@ == json::object_text(self.members()),
    {
        let mut w = ObjectWriter::new();
        w.member("ok", bool_json(self.ok));
        w.text_member("broker_version", self.broker_version.as_str());
        w.number_member("protocol_version", self.protocol_version as u64);
        w.text_member("project", self.project.as_str());
        assert(w.members() =~= self.members());
        w.finish()
    }
}

#[derive(Debug, Clone, PartialEq, Eq)]
pub struct InfoResponse {
    /// Always `true`.
    pub ok: bool,
    pub project: String,
    pub allowlist: Vec<String>,
    pub schema_version: u32,
}

impl InfoResponse {
    pub fn new(project: &str, allowlist: Vec<String>, schema_version: u32) -> (r: InfoResponse)
        ensures
            r.ok,
            r.project@ == project@,
            r.allowlist == allowlist,
            r.schema_version == schema_version,
    {
        InfoResponse { ok: true, project: copy_text(project), allowlist, schema_version }
    }

    pub open spec fn members(&self) -> Seq<Member> {
        seq![
            ("ok"@, json::bool_text(self.ok)),
            ("project"@, json::quoted(self.project@)),
            ("allowlist"@, json::texts_array(text::text_views(self.allowlist@))),
            ("schema_version"@, text::decimal(self.schema_version as nat)),
        ]
    }

    pub fn to_json(&self) -> (r: String)
        ensures
            r@ == json::object_text(self.members()),
    {
        let mut w = ObjectWriter::new();
        w.member("ok", bool_json(self.ok));
        w.text_member("project", self.project.as_str());
        w.texts_member("allowlist", &self.allowlist);
        w.number_member("schema_version", self.schema_version as u64);
        assert(w.members() =~= self.members());
        w.finish()
    }
}

/// No two error codes share a name.
pub proof fn error_code_names_are_distinct(a: ProjectErrorCode, b: ProjectErrorCode)
    requires
        a.wire() == b.wire(),
    ensures
        a == b,
{
    reveal_strlit("denied");
    assert("denied"@.len() == 6);
    reveal_strlit("not_found");
    assert("not_found"@.len() == 9);
    reveal_strlit("backend_error");
    assert("backend_error"@.len() == 13);
    reveal_strlit("backend_unreachable");
    assert("backend_unreachable"@.len() == 19);
    reveal_strlit("rate_limited");
    assert("rate_limited"@.len() == 12);
    reveal_strlit("protocol_error");
    assert("protocol_error"@.len() == 14);
    reveal_strlit("internal_error");
    assert("internal_error"@.len() == 14);
    reveal_strlit("peer_unexpected");
    assert("peer_unexpected"@.len() == 15);
    assert("protocol_error"@[0] == 'p' && "internal_error"@[0] == 'i');
    assert(a.wire().len() == b.wire().len());
    assert(a.wire()[0] == b.wire()[0]);
}

/// Every answer of a project socket that is no error is one line, whatever the texts in it
/// hold; a secret value with line breaks in it is no exception.
pub proof fn responses_are_one_line(get: GetResponse, ping: PingResponse, info: InfoResponse)
    ensures
        json::one_line(json::object_text(get.members())),
        json::one_line(json::object_text(ping.members())),
        json::one_line(json::object_text(info.members())),
{
    get_is_one_line(get);
    json::bool_is_one_line(ping.ok);
    json::quoted_text_is_one_line(ping.broker_version@);
    json::decimal_is_one_line(ping.protocol_version as nat);
    json::quoted_text_is_one_line(ping.project@);
    json::object_is_one_line(ping.members());
    json::bool_is_one_line(info.ok);
    json::quoted_text_is_one_line(info.project@);
    json::texts_array_is_one_line(text::text_views(info.allowlist@));
    json::decimal_is_one_line(info.schema_version as nat);
    json::object_is_one_line(info.members());
}

proof fn get_is_one_line(get: GetResponse)
    ensures
        json::one_line(json::object_text(get.members())),
{
    json::bool_is_one_line(get.ok);
    if let Some(value) = get.value {
        json::quoted_text_is_one_line(value@);
    }
    if let Some(value_b64) = get.value_b64 {
        json::quoted_text_is_one_line(value_b64@);
    }
    json::decimal_is_one_line(get.ttl_seconds as nat);
    json::object_is_one_line(get.members());
}

/// Codes go over the wire by these names.
pub proof fn project_codes_go_by_their_names(code: ProjectErrorCode)
    ensures
        code.wire() == match code {
            ProjectErrorCode::Denied => "denied"@,
            ProjectErrorCode::NotFound => "not_found"@,
            ProjectErrorCode::BackendError => "backend_error"@,
            ProjectErrorCode::BackendUnreachable => "backend_unreachable"@,
            ProjectErrorCode::RateLimited => "rate_limited"@,
            ProjectErrorCode::ProtocolError => "protocol_error"@,
            ProjectErrorCode::InternalError => "internal_error"@,
            ProjectErrorCode::PeerUnexpected => "peer_unexpected"@,
        },
{
}

/// A message asks for the operation that it names, a `get` with the secret that it names; it is
/// refused for the first that is missing, repeated or no text, and for an operation that there is
/// not.
pub proof fn project_requests_ask_for_what_they_name(fields: message::Fields)
    ensures
        ({
            let asked = project_request_in(fields);
            let name = message::text_field(fields, "name"@);
            match message::text_field(fields, "op"@) {
                Err(fault) => asked == Err::<ProjectRequestView, _>(fault),
                Ok(op) => {
                    &&& op == "ping"@ ==> asked == Ok::<_, MessageFaultView>(
                        ProjectRequestView::Ping,
                    )
                    &&& op == "info"@ ==> asked == Ok::<_, MessageFaultView>(
                        ProjectRequestView::Info,
                    )
                    &&& op == "get"@ && name is Err ==> asked == Err::<ProjectRequestView, _>(
                        name->Err_0,
                    )
                    &&& op == "get"@ && name is Ok ==> asked == Ok::<_, MessageFaultView>(
                        ProjectRequestView::Get(name->Ok_0),
                    )
                    &&& op != "ping"@ && op != "info"@ && op != "get"@ ==> asked == Err::<
                        ProjectRequestView,
                        _,
                    >(MessageFaultView::UnknownOp(op, "`get`, `ping`, `info`"@))
                },
            }
        }),
{
    reveal_strlit("get");
    reveal_strlit("ping");
    reveal_strlit("info");
    assert("get"@.len() == 3 && "ping"@[0] == 'p' && "info"@[0] == 'i');
    assert("ping"@.len() == 4 && "info"@.len() == 4);
}

/// The bytes of a message ask for what its fields do, and a request is told as it is and written
/// whole.
pub proof fn project_messages_ask_by_their_fields(
    bytes: Seq<u8>,
    request: ProjectRequest,
    name: Seq<char>,
)
    ensures
        match message::message_fields(bytes) {
            Err(fault) => project_request(bytes) == Err::<ProjectRequestView, _>(fault),
            Ok(fields) => project_request(bytes) == project_request_in(fields),
        },
        match request {
            ProjectRequest::Get { name } => request@ == ProjectRequestView::Get(name@),
            ProjectRequest::Ping => request@ == ProjectRequestView::Ping,
            ProjectRequest::Info => request@ == ProjectRequestView::Info,
        },
        ProjectRequestView::Get(name).pairs() == seq![
            ("op"@, Atom::Text("get"@)),
            ("name"@, Atom::Text(name)),
        ],
        ProjectRequestView::Ping.pairs() == seq![("op"@, Atom::Text("ping"@))],
        ProjectRequestView::Info.pairs() == seq![("op"@, Atom::Text("info"@))],
{
}

/// Every answer of a project socket goes out with all that it says, each under its own name, and
/// a `get` with the value that it carries, whole.
pub proof fn project_answers_go_out_whole(
    get: GetResponse,
    ping: PingResponse,
    info: InfoResponse,
)
    ensures
        get.value is Some && get.value_b64 is None ==> get.members() == seq![
            ("ok"@, json::bool_text(get.ok)),
            ("value"@, json::quoted(get.value->0@)),
            ("ttl_seconds"@, text::decimal(get.ttl_seconds as nat)),
        ],
        get.value is None && get.value_b64 is Some ==> get.members() == seq![
            ("ok"@, json::bool_text(get.ok)),
            ("value_b64"@, json::quoted(get.value_b64->0@)),
            ("ttl_seconds"@, text::decimal(get.ttl_seconds as nat)),
        ],
        get.value is None && get.value_b64 is None ==> get.members() == seq![
            ("ok"@, json::bool_text(get.ok)),
            ("ttl_seconds"@, text::decimal(get.ttl_seconds as nat)),
        ],
        get.value is Some && get.value_b64 is Some ==> get.members() == seq![
            ("ok"@, json::bool_text(get.ok)),
            ("value"@, json::quoted(get.value->0@)),
            ("value_b64"@, json::quoted(get.value_b64->0@)),
            ("ttl_seconds"@, text::decimal(get.ttl_seconds as nat)),
        ],
        carries_one_value(get) <==> get.value is Some && get.value_b64 is None || get.value is None
            && get.value_b64 is Some,
        ping.members() == seq![
            ("ok"@, json::bool_text(ping.ok)),
            ("broker_version"@, json::quoted(ping.broker_version@)),
            ("protocol_version"@, text::decimal(ping.protocol_version as nat)),
            ("project"@, json::quoted(ping.project@)),
        ],
        info.members() == seq![
            ("ok"@, json::bool_text(info.ok)),
            ("project"@, json::quoted(info.project@)),
            ("allowlist"@, json::texts_array(text::text_views(info.allowlist@))),
            ("schema_version"@, text::decimal(info.schema_version as nat)),
        ],
{
}

} // verus!
