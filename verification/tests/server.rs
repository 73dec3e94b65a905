use remo_broker::audit::{AuditEvent, Timestamp};
use remo_broker::clock::{Moment, Span};
use remo_broker::config::{BootstrapSource, BootstrapSourceKind, Config, Overrides};
use remo_broker::files::ReadFailure;
use remo_broker::manifest::Manifest;
use remo_broker::proto::admin::{AdminRequest, BootstrapMode};
use remo_broker::proto::project::ProjectRequest;
use remo_broker::proto::{MAX_MESSAGE_BYTES, PROTOCOL_VERSION};
use remo_broker::registry::{CacheDefaults, ProjectRegistry};
use remo_broker::server::{
    answer_admin, answer_project, bootstrap_mode, deliver, dispatch_admin, handle_admin_connection,
    handle_project_connection, read_line_capped, shutdown_event, ConnectionTurn, LineRead,
    ProjectTurn, Server, ServerError, ServerEvent, ServerStep, ServerTurn, ADMIN_SOCKET_MODE,
    BROKER_VERSION,
};
use remo_broker::sockets::{SocketFault, SocketStep, SocketTurn};
use serde_json::Value;

fn test_config(socket_dir: &str, audit_log: &str) -> Config {
    let overrides = Overrides {
        socket_dir: Some(socket_dir.to_owned()),
        audit_log_path: Some(audit_log.to_owned()),
        bootstrap_source: Some(BootstrapSourceKind::File),
        bootstrap_token_path: Some("/tmp/unused-in-this-test".to_owned()),
        ..Default::default()
    };
    Config::from_toml_str("", &overrides).unwrap()
}

fn start() -> Moment {
    Moment { nanos: 5_000_000_000 }
}

fn server() -> Server {
    Server::new(test_config("/tmp/run", "/tmp/audit.log"), BROKER_VERSION, start())
}

fn send_admin(server: &Server, request: &str) -> Value {
    let line = format!("{request}\n");
    match handle_admin_connection(server, line.as_bytes(), None, start()) {
        ConnectionTurn::Reply(reply) => {
            assert!(reply.ends_with('\n'));
            assert_eq!(reply.matches('\n').count(), 1);
            serde_json::from_str(&reply).unwrap()
        }
        other => panic!("unexpected: {other:?}"),
    }
}

#[test]
fn status_round_trip() {
    let server = server();
    let v = send_admin(&server, r#"{"op":"status"}"#);
    assert_eq!(v["ok"], true);
    assert_eq!(v["protocol_version"], PROTOCOL_VERSION);
    assert_eq!(v["broker_version"], BROKER_VERSION);
    assert_eq!(v["bootstrap_mode"], "file");
    assert_eq!(v["projects"], Value::Array(vec![]));
}

#[test]
fn unknown_op_returns_protocol_error() {
    let server = server();
    let v = send_admin(&server, r#"{"op":"shutdown"}"#);
    assert_eq!(v["ok"], false);
    assert_eq!(v["code"], "protocol_error");
}

#[test]
fn stub_ops_return_internal_error() {
    let server = server();
    for op in [
        r#"{"op":"register","name":"a","project_path":"/p"}"#,
        r#"{"op":"unregister","name":"a"}"#,
        r#"{"op":"reload","name":"a"}"#,
        r#"{"op":"rotate-bootstrap"}"#,
    ] {
        let v = send_admin(&server, op);
        assert_eq!(v["ok"], false, "op={op} response={v}");
        assert_eq!(v["code"], "internal_error", "op={op}");
        assert_eq!(v["message"], "operation not yet implemented in this build");
    }
}

#[test]
fn stale_admin_socket_is_replaced_on_bind() {
    // A file stands at the path: it is removed, and the socket is bound.
    let mut steps = Vec::new();
    let mut step = SocketStep::first();
    loop {
        steps.push(step);
        match step.advance(Ok(())) {
            SocketTurn::Next(next) => step = next,
            SocketTurn::Ready => break,
            SocketTurn::Failed(fault) => panic!("unexpected: {fault:?}"),
        }
    }
    assert_eq!(steps, vec![SocketStep::RemoveStale, SocketStep::Bind, SocketStep::SetMode]);
    // No file stands there: that is just as well.
    let none = ReadFailure { missing: true, message: String::new() };
    assert!(matches!(
        SocketStep::first().advance(Err(none)),
        SocketTurn::Next(SocketStep::Bind)
    ));
    assert_eq!(ADMIN_SOCKET_MODE, 0o600);
}

#[test]
fn status_tells_uptime_in_whole_seconds() {
    let server = server();
    let later = Moment { nanos: start().nanos + 84_273_999_999_999 };
    let json = dispatch_admin(&server, AdminRequest::Status, later);
    assert_eq!(
        json,
        "{\"ok\":true,\"broker_version\":\"0.1.0\",\"protocol_version\":1,\
         \"uptime_seconds\":84273,\"bootstrap_mode\":\"file\",\"projects\":[]}"
    );
}

#[test]
fn bootstrap_modes() {
    assert_eq!(bootstrap_mode(&BootstrapSource::Imds), BootstrapMode::Imds);
    assert_eq!(bootstrap_mode(&BootstrapSource::Env), BootstrapMode::Env);
    let file = BootstrapSource::File { path: "/x".to_owned() };
    assert_eq!(bootstrap_mode(&file), BootstrapMode::File);
}

#[test]
fn lines_up_to_the_limit() {
    assert_eq!(read_line_capped(b"", 4), LineRead::Eof);
    assert_eq!(read_line_capped(b"abc\n", 4), LineRead::Line);
    assert_eq!(read_line_capped(b"abcd", 4), LineRead::Oversized);
    assert_eq!(read_line_capped(b"abc", 4), LineRead::Line);
}

#[test]
fn connections_end_and_answer() {
    let server = server();
    assert!(matches!(handle_admin_connection(&server, b"", None, start()), ConnectionTurn::Close));
    let long = vec![b' '; MAX_MESSAGE_BYTES];
    match handle_admin_connection(&server, &long, None, start()) {
        ConnectionTurn::ReplyAndClose(reply) => {
            let v: Value = serde_json::from_str(&reply).unwrap();
            assert_eq!(v["code"], "protocol_error");
            assert_eq!(v["message"], "admin request exceeds max message size of 65536 bytes");
        }
        other => panic!("unexpected: {other:?}"),
    }
    let v = send_admin(&server, "nonsense");
    assert_eq!(v["code"], "protocol_error");
    assert!(v["message"].as_str().unwrap().starts_with("malformed request: "));
    // The last message of a connection may lack its line break.
    match handle_admin_connection(&server, br#"{"op":"status"}"#, None, start()) {
        ConnectionTurn::Reply(reply) => assert!(reply.starts_with("{\"ok\":true")),
        other => panic!("unexpected: {other:?}"),
    }
}

fn next(server: &Server, step: ServerStep, event: ServerEvent) -> ServerStep {
    match server.advance(step, event) {
        ServerTurn::Next(next) => next,
        other => panic!("unexpected: {other:?}"),
    }
}

#[test]
fn a_life_from_start_to_end() {
    let s = server();
    assert_eq!(s.socket_dir(), "/tmp/run");
    assert_eq!(s.admin_socket_path(), "/tmp/run/admin.sock");
    let mut step = ServerStep::CreateSocketDir;
    for expected in [
        ServerStep::SetDirMode,
        ServerStep::BindAdminSocket,
        ServerStep::NotifyReady,
        ServerStep::InstallSignals,
        ServerStep::Accept,
    ] {
        step = next(&s, step, ServerEvent::Done);
        assert_eq!(step, expected);
    }
    step = next(&s, step, ServerEvent::Connection);
    assert_eq!(step, ServerStep::Serve);
    step = next(&s, step, ServerEvent::Done);
    assert_eq!(step, ServerStep::Accept);
    step = next(&s, step, ServerEvent::Failed("no files left".to_owned()));
    assert_eq!(step, ServerStep::Backoff);
    step = next(&s, step, ServerEvent::Done);
    step = next(&s, step, ServerEvent::Terminated);
    for expected in [ServerStep::Drain, ServerStep::RemoveSocket, ServerStep::FlushAudit] {
        step = next(&s, step, ServerEvent::Failed("no matter".to_owned()));
        assert_eq!(step, expected);
    }
    assert!(matches!(s.advance(step, ServerEvent::Done), ServerTurn::Finished));
}

#[test]
fn failures_at_setup() {
    let s = server();
    let failed = || ServerEvent::Failed("m".to_owned());
    assert!(matches!(
        s.advance(ServerStep::CreateSocketDir, failed()),
        ServerTurn::Failed(ServerError::CreateSocketDir { path, message })
            if path == "/tmp/run" && message == "m"
    ));
    assert_eq!(next(&s, ServerStep::SetDirMode, failed()), ServerStep::BindAdminSocket);
    let bind = ServerEvent::BindFailed(SocketFault::Bind("b".to_owned()));
    assert!(matches!(
        s.advance(ServerStep::BindAdminSocket, bind),
        ServerTurn::Failed(ServerError::BindAdminSocket { path, message })
            if path == "/tmp/run/admin.sock" && message == "b"
    ));
    let mode = ServerEvent::BindFailed(SocketFault::Mode("p".to_owned()));
    assert!(matches!(
        s.advance(ServerStep::BindAdminSocket, mode),
        ServerTurn::Failed(ServerError::AdminSocketPerms { path, message })
            if path == "/tmp/run/admin.sock" && message == "p"
    ));
    assert!(matches!(
        s.advance(ServerStep::InstallSignals, failed()),
        ServerTurn::Failed(ServerError::SignalHandler(message)) if message == "m"
    ));
}

#[test]
fn last_event_of_the_log() {
    let timestamp = Timestamp { unix_nanos: 0 };
    match shutdown_event(timestamp, 3) {
        AuditEvent::Shutdown(e) => {
            assert_eq!(e.reason, "sigterm");
            assert_eq!(e.events_dropped, 3);
            assert_eq!(e.events_in_degraded_buffer, 0);
            assert_eq!(e.timestamp, timestamp);
        }
        other => panic!("unexpected: {other:?}"),
    }
}

fn project_registry() -> ProjectRegistry {
    let defaults = CacheDefaults { max_entries: 4, ttl: Span::from_secs(60) };
    let mut registry = ProjectRegistry::new("/run".to_owned(), defaults);
    let src = "schema_version = 1\n[project]\nname = \"a\"\n[allowlist]\nsecrets = [\"FOO\"]\n";
    let loaded = Manifest::load("/p/a", [true, false], Ok(src.to_owned()));
    registry.register("a", "/p/a", loaded, Ok(())).unwrap();
    registry
}

fn closes(turn: ProjectTurn) -> bool {
    matches!(turn, ProjectTurn::Connection(ConnectionTurn::Close))
}

fn replies(turn: ProjectTurn) -> String {
    match turn {
        ProjectTurn::Connection(ConnectionTurn::Reply(reply)) => reply,
        other => panic!("unexpected: {other:?}"),
    }
}

#[test]
fn project_connections() {
    let mut registry = project_registry();
    let mut send = |project: &str, line: &[u8]| {
        handle_project_connection(&mut registry, project, "0.1.0", line, None, start())
    };
    assert!(closes(send("a", b"")));
    assert_eq!(
        replies(send("a", b"{\"op\":\"ping\"}\n")),
        "{\"ok\":true,\"broker_version\":\"0.1.0\",\"protocol_version\":1,\"project\":\"a\"}\n"
    );
    assert_eq!(
        replies(send("a", b"{\"op\":\"info\"}\n")),
        "{\"ok\":true,\"project\":\"a\",\"allowlist\":[\"FOO\"],\"schema_version\":1}\n"
    );
    match send("a", b"{\"op\":\"get\",\"name\":\"FOO\"}\n") {
        ProjectTurn::AskBackend { name } => assert_eq!(name, "FOO"),
        other => panic!("unexpected: {other:?}"),
    }
    match send("a", b"{\"op\":\"get\",\"name\":\"BAZ\"}\n") {
        ProjectTurn::Settled { name, verdict } => {
            assert_eq!(
                verdict.answer(&name),
                "{\"ok\":false,\"code\":\"denied\",\"message\":\"Secret 'BAZ' is not in this \
                 project's allowlist.\"}"
            );
        }
        other => panic!("unexpected: {other:?}"),
    }
    let v: Value = serde_json::from_str(&replies(send("a", b"{\"op\":\"nope\"}\n"))).unwrap();
    assert_eq!(v["code"], "protocol_error");
    assert_eq!(
        v["message"],
        "malformed request: unknown variant `nope`, expected one of `get`, `ping`, `info`"
    );
    match send("a", &vec![b'x'; MAX_MESSAGE_BYTES]) {
        ProjectTurn::Connection(ConnectionTurn::ReplyAndClose(reply)) => {
            assert!(reply.contains("project request exceeds max message size of 65536 bytes"));
        }
        other => panic!("unexpected: {other:?}"),
    }
    assert!(closes(send("gone", b"{\"op\":\"ping\"}\n")));
}

#[test]
fn answers_that_are_too_long() {
    // The line break counts, and so does every byte of a character.
    let longest = "x".repeat(MAX_MESSAGE_BYTES - 1);
    match deliver(longest.clone()) {
        ConnectionTurn::Reply(line) => assert_eq!(line, format!("{longest}\n")),
        other => panic!("unexpected: {other:?}"),
    }
    for answer in ["x".repeat(MAX_MESSAGE_BYTES), "\u{e9}".repeat(MAX_MESSAGE_BYTES / 2)] {
        match deliver(answer) {
            ConnectionTurn::ReplyAndClose(line) => assert_eq!(
                line,
                "{\"ok\":false,\"code\":\"protocol_error\",\
                 \"message\":\"response exceeds max message size of 65536 bytes\"}\n"
            ),
            other => panic!("unexpected: {other:?}"),
        }
    }
    // An operation that there is not is named in the answer, which may then be too long.
    let server = server();
    let request = format!("{{\"op\":\"{}\"}}\n", "\u{7f}".repeat(MAX_MESSAGE_BYTES - 100));
    assert!(matches!(
        handle_admin_connection(&server, request.as_bytes(), None, start()),
        ConnectionTurn::ReplyAndClose(line) if line.contains("response exceeds")
    ));
}

#[test]
fn answers_to_requests_and_to_what_is_none() {
    let server = server();
    let admin = |request| match answer_admin(&server, request, start()) {
        ConnectionTurn::Reply(reply) => reply,
        other => panic!("unexpected: {other:?}"),
    };
    assert_eq!(
        admin(Ok(AdminRequest::RotateBootstrap)),
        "{\"ok\":false,\"code\":\"internal_error\",\
         \"message\":\"operation not yet implemented in this build\"}\n"
    );
    assert_eq!(
        admin(Err("missing field `op`".to_owned())),
        "{\"ok\":false,\"code\":\"protocol_error\",\
         \"message\":\"malformed request: missing field `op`\"}\n"
    );
    let mut registry = project_registry();
    let mut ask = |project: &str, request| {
        answer_project(&mut registry, project, "0.1.0", request, start())
    };
    assert!(matches!(
        ask("a", Ok(ProjectRequest::Get { name: "FOO".to_owned() })),
        ProjectTurn::AskBackend { name } if name == "FOO"
    ));
    assert!(closes(ask("b", Ok(ProjectRequest::Ping))));
    // A message that is no request is told so, even by a project that has gone.
    for project in ["a", "b"] {
        assert_eq!(
            replies(ask(project, Err("expected a JSON object".to_owned()))),
            "{\"ok\":false,\"code\":\"protocol_error\",\
             \"message\":\"malformed request: expected a JSON object\"}\n"
        );
    }
}

#[test]
fn callers_are_told_what_the_decoder_says() {
    let server = server();
    let admin = |line: &[u8], diagnosis: Option<&str>| {
        let diagnosis = diagnosis.map(str::to_owned);
        match handle_admin_connection(&server, line, diagnosis, start()) {
            ConnectionTurn::Reply(reply) => reply,
            other => panic!("unexpected: {other:?}"),
        }
    };
    assert_eq!(
        admin(b"{\n", Some("EOF while parsing an object at line 2 column 0")),
        "{\"ok\":false,\"code\":\"protocol_error\",\"message\":\
         \"malformed request: EOF while parsing an object at line 2 column 0\"}\n"
    );
    // What is wrong with a line decides, not what is said of it.
    assert!(admin(b"{\"op\":\"status\"}\n", Some("nonsense")).starts_with("{\"ok\":true,"));
    assert_eq!(
        admin(b"{\"op\":\"reload\"}\n", None),
        "{\"ok\":false,\"code\":\"protocol_error\",\
         \"message\":\"malformed request: missing field `name`\"}\n"
    );
    let mut registry = project_registry();
    let line = b"{\"op\":\"get\",\"name\":7}\n";
    let said = Some("invalid type: integer `7`, expected a string".to_owned());
    let turn = handle_project_connection(&mut registry, "a", "0.1.0", line, said, start());
    assert_eq!(
        replies(turn),
        "{\"ok\":false,\"code\":\"protocol_error\",\"message\":\
         \"malformed request: invalid type: integer `7`, expected a string\"}\n"
    );
}
