use remo_broker::message::{read_message, split_object, MessageFault};
use remo_broker::proto::admin::{
    AdminError, AdminErrorCode, AdminRequest, BootstrapMode, OkResponse, ProjectStatus,
    RegisterResponse, ReloadResponse, RotateBootstrapResponse, StatusResponse,
};
use remo_broker::proto::project::{
    GetResponse, InfoResponse, PingResponse, ProjectError, ProjectErrorCode, ProjectRequest,
};
use remo_broker::proto::WireCode;
use serde_json::Value;

fn value(json: &str) -> Value {
    serde_json::from_str(json).unwrap()
}

// ---- admin requests ----

#[test]
fn parses_register_request() {
    let req = AdminRequest::from_slice(
        br#"{"op":"register","name":"myrepo","project_path":"/projects/myrepo"}"#,
    )
    .unwrap();
    assert_eq!(
        req,
        AdminRequest::Register {
            name: "myrepo".into(),
            project_path: "/projects/myrepo".into(),
        }
    );
}

#[test]
fn parses_unregister_request() {
    let req = AdminRequest::from_slice(br#"{"op":"unregister","name":"myrepo"}"#).unwrap();
    assert_eq!(req, AdminRequest::Unregister { name: "myrepo".into() });
}

#[test]
fn parses_reload_request() {
    let req = AdminRequest::from_slice(br#"{"op":"reload","name":"myrepo"}"#).unwrap();
    assert_eq!(req, AdminRequest::Reload { name: "myrepo".into() });
}

#[test]
fn parses_status_request() {
    let req = AdminRequest::from_slice(br#"{"op":"status"}"#).unwrap();
    assert_eq!(req, AdminRequest::Status);
}

#[test]
fn parses_rotate_bootstrap_request_kebab_case() {
    let req = AdminRequest::from_slice(br#"{"op":"rotate-bootstrap"}"#).unwrap();
    assert_eq!(req, AdminRequest::RotateBootstrap);
}

#[test]
fn rejects_unknown_admin_op() {
    let err = AdminRequest::from_slice(br#"{"op":"shutdown"}"#).unwrap_err();
    assert!(err.text().contains("shutdown") || err.text().contains("variant"));
    assert_eq!(
        err.text(),
        "unknown variant `shutdown`, expected one of `register`, `unregister`, `reload`, \
         `status`, `rotate-bootstrap`"
    );
}

#[test]
fn requests_that_are_none() {
    let fault = |raw: &[u8]| AdminRequest::from_slice(raw).unwrap_err();
    assert!(matches!(fault(b"{"), MessageFault::Syntax(_)));
    assert!(matches!(fault(b"\xff"), MessageFault::Syntax(_)));
    assert!(matches!(fault(b"[]"), MessageFault::NotAnObject));
    assert!(matches!(fault(b"null"), MessageFault::NotAnObject));
    assert!(matches!(fault(b"{}"), MessageFault::MissingField(k) if k == "op"));
    assert!(matches!(fault(br#"{"op":1}"#), MessageFault::NotText(k) if k == "op"));
    assert!(matches!(fault(br#"{"op":"reload"}"#), MessageFault::MissingField(k) if k == "name"));
    assert!(matches!(
        fault(br#"{"op":"register","name":"a","project_path":true}"#),
        MessageFault::NotText(k) if k == "project_path"
    ));
    assert_eq!(fault(b"{}").text(), "missing field `op`");
    assert_eq!(fault(br#"{"op":{}}"#).text(), "field `op` must be a string");
    assert_eq!(fault(b"1").text(), "expected a JSON object");
}

#[test]
fn requests_may_span_spaces_and_escapes() {
    let req =
        AdminRequest::from_slice(b" { \"name\" : \"a\\u0062\\n\" , \"op\":\"reload\" } \n").unwrap();
    assert_eq!(req, AdminRequest::Reload { name: "ab\n".into() });
}

#[test]
fn repeated_fields() {
    let fault = |raw: &[u8]| AdminRequest::from_slice(raw).unwrap_err();
    assert!(matches!(
        fault(br#"{"op":"status","op":"status"}"#),
        MessageFault::RepeatedField(k) if k == "op"
    ));
    // The same key, written in two ways.
    let twice = fault(br#"{"op":"reload", "name":"a", "na\u006de":"b"}"#);
    assert!(matches!(&twice, MessageFault::RepeatedField(k) if k == "name"));
    assert_eq!(twice.text(), "duplicate field `name`");
    // What an operation does not take may stand there as often as it likes.
    assert_eq!(
        ProjectRequest::from_slice(br#"{"op":"ping","name":"a","name":"b"}"#).unwrap(),
        ProjectRequest::Ping
    );
    assert_eq!(
        ProjectRequest::from_slice(br#"{"x":{"op":1,"op":2},"op":"info","x":null}"#).unwrap(),
        ProjectRequest::Info
    );
}

#[test]
fn written_requests_are_read_back() {
    let names = ["FOO", "", "a b", "\"}:,{\"", "\\", "\u{0}\u{1f}\u{7f}\n\r\t", "\u{e9}\u{1f600}"];
    for name in names {
        let name = name.to_owned();
        for request in [
            AdminRequest::Register { name: name.clone(), project_path: format!("/p/{name}") },
            AdminRequest::Unregister { name: name.clone() },
            AdminRequest::Reload { name: name.clone() },
            AdminRequest::Status,
            AdminRequest::RotateBootstrap,
        ] {
            let line = format!("{}\n", request.to_json());
            assert_eq!(line.matches('\n').count(), 1);
            assert_eq!(AdminRequest::from_slice(line.as_bytes()).unwrap(), request);
        }
        for request in [
            ProjectRequest::Get { name: name.clone() },
            ProjectRequest::Ping,
            ProjectRequest::Info,
        ] {
            let line = format!("{}\n", request.to_json());
            assert_eq!(ProjectRequest::from_slice(line.as_bytes()).unwrap(), request);
        }
    }
    let get = ProjectRequest::Get { name: "GITHUB_TOKEN".into() };
    assert_eq!(get.to_json(), r#"{"op":"get","name":"GITHUB_TOKEN"}"#);
    let register = AdminRequest::Register { name: "myrepo".into(), project_path: "/p".into() };
    assert_eq!(
        register.to_json(),
        r#"{"op":"register","name":"myrepo","project_path":"/p"}"#
    );
}

#[test]
fn messages_down_to_their_fields() {
    let raw = br#" { "a" : "1" , "b":["x",{"c":","}], "}{":"\\\"", "a":null } "#;
    let fields = read_message(raw).unwrap();
    let text = |s: &str| Some(s.to_owned());
    assert_eq!(
        fields,
        vec![
            ("a".to_owned(), text("1")),
            ("b".to_owned(), None),
            ("}{".to_owned(), text("\\\"")),
            ("a".to_owned(), None),
        ]
    );
    assert_eq!(read_message(b"{ }\n").unwrap(), vec![]);
}

#[test]
fn objects_are_cut_between_their_members() {
    let parts = |raw: &'static str| -> Vec<String> {
        split_object(raw.as_bytes())
            .into_iter()
            .map(|part| String::from_utf8(part.to_vec()).unwrap())
            .collect()
    };
    assert_eq!(parts("{}"), ["", "", ""]);
    assert_eq!(parts(r#"{"a":1}"#), ["", "\"a\"", "1", ""]);
    assert_eq!(
        parts(r#"{"a":{"b":2,"c":3},"d":"},:"} "#),
        ["", "\"a\"", r#"{"b":2,"c":3}"#, "\"d\"", "\"},:\"", " "]
    );
    assert_eq!(parts("17"), ["17"]);
}

#[test]
fn requests_from_fields() {
    let field = |key: &str, value: Option<&str>| (key.to_owned(), value.map(str::to_owned));
    let get = vec![field("later", None), field("op", Some("get")), field("name", Some("FOO"))];
    assert_eq!(
        ProjectRequest::from_fields(&get).unwrap(),
        ProjectRequest::Get { name: "FOO".into() }
    );
    let unnamed = vec![field("op", Some("get"))];
    assert!(matches!(
        ProjectRequest::from_fields(&unnamed).unwrap_err(),
        MessageFault::MissingField(k) if k == "name"
    ));
    let register =
        vec![field("project_path", Some("/p")), field("op", Some("register")), field("name", None)];
    assert!(matches!(
        AdminRequest::from_fields(&register).unwrap_err(),
        MessageFault::NotText(k) if k == "name"
    ));
    assert!(matches!(
        AdminRequest::from_fields(&vec![field("op", Some("get"))]).unwrap_err(),
        MessageFault::UnknownOp(op, _) if op == "get"
    ));
}

// ---- admin responses match the wire protocol verbatim ----

#[test]
fn register_response_matches_doc_example() {
    let r = RegisterResponse::new("/run/remo-broker/myrepo.sock");
    assert_eq!(
        value(&r.to_json()),
        value(r#"{"ok": true, "socket_path": "/run/remo-broker/myrepo.sock"}"#)
    );
    assert_eq!(r.to_json(), r#"{"ok":true,"socket_path":"/run/remo-broker/myrepo.sock"}"#);
}

#[test]
fn unregister_response_matches_doc_example() {
    let r = OkResponse::new();
    assert_eq!(value(&r.to_json()), value(r#"{"ok": true}"#));
    assert_eq!(OkResponse::default().to_json(), r#"{"ok":true}"#);
}

#[test]
fn reload_response_matches_doc_example() {
    let r = ReloadResponse::new(vec![
        "GITHUB_TOKEN".into(),
        "NPM_TOKEN".into(),
        "ANTHROPIC_API_KEY".into(),
    ]);
    assert_eq!(
        value(&r.to_json()),
        value(
            r#"{"ok": true, "allowlist": ["GITHUB_TOKEN", "NPM_TOKEN", "ANTHROPIC_API_KEY"]}"#
        )
    );
    assert_eq!(ReloadResponse::new(vec![]).to_json(), r#"{"ok":true,"allowlist":[]}"#);
}

#[test]
fn status_response_matches_doc_example() {
    let r = StatusResponse::new(
        "0.3.1",
        84273,
        BootstrapMode::Imds,
        vec![
            ProjectStatus {
                name: "myrepo".into(),
                socket_path: "/run/remo-broker/myrepo.sock".into(),
                allowlist_size: 3,
                cache_entries: 2,
            },
            ProjectStatus {
                name: "other".into(),
                socket_path: "/run/remo-broker/other.sock".into(),
                allowlist_size: 1,
                cache_entries: 0,
            },
        ],
    );
    assert_eq!(
        value(&r.to_json()),
        value(
            r#"{
                "ok": true,
                "broker_version": "0.3.1",
                "protocol_version": 1,
                "uptime_seconds": 84273,
                "bootstrap_mode": "imds",
                "projects": [
                    {"name": "myrepo", "socket_path": "/run/remo-broker/myrepo.sock", "allowlist_size": 3, "cache_entries": 2},
                    {"name": "other",  "socket_path": "/run/remo-broker/other.sock",  "allowlist_size": 1, "cache_entries": 0}
                ]
            }"#
        )
    );
}

#[test]
fn rotate_bootstrap_response_matches_doc_example() {
    let r = RotateBootstrapResponse::ok();
    assert_eq!(value(&r.to_json()), value(r#"{"ok": true, "backend_auth": "ok"}"#));
}

#[test]
fn manifest_invalid_error_matches_doc_example() {
    let e = AdminError::new(AdminErrorCode::ManifestInvalid, "details here");
    assert_eq!(
        value(&e.to_json()),
        value(r#"{"ok": false, "code": "manifest_invalid", "message": "details here"}"#)
    );
}

#[test]
fn all_admin_error_codes_round_trip() {
    let expected = [
        (AdminErrorCode::ManifestInvalid, "manifest_invalid"),
        (AdminErrorCode::ManifestNotFound, "manifest_not_found"),
        (AdminErrorCode::ProjectUnknown, "project_unknown"),
        (AdminErrorCode::ProjectExists, "project_exists"),
        (AdminErrorCode::BootstrapError, "bootstrap_error"),
        (AdminErrorCode::ProtocolError, "protocol_error"),
        (AdminErrorCode::InternalError, "internal_error"),
    ];
    for (code, wire) in expected {
        assert_eq!(code.wire_text(), wire, "variant {code:?}");
        assert_eq!(AdminErrorCode::from_wire(wire), Some(code));
    }
    assert_eq!(AdminErrorCode::from_wire("denied"), None);
}

// ---- project requests ----

#[test]
fn parses_get_request() {
    let req = ProjectRequest::from_slice(br#"{"op":"get","name":"GITHUB_TOKEN"}"#).unwrap();
    assert_eq!(req, ProjectRequest::Get { name: "GITHUB_TOKEN".into() });
}

#[test]
fn parses_ping_request() {
    let req = ProjectRequest::from_slice(br#"{"op":"ping"}"#).unwrap();
    assert_eq!(req, ProjectRequest::Ping);
}

#[test]
fn parses_info_request() {
    let req = ProjectRequest::from_slice(br#"{"op":"info"}"#).unwrap();
    assert_eq!(req, ProjectRequest::Info);
}

#[test]
fn rejects_unknown_op() {
    let err = ProjectRequest::from_slice(br#"{"op":"nope"}"#).unwrap_err();
    assert!(err.text().contains("nope") || err.text().contains("variant"));
}

#[test]
fn tolerates_unknown_field_on_request() {
    let req = ProjectRequest::from_slice(br#"{"op":"ping","extra":1}"#).unwrap();
    assert_eq!(req, ProjectRequest::Ping);
}

// ---- project responses match the wire protocol verbatim ----

#[test]
fn get_utf8_response_matches_doc_example() {
    let r = GetResponse::utf8("ghp_xxxxxxxxxxxxxxxxxxxx", 542);
    assert_eq!(
        value(&r.to_json()),
        value(r#"{"ok": true, "value": "ghp_xxxxxxxxxxxxxxxxxxxx", "ttl_seconds": 542}"#)
    );
}

#[test]
fn get_binary_response_matches_doc_example() {
    let r = GetResponse::binary("ZGVhZGJlZWY=", 542);
    assert_eq!(
        value(&r.to_json()),
        value(r#"{"ok": true, "value_b64": "ZGVhZGJlZWY=", "ttl_seconds": 542}"#)
    );
}

#[test]
fn ping_response_matches_doc_example() {
    let r = PingResponse::new("0.3.1", "myrepo");
    assert_eq!(
        value(&r.to_json()),
        value(
            r#"{"ok": true, "broker_version": "0.3.1", "protocol_version": 1, "project": "myrepo"}"#
        )
    );
}

#[test]
fn info_response_matches_doc_example() {
    let r = InfoResponse::new("myrepo", vec!["GITHUB_TOKEN".into(), "NPM_TOKEN".into()], 1);
    assert_eq!(
        value(&r.to_json()),
        value(
            r#"{"ok": true, "project": "myrepo", "allowlist": ["GITHUB_TOKEN", "NPM_TOKEN"], "schema_version": 1}"#
        )
    );
}

#[test]
fn denied_error_matches_doc_example() {
    let e = ProjectError::new(
        ProjectErrorCode::Denied,
        "Secret 'NPM_TOKEN' is not in this project's allowlist.",
    );
    assert_eq!(
        value(&e.to_json()),
        value(
            r#"{"ok": false, "code": "denied", "message": "Secret 'NPM_TOKEN' is not in this project's allowlist."}"#
        )
    );
}

#[test]
fn rate_limited_error_includes_retry_after() {
    let e = ProjectError::new(ProjectErrorCode::RateLimited, "Too many fetches in window.")
        .with_retry_after(10);
    assert_eq!(
        value(&e.to_json()),
        value(
            r#"{"ok": false, "code": "rate_limited", "message": "Too many fetches in window.", "retry_after_seconds": 10}"#
        )
    );
}

#[test]
fn all_error_codes_round_trip() {
    let expected = [
        (ProjectErrorCode::Denied, "denied"),
        (ProjectErrorCode::NotFound, "not_found"),
        (ProjectErrorCode::BackendError, "backend_error"),
        (ProjectErrorCode::BackendUnreachable, "backend_unreachable"),
        (ProjectErrorCode::RateLimited, "rate_limited"),
        (ProjectErrorCode::ProtocolError, "protocol_error"),
        (ProjectErrorCode::InternalError, "internal_error"),
        (ProjectErrorCode::PeerUnexpected, "peer_unexpected"),
    ];
    for (code, wire) in expected {
        assert_eq!(code.wire_text(), wire, "variant {code:?}");
        assert_eq!(ProjectErrorCode::from_wire(wire), Some(code));
    }
    assert_eq!(ProjectErrorCode::from_wire(""), None);
}

#[test]
fn strings_are_escaped_as_serde_json_escapes_them() {
    let mut all = String::new();
    for c in 0..0x250u32 {
        if let Some(c) = char::from_u32(c) {
            all.push(c);
        }
    }
    all.push_str("\u{2028}\u{2029}\u{fffd}\u{10ffff}/");
    let r = GetResponse::utf8(&all, 4_294_967_295);
    let json = r.to_json();
    assert!(!json.contains('\n'));
    assert_eq!(
        json,
        format!(
            "{{\"ok\":true,\"value\":{},\"ttl_seconds\":4294967295}}",
            serde_json::to_string(&all).unwrap()
        )
    );
    assert_eq!(value(&json)["value"], Value::String(all));
    let small = GetResponse::utf8("\"\\\u{8}\t\n\u{c}\r\u{1}\u{1f}\u{7f}", 0);
    assert_eq!(
        small.to_json(),
        "{\"ok\":true,\"value\":\"\\\"\\\\\\b\\t\\n\\f\\r\\u0001\\u001f\u{7f}\",\"ttl_seconds\":0}"
    );
}

#[test]
fn messages_can_be_cloned() {
    let request = AdminRequest::Reload { name: "a".into() };
    assert_eq!(request.clone(), request);
    let get = ProjectRequest::Get { name: "FOO".into() };
    assert_eq!(get.clone(), get);
    let error = AdminError::new(AdminErrorCode::ProjectUnknown, "m");
    assert_eq!(error.clone(), error);
}
