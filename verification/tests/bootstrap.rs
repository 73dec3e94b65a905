use remo_broker::bootstrap::{
    fetch_env_with_var, fetch_file, fetch_plan, find_status, imds_round_trip, parse_base_url,
    parse_http_response, read_response, BootstrapError, BootstrapToken, EnvRead, FetchPlan,
    ImdsNext, ImdsReply, ImdsStep,
};
use remo_broker::clock::Span;
use remo_broker::config::BootstrapSource;
use remo_broker::files::ReadFailure;

fn missing() -> ReadFailure {
    ReadFailure { missing: true, message: "No such file or directory".to_owned() }
}

// ---- file source ----

#[test]
fn file_present_returns_trimmed_token() {
    let t = fetch_file("/tmp/token", Ok("  hello-token\n\n".to_owned())).unwrap();
    assert_eq!(t.expose(), "hello-token");
}

#[test]
fn file_missing_errors_with_file_not_found() {
    let path = "/tmp/missing-token";
    let err = fetch_file(path, Err(missing())).unwrap_err();
    match err {
        BootstrapError::FileNotFound { path: p } => assert_eq!(p, path),
        other => panic!("unexpected: {other:?}"),
    }
}

#[test]
fn file_empty_errors_with_file_empty() {
    let err = fetch_file("/tmp/token", Ok("   \n\t\n".to_owned())).unwrap_err();
    assert!(matches!(err, BootstrapError::FileEmpty { .. }));
}

#[test]
fn file_that_cannot_be_read_errors_with_io() {
    let failure = ReadFailure { missing: false, message: "Permission denied".to_owned() };
    match fetch_file("/tmp/token", Err(failure)).unwrap_err() {
        BootstrapError::Io { path, message } => {
            assert_eq!(path, "/tmp/token");
            assert_eq!(message, "Permission denied");
        }
        other => panic!("unexpected: {other:?}"),
    }
}

#[test]
fn file_token_keeps_inner_whitespace() {
    let t = fetch_file("/t", Ok("\u{a0}one two\u{2003}\r\n".to_owned())).unwrap();
    assert_eq!(t.expose(), "one two");
}

// ---- env source ----

#[test]
fn env_present_returns_token() {
    let t = fetch_env_with_var("VAR", EnvRead::Value("env-token-value".to_owned())).unwrap();
    assert_eq!(t.expose(), "env-token-value");
}

#[test]
fn env_unset_errors_with_env_unset() {
    match fetch_env_with_var("VAR", EnvRead::Unset).unwrap_err() {
        BootstrapError::EnvUnset { var } => assert_eq!(var, "VAR"),
        other => panic!("unexpected: {other:?}"),
    }
}

#[test]
fn env_empty_errors_with_env_empty() {
    match fetch_env_with_var("VAR", EnvRead::Value(String::new())).unwrap_err() {
        BootstrapError::EnvEmpty { var } => assert_eq!(var, "VAR"),
        other => panic!("unexpected: {other:?}"),
    }
}

#[test]
fn env_that_is_no_text_counts_as_empty() {
    let err = fetch_env_with_var("VAR", EnvRead::NotUnicode).unwrap_err();
    assert!(matches!(err, BootstrapError::EnvEmpty { .. }));
}

#[test]
fn env_token_is_not_trimmed() {
    let t = fetch_env_with_var("VAR", EnvRead::Value(" t ".to_owned())).unwrap();
    assert_eq!(t.expose(), " t ");
}

// ---- imds source ----

struct MockResponse {
    status: u16,
    reason: &'static str,
    body: String,
}

fn ok(body: &str) -> MockResponse {
    MockResponse { status: 200, reason: "OK", body: body.to_owned() }
}

fn http(status: u16, reason: &'static str, body: &str) -> MockResponse {
    MockResponse { status, reason, body: body.to_owned() }
}

/// A metadata service that answers by the path of a request and remembers the paths.
struct MockImds {
    responses: Vec<(&'static str, MockResponse)>,
    seen: Vec<String>,
}

impl MockImds {
    fn new(responses: Vec<(&'static str, MockResponse)>) -> Self {
        Self { responses, seen: Vec::new() }
    }

    fn answer(&mut self, request: &str) -> Vec<u8> {
        let path = request
            .lines()
            .next()
            .and_then(|l| l.split_whitespace().nth(1))
            .unwrap_or("")
            .to_owned();
        self.seen.push(path.clone());
        let fallback = http(404, "Not Found", "");
        let response = self
            .responses
            .iter()
            .find(|(p, _)| *p == path.as_str())
            .map(|(_, r)| r)
            .unwrap_or(&fallback);
        let head = format!(
            "HTTP/1.1 {} {}\r\nContent-Length: {}\r\nConnection: close\r\n\r\n{}",
            response.status,
            response.reason,
            response.body.len(),
            response.body,
        );
        head.into_bytes()
    }
}

fn fetch_imds_at(mock: &mut MockImds, timeout: Span) -> Result<BootstrapToken, BootstrapError> {
    let mut step = ImdsStep::Token;
    loop {
        let endpoint = step.endpoint();
        let reply = ImdsReply::Response(mock.answer(&step.request()));
        let call = imds_round_trip("http://127.0.0.1:8080", &endpoint, timeout, reply);
        match step.advance(call) {
            ImdsNext::Ask(next) => step = next,
            ImdsNext::Done(token) => return Ok(token),
            ImdsNext::Failed(e) => return Err(e),
        }
    }
}

fn imds_happy_path_responses() -> Vec<(&'static str, MockResponse)> {
    let credentials = r#"{
  "Code": "Success",
  "AccessKeyId": "AKIAEXAMPLE",
  "SecretAccessKey": "wJalrXUtnFEMI/K7MDENG/bPxRfiCYEXAMPLEKEY",
  "Token": "AQoEXAMPLEsessiontoken",
  "Expiration": "2026-05-24T12:00:00Z"
}"#;
    vec![
        ("/latest/api/token", ok("mock-imds-token")),
        ("/latest/meta-data/iam/security-credentials/", ok("remo-broker-role")),
        (
            "/latest/meta-data/iam/security-credentials/remo-broker-role",
            ok(credentials),
        ),
    ]
}

#[test]
fn imds_happy_path_returns_credentials_token() {
    let mut mock = MockImds::new(imds_happy_path_responses());
    let token = fetch_imds_at(&mut mock, Span::from_secs(2)).unwrap();
    assert!(token.expose().contains("AKIAEXAMPLE"));
    assert!(token.expose().contains("AQoEXAMPLEsessiontoken"));
    assert_eq!(
        mock.seen,
        vec![
            "/latest/api/token".to_owned(),
            "/latest/meta-data/iam/security-credentials/".to_owned(),
            "/latest/meta-data/iam/security-credentials/remo-broker-role".to_owned(),
        ]
    );
}

#[test]
fn imds_500_on_token_endpoint_surfaces_imds_http() {
    let mut mock = MockImds::new(vec![(
        "/latest/api/token",
        http(500, "Internal Server Error", "boom"),
    )]);
    match fetch_imds_at(&mut mock, Span::from_secs(2)).unwrap_err() {
        BootstrapError::ImdsHttp { status, body, .. } => {
            assert_eq!(status, 500);
            assert_eq!(body, "boom");
        }
        other => panic!("unexpected: {other:?}"),
    }
}

#[test]
fn imds_empty_role_list_returns_no_instance_role() {
    let mut mock = MockImds::new(vec![
        ("/latest/api/token", ok("tok")),
        ("/latest/meta-data/iam/security-credentials/", ok("\n\n")),
    ]);
    let err = fetch_imds_at(&mut mock, Span::from_secs(2)).unwrap_err();
    assert!(
        matches!(err, BootstrapError::ImdsNoInstanceRole),
        "expected ImdsNoInstanceRole, got: {err:?}"
    );
}

#[test]
fn imds_empty_token_body_is_rejected() {
    let mut mock = MockImds::new(vec![("/latest/api/token", ok(""))]);
    let err = fetch_imds_at(&mut mock, Span::from_secs(2)).unwrap_err();
    assert!(
        matches!(err, BootstrapError::ImdsEmptyToken),
        "expected ImdsEmptyToken, got: {err:?}"
    );
}

#[test]
fn imds_connection_refused_returns_connect_error() {
    let reply = ImdsReply::ConnectFailed("Connection refused".to_owned());
    let call = imds_round_trip("http://127.0.0.1:9", "/x", Span::from_secs(2), reply);
    match ImdsStep::Token.advance(call) {
        ImdsNext::Failed(BootstrapError::ImdsConnect { addr, message }) => {
            assert_eq!(addr, "127.0.0.1:9");
            assert_eq!(message, "Connection refused");
        }
        _ => panic!("expected connect error"),
    }
}

#[test]
fn fetch_token_routes_imds_variant_to_real_path() {
    match fetch_plan(&BootstrapSource::Imds) {
        FetchPlan::AskImds { base_url, timeout } => {
            assert_eq!(base_url, "http://169.254.169.254");
            assert_eq!(timeout, Span::from_secs(2));
        }
        other => panic!("unexpected: {other:?}"),
    }
}

#[test]
fn fetch_plan_of_file_and_env() {
    match fetch_plan(&BootstrapSource::File { path: "/a/b".to_owned() }) {
        FetchPlan::ReadFile { path } => assert_eq!(path, "/a/b"),
        other => panic!("unexpected: {other:?}"),
    }
    match fetch_plan(&BootstrapSource::Env) {
        FetchPlan::ReadEnv { var } => assert_eq!(var, "REMO_BROKER_BOOTSTRAP_TOKEN"),
        other => panic!("unexpected: {other:?}"),
    }
}

#[test]
fn imds_requests_to_the_letter() {
    assert_eq!(
        ImdsStep::Token.request(),
        "PUT /latest/api/token HTTP/1.1\r\n\
         Host: 169.254.169.254\r\n\
         X-aws-ec2-metadata-token-ttl-seconds: 21600\r\n\
         Content-Length: 0\r\n\
         Connection: close\r\n\
         \r\n"
    );
    let role = ImdsStep::Role { metadata_token: "tok".to_owned() };
    assert_eq!(
        role.request(),
        "GET /latest/meta-data/iam/security-credentials/ HTTP/1.1\r\n\
         Host: 169.254.169.254\r\n\
         X-aws-ec2-metadata-token: tok\r\n\
         Connection: close\r\n\
         \r\n"
    );
    let credentials =
        ImdsStep::Credentials { metadata_token: "tok".to_owned(), role: "r1".to_owned() };
    assert_eq!(
        credentials.request(),
        "GET /latest/meta-data/iam/security-credentials/r1 HTTP/1.1\r\n\
         Host: 169.254.169.254\r\n\
         X-aws-ec2-metadata-token: tok\r\n\
         Connection: close\r\n\
         \r\n"
    );
}

#[test]
fn imds_takes_the_first_role_that_is_listed() {
    let role = ImdsStep::Role { metadata_token: "tok".to_owned() };
    match role.advance(Ok("\r\n  first \r\nsecond\n".to_owned())) {
        ImdsNext::Ask(ImdsStep::Credentials { metadata_token, role }) => {
            assert_eq!(metadata_token, "tok");
            assert_eq!(role, "first");
        }
        _ => panic!("unexpected turn"),
    }
}

#[test]
fn imds_token_is_trimmed_and_credentials_are_not() {
    match ImdsStep::Token.advance(Ok(" tok\n".to_owned())) {
        ImdsNext::Ask(ImdsStep::Role { metadata_token }) => assert_eq!(metadata_token, "tok"),
        _ => panic!("unexpected turn"),
    }
    let last = ImdsStep::Credentials { metadata_token: "t".to_owned(), role: "r".to_owned() };
    match last.advance(Ok(" {}\n".to_owned())) {
        ImdsNext::Done(token) => assert_eq!(token.expose(), " {}\n"),
        _ => panic!("unexpected turn"),
    }
}

#[test]
fn imds_calls_that_bring_no_response() {
    let timed_out =
        imds_round_trip("http://h:1", "/e", Span::from_millis(1500), ImdsReply::TimedOut);
    match timed_out.unwrap_err() {
        BootstrapError::ImdsTimeout { endpoint, timeout_ms } => {
            assert_eq!(endpoint, "/e");
            assert_eq!(timeout_ms, 1500);
        }
        other => panic!("unexpected: {other:?}"),
    }
    let broken = imds_round_trip(
        "http://h:1",
        "/e",
        Span::from_secs(2),
        ImdsReply::IoFailed("reset".to_owned()),
    );
    match broken.unwrap_err() {
        BootstrapError::ImdsIo(message) => assert_eq!(message, "reset"),
        other => panic!("unexpected: {other:?}"),
    }
    let nowhere = imds_round_trip("ftp://h", "/e", Span::from_secs(2), ImdsReply::TimedOut);
    match nowhere.unwrap_err() {
        BootstrapError::ImdsInvalidBaseUrl(url) => assert_eq!(url, "ftp://h"),
        other => panic!("unexpected: {other:?}"),
    }
}

#[test]
fn parse_base_url_accepts_host_only() {
    let (h, p) = parse_base_url("http://example.com").unwrap();
    assert_eq!(h, "example.com");
    assert_eq!(p, 80);
}

#[test]
fn parse_base_url_accepts_host_port() {
    let (h, p) = parse_base_url("http://127.0.0.1:12345").unwrap();
    assert_eq!(h, "127.0.0.1");
    assert_eq!(p, 12345);
}

#[test]
fn parse_base_url_rejects_https() {
    let err = parse_base_url("https://example.com").unwrap_err();
    assert!(matches!(err, BootstrapError::ImdsInvalidBaseUrl(_)));
}

#[test]
fn parse_base_url_rejects_bad_port() {
    let err = parse_base_url("http://example.com:notaport").unwrap_err();
    assert!(matches!(err, BootstrapError::ImdsInvalidBaseUrl(_)));
}

#[test]
fn parse_base_url_edges() {
    assert_eq!(parse_base_url("http://h/a:b/c").unwrap(), ("h".to_owned(), 80));
    assert_eq!(parse_base_url("http://a:b:+7").unwrap(), ("a:b".to_owned(), 7));
    assert_eq!(parse_base_url("http://h:65535").unwrap(), ("h".to_owned(), 65535));
    for url in ["http://", "http:///x", "http://:80", "http://h:", "http://h:65536", "http:/", ""] {
        assert!(
            matches!(parse_base_url(url), Err(BootstrapError::ImdsInvalidBaseUrl(u)) if u == url),
            "{url}"
        );
    }
}

#[test]
fn parse_http_response_extracts_body_on_200() {
    let raw = b"HTTP/1.1 200 OK\r\nContent-Length: 5\r\n\r\nhello";
    let body = parse_http_response("/x", raw).unwrap();
    assert_eq!(body, "hello");
}

#[test]
fn parse_http_response_surfaces_non_2xx_as_http_error() {
    let raw = b"HTTP/1.1 401 Unauthorized\r\nContent-Length: 3\r\n\r\nnay";
    let err = parse_http_response("/x", raw).unwrap_err();
    match err {
        BootstrapError::ImdsHttp { status, body, .. } => {
            assert_eq!(status, 401);
            assert_eq!(body, "nay");
        }
        other => panic!("unexpected: {other:?}"),
    }
}

#[test]
fn parse_http_response_rejects_no_headers_separator() {
    let raw = b"not even close to HTTP";
    let err = parse_http_response("/x", raw).unwrap_err();
    assert!(matches!(err, BootstrapError::ImdsMalformedResponse { .. }));
}

#[test]
fn parse_http_response_bodies() {
    let first = parse_http_response("/x", b"HTTP/1.1 299 Y\r\n\r\na\r\n\r\nb").unwrap();
    assert_eq!(first, "a\r\n\r\nb");
    let empty = parse_http_response("/x", b"HTTP/1.1 200\r\n\r\n").unwrap();
    assert_eq!(empty, "");
    let lossy = parse_http_response("/x", b"HTTP/1.1 200\r\n\r\n\xffok").unwrap();
    assert_eq!(lossy, "\u{fffd}ok");
    let text = parse_http_response("/x", "HTTP/1.1 200\r\n\r\nné".as_bytes()).unwrap();
    assert_eq!(text, "né");
}

#[test]
fn parse_http_response_malformed_heads() {
    let heads: [&[u8]; 6] = [
        b"\r\n\r\nbody",
        b"HTTP/1.1\r\n\r\n",
        b"HTTP/1.1 two\r\n\r\n",
        b"HTTP/1.1 70000\r\n\r\n",
        b"HTTP/1.1 200 \xff\r\n\r\n",
        b"\nHTTP/1.1 200\r\n\r\n",
    ];
    for raw in heads {
        match parse_http_response("/e", raw).unwrap_err() {
            BootstrapError::ImdsMalformedResponse { endpoint } => assert_eq!(endpoint, "/e"),
            other => panic!("unexpected: {other:?}"),
        }
    }
}

#[test]
fn parse_http_response_status_bounds() {
    for (raw, status) in [
        (b"HTTP/1.1 199 X\r\n\r\n", 199u16),
        (b"HTTP/1.1 300 X\r\n\r\n", 300u16),
    ] {
        match parse_http_response("/e", raw).unwrap_err() {
            BootstrapError::ImdsHttp { status: got, .. } => assert_eq!(got, status),
            other => panic!("unexpected: {other:?}"),
        }
    }
}

// ---- redaction ----

#[test]
fn debug_output_does_not_leak_value() {
    let t = BootstrapToken::new("super-secret-value-xyz".into());
    let dbg = format!("{t:?}");
    assert!(!dbg.contains("super-secret-value-xyz"), "leaked: {dbg}");
    assert!(dbg.contains("REDACTED"), "no redaction marker: {dbg}");
    assert_eq!(t.clone().expose(), "super-secret-value-xyz");
}

#[test]
fn responses_in_two_parts() {
    assert_eq!(find_status("HTTP/1.1 404 Not Found\r\nServer: x"), Some(404));
    assert_eq!(find_status("HTTP/1.1\r\n200"), None);
    assert_eq!(find_status("HTTP/1.1 65536"), None);
    assert_eq!(find_status(""), None);
    let head = || Some("HTTP/1.0 204 No Content".to_owned());
    assert_eq!(read_response("/e", head(), " b\n".to_owned()).unwrap(), " b\n");
    assert!(matches!(
        read_response("/e", None, "b".to_owned()).unwrap_err(),
        BootstrapError::ImdsMalformedResponse { endpoint } if endpoint == "/e"
    ));
    assert!(matches!(
        read_response("/e", Some("HTTP/1.1 300 x".to_owned()), "b".to_owned()).unwrap_err(),
        BootstrapError::ImdsHttp { endpoint, status: 300, body } if endpoint == "/e" && body == "b"
    ));
}

#[test]
fn bodies_are_read_as_utf8() {
    let raw = "HTTP/1.1 200 OK\r\n\r\nt\u{f6}k\u{1f511}\r\n\r\nrest";
    assert_eq!(
        parse_http_response("/e", raw.as_bytes()).unwrap(),
        "t\u{f6}k\u{1f511}\r\n\r\nrest"
    );
    assert_eq!(parse_http_response("/e", b"HTTP/1.1 200 OK\r\n\r\na\xffb").unwrap(), "a\u{fffd}b");
    let reply = ImdsReply::Response(b"HTTP/1.1 200 OK\r\n\r\nbody".to_vec());
    assert_eq!(
        imds_round_trip("http://h:1", "/e", Span::from_secs(2), reply).unwrap(),
        "body"
    );
}
