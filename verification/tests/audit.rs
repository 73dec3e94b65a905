use remo_broker::audit::{
    AuditEvent, AuditFile, AuditWriter, Decision, FetchEvent, ManifestInvalidEvent, Outcome,
    SendOutcome, ShutdownEvent, SocketRecoveredEvent, Timestamp, WriterLoop, WriterShutdown,
    DEGRADED_BUFFER_CAP,
};
use remo_broker::proto::WireCode;
use serde_json::Value;

fn fixed_ts() -> Timestamp {
    // 2026-05-24 12:34:56.789 UTC
    Timestamp { unix_nanos: 1_779_626_096_789_000_000 }
}

fn sample_fetch_allow() -> FetchEvent {
    FetchEvent {
        timestamp: fixed_ts(),
        project: "myrepo".into(),
        secret_name: "GITHUB_TOKEN".into(),
        decision: Decision::Allow,
        outcome: Outcome::Success,
        peer_pid: Some(12345),
        peer_uid: Some(1000),
        latency_ms: 4,
        backend: Some("vault".into()),
        reason: None,
    }
}

fn sample_fetch_deny() -> FetchEvent {
    FetchEvent {
        timestamp: fixed_ts(),
        project: "myrepo".into(),
        secret_name: "NPM_TOKEN".into(),
        decision: Decision::Deny,
        outcome: Outcome::Success,
        peer_pid: Some(12345),
        peer_uid: Some(1000),
        latency_ms: 0,
        backend: None,
        reason: Some("allowlist".into()),
    }
}

fn value(json: &str) -> Value {
    serde_json::from_str(json).unwrap()
}

fn to_value(event: &AuditEvent) -> Value {
    value(&event.to_json().unwrap())
}

/// A log that is a string, or one that cannot be written.
fn run(events: Vec<AuditEvent>, log: &mut Option<String>) -> WriterShutdown {
    let file = AuditFile::new("/var/log/audit.log".to_owned());
    let mut writer = WriterLoop::new();
    for event in events {
        writer.receive(event);
        write_out(&file, &mut writer, log);
    }
    writer.shutdown()
}

fn write_out(file: &AuditFile, writer: &mut WriterLoop, log: &mut Option<String>) {
    loop {
        let line = match writer.next_write() {
            None => return,
            Some(event) => file.write_event(event),
        };
        let success = match (log.as_mut(), line) {
            (Some(log), Some(line)) => {
                log.push_str(&line);
                true
            }
            _ => false,
        };
        writer.attempted(success);
    }
}

// ---- event serialization shape ----

#[test]
fn fetch_allow_event_serializes_with_all_required_fields() {
    let e = AuditEvent::Fetch(sample_fetch_allow());
    assert_eq!(
        to_value(&e),
        value(
            r#"{
                "event": "fetch",
                "timestamp": "2026-05-24T12:34:56.789Z",
                "project": "myrepo",
                "secret_name": "GITHUB_TOKEN",
                "decision": "allow",
                "outcome": "ok",
                "peer_pid": 12345,
                "peer_uid": 1000,
                "latency_ms": 4,
                "backend": "vault"
            }"#
        )
    );
}

#[test]
fn fetch_deny_event_omits_backend_and_includes_reason() {
    let e = AuditEvent::Fetch(sample_fetch_deny());
    assert_eq!(
        to_value(&e),
        value(
            r#"{
                "event": "fetch",
                "timestamp": "2026-05-24T12:34:56.789Z",
                "project": "myrepo",
                "secret_name": "NPM_TOKEN",
                "decision": "deny",
                "outcome": "ok",
                "peer_pid": 12345,
                "peer_uid": 1000,
                "latency_ms": 0,
                "reason": "allowlist"
            }"#
        )
    );
}

#[test]
fn manifest_invalid_event_serializes_with_dotted_name() {
    let e = AuditEvent::ManifestInvalid(ManifestInvalidEvent {
        timestamp: fixed_ts(),
        project: "myrepo".into(),
        manifest_path: "/projects/myrepo/.devcontainer/remo-broker.toml".into(),
        error: "invalid project.name".into(),
    });
    assert_eq!(
        to_value(&e),
        value(
            r#"{
                "event": "manifest.invalid",
                "timestamp": "2026-05-24T12:34:56.789Z",
                "project": "myrepo",
                "manifest_path": "/projects/myrepo/.devcontainer/remo-broker.toml",
                "error": "invalid project.name"
            }"#
        )
    );
}

#[test]
fn socket_recovered_event_serializes() {
    let e = AuditEvent::SocketRecovered(SocketRecoveredEvent {
        timestamp: fixed_ts(),
        project: "myrepo".into(),
        socket_path: "/run/remo-broker/myrepo.sock".into(),
    });
    assert_eq!(to_value(&e)["event"], "socket.recovered");
    assert_eq!(to_value(&e)["socket_path"], "/run/remo-broker/myrepo.sock");
}

#[test]
fn shutdown_event_serializes_with_tallies() {
    let e = AuditEvent::Shutdown(ShutdownEvent {
        timestamp: fixed_ts(),
        reason: "SIGTERM".into(),
        events_dropped: 3,
        events_in_degraded_buffer: 17,
    });
    let v = to_value(&e);
    assert_eq!(v["event"], "shutdown");
    assert_eq!(v["events_dropped"], 3);
    assert_eq!(v["events_in_degraded_buffer"], 17);
}

#[test]
fn fetch_event_does_not_serialize_a_value_field() {
    let json = AuditEvent::Fetch(sample_fetch_allow()).to_json().unwrap();
    assert!(!json.contains("\"value\""), "found value field: {json}");
    assert!(!json.contains("\"value_b64\""), "found value_b64 field: {json}");
}

#[test]
fn fields_stand_in_their_order() {
    let json = AuditEvent::Fetch(sample_fetch_allow()).render("T");
    assert_eq!(
        json,
        "{\"event\":\"fetch\",\"timestamp\":\"T\",\"project\":\"myrepo\",\
         \"secret_name\":\"GITHUB_TOKEN\",\"decision\":\"allow\",\"outcome\":\"ok\",\
         \"peer_pid\":12345,\"peer_uid\":1000,\"latency_ms\":4,\"backend\":\"vault\"}"
    );
    let bare = FetchEvent {
        peer_pid: None,
        peer_uid: None,
        backend: None,
        ..sample_fetch_allow()
    };
    assert!(AuditEvent::Fetch(bare).render("T").ends_with("\"outcome\":\"ok\",\"latency_ms\":4}"));
}

#[test]
fn numbers_of_every_size() {
    let pids = [(0, "0"), (-1, "-1"), (i32::MIN, "-2147483648"), (i32::MAX, "2147483647")];
    for (pid, text) in pids {
        let e = FetchEvent { peer_pid: Some(pid), ..sample_fetch_allow() };
        assert!(AuditEvent::Fetch(e).render("T").contains(&format!("\"peer_pid\":{text},")));
    }
    let e = AuditEvent::Shutdown(ShutdownEvent {
        timestamp: fixed_ts(),
        reason: "r".into(),
        events_dropped: u64::MAX,
        events_in_degraded_buffer: 10,
    });
    assert!(e.render("T").ends_with(
        "\"events_dropped\":18446744073709551615,\"events_in_degraded_buffer\":10}"
    ));
}

#[test]
fn names_in_the_log() {
    assert_eq!(Decision::Allow.wire_text(), "allow");
    assert_eq!(Decision::Deny.wire_text(), "deny");
    assert_eq!(Outcome::Success.wire_text(), "ok");
    assert_eq!(Outcome::NotFound.wire_text(), "not_found");
    assert_eq!(Outcome::BackendError.wire_text(), "backend_error");
    assert_eq!(Outcome::BackendUnreachable.wire_text(), "backend_unreachable");
}

#[test]
fn moments_that_can_be_written() {
    let shutdown = |unix_nanos: i128| {
        AuditEvent::Shutdown(ShutdownEvent {
            timestamp: Timestamp { unix_nanos },
            reason: "r".into(),
            events_dropped: 0,
            events_in_degraded_buffer: 0,
        })
    };
    assert_eq!(to_value(&shutdown(0))["timestamp"], "1970-01-01T00:00:00Z");
    assert_eq!(
        to_value(&shutdown(253_402_300_799_999_999_999))["timestamp"],
        "9999-12-31T23:59:59.999999999Z"
    );
    assert!(shutdown(253_402_300_800_000_000_000).to_json().is_none());
    assert!(shutdown(i128::MAX).to_json().is_none());
    let file = AuditFile::new("/l".to_owned());
    assert!(file.write_event(&shutdown(i128::MAX)).is_none());
}

// ---- AuditFile ----

#[test]
fn audit_file_writes_each_event_as_one_jsonl_line() {
    let f = AuditFile::new("/tmp/audit.log".to_owned());
    assert_eq!(f.path(), "/tmp/audit.log");
    let mut contents = String::new();
    contents.push_str(&f.write_event(&AuditEvent::Fetch(sample_fetch_allow())).unwrap());
    contents.push_str(&f.write_event(&AuditEvent::Fetch(sample_fetch_deny())).unwrap());
    let lines: Vec<&str> = contents.lines().collect();
    assert_eq!(lines.len(), 2);
    // Each line is independently valid JSON.
    assert_eq!(value(lines[0])["secret_name"], "GITHUB_TOKEN");
    assert_eq!(value(lines[1])["secret_name"], "NPM_TOKEN");
}

#[test]
fn line_breaks_in_fields_stay_in_the_line() {
    let f = AuditFile::new("/l".to_owned());
    let e = FetchEvent { secret_name: "a\nb\r\u{0}".into(), ..sample_fetch_allow() };
    let line = f.write_event(&AuditEvent::Fetch(e)).unwrap();
    assert_eq!(line.matches('\n').count(), 1);
    assert!(line.ends_with('\n'));
    assert_eq!(value(&line)["secret_name"], "a\nb\r\u{0}");
}

// ---- AuditWriter ----

#[test]
fn writer_writes_events_to_file() {
    let mut log = Some(String::new());
    let result = run(
        vec![
            AuditEvent::Fetch(sample_fetch_allow()),
            AuditEvent::Fetch(sample_fetch_deny()),
        ],
        &mut log,
    );
    assert_eq!(result.events_written, 2);
    assert_eq!(result.degraded_buffer_remaining, 0);
    assert_eq!(log.unwrap().lines().count(), 2);
}

#[test]
fn writer_buffers_events_when_file_path_is_unwritable() {
    let result = run(
        vec![
            AuditEvent::Fetch(sample_fetch_allow()),
            AuditEvent::Fetch(sample_fetch_deny()),
        ],
        &mut None,
    );
    assert_eq!(result.events_written, 0);
    assert_eq!(result.degraded_buffer_remaining, 2);
}

#[test]
fn writer_drops_oldest_when_degraded_buffer_full() {
    let events = (0..(DEGRADED_BUFFER_CAP + 5))
        .map(|_| AuditEvent::Fetch(sample_fetch_allow()))
        .collect();
    let result = run(events, &mut None);
    assert!(result.degraded_buffer_remaining <= DEGRADED_BUFFER_CAP as u64);
    assert_eq!(result.degraded_buffer_remaining, DEGRADED_BUFFER_CAP as u64);
}

fn numbered(n: u32) -> AuditEvent {
    AuditEvent::Fetch(FetchEvent { latency_ms: n, ..sample_fetch_allow() })
}

fn numbers(log: &str) -> Vec<u64> {
    log.lines().map(|l| value(l)["latency_ms"].as_u64().unwrap()).collect()
}

#[test]
fn writer_catches_up_in_order() {
    let file = AuditFile::new("/l".to_owned());
    let mut writer = WriterLoop::new();
    for n in 0..3 {
        writer.receive(numbered(n));
        write_out(&file, &mut writer, &mut None);
    }
    let mut log = Some(String::new());
    writer.receive(numbered(3));
    write_out(&file, &mut writer, &mut log);
    assert_eq!(numbers(&log.unwrap()), vec![0, 1, 2, 3]);
    assert_eq!(
        writer.shutdown(),
        WriterShutdown { degraded_buffer_remaining: 0, events_written: 4 }
    );
}

#[test]
fn writer_keeps_the_newest_of_too_many() {
    let file = AuditFile::new("/l".to_owned());
    let mut writer = WriterLoop::new();
    for n in 0..1003 {
        writer.receive(numbered(n));
        write_out(&file, &mut writer, &mut None);
    }
    let mut log = Some(String::new());
    writer.receive(numbered(1003));
    write_out(&file, &mut writer, &mut log);
    let got = numbers(&log.unwrap());
    assert_eq!(got.len(), 1001);
    assert_eq!(got[0], 3);
    assert_eq!(got[1000], 1003);
}

#[test]
fn writer_stops_draining_at_the_first_failure() {
    let mut writer = WriterLoop::new();
    for n in 0..2 {
        writer.receive(numbered(n));
        while writer.next_write().is_some() {
            writer.attempted(false);
        }
    }
    writer.receive(numbered(2));
    assert_eq!(writer.next_write(), Some(&numbered(0)));
    writer.attempted(true);
    assert_eq!(writer.next_write(), Some(&numbered(1)));
    writer.attempted(false);
    assert_eq!(writer.next_write(), Some(&numbered(2)));
    writer.attempted(true);
    assert_eq!(writer.next_write(), None);
    assert_eq!(
        writer.shutdown(),
        WriterShutdown { degraded_buffer_remaining: 1, events_written: 2 }
    );
}

#[test]
fn full_queues_count_as_drops() {
    let mut writer = AuditWriter::new();
    writer.record(SendOutcome::Queued);
    assert_eq!(writer.dropped(), 0);
    writer.record(SendOutcome::Full);
    writer.record(SendOutcome::Full);
    assert_eq!(writer.dropped(), 2);
    writer.record(SendOutcome::Closed);
    assert_eq!(writer.dropped(), 2);
    assert_eq!(
        WriterShutdown::default(),
        WriterShutdown { degraded_buffer_remaining: 0, events_written: 0 }
    );
}
