use remo_broker::audit::{
    AuditEvent, AuditFile, Decision, FetchEvent, ManifestInvalidEvent, Outcome, ShutdownEvent,
    SocketRecoveredEvent, Timestamp,
};
use remo_broker::member::{
    read_name, read_name_member, read_number_member, read_optional_i32_member,
    read_optional_text_member, read_optional_u32_member, read_text_member,
};
use remo_broker::message::{read_members, read_message, MessageFault};

fn fetch() -> FetchEvent {
    FetchEvent {
        timestamp: Timestamp { unix_nanos: 1_779_626_096_789_000_001 },
        project: "my\"repo\\".to_owned(),
        secret_name: "a\nb\u{0}\u{1f511}".to_owned(),
        decision: Decision::Deny,
        outcome: Outcome::BackendUnreachable,
        peer_pid: Some(i32::MIN),
        peer_uid: Some(u32::MAX),
        latency_ms: u32::MAX,
        backend: Some("vault".to_owned()),
        reason: Some("allowlist".to_owned()),
    }
}

fn samples() -> Vec<AuditEvent> {
    let timestamp = Timestamp { unix_nanos: 0 };
    let mut events = vec![
        AuditEvent::ManifestInvalid(ManifestInvalidEvent {
            timestamp,
            project: "a".to_owned(),
            manifest_path: "/p/a/x.toml".to_owned(),
            error: "no\tgood".to_owned(),
        }),
        AuditEvent::SocketRecovered(SocketRecoveredEvent {
            timestamp: Timestamp { unix_nanos: -1 },
            project: String::new(),
            socket_path: "/run/a.sock".to_owned(),
        }),
        AuditEvent::Shutdown(ShutdownEvent {
            timestamp,
            reason: "sigterm".to_owned(),
            events_dropped: u64::MAX,
            events_in_degraded_buffer: 0,
        }),
    ];
    for outcome in
        [Outcome::Success, Outcome::NotFound, Outcome::BackendError, Outcome::BackendUnreachable]
    {
        events.push(AuditEvent::Fetch(FetchEvent { outcome, ..fetch() }));
    }
    // Every choice of members that may be absent.
    for bits in 0..16 {
        let mut e = FetchEvent { decision: Decision::Allow, latency_ms: bits, ..fetch() };
        if bits & 1 == 0 {
            e.peer_pid = None;
        }
        if bits & 2 == 0 {
            e.peer_uid = None;
        }
        if bits & 4 == 0 {
            e.backend = None;
        }
        if bits & 8 == 0 {
            e.reason = None;
        }
        events.push(AuditEvent::Fetch(e));
    }
    events
}

#[test]
fn lines_are_read_back() {
    let file = AuditFile::new("/l".to_owned());
    let mut log = String::new();
    for event in samples() {
        let line = file.write_event(&event).unwrap();
        assert_eq!(AuditEvent::from_slice(line.as_bytes()).unwrap(), event);
        log.push_str(&line);
    }
    let read: Vec<AuditEvent> =
        log.lines().map(|l| AuditEvent::from_slice(l.as_bytes()).unwrap()).collect();
    assert_eq!(read, samples());
    assert_eq!(read.clone(), read);
}

#[test]
fn lines_of_different_events_differ() {
    let lines: Vec<String> = samples().iter().map(|e| e.to_json().unwrap()).collect();
    for (i, a) in lines.iter().enumerate() {
        for (j, b) in lines.iter().enumerate() {
            assert_eq!(a == b, i == j, "{a} {b}");
        }
    }
    let later = FetchEvent { timestamp: Timestamp { unix_nanos: 1 }, ..fetch() };
    let late = FetchEvent { timestamp: Timestamp { unix_nanos: 2 }, ..fetch() };
    assert_ne!(AuditEvent::Fetch(later).to_json(), AuditEvent::Fetch(late).to_json());
}

#[test]
fn lines_by_other_hands() {
    let read = |line: &str| AuditEvent::from_slice(line.as_bytes());
    let short = |rest: &str| {
        format!(
            "{{\"event\":\"fetch\",\"timestamp\":\"1970-01-01T00:00:00Z\",\"project\":\"p\",\
             \"secret_name\":\"s\",{rest}\"latency_ms\":1}}"
        )
    };
    let plain = read(&short("\"decision\":\"allow\",\"outcome\":\"ok\",")).unwrap();
    for rest in [
        " \"outcome\" : \"ok\" , \"decision\" : \"allow\" , ",
        "\"decision\":{\"allow\":null},\"outcome\":{\"ok\":{}},",
        "\"decision\":\"allow\",\"outcome\":\"ok\",\"peer_pid\":null,\"reason\": null ,",
        "\"decision\":\"allow\",\"outcome\":\"ok\",\"new\":[1,{\"a\":2}],\"new\":true,",
    ] {
        assert_eq!(read(&short(rest)).unwrap(), plain, "{rest}");
    }
    // A moment may be written with an offset.
    let line = "{\"timestamp\":\"1970-01-01T01:00:00.5+01:00\",\"project\":\"p\",\
                \"event\":\"socket.recovered\",\"socket_path\":\"/s\"}";
    assert!(matches!(
        read(line).unwrap(),
        AuditEvent::SocketRecovered(e) if e.timestamp.unix_nanos == 500_000_000
    ));
    let fault = |rest: &str| read(&short(rest)).unwrap_err();
    let ok = "\"decision\":\"allow\",\"outcome\":\"ok\",";
    assert!(matches!(fault("\"outcome\":\"ok\","),
        MessageFault::MissingField(k) if k == "decision"));
    for decision in [
        "\"Allow\"",
        "0",
        "{}",
        "{\"allow\":1}",
        "{\"allow\":[]}",
        "{\"allow\":null,\"deny\":null}",
        "[\"allow\"]",
        "null",
    ] {
        let rest = format!("\"decision\":{decision},\"outcome\":\"ok\",");
        assert!(
            matches!(fault(&rest), MessageFault::WrongValue(k) if k == "decision"),
            "{decision}"
        );
    }
    for pid in ["2147483648", "-2147483649", "1.0", "\"1\"", "-0", "1e2"] {
        assert!(
            matches!(
                fault(&format!("{ok}\"peer_pid\":{pid},")),
                MessageFault::WrongValue(k) if k == "peer_pid"
            ),
            "{pid}"
        );
    }
    for uid in ["4294967296", "-1"] {
        assert!(
            matches!(
                fault(&format!("{ok}\"peer_uid\":{uid},")),
                MessageFault::WrongValue(k) if k == "peer_uid"
            ),
            "{uid}"
        );
    }
    assert!(matches!(fault(&format!("{ok}\"backend\":7,")),
        MessageFault::NotText(k) if k == "backend"));
    assert!(matches!(fault(&format!("{ok}\"project\":\"q\",")),
        MessageFault::RepeatedField(k) if k == "project"));
    assert!(matches!(read("{\"event\":\"fetched\"}"),
        Err(MessageFault::WrongValue(k)) if k == "event"));
    assert!(matches!(read("{\"event\":\"shutdown\",\"timestamp\":\"today\"}"),
        Err(MessageFault::WrongValue(k)) if k == "timestamp"));
    assert!(matches!(read("[]"), Err(MessageFault::NotAnObject)));
    assert!(matches!(read("{"), Err(MessageFault::Syntax(_))));
    assert_eq!(
        MessageFault::WrongValue("k".to_owned()).reason(None),
        "invalid value for field `k`"
    );
}

#[test]
fn members_one_by_one() {
    let line = b"{\"t\":\"x\\u0041\", \"n\": 7 ,\"m\":-7,\"z\":null,\"o\":{\"k\":null},\"n2\":7}\n";
    let members = read_members(line).unwrap();
    assert_eq!(members.len(), 6);
    assert_eq!(members[1], ("n".to_owned(), &b" 7 "[..]));
    assert_eq!(read_text_member(&members, "t").unwrap(), "xA");
    assert!(matches!(read_text_member(&members, "n"), Err(MessageFault::NotText(k)) if k == "n"));
    assert_eq!(read_number_member(&members, "n", 7).unwrap(), 7);
    assert!(read_number_member(&members, "n", 6).is_err());
    assert!(read_number_member(&members, "m", 7).is_err());
    assert_eq!(read_optional_i32_member(&members, "m").unwrap(), Some(-7));
    assert_eq!(read_optional_u32_member(&members, "n").unwrap(), Some(7));
    for absent in ["z", "none"] {
        assert_eq!(read_optional_i32_member(&members, absent).unwrap(), None);
        assert_eq!(read_optional_u32_member(&members, absent).unwrap(), None);
        assert_eq!(read_optional_text_member(&members, absent).unwrap(), None);
    }
    assert_eq!(read_optional_text_member(&members, "t").unwrap().as_deref(), Some("xA"));
    assert_eq!(read_name_member(&members, "o").unwrap(), "k");
    assert_eq!(read_name_member(&members, "t").unwrap(), "xA");
    assert_eq!(read_name(b" { \"k\" : { } } ").as_deref(), Some("k"));
    assert_eq!(read_name(b"{}"), None);
    // What is no string has no text.
    let fields = read_message(line).unwrap();
    assert_eq!(fields[0], ("t".to_owned(), Some("xA".to_owned())));
    assert_eq!(fields[4], ("o".to_owned(), None));
}
