use remo_broker::audit::{AuditEvent, Decision, FetchEvent, Outcome, Timestamp};
use remo_broker::backend::backend_reply;
use remo_broker::cache::BoundedCache;
use remo_broker::clock::{Moment, Span};
use remo_broker::fetch::{begin_get, finish_get, BackendReply, GetVerdict, Peer};
use remo_broker::manifest::Manifest;

fn manifest() -> Manifest {
    let src =
        "schema_version = 1\n[project]\nname = \"myrepo\"\n[allowlist]\nsecrets = [\"FOO\"]\n";
    Manifest::from_toml_str(src, None).unwrap()
}

fn at(secs: u64) -> Moment {
    Moment { nanos: Span::from_secs(secs).nanos }
}

fn event(verdict: &GetVerdict, name: &str) -> FetchEvent {
    let peer = Peer { pid: Some(7), uid: None };
    match verdict.event("myrepo", name, peer, Timestamp { unix_nanos: 1 }, 12) {
        AuditEvent::Fetch(e) => {
            assert_eq!(e.project, "myrepo");
            assert_eq!(e.secret_name, name);
            assert_eq!(e.peer_pid, Some(7));
            assert_eq!(e.peer_uid, None);
            assert_eq!(e.latency_ms, 12);
            assert_eq!(e.timestamp, Timestamp { unix_nanos: 1 });
            e
        }
        other => panic!("unexpected: {other:?}"),
    }
}

#[test]
fn denied_without_a_look_at_the_cache() {
    let mut cache = BoundedCache::new(4, Span::from_secs(60));
    finish_get(&mut cache, "BAZ", BackendReply::Value("v".to_owned()), at(0));
    let verdict = begin_get(&manifest(), &mut cache, "BAZ", at(1000)).unwrap();
    assert!(matches!(verdict, GetVerdict::Denied));
    // The entry is expired, and a lookup would have dropped it.
    assert_eq!(cache.len(), 1);
    let e = event(&verdict, "BAZ");
    assert_eq!(e.decision, Decision::Deny);
    assert_eq!(e.outcome, Outcome::Success);
    assert_eq!(e.backend, None);
    assert_eq!(e.reason.as_deref(), Some("allowlist"));
    assert_eq!(
        verdict.answer("BAZ"),
        "{\"ok\":false,\"code\":\"denied\",\
         \"message\":\"Secret 'BAZ' is not in this project's allowlist.\"}"
    );
}

#[test]
fn fetched_then_cached_then_expired() {
    let mut cache = BoundedCache::new(4, Span::from_secs(60));
    assert!(begin_get(&manifest(), &mut cache, "FOO", at(0)).is_none());
    let fetched = finish_get(&mut cache, "FOO", BackendReply::Value("bar".to_owned()), at(0));
    assert_eq!(fetched.answer("FOO"), "{\"ok\":true,\"value\":\"bar\",\"ttl_seconds\":60}");
    let e = event(&fetched, "FOO");
    assert_eq!((e.decision, e.outcome), (Decision::Allow, Outcome::Success));
    assert_eq!(e.backend.as_deref(), Some("fnox"));
    assert_eq!(e.reason, None);

    let cached = begin_get(&manifest(), &mut cache, "FOO", at(55)).unwrap();
    assert_eq!(cached.answer("FOO"), "{\"ok\":true,\"value\":\"bar\",\"ttl_seconds\":5}");
    assert_eq!(event(&cached, "FOO").backend.as_deref(), Some("cache"));

    assert!(begin_get(&manifest(), &mut cache, "FOO", at(60)).is_none());
    assert!(cache.is_empty());
}

#[test]
fn replies_without_a_value() {
    let mut cache = BoundedCache::new(4, Span::from_secs(60));
    let cases = [
        (
            BackendReply::Missing,
            "{\"ok\":false,\"code\":\"not_found\",\"message\":\"Backend has no secret named 'FOO'.\"}",
            Outcome::NotFound,
            Some("fnox"),
        ),
        (
            BackendReply::Failed("Secret 'UNDEFINED' not found".to_owned()),
            "{\"ok\":false,\"code\":\"backend_error\",\
             \"message\":\"fnox-core: Secret 'UNDEFINED' not found\"}",
            Outcome::BackendError,
            Some("fnox"),
        ),
        (
            BackendReply::TimedOut,
            "{\"ok\":false,\"code\":\"backend_unreachable\",\
             \"message\":\"Backend did not answer in time.\"}",
            Outcome::BackendUnreachable,
            Some("fnox"),
        ),
        (
            BackendReply::Absent,
            "{\"ok\":false,\"code\":\"backend_error\",\
             \"message\":\"No backend is configured; start the daemon with --fnox-config.\"}",
            Outcome::BackendError,
            None,
        ),
    ];
    for (reply, answer, outcome, backend) in cases {
        let verdict = finish_get(&mut cache, "FOO", reply, at(0));
        assert_eq!(verdict.answer("FOO"), answer);
        let e = event(&verdict, "FOO");
        assert_eq!(e.decision, Decision::Allow);
        assert_eq!(e.outcome, outcome);
        assert_eq!(e.backend.as_deref(), backend);
        assert_eq!(e.reason, None);
        assert!(cache.is_empty());
    }
}

#[test]
fn answers_stay_on_one_line() {
    let mut cache = BoundedCache::new(4, Span::from_secs(60));
    let value = "-----BEGIN KEY-----\nabc\n-----END KEY-----\n";
    let verdict = finish_get(&mut cache, "FOO", BackendReply::Value(value.to_owned()), at(0));
    let answer = verdict.answer("FOO");
    assert!(!answer.contains('\n'));
    let parsed: serde_json::Value = serde_json::from_str(&answer).unwrap();
    assert_eq!(parsed["value"], value);
}

#[test]
fn events_tell_nothing_of_the_value() {
    let mut cache = BoundedCache::new(4, Span::from_secs(60));
    let one = finish_get(&mut cache, "FOO", BackendReply::Value("one".to_owned()), at(0));
    let two = finish_get(&mut cache, "FOO", BackendReply::Value("two".to_owned()), at(0));
    assert_eq!(event(&one, "FOO"), event(&two, "FOO"));
    assert!(!format!("{one:?}").contains("one\""));
}

#[test]
fn lookups_at_the_backend() {
    assert!(matches!(backend_reply(None), BackendReply::Absent));
    assert!(matches!(backend_reply(Some(Ok(None))), BackendReply::Missing));
    assert!(matches!(
        backend_reply(Some(Ok(Some("v".to_owned())))),
        BackendReply::Value(v) if v == "v"
    ));
    assert!(matches!(
        backend_reply(Some(Err("m".to_owned()))),
        BackendReply::Failed(m) if m == "m"
    ));
}

#[test]
fn an_empty_allowlist_denies_everything() {
    let src = "schema_version = 1\n[project]\nname = \"myrepo\"\n[allowlist]\nsecrets = []\n";
    let manifest = Manifest::from_toml_str(src, None).unwrap();
    let mut cache = BoundedCache::new(4, Span::from_secs(60));
    finish_get(&mut cache, "FOO", BackendReply::Value("v".to_owned()), at(0));
    for name in ["FOO", "", "*"] {
        let verdict = begin_get(&manifest, &mut cache, name, at(1)).unwrap();
        assert!(matches!(verdict, GetVerdict::Denied));
    }
}

#[test]
fn an_outage_outlives_the_cache() {
    let mut cache = BoundedCache::new(4, Span::from_secs(60));
    finish_get(&mut cache, "FOO", BackendReply::Value("v".to_owned()), at(0));
    // While the value lasts, the backend is not needed.
    assert!(begin_get(&manifest(), &mut cache, "FOO", at(59)).is_some());
    // Once it has expired, it is not served again.
    assert!(begin_get(&manifest(), &mut cache, "FOO", at(60)).is_none());
    let verdict = finish_get(&mut cache, "FOO", BackendReply::TimedOut, at(60));
    assert!(verdict.answer("FOO").contains("backend_unreachable"));
    assert!(begin_get(&manifest(), &mut cache, "FOO", at(61)).is_none());
}
