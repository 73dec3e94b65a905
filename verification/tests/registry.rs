use remo_broker::audit::{AuditEvent, Timestamp};
use remo_broker::clock::{Moment, Span};
use remo_broker::fetch::{BackendReply, GetVerdict, ProjectStep};
use remo_broker::files::ReadFailure;
use remo_broker::manifest::{locate, Manifest, ManifestError};
use remo_broker::proto::admin::AdminErrorCode;
use remo_broker::proto::project::ProjectRequest;
use remo_broker::registry::{
    refusal_event, resolve_cache_bounds, CacheDefaults, ProjectRegistry, RegistryError,
    PROJECT_SOCKET_MODE,
};
use remo_broker::sockets::{SocketFault, SocketStep, SocketTurn};

fn defaults() -> CacheDefaults {
    CacheDefaults { max_entries: 32, ttl: Span::from_secs(900) }
}

fn registry() -> ProjectRegistry {
    ProjectRegistry::new("/run/broker".to_owned(), defaults())
}

fn now() -> Moment {
    Moment { nanos: 7_000_000_000 }
}

/// The text of the manifest of a project.
fn write_project(name: &str, allowlist: &[&str]) -> String {
    let secrets =
        allowlist.iter().map(|s| format!("\"{s}\"")).collect::<Vec<_>>().join(", ");
    format!(
        "schema_version = 1\n\n\
         [project]\n\
         name = \"{name}\"\n\n\
         [allowlist]\n\
         secrets = [{secrets}]\n"
    )
}

type Loaded = Result<(Manifest, String), ManifestError>;

fn load(project_dir: &str, manifest: &str) -> Loaded {
    Manifest::load(project_dir, [false, true], Ok(manifest.to_owned()))
}

fn add(registry: &mut ProjectRegistry, name: &str, allowlist: &[&str]) {
    let dir = format!("/projects/{name}");
    let loaded = load(&dir, &write_project(name, allowlist));
    assert!(registry.admits(name, &loaded));
    registry.register(name, &dir, loaded, Ok(())).unwrap();
}

/// Binds a socket at a path, step by step. A file may stand there already.
fn bind(stale: &mut bool, mode: &mut Option<u32>) -> Result<(), SocketFault> {
    let mut step = SocketStep::first();
    loop {
        let done = match step {
            SocketStep::RemoveStale => {
                let was_there = *stale;
                *stale = false;
                if was_there {
                    Ok(())
                } else {
                    Err(ReadFailure { missing: true, message: "not there".to_owned() })
                }
            }
            SocketStep::Bind => {
                if *stale {
                    Err(ReadFailure { missing: false, message: "in use".to_owned() })
                } else {
                    Ok(())
                }
            }
            SocketStep::SetMode => {
                *mode = Some(PROJECT_SOCKET_MODE);
                Ok(())
            }
        };
        match step.advance(done) {
            SocketTurn::Next(next) => step = next,
            SocketTurn::Ready => return Ok(()),
            SocketTurn::Failed(fault) => return Err(fault),
        }
    }
}

#[test]
fn register_creates_socket_with_0660() {
    let mut registry = registry();
    let loaded = load("/projects/alpha", &write_project("alpha", &["FOO"]));
    let (mut stale, mut mode) = (false, None);
    let bound = bind(&mut stale, &mut mode);
    registry.register("alpha", "/projects/alpha", loaded, bound).unwrap();
    let project = registry.project("alpha").unwrap();
    assert_eq!(project.name, "alpha");
    assert_eq!(project.socket_path, "/run/broker/alpha.sock");
    assert_eq!(project.project_path, "/projects/alpha");
    assert_eq!(project.manifest_path, "/projects/alpha/.remo/broker.toml");
    assert_eq!(project.manifest().allowlist.secrets, vec!["FOO".to_string()]);
    assert_eq!(mode, Some(0o660), "project socket must be mode 0660");
}

#[test]
fn duplicate_register_returns_project_exists() {
    let mut registry = registry();
    add(&mut registry, "alpha", &["FOO"]);
    let loaded = load("/projects/alpha", &write_project("alpha", &["BAR"]));
    assert!(!registry.admits("alpha", &loaded));
    let err = registry.register("alpha", "/projects/alpha", loaded, Ok(())).unwrap_err();
    assert!(
        matches!(err, RegistryError::ProjectExists(ref n) if n == "alpha"),
        "expected ProjectExists, got {err:?}",
    );
    assert_eq!(err.code(), AdminErrorCode::ProjectExists);
    let kept = registry.project("alpha").unwrap();
    assert_eq!(kept.manifest().allowlist.secrets, vec!["FOO"]);
}

#[test]
fn register_rejects_name_mismatch() {
    let mut registry = registry();
    let loaded = load("/projects/alpha", &write_project("alpha", &["FOO"]));
    assert!(!registry.admits("beta", &loaded));
    let err = registry.register("beta", "/projects/alpha", loaded, Ok(())).unwrap_err();
    assert!(
        matches!(err, RegistryError::ManifestInvalid(_)),
        "expected ManifestInvalid, got {err:?}",
    );
    assert_eq!(err.code(), AdminErrorCode::ManifestInvalid);
    assert!(matches!(
        err,
        RegistryError::ManifestInvalid(ManifestError::NameDirMismatch { name, dir })
            if name == "alpha" && dir == "beta"
    ));
    assert!(registry.snapshot().is_empty());
}

#[test]
fn register_missing_manifest_returns_manifest_not_found() {
    let mut registry = registry();
    let loaded = Manifest::load("/projects/alpha", [false, false], Ok(String::new()));
    let err = registry.register("alpha", "/projects/alpha", loaded, Ok(())).unwrap_err();
    assert!(
        matches!(err, RegistryError::ManifestNotFound(_)),
        "expected ManifestNotFound, got {err:?}",
    );
    assert_eq!(err.code(), AdminErrorCode::ManifestNotFound);
}

#[test]
fn unregister_returns_handle_and_removes_from_map() {
    let mut registry = registry();
    add(&mut registry, "alpha", &["FOO"]);

    let project = registry.unregister("alpha").unwrap();
    assert_eq!(project.name, "alpha");
    assert!(registry.snapshot().is_empty());

    // Second unregister fails with ProjectUnknown.
    let err = registry.unregister("alpha").unwrap_err();
    assert!(matches!(err, RegistryError::ProjectUnknown(_)));
    assert_eq!(err.code(), AdminErrorCode::ProjectUnknown);
}

#[test]
fn reload_swaps_manifest_atomically() {
    let mut registry = registry();
    add(&mut registry, "alpha", &["FOO"]);
    assert_eq!(
        registry.project("alpha").unwrap().manifest().allowlist.secrets,
        vec!["FOO".to_string()]
    );

    let loaded = load("/projects/alpha", &write_project("alpha", &["FOO", "BAR"]));
    let new_manifest = registry.reload("alpha", loaded).unwrap();
    assert_eq!(new_manifest.allowlist.secrets, vec!["FOO", "BAR"]);
    assert_eq!(
        registry.project("alpha").unwrap().manifest().allowlist.secrets,
        vec!["FOO".to_string(), "BAR".to_string()]
    );
}

#[test]
fn reload_unknown_project_returns_project_unknown() {
    let mut registry = registry();
    let loaded = load("/projects/nope", &write_project("nope", &[]));
    let err = registry.reload("nope", loaded).unwrap_err();
    assert!(matches!(err, RegistryError::ProjectUnknown(_)));
}

#[test]
fn reload_after_manifest_becomes_invalid_returns_manifest_invalid() {
    let mut registry = registry();
    add(&mut registry, "alpha", &["FOO"]);
    let err =
        registry.reload("alpha", load("/projects/alpha", "!!! not toml !!!")).unwrap_err();
    assert!(matches!(err, RegistryError::ManifestInvalid(_)));
    // The old allowlist stays in effect.
    let kept = registry.project("alpha").unwrap();
    assert_eq!(kept.manifest().allowlist.secrets, vec!["FOO"]);
}

#[test]
fn register_replaces_stale_socket_file() {
    let mut registry = registry();
    let loaded = load("/projects/alpha", &write_project("alpha", &["FOO"]));
    let (mut stale, mut mode) = (true, None);
    let bound = bind(&mut stale, &mut mode);
    registry.register("alpha", "/projects/alpha", loaded, bound).unwrap();
    assert_eq!(mode, Some(0o660));
}

#[test]
fn sockets_that_cannot_be_bound() {
    let mut registry = registry();
    let loaded = || load("/projects/alpha", &write_project("alpha", &["FOO"]));
    let bind = Err(SocketFault::Bind("in use".to_owned()));
    match registry.register("alpha", "/projects/alpha", loaded(), bind).unwrap_err() {
        RegistryError::BindSocket { path, message } => {
            assert_eq!(path, "/run/broker/alpha.sock");
            assert_eq!(message, "in use");
        }
        other => panic!("unexpected: {other:?}"),
    }
    let mode = Err(SocketFault::Mode("denied".to_owned()));
    let err = registry.register("alpha", "/projects/alpha", loaded(), mode).unwrap_err();
    assert_eq!(err.code(), AdminErrorCode::InternalError);
    assert!(matches!(err, RegistryError::SocketPerms { message, .. } if message == "denied"));
    assert!(registry.project("alpha").is_none());
}

#[test]
fn socket_steps_that_fail() {
    let failed = |missing| ReadFailure { missing, message: "m".to_owned() };
    assert!(matches!(
        SocketStep::RemoveStale.advance(Err(failed(false))),
        SocketTurn::Failed(SocketFault::Bind(m)) if m == "m"
    ));
    assert!(matches!(
        SocketStep::Bind.advance(Err(failed(true))),
        SocketTurn::Failed(SocketFault::Bind(m)) if m == "m"
    ));
    assert!(matches!(
        SocketStep::SetMode.advance(Err(failed(false))),
        SocketTurn::Failed(SocketFault::Mode(m)) if m == "m"
    ));
}

#[test]
fn manifests_only_lower_cache_bounds() {
    let bounds = |table: &str| {
        let src = format!("{}\n[cache]\n{table}\n", write_project("a", &[]));
        let manifest = Manifest::from_toml_str(&src, None).unwrap();
        resolve_cache_bounds(&manifest, defaults())
    };
    assert_eq!(bounds(""), (32, Span::from_secs(900)));
    assert_eq!(bounds("max_entries = 16\nttl_seconds = 600"), (16, Span::from_secs(600)));
    assert_eq!(bounds("max_entries = 64\nttl_seconds = 3600"), (32, Span::from_secs(900)));
    assert_eq!(bounds("max_entries = 32\nttl_seconds = 900"), (32, Span::from_secs(900)));
}

#[test]
fn socket_paths() {
    assert_eq!(registry().socket_path_for("a"), "/run/broker/a.sock");
    let slashed = ProjectRegistry::new("/run/broker/".to_owned(), defaults());
    assert_eq!(slashed.socket_path_for("a"), "/run/broker/a.sock");
}

fn get(name: &str) -> ProjectRequest {
    ProjectRequest::Get { name: name.to_owned() }
}

fn fetch(registry: &mut ProjectRegistry, project: &str, secret: &str, value: &str) {
    match registry.dispatch(project, "0", get(secret), now()).unwrap() {
        ProjectStep::AskBackend { name } => assert_eq!(name, secret),
        other => panic!("unexpected: {other:?}"),
    }
    let reply = BackendReply::Value(value.to_owned());
    match registry.settle(project, secret, reply, now()).unwrap() {
        GetVerdict::Fetched { value: got, ttl_seconds } => {
            assert_eq!(got.expose(), value);
            assert_eq!(ttl_seconds, 900);
        }
        other => panic!("unexpected: {other:?}"),
    }
}

#[test]
fn values_stay_with_their_project() {
    let mut registry = registry();
    add(&mut registry, "alpha", &["FOO"]);
    add(&mut registry, "beta", &["FOO"]);
    fetch(&mut registry, "alpha", "FOO", "bar");
    match registry.dispatch("alpha", "0", get("FOO"), now()).unwrap() {
        ProjectStep::Settled { verdict: GetVerdict::Cached { value, .. }, .. } => {
            assert_eq!(value.expose(), "bar")
        }
        other => panic!("unexpected: {other:?}"),
    }
    assert!(matches!(
        registry.dispatch("beta", "0", get("FOO"), now()).unwrap(),
        ProjectStep::AskBackend { .. }
    ));
    assert_eq!(registry.snapshot().len(), 2);
}

#[test]
fn reload_keeps_what_was_fetched() {
    let mut registry = registry();
    add(&mut registry, "alpha", &["FOO"]);
    fetch(&mut registry, "alpha", "FOO", "bar");
    registry.reload("alpha", load("/projects/alpha", &write_project("alpha", &[]))).unwrap();
    // Off the new allowlist, the value is denied though it is held.
    assert!(matches!(
        registry.dispatch("alpha", "0", get("FOO"), now()).unwrap(),
        ProjectStep::Settled { verdict: GetVerdict::Denied, .. }
    ));
    assert_eq!(registry.project("alpha").unwrap().cache.len(), 1);
    let again = load("/projects/alpha", &write_project("alpha", &["FOO"]));
    registry.reload("alpha", again).unwrap();
    assert!(matches!(
        registry.dispatch("alpha", "0", get("FOO"), now()).unwrap(),
        ProjectStep::Settled { verdict: GetVerdict::Cached { .. }, .. }
    ));
}

#[test]
fn unregistering_forgets_what_was_fetched() {
    let mut registry = registry();
    add(&mut registry, "alpha", &["FOO"]);
    fetch(&mut registry, "alpha", "FOO", "bar");
    registry.unregister("alpha").unwrap();
    assert!(registry.dispatch("alpha", "0", get("FOO"), now()).is_none());
    assert!(registry.settle("alpha", "FOO", BackendReply::Missing, now()).is_none());
    add(&mut registry, "alpha", &["FOO"]);
    assert!(matches!(
        registry.dispatch("alpha", "0", get("FOO"), now()).unwrap(),
        ProjectStep::AskBackend { .. }
    ));
}

#[test]
fn refused_manifests_leave_an_event() {
    let mut registry = registry();
    let timestamp = Timestamp { unix_nanos: 7 };
    let told = |e: &RegistryError, name: &str, path: &str| match refusal_event(
        e, name, path, timestamp,
    ) {
        Some(AuditEvent::ManifestInvalid(event)) => {
            assert_eq!(event.timestamp, timestamp);
            assert_eq!(event.project, name);
            assert_eq!(event.manifest_path, path);
            Some(event.error)
        }
        None => None,
        other => panic!("unexpected: {other:?}"),
    };
    let absent = locate("/projects/alpha", [false, false]);
    assert_eq!(absent, "/projects/alpha/.devcontainer/remo-broker.toml");
    let loaded = Manifest::load("/projects/alpha", [false, false], Ok(String::new()));
    let e = registry.register("alpha", "/projects/alpha", loaded, Ok(())).unwrap_err();
    assert_eq!(
        told(&e, "alpha", &absent).as_deref(),
        Some(
            "no manifest under /projects/alpha: expected .devcontainer/remo-broker.toml or \
             .remo/broker.toml"
        )
    );
    let found = locate("/projects/alpha", [false, true]);
    assert_eq!(found, "/projects/alpha/.remo/broker.toml");
    let loaded = load("/projects/alpha", &write_project("alpha", &["FOO"]));
    let e = registry.register("beta", "/projects/alpha", loaded, Ok(())).unwrap_err();
    assert_eq!(
        told(&e, "beta", &found).as_deref(),
        Some("project.name \"alpha\" does not match project directory basename \"beta\"")
    );
    add(&mut registry, "alpha", &["FOO"]);
    let loaded = load("/projects/alpha", &write_project("alpha", &["no good"]));
    let e = registry.reload("alpha", loaded).unwrap_err();
    assert_eq!(
        told(&e, "alpha", &found).as_deref(),
        Some("invalid allowlist secret name \"no good\": must match ^[A-Za-z0-9_]{1,128}$")
    );
    // Nothing is wrong with the manifest here.
    let loaded = load("/projects/alpha", &write_project("alpha", &["FOO"]));
    let e = registry.register("alpha", "/projects/alpha", loaded, Ok(())).unwrap_err();
    assert_eq!(told(&e, "alpha", &found), None);
    let loaded = load("/projects/beta", "!!! not toml !!!");
    assert_eq!(told(&registry.reload("beta", loaded).unwrap_err(), "beta", &found), None);
    let loaded = load("/projects/beta", &write_project("beta", &["FOO"]));
    let bound = Err(SocketFault::Bind("b".to_owned()));
    let e = registry.register("beta", "/projects/beta", loaded, bound).unwrap_err();
    assert_eq!(told(&e, "beta", &found), None);
}
