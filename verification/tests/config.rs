use remo_broker::cli::Cli;
use remo_broker::clock::Span;
use remo_broker::config::{
    config_path, BootstrapSource, BootstrapSourceKind, Config, ConfigError, Overrides, RawConfig,
    DEFAULT_AUDIT_LOG_PATH, DEFAULT_BOOTSTRAP_TOKEN_PATH, DEFAULT_CONFIG_PATH, DEFAULT_SOCKET_DIR,
};
use remo_broker::files::ReadFailure;
use remo_broker::tree::{TomlFault, TomlValue};

fn missing() -> ReadFailure {
    ReadFailure { missing: true, message: "No such file or directory".to_owned() }
}

#[test]
fn defaults_match_documented_values() {
    let c = Config::default();
    assert_eq!(
        c.bootstrap,
        BootstrapSource::File { path: DEFAULT_BOOTSTRAP_TOKEN_PATH.to_owned() }
    );
    assert_eq!(c.socket_dir, DEFAULT_SOCKET_DIR);
    assert_eq!(c.audit_log_path, DEFAULT_AUDIT_LOG_PATH);
    assert_eq!(c.cache_default_ttl, Span::from_secs(900));
    assert_eq!(c.cache_default_max_entries, 32);
    assert_eq!(c.backend_fetch_timeout, Span::from_millis(5000));
}

#[test]
fn parses_full_config() {
    let src = r#"
bootstrap_source = "imds"
bootstrap_token_path = "/tmp/ignored-when-imds"
socket_dir = "/var/run/broker"
audit_log_path = "/tmp/audit.log"
cache_default_ttl_seconds = 60
cache_default_max_entries = 4
backend_fetch_timeout_ms = 1000
"#;
    let c = Config::from_toml_str(src, &Overrides::default()).unwrap();
    assert_eq!(c.bootstrap, BootstrapSource::Imds);
    assert_eq!(c.socket_dir, "/var/run/broker");
    assert_eq!(c.audit_log_path, "/tmp/audit.log");
    assert_eq!(c.cache_default_ttl, Span::from_secs(60));
    assert_eq!(c.cache_default_max_entries, 4);
    assert_eq!(c.backend_fetch_timeout, Span::from_millis(1000));
}

#[test]
fn empty_toml_yields_defaults() {
    let c = Config::from_toml_str("", &Overrides::default()).unwrap();
    assert_eq!(c, Config::default());
}

#[test]
fn file_source_uses_default_token_path_when_omitted() {
    let c = Config::from_toml_str(r#"bootstrap_source = "file""#, &Overrides::default()).unwrap();
    assert_eq!(
        c.bootstrap,
        BootstrapSource::File { path: DEFAULT_BOOTSTRAP_TOKEN_PATH.to_owned() }
    );
}

#[test]
fn file_source_honors_custom_token_path() {
    let src = r#"
bootstrap_source = "file"
bootstrap_token_path = "/run/secrets/bt"
"#;
    let c = Config::from_toml_str(src, &Overrides::default()).unwrap();
    assert_eq!(c.bootstrap, BootstrapSource::File { path: "/run/secrets/bt".to_owned() });
}

#[test]
fn env_source_parses() {
    let c = Config::from_toml_str(r#"bootstrap_source = "env""#, &Overrides::default()).unwrap();
    assert_eq!(c.bootstrap, BootstrapSource::Env);
}

#[test]
fn rejects_unknown_bootstrap_source() {
    let err =
        Config::from_toml_str(r#"bootstrap_source = "vault""#, &Overrides::default()).unwrap_err();
    assert!(matches!(err, ConfigError::Parse { .. }));
}

#[test]
fn config_rejects_unknown_top_level_key() {
    let err = Config::from_toml_str("nonsense = 1\n", &Overrides::default()).unwrap_err();
    assert!(matches!(err, ConfigError::Parse { .. }));
}

#[test]
fn config_rejects_cache_ttl_out_of_range_zero() {
    let err = Config::from_toml_str("cache_default_ttl_seconds = 0\n", &Overrides::default())
        .unwrap_err();
    assert!(matches!(err, ConfigError::CacheTtlOutOfRange(0)));
}

#[test]
fn config_rejects_cache_ttl_out_of_range_high() {
    let err = Config::from_toml_str("cache_default_ttl_seconds = 86401\n", &Overrides::default())
        .unwrap_err();
    assert!(matches!(err, ConfigError::CacheTtlOutOfRange(86401)));
}

#[test]
fn config_rejects_cache_max_entries_out_of_range() {
    let err = Config::from_toml_str("cache_default_max_entries = 2048\n", &Overrides::default())
        .unwrap_err();
    assert!(matches!(err, ConfigError::CacheMaxEntriesOutOfRange(2048)));
}

#[test]
fn rejects_zero_backend_timeout() {
    let err = Config::from_toml_str("backend_fetch_timeout_ms = 0\n", &Overrides::default())
        .unwrap_err();
    assert!(matches!(err, ConfigError::BackendTimeoutZero));
}

#[test]
fn cli_overrides_beat_file_and_defaults() {
    let src = r#"
bootstrap_source = "file"
cache_default_ttl_seconds = 60
"#;
    let overrides = Overrides {
        bootstrap_source: Some(BootstrapSourceKind::Imds),
        cache_default_ttl_seconds: Some(120),
        socket_dir: Some("/custom/sock".to_owned()),
        ..Default::default()
    };
    let c = Config::from_toml_str(src, &overrides).unwrap();
    assert_eq!(c.bootstrap, BootstrapSource::Imds);
    assert_eq!(c.cache_default_ttl, Span::from_secs(120));
    assert_eq!(c.socket_dir, "/custom/sock");
    // Untouched defaults remain:
    assert_eq!(c.audit_log_path, DEFAULT_AUDIT_LOG_PATH);
}

#[test]
fn load_missing_default_path_returns_defaults() {
    let err =
        Config::load(Some("/tmp/missing.toml"), Err(missing()), &Overrides::default()).unwrap_err();
    assert!(matches!(err, ConfigError::FileNotFound { path } if path == "/tmp/missing.toml"));
    let c = Config::load(None, Err(missing()), &Overrides::default()).unwrap();
    assert_eq!(c, Config::default());
}

#[test]
fn load_with_temp_file_round_trips() {
    let src = r#"
bootstrap_source = "imds"
cache_default_ttl_seconds = 120
"#;
    let c = Config::load(Some("/tmp/config.toml"), Ok(src.to_owned()), &Overrides::default())
        .unwrap();
    assert_eq!(c.bootstrap, BootstrapSource::Imds);
    assert_eq!(c.cache_default_ttl, Span::from_secs(120));
}

#[test]
fn load_failures_name_the_file() {
    let denied = ReadFailure { missing: false, message: "Permission denied".to_owned() };
    match Config::load(None, Err(denied), &Overrides::default()).unwrap_err() {
        ConfigError::Io { path, message } => {
            assert_eq!(path, DEFAULT_CONFIG_PATH);
            assert_eq!(message, "Permission denied");
        }
        other => panic!("unexpected: {other:?}"),
    }
    match Config::load(Some("/c.toml"), Ok("a = ".to_owned()), &Overrides::default()).unwrap_err() {
        ConfigError::Parse { path, source: TomlFault::Syntax(_) } => assert_eq!(path, "/c.toml"),
        other => panic!("unexpected: {other:?}"),
    }
}

#[test]
fn config_paths() {
    assert_eq!(config_path(None), "/etc/remo-broker/config.toml");
    assert_eq!(config_path(Some("/a")), "/a");
}

#[test]
fn config_faults_say_what_is_wrong() {
    let fault = |src: &str| match Config::from_toml_str(src, &Overrides::default()).unwrap_err() {
        ConfigError::Parse { path, source } => {
            assert_eq!(path, "<inline>");
            source
        }
        other => panic!("unexpected: {other:?}"),
    };
    assert!(matches!(fault("nonsense = 1"), TomlFault::UnknownKey(k) if k == "nonsense"));
    assert!(matches!(fault("socket_dir = 1"), TomlFault::WrongType(k) if k == "socket_dir"));
    assert!(matches!(
        fault("backend_fetch_timeout_ms = -1"),
        TomlFault::WrongType(k) if k == "backend_fetch_timeout_ms"
    ));
    assert!(matches!(
        fault("backend_fetch_timeout_ms = 4294967296"),
        TomlFault::WrongType(k) if k == "backend_fetch_timeout_ms"
    ));
    assert!(matches!(
        fault("cache_default_ttl_seconds = 1.5"),
        TomlFault::WrongType(k) if k == "cache_default_ttl_seconds"
    ));
    assert!(matches!(
        fault("cache_default_max_entries = 1979-05-27"),
        TomlFault::WrongType(k) if k == "cache_default_max_entries"
    ));
    assert!(matches!(fault("audit_log_path = [true]"), TomlFault::WrongType(_)));
}

#[test]
fn config_range_edges_are_accepted() {
    let src = "cache_default_ttl_seconds = 86400\ncache_default_max_entries = 1024\n\
               backend_fetch_timeout_ms = 4294967295\n";
    let c = Config::from_toml_str(src, &Overrides::default()).unwrap();
    assert_eq!(c.cache_default_ttl, Span::from_secs(86400));
    assert_eq!(c.cache_default_max_entries, 1024);
    assert_eq!(c.backend_fetch_timeout.nanos, 4_294_967_295_000_000);
    let low = "cache_default_ttl_seconds = 1\ncache_default_max_entries = 1\n\
               backend_fetch_timeout_ms = 1\n";
    assert!(Config::from_toml_str(low, &Overrides::default()).is_ok());
    let none = Config::from_toml_str("cache_default_max_entries = 0", &Overrides::default());
    assert!(matches!(none, Err(ConfigError::CacheMaxEntriesOutOfRange(0))));
}

#[test]
fn flags_part_from_the_config_path() {
    let cli = Cli {
        config: Some("/c".to_owned()),
        bootstrap_source: Some(BootstrapSourceKind::Env),
        bootstrap_token_path: Some("/t".to_owned()),
        socket_dir: Some("/s".to_owned()),
        audit_log_path: Some("/a".to_owned()),
        cache_default_ttl_seconds: Some(1),
        cache_default_max_entries: Some(2),
        backend_fetch_timeout_ms: Some(3),
    };
    let (path, overrides) = cli.into_overrides();
    assert_eq!(path.as_deref(), Some("/c"));
    let c = Config::load(path.as_deref(), Ok(String::new()), &overrides).unwrap();
    assert_eq!(c.bootstrap, BootstrapSource::Env);
    assert_eq!(c.socket_dir, "/s");
    assert_eq!(c.audit_log_path, "/a");
    assert_eq!(c.cache_default_ttl, Span::from_secs(1));
    assert_eq!(c.cache_default_max_entries, 2);
    assert_eq!(c.backend_fetch_timeout, Span::from_millis(3));
    assert_eq!(overrides.bootstrap_token_path.as_deref(), Some("/t"));
    assert_eq!(c.clone(), c);
}

#[test]
fn flags_alone_and_file_alone_agree() {
    let by_file = Config::from_toml_str("socket_dir = \"/x\"", &Overrides::default()).unwrap();
    let flags = Overrides { socket_dir: Some("/x".to_owned()), ..Default::default() };
    let by_flag = Config::from_toml_str("", &flags).unwrap();
    assert_eq!(by_file, by_flag);
}

#[test]
fn configurations_from_entries() {
    let entries = |pairs: Vec<(&str, TomlValue)>| -> Vec<(String, TomlValue)> {
        pairs.into_iter().map(|(key, value)| (key.to_owned(), value)).collect()
    };
    let top = entries(vec![
        ("socket_dir", TomlValue::Text("/s".to_owned())),
        ("bootstrap_source", TomlValue::Text("env".to_owned())),
        ("backend_fetch_timeout_ms", TomlValue::Integer(5)),
    ]);
    let raw = RawConfig::from_entries(&top).unwrap();
    assert_eq!(raw.socket_dir.as_deref(), Some("/s"));
    assert_eq!(raw.bootstrap_source, Some(BootstrapSourceKind::Env));
    assert_eq!(raw.backend_fetch_timeout_ms, Some(5));
    assert_eq!(raw.audit_log_path, None);
    let wrong = entries(vec![("socket_dir", TomlValue::Boolean(true))]);
    assert!(matches!(
        RawConfig::from_entries(&wrong).unwrap_err(),
        TomlFault::WrongType(k) if k == "socket_dir"
    ));
    let large = entries(vec![("backend_fetch_timeout_ms", TomlValue::Integer(1 << 32))]);
    assert!(RawConfig::from_entries(&large).is_err());
}

#[test]
fn sources_may_be_written_as_tables() {
    let read = |src: &str| Config::from_toml_str(src, &Overrides::default());
    for src in [
        "bootstrap_source = \"env\"",
        "bootstrap_source = { env = {} }",
        "bootstrap_source = { env = [] }",
        "[bootstrap_source.env]",
    ] {
        assert_eq!(read(src).unwrap().bootstrap, BootstrapSource::Env, "{src}");
    }
    for src in [
        "bootstrap_source = {}",
        "bootstrap_source = { vault = {} }",
        "bootstrap_source = { env = 1 }",
        "bootstrap_source = { env = { a = 1 } }",
        "bootstrap_source = { env = {}, imds = {} }",
        "bootstrap_source = [\"env\"]",
    ] {
        assert!(matches!(read(src), Err(ConfigError::Parse { .. })), "{src}");
    }
}
