use remo_broker::files::ReadFailure;
use remo_broker::manifest::{
    candidates, discover, is_valid_project_name, is_valid_secret_name, Manifest, ManifestError,
    RawAllowlist, RawManifest, RawProject,
};
use remo_broker::tree::{TomlFault, TomlValue};

const MINIMAL: &str = r#"
schema_version = 1
[project]
name = "myrepo"
[allowlist]
secrets = ["GITHUB_TOKEN"]
"#;

#[test]
fn parses_minimal_manifest() {
    let m = Manifest::from_toml_str(MINIMAL, Some("myrepo")).unwrap();
    assert_eq!(m.schema_version, 1);
    assert_eq!(m.project.name, "myrepo");
    assert_eq!(m.allowlist.secrets, vec!["GITHUB_TOKEN"]);
    assert_eq!(m.cache.ttl_seconds, None);
    assert_eq!(m.cache.max_entries, None);
}

#[test]
fn parses_full_manifest() {
    let src = r#"
schema_version = 1
[project]
name = "internal-tool"
description = "Has a description."
[allowlist]
secrets = ["GITHUB_TOKEN", "NPM_TOKEN", "ANTHROPIC_API_KEY"]
[cache]
ttl_seconds = 600
max_entries = 16
"#;
    let m = Manifest::from_toml_str(src, Some("internal-tool")).unwrap();
    assert_eq!(m.project.description.as_deref(), Some("Has a description."));
    assert_eq!(m.allowlist.secrets.len(), 3);
    assert_eq!(m.cache.ttl_seconds, Some(600));
    assert_eq!(m.cache.max_entries, Some(16));
}

#[test]
fn empty_allowlist_is_valid() {
    let src = r#"
schema_version = 1
[project]
name = "myrepo"
[allowlist]
secrets = []
"#;
    let m = Manifest::from_toml_str(src, Some("myrepo")).unwrap();
    assert!(m.allowlist.secrets.is_empty());
}

#[test]
fn rejects_unsupported_schema_version() {
    let src = MINIMAL.replace("schema_version = 1", "schema_version = 2");
    let err = Manifest::from_toml_str(&src, Some("myrepo")).unwrap_err();
    assert!(matches!(err, ManifestError::UnsupportedSchemaVersion(2)));
}

#[test]
fn rejects_invalid_project_name_uppercase() {
    let src = MINIMAL.replace(r#"name = "myrepo""#, r#"name = "MyRepo""#);
    let err = Manifest::from_toml_str(&src, None).unwrap_err();
    assert!(matches!(err, ManifestError::InvalidProjectName { .. }));
}

#[test]
fn rejects_invalid_project_name_leading_dash() {
    let src = MINIMAL.replace(r#"name = "myrepo""#, r#"name = "-foo""#);
    let err = Manifest::from_toml_str(&src, None).unwrap_err();
    assert!(matches!(err, ManifestError::InvalidProjectName { .. }));
}

#[test]
fn rejects_invalid_project_name_too_long() {
    let long = "a".repeat(65);
    let src = MINIMAL.replace(r#"name = "myrepo""#, &format!(r#"name = "{long}""#));
    let err = Manifest::from_toml_str(&src, None).unwrap_err();
    assert!(matches!(err, ManifestError::InvalidProjectName { .. }));
}

#[test]
fn accepts_project_name_at_max_length() {
    let long = "a".repeat(64);
    let src = MINIMAL.replace(r#"name = "myrepo""#, &format!(r#"name = "{long}""#));
    let m = Manifest::from_toml_str(&src, Some(&long)).unwrap();
    assert_eq!(m.project.name.len(), 64);
}

#[test]
fn rejects_name_dir_mismatch() {
    let err = Manifest::from_toml_str(MINIMAL, Some("other")).unwrap_err();
    assert!(matches!(err, ManifestError::NameDirMismatch { .. }));
}

#[test]
fn rejects_invalid_secret_name_hyphen() {
    let src = MINIMAL.replace(r#"["GITHUB_TOKEN"]"#, r#"["NOT-OK"]"#);
    let err = Manifest::from_toml_str(&src, Some("myrepo")).unwrap_err();
    assert!(matches!(err, ManifestError::InvalidSecretName { .. }));
}

#[test]
fn rejects_invalid_secret_name_too_long() {
    let long = "A".repeat(129);
    let src = MINIMAL.replace(r#"["GITHUB_TOKEN"]"#, &format!(r#"["{long}"]"#));
    let err = Manifest::from_toml_str(&src, Some("myrepo")).unwrap_err();
    assert!(matches!(err, ManifestError::InvalidSecretName { .. }));
}

#[test]
fn rejects_duplicate_secrets() {
    let src = MINIMAL.replace(r#"["GITHUB_TOKEN"]"#, r#"["FOO", "FOO"]"#);
    let err = Manifest::from_toml_str(&src, Some("myrepo")).unwrap_err();
    assert!(matches!(err, ManifestError::DuplicateSecret(ref n) if n == "FOO"));
}

#[test]
fn manifest_rejects_cache_ttl_out_of_range_zero() {
    let src = format!("{MINIMAL}\n[cache]\nttl_seconds = 0\n");
    let err = Manifest::from_toml_str(&src, Some("myrepo")).unwrap_err();
    assert!(matches!(err, ManifestError::CacheTtlOutOfRange { value: 0 }));
}

#[test]
fn manifest_rejects_cache_ttl_out_of_range_high() {
    let src = format!("{MINIMAL}\n[cache]\nttl_seconds = 86401\n");
    let err = Manifest::from_toml_str(&src, Some("myrepo")).unwrap_err();
    assert!(matches!(err, ManifestError::CacheTtlOutOfRange { value: 86401 }));
}

#[test]
fn manifest_rejects_cache_max_entries_out_of_range() {
    let src = format!("{MINIMAL}\n[cache]\nmax_entries = 2048\n");
    let err = Manifest::from_toml_str(&src, Some("myrepo")).unwrap_err();
    assert!(matches!(err, ManifestError::CacheMaxEntriesOutOfRange { value: 2048 }));
}

#[test]
fn manifest_rejects_unknown_top_level_key() {
    let src = format!("{MINIMAL}\n[extra]\nfoo = 1\n");
    let err = Manifest::from_toml_str(&src, Some("myrepo")).unwrap_err();
    assert!(matches!(err, ManifestError::Parse { .. }));
}

#[test]
fn rejects_unknown_key_in_known_table() {
    let src = MINIMAL.replace("[project]\nname", "[project]\nbogus = true\nname");
    let err = Manifest::from_toml_str(&src, Some("myrepo")).unwrap_err();
    assert!(matches!(err, ManifestError::Parse { .. }));
}

#[test]
fn rejects_description_too_long() {
    let huge = "x".repeat(257);
    let src = MINIMAL.replace(
        "[project]\nname = \"myrepo\"",
        &format!("[project]\nname = \"myrepo\"\ndescription = \"{huge}\""),
    );
    let err = Manifest::from_toml_str(&src, Some("myrepo")).unwrap_err();
    assert!(matches!(err, ManifestError::DescriptionTooLong { .. }));
}

#[test]
fn load_discovers_devcontainer_path_first() {
    let path = discover("/projects/myrepo", [true, true]).unwrap();
    assert!(path.ends_with(".devcontainer/remo-broker.toml"));
    let (m, path) =
        Manifest::load("/projects/myrepo", [true, true], Ok(MINIMAL.to_owned())).unwrap();
    assert_eq!(path, "/projects/myrepo/.devcontainer/remo-broker.toml");
    assert_eq!(m.allowlist.secrets, vec!["GITHUB_TOKEN"]);
}

#[test]
fn load_falls_back_to_remo_path() {
    let (_m, path) =
        Manifest::load("/projects/myrepo", [false, true], Ok(MINIMAL.to_owned())).unwrap();
    assert!(path.ends_with(".remo/broker.toml"));
}

#[test]
fn load_errors_when_no_manifest_present() {
    let err = Manifest::load("/projects/myrepo", [false, false], Ok(MINIMAL.to_owned()))
        .unwrap_err();
    assert!(matches!(err, ManifestError::NotFound(p) if p == "/projects/myrepo"));
}

#[test]
fn load_failures() {
    let gone = ReadFailure { missing: true, message: "gone".to_owned() };
    match Manifest::load("/p/myrepo/", [false, true], Err(gone)).unwrap_err() {
        ManifestError::Io { path, message } => {
            assert_eq!(path, "/p/myrepo/.remo/broker.toml");
            assert_eq!(message, "gone");
        }
        other => panic!("unexpected: {other:?}"),
    }
    match Manifest::load("/p/other", [true, false], Ok(MINIMAL.to_owned())).unwrap_err() {
        ManifestError::NameDirMismatch { name, dir } => {
            assert_eq!(name, "myrepo");
            assert_eq!(dir, "other");
        }
        other => panic!("unexpected: {other:?}"),
    }
    match Manifest::load("/p/x", [true, false], Ok("!!! not toml !!!".to_owned())).unwrap_err() {
        ManifestError::Parse { path, source: TomlFault::Syntax(message) } => {
            assert_eq!(path, "/p/x/.devcontainer/remo-broker.toml");
            assert!(!message.is_empty());
        }
        other => panic!("unexpected: {other:?}"),
    }
}

#[test]
fn a_directory_without_a_name_sets_no_name() {
    for path in ["/", "..", "/a/..", ""] {
        assert!(Manifest::load(path, [true, false], Ok(MINIMAL.to_owned())).is_ok(), "{path}");
    }
    assert!(Manifest::load("/p/myrepo/.", [true, false], Ok(MINIMAL.to_owned())).is_ok());
    assert!(Manifest::load("myrepo//", [true, false], Ok(MINIMAL.to_owned())).is_ok());
}

#[test]
fn candidates_in_order() {
    let [first, second] = candidates("/p");
    assert_eq!(first, "/p/.devcontainer/remo-broker.toml");
    assert_eq!(second, "/p/.remo/broker.toml");
}

#[test]
fn manifest_faults_say_what_is_wrong() {
    let fault = |src: &str| match Manifest::from_toml_str(src, None).unwrap_err() {
        ManifestError::Parse { path, source } => {
            assert_eq!(path, "<inline>");
            source
        }
        other => panic!("unexpected: {other:?}"),
    };
    assert!(matches!(fault(""), TomlFault::MissingKey(k) if k == "schema_version"));
    assert!(matches!(fault("schema_version = 1"), TomlFault::MissingKey(k) if k == "project"));
    assert!(matches!(
        fault("schema_version = 1\n[project]\n"),
        TomlFault::MissingKey(k) if k == "name"
    ));
    assert!(matches!(
        fault("schema_version = 1\n[project]\nname = \"a\"\n"),
        TomlFault::MissingKey(k) if k == "allowlist"
    ));
    assert!(matches!(
        fault("schema_version = 1\n[project]\nname = \"a\"\n[allowlist]\n"),
        TomlFault::MissingKey(k) if k == "secrets"
    ));
    assert!(matches!(
        fault("schema_version = 1\n[project]\nname = \"a\"\n[allowlist]\nsecrets = [1]\n"),
        TomlFault::WrongType(k) if k == "secrets"
    ));
    assert!(matches!(
        fault(&MINIMAL.replace("schema_version = 1", "schema_version = \"1\"")),
        TomlFault::WrongType(k) if k == "schema_version"
    ));
    assert!(matches!(
        fault(&format!("{MINIMAL}[cache]\nttl = 1\n")),
        TomlFault::UnknownKey(k) if k == "ttl"
    ));
}

#[test]
fn description_counts_characters() {
    let wide = "é".repeat(256);
    let src = MINIMAL.replace(
        "name = \"myrepo\"",
        &format!("name = \"myrepo\"\ndescription = \"{wide}\""),
    );
    assert!(Manifest::from_toml_str(&src, None).is_ok());
    let wider = src.replace("description = \"", "description = \"é");
    assert!(matches!(
        Manifest::from_toml_str(&wider, None),
        Err(ManifestError::DescriptionTooLong { len: 257 })
    ));
}

#[test]
fn first_broken_rule_is_reported() {
    let raw = RawManifest {
        schema_version: 1,
        project: RawProject { name: "a".to_owned(), description: None },
        allowlist: RawAllowlist {
            secrets: vec!["OK".to_owned(), "no!".to_owned(), "OK".to_owned()],
        },
        cache: None,
    };
    assert!(matches!(
        Manifest::validate(raw, Some("a")),
        Err(ManifestError::InvalidSecretName { name }) if name == "no!"
    ));
}

#[test]
fn names() {
    for good in ["a", "0", "a-b_c", "9x"] {
        assert!(is_valid_project_name(good), "{good}");
    }
    for bad in ["", "_a", "-a", "a.b", "a/b", "É", "aé", "A"] {
        assert!(!is_valid_project_name(bad), "{bad}");
    }
    for good in ["A", "_", "a1", &"Z".repeat(128)] {
        assert!(is_valid_secret_name(good), "{good}");
    }
    for bad in ["", "A-B", "A B", "É", &"Z".repeat(129)] {
        assert!(!is_valid_secret_name(bad), "{bad}");
    }
}

#[test]
fn allowlist_is_case_sensitive() {
    let m = Manifest::from_toml_str(MINIMAL, None).unwrap();
    assert!(m.allowlist.permits("GITHUB_TOKEN"));
    assert!(!m.allowlist.permits("github_token"));
    assert!(!m.allowlist.permits(""));
    assert!(m.clone().allowlist.permits("GITHUB_TOKEN"));
}

fn text(s: &str) -> TomlValue {
    TomlValue::Text(s.to_owned())
}

fn entries(pairs: Vec<(&str, TomlValue)>) -> Vec<(String, TomlValue)> {
    pairs.into_iter().map(|(key, value)| (key.to_owned(), value)).collect()
}

#[test]
fn manifests_from_entries() {
    let project = || ("project", TomlValue::Table(entries(vec![("name", text("a"))])));
    let allowlist = |secrets| ("allowlist", TomlValue::Table(entries(vec![("secrets", secrets)])));
    let version = |n| ("schema_version", TomlValue::Integer(n));
    let secrets = || TomlValue::Array(vec![text("FOO"), text("BAR")]);

    let top = entries(vec![allowlist(secrets()), version(7), project()]);
    let raw = RawManifest::from_entries(&top).unwrap();
    assert_eq!(raw.schema_version, 7);
    assert_eq!(raw.project.name, "a");
    assert_eq!(raw.project.description, None);
    assert_eq!(raw.allowlist.secrets, ["FOO", "BAR"]);
    assert!(raw.cache.is_none());

    let fault = |pairs| RawManifest::from_entries(&entries(pairs)).unwrap_err();
    assert!(matches!(
        fault(vec![project(), allowlist(secrets())]),
        TomlFault::MissingKey(k) if k == "schema_version"
    ));
    assert!(matches!(
        fault(vec![version(-1), project(), allowlist(secrets())]),
        TomlFault::WrongType(k) if k == "schema_version"
    ));
    assert!(matches!(
        fault(vec![version(1), project(), allowlist(TomlValue::Array(vec![TomlValue::Float]))]),
        TomlFault::WrongType(k) if k == "secrets"
    ));
    assert!(matches!(
        fault(vec![version(1), project(), allowlist(secrets()), ("extra", text("x"))]),
        TomlFault::UnknownKey(k) if k == "extra"
    ));
}

#[test]
fn tables_may_be_written_as_arrays() {
    let src = "schema_version = 1\nproject = [\"a\", \"what it is\"]\n\
               allowlist = [[\"FOO\", \"BAR\"]]\ncache = [60, 8]\n";
    let m = Manifest::from_toml_str(src, Some("a")).unwrap();
    assert_eq!(m.project.name, "a");
    assert_eq!(m.project.description.as_deref(), Some("what it is"));
    assert_eq!(m.allowlist.secrets, ["FOO", "BAR"]);
    assert_eq!(m.cache.ttl_seconds, Some(60));
    assert_eq!(m.cache.max_entries, Some(8));
    // None of the values may be left out, and what follows them is passed over.
    let with = |project: &str| {
        let src = format!(
            "schema_version = 1\nproject = {project}\n[allowlist]\nsecrets = [\"FOO\"]\n"
        );
        Manifest::from_toml_str(&src, None)
    };
    assert!(with("[\"a\", \"d\", 7]").is_ok());
    for project in ["[\"a\"]", "[]", "[\"a\", 7]", "\"a\""] {
        assert!(
            matches!(
                with(project),
                Err(ManifestError::Parse { source: TomlFault::WrongType(_), .. })
            ),
            "{project}"
        );
    }
}

#[test]
fn refusals_in_words() {
    let parse = |source| ManifestError::Parse { path: "/m".to_owned(), source };
    let name = || "a\"\n\u{e9}".to_owned();
    for (e, words) in [
        (
            ManifestError::Io { path: "/m".to_owned(), message: "denied".to_owned() },
            "failed to read /m: denied",
        ),
        (
            parse(TomlFault::Syntax("line 1".to_owned())),
            "failed to parse TOML in /m: line 1",
        ),
        (
            parse(TomlFault::UnknownKey("k".to_owned())),
            "failed to parse TOML in /m: unknown key `k`",
        ),
        (
            parse(TomlFault::MissingKey("k".to_owned())),
            "failed to parse TOML in /m: missing key `k`",
        ),
        (
            parse(TomlFault::WrongType("k".to_owned())),
            "failed to parse TOML in /m: wrong type or out-of-range value for key `k`",
        ),
        (
            ManifestError::UnsupportedSchemaVersion(2),
            "unsupported schema_version: 2 (supported: [1])",
        ),
        (
            ManifestError::InvalidProjectName { name: name() },
            "invalid project.name \"a\\\"\\n\u{e9}\": must match ^[a-z0-9][a-z0-9_-]{0,63}$",
        ),
        (
            ManifestError::DescriptionTooLong { len: 257 },
            "project.description too long: 257 chars (max 256)",
        ),
        (
            ManifestError::DuplicateSecret("FOO".to_owned()),
            "duplicate secret name in allowlist: \"FOO\"",
        ),
        (
            ManifestError::CacheTtlOutOfRange { value: 86_401 },
            "cache.ttl_seconds out of range: 86401 (must be 1..=86400)",
        ),
        (
            ManifestError::CacheMaxEntriesOutOfRange { value: 0 },
            "cache.max_entries out of range: 0 (must be 1..=1024)",
        ),
    ] {
        assert_eq!(e.text(), words);
    }
}
