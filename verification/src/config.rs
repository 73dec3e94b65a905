//! Daemon configuration: built-in defaults, under a TOML file, under command-line flags.

use crate::clock::Span;
use crate::files::ReadFailure;
use crate::text::{self, copy_optional, copy_text};
use crate::tree::{
    self, find_entry, only_known, read_document, read_text, read_u32, TomlEntries, TomlFault,
    TomlFaultView, TomlNode, TomlValue,
};
use vstd::prelude::*;

verus! {

pub const DEFAULT_CONFIG_PATH: &'static str = "/etc/remo-broker/config.toml";

pub const DEFAULT_BOOTSTRAP_TOKEN_PATH: &'static str = "/etc/remo-broker/bootstrap-token";

pub const DEFAULT_SOCKET_DIR: &'static str = "/run/remo-broker";

pub const DEFAULT_AUDIT_LOG_PATH: &'static str = "/var/log/remo-broker/audit.log";

pub const DEFAULT_CACHE_TTL_SECONDS: u32 = 900;

pub const DEFAULT_CACHE_MAX_ENTRIES: u32 = 32;

pub const DEFAULT_BACKEND_FETCH_TIMEOUT_MS: u32 = 5_000;

/// The largest cache lifetime that can be configured, in seconds.
pub const CACHE_TTL_LIMIT: u32 = 86_400;

/// The largest number of cache entries that can be configured.
pub const CACHE_MAX_ENTRIES_LIMIT: u32 = 1_024;

/// The environment variable that `BootstrapSource::Env` reads.
pub const BOOTSTRAP_ENV_VAR: &'static str = "REMO_BROKER_BOOTSTRAP_TOKEN";

/// Why there is no configuration.
#[derive(Debug)]
pub enum ConfigError {
    /// A file that was asked for is not there.
    FileNotFound { path: String },
    Io { path: String, message: String },
    Parse { path: String, source: TomlFault },
    CacheTtlOutOfRange(u32),
    CacheMaxEntriesOutOfRange(u32),
    BackendTimeoutZero,
}

/// The model of a `ConfigError`.
pub enum ConfigFault {
    FileNotFound(Seq<char>),
    Io(Seq<char>, Seq<char>),
    Parse(Seq<char>, TomlFaultView),
    CacheTtlOutOfRange(u32),
    CacheMaxEntriesOutOfRange(u32),
    BackendTimeoutZero,
}

impl View for ConfigError {
    type V = ConfigFault;

    open spec fn view(&self) -> ConfigFault {
        match *self {
            ConfigError::FileNotFound { path } => ConfigFault::FileNotFound(path@),
            ConfigError::Io { path, message } => ConfigFault::Io(path@, message@),
            ConfigError::Parse { path, source } => ConfigFault::Parse(path@, source@),
            ConfigError::CacheTtlOutOfRange(v) => ConfigFault::CacheTtlOutOfRange(v),
            ConfigError::CacheMaxEntriesOutOfRange(v) => ConfigFault::CacheMaxEntriesOutOfRange(v),
            ConfigError::BackendTimeoutZero => ConfigFault::BackendTimeoutZero,
        }
    }
}

/// The daemon's configuration, complete and validated.
#[derive(Debug, PartialEq, Eq)]
pub struct Config {
    pub bootstrap: BootstrapSource,
    pub socket_dir: String,
    pub audit_log_path: String,
    pub cache_default_ttl: Span,
    pub cache_default_max_entries: u32,
    pub backend_fetch_timeout: Span,
}

/// Where the daemon gets its backend identity at startup.
#[derive(Debug, PartialEq, Eq)]
pub enum BootstrapSource {
    File { path: String },
    Imds,
    Env,
}

/// How a bootstrap source is named in the file and on the command line.
#[derive(Debug, Clone, Copy, PartialEq, Eq, Structural)]
pub enum BootstrapSourceKind {
    File,
    Imds,
    Env,
}

/// Values given on the command line. Each takes precedence over the file and the default.
#[derive(Debug)]
pub struct Overrides {
    pub bootstrap_source: Option<BootstrapSourceKind>,
    pub bootstrap_token_path: Option<String>,
    pub socket_dir: Option<String>,
    pub audit_log_path: Option<String>,
    pub cache_default_ttl_seconds: Option<u32>,
    pub cache_default_max_entries: Option<u32>,
    pub backend_fetch_timeout_ms: Option<u32>,
}

/// Values given in the configuration file.
#[derive(Debug, Clone)]
pub struct RawConfig {
    pub bootstrap_source: Option<BootstrapSourceKind>,
    pub bootstrap_token_path: Option<String>,
    pub socket_dir: Option<String>,
    pub audit_log_path: Option<String>,
    pub cache_default_ttl_seconds: Option<u32>,
    pub cache_default_max_entries: Option<u32>,
    pub backend_fetch_timeout_ms: Option<u32>,
}

/// What one source of settings says: the command line, or the file.
#[verifier::ext_equal]
pub struct ConfigLayer {
    pub bootstrap_source: Option<BootstrapSourceKind>,
    pub bootstrap_token_path: Option<Seq<char>>,
    pub socket_dir: Option<Seq<char>>,
    pub audit_log_path: Option<Seq<char>>,
    pub cache_default_ttl_seconds: Option<u32>,
    pub cache_default_max_entries: Option<u32>,
    pub backend_fetch_timeout_ms: Option<u32>,
}

impl ConfigLayer {
    /// The layer that says nothing.
    pub open spec fn silent() -> ConfigLayer {
        ConfigLayer {
            bootstrap_source: None,
            bootstrap_token_path: None,
            socket_dir: None,
            audit_log_path: None,
            cache_default_ttl_seconds: None,
            cache_default_max_entries: None,
            backend_fetch_timeout_ms: None,
        }
    }
}

impl View for Overrides {
    type V = ConfigLayer;

    open spec fn view(&self) -> ConfigLayer {
        ConfigLayer {
            bootstrap_source: self.bootstrap_source,
            bootstrap_token_path: text::optional_text(self.bootstrap_token_path),
            socket_dir: text::optional_text(self.socket_dir),
            audit_log_path: text::optional_text(self.audit_log_path),
            cache_default_ttl_seconds: self.cache_default_ttl_seconds,
            cache_default_max_entries: self.cache_default_max_entries,
            backend_fetch_timeout_ms: self.backend_fetch_timeout_ms,
        }
    }
}

impl View for RawConfig {
    type V = ConfigLayer;

    open spec fn view(&self) -> ConfigLayer {
        ConfigLayer {
            bootstrap_source: self.bootstrap_source,
            bootstrap_token_path: text::optional_text(self.bootstrap_token_path),
            socket_dir: text::optional_text(self.socket_dir),
            audit_log_path: text::optional_text(self.audit_log_path),
            cache_default_ttl_seconds: self.cache_default_ttl_seconds,
            cache_default_max_entries: self.cache_default_max_entries,
            backend_fetch_timeout_ms: self.backend_fetch_timeout_ms,
        }
    }
}

impl Default for Overrides {
    fn default() -> (r: Overrides)
        ensures
            r@ == ConfigLayer::silent(),
    {
        Overrides {
            bootstrap_source: None,
            bootstrap_token_path: None,
            socket_dir: None,
            audit_log_path: None,
            cache_default_ttl_seconds: None,
            cache_default_max_entries: None,
            backend_fetch_timeout_ms: None,
        }
    }
}

impl Clone for Overrides {
    fn clone(&self) -> (r: Overrides)
        ensures
            r@ == self@,
    {
        Overrides {
            bootstrap_source: self.bootstrap_source,
            bootstrap_token_path: copy_optional(&self.bootstrap_token_path),
            socket_dir: copy_optional(&self.socket_dir),
            audit_log_path: copy_optional(&self.audit_log_path),
            cache_default_ttl_seconds: self.cache_default_ttl_seconds,
            cache_default_max_entries: self.cache_default_max_entries,
            backend_fetch_timeout_ms: self.backend_fetch_timeout_ms,
        }
    }
}

impl Default for RawConfig {
    fn default() -> (r: RawConfig)
        ensures
            r@ == ConfigLayer::silent(),
    {
        RawConfig {
            bootstrap_source: None,
            bootstrap_token_path: None,
            socket_dir: None,
            audit_log_path: None,
            cache_default_ttl_seconds: None,
            cache_default_max_entries: None,
            backend_fetch_timeout_ms: None,
        }
    }
}

/// The model of a `BootstrapSource`.
pub enum BootstrapModel {
    File(Seq<char>),
    Imds,
    Env,
}

impl View for BootstrapSource {
    type V = BootstrapModel;

    open spec fn view(&self) -> BootstrapModel {
        match *self {
            BootstrapSource::File { path } => BootstrapModel::File(path@),
            BootstrapSource::Imds => BootstrapModel::Imds,
            BootstrapSource::Env => BootstrapModel::Env,
        }
    }
}

/// The model of a `Config`.
#[verifier::ext_equal]
pub struct ConfigModel {
    pub bootstrap: BootstrapModel,
    pub socket_dir: Seq<char>,
    pub audit_log_path: Seq<char>,
    pub cache_default_ttl: Span,
    pub cache_default_max_entries: u32,
    pub backend_fetch_timeout: Span,
}

impl View for Config {
    type V = ConfigModel;

    open spec fn view(&self) -> ConfigModel {
        ConfigModel {
            bootstrap: self.bootstrap@,
            socket_dir: self.socket_dir@,
            audit_log_path: self.audit_log_path@,
            cache_default_ttl: self.cache_default_ttl,
            cache_default_max_entries: self.cache_default_max_entries,
            backend_fetch_timeout: self.backend_fetch_timeout,
        }
    }
}

impl Clone for BootstrapSource {
    fn clone(&self) -> (r: BootstrapSource)
        ensures
            r@ == self@,
    {
        match self {
            BootstrapSource::File { path } => BootstrapSource::File {
                path: copy_text(path.as_str()),
            },
            BootstrapSource::Imds => BootstrapSource::Imds,
            BootstrapSource::Env => BootstrapSource::Env,
        }
    }
}

impl Clone for Config {
    fn clone(&self) -> (r: Config)
        ensures
            r@ == self@,
    {
        Config {
            bootstrap: self.bootstrap.clone(),
            socket_dir: copy_text(self.socket_dir.as_str()),
            audit_log_path: copy_text(self.audit_log_path.as_str()),
            cache_default_ttl: self.cache_default_ttl,
            cache_default_max_entries: self.cache_default_max_entries,
            backend_fetch_timeout: self.backend_fetch_timeout,
        }
    }
}

/// The setting that counts: the command line's, else the file's, else the default.
pub open spec fn layered<T>(flag: Option<T>, file: Option<T>, default: T) -> T {
    match flag {
        Some(value) => value,
        None => match file {
            Some(value) => value,
            None => default,
        },
    }
}

/// What a file's settings under the command line's come to.
pub open spec fn resolved(file: ConfigLayer, flags: ConfigLayer) -> Result<
    ConfigModel,
    ConfigFault,
> {
    let ttl = layered(
        flags.cache_default_ttl_seconds,
        file.cache_default_ttl_seconds,
        DEFAULT_CACHE_TTL_SECONDS,
    );
    let max_entries = layered(
        flags.cache_default_max_entries,
        file.cache_default_max_entries,
        DEFAULT_CACHE_MAX_ENTRIES,
    );
    let timeout = layered(
        flags.backend_fetch_timeout_ms,
        file.backend_fetch_timeout_ms,
        DEFAULT_BACKEND_FETCH_TIMEOUT_MS,
    );
    if !(1 <= ttl <= CACHE_TTL_LIMIT) {
        Err(ConfigFault::CacheTtlOutOfRange(ttl))
    } else if !(1 <= max_entries <= CACHE_MAX_ENTRIES_LIMIT) {
        Err(ConfigFault::CacheMaxEntriesOutOfRange(max_entries))
    } else if timeout == 0 {
        Err(ConfigFault::BackendTimeoutZero)
    } else {
        Ok(
            ConfigModel {
                bootstrap: match layered(
                    flags.bootstrap_source,
                    file.bootstrap_source,
                    BootstrapSourceKind::File,
                ) {
                    BootstrapSourceKind::File => BootstrapModel::File(
                        layered(
                            flags.bootstrap_token_path,
                            file.bootstrap_token_path,
                            DEFAULT_BOOTSTRAP_TOKEN_PATH@,
                        ),
                    ),
                    BootstrapSourceKind::Imds => BootstrapModel::Imds,
                    BootstrapSourceKind::Env => BootstrapModel::Env,
                },
                socket_dir: layered(flags.socket_dir, file.socket_dir, DEFAULT_SOCKET_DIR@),
                audit_log_path: layered(
                    flags.audit_log_path,
                    file.audit_log_path,
                    DEFAULT_AUDIT_LOG_PATH@,
                ),
                cache_default_ttl: Span::seconds(ttl as int),
                cache_default_max_entries: max_entries,
                backend_fetch_timeout: Span::millis(timeout as int),
            },
        )
    }
}

/// The bootstrap source that a text names.
pub open spec fn source_kind(s: Seq<char>) -> Option<BootstrapSourceKind> {
    if s == "file"@ {
        Some(BootstrapSourceKind::File)
    } else if s == "imds"@ {
        Some(BootstrapSourceKind::Imds)
    } else if s == "env"@ {
        Some(BootstrapSourceKind::Env)
    } else {
        None
    }
}

/// The bootstrap source that a value names: by a text, or by a table with one key and
/// nothing under it.
pub open spec fn source_named(value: TomlNode) -> Option<BootstrapSourceKind> {
    match value {
        TomlNode::Text(s) => source_kind(s),
        TomlNode::Table(inner) => if inner.len() == 1 && tree::is_empty(inner[0].1) {
            source_kind(inner[0].0)
        } else {
            None
        },
        _ => None,
    }
}

/// The bootstrap source under its key, if the table has the key.
pub open spec fn source_entry(top: TomlEntries) -> Result<
    Option<BootstrapSourceKind>,
    TomlFaultView,
> {
    match tree::entry(top, "bootstrap_source"@) {
        None => Ok(None),
        Some(value) => match source_named(value) {
            Some(kind) => Ok(Some(kind)),
            None => Err(TomlFaultView::WrongType("bootstrap_source"@)),
        },
    }
}

/// The keys that a configuration file may hold.
pub open spec fn config_keys() -> Seq<&'static str> {
    seq![
        "bootstrap_source",
        "bootstrap_token_path",
        "socket_dir",
        "audit_log_path",
        "cache_default_ttl_seconds",
        "cache_default_max_entries",
        "backend_fetch_timeout_ms",
    ]
}

/// What a root table says, if it has a configuration's shape: every key is optional, and
/// no other may be there.
pub open spec fn config_in(top: TomlEntries) -> Result<ConfigLayer, TomlFaultView> {
    match tree::stray_key(top, config_keys()) {
        Some(key) => Err(TomlFaultView::UnknownKey(key)),
        None => match source_entry(top) {
            Err(fault) => Err(fault),
            Ok(bootstrap_source) => match paths_in(top) {
                Err(fault) => Err(fault),
                Ok((bootstrap_token_path, socket_dir, audit_log_path)) => match numbers_in(top) {
                    Err(fault) => Err(fault),
                    Ok((ttl, max_entries, timeout)) => Ok(
                        ConfigLayer {
                            bootstrap_source,
                            bootstrap_token_path,
                            socket_dir,
                            audit_log_path,
                            cache_default_ttl_seconds: ttl,
                            cache_default_max_entries: max_entries,
                            backend_fetch_timeout_ms: timeout,
                        },
                    ),
                },
            },
        },
    }
}

pub open spec fn paths_in(top: TomlEntries) -> Result<
    (Option<Seq<char>>, Option<Seq<char>>, Option<Seq<char>>),
    TomlFaultView,
> {
    match tree::text_entry(top, "bootstrap_token_path"@) {
        Err(fault) => Err(fault),
        Ok(token) => match tree::text_entry(top, "socket_dir"@) {
            Err(fault) => Err(fault),
            Ok(socket_dir) => match tree::text_entry(top, "audit_log_path"@) {
                Err(fault) => Err(fault),
                Ok(audit) => Ok((token, socket_dir, audit)),
            },
        },
    }
}

pub open spec fn numbers_in(top: TomlEntries) -> Result<
    (Option<u32>, Option<u32>, Option<u32>),
    TomlFaultView,
> {
    match tree::u32_entry(top, "cache_default_ttl_seconds"@) {
        Err(fault) => Err(fault),
        Ok(ttl) => match tree::u32_entry(top, "cache_default_max_entries"@) {
            Err(fault) => Err(fault),
            Ok(max_entries) => match tree::u32_entry(top, "backend_fetch_timeout_ms"@) {
                Err(fault) => Err(fault),
                Ok(timeout) => Ok((ttl, max_entries, timeout)),
            },
        },
    }
}

/// What the text of a configuration file says.
pub open spec fn config_text(src: Seq<char>) -> Result<ConfigLayer, TomlFaultView> {
    match tree::document_entries(src) {
        Err(fault) => Err(fault),
        Ok(top) => config_in(top),
    }
}

/// What the text of a file at `path` under the command line's settings comes to.
pub open spec fn config_outcome(src: Seq<char>, path: Seq<char>, flags: ConfigLayer) -> Result<
    ConfigModel,
    ConfigFault,
> {
    match config_text(src) {
        Err(fault) => Err(ConfigFault::Parse(path, fault)),
        Ok(file) => resolved(file, flags),
    }
}

/// What loading comes to, given the file that was asked for and what reading came to.
pub open spec fn load_outcome(
    path: Option<Seq<char>>,
    read: Result<String, ReadFailure>,
    flags: ConfigLayer,
) -> Result<ConfigModel, ConfigFault> {
    let resolved_path = match path {
        Some(p) => p,
        None => DEFAULT_CONFIG_PATH@,
    };
    match read {
        Ok(src) => config_outcome(src@, resolved_path, flags),
        Err(failure) => if !failure.missing {
            Err(ConfigFault::Io(resolved_path, failure.message@))
        } else if path is Some {
            Err(ConfigFault::FileNotFound(resolved_path))
        } else {
            resolved(ConfigLayer::silent(), flags)
        },
    }
}

/// The path of the file to read: the one asked for, or the default.
pub fn config_path(path: Option<&str>) -> (r: String)
    ensures
        r@ == match path {
            Some(p) => p@,
            None => DEFAULT_CONFIG_PATH@,
        },
{
    match path {
        Some(p) => copy_text(p),
        None => copy_text(DEFAULT_CONFIG_PATH),
    }
}

/// Reads the name of a bootstrap source.
pub fn parse_source_kind(s: &str) -> (r: Option<BootstrapSourceKind>)
    ensures
        r == source_kind(s@),
{
    if text::same_text(s, "file") {
        Some(BootstrapSourceKind::File)
    } else if text::same_text(s, "imds") {
        Some(BootstrapSourceKind::Imds)
    } else if text::same_text(s, "env") {
        Some(BootstrapSourceKind::Env)
    } else {
        None
    }
}

fn name_source(value: &TomlValue) -> (r: Option<BootstrapSourceKind>)
    ensures
        r == source_named(value.node()),
{
    match value {
        TomlValue::Text(s) => parse_source_kind(s.as_str()),
        TomlValue::Table(inner) => {
            proof {
                tree::entry_nodes_by_index(inner@);
            }
            if inner.len() == 1 && inner[0].1.holds_nothing() {
                parse_source_kind(inner[0].0.as_str())
            } else {
                None
            }
        },
        _ => None,
    }
}

fn read_source(top: &Vec<(String, TomlValue)>) -> (r: Result<
    Option<BootstrapSourceKind>,
    TomlFault,
>)
    ensures
        source_entry(tree::entry_nodes(top@)) == match r {
            Ok(kind) => Ok(kind),
            Err(fault) => Err(fault@),
        },
{
    match find_entry(top, "bootstrap_source") {
        None => Ok(None),
        Some(value) => match name_source(value) {
            Some(kind) => Ok(Some(kind)),
            None => Err(TomlFault::WrongType(copy_text("bootstrap_source"))),
        },
    }
}

impl RawConfig {
    /// Reads the text of a configuration file, without validating what it says.
    pub fn parse(src: &str) -> (r: Result<RawConfig, TomlFault>)
        ensures
            config_text(src@) == match r {
                Ok(raw) => Ok(raw@),
                Err(fault) => Err(fault@),
            },
    {
        match read_document(src) {
            Err(fault) => Err(fault),
            Ok(top) => Self::from_entries(&top),
        }
    }

    /// Reads a configuration from the entries of its root table.
    pub fn from_entries(top: &Vec<(String, TomlValue)>) -> (r: Result<RawConfig, TomlFault>)
        ensures
            config_in(tree::entry_nodes(top@)) == match r {
                Ok(raw) => Ok(raw@),
                Err(fault) => Err(fault@),
            },
    {
        let known = vec![
            "bootstrap_source",
            "bootstrap_token_path",
            "socket_dir",
            "audit_log_path",
            "cache_default_ttl_seconds",
            "cache_default_max_entries",
            "backend_fetch_timeout_ms",
        ];
        assert(known@ =~= config_keys());
        if let Err(fault) = only_known(top, &known) {
            return Err(fault);
        }
        let bootstrap_source = match read_source(top) {
            Err(fault) => return Err(fault),
            Ok(found) => found,
        };
        let bootstrap_token_path = match read_text(top, "bootstrap_token_path") {
            Err(fault) => return Err(fault),
            Ok(found) => found,
        };
        let socket_dir = match read_text(top, "socket_dir") {
            Err(fault) => return Err(fault),
            Ok(found) => found,
        };
        let audit_log_path = match read_text(top, "audit_log_path") {
            Err(fault) => return Err(fault),
            Ok(found) => found,
        };
        let cache_default_ttl_seconds: Option<u32> = match read_u32(
            top,
            "cache_default_ttl_seconds",
        ) {
            Err(fault) => return Err(fault),
            Ok(found) => found,
        };
        let cache_default_max_entries: Option<u32> = match read_u32(
            top,
            "cache_default_max_entries",
        ) {
            Err(fault) => return Err(fault),
            Ok(found) => found,
        };
        let backend_fetch_timeout_ms: Option<u32> = match read_u32(
            top,
            "backend_fetch_timeout_ms",
        ) {
            Err(fault) => return Err(fault),
            Ok(found) => found,
        };
        Ok(
            RawConfig {
                bootstrap_source,
                bootstrap_token_path,
                socket_dir,
                audit_log_path,
                cache_default_ttl_seconds,
                cache_default_max_entries,
                backend_fetch_timeout_ms,
            },
        )
    }
}

fn pick_number(flag: Option<u32>, file: Option<u32>, default: u32) -> (r: u32)
    ensures
        r == layered(flag, file, default),
{
    match flag {
        Some(value) => value,
        None => match file {
            Some(value) => value,
            None => default,
        },
    }
}

fn pick_text(flag: &Option<String>, file: Option<String>, default: &str) -> (r: String)
    ensures
        r@ == layered(text::optional_text(*flag), text::optional_text(file), default@),
{
    match flag {
        Some(value) => copy_text(value.as_str()),
        None => match file {
            Some(value) => value,
            None => copy_text(default),
        },
    }
}

impl Config {
    /// Takes a configuration file that was read from `config_path(path)`. A file that was
    /// asked for has to be there; where none was asked for and the default one is not
    /// there, the defaults stand. `overrides` wins over both.
    pub fn load(path: Option<&str>, read: Result<String, ReadFailure>, overrides: &Overrides) -> (r:
        Result<Config, ConfigError>)
        ensures
            load_outcome(
                match path {
                    Some(p) => Some(p@),
                    None => None,
                },
                read,
                overrides@,
            ) == match r {
                Ok(c) => Ok(c@),
                Err(e) => Err(e@),
            },
    {
        let resolved_path = config_path(path);
        let raw = match read {
            Ok(src) => match RawConfig::parse(src.as_str()) {
                Ok(raw) => raw,
                Err(source) => return Err(ConfigError::Parse { path: resolved_path, source }),
            },
            Err(failure) => {
                if !failure.missing {
                    return Err(
                        ConfigError::Io { path: resolved_path, message: failure.message },
                    );
                }
                if path.is_some() {
                    return Err(ConfigError::FileNotFound { path: resolved_path });
                }
                RawConfig::default()
            },
        };
        Self::resolve(raw, overrides)
    }

    /// Reads and validates a configuration from text that was obtained elsewhere.
    pub fn from_toml_str(toml_src: &str, overrides: &Overrides) -> (r: Result<Config, ConfigError>)
        ensures
            config_outcome(toml_src@, "<inline>"@, overrides@) == match r {
                Ok(c) => Ok(c@),
                Err(e) => Err(e@),
            },
    {
        match RawConfig::parse(toml_src) {
            Err(source) => Err(ConfigError::Parse { path: copy_text("<inline>"), source }),
            Ok(raw) => Self::resolve(raw, overrides),
        }
    }

    /// Lays the command line's settings over the file's over the defaults, and holds the
    /// result to its ranges.
    pub fn resolve(raw: RawConfig, overrides: &Overrides) -> (r: Result<Config, ConfigError>)
        ensures
            resolved(raw@, overrides@) == match r {
                Ok(c) => Ok(c@),
                Err(e) => Err(e@),
            },
    {
        let kind = match overrides.bootstrap_source {
            Some(kind) => kind,
            None => match raw.bootstrap_source {
                Some(kind) => kind,
                None => BootstrapSourceKind::File,
            },
        };
        let token_path = pick_text(
            &overrides.bootstrap_token_path,
            raw.bootstrap_token_path,
            DEFAULT_BOOTSTRAP_TOKEN_PATH,
        );
        let bootstrap = match kind {
            BootstrapSourceKind::File => BootstrapSource::File { path: token_path },
            BootstrapSourceKind::Imds => BootstrapSource::Imds,
            BootstrapSourceKind::Env => BootstrapSource::Env,
        };
        let socket_dir = pick_text(&overrides.socket_dir, raw.socket_dir, DEFAULT_SOCKET_DIR);
        let audit_log_path = pick_text(
            &overrides.audit_log_path,
            raw.audit_log_path,
            DEFAULT_AUDIT_LOG_PATH,
        );
        let ttl: u32 = pick_number(
            overrides.cache_default_ttl_seconds,
            raw.cache_default_ttl_seconds,
            DEFAULT_CACHE_TTL_SECONDS,
        );
        if ttl < 1 || ttl > CACHE_TTL_LIMIT {
            return Err(ConfigError::CacheTtlOutOfRange(ttl));
        }
        let max_entries: u32 = pick_number(
            overrides.cache_default_max_entries,
            raw.cache_default_max_entries,
            DEFAULT_CACHE_MAX_ENTRIES,
        );
        if max_entries < 1 || max_entries > CACHE_MAX_ENTRIES_LIMIT {
            return Err(ConfigError::CacheMaxEntriesOutOfRange(max_entries));
        }
        let timeout: u32 = pick_number(
            overrides.backend_fetch_timeout_ms,
            raw.backend_fetch_timeout_ms,
            DEFAULT_BACKEND_FETCH_TIMEOUT_MS,
        );
        if timeout == 0 {
            return Err(ConfigError::BackendTimeoutZero);
        }
        Ok(
            Config {
                bootstrap,
                socket_dir,
                audit_log_path,
                cache_default_ttl: Span::from_secs(ttl as u64),
                cache_default_max_entries: max_entries,
                backend_fetch_timeout: Span::from_millis(timeout as u64),
            },
        )
    }
}

impl Default for Config {
    fn default() -> (r: Config)
        ensures
            resolved(ConfigLayer::silent(), ConfigLayer::silent()) == Ok::<
                ConfigModel,
                ConfigFault,
            >(r@),
    {
        Config {
            bootstrap: BootstrapSource::File { path: copy_text(DEFAULT_BOOTSTRAP_TOKEN_PATH) },
            socket_dir: copy_text(DEFAULT_SOCKET_DIR),
            audit_log_path: copy_text(DEFAULT_AUDIT_LOG_PATH),
            cache_default_ttl: Span::from_secs(DEFAULT_CACHE_TTL_SECONDS as u64),
            cache_default_max_entries: DEFAULT_CACHE_MAX_ENTRIES,
            backend_fetch_timeout: Span::from_millis(DEFAULT_BACKEND_FETCH_TIMEOUT_MS as u64),
        }
    }
}

/// Every configuration that comes about keeps its ranges: a cache lifetime of a second to
/// a day, one to 1024 cache entries, and a backend timeout that is not zero.
pub proof fn configurations_keep_their_ranges(file: ConfigLayer, flags: ConfigLayer)
    ensures
        match resolved(file, flags) {
            Ok(c) => {
                &&& Span::seconds(1).nanos <= c.cache_default_ttl.nanos <= Span::seconds(
                    86_400,
                ).nanos
                &&& 1 <= c.cache_default_max_entries <= 1_024
                &&& c.backend_fetch_timeout.nanos > 0
            },
            Err(_) => true,
        },
{
}

/// A flag beats the file, and the file beats the default, setting by setting.
pub proof fn flags_beat_file_beats_default(file: ConfigLayer, flags: ConfigLayer)
    ensures
        match resolved(file, flags) {
            Ok(c) => {
                &&& flags.bootstrap_source == Some(BootstrapSourceKind::Imds) ==> c.bootstrap
                    == BootstrapModel::Imds
                &&& flags.bootstrap_source == Some(BootstrapSourceKind::Env) ==> c.bootstrap
                    == BootstrapModel::Env
                &&& flags.bootstrap_source is None && file.bootstrap_source is None ==> c.bootstrap
                    is File
                &&& c.bootstrap is File && flags.bootstrap_token_path is Some
                    ==> c.bootstrap->File_0 == flags.bootstrap_token_path->0
                &&& flags.socket_dir is Some ==> c.socket_dir == flags.socket_dir->0
                &&& flags.socket_dir is None && file.socket_dir is Some ==> c.socket_dir
                    == file.socket_dir->0
                &&& flags.socket_dir is None && file.socket_dir is None ==> c.socket_dir
                    == "/run/remo-broker"@
                &&& flags.audit_log_path is Some ==> c.audit_log_path == flags.audit_log_path->0
                &&& flags.audit_log_path is None && file.audit_log_path is Some
                    ==> c.audit_log_path == file.audit_log_path->0
                &&& flags.audit_log_path is None && file.audit_log_path is None
                    ==> c.audit_log_path == "/var/log/remo-broker/audit.log"@
                &&& flags.cache_default_ttl_seconds is Some ==> c.cache_default_ttl
                    == Span::seconds(flags.cache_default_ttl_seconds->0 as int)
                &&& flags.cache_default_ttl_seconds is None && file.cache_default_ttl_seconds
                    is Some ==> c.cache_default_ttl == Span::seconds(
                    file.cache_default_ttl_seconds->0 as int,
                )
                &&& flags.cache_default_ttl_seconds is None && file.cache_default_ttl_seconds
                    is None ==> c.cache_default_ttl == Span::seconds(900)
                &&& flags.cache_default_max_entries is Some ==> c.cache_default_max_entries
                    == flags.cache_default_max_entries->0
                &&& flags.cache_default_max_entries is None && file.cache_default_max_entries
                    is Some ==> c.cache_default_max_entries == file.cache_default_max_entries->0
                &&& flags.cache_default_max_entries is None && file.cache_default_max_entries
                    is None ==> c.cache_default_max_entries == 32
                &&& flags.backend_fetch_timeout_ms is Some ==> c.backend_fetch_timeout
                    == Span::millis(flags.backend_fetch_timeout_ms->0 as int)
                &&& flags.backend_fetch_timeout_ms is None && file.backend_fetch_timeout_ms
                    is Some ==> c.backend_fetch_timeout == Span::millis(
                    file.backend_fetch_timeout_ms->0 as int,
                )
                &&& flags.backend_fetch_timeout_ms is None && file.backend_fetch_timeout_ms
                    is None ==> c.backend_fetch_timeout == Span::millis(5_000)
            },
            Err(_) => true,
        },
{
}

/// The file and the command line are read alike: where one of them is silent, it makes no
/// difference which of the two the settings came from.
pub proof fn layers_are_read_alike(layer: ConfigLayer)
    ensures
        resolved(layer, ConfigLayer::silent()) == resolved(ConfigLayer::silent(), layer),
{
}

/// A default file that is not there counts as an empty one, and one that was asked for and
/// is not there is an error.
pub proof fn missing_files(path: Seq<char>, message: String, flags: ConfigLayer)
    ensures
        load_outcome(None, Err((ReadFailure { missing: true, message })), flags) == resolved(
            ConfigLayer::silent(),
            flags,
        ),
        load_outcome(Some(path), Err((ReadFailure { missing: true, message })), flags) == Err::<
            ConfigModel,
            ConfigFault,
        >(ConfigFault::FileNotFound(path)),
{
}

/// A root table with a key that a configuration does not have is refused, whatever else it
/// holds.
pub proof fn unknown_keys_are_refused(top: TomlEntries, i: int)
    requires
        0 <= i < top.len(),
        !tree::names_key(config_keys(), top[i].0),
    ensures
        config_in(top) is Err,
        config_in(top)->Err_0 is UnknownKey,
{
    tree::no_stray_key_means_all_known(top, config_keys());
}

/// Each setting of a configuration comes from the command line where that gives it, else from
/// the file where that does, else it is the default, whatever else the two say. The token path
/// counts where the source comes out as a file.
pub proof fn every_setting_is_looked_up_by_itself(file: ConfigLayer, flags: ConfigLayer)
    ensures
        match resolved(file, flags) {
            Ok(c) => {
                &&& flags.bootstrap_source is Some ==> (c.bootstrap is File
                    <==> flags.bootstrap_source == Some(BootstrapSourceKind::File)) && (c.bootstrap
                    is Imds <==> flags.bootstrap_source == Some(BootstrapSourceKind::Imds)) && (
                c.bootstrap is Env <==> flags.bootstrap_source == Some(BootstrapSourceKind::Env))
                &&& flags.bootstrap_source is None && file.bootstrap_source is Some ==> (c.bootstrap
                    is File <==> file.bootstrap_source == Some(BootstrapSourceKind::File)) && (
                c.bootstrap is Imds <==> file.bootstrap_source == Some(BootstrapSourceKind::Imds))
                    && (c.bootstrap is Env <==> file.bootstrap_source == Some(
                    BootstrapSourceKind::Env,
                ))
                &&& flags.bootstrap_source is None && file.bootstrap_source is None ==> c.bootstrap
                    is File
                &&& c.bootstrap is File && flags.bootstrap_token_path is Some
                    ==> c.bootstrap->File_0 == flags.bootstrap_token_path->0
                &&& c.bootstrap is File && flags.bootstrap_token_path is None
                    && file.bootstrap_token_path is Some ==> c.bootstrap->File_0
                    == file.bootstrap_token_path->0
                &&& c.bootstrap is File && flags.bootstrap_token_path is None
                    && file.bootstrap_token_path is None ==> c.bootstrap->File_0
                    == "/etc/remo-broker/bootstrap-token"@
                &&& flags.socket_dir is Some ==> c.socket_dir == flags.socket_dir->0
                &&& flags.socket_dir is None && file.socket_dir is Some ==> c.socket_dir
                    == file.socket_dir->0
                &&& flags.socket_dir is None && file.socket_dir is None ==> c.socket_dir
                    == "/run/remo-broker"@
                &&& flags.audit_log_path is Some ==> c.audit_log_path == flags.audit_log_path->0
                &&& flags.audit_log_path is None && file.audit_log_path is Some ==> c.audit_log_path
                    == file.audit_log_path->0
                &&& flags.audit_log_path is None && file.audit_log_path is None ==> c.audit_log_path
                    == "/var/log/remo-broker/audit.log"@
                &&& flags.cache_default_ttl_seconds is Some ==> c.cache_default_ttl.nanos
                    == flags.cache_default_ttl_seconds->0 * 1_000_000_000
                &&& flags.cache_default_ttl_seconds is None && file.cache_default_ttl_seconds
                    is Some ==> c.cache_default_ttl.nanos == file.cache_default_ttl_seconds->0
                    * 1_000_000_000
                &&& flags.cache_default_ttl_seconds is None && file.cache_default_ttl_seconds
                    is None ==> c.cache_default_ttl.nanos == 900_000_000_000
                &&& flags.cache_default_max_entries is Some ==> c.cache_default_max_entries
                    == flags.cache_default_max_entries->0
                &&& flags.cache_default_max_entries is None && file.cache_default_max_entries
                    is Some ==> c.cache_default_max_entries == file.cache_default_max_entries->0
                &&& flags.cache_default_max_entries is None && file.cache_default_max_entries
                    is None ==> c.cache_default_max_entries == 32
                &&& flags.backend_fetch_timeout_ms is Some ==> c.backend_fetch_timeout.nanos
                    == flags.backend_fetch_timeout_ms->0 * 1_000_000
                &&& flags.backend_fetch_timeout_ms is None && file.backend_fetch_timeout_ms
                    is Some ==> c.backend_fetch_timeout.nanos == file.backend_fetch_timeout_ms->0
                    * 1_000_000
                &&& flags.backend_fetch_timeout_ms is None && file.backend_fetch_timeout_ms
                    is None ==> c.backend_fetch_timeout.nanos == 5_000_000_000
            },
            Err(_) => true,
        },
{
}

/// A configuration is refused exactly where a number that counts is out of its range: the
/// cache's lifetime, else the number of its entries, else the backend's time limit. The number
/// is told as it was given. Nothing else that is given gets a configuration refused.
pub proof fn only_numbers_out_of_range_are_refused(file: ConfigLayer, flags: ConfigLayer)
    ensures
        ({
            let ttl = if flags.cache_default_ttl_seconds is Some {
                flags.cache_default_ttl_seconds->0 as int
            } else if file.cache_default_ttl_seconds is Some {
                file.cache_default_ttl_seconds->0 as int
            } else {
                900
            };
            let entries = if flags.cache_default_max_entries is Some {
                flags.cache_default_max_entries->0 as int
            } else if file.cache_default_max_entries is Some {
                file.cache_default_max_entries->0 as int
            } else {
                32
            };
            let timeout = if flags.backend_fetch_timeout_ms is Some {
                flags.backend_fetch_timeout_ms->0 as int
            } else if file.backend_fetch_timeout_ms is Some {
                file.backend_fetch_timeout_ms->0 as int
            } else {
                5_000
            };
            match resolved(file, flags) {
                Ok(_) => 1 <= ttl <= 86_400 && 1 <= entries <= 1_024 && timeout > 0,
                Err(ConfigFault::CacheTtlOutOfRange(n)) => n == ttl && !(1 <= ttl <= 86_400),
                Err(ConfigFault::CacheMaxEntriesOutOfRange(n)) => 1 <= ttl <= 86_400 && n == entries
                    && !(1 <= entries <= 1_024),
                Err(ConfigFault::BackendTimeoutZero) => 1 <= ttl <= 86_400 && 1 <= entries <= 1_024
                    && timeout == 0,
                Err(_) => false,
            }
        }),
{
}

/// Two settings given apart come out as the same two given together: what the command line
/// gives and what the file gives are laid over each other setting by setting.
pub proof fn a_silent_setting_changes_nothing(
    file: ConfigLayer,
    flags: ConfigLayer,
    socket_dir: Seq<char>,
)
    ensures
        ({
            let given = resolved(file, (ConfigLayer { socket_dir: Some(socket_dir), ..flags }));
            let silent = resolved(file, flags);
            match (given, silent) {
                (Ok(a), Ok(b)) => a == (ConfigModel { socket_dir, ..b }),
                (Err(a), Err(b)) => a == b,
                _ => false,
            }
        }),
        ({
            let given = resolved(file, (ConfigLayer { audit_log_path: Some(socket_dir), ..flags }));
            let silent = resolved(file, flags);
            match (given, silent) {
                (Ok(a), Ok(b)) => a == (ConfigModel { audit_log_path: socket_dir, ..b }),
                (Err(a), Err(b)) => a == b,
                _ => false,
            }
        }),
{
}

/// A root table says of each setting what stands under its key, and nothing of one whose key
/// it does not have. It says nothing at all only where a key is not known or a value is not of
/// its key's kind.
pub proof fn tables_say_what_stands_under_their_keys(top: TomlEntries)
    ensures
        match config_in(top) {
            Ok(layer) => {
                &&& tree::stray_key(top, config_keys()) is None
                &&& tree::text_entry(top, "bootstrap_token_path"@) == Ok::<_, TomlFaultView>(
                    layer.bootstrap_token_path,
                )
                &&& tree::text_entry(top, "socket_dir"@) == Ok::<_, TomlFaultView>(layer.socket_dir)
                &&& tree::text_entry(top, "audit_log_path"@) == Ok::<_, TomlFaultView>(
                    layer.audit_log_path,
                )
                &&& tree::u32_entry(top, "cache_default_ttl_seconds"@) == Ok::<_, TomlFaultView>(
                    layer.cache_default_ttl_seconds,
                )
                &&& tree::u32_entry(top, "cache_default_max_entries"@) == Ok::<_, TomlFaultView>(
                    layer.cache_default_max_entries,
                )
                &&& tree::u32_entry(top, "backend_fetch_timeout_ms"@) == Ok::<_, TomlFaultView>(
                    layer.backend_fetch_timeout_ms,
                )
                &&& match tree::entry(top, "bootstrap_source"@) {
                    None => layer.bootstrap_source is None,
                    Some(TomlNode::Text(s)) => {
                        &&& s == "file"@ ==> layer.bootstrap_source == Some(
                            BootstrapSourceKind::File,
                        )
                        &&& s == "imds"@ ==> layer.bootstrap_source == Some(
                            BootstrapSourceKind::Imds,
                        )
                        &&& s == "env"@ ==> layer.bootstrap_source == Some(BootstrapSourceKind::Env)
                        &&& s == "file"@ || s == "imds"@ || s == "env"@
                    },
                    Some(TomlNode::Table(inner)) => inner.len() == 1 && layer.bootstrap_source
                        is Some,
                    Some(_) => false,
                }
            },
            Err(TomlFaultView::UnknownKey(key)) => tree::stray_key(top, config_keys()) == Some(key),
            Err(fault) => {
                ||| fault == TomlFaultView::WrongType("bootstrap_source"@) && tree::entry(
                    top,
                    "bootstrap_source"@,
                ) is Some
                ||| tree::text_entry(top, "bootstrap_token_path"@) == Err::<Option<Seq<char>>, _>(
                    fault,
                )
                ||| tree::text_entry(top, "socket_dir"@) == Err::<Option<Seq<char>>, _>(fault)
                ||| tree::text_entry(top, "audit_log_path"@) == Err::<Option<Seq<char>>, _>(fault)
                ||| tree::u32_entry(top, "cache_default_ttl_seconds"@) == Err::<Option<u32>, _>(
                    fault,
                )
                ||| tree::u32_entry(top, "cache_default_max_entries"@) == Err::<Option<u32>, _>(
                    fault,
                )
                ||| tree::u32_entry(top, "backend_fetch_timeout_ms"@) == Err::<Option<u32>, _>(
                    fault,
                )
            },
        },
{
    reveal_strlit("file");
    reveal_strlit("imds");
    reveal_strlit("env");
    assert("file"@[0] == 'f' && "imds"@[0] == 'i' && "env"@[0] == 'e');
}

/// A bootstrap source goes by its name, written as a text or as a table's only key with an
/// empty value under it, and by no other.
pub proof fn sources_go_by_their_names(s: Seq<char>, empty: TomlNode)
    requires
        empty == TomlNode::Table(Seq::empty()) || empty == TomlNode::Array(Seq::empty()),
    ensures
        source_named(TomlNode::Text("file"@)) == Some(BootstrapSourceKind::File),
        source_named(TomlNode::Text("imds"@)) == Some(BootstrapSourceKind::Imds),
        source_named(TomlNode::Text("env"@)) == Some(BootstrapSourceKind::Env),
        source_named(TomlNode::Text(s)) is Some <==> s == "file"@ || s == "imds"@ || s == "env"@,
        source_named(TomlNode::Table(seq![(s, empty)])) == source_named(TomlNode::Text(s)),
        source_kind(s) == source_named(TomlNode::Text(s)),
{
    reveal_strlit("file");
    reveal_strlit("imds");
    reveal_strlit("env");
    assert("file"@[0] == 'f' && "imds"@[0] == 'i' && "env"@[0] == 'e');
}

/// The file that is asked for, or else the default one, is what counts: its text, whatever
/// holds it together, is laid under the flags; one that cannot be read is an error that names
/// it, but for a default one that is not there, which counts as saying nothing.
pub proof fn files_are_laid_under_the_flags(
    path: Option<Seq<char>>,
    src: String,
    failure: ReadFailure,
    flags: ConfigLayer,
)
    ensures
        ({
            let at = if path is Some {
                path->0
            } else {
                "/etc/remo-broker/config.toml"@
            };
            &&& match config_text(src@) {
                Ok(file) => load_outcome(path, Ok(src), flags) == resolved(file, flags),
                Err(fault) => load_outcome(path, Ok(src), flags) == Err::<ConfigModel, _>(
                    ConfigFault::Parse(at, fault),
                ),
            }
            &&& !failure.missing ==> load_outcome(path, Err(failure), flags) == Err::<
                ConfigModel,
                _,
            >(ConfigFault::Io(at, failure.message@))
            &&& failure.missing && path is Some ==> load_outcome(path, Err(failure), flags) == Err::<
                ConfigModel,
                _,
            >(ConfigFault::FileNotFound(at))
            &&& failure.missing && path is None ==> load_outcome(path, Err(failure), flags)
                == resolved(
                (ConfigLayer {
                    bootstrap_source: None,
                    bootstrap_token_path: None,
                    socket_dir: None,
                    audit_log_path: None,
                    cache_default_ttl_seconds: None,
                    cache_default_max_entries: None,
                    backend_fetch_timeout_ms: None,
                }),
                flags,
            )
        }),
        match config_text(src@) {
            Ok(file) => config_outcome(src@, "<inline>"@, flags) == resolved(file, flags),
            Err(fault) => config_outcome(src@, "<inline>"@, flags) == Err::<ConfigModel, _>(
                ConfigFault::Parse("<inline>"@, fault),
            ),
        },
        match tree::document_entries(src@) {
            Ok(top) => config_text(src@) == config_in(top),
            Err(fault) => config_text(src@) == Err::<ConfigLayer, _>(fault),
        },
{
}

/// Settings are told as they were given, and a configuration as it came out.
pub proof fn settings_are_told_as_they_are(flags: Overrides, raw: RawConfig, config: Config)
    ensures
        flags@.bootstrap_source == flags.bootstrap_source,
        flags@.bootstrap_token_path == text::optional_text(flags.bootstrap_token_path),
        flags@.socket_dir == text::optional_text(flags.socket_dir),
        flags@.audit_log_path == text::optional_text(flags.audit_log_path),
        flags@.cache_default_ttl_seconds == flags.cache_default_ttl_seconds,
        flags@.cache_default_max_entries == flags.cache_default_max_entries,
        flags@.backend_fetch_timeout_ms == flags.backend_fetch_timeout_ms,
        raw@.bootstrap_source == raw.bootstrap_source,
        raw@.bootstrap_token_path == text::optional_text(raw.bootstrap_token_path),
        raw@.socket_dir == text::optional_text(raw.socket_dir),
        raw@.audit_log_path == text::optional_text(raw.audit_log_path),
        raw@.cache_default_ttl_seconds == raw.cache_default_ttl_seconds,
        raw@.cache_default_max_entries == raw.cache_default_max_entries,
        raw@.backend_fetch_timeout_ms == raw.backend_fetch_timeout_ms,
        config@.bootstrap == config.bootstrap@,
        config@.socket_dir == config.socket_dir@,
        config@.audit_log_path == config.audit_log_path@,
        config@.cache_default_ttl == config.cache_default_ttl,
        config@.cache_default_max_entries == config.cache_default_max_entries,
        config@.backend_fetch_timeout == config.backend_fetch_timeout,
        match config.bootstrap {
            BootstrapSource::File { path } => config.bootstrap@ == BootstrapModel::File(path@),
            BootstrapSource::Imds => config.bootstrap@ == BootstrapModel::Imds,
            BootstrapSource::Env => config.bootstrap@ == BootstrapModel::Env,
        },
{
}

/// What a table is refused for is the first that is wrong with it: a key that is not known, else
/// the source, else the paths, else the numbers, in their order.
pub proof fn tables_are_refused_for_the_first_fault(top: TomlEntries)
    ensures
        ({
            let keys = seq![
                "bootstrap_source",
                "bootstrap_token_path",
                "socket_dir",
                "audit_log_path",
                "cache_default_ttl_seconds",
                "cache_default_max_entries",
                "backend_fetch_timeout_ms",
            ];
            let source = tree::entry(top, "bootstrap_source"@);
            let token = tree::text_entry(top, "bootstrap_token_path"@);
            let dir = tree::text_entry(top, "socket_dir"@);
            let log = tree::text_entry(top, "audit_log_path"@);
            let ttl = tree::u32_entry(top, "cache_default_ttl_seconds"@);
            let entries = tree::u32_entry(top, "cache_default_max_entries"@);
            let timeout = tree::u32_entry(top, "backend_fetch_timeout_ms"@);
            let fault = config_in(top)->Err_0;
            if tree::stray_key(top, keys) is Some {
                config_in(top) is Err && fault == TomlFaultView::UnknownKey(
                    tree::stray_key(top, keys)->0,
                )
            } else if source is Some && source_named(source->0) is None {
                config_in(top) is Err && fault == TomlFaultView::WrongType("bootstrap_source"@)
            } else if token is Err {
                config_in(top) is Err && fault == token->Err_0
            } else if dir is Err {
                config_in(top) is Err && fault == dir->Err_0
            } else if log is Err {
                config_in(top) is Err && fault == log->Err_0
            } else if ttl is Err {
                config_in(top) is Err && fault == ttl->Err_0
            } else if entries is Err {
                config_in(top) is Err && fault == entries->Err_0
            } else if timeout is Err {
                config_in(top) is Err && fault == timeout->Err_0
            } else {
                &&& config_in(top) is Ok
                &&& source is Some ==> config_in(top)->Ok_0.bootstrap_source == source_named(
                    source->0,
                )
                &&& source is None ==> config_in(top)->Ok_0.bootstrap_source is None
            }
        }),
{
    assert(config_keys() =~= seq![
        "bootstrap_source",
        "bootstrap_token_path",
        "socket_dir",
        "audit_log_path",
        "cache_default_ttl_seconds",
        "cache_default_max_entries",
        "backend_fetch_timeout_ms",
    ]);
}

/// A table names a source exactly where it holds one key, which is a source's name, and nothing
/// under it; nothing but a text or a table names one.
pub proof fn tables_name_sources_by_their_only_key(value: TomlNode)
    ensures
        match value {
            TomlNode::Text(s) => source_named(value) is Some <==> s == "file"@ || s == "imds"@ || s
                == "env"@,
            TomlNode::Table(inner) => {
                &&& inner.len() != 1 ==> source_named(value) is None
                &&& inner.len() == 1 && !tree::is_empty(inner[0].1) ==> source_named(value) is None
                &&& inner.len() == 1 && tree::is_empty(inner[0].1) ==> source_named(value)
                    == source_named(TomlNode::Text(inner[0].0))
            },
            _ => source_named(value) is None,
        },
{
}

/// An error is told as it is.
pub proof fn config_errors_are_told_as_they_are(error: ConfigError)
    ensures
        match error {
            ConfigError::FileNotFound { path } => error@ == ConfigFault::FileNotFound(path@),
            ConfigError::Io { path, message } => error@ == ConfigFault::Io(path@, message@),
            ConfigError::Parse { path, source } => error@ == ConfigFault::Parse(path@, source@),
            ConfigError::CacheTtlOutOfRange(n) => error@ == ConfigFault::CacheTtlOutOfRange(n),
            ConfigError::CacheMaxEntriesOutOfRange(n) => error@
                == ConfigFault::CacheMaxEntriesOutOfRange(n),
            ConfigError::BackendTimeoutZero => error@ == ConfigFault::BackendTimeoutZero,
        },
{
}

} // verus!
