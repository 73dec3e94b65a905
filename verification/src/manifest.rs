//! `remo-broker.toml`: reading and validating a project's manifest.
//!
//! A manifest names its project, lists the secrets that the project may fetch, and may
//! lower the bounds of the project's cache.

use crate::files::ReadFailure;
use crate::paths::{self, file_name, join};
use crate::text::{
    self, chars_of, copy_optional, copy_text, copy_texts, decimal_text, quote_debug, same_text,
};
use crate::tree::{
    self, only_known, read_document, read_record, read_text, read_texts, read_u32, TomlEntries,
    TomlFault, TomlFaultView, TomlValue,
};
use vstd::prelude::*;
use vstd::string::*;

verus! {

/// Schema versions that are accepted.
pub const SUPPORTED_SCHEMA_VERSIONS: [u32; 1] = [1];

/// Where a project keeps its manifest, in order of priority.
pub const MANIFEST_CANDIDATES: [&'static str; 2] = [
    ".devcontainer/remo-broker.toml",
    ".remo/broker.toml",
];

pub const PROJECT_NAME_MAX_LEN: usize = 64;

pub const DESCRIPTION_MAX_LEN: usize = 256;

pub const SECRET_NAME_MAX_LEN: usize = 128;

pub const CACHE_TTL_MAX: u32 = 86_400;

pub const CACHE_MAX_ENTRIES_MAX: u32 = 1_024;

/// Why a manifest is refused.
#[derive(Debug)]
pub enum ManifestError {
    /// The project holds a manifest in neither place.
    NotFound(String),
    /// The manifest could not be read.
    Io { path: String, message: String },
    /// The manifest is no TOML document of the manifest's shape.
    Parse { path: String, source: TomlFault },
    UnsupportedSchemaVersion(u32),
    InvalidProjectName { name: String },
    /// The project's name is not that of its directory.
    NameDirMismatch { name: String, dir: String },
    DescriptionTooLong { len: usize },
    InvalidSecretName { name: String },
    DuplicateSecret(String),
    CacheTtlOutOfRange { value: u32 },
    CacheMaxEntriesOutOfRange { value: u32 },
}

/// The model of a `ManifestError`.
pub enum ManifestFault {
    NotFound(Seq<char>),
    Io(Seq<char>, Seq<char>),
    Parse(Seq<char>, TomlFaultView),
    UnsupportedSchemaVersion(u32),
    InvalidProjectName(Seq<char>),
    NameDirMismatch(Seq<char>, Seq<char>),
    DescriptionTooLong(int),
    InvalidSecretName(Seq<char>),
    DuplicateSecret(Seq<char>),
    CacheTtlOutOfRange(u32),
    CacheMaxEntriesOutOfRange(u32),
}

impl View for ManifestError {
    type V = ManifestFault;

    open spec fn view(&self) -> ManifestFault {
        match *self {
            ManifestError::NotFound(path) => ManifestFault::NotFound(path@),
            ManifestError::Io { path, message } => ManifestFault::Io(path@, message@),
            ManifestError::Parse { path, source } => ManifestFault::Parse(path@, source@),
            ManifestError::UnsupportedSchemaVersion(
                v,
            ) => ManifestFault::UnsupportedSchemaVersion(v),
            ManifestError::InvalidProjectName { name } => ManifestFault::InvalidProjectName(name@),
            ManifestError::NameDirMismatch { name, dir } => ManifestFault::NameDirMismatch(
                name@,
                dir@,
            ),
            ManifestError::DescriptionTooLong { len } => ManifestFault::DescriptionTooLong(
                len as int,
            ),
            ManifestError::InvalidSecretName { name } => ManifestFault::InvalidSecretName(name@),
            ManifestError::DuplicateSecret(name) => ManifestFault::DuplicateSecret(name@),
            ManifestError::CacheTtlOutOfRange { value } => ManifestFault::CacheTtlOutOfRange(value),
            ManifestError::CacheMaxEntriesOutOfRange {
                value,
            } => ManifestFault::CacheMaxEntriesOutOfRange(value),
        }
    }
}

/// Why a manifest is refused, in words.
pub open spec fn refusal_text(fault: ManifestFault) -> Seq<char> {
    match fault {
        ManifestFault::NotFound(path) => "no manifest under "@ + path
            + ": expected .devcontainer/remo-broker.toml or .remo/broker.toml"@,
        ManifestFault::Io(path, message) => "failed to read "@ + path + ": "@ + message,
        ManifestFault::Parse(path, source) => "failed to parse TOML in "@ + path + ": "@
            + tree::toml_fault_text(source),
        ManifestFault::UnsupportedSchemaVersion(v) => "unsupported schema_version: "@
            + text::decimal(v as nat) + " (supported: ["@ + text::decimal(
            SUPPORTED_SCHEMA_VERSIONS@[0] as nat,
        ) + "])"@,
        ManifestFault::InvalidProjectName(name) => "invalid project.name "@ + text::debug_quoted(
            name,
        ) + ": must match ^[a-z0-9][a-z0-9_-]{0,63}$"@,
        ManifestFault::NameDirMismatch(name, dir) => "project.name "@ + text::debug_quoted(name)
            + " does not match project directory basename "@ + text::debug_quoted(dir),
        ManifestFault::DescriptionTooLong(len) => "project.description too long: "@
            + text::decimal(len as nat) + " chars (max "@ + text::decimal(
            DESCRIPTION_MAX_LEN as nat,
        ) + ")"@,
        ManifestFault::InvalidSecretName(name) => "invalid allowlist secret name "@
            + text::debug_quoted(name) + ": must match ^[A-Za-z0-9_]{1,128}$"@,
        ManifestFault::DuplicateSecret(name) => "duplicate secret name in allowlist: "@
            + text::debug_quoted(name),
        ManifestFault::CacheTtlOutOfRange(value) => "cache.ttl_seconds out of range: "@
            + text::decimal(value as nat) + " (must be 1..="@ + text::decimal(
            CACHE_TTL_MAX as nat,
        ) + ")"@,
        ManifestFault::CacheMaxEntriesOutOfRange(value) => "cache.max_entries out of range: "@
            + text::decimal(value as nat) + " (must be 1..="@ + text::decimal(
            CACHE_MAX_ENTRIES_MAX as nat,
        ) + ")"@,
    }
}

impl ManifestError {
    /// Puts into words why the manifest is refused.
    pub fn text(&self) -> (r: String)
        ensures
            r@ == refusal_text(self@),
    {
        match self {
            ManifestError::NotFound(path) => {
                let mut r = copy_text("no manifest under ");
                r.append(path.as_str());
                r.append(": expected .devcontainer/remo-broker.toml or .remo/broker.toml");
                r
            },
            ManifestError::Io { path, message } => {
                let mut r = copy_text("failed to read ");
                r.append(path.as_str());
                r.append(": ");
                r.append(message.as_str());
                r
            },
            ManifestError::Parse { path, source } => {
                let mut r = copy_text("failed to parse TOML in ");
                r.append(path.as_str());
                r.append(": ");
                r.append(source.text().as_str());
                r
            },
            ManifestError::UnsupportedSchemaVersion(v) => {
                let mut r = copy_text("unsupported schema_version: ");
                r.append(decimal_text(*v as u64).as_str());
                r.append(" (supported: [");
                r.append(decimal_text(SUPPORTED_SCHEMA_VERSIONS[0] as u64).as_str());
                r.append("])");
                r
            },
            ManifestError::InvalidProjectName { name } => {
                let mut r = copy_text("invalid project.name ");
                r.append(quote_debug(name.as_str()).as_str());
                r.append(": must match ^[a-z0-9][a-z0-9_-]{0,63}$");
                r
            },
            ManifestError::NameDirMismatch { name, dir } => {
                let mut r = copy_text("project.name ");
                r.append(quote_debug(name.as_str()).as_str());
                r.append(" does not match project directory basename ");
                r.append(quote_debug(dir.as_str()).as_str());
                r
            },
            ManifestError::DescriptionTooLong { len } => {
                let mut r = copy_text("project.description too long: ");
                r.append(decimal_text(*len as u64).as_str());
                r.append(" chars (max ");
                r.append(decimal_text(DESCRIPTION_MAX_LEN as u64).as_str());
                r.append(")");
                r
            },
            ManifestError::InvalidSecretName { name } => {
                let mut r = copy_text("invalid allowlist secret name ");
                r.append(quote_debug(name.as_str()).as_str());
                r.append(": must match ^[A-Za-z0-9_]{1,128}$");
                r
            },
            ManifestError::DuplicateSecret(name) => {
                let mut r = copy_text("duplicate secret name in allowlist: ");
                r.append(quote_debug(name.as_str()).as_str());
                r
            },
            ManifestError::CacheTtlOutOfRange { value } => {
                let mut r = copy_text("cache.ttl_seconds out of range: ");
                r.append(decimal_text(*value as u64).as_str());
                r.append(" (must be 1..=");
                r.append(decimal_text(CACHE_TTL_MAX as u64).as_str());
                r.append(")");
                r
            },
            ManifestError::CacheMaxEntriesOutOfRange { value } => {
                let mut r = copy_text("cache.max_entries out of range: ");
                r.append(decimal_text(*value as u64).as_str());
                r.append(" (must be 1..=");
                r.append(decimal_text(CACHE_MAX_ENTRIES_MAX as u64).as_str());
                r.append(")");
                r
            },
        }
    }
}

/// A manifest. One that `from_toml_str`, `load` or `validate` hands out is valid.
#[derive(Debug)]
pub struct Manifest {
    pub schema_version: u32,
    pub project: Project,
    pub allowlist: Allowlist,
    pub cache: Cache,
}

#[derive(Debug)]
pub struct Project {
    pub name: String,
    pub description: Option<String>,
}

#[derive(Debug)]
pub struct Allowlist {
    pub secrets: Vec<String>,
}

/// Per-project cache bounds; an absent one means the broker's default.
#[derive(Debug, Clone, Copy)]
pub struct Cache {
    pub ttl_seconds: Option<u32>,
    pub max_entries: Option<u32>,
}

impl Default for Cache {
    fn default() -> (r: Cache)
        ensures
            r.ttl_seconds is None,
            r.max_entries is None,
    {
        Cache { ttl_seconds: None, max_entries: None }
    }
}

/// A manifest as it stands in its file, before it is validated.
#[derive(Debug)]
pub struct RawManifest {
    pub schema_version: u32,
    pub project: RawProject,
    pub allowlist: RawAllowlist,
    pub cache: Option<RawCache>,
}

#[derive(Debug)]
pub struct RawProject {
    pub name: String,
    pub description: Option<String>,
}

#[derive(Debug)]
pub struct RawAllowlist {
    pub secrets: Vec<String>,
}

#[derive(Debug)]
pub struct RawCache {
    pub ttl_seconds: Option<u32>,
    pub max_entries: Option<u32>,
}

/// What a manifest says. A manifest without a cache table says the same as one whose cache
/// table is empty.
#[verifier::ext_equal]
pub struct ManifestModel {
    pub schema_version: u32,
    pub name: Seq<char>,
    pub description: Option<Seq<char>>,
    pub secrets: Seq<Seq<char>>,
    pub ttl_seconds: Option<u32>,
    pub max_entries: Option<u32>,
}

impl View for Manifest {
    type V = ManifestModel;

    open spec fn view(&self) -> ManifestModel {
        ManifestModel {
            schema_version: self.schema_version,
            name: self.project.name@,
            description: text::optional_text(self.project.description),
            secrets: text::text_views(self.allowlist.secrets@),
            ttl_seconds: self.cache.ttl_seconds,
            max_entries: self.cache.max_entries,
        }
    }
}

impl View for RawManifest {
    type V = ManifestModel;

    open spec fn view(&self) -> ManifestModel {
        ManifestModel {
            schema_version: self.schema_version,
            name: self.project.name@,
            description: text::optional_text(self.project.description),
            secrets: text::text_views(self.allowlist.secrets@),
            ttl_seconds: match self.cache {
                Some(cache) => cache.ttl_seconds,
                None => None,
            },
            max_entries: match self.cache {
                Some(cache) => cache.max_entries,
                None => None,
            },
        }
    }
}

impl Clone for Project {
    fn clone(&self) -> (r: Project)
        ensures
            r.name@ == self.name@,
            text::optional_text(r.description) == text::optional_text(self.description),
    {
        Project {
            name: copy_text(self.name.as_str()),
            description: copy_optional(&self.description),
        }
    }
}

impl Clone for Allowlist {
    fn clone(&self) -> (r: Allowlist)
        ensures
            text::text_views(r.secrets@) == text::text_views(self.secrets@),
    {
        Allowlist { secrets: copy_texts(&self.secrets) }
    }
}

impl Clone for Manifest {
    fn clone(&self) -> (r: Manifest)
        ensures
            r@ == self@,
    {
        Manifest {
            schema_version: self.schema_version,
            project: self.project.clone(),
            allowlist: self.allowlist.clone(),
            cache: self.cache,
        }
    }
}

pub open spec fn is_name_start(c: char) -> bool {
    'a' <= c <= 'z' || '0' <= c <= '9'
}

pub open spec fn is_name_char(c: char) -> bool {
    is_name_start(c) || c == '_' || c == '-'
}

/// `^[a-z0-9][a-z0-9_-]{0,63}$`
pub open spec fn project_name_ok(s: Seq<char>) -> bool {
    &&& 1 <= s.len() <= PROJECT_NAME_MAX_LEN
    &&& is_name_start(s[0])
    &&& forall|i: int| 0 <= i < s.len() ==> is_name_char(#[trigger] s[i])
}

pub open spec fn is_secret_char(c: char) -> bool {
    'A' <= c <= 'Z' || 'a' <= c <= 'z' || '0' <= c <= '9' || c == '_'
}

/// `^[A-Za-z0-9_]{1,128}$`
pub open spec fn secret_name_ok(s: Seq<char>) -> bool {
    &&& 1 <= s.len() <= SECRET_NAME_MAX_LEN
    &&& forall|i: int| 0 <= i < s.len() ==> is_secret_char(#[trigger] s[i])
}

/// The first thing wrong with the secrets of an allowlist from index `i` on: a name that is
/// none, or one that stands further up already.
pub open spec fn secrets_fault(secrets: Seq<Seq<char>>, i: int) -> Option<ManifestFault>
    decreases secrets.len() - i,
{
    if i < 0 || i >= secrets.len() {
        None
    } else if !secret_name_ok(secrets[i]) {
        Some(ManifestFault::InvalidSecretName(secrets[i]))
    } else if exists|j: int| 0 <= j < i && #[trigger] secrets[j] == secrets[i] {
        Some(ManifestFault::DuplicateSecret(secrets[i]))
    } else {
        secrets_fault(secrets, i + 1)
    }
}

/// The first thing wrong with a manifest of the project in the directory `dir`.
pub open spec fn manifest_fault(raw: ManifestModel, dir: Option<Seq<char>>) -> Option<
    ManifestFault,
> {
    if !SUPPORTED_SCHEMA_VERSIONS@.contains(raw.schema_version) {
        Some(ManifestFault::UnsupportedSchemaVersion(raw.schema_version))
    } else if !project_name_ok(raw.name) {
        Some(ManifestFault::InvalidProjectName(raw.name))
    } else if dir is Some && dir->0 != raw.name {
        Some(ManifestFault::NameDirMismatch(raw.name, dir->0))
    } else if raw.description is Some && raw.description->0.len() > DESCRIPTION_MAX_LEN {
        Some(ManifestFault::DescriptionTooLong(raw.description->0.len() as int))
    } else if secrets_fault(raw.secrets, 0) is Some {
        secrets_fault(raw.secrets, 0)
    } else if raw.ttl_seconds is Some && !(1 <= raw.ttl_seconds->0 <= CACHE_TTL_MAX) {
        Some(ManifestFault::CacheTtlOutOfRange(raw.ttl_seconds->0))
    } else if raw.max_entries is Some && !(1 <= raw.max_entries->0 <= CACHE_MAX_ENTRIES_MAX) {
        Some(ManifestFault::CacheMaxEntriesOutOfRange(raw.max_entries->0))
    } else {
        None
    }
}

/// The rules that a valid manifest keeps.
pub open spec fn manifest_valid(m: ManifestModel) -> bool {
    &&& m.schema_version == 1
    &&& project_name_ok(m.name)
    &&& m.description is Some ==> m.description->0.len() <= DESCRIPTION_MAX_LEN
    &&& forall|i: int| 0 <= i < m.secrets.len() ==> secret_name_ok(#[trigger] m.secrets[i])
    &&& m.secrets.no_duplicates()
    &&& m.ttl_seconds is Some ==> 1 <= m.ttl_seconds->0 <= CACHE_TTL_MAX
    &&& m.max_entries is Some ==> 1 <= m.max_entries->0 <= CACHE_MAX_ENTRIES_MAX
}

/// The keys that a project's table may hold.
pub open spec fn project_keys() -> Seq<&'static str> {
    seq!["name", "description"]
}

/// The key that an allowlist holds.
pub open spec fn allowlist_keys() -> Seq<&'static str> {
    seq!["secrets"]
}

/// The keys that a cache's table may hold.
pub open spec fn cache_keys() -> Seq<&'static str> {
    seq!["ttl_seconds", "max_entries"]
}

/// What a root table says, if it has a manifest's shape: the keys it must have, those it
/// may have, and no others.
pub open spec fn manifest_in(top: TomlEntries) -> Result<ManifestModel, TomlFaultView> {
    match tree::stray_key(top, seq!["schema_version", "project", "allowlist", "cache"]) {
        Some(key) => Err(TomlFaultView::UnknownKey(key)),
        None => match tree::required(tree::u32_entry(top, "schema_version"@), "schema_version"@) {
            Err(fault) => Err(fault),
            Ok(schema_version) => match tree::required(
                tree::record_entry(top, "project"@, project_keys()),
                "project"@,
            ) {
                Err(fault) => Err(fault),
                Ok(project) => match project_in(project) {
                    Err(fault) => Err(fault),
                    Ok((name, description)) => match tree::required(
                        tree::record_entry(top, "allowlist"@, allowlist_keys()),
                        "allowlist"@,
                    ) {
                        Err(fault) => Err(fault),
                        Ok(allowlist) => match allowlist_in(allowlist) {
                            Err(fault) => Err(fault),
                            Ok(secrets) => match tree::record_entry(top, "cache"@, cache_keys()) {
                                Err(fault) => Err(fault),
                                Ok(cache) => match cache_in(cache) {
                                    Err(fault) => Err(fault),
                                    Ok((ttl_seconds, max_entries)) => Ok(
                                        ManifestModel {
                                            schema_version,
                                            name,
                                            description,
                                            secrets,
                                            ttl_seconds,
                                            max_entries,
                                        },
                                    ),
                                },
                            },
                        },
                    },
                },
            },
        },
    }
}

pub open spec fn project_in(project: TomlEntries) -> Result<
    (Seq<char>, Option<Seq<char>>),
    TomlFaultView,
> {
    match tree::stray_key(project, project_keys()) {
        Some(key) => Err(TomlFaultView::UnknownKey(key)),
        None => match tree::required(tree::text_entry(project, "name"@), "name"@) {
            Err(fault) => Err(fault),
            Ok(name) => match tree::text_entry(project, "description"@) {
                Err(fault) => Err(fault),
                Ok(description) => Ok((name, description)),
            },
        },
    }
}

pub open spec fn allowlist_in(allowlist: TomlEntries) -> Result<Seq<Seq<char>>, TomlFaultView> {
    match tree::stray_key(allowlist, allowlist_keys()) {
        Some(key) => Err(TomlFaultView::UnknownKey(key)),
        None => tree::required(tree::texts_entry(allowlist, "secrets"@), "secrets"@),
    }
}

pub open spec fn cache_in(cache: Option<TomlEntries>) -> Result<
    (Option<u32>, Option<u32>),
    TomlFaultView,
> {
    match cache {
        None => Ok((None, None)),
        Some(cache) => match tree::stray_key(cache, cache_keys()) {
            Some(key) => Err(TomlFaultView::UnknownKey(key)),
            None => match tree::u32_entry(cache, "ttl_seconds"@) {
                Err(fault) => Err(fault),
                Ok(ttl_seconds) => match tree::u32_entry(cache, "max_entries"@) {
                    Err(fault) => Err(fault),
                    Ok(max_entries) => Ok((ttl_seconds, max_entries)),
                },
            },
        },
    }
}

/// What the text of a manifest says.
pub open spec fn manifest_text(src: Seq<char>) -> Result<ManifestModel, TomlFaultView> {
    match tree::document_entries(src) {
        Err(fault) => Err(fault),
        Ok(top) => manifest_in(top),
    }
}

/// What comes of the text of a manifest that stands at `path`, for the project in the
/// directory `dir`: the manifest, or what is wrong with it.
pub open spec fn manifest_outcome(
    src: Seq<char>,
    path: Seq<char>,
    dir: Option<Seq<char>>,
) -> Result<ManifestModel, ManifestFault> {
    match manifest_text(src) {
        Err(fault) => Err(ManifestFault::Parse(path, fault)),
        Ok(raw) => match manifest_fault(raw, dir) {
            Some(fault) => Err(fault),
            None => Ok(raw),
        },
    }
}

/// Reads the project table.
fn read_project(top: &Vec<(String, TomlValue)>) -> (r: Result<RawProject, TomlFault>)
    ensures
        (match tree::required(
            tree::record_entry(tree::entry_nodes(top@), "project"@, project_keys()),
            "project"@,
        ) {
            Err(fault) => Err(fault),
            Ok(project) => project_in(project),
        }) == match r {
            Ok(project) => Ok((project.name@, text::optional_text(project.description))),
            Err(fault) => Err(fault@),
        },
{
    let known = vec!["name", "description"];
    assert(known@ =~= project_keys());
    let project = match read_record(top, "project", &known) {
        Err(fault) => return Err(fault),
        Ok(None) => return Err(TomlFault::MissingKey(copy_text("project"))),
        Ok(Some(project)) => project,
    };
    if let Err(fault) = only_known(&project, &known) {
        return Err(fault);
    }
    let name = match read_text(&project, "name") {
        Err(fault) => return Err(fault),
        Ok(None) => return Err(TomlFault::MissingKey(copy_text("name"))),
        Ok(Some(name)) => name,
    };
    match read_text(&project, "description") {
        Err(fault) => Err(fault),
        Ok(description) => Ok(RawProject { name, description }),
    }
}

/// Reads the allowlist table.
fn read_allowlist(top: &Vec<(String, TomlValue)>) -> (r: Result<RawAllowlist, TomlFault>)
    ensures
        (match tree::required(
            tree::record_entry(tree::entry_nodes(top@), "allowlist"@, allowlist_keys()),
            "allowlist"@,
        ) {
            Err(fault) => Err(fault),
            Ok(allowlist) => allowlist_in(allowlist),
        }) == match r {
            Ok(allowlist) => Ok(text::text_views(allowlist.secrets@)),
            Err(fault) => Err(fault@),
        },
{
    let known = vec!["secrets"];
    assert(known@ =~= allowlist_keys());
    let allowlist = match read_record(top, "allowlist", &known) {
        Err(fault) => return Err(fault),
        Ok(None) => return Err(TomlFault::MissingKey(copy_text("allowlist"))),
        Ok(Some(allowlist)) => allowlist,
    };
    if let Err(fault) = only_known(&allowlist, &known) {
        return Err(fault);
    }
    match read_texts(&allowlist, "secrets") {
        Err(fault) => Err(fault),
        Ok(None) => Err(TomlFault::MissingKey(copy_text("secrets"))),
        Ok(Some(secrets)) => Ok(RawAllowlist { secrets }),
    }
}

/// Reads the cache table.
fn read_cache(top: &Vec<(String, TomlValue)>) -> (r: Result<Option<RawCache>, TomlFault>)
    ensures
        (match tree::record_entry(tree::entry_nodes(top@), "cache"@, cache_keys()) {
            Err(fault) => Err(fault),
            Ok(cache) => cache_in(cache),
        }) == match r {
            Ok(None) => Ok((None, None)),
            Ok(Some(cache)) => Ok((cache.ttl_seconds, cache.max_entries)),
            Err(fault) => Err(fault@),
        },
{
    let known = vec!["ttl_seconds", "max_entries"];
    assert(known@ =~= cache_keys());
    let cache = match read_record(top, "cache", &known) {
        Err(fault) => return Err(fault),
        Ok(None) => return Ok(None),
        Ok(Some(cache)) => cache,
    };
    if let Err(fault) = only_known(&cache, &known) {
        return Err(fault);
    }
    let ttl_seconds: Option<u32> = match read_u32(&cache, "ttl_seconds") {
        Err(fault) => return Err(fault),
        Ok(found) => found,
    };
    match read_u32(&cache, "max_entries") {
        Err(fault) => Err(fault),
        Ok(max_entries) => Ok(Some(RawCache { ttl_seconds, max_entries })),
    }
}

impl RawManifest {
    /// Reads the text of a manifest, without validating what it says.
    pub fn parse(src: &str) -> (r: Result<RawManifest, TomlFault>)
        ensures
            match r {
                Ok(raw) => manifest_text(src@) == Ok::<_, TomlFaultView>(raw@),
                Err(fault) => manifest_text(src@) == Err::<ManifestModel, TomlFaultView>(fault@),
            },
    {
        match read_document(src) {
            Err(fault) => Err(fault),
            Ok(top) => Self::from_entries(&top),
        }
    }

    /// Reads a manifest from the entries of its root table.
    pub fn from_entries(top: &Vec<(String, TomlValue)>) -> (r: Result<RawManifest, TomlFault>)
        ensures
            manifest_in(tree::entry_nodes(top@)) == match r {
                Ok(raw) => Ok(raw@),
                Err(fault) => Err(fault@),
            },
    {
        let known = vec!["schema_version", "project", "allowlist", "cache"];
        assert(known@ =~= seq!["schema_version", "project", "allowlist", "cache"]);
        if let Err(fault) = only_known(top, &known) {
            return Err(fault);
        }
        let schema_version: u32 = match read_u32(top, "schema_version") {
            Err(fault) => return Err(fault),
            Ok(None) => return Err(TomlFault::MissingKey(copy_text("schema_version"))),
            Ok(Some(version)) => version,
        };
        let project = match read_project(top) {
            Err(fault) => return Err(fault),
            Ok(project) => project,
        };
        let allowlist = match read_allowlist(top) {
            Err(fault) => return Err(fault),
            Ok(allowlist) => allowlist,
        };
        match read_cache(top) {
            Err(fault) => Err(fault),
            Ok(cache) => Ok(RawManifest { schema_version, project, allowlist, cache }),
        }
    }
}

impl Manifest {
    /// Reads and validates a manifest. `project_dir_name` is the name of the project's
    /// directory, which the project's name has to match; without it that rule is skipped.
    pub fn from_toml_str(toml_src: &str, project_dir_name: Option<&str>) -> (r: Result<
        Manifest,
        ManifestError,
    >)
        ensures
            manifest_outcome(
                toml_src@,
                "<inline>"@,
                match project_dir_name {
                    Some(dir) => Some(dir@),
                    None => None,
                },
            ) == match r {
                Ok(m) => Ok(m@),
                Err(e) => Err(e@),
            },
    {
        match RawManifest::parse(toml_src) {
            Err(source) => Err(ManifestError::Parse { path: copy_text("<inline>"), source }),
            Ok(raw) => Self::validate(raw, project_dir_name),
        }
    }

    /// Takes a manifest that was looked for in a project's directory. `present` tells which
    /// of the candidates is a file, and `read` is what reading the first of those came to;
    /// where none is, `read` is passed over.
    pub fn load(project_path: &str, present: [bool; 2], read: Result<String, ReadFailure>) -> (r:
        Result<(Manifest, String), ManifestError>)
        ensures
            match discovered(project_path@, present@) {
                None => r is Err && r->Err_0@ == ManifestFault::NotFound(project_path@),
                Some(path) => match read {
                    Err(failure) => r is Err && r->Err_0@ == ManifestFault::Io(
                        path,
                        failure.message@,
                    ),
                    Ok(src) => {
                        &&& manifest_outcome(src@, path, paths::base_name(project_path@)) == match r {
                            Ok((m, _)) => Ok(m@),
                            Err(e) => Err(e@),
                        }
                        &&& r is Ok ==> r->Ok_0.1@ == path
                    },
                },
            },
    {
        let path = match discover(project_path, present) {
            None => return Err(ManifestError::NotFound(copy_text(project_path))),
            Some(path) => path,
        };
        let src = match read {
            Err(failure) => return Err(ManifestError::Io { path, message: failure.message }),
            Ok(src) => src,
        };
        let raw = match RawManifest::parse(src.as_str()) {
            Err(source) => return Err(ManifestError::Parse { path, source }),
            Ok(raw) => raw,
        };
        let validated = match file_name(project_path) {
            Some(dir) => Self::validate(raw, Some(dir.as_str())),
            None => Self::validate(raw, None),
        };
        match validated {
            Err(e) => Err(e),
            Ok(manifest) => Ok((manifest, path)),
        }
    }

    /// Holds a manifest to the rules, in their order, and reports the first that it breaks.
    pub fn validate(raw: RawManifest, project_dir_name: Option<&str>) -> (r: Result<
        Manifest,
        ManifestError,
    >)
        ensures
            match r {
                Ok(m) => m@ == raw@ && manifest_fault(
                    raw@,
                    match project_dir_name {
                        Some(dir) => Some(dir@),
                        None => None,
                    },
                ) is None,
                Err(e) => manifest_fault(
                    raw@,
                    match project_dir_name {
                        Some(dir) => Some(dir@),
                        None => None,
                    },
                ) == Some(e@),
            },
    {
        assert(SUPPORTED_SCHEMA_VERSIONS@[0] == 1);
        if raw.schema_version != SUPPORTED_SCHEMA_VERSIONS[0] {
            return Err(ManifestError::UnsupportedSchemaVersion(raw.schema_version));
        }
        if !is_valid_project_name(raw.project.name.as_str()) {
            return Err(ManifestError::InvalidProjectName { name: raw.project.name });
        }
        if let Some(dir) = project_dir_name {
            if !same_text(raw.project.name.as_str(), dir) {
                return Err(
                    ManifestError::NameDirMismatch { name: raw.project.name, dir: copy_text(dir) },
                );
            }
        }
        if let Some(description) = &raw.project.description {
            let len: usize = description.as_str().unicode_len();
            if len > DESCRIPTION_MAX_LEN {
                return Err(ManifestError::DescriptionTooLong { len });
            }
        }
        if let Some(e) = check_secrets(&raw.allowlist.secrets) {
            return Err(e);
        }
        let cache = match raw.cache {
            None => Cache { ttl_seconds: None, max_entries: None },
            Some(cache) => {
                if let Some(value) = cache.ttl_seconds {
                    if value < 1 || value > CACHE_TTL_MAX {
                        return Err(ManifestError::CacheTtlOutOfRange { value });
                    }
                }
                if let Some(value) = cache.max_entries {
                    if value < 1 || value > CACHE_MAX_ENTRIES_MAX {
                        return Err(ManifestError::CacheMaxEntriesOutOfRange { value });
                    }
                }
                Cache { ttl_seconds: cache.ttl_seconds, max_entries: cache.max_entries }
            },
        };
        Ok(
            Manifest {
                schema_version: raw.schema_version,
                project: Project {
                    name: raw.project.name,
                    description: raw.project.description,
                },
                allowlist: Allowlist { secrets: raw.allowlist.secrets },
                cache,
            },
        )
    }
}

impl Allowlist {
    /// Tells whether the project may fetch `name`. Names are case-sensitive.
    pub fn permits(&self, name: &str) -> (r: bool)
        ensures
            r == text::text_views(self.secrets@).contains(name@),
    {
        let ghost names = text::text_views(self.secrets@);
        let mut i: usize = 0;
        while i < self.secrets.len()
            invariant
                i <= self.secrets@.len(),
                names == text::text_views(self.secrets@),
                forall|j: int| 0 <= j < i ==> (#[trigger] names[j]) != name@,
            decreases self.secrets@.len() - i,
        {
            assert(names[i as int] == self.secrets@[i as int]@);
            if same_text(self.secrets[i].as_str(), name) {
                return true;
            }
            i = i + 1;
        }
        false
    }
}

/// Finds the first secret of an allowlist that is misnamed or stands there twice.
fn check_secrets(secrets: &Vec<String>) -> (r: Option<ManifestError>)
    ensures
        match r {
            Some(e) => secrets_fault(text::text_views(secrets@), 0) == Some(e@),
            None => secrets_fault(text::text_views(secrets@), 0) is None,
        },
{
    let ghost names = text::text_views(secrets@);
    let mut i: usize = 0;
    while i < secrets.len()
        invariant
            i <= secrets@.len(),
            names == text::text_views(secrets@),
            secrets_fault(names, 0) == secrets_fault(names, i as int),
        decreases secrets@.len() - i,
    {
        let name = secrets[i].as_str();
        assert(names[i as int] == name@);
        if !is_valid_secret_name(name) {
            return Some(ManifestError::InvalidSecretName { name: copy_text(name) });
        }
        let mut j: usize = 0;
        while j < i
            invariant
                j <= i < secrets@.len(),
                names == text::text_views(secrets@),
                name@ == names[i as int],
                forall|k: int| 0 <= k < j ==> (#[trigger] names[k]) != name@,
                secrets_fault(names, 0) == secrets_fault(names, i as int),
                secret_name_ok(name@),
            decreases i - j,
        {
            assert(names[j as int] == secrets@[j as int]@);
            if same_text(secrets[j].as_str(), name) {
                return Some(ManifestError::DuplicateSecret(copy_text(name)));
            }
            j = j + 1;
        }
        i = i + 1;
    }
    None
}

/// The candidate that is to be loaded: the first that is a file.
pub open spec fn discovered(project_path: Seq<char>, present: Seq<bool>) -> Option<Seq<char>> {
    if present[0] {
        Some(paths::joined(project_path, MANIFEST_CANDIDATES@[0]@))
    } else if present[1] {
        Some(paths::joined(project_path, MANIFEST_CANDIDATES@[1]@))
    } else {
        None
    }
}

/// The paths at which a project may keep its manifest, in order of priority.
pub fn candidates(project_path: &str) -> (r: [String; 2])
    ensures
        r@[0]@ == paths::joined(project_path@, MANIFEST_CANDIDATES@[0]@),
        r@[1]@ == paths::joined(project_path@, MANIFEST_CANDIDATES@[1]@),
{
    [join(project_path, MANIFEST_CANDIDATES[0]), join(project_path, MANIFEST_CANDIDATES[1])]
}

/// Picks the manifest to load, given which of the candidates is a file.
pub fn discover(project_path: &str, present: [bool; 2]) -> (r: Option<String>)
    ensures
        match r {
            Some(path) => discovered(project_path@, present@) == Some(path@),
            None => discovered(project_path@, present@) is None,
        },
{
    if present[0] {
        Some(join(project_path, MANIFEST_CANDIDATES[0]))
    } else if present[1] {
        Some(join(project_path, MANIFEST_CANDIDATES[1]))
    } else {
        None
    }
}

/// Where a project's manifest stands, or, where there is none, is looked for first.
pub open spec fn location(project_path: Seq<char>, present: Seq<bool>) -> Seq<char> {
    match discovered(project_path, present) {
        Some(path) => path,
        None => paths::joined(project_path, MANIFEST_CANDIDATES@[0]@),
    }
}

/// Tells where a project's manifest stands, given which of the candidates is a file, or,
/// where there is none, is looked for first.
pub fn locate(project_path: &str, present: [bool; 2]) -> (r: String)
    ensures
        r@ == location(project_path@, present@),
{
    match discover(project_path, present) {
        Some(path) => path,
        None => join(project_path, MANIFEST_CANDIDATES[0]),
    }
}

/// Tells whether `s` may name a project.
pub fn is_valid_project_name(s: &str) -> (r: bool)
    ensures
        r == project_name_ok(s@),
{
    let cs = chars_of(s);
    if cs.len() == 0 || cs.len() > PROJECT_NAME_MAX_LEN {
        return false;
    }
    let first = cs[0];
    if !(('a' <= first && first <= 'z') || ('0' <= first && first <= '9')) {
        return false;
    }
    let mut i: usize = 0;
    while i < cs.len()
        invariant
            cs@ == s@,
            i <= cs@.len(),
            forall|j: int| 0 <= j < i ==> is_name_char(#[trigger] cs@[j]),
        decreases cs@.len() - i,
    {
        let c = cs[i];
        if !(('a' <= c && c <= 'z') || ('0' <= c && c <= '9') || c == '_' || c == '-') {
            assert(!is_name_char(cs@[i as int]));
            return false;
        }
        i = i + 1;
    }
    true
}

/// Tells whether `s` may name a secret.
pub fn is_valid_secret_name(s: &str) -> (r: bool)
    ensures
        r == secret_name_ok(s@),
{
    let cs = chars_of(s);
    if cs.len() == 0 || cs.len() > SECRET_NAME_MAX_LEN {
        return false;
    }
    let mut i: usize = 0;
    while i < cs.len()
        invariant
            cs@ == s@,
            i <= cs@.len(),
            forall|j: int| 0 <= j < i ==> is_secret_char(#[trigger] cs@[j]),
        decreases cs@.len() - i,
    {
        let c = cs[i];
        if !(('A' <= c && c <= 'Z') || ('a' <= c && c <= 'z') || ('0' <= c && c <= '9') || c
            == '_') {
            assert(!is_secret_char(cs@[i as int]));
            return false;
        }
        i = i + 1;
    }
    true
}

proof fn lemma_secrets_fault(secrets: Seq<Seq<char>>, i: int)
    requires
        0 <= i <= secrets.len(),
    ensures
        secrets_fault(secrets, i) is None <==> {
            &&& forall|k: int| i <= k < secrets.len() ==> secret_name_ok(#[trigger] secrets[k])
            &&& forall|j: int, k: int|
                i <= k < secrets.len() && 0 <= j < k ==> #[trigger] secrets[j]
                    != #[trigger] secrets[k]
        },
    decreases secrets.len() - i,
{
    if i < secrets.len() {
        lemma_secrets_fault(secrets, i + 1);
    }
}

/// A manifest is accepted exactly when it keeps every rule and carries the name of its
/// directory.
pub proof fn accepted_exactly_when_valid(raw: ManifestModel, dir: Option<Seq<char>>)
    ensures
        manifest_fault(raw, dir) is None <==> manifest_valid(raw) && (dir is Some ==> dir->0
            == raw.name),
{
    assert(SUPPORTED_SCHEMA_VERSIONS@[0] == 1);
    assert(SUPPORTED_SCHEMA_VERSIONS@.contains(raw.schema_version) <==> raw.schema_version == 1);
    lemma_secrets_fault(raw.secrets, 0);
    assert(raw.secrets.no_duplicates() <==> (forall|j: int, k: int|
        0 <= k < raw.secrets.len() && 0 <= j < k ==> #[trigger] raw.secrets[j]
            != #[trigger] raw.secrets[k]));
}

/// Every manifest that a text yields is valid, whatever directory it was read for, and
/// says what the text says.
pub proof fn loaded_manifests_are_valid(
    src: Seq<char>,
    path: Seq<char>,
    dir: Option<Seq<char>>,
)
    ensures
        match manifest_outcome(src, path, dir) {
            Ok(m) => {
                &&& manifest_valid(m)
                &&& manifest_text(src) == Ok::<ManifestModel, TomlFaultView>(m)
                &&& dir is Some ==> m.name == dir->0
            },
            Err(_) => true,
        },
{
    match manifest_text(src) {
        Ok(raw) => {
            accepted_exactly_when_valid(raw, dir);
        },
        Err(_) => {},
    }
}

/// A root table with a key that a manifest does not have is refused, whatever else it
/// holds.
pub proof fn unknown_keys_are_refused(top: TomlEntries, i: int)
    requires
        0 <= i < top.len(),
        top[i].0 != "schema_version"@,
        top[i].0 != "project"@,
        top[i].0 != "allowlist"@,
        top[i].0 != "cache"@,
    ensures
        manifest_in(top) is Err,
        manifest_in(top)->Err_0 is UnknownKey,
{
    let known = seq!["schema_version", "project", "allowlist", "cache"];
    tree::no_stray_key_means_all_known(top, known);
    assert(!tree::names_key(known, top[i].0));
}

/// A project, allowlist or cache table with a key that it does not have is refused, whatever
/// else it holds.
pub proof fn unknown_keys_in_tables_are_refused(table: TomlEntries, i: int)
    requires
        0 <= i < table.len(),
    ensures
        table[i].0 != "name"@ && table[i].0 != "description"@ ==> project_in(table) is Err
            && project_in(table)->Err_0 is UnknownKey,
        table[i].0 != "secrets"@ ==> allowlist_in(table) is Err && allowlist_in(
            table,
        )->Err_0 is UnknownKey,
        table[i].0 != "ttl_seconds"@ && table[i].0 != "max_entries"@ ==> cache_in(Some(table)) is Err
            && cache_in(Some(table))->Err_0 is UnknownKey,
{
    tree::no_stray_key_means_all_known(table, project_keys());
    tree::no_stray_key_means_all_known(table, allowlist_keys());
    tree::no_stray_key_means_all_known(table, cache_keys());
}

/// The manifest that a project's owner committed wins over the one that was made up for
/// the project, and where there is neither, there is none to load.
pub proof fn committed_manifests_win(project_path: Seq<char>, present: Seq<bool>)
    requires
        present.len() == 2,
    ensures
        present[0] ==> discovered(project_path, present) == Some(
            paths::joined(project_path, ".devcontainer/remo-broker.toml"@),
        ),
        !present[0] && present[1] ==> discovered(project_path, present) == Some(
            paths::joined(project_path, ".remo/broker.toml"@),
        ),
        !present[0] && !present[1] <==> discovered(project_path, present) is None,
{
}

/// A name that is fit for a project is fit to be a path's last segment: it holds no slash
/// and is no run of dots.
pub proof fn project_names_are_path_segments(name: Seq<char>)
    requires
        project_name_ok(name),
    ensures
        !name.contains('/'),
        !name.contains('.'),
{
    if name.contains('/') {
        let i = choose|i: int| 0 <= i < name.len() && name[i] == '/';
        assert(is_name_char(name[i]));
    }
    if name.contains('.') {
        let i = choose|i: int| 0 <= i < name.len() && name[i] == '.';
        assert(is_name_char(name[i]));
    }
}

/// A name is fit for a project exactly where it has 1 to 64 characters, each a small letter, a
/// digit, a low line or a hyphen, and begins with one of the first two.
pub proof fn project_names_keep_to_their_letters(s: Seq<char>)
    ensures
        project_name_ok(s) <==> {
            &&& 1 <= s.len() <= 64
            &&& s[0] != '_' && s[0] != '-'
            &&& forall|i: int|
                0 <= i < s.len() ==> {
                    ||| 97 <= (#[trigger] s[i]) as int <= 122
                    ||| 48 <= s[i] as int <= 57
                    ||| s[i] as int == 95
                    ||| s[i] as int == 45
                }
        },
{
    if 1 <= s.len() <= 64 && (forall|i: int|
        0 <= i < s.len() ==> {
            ||| 97 <= (#[trigger] s[i]) as int <= 122
            ||| 48 <= s[i] as int <= 57
            ||| s[i] as int == 95
            ||| s[i] as int == 45
        }) {
        assert(97 <= s[0] as int <= 122 || 48 <= s[0] as int <= 57 || s[0] as int == 95
            || s[0] as int == 45);
        assert forall|i: int| 0 <= i < s.len() implies is_name_char(#[trigger] s[i]) by {}
    }
    if project_name_ok(s) {
        assert forall|i: int| 0 <= i < s.len() implies {
            ||| 97 <= (#[trigger] s[i]) as int <= 122
            ||| 48 <= s[i] as int <= 57
            ||| s[i] as int == 95
            ||| s[i] as int == 45
        } by {
            assert(is_name_char(s[i]));
        }
    }
}

/// A name is fit for a secret exactly where it has 1 to 128 characters, each a letter, a digit or
/// a low line.
pub proof fn secret_names_keep_to_their_letters(s: Seq<char>)
    ensures
        secret_name_ok(s) <==> {
            &&& 1 <= s.len() <= 128
            &&& forall|i: int|
                0 <= i < s.len() ==> {
                    ||| 65 <= (#[trigger] s[i]) as int <= 90
                    ||| 97 <= s[i] as int <= 122
                    ||| 48 <= s[i] as int <= 57
                    ||| s[i] as int == 95
                }
        },
{
    if 1 <= s.len() <= 128 && (forall|i: int|
        0 <= i < s.len() ==> {
            ||| 65 <= (#[trigger] s[i]) as int <= 90
            ||| 97 <= s[i] as int <= 122
            ||| 48 <= s[i] as int <= 57
            ||| s[i] as int == 95
        }) {
        assert forall|i: int| 0 <= i < s.len() implies is_secret_char(#[trigger] s[i]) by {}
    }
    if secret_name_ok(s) {
        assert forall|i: int| 0 <= i < s.len() implies {
            ||| 65 <= (#[trigger] s[i]) as int <= 90
            ||| 97 <= s[i] as int <= 122
            ||| 48 <= s[i] as int <= 57
            ||| s[i] as int == 95
        } by {
            assert(is_secret_char(s[i]));
        }
    }
}

/// An allowlist is refused for the first of its secrets that is misnamed or that stands further
/// up already: misnamed, if it is that, and repeated otherwise.
pub proof fn the_first_bad_secret_is_reported(secrets: Seq<Seq<char>>, k: int)
    requires
        0 <= k < secrets.len(),
        forall|i: int| 0 <= i < k ==> secret_name_ok(#[trigger] secrets[i]),
        forall|i: int, j: int|
            0 <= j < i < k ==> (#[trigger] secrets[j]) != (#[trigger] secrets[i]),
    ensures
        !secret_name_ok(secrets[k]) ==> secrets_fault(secrets, 0) == Some(
            ManifestFault::InvalidSecretName(secrets[k]),
        ),
        secret_name_ok(secrets[k]) && secrets.take(k).contains(secrets[k]) ==> secrets_fault(
            secrets,
            0,
        ) == Some(ManifestFault::DuplicateSecret(secrets[k])),
        secret_name_ok(secrets[k]) && !secrets.take(k).contains(secrets[k]) && k + 1
            == secrets.len() ==> secrets_fault(secrets, 0) is None,
{
    lemma_secrets_up_to(secrets, 0, k);
    if secrets.take(k).contains(secrets[k]) {
        let j = choose|j: int| 0 <= j < k && secrets.take(k)[j] == secrets[k];
        assert(secrets[j] == secrets[k]);
    } else {
        assert forall|j: int| 0 <= j < k implies (#[trigger] secrets[j]) != secrets[k] by {
            assert(secrets.take(k)[j] == secrets[j]);
        }
        assert(secrets_fault(secrets, k + 1) is None || k + 1 < secrets.len());
    }
}

proof fn lemma_secrets_up_to(secrets: Seq<Seq<char>>, i: int, k: int)
    requires
        0 <= i <= k <= secrets.len(),
        forall|i: int| 0 <= i < k ==> secret_name_ok(#[trigger] secrets[i]),
        forall|i: int, j: int|
            0 <= j < i < k ==> (#[trigger] secrets[j]) != (#[trigger] secrets[i]),
    ensures
        secrets_fault(secrets, i) == secrets_fault(secrets, k),
    decreases k - i,
{
    if i < k {
        assert(secret_name_ok(secrets[i]));
        lemma_secrets_up_to(secrets, i + 1, k);
    }
}

/// A manifest is refused for the first rule that it breaks, in their order, and the error tells
/// what broke it as it stands in the manifest.
pub proof fn the_first_broken_rule_is_reported(raw: ManifestModel, dir: Option<Seq<char>>)
    ensures
        match manifest_fault(raw, dir) {
            Some(ManifestFault::UnsupportedSchemaVersion(v)) => v == raw.schema_version && v != 1,
            Some(ManifestFault::InvalidProjectName(name)) => raw.schema_version == 1 && name
                == raw.name && !project_name_ok(name),
            Some(ManifestFault::NameDirMismatch(name, of)) => raw.schema_version == 1
                && project_name_ok(raw.name) && name == raw.name && dir == Some(of) && name != of,
            Some(ManifestFault::DescriptionTooLong(len)) => {
                &&& raw.schema_version == 1 && project_name_ok(raw.name)
                &&& dir is None || dir == Some(raw.name)
                &&& raw.description is Some && raw.description->0.len() == len && len > 256
            },
            Some(ManifestFault::CacheTtlOutOfRange(n)) => {
                &&& raw.schema_version == 1 && project_name_ok(raw.name)
                &&& dir is None || dir == Some(raw.name)
                &&& raw.description is None || raw.description->0.len() <= 256
                &&& secrets_fault(raw.secrets, 0) is None
                &&& raw.ttl_seconds == Some(n) && (n == 0 || n > 86_400)
            },
            Some(ManifestFault::CacheMaxEntriesOutOfRange(n)) => {
                &&& raw.schema_version == 1 && project_name_ok(raw.name)
                &&& dir is None || dir == Some(raw.name)
                &&& raw.description is None || raw.description->0.len() <= 256
                &&& secrets_fault(raw.secrets, 0) is None
                &&& raw.ttl_seconds is None || 1 <= raw.ttl_seconds->0 <= 86_400
                &&& raw.max_entries == Some(n) && (n == 0 || n > 1_024)
            },
            Some(fault) => {
                &&& raw.schema_version == 1 && project_name_ok(raw.name)
                &&& dir is None || dir == Some(raw.name)
                &&& raw.description is None || raw.description->0.len() <= 256
                &&& secrets_fault(raw.secrets, 0) == Some(fault)
                &&& fault is InvalidSecretName || fault is DuplicateSecret
            },
            None => {
                &&& raw.schema_version == 1 && project_name_ok(raw.name)
                &&& dir is None || dir == Some(raw.name)
                &&& raw.description is None || raw.description->0.len() <= 256
                &&& secrets_fault(raw.secrets, 0) is None
                &&& raw.ttl_seconds is None || 1 <= raw.ttl_seconds->0 <= 86_400
                &&& raw.max_entries is None || 1 <= raw.max_entries->0 <= 1_024
            },
        },
{
    assert(SUPPORTED_SCHEMA_VERSIONS@[0] == 1);
    assert(SUPPORTED_SCHEMA_VERSIONS@.contains(raw.schema_version) <==> raw.schema_version == 1);
    lemma_secrets_kind(raw.secrets, 0);
}

proof fn lemma_secrets_kind(secrets: Seq<Seq<char>>, i: int)
    ensures
        secrets_fault(secrets, i) is None || secrets_fault(secrets, i)->0 is InvalidSecretName
            || secrets_fault(secrets, i)->0 is DuplicateSecret,
    decreases secrets.len() - i,
{
    if 0 <= i < secrets.len() {
        lemma_secrets_kind(secrets, i + 1);
    }
}

/// A root table says of a manifest what stands under its keys: the version, the project's table,
/// the allowlist and, where it is there, the cache's table. It is refused for the first that is
/// not known, is missing or is of the wrong kind.
pub proof fn manifests_say_what_stands_under_their_keys(top: TomlEntries)
    ensures
        ({
            let stray = tree::stray_key(top, seq!["schema_version", "project", "allowlist", "cache"]);
            let version = tree::required(tree::u32_entry(top, "schema_version"@), "schema_version"@);
            let project = tree::required(
                tree::record_entry(top, "project"@, seq!["name", "description"]),
                "project"@,
            );
            let allowlist = tree::required(
                tree::record_entry(top, "allowlist"@, seq!["secrets"]),
                "allowlist"@,
            );
            let cache = tree::record_entry(top, "cache"@, seq!["ttl_seconds", "max_entries"]);
            let says = manifest_in(top);
            if stray is Some {
                says is Err && says->Err_0 == TomlFaultView::UnknownKey(stray->0)
            } else if version is Err {
                says is Err && says->Err_0 == version->Err_0
            } else if project is Err {
                says is Err && says->Err_0 == project->Err_0
            } else if project_in(project->Ok_0) is Err {
                says is Err && says->Err_0 == project_in(project->Ok_0)->Err_0
            } else if allowlist is Err {
                says is Err && says->Err_0 == allowlist->Err_0
            } else if allowlist_in(allowlist->Ok_0) is Err {
                says is Err && says->Err_0 == allowlist_in(allowlist->Ok_0)->Err_0
            } else if cache is Err {
                says is Err && says->Err_0 == cache->Err_0
            } else if cache_in(cache->Ok_0) is Err {
                says is Err && says->Err_0 == cache_in(cache->Ok_0)->Err_0
            } else {
                &&& says is Ok
                &&& says->Ok_0.schema_version == version->Ok_0
                &&& project_in(project->Ok_0) == Ok::<_, TomlFaultView>(
                    (says->Ok_0.name, says->Ok_0.description),
                )
                &&& allowlist_in(allowlist->Ok_0) == Ok::<_, TomlFaultView>(says->Ok_0.secrets)
                &&& cache_in(cache->Ok_0) == Ok::<_, TomlFaultView>(
                    (says->Ok_0.ttl_seconds, says->Ok_0.max_entries),
                )
            }
        }),
{
    assert(project_keys() =~= seq!["name", "description"]);
    assert(allowlist_keys() =~= seq!["secrets"]);
    assert(cache_keys() =~= seq!["ttl_seconds", "max_entries"]);
}

/// A manifest's tables say what stands under their keys: the project's its name, which it must,
/// and its description, which it may; the allowlist its secrets; the cache's each of its bounds,
/// which it may. A manifest without a cache's table bounds nothing.
pub proof fn tables_say_what_stands_under_their_keys(table: TomlEntries)
    ensures
        ({
            let stray = tree::stray_key(table, seq!["name", "description"]);
            let name = tree::required(tree::text_entry(table, "name"@), "name"@);
            let description = tree::text_entry(table, "description"@);
            let says = project_in(table);
            if stray is Some {
                says is Err && says->Err_0 == TomlFaultView::UnknownKey(stray->0)
            } else if name is Err {
                says is Err && says->Err_0 == name->Err_0
            } else if description is Err {
                says is Err && says->Err_0 == description->Err_0
            } else {
                says == Ok::<_, TomlFaultView>((name->Ok_0, description->Ok_0))
            }
        }),
        ({
            let stray = tree::stray_key(table, seq!["secrets"]);
            let says = allowlist_in(table);
            if stray is Some {
                says is Err && says->Err_0 == TomlFaultView::UnknownKey(stray->0)
            } else {
                says == tree::required(tree::texts_entry(table, "secrets"@), "secrets"@)
            }
        }),
        ({
            let stray = tree::stray_key(table, seq!["ttl_seconds", "max_entries"]);
            let ttl = tree::u32_entry(table, "ttl_seconds"@);
            let entries = tree::u32_entry(table, "max_entries"@);
            let says = cache_in(Some(table));
            if stray is Some {
                says is Err && says->Err_0 == TomlFaultView::UnknownKey(stray->0)
            } else if ttl is Err {
                says is Err && says->Err_0 == ttl->Err_0
            } else if entries is Err {
                says is Err && says->Err_0 == entries->Err_0
            } else {
                says == Ok::<_, TomlFaultView>((ttl->Ok_0, entries->Ok_0))
            }
        }),
        cache_in(None) == Ok::<(Option<u32>, Option<u32>), TomlFaultView>((None, None)),
{
    assert(project_keys() =~= seq!["name", "description"]);
    assert(allowlist_keys() =~= seq!["secrets"]);
    assert(cache_keys() =~= seq!["ttl_seconds", "max_entries"]);
}

/// A text comes to the manifest that stands in it, unchanged, or to the error of the first step
/// that fails; where it stands counts only for an error.
pub proof fn texts_come_to_what_they_say(
    src: Seq<char>,
    path: Seq<char>,
    other: Seq<char>,
    dir: Option<Seq<char>>,
)
    ensures
        match tree::document_entries(src) {
            Err(fault) => manifest_outcome(src, path, dir) == Err::<ManifestModel, _>(
                ManifestFault::Parse(path, fault),
            ),
            Ok(top) => match manifest_in(top) {
                Err(fault) => manifest_outcome(src, path, dir) == Err::<ManifestModel, _>(
                    ManifestFault::Parse(path, fault),
                ),
                Ok(raw) => {
                    &&& manifest_fault(raw, dir) is None ==> manifest_outcome(src, path, dir)
                        == Ok::<_, ManifestFault>(raw)
                    &&& manifest_fault(raw, dir) is Some ==> manifest_outcome(src, path, dir)
                        == Err::<ManifestModel, _>(manifest_fault(raw, dir)->0)
                },
            },
        },
        manifest_outcome(src, path, dir) is Ok ==> manifest_outcome(src, other, dir)
            == manifest_outcome(src, path, dir),
{
}

/// A project without a manifest is told to look where an owner commits one.
pub proof fn manifests_are_located_where_they_are_looked_for(
    project_path: Seq<char>,
    present: Seq<bool>,
)
    requires
        present.len() == 2,
    ensures
        present[0] || !present[1] ==> location(project_path, present) == paths::joined(
            project_path,
            ".devcontainer/remo-broker.toml"@,
        ),
        !present[0] && present[1] ==> location(project_path, present) == paths::joined(
            project_path,
            ".remo/broker.toml"@,
        ),
        MANIFEST_CANDIDATES@[0]@ == ".devcontainer/remo-broker.toml"@,
        MANIFEST_CANDIDATES@[1]@ == ".remo/broker.toml"@,
{
}

/// What a manifest is refused for is put into words with what was wrong, as it stands there.
pub proof fn refusals_tell_what_was_wrong(
    path: Seq<char>,
    message: Seq<char>,
    source: TomlFaultView,
    n: u32,
    name: Seq<char>,
    len: nat,
)
    ensures
        refusal_text(ManifestFault::NotFound(path)) == "no manifest under "@ + path
            + ": expected .devcontainer/remo-broker.toml or .remo/broker.toml"@,
        refusal_text(ManifestFault::Io(path, message)) == "failed to read "@ + path + ": "@
            + message,
        refusal_text(ManifestFault::Parse(path, source)) == "failed to parse TOML in "@ + path
            + ": "@ + tree::toml_fault_text(source),
        refusal_text(ManifestFault::UnsupportedSchemaVersion(n))
            == "unsupported schema_version: "@ + text::decimal(n as nat)
            + " (supported: [1])"@,
        refusal_text(ManifestFault::InvalidProjectName(name)) == "invalid project.name "@
            + text::debug_quoted(name) + ": must match ^[a-z0-9][a-z0-9_-]{0,63}$"@,
        refusal_text(ManifestFault::NameDirMismatch(name, path)) == "project.name "@
            + text::debug_quoted(name) + " does not match project directory basename "@
            + text::debug_quoted(path),
        refusal_text(ManifestFault::DescriptionTooLong(len as int))
            == "project.description too long: "@ + text::decimal(len) + " chars (max 256)"@,
        refusal_text(ManifestFault::InvalidSecretName(name)) == "invalid allowlist secret name "@
            + text::debug_quoted(name) + ": must match ^[A-Za-z0-9_]{1,128}$"@,
        refusal_text(ManifestFault::DuplicateSecret(name))
            == "duplicate secret name in allowlist: "@ + text::debug_quoted(name),
        refusal_text(ManifestFault::CacheTtlOutOfRange(n)) == "cache.ttl_seconds out of range: "@
            + text::decimal(n as nat) + " (must be 1..=86400)"@,
        refusal_text(ManifestFault::CacheMaxEntriesOutOfRange(n))
            == "cache.max_entries out of range: "@ + text::decimal(n as nat)
            + " (must be 1..=1024)"@,
{
    lemma_limits_in_words();
    reveal_strlit(" (supported: [");
    reveal_strlit("])");
    reveal_strlit(" (supported: [1])");
    reveal_strlit(" chars (max ");
    reveal_strlit(")");
    reveal_strlit(" chars (max 256)");
    reveal_strlit(" (must be 1..=");
    reveal_strlit(" (must be 1..=86400)");
    reveal_strlit(" (must be 1..=1024)");
    assert(SUPPORTED_SCHEMA_VERSIONS@[0] == 1);
    assert(" (supported: ["@ + seq!['1'] + "])"@ =~= " (supported: [1])"@);
    assert(" chars (max "@ + seq!['2', '5', '6'] + ")"@ =~= " chars (max 256)"@);
    assert(" (must be 1..="@ + seq!['8', '6', '4', '0', '0'] + ")"@ =~= " (must be 1..=86400)"@);
    assert(" (must be 1..="@ + seq!['1', '0', '2', '4'] + ")"@ =~= " (must be 1..=1024)"@);
    let v = "unsupported schema_version: "@ + text::decimal(n as nat);
    assert(v + " (supported: ["@ + seq!['1'] + "])"@ =~= v + (" (supported: ["@ + seq!['1']
        + "])"@));
    let d = "project.description too long: "@ + text::decimal(len);
    assert(d + " chars (max "@ + seq!['2', '5', '6'] + ")"@ =~= d + (" chars (max "@ + seq![
        '2',
        '5',
        '6',
    ] + ")"@));
    let t = "cache.ttl_seconds out of range: "@ + text::decimal(n as nat);
    assert(t + " (must be 1..="@ + seq!['8', '6', '4', '0', '0'] + ")"@ =~= t + (
    " (must be 1..="@ + seq!['8', '6', '4', '0', '0'] + ")"@));
    let e = "cache.max_entries out of range: "@ + text::decimal(n as nat);
    assert(e + " (must be 1..="@ + seq!['1', '0', '2', '4'] + ")"@ =~= e + (" (must be 1..="@
        + seq!['1', '0', '2', '4'] + ")"@));
}

proof fn lemma_limits_in_words()
    ensures
        text::decimal(1) == seq!['1'],
        text::decimal(256) == seq!['2', '5', '6'],
        text::decimal(1_024) == seq!['1', '0', '2', '4'],
        text::decimal(86_400) == seq!['8', '6', '4', '0', '0'],
{
    text::decimals_are_positional(0, 1);
    text::decimals_are_positional(0, 2);
    text::decimals_are_positional(2, 5);
    text::decimals_are_positional(25, 6);
    text::decimals_are_positional(1, 0);
    text::decimals_are_positional(10, 2);
    text::decimals_are_positional(102, 4);
    text::decimals_are_positional(0, 8);
    text::decimals_are_positional(8, 6);
    text::decimals_are_positional(86, 4);
    text::decimals_are_positional(864, 0);
    text::decimals_are_positional(8_640, 0);
    let (a, b, c) = (text::decimal(2), text::decimal(25), text::decimal(256));
    assert(a =~= seq!['2'] && b =~= a.push('5') && c =~= b.push('6'));
    assert(c =~= seq!['2', '5', '6']);
    let (p, q, r, s) = (
        text::decimal(1),
        text::decimal(10),
        text::decimal(102),
        text::decimal(1_024),
    );
    assert(p =~= seq!['1'] && q =~= p.push('0') && r =~= q.push('2') && s =~= r.push('4'));
    assert(s =~= seq!['1', '0', '2', '4']);
    let (v, w, x) = (text::decimal(8), text::decimal(86), text::decimal(864));
    let (y, z) = (text::decimal(8_640), text::decimal(86_400));
    assert(v =~= seq!['8'] && w =~= v.push('6') && x =~= w.push('4'));
    assert(y =~= x.push('0') && z =~= y.push('0'));
    assert(z =~= seq!['8', '6', '4', '0', '0']);
}

/// A manifest and an error are told as they are.
pub proof fn manifests_are_told_as_they_are(
    manifest: Manifest,
    raw: RawManifest,
    error: ManifestError,
)
    ensures
        manifest@.schema_version == manifest.schema_version,
        manifest@.name == manifest.project.name@,
        manifest@.description == text::optional_text(manifest.project.description),
        manifest@.secrets == text::text_views(manifest.allowlist.secrets@),
        manifest@.ttl_seconds == manifest.cache.ttl_seconds,
        manifest@.max_entries == manifest.cache.max_entries,
        raw@.schema_version == raw.schema_version,
        raw@.name == raw.project.name@,
        raw@.description == text::optional_text(raw.project.description),
        raw@.secrets == text::text_views(raw.allowlist.secrets@),
        raw.cache is Some ==> raw@.ttl_seconds == raw.cache->0.ttl_seconds && raw@.max_entries
            == raw.cache->0.max_entries,
        raw.cache is None ==> raw@.ttl_seconds is None && raw@.max_entries is None,
        match error {
            ManifestError::NotFound(path) => error@ == ManifestFault::NotFound(path@),
            ManifestError::Io { path, message } => error@ == ManifestFault::Io(path@, message@),
            ManifestError::Parse { path, source } => error@ == ManifestFault::Parse(path@, source@),
            ManifestError::UnsupportedSchemaVersion(v) => error@
                == ManifestFault::UnsupportedSchemaVersion(v),
            ManifestError::InvalidProjectName { name } => error@
                == ManifestFault::InvalidProjectName(name@),
            ManifestError::NameDirMismatch { name, dir } => error@
                == ManifestFault::NameDirMismatch(name@, dir@),
            ManifestError::DescriptionTooLong { len } => error@
                == ManifestFault::DescriptionTooLong(len as int),
            ManifestError::InvalidSecretName { name } => error@
                == ManifestFault::InvalidSecretName(name@),
            ManifestError::DuplicateSecret(name) => error@ == ManifestFault::DuplicateSecret(name@),
            ManifestError::CacheTtlOutOfRange { value } => error@
                == ManifestFault::CacheTtlOutOfRange(value),
            ManifestError::CacheMaxEntriesOutOfRange { value } => error@
                == ManifestFault::CacheMaxEntriesOutOfRange(value),
        },
{
}

} // verus!
