//! The daemon's command line, once it has been taken apart.

use crate::config::{BootstrapSourceKind, Overrides};
use vstd::prelude::*;

verus! {

/// The flags that the daemon was started with.
#[derive(Debug)]
pub struct Cli {
    /// The configuration file to read.
    pub config: Option<String>,
    pub bootstrap_source: Option<BootstrapSourceKind>,
    pub bootstrap_token_path: Option<String>,
    pub socket_dir: Option<String>,
    pub audit_log_path: Option<String>,
    pub cache_default_ttl_seconds: Option<u32>,
    pub cache_default_max_entries: Option<u32>,
    pub backend_fetch_timeout_ms: Option<u32>,
}

impl Cli {
    /// Parts the configuration file's path from the settings that override the file.
    pub fn into_overrides(self) -> (r: (Option<String>, Overrides))
        ensures
            r.0 == self.config,
            r.1.bootstrap_source == self.bootstrap_source,
            r.1.bootstrap_token_path == self.bootstrap_token_path,
            r.1.socket_dir == self.socket_dir,
            r.1.audit_log_path == self.audit_log_path,
            r.1.cache_default_ttl_seconds == self.cache_default_ttl_seconds,
            r.1.cache_default_max_entries == self.cache_default_max_entries,
            r.1.backend_fetch_timeout_ms == self.backend_fetch_timeout_ms,
    {
        (
            self.config,
            Overrides {
                bootstrap_source: self.bootstrap_source,
                bootstrap_token_path: self.bootstrap_token_path,
                socket_dir: self.socket_dir,
                audit_log_path: self.audit_log_path,
                cache_default_ttl_seconds: self.cache_default_ttl_seconds,
                cache_default_max_entries: self.cache_default_max_entries,
                backend_fetch_timeout_ms: self.backend_fetch_timeout_ms,
            },
        )
    }
}

} // verus!
