//! On-instance credential broker.
//!
//! The broker holds a bootstrap token for its instance, fetches secrets from a credential
//! backend, and hands them out over one socket per project, to each project only what its
//! manifest lists. An admin socket takes projects on and off; every fetch leaves a line in an
//! audit log, which never carries a value.
//!
//! This library decides; its caller acts. Reading files, binding sockets, asking the backend
//! and telling the time are the caller's, who hands in what came of them and is told what to
//! do next:
//!
//! - `config`, `cli`, `bootstrap`: how the daemon is set up and gets its token.
//! - `server`, `sockets`, `listener`, `registry`: the daemon's life, its sockets and its projects.
//! - `manifest`, `cache`, `fetch`, `backend`: what a project may fetch, and how a fetch ends.
//! - `proto`, `message`, `member`, `json`: what goes over the sockets.
//! - `audit`, `audit_reader`: what goes into the audit log, and what a line of it tells.
//! - `tree`, `text`, `paths`, `secret`, `clock`, `files`: what the others are made of.

pub mod audit;
pub mod audit_reader;
pub mod backend;
pub mod bootstrap;
pub mod cache;
pub mod cli;
pub mod clock;
pub mod config;
pub mod fetch;
pub mod files;
pub mod json;
pub mod listener;
pub mod manifest;
pub mod member;
pub mod message;
pub mod paths;
pub mod proto;
pub mod registry;
pub mod secret;
pub mod server;
pub mod sockets;
pub mod text;
pub mod tree;
