//! Backend session: what the outcome of a lookup at the credential store means.

use crate::fetch::BackendReply;
use vstd::prelude::*;

verus! {

/// Why there is no backend session.
#[derive(Debug)]
pub enum BackendError {
    /// The configuration at this path could not be opened.
    Open { path: String, message: String },
    /// No configuration was found from the current directory upwards.
    Discover(String),
}

/// Reads the outcome of a lookup: a value, nothing under a name that is known, or a failure
/// of the provider, of its authentication or on the way. Where nothing was looked up, the
/// daemon runs without a backend.
pub fn backend_reply(got: Option<Result<Option<String>, String>>) -> (r: BackendReply)
    ensures
        r == match got {
            None => BackendReply::Absent,
            Some(Ok(Some(value))) => BackendReply::Value(value),
            Some(Ok(None)) => BackendReply::Missing,
            Some(Err(message)) => BackendReply::Failed(message),
        },
{
    match got {
        None => BackendReply::Absent,
        Some(Ok(Some(value))) => BackendReply::Value(value),
        Some(Ok(None)) => BackendReply::Missing,
        Some(Err(message)) => BackendReply::Failed(message),
    }
}

} // verus!
