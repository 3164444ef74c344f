//! Values exchanged with a storage backend.

use vstd::prelude::*;

verus! {

/// An optional string as an optional sequence.
pub open spec fn text_of(text: Option<String>) -> Option<Seq<char>> {
    match text {
        Some(t) => Some(t@),
        None => None,
    }
}

/// Outcome of a push to remote storage.
#[derive(Debug)]
pub enum PushResult {
    /// The upload was stored; `etag` identifies the stored revision.
    Success { etag: String },
    /// The remote revision differs from the one the caller expected.
    Conflict { remote_etag: String },
}

/// An OAuth authorisation flow that has been started.
#[derive(Debug)]
pub struct AuthFlow {
    pub auth_url: String,
    pub state: String,
}

/// Whether a backend is connected, and as whom.
#[derive(Debug)]
pub struct AuthStatus {
    pub connected: bool,
    pub backend: String,
    pub email: Option<String>,
    pub last_sync: Option<i64>,
}

/// A request to store a payload, with the revision that the sender last
/// saw.
#[derive(Debug)]
pub struct PushRequest<P> {
    pub payload: P,
    pub etag: Option<String>,
}

/// Answer to a successful push request.
#[derive(Debug)]
pub struct PushResponse {
    pub success: bool,
    pub etag: String,
    pub sync_timestamp: i64,
}

} // verus!
