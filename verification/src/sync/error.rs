//! Failures of the synchronisation service.

use vstd::prelude::*;

verus! {

/// Why a synchronisation request failed.
#[derive(Debug)]
pub enum SyncError {
    /// No tokens are stored.
    NotAuthenticated,
    /// The authorisation server refused, or the credentials are unusable.
    OAuthError(String),
    /// The drive refused a request.
    DriveError(String),
    /// Reading, writing, packing or unpacking failed.
    IoError(String),
    /// The payload is no valid document.
    SerializationError(String),
    /// The remote revision is not the expected one.
    Conflict(String),
}

/// A [`SyncError`] with its message as a sequence.
pub enum SyncErrorView {
    NotAuthenticated,
    OAuthError(Seq<char>),
    DriveError(Seq<char>),
    IoError(Seq<char>),
    SerializationError(Seq<char>),
    Conflict(Seq<char>),
}

impl View for SyncError {
    type V = SyncErrorView;

    open spec fn view(&self) -> SyncErrorView {
        match self {
            SyncError::NotAuthenticated => SyncErrorView::NotAuthenticated,
            SyncError::OAuthError(m) => SyncErrorView::OAuthError(m@),
            SyncError::DriveError(m) => SyncErrorView::DriveError(m@),
            SyncError::IoError(m) => SyncErrorView::IoError(m@),
            SyncError::SerializationError(m) => SyncErrorView::SerializationError(m@),
            SyncError::Conflict(m) => SyncErrorView::Conflict(m@),
        }
    }
}

} // verus!
