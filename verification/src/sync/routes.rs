//! What the request handlers decide.

use vstd::prelude::*;
use vstd::string::*;
use crate::sync::backend::{PushResponse, PushResult};
use crate::sync::error::{SyncError, SyncErrorView};

verus! {

/// What is done before a request reaches the drive.
#[derive(Clone, Copy, Debug, PartialEq, Eq, Structural)]
pub enum BackendPlan {
    /// The backend is there: refresh its token.
    Refresh,
    /// Make the backend from the stored tokens, then refresh its token.
    Initialize,
}

/// How local and remote data are combined.
#[derive(Clone, Copy, Debug, PartialEq, Eq, Structural)]
pub enum MergePlan {
    /// Nothing is stored remotely: the local data is uploaded as it is.
    LocalOnly,
    /// The remote data comes from this device: the local data replaces it.
    Overwrite,
    /// The remote data comes from another device: the two are merged.
    Merge,
}

/// How an optional revision is written in a message.
pub uninterp spec fn debug_form(etag: Option<Seq<char>>) -> Seq<char>;

/// `format!` with `{:?}` on the optional revision: its debug form, which
/// is the named form.
#[verifier::external_body]
fn debug_text(etag: &Option<String>) -> (text: String)
    ensures
        text@ == debug_form(
            match etag {
                Some(e) => Some(e@),
                None => None,
            },
        ),
{
    format!("{:?}", etag)
}

/// The plan for combining local data with what is stored remotely.
pub open spec fn merge_plan_for(remote_device: Option<Seq<char>>, device: Seq<char>) -> MergePlan {
    match remote_device {
        None => MergePlan::LocalOnly,
        Some(d) => if d == device {
            MergePlan::Overwrite
        } else {
            MergePlan::Merge
        },
    }
}

/// Decides what is done before a request reaches the drive: without a
/// backend, both tokens must be stored.
pub fn ensure_plan(has_backend: bool, has_access_token: bool, has_refresh_token: bool) -> (plan:
    Result<BackendPlan, SyncError>)
    ensures
        match plan {
            Ok(p) => p == (if has_backend {
                BackendPlan::Refresh
            } else {
                BackendPlan::Initialize
            }) && (has_backend || (has_access_token && has_refresh_token)),
            Err(e) => e@ == SyncErrorView::NotAuthenticated && !has_backend && !(has_access_token
                && has_refresh_token),
        },
{
    if has_backend {
        Ok(BackendPlan::Refresh)
    } else if has_access_token && has_refresh_token {
        Ok(BackendPlan::Initialize)
    } else {
        Err(SyncError::NotAuthenticated)
    }
}

/// Decides how local data is combined with what is stored remotely, from
/// the device that stored it, if anything is stored.
pub fn merge_plan(remote_device: Option<&str>, device: &str) -> (plan: MergePlan)
    ensures
        plan == merge_plan_for(
            match remote_device {
                Some(d) => Some(d@),
                None => None,
            },
            device@,
        ),
{
    match remote_device {
        None => MergePlan::LocalOnly,
        Some(d) => {
            let remote = String::from_str(d);
            let local = String::from_str(device);
            if remote == local {
                MergePlan::Overwrite
            } else {
                MergePlan::Merge
            }
        },
    }
}

/// The answer to a push: the new revision with the time of the
/// synchronisation, or the conflict.
pub fn push_response(result: PushResult, now: i64) -> (answer: Result<PushResponse, SyncError>)
    ensures
        match result {
            PushResult::Success { etag } => answer matches Ok(r) && r.success && r.etag@ == etag@
                && r.sync_timestamp == now,
            PushResult::Conflict { remote_etag } => answer matches Err(e) && e@
                == SyncErrorView::Conflict(
                "[PUSH] Conflict detected! Remote etag: "@ + remote_etag@,
            ),
        },
{
    match result {
        PushResult::Success { etag } => Ok(PushResponse { success: true, etag, sync_timestamp: now }),
        PushResult::Conflict { remote_etag } => {
            let mut message = String::from_str("[PUSH] Conflict detected! Remote etag: ");
            message.append(remote_etag.as_str());
            Err(SyncError::Conflict(message))
        },
    }
}

/// The outcome of the push that ends a merge: the new revision, or the
/// conflict with the revision that was expected.
pub fn merge_push_outcome(result: PushResult, expected: &Option<String>) -> (etag: Result<
    String,
    SyncError,
>)
    ensures
        match result {
            PushResult::Success { etag: new_etag } => etag matches Ok(e) && e@ == new_etag@,
            PushResult::Conflict { remote_etag } => etag matches Err(e) && e@
                == SyncErrorView::Conflict(
                "[MERGE] Conflict detected! Expected etag: "@ + debug_form(
                    match expected {
                        Some(x) => Some(x@),
                        None => None,
                    },
                ) + ", got: "@ + remote_etag@,
            ),
        },
{
    match result {
        PushResult::Success { etag } => Ok(etag),
        PushResult::Conflict { remote_etag } => {
            let mut message = String::from_str("[MERGE] Conflict detected! Expected etag: ");
            message.append(debug_text(expected).as_str());
            message.append(", got: ");
            message.append(remote_etag.as_str());
            Err(SyncError::Conflict(message))
        },
    }
}

} // verus!
