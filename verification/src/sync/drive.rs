//! What is asked of the drive, and what is done with its answers.

use vstd::prelude::*;
use vstd::string::*;
use crate::sync::backend::{text_of, PushResult};
use crate::sync::error::{SyncError, SyncErrorView};

verus! {

/// Name of the file that holds the synchronised data.
pub open spec fn sync_file_name() -> Seq<char> {
    "manatan_sync.proto.gz"@
}

/// MIME type by which the drive marks a folder.
pub open spec fn folder_mime_type() -> Seq<char> {
    "application/vnd.google-apps.folder"@
}

/// Name of the drive's folder for application data, which also stands for
/// its id.
pub open spec fn app_data_folder() -> Seq<char> {
    "appDataFolder"@
}

/// The query that finds the folder named `folder_name`.
pub open spec fn folder_query_text(folder_name: Seq<char>) -> Seq<char> {
    "name = '"@ + folder_name + "' and mimeType = '"@ + folder_mime_type()
        + "' and trashed = false"@
}

/// The query that finds the synchronised file in the folder `folder_id`.
pub open spec fn sync_file_query_text(folder_id: Seq<char>) -> Seq<char> {
    if folder_id == app_data_folder() {
        "name = '"@ + sync_file_name() + "' and trashed = false"@
    } else {
        "name = '"@ + sync_file_name() + "' and '"@ + folder_id + "' in parents and trashed = false"@
    }
}

/// The space of the drive that is searched.
pub open spec fn list_space_text(app_data: bool) -> Seq<char> {
    if app_data {
        app_data_folder()
    } else {
        "drive"@
    }
}

/// What a push does on the drive.
#[derive(Debug)]
pub enum PushPlan {
    /// The stored revision is not the expected one: nothing is uploaded.
    Conflict { remote_etag: String },
    /// The stored file is replaced.
    Update { file_id: String },
    /// A new file is created in the folder `parent`.
    Create { parent: String },
}

/// A [`PushPlan`] with its strings as sequences.
pub enum PushPlanView {
    Conflict { remote_etag: Seq<char> },
    Update { file_id: Seq<char> },
    Create { parent: Seq<char> },
}

impl View for PushPlan {
    type V = PushPlanView;

    open spec fn view(&self) -> PushPlanView {
        match self {
            PushPlan::Conflict { remote_etag } => PushPlanView::Conflict {
                remote_etag: remote_etag@,
            },
            PushPlan::Update { file_id } => PushPlanView::Update { file_id: file_id@ },
            PushPlan::Create { parent } => PushPlanView::Create { parent: parent@ },
        }
    }
}

/// The plan for a push: with a stored file, a conflict where the caller
/// expected another revision than the stored one, else an update; without
/// one, a new file in the folder for application data or in `folder_id`.
pub open spec fn push_plan(
    existing: Option<(Seq<char>, Seq<char>)>,
    expected_etag: Option<Seq<char>>,
    app_data: bool,
    folder_id: Seq<char>,
) -> PushPlanView {
    match existing {
        Some((file_id, current_etag)) => {
            if expected_etag is Some && expected_etag->0 != current_etag {
                PushPlanView::Conflict { remote_etag: current_etag }
            } else {
                PushPlanView::Update { file_id }
            }
        },
        None => PushPlanView::Create {
            parent: if app_data {
                app_data_folder()
            } else {
                folder_id
            },
        },
    }
}

/// The query that finds the folder named `folder_name`.
pub fn folder_query(folder_name: &str) -> (query: String)
    ensures
        query@ == folder_query_text(folder_name@),
{
    let mut query = String::from_str("name = '");
    query.append(folder_name);
    query.append("' and mimeType = '");
    query.append("application/vnd.google-apps.folder");
    query.append("' and trashed = false");
    query
}

/// The query that finds the synchronised file in the folder `folder_id`.
pub fn sync_file_query(folder_id: &str) -> (query: String)
    ensures
        query@ == sync_file_query_text(folder_id@),
{
    let id = String::from_str(folder_id);
    let app_data = String::from_str("appDataFolder");
    let mut query = String::from_str("name = '");
    query.append("manatan_sync.proto.gz");
    if id == app_data {
        query.append("' and trashed = false");
    } else {
        query.append("' and '");
        query.append(folder_id);
        query.append("' in parents and trashed = false");
    }
    query
}

/// The space of the drive that is searched.
pub fn list_space(app_data: bool) -> (space: String)
    ensures
        space@ == list_space_text(app_data),
{
    if app_data {
        String::from_str("appDataFolder")
    } else {
        String::from_str("drive")
    }
}

/// Decides what a push does, from the file found on the drive (its id and
/// its revision) and the revision that the caller expects.
pub fn plan_push(
    existing: Option<(String, String)>,
    expected_etag: Option<&str>,
    app_data: bool,
    folder_id: &str,
) -> (plan: PushPlan)
    ensures
        plan@ == push_plan(
            match existing {
                Some((id, etag)) => Some((id@, etag@)),
                None => None,
            },
            match expected_etag {
                Some(e) => Some(e@),
                None => None,
            },
            app_data,
            folder_id@,
        ),
{
    match existing {
        Some((file_id, current_etag)) => {
            let differs = match expected_etag {
                Some(expected) => {
                    let e = String::from_str(expected);
                    !(e == current_etag)
                },
                None => false,
            };
            if differs {
                PushPlan::Conflict { remote_etag: current_etag }
            } else {
                PushPlan::Update { file_id }
            }
        },
        None => {
            if app_data {
                PushPlan::Create { parent: String::from_str("appDataFolder") }
            } else {
                PushPlan::Create { parent: String::from_str(folder_id) }
            }
        },
    }
}

/// The result of an upload that the drive accepted: the checksum that it
/// reports is the new revision, the empty string where it reports none.
pub fn uploaded(checksum: Option<String>) -> (result: PushResult)
    ensures
        result matches PushResult::Success { etag } && etag@ == or_empty(checksum),
{
    match checksum {
        Some(etag) => PushResult::Success { etag },
        None => PushResult::Success { etag: String::new() },
    }
}

/// The id of the first of the listed files, if there is one and it has
/// an id.
pub open spec fn first_id(ids: Option<Vec<Option<String>>>) -> Option<Seq<char>> {
    match ids {
        Some(v) => if v@.len() > 0 {
            text_of(v@[0])
        } else {
            None
        },
        None => None,
    }
}

/// The folder that a listing found: the first of the listed files, if it
/// has an id. `ids` holds the id of each listed file, in order.
pub fn listed_folder(ids: Option<Vec<Option<String>>>) -> (folder: Option<String>)
    ensures
        text_of(folder) == first_id(ids),
{
    match ids {
        Some(mut v) => {
            if v.len() > 0 {
                v.swap_remove(0)
            } else {
                None
            }
        },
        None => None,
    }
}

/// The id of a folder that was just created: the drive must have named it.
pub fn created_folder(id: Option<String>) -> (folder: Result<String, SyncError>)
    ensures
        match folder {
            Ok(f) => text_of(id) == Some(f@),
            Err(e) => id is None && e@ == SyncErrorView::DriveError("Failed to get folder ID"@),
        },
{
    match id {
        Some(f) => Ok(f),
        None => Err(SyncError::DriveError(String::from_str("Failed to get folder ID"))),
    }
}

/// The text of an optional string, empty where there is none.
pub open spec fn or_empty(text: Option<String>) -> Seq<char> {
    match text {
        Some(t) => t@,
        None => Seq::empty(),
    }
}

/// Id and checksum of the first listed file, each empty where the drive
/// gave none.
pub open spec fn sync_file_of(first: Option<(Option<String>, Option<String>)>) -> Option<
    (Seq<char>, Seq<char>),
> {
    match first {
        Some((id, checksum)) => Some((or_empty(id), or_empty(checksum))),
        None => None,
    }
}

/// The synchronised file that a listing found: id and checksum of the
/// first listed file, each empty where the drive gave none.
pub fn listed_sync_file(first: Option<(Option<String>, Option<String>)>) -> (found: Option<
    (String, String),
>)
    ensures
        match found {
            Some((file_id, etag)) => sync_file_of(first) == Some((file_id@, etag@)),
            None => sync_file_of(first) is None,
        },
{
    match first {
        Some((id, checksum)) => {
            let file_id = match id {
                Some(i) => i,
                None => String::new(),
            };
            let etag = match checksum {
                Some(c) => c,
                None => String::new(),
            };
            Some((file_id, etag))
        },
        None => None,
    }
}

/// The folder in which the synchronised file lives, where that is known
/// without asking the drive: the folder for application data.
pub fn fixed_folder(app_data: bool) -> (folder: Option<String>)
    ensures
        match folder {
            Some(f) => app_data && f@ == app_data_folder(),
            None => !app_data,
        },
{
    if app_data {
        Some(String::from_str("appDataFolder"))
    } else {
        None
    }
}

/// Whether a backend counts as authenticated: it has a hub, or both an
/// access token and a refresh token.
pub fn is_authenticated(has_hub: bool, has_access_token: bool, has_refresh_token: bool) -> (yes: bool)
    ensures
        yes == (has_hub || (has_access_token && has_refresh_token)),
{
    has_hub || (has_access_token && has_refresh_token)
}

} // verus!
