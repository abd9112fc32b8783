//! Upgrades of the app: what a check found, and what waits to be installed.
//!
//! Between the check and the installation the release that was found is kept, so
//! that what is installed is what was shown.

use crate::error::{AppError, AppResult};
use crate::text::{copy_opt, opt_view};
use vstd::prelude::*;

verus! {

/// Told repeatedly while a release is downloaded.
pub const EVENT_PROGRESS: &'static str = "update://download-progress";

/// Told once it is downloaded.
pub const EVENT_FINISHED: &'static str = "update://download-finished";

/// A release that is newer than the app.
#[derive(Debug, PartialEq, Eq)]
pub struct Release {
    pub version: String,
    pub notes: Option<String>,
    /// The day it came out.
    pub date: Option<String>,
}

/// What a [`Release`] says.
pub struct ReleaseRow {
    pub version: Seq<char>,
    pub notes: Option<Seq<char>>,
    pub date: Option<Seq<char>>,
}

impl View for Release {
    type V = ReleaseRow;

    open spec fn view(&self) -> ReleaseRow {
        ReleaseRow {
            version: self.version@,
            notes: opt_view(self.notes),
            date: opt_view(self.date),
        }
    }
}

impl Clone for Release {
    fn clone(&self) -> (r: Self)
        ensures
            r@ == self@,
    {
        Release {
            version: self.version.clone(),
            notes: copy_opt(&self.notes),
            date: copy_opt(&self.date),
        }
    }
}

/// The view of a release that may not be there.
pub open spec fn release_row(r: Option<Release>) -> Option<ReleaseRow> {
    match r {
        Some(x) => Some(x@),
        None => None,
    }
}

/// The result of a check. Where the app is current, nothing but its version is
/// given.
#[derive(Debug, PartialEq, Eq)]
pub struct UpdateStatus {
    pub available: bool,
    pub current_version: String,
    pub version: Option<String>,
    pub notes: Option<String>,
    pub date: Option<String>,
}

/// What a check can come to.
pub enum Checked {
    /// A newer release.
    Found(Release),
    /// No newer release.
    Current,
    /// A release that says nothing of what can be installed: nothing to update to.
    NoManifest,
    /// The check could not be made, for this reason.
    Unreachable(String),
}

/// The release that waits to be installed.
pub struct PendingUpdate {
    pub release: Option<Release>,
}

/// The release that a check leaves waiting.
pub open spec fn left_waiting(found: Checked) -> Option<ReleaseRow> {
    match found {
        Checked::Found(r) => Some(r@),
        _ => None,
    }
}

/// Takes what a check came to. A check that could not be made is an error and
/// leaves what waits as it was.
pub fn check_for_update(pending: &mut PendingUpdate, current_version: String, found: Checked) -> (r:
    AppResult<UpdateStatus>)
    ensures
        match found {
            Checked::Unreachable(why) => {
                &&& r matches Err(AppError::UpdateCheck(w)) && w == why
                &&& *final(pending) == *old(pending)
            },
            _ => {
                &&& release_row(final(pending).release) == left_waiting(found)
                &&& r matches Ok(s) && {
                    &&& s.current_version == current_version
                    &&& s.available == found is Found
                    &&& match left_waiting(found) {
                        Some(x) => {
                            &&& opt_view(s.version) == Some(x.version)
                            &&& opt_view(s.notes) == x.notes
                            &&& opt_view(s.date) == x.date
                        },
                        None => s.version is None && s.notes is None && s.date is None,
                    }
                }
            },
        },
{
    match found {
        Checked::Unreachable(why) => Err(AppError::UpdateCheck(why)),
        Checked::Found(release) => {
            let status = UpdateStatus {
                available: true,
                current_version,
                version: Some(release.version.clone()),
                notes: copy_opt(&release.notes),
                date: copy_opt(&release.date),
            };
            pending.release = Some(release);
            Ok(status)
        },
        _ => {
            pending.release = None;
            Ok(
                UpdateStatus {
                    available: false,
                    current_version,
                    version: None,
                    notes: None,
                    date: None,
                },
            )
        },
    }
}

/// The release to install. It stays waiting, so that a download that failed can be
/// tried again.
pub fn install_update(pending: &PendingUpdate) -> (r: AppResult<Release>)
    ensures
        match r {
            Ok(x) => release_row(pending.release) == Some(x@),
            Err(e) => pending.release is None && e is NoPendingUpdate,
        },
{
    match &pending.release {
        Some(x) => Ok(x.clone()),
        None => Err(AppError::NoPendingUpdate),
    }
}

/// How far a download has come.
#[derive(Debug, PartialEq, Eq)]
pub struct DownloadProgress {
    pub downloaded: u64,
    /// All there is, where the server says.
    pub total: Option<u64>,
}

impl DownloadProgress {
    /// Another chunk has come.
    pub fn advance(&mut self, chunk: u64, total: Option<u64>)
        requires
            old(self).downloaded + chunk <= u64::MAX,
        ensures
            final(self).downloaded == old(self).downloaded + chunk,
            final(self).total == total,
    {
        self.downloaded = self.downloaded + chunk;
        self.total = total;
    }
}

/// What is installed is what the last check showed.
pub proof fn what_was_shown_is_installed(found: Checked, pending: PendingUpdate)
    requires
        release_row(pending.release) == left_waiting(found),
    ensures
        found is Found <==> pending.release is Some,
        found matches Checked::Found(r) ==> release_row(pending.release) == Some(r@),
{
}

}
