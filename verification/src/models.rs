//! Data model of a download job: its lifecycle status, the job record itself,
//! and the response wrapper that job actions hand back to callers.

use vstd::prelude::*;

verus! {

/// Progress is measured in hundredths of a percentage point, so a finished
/// download reads exactly this value. An integer scale keeps the progress
/// arithmetic exact.
pub const PROGRESS_FULL: u64 = 10000;

/// One percentage point on the progress scale: progress writes are throttled
/// to changes larger than this.
pub const PROGRESS_THRESHOLD: u64 = 100;

/// Lifecycle state of a download job.
///
/// `Pending` is transient: it is never persisted and only describes a lookup
/// by a key for which no record exists. All other states except `Unknown`
/// belong to a persisted record.
#[derive(Clone, Copy, Debug, PartialEq, Eq, Structural)]
pub enum DownloadStatus {
    Unknown,
    Pending,
    Idle,
    InProgress,
    Paused,
    Cancelled,
    Completed,
}

impl Default for DownloadStatus {
    fn default() -> (r: Self)
        ensures
            r is Unknown,
    {
        DownloadStatus::Unknown
    }
}

impl DownloadStatus {
    /// Human-readable name of the status.
    pub fn text(&self) -> (r: &'static str)
        ensures
            r@ == self.text_spec(),
    {
        match self {
            DownloadStatus::Unknown => "Unknown",
            DownloadStatus::Pending => "Pending",
            DownloadStatus::Idle => "Idle",
            DownloadStatus::InProgress => "InProgress",
            DownloadStatus::Paused => "Paused",
            DownloadStatus::Cancelled => "Cancelled",
            DownloadStatus::Completed => "Completed",
        }
    }

    pub open spec fn text_spec(self) -> Seq<char> {
        match self {
            DownloadStatus::Unknown => "Unknown"@,
            DownloadStatus::Pending => "Pending"@,
            DownloadStatus::Idle => "Idle"@,
            DownloadStatus::InProgress => "InProgress"@,
            DownloadStatus::Paused => "Paused"@,
            DownloadStatus::Cancelled => "Cancelled"@,
            DownloadStatus::Completed => "Completed"@,
        }
    }
}

/// Mathematical value of a job record: the string fields as character
/// sequences, the progress as an integer on the scale of [`PROGRESS_FULL`].
pub ghost struct ItemView {
    pub key: Seq<char>,
    pub url: Seq<char>,
    pub path: Seq<char>,
    pub progress: int,
    pub status: DownloadStatus,
}

impl ItemView {
    /// The record invariant: progress stays on the scale, and reads full
    /// exactly on a completed job.
    pub open spec fn wf(self) -> bool {
        &&& 0 <= self.progress <= PROGRESS_FULL
        &&& (self.status is Completed <==> self.progress == PROGRESS_FULL)
    }

    /// The record after a status change; completion forces progress to full.
    pub open spec fn with_status_spec(self, new_status: DownloadStatus) -> ItemView {
        ItemView {
            status: new_status,
            progress: if new_status is Completed {
                PROGRESS_FULL as int
            } else {
                self.progress
            },
            ..self
        }
    }

    /// The record after a progress write from a running transfer.
    pub open spec fn with_progress_spec(self, new_progress: int) -> ItemView {
        ItemView { progress: new_progress, status: DownloadStatus::InProgress, ..self }
    }

    /// The record after its destination path is replaced.
    pub open spec fn with_path_spec(self, new_path: Seq<char>) -> ItemView {
        ItemView { path: new_path, ..self }
    }
}

/// A download job record: identity, source, destination, and lifecycle state.
///
/// During a transfer the `path` field holds the working-file path; the final
/// path is recovered by stripping the working suffix on completion.
pub struct DownloadItem {
    pub key: String,
    pub url: String,
    pub path: String,
    pub progress: u64,
    pub status: DownloadStatus,
}

impl View for DownloadItem {
    type V = ItemView;

    open spec fn view(&self) -> ItemView {
        ItemView {
            key: self.key@,
            url: self.url@,
            path: self.path@,
            progress: self.progress as int,
            status: self.status,
        }
    }
}

impl Clone for DownloadItem {
    fn clone(&self) -> (r: Self)
        ensures
            r == *self,
    {
        DownloadItem {
            key: self.key.clone(),
            url: self.url.clone(),
            path: self.path.clone(),
            progress: self.progress,
            status: self.status,
        }
    }
}

impl Default for DownloadItem {
    fn default() -> (r: Self)
        ensures
            r@.key.len() == 0,
            r@.url.len() == 0,
            r@.path.len() == 0,
            r@.progress == 0,
            r@.status is Unknown,
    {
        DownloadItem {
            key: String::new(),
            url: String::new(),
            path: String::new(),
            progress: 0,
            status: DownloadStatus::Unknown,
        }
    }
}

/// Derived copies of a job record, as the store and the transfer engine
/// produce them.
pub trait DownloadItemExt {
    /// A copy with the destination path replaced.
    fn with_path(&self, new_path: String) -> (r: DownloadItem)
        ensures
            r@ == self.view_of().with_path_spec(new_path@),
    ;

    /// A copy carrying a fresh progress value; only a running transfer writes
    /// progress, so the copy is in progress.
    fn with_progress(&self, new_progress: u64) -> (r: DownloadItem)
        ensures
            r@ == self.view_of().with_progress_spec(new_progress as int),
    ;

    /// A copy with the status replaced; completion forces progress to full.
    fn with_status(&self, new_status: DownloadStatus) -> (r: DownloadItem)
        ensures
            r@ == self.view_of().with_status_spec(new_status),
    ;

    /// The mathematical value the copies are described against.
    spec fn view_of(&self) -> ItemView;
}

impl DownloadItemExt for DownloadItem {
    open spec fn view_of(&self) -> ItemView {
        self@
    }

    fn with_path(&self, new_path: String) -> (r: DownloadItem) {
        DownloadItem {
            key: self.key.clone(),
            url: self.url.clone(),
            path: new_path,
            progress: self.progress,
            status: self.status,
        }
    }

    fn with_progress(&self, new_progress: u64) -> (r: DownloadItem) {
        DownloadItem {
            key: self.key.clone(),
            url: self.url.clone(),
            path: self.path.clone(),
            progress: new_progress,
            status: DownloadStatus::InProgress,
        }
    }

    fn with_status(&self, new_status: DownloadStatus) -> (r: DownloadItem) {
        DownloadItem {
            key: self.key.clone(),
            url: self.url.clone(),
            path: self.path.clone(),
            progress: if matches!(new_status, DownloadStatus::Completed) {
                PROGRESS_FULL
            } else {
                self.progress
            },
            status: new_status,
        }
    }
}

/// Result of a job action under the mismatch-reporting policy: instead of
/// failing an action requested in the wrong state, the action returns the
/// job's actual record beside the status the caller expected, so the caller
/// detects the mismatch without an error path.
pub struct DownloadActionResponse {
    pub download: DownloadItem,
    pub expected_status: DownloadStatus,
    pub is_expected_status: bool,
}

impl DownloadActionResponse {
    /// Wraps a job record that is in the state the action aimed for.
    pub fn new(download: DownloadItem) -> (r: Self)
        ensures
            r.download@ == download@,
            r.expected_status == download@.status,
            r.is_expected_status,
    {
        let expected_status = download.status;
        DownloadActionResponse { download, expected_status, is_expected_status: true }
    }

    /// Wraps a job record beside the status the caller expected; the flag
    /// records whether the two agree.
    pub fn with_expected_status(download: DownloadItem, expected_status: DownloadStatus) -> (r:
        Self)
        ensures
            r.download@ == download@,
            r.expected_status == expected_status,
            r.is_expected_status == (download@.status == expected_status),
    {
        let is_expected_status = download.status == expected_status;
        DownloadActionResponse { download, expected_status, is_expected_status }
    }
}

/// Spec of a response for an action that took effect: the record is in the
/// state the action aimed for.
pub open spec fn response_expected(r: DownloadActionResponse, item: ItemView) -> bool {
    &&& r.download@ == item
    &&& r.expected_status == item.status
    &&& r.is_expected_status
}

/// Spec of a response for an action requested in the wrong state: the record
/// is handed back unchanged beside the status the action aimed for.
pub open spec fn response_mismatch(
    r: DownloadActionResponse,
    item: ItemView,
    expected: DownloadStatus,
) -> bool {
    &&& r.download@ == item
    &&& r.expected_status == expected
    &&& r.is_expected_status == (item.status == expected)
}

/// Arguments of key-addressed job actions, as a host bridge passes them.
pub struct KeyArgs {
    pub key: String,
}

/// Arguments of job creation, as a host bridge passes them.
pub struct CreateArgs {
    pub key: String,
    pub url: String,
    pub path: String,
}

} // verus!
