//! The download manager: every job action, validated against the state
//! machine and carried out on the job store, plus the synchronized writes a
//! running transfer makes through the same store.
//!
//! Actions requested in a state where they are not legal follow the
//! mismatch-reporting policy uniformly: the call succeeds and returns the
//! job's actual record beside the expected status, and changes nothing.
//!
//! `start` and `resume` do not write to the store themselves: the launched
//! transfer persists the in-progress state itself, before the first byte,
//! through [`Download::transfer_started`]. Both hand the caller a flag saying
//! whether a transfer must be launched; they never ask for one from a job
//! that is not in a launchable state.

use vstd::prelude::*;

use crate::error::Error;
use crate::machine::{spec_transition, transition, DownloadAction};
use crate::models::{
    response_expected,
    response_mismatch,
    DownloadActionResponse,
    DownloadItem,
    DownloadItemExt,
    DownloadStatus,
    ItemView,
    PROGRESS_FULL,
};
use crate::reconcile::{lemma_reconciled_wf, reconcile_item, reconciled_spec};
use crate::store::JobStore;
use crate::utils::{remove_suffix, strip_suffix_spec};

verus! {

/// The suffix of a working file: a transfer streams into
/// `path + ".download"` and the suffix is stripped again on completion.
pub open spec fn download_suffix() -> Seq<char> {
    ".download"@
}

/// The working-file suffix, for executable code.
pub fn download_suffix_str() -> (r: &'static str)
    ensures
        r@ == download_suffix(),
{
    ".download"
}

/// The record a lookup of an absent key returns: never persisted, it lets a
/// caller tell "never created" from "created but idle".
pub open spec fn pending_item(key: Seq<char>) -> ItemView {
    ItemView {
        key,
        url: Seq::empty(),
        path: Seq::empty(),
        progress: 0,
        status: DownloadStatus::Pending,
    }
}

/// The record a fresh creation persists: idle, no progress, streaming into
/// the working file beside the requested destination.
pub open spec fn created_item(key: Seq<char>, url: Seq<char>, path: Seq<char>) -> ItemView {
    ItemView {
        key,
        url,
        path: path + download_suffix(),
        progress: 0,
        status: DownloadStatus::Idle,
    }
}

/// What a transfer's throttle checkpoint decided, after re-reading the
/// persisted job state; the single enforcement point of cooperative pause
/// and cancellation.
pub enum CheckpointAction {
    /// The job is still in progress and not yet done: the new progress was
    /// persisted, and the returned record is to be announced to observers.
    Persisted(DownloadItem),
    /// The job just finished: its record was removed from the store. The
    /// caller renames the working file to the finished record's path and
    /// announces the finished record.
    Completed { finished: DownloadItem, working_path: String },
    /// The job is paused or its record is gone: stop reading immediately.
    Stopped,
    /// The record is in no state a running transfer expects: nothing was
    /// persisted; keep streaming.
    Ignored,
}

/// Access to the download jobs: the manager owning the authoritative store.
pub struct Download {
    store: JobStore,
}

impl View for Download {
    type V = Map<Seq<char>, ItemView>;

    closed spec fn view(&self) -> Map<Seq<char>, ItemView> {
        self.store@
    }
}

impl Download {
    /// The persisted records in insertion order.
    pub closed spec fn jobs(self) -> Seq<ItemView> {
        self.store.jobs()
    }

    /// A well-formed manager: its store has unique keys and well-formed
    /// records.
    pub closed spec fn wf(self) -> bool {
        self.store.wf()
    }

    /// The store invariant, at every key: progress stays on the scale and
    /// reads full exactly on a completed job — after every mutation, since
    /// every action of this type preserves well-formedness.
    pub proof fn lemma_jobs_invariant(&self)
        requires
            self.wf(),
        ensures
            forall|k: Seq<char>| self@.dom().contains(k) ==> (#[trigger] self@[k]).wf(),
    {
        self.store.lemma_jobs_invariant();
    }

    /// How the record sequence and the keyed view fit together.
    pub proof fn lemma_view_props(&self)
        requires
            self.wf(),
        ensures
            forall|i: int|
                0 <= i < self.jobs().len() ==> self@.dom().contains((#[trigger] self.jobs()[i]).key)
                    && self@[self.jobs()[i].key] == self.jobs()[i],
            forall|k: Seq<char>|
                #[trigger] self@.dom().contains(k) ==> exists|i: int|
                    0 <= i < self.jobs().len() && (#[trigger] self.jobs()[i]).key == k,
            forall|k: Seq<char>| #[trigger] self@.dom().contains(k) ==> self@[k].key == k,
    {
        self.store.lemma_view_props();
    }

    /// A manager over an empty store.
    pub fn new() -> (r: Download)
        ensures
            r.wf(),
            r@ == Map::<Seq<char>, ItemView>::empty(),
            r.jobs() == Seq::<ItemView>::empty(),
    {
        Download { store: JobStore::new() }
    }

    /// A manager over an existing store, as loaded from its durable document.
    pub fn from_store(store: JobStore) -> (r: Download)
        requires
            store.wf(),
        ensures
            r.wf(),
            r@ == store@,
            r.jobs() == store.jobs(),
    {
        Download { store }
    }

    /// All job records.
    pub fn list(&self) -> (r: Vec<DownloadItem>)
        ensures
            r@.len() == self.jobs().len(),
            forall|i: int| 0 <= i < r@.len() ==> (#[trigger] r@[i])@ == self.jobs()[i],
    {
        self.store.list()
    }

    /// The job under `key`; a never-created key yields a transient pending
    /// record, which is not persisted.
    pub fn get(&self, key: &String) -> (r: DownloadItem)
        requires
            self.wf(),
        ensures
            self@.dom().contains(key@) ==> r@ == self@[key@],
            !self@.dom().contains(key@) ==> r@ == pending_item(key@),
    {
        match self.store.get(key) {
            Some(item) => item,
            None => DownloadItem {
                key: key.clone(),
                url: String::new(),
                path: String::new(),
                progress: 0,
                status: DownloadStatus::Pending,
            },
        }
    }

    /// Creates a job: persists an idle record streaming into the working
    /// file beside `path`. Creation is idempotent-rejecting: when a record
    /// already exists under the key, the store is left exactly as it was and
    /// the existing record is returned unchanged, its response naming `Idle`
    /// as the status a fresh creation would have had.
    pub fn create(&mut self, key: String, url: String, path: String) -> (r: Result<
        DownloadActionResponse,
        Error,
    >)
        requires
            old(self).wf(),
        ensures
            final(self).wf(),
            r is Ok,
            old(self)@.dom().contains(key@) ==> final(self)@ == old(self)@ && final(self).jobs()
                == old(self).jobs() && (r matches Ok(resp) && response_mismatch(
                resp,
                old(self)@[key@],
                DownloadStatus::Idle,
            )),
            !old(self)@.dom().contains(key@) ==> final(self)@ == old(self)@.insert(
                key@,
                created_item(key@, url@, path@),
            ) && final(self).jobs() == old(self).jobs().push(created_item(key@, url@, path@)) && (
            r matches Ok(resp) && response_expected(resp, created_item(key@, url@, path@))),
    {
        match self.store.get(&key) {
            Some(existing) => Ok(
                DownloadActionResponse::with_expected_status(existing, DownloadStatus::Idle),
            ),
            None => {
                let working = path.concat(download_suffix_str());
                let item = DownloadItem {
                    key,
                    url,
                    path: working,
                    progress: 0,
                    status: DownloadStatus::Idle,
                };
                match self.store.create(item) {
                    Ok(created) => Ok(DownloadActionResponse::new(created)),
                    Err(e) => Err(e),
                }
            },
        }
    }

    /// Starts a job. Only an idle job starts: the caller is told to launch a
    /// transfer, and the returned record is in progress. In any other state
    /// nothing is launched or written — in particular a job already in
    /// progress never gets a second transfer — and the response carries the
    /// unchanged record beside the expected status. The in-progress state is
    /// persisted by the launched transfer itself, not here.
    pub fn start(&self, key: &String) -> (r: Result<(DownloadActionResponse, bool), Error>)
        requires
            self.wf(),
        ensures
            !self@.dom().contains(key@) ==> (r matches Err(e) && e matches Error::NotFound(k)
                && k@ == key@),
            self@.dom().contains(key@) ==> ({
                let item = self@[key@];
                &&& r matches Ok(out)
                &&& out.1 == spec_transition(item.status, DownloadAction::Start) is Some
                &&& item.status is Idle ==> response_expected(
                    out.0,
                    item.with_status_spec(DownloadStatus::InProgress),
                )
                &&& !(item.status is Idle) ==> response_mismatch(
                    out.0,
                    item,
                    DownloadStatus::InProgress,
                )
            }),
    {
        let item = match self.store.get(key) {
            Some(it) => it,
            None => {
                return Err(Error::NotFound(key.clone()));
            },
        };
        match transition(item.status, DownloadAction::Start) {
            Some(next) => {
                let started = item.with_status(next);
                Ok((DownloadActionResponse::new(started), true))
            },
            None => Ok(
                (
                    DownloadActionResponse::with_expected_status(item, DownloadStatus::InProgress),
                    false,
                ),
            ),
        }
    }

    /// Resumes a paused job. Only a paused job resumes: the caller is told
    /// to launch a transfer against the existing partial working file. In
    /// any other state nothing is launched or written, and the response
    /// carries the unchanged record beside the expected status.
    pub fn resume(&self, key: &String) -> (r: Result<(DownloadActionResponse, bool), Error>)
        requires
            self.wf(),
        ensures
            !self@.dom().contains(key@) ==> (r matches Err(e) && e matches Error::NotFound(k)
                && k@ == key@),
            self@.dom().contains(key@) ==> ({
                let item = self@[key@];
                &&& r matches Ok(out)
                &&& out.1 == spec_transition(item.status, DownloadAction::Resume) is Some
                &&& item.status is Paused ==> response_expected(
                    out.0,
                    item.with_status_spec(DownloadStatus::InProgress),
                )
                &&& !(item.status is Paused) ==> response_mismatch(
                    out.0,
                    item,
                    DownloadStatus::InProgress,
                )
            }),
    {
        let item = match self.store.get(key) {
            Some(it) => it,
            None => {
                return Err(Error::NotFound(key.clone()));
            },
        };
        match transition(item.status, DownloadAction::Resume) {
            Some(next) => {
                let resumed = item.with_status(next);
                Ok((DownloadActionResponse::new(resumed), true))
            },
            None => Ok(
                (
                    DownloadActionResponse::with_expected_status(item, DownloadStatus::InProgress),
                    false,
                ),
            ),
        }
    }

    /// Pauses a job in progress: the paused record is persisted at once, and
    /// the running transfer observes it at its next checkpoint and stops. In
    /// any other state nothing is written.
    pub fn pause(&mut self, key: &String) -> (r: Result<DownloadActionResponse, Error>)
        requires
            old(self).wf(),
        ensures
            final(self).wf(),
            !old(self)@.dom().contains(key@) ==> final(self)@ == old(self)@ && (r matches Err(e)
                && e matches Error::NotFound(k) && k@ == key@),
            old(self)@.dom().contains(key@) ==> ({
                let item = old(self)@[key@];
                &&& item.status is InProgress ==> final(self)@ == old(self)@.insert(
                    key@,
                    item.with_status_spec(DownloadStatus::Paused),
                ) && (r matches Ok(resp) && response_expected(
                    resp,
                    item.with_status_spec(DownloadStatus::Paused),
                ))
                &&& !(item.status is InProgress) ==> final(self)@ == old(self)@ && (
                r matches Ok(resp) && response_mismatch(resp, item, DownloadStatus::Paused))
            }),
    {
        let item = match self.store.get(key) {
            Some(it) => it,
            None => {
                return Err(Error::NotFound(key.clone()));
            },
        };
        proof {
            self.lemma_jobs_invariant();
        }
        match transition(item.status, DownloadAction::Pause) {
            Some(next) => {
                let paused = item.with_status(next);
                self.store.update(paused.clone());
                Ok(DownloadActionResponse::new(paused))
            },
            None => Ok(DownloadActionResponse::with_expected_status(item, DownloadStatus::Paused)),
        }
    }

    /// Cancels a job that is idle, in progress or paused: its record is
    /// removed from the store — a running transfer observes the removal at
    /// its next checkpoint and stops — and the returned record reports the
    /// cancelled state. The caller removes the working file, best-effort. In
    /// any other state nothing is written.
    pub fn cancel(&mut self, key: &String) -> (r: Result<DownloadActionResponse, Error>)
        requires
            old(self).wf(),
        ensures
            final(self).wf(),
            !old(self)@.dom().contains(key@) ==> final(self)@ == old(self)@ && (r matches Err(e)
                && e matches Error::NotFound(k) && k@ == key@),
            old(self)@.dom().contains(key@) ==> ({
                let item = old(self)@[key@];
                &&& spec_transition(item.status, DownloadAction::Cancel) is Some ==> final(self)@
                    == old(self)@.remove(key@) && (r matches Ok(resp) && response_expected(
                    resp,
                    item.with_status_spec(DownloadStatus::Cancelled),
                ))
                &&& spec_transition(item.status, DownloadAction::Cancel) is None ==> final(self)@
                    == old(self)@ && (r matches Ok(resp) && response_mismatch(
                    resp,
                    item,
                    DownloadStatus::Cancelled,
                ))
            }),
    {
        let item = match self.store.get(key) {
            Some(it) => it,
            None => {
                return Err(Error::NotFound(key.clone()));
            },
        };
        match transition(item.status, DownloadAction::Cancel) {
            Some(next) => {
                self.store.delete(key);
                let cancelled = item.with_status(next);
                Ok(DownloadActionResponse::new(cancelled))
            },
            None => Ok(
                DownloadActionResponse::with_expected_status(item, DownloadStatus::Cancelled),
            ),
        }
    }

    /// The launched transfer's first write: persists the job as in progress
    /// before the first byte, and hands back the record to announce. If the
    /// record is gone — cancelled before the transfer got under way — or
    /// already completed, nothing is written and `None` tells the caller not
    /// to proceed.
    pub fn transfer_started(&mut self, key: &String) -> (r: Option<DownloadItem>)
        requires
            old(self).wf(),
        ensures
            final(self).wf(),
            !old(self)@.dom().contains(key@) ==> r is None && final(self)@ == old(self)@,
            old(self)@.dom().contains(key@) ==> ({
                let item = old(self)@[key@];
                &&& item.status is Completed ==> r is None && final(self)@ == old(self)@
                &&& !(item.status is Completed) ==> (r matches Some(it) && it@
                    == item.with_status_spec(DownloadStatus::InProgress)) && final(self)@ == old(
                    self,
                )@.insert(key@, item.with_status_spec(DownloadStatus::InProgress))
            }),
    {
        let item = match self.store.get(key) {
            Some(it) => it,
            None => {
                return None;
            },
        };
        proof {
            self.lemma_jobs_invariant();
        }
        if matches!(item.status, DownloadStatus::Completed) {
            return None;
        }
        let started = item.with_status(DownloadStatus::InProgress);
        self.store.update(started.clone());
        Some(started)
    }

    /// A transfer's throttle checkpoint: re-reads the persisted state and
    /// decides, in one synchronized step, whether to keep going, persist the
    /// new progress, finish, or stop. This check-then-write against the
    /// authoritative record is what makes pause and cancellation take
    /// effect, within one checkpoint window, without any shared signal.
    pub fn checkpoint(&mut self, key: &String, progress: u64) -> (r: CheckpointAction)
        requires
            old(self).wf(),
            progress <= PROGRESS_FULL,
        ensures
            final(self).wf(),
            !old(self)@.dom().contains(key@) ==> r is Stopped && final(self)@ == old(self)@,
            old(self)@.dom().contains(key@) ==> ({
                let item = old(self)@[key@];
                &&& item.status is Paused ==> r is Stopped && final(self)@ == old(self)@
                &&& (item.status is InProgress && progress < PROGRESS_FULL) ==> (
                r matches CheckpointAction::Persisted(it) && it@ == item.with_progress_spec(
                    progress as int,
                )) && final(self)@ == old(self)@.insert(
                    key@,
                    item.with_progress_spec(progress as int),
                )
                &&& (item.status is InProgress && progress == PROGRESS_FULL) ==> (
                r matches CheckpointAction::Completed { finished, working_path } && finished@
                    == item.with_path_spec(
                    strip_suffix_spec(item.path, download_suffix()),
                ).with_status_spec(DownloadStatus::Completed) && working_path@ == item.path)
                    && final(self)@ == old(self)@.remove(key@)
                &&& !(item.status is Paused || item.status is InProgress) ==> r is Ignored
                    && final(self)@ == old(self)@
            }),
    {
        let item = match self.store.get(key) {
            Some(it) => it,
            None => {
                return CheckpointAction::Stopped;
            },
        };
        match item.status {
            DownloadStatus::Paused => CheckpointAction::Stopped,
            DownloadStatus::InProgress => {
                if progress < PROGRESS_FULL {
                    let updated = item.with_progress(progress);
                    self.store.update(updated.clone());
                    CheckpointAction::Persisted(updated)
                } else {
                    self.store.delete(key);
                    let output = remove_suffix(item.path.as_str(), download_suffix_str());
                    let output_owned = String::from_str(output);
                    let finished = item.with_path(output_owned).with_status(
                        DownloadStatus::Completed,
                    );
                    CheckpointAction::Completed { finished, working_path: item.path }
                }
            },
            _ => CheckpointAction::Ignored,
        }
    }

    /// A transfer's failure path, for a chunk read that broke off: the job
    /// record is removed, so the failed job disappears from the store; the
    /// caller removes the partial working file and announces the failure.
    pub fn transfer_failed(&mut self, key: &String)
        requires
            old(self).wf(),
        ensures
            final(self).wf(),
            final(self)@ == old(self)@.remove(key@),
    {
        self.store.delete(key);
    }

    /// Startup reconciliation, run once before any job action is accepted:
    /// every job persisted as in progress — impossible after a restart — is
    /// demoted to idle or paused, as [`reconciled_spec`] says; every other
    /// job is untouched. No transfer is started.
    pub fn init(&mut self)
        requires
            old(self).wf(),
        ensures
            final(self).wf(),
            final(self).jobs().len() == old(self).jobs().len(),
            forall|i: int|
                0 <= i < old(self).jobs().len() ==> final(self).jobs()[i] == reconciled_spec(
                    #[trigger] old(self).jobs()[i],
                ),
            final(self)@.dom() == old(self)@.dom(),
            forall|k: Seq<char>|
                #[trigger] old(self)@.dom().contains(k) ==> final(self)@[k] == reconciled_spec(
                    old(self)@[k],
                ),
    {
        let ghost orig = self.store.jobs();
        let n = self.store.len();
        let mut i: usize = 0;
        while i < n
            invariant
                self.store.wf(),
                n == self.store.jobs().len(),
                orig.len() == n,
                i <= n,
                forall|j: int|
                    0 <= j < i ==> self.store.jobs()[j] == reconciled_spec(#[trigger] orig[j]),
                forall|j: int| i <= j < n ==> self.store.jobs()[j] == #[trigger] orig[j],
            decreases n - i,
        {
            let current = self.store.get_at(i).clone();
            if matches!(current.status, DownloadStatus::InProgress) {
                let repaired = reconcile_item(&current);
                proof {
                    self.store.lemma_jobs_invariant();
                    self.store.lemma_view_props();
                    lemma_reconciled_wf(current@);
                }
                self.store.set_at(i, repaired);
            }
            i = i + 1;
        }
        proof {
            self.store.lemma_view_props();
            assert forall|k: Seq<char>| #[trigger] old(self)@.dom().contains(k) implies self@.dom().contains(
                k,
            ) && self@[k] == reconciled_spec(old(self)@[k]) by {
                old(self).store.lemma_view_props();
                let j = choose|j: int| 0 <= j < orig.len() && (#[trigger] orig[j]).key == k;
                assert(self.store.jobs()[j] == reconciled_spec(orig[j]));
                assert(self.store.jobs()[j].key == k);
            }
            assert forall|k: Seq<char>| #[trigger] self@.dom().contains(k) implies old(
                self,
            )@.dom().contains(k) by {
                old(self).store.lemma_view_props();
                let j = choose|j: int|
                    0 <= j < self.store.jobs().len() && (#[trigger] self.store.jobs()[j]).key == k;
                assert(orig[j].key == k);
            }
            assert(self@.dom() =~= old(self)@.dom());
        }
    }
}

} // verus!
