//! The job lifecycle state machine: which action is legal in which state, and
//! the state it leads to. Pure decision logic, shared by every job action.

use vstd::prelude::*;

use crate::models::DownloadStatus;

verus! {

/// An action a caller can request on an existing job. Creation is not listed:
/// it acts on an absent record, not on a state.
#[derive(Clone, Copy, Debug, PartialEq, Eq, Structural)]
pub enum DownloadAction {
    Start,
    Pause,
    Resume,
    Cancel,
}

/// The transition table. `None` means the action is not legal in the given
/// state.
///
/// A transfer may run only while a job is in progress, and only `Start` and
/// `Resume` launch one; both are accepted solely from a state that implies no
/// transfer task is live, which keeps at most one task per job.
pub open spec fn spec_transition(status: DownloadStatus, action: DownloadAction) -> Option<
    DownloadStatus,
> {
    match action {
        DownloadAction::Start => if status is Idle {
            Some(DownloadStatus::InProgress)
        } else {
            None
        },
        DownloadAction::Resume => if status is Paused {
            Some(DownloadStatus::InProgress)
        } else {
            None
        },
        DownloadAction::Pause => if status is InProgress {
            Some(DownloadStatus::Paused)
        } else {
            None
        },
        DownloadAction::Cancel => if status is Idle || status is InProgress
            || status is Paused {
            Some(DownloadStatus::Cancelled)
        } else {
            None
        },
    }
}

/// Decides a requested action against the current state: the next state, or
/// `None` when the action is not legal there.
pub fn transition(status: DownloadStatus, action: DownloadAction) -> (r: Option<DownloadStatus>)
    ensures
        r == spec_transition(status, action),
{
    match action {
        DownloadAction::Start => {
            if matches!(status, DownloadStatus::Idle) {
                Some(DownloadStatus::InProgress)
            } else {
                None
            }
        },
        DownloadAction::Resume => {
            if matches!(status, DownloadStatus::Paused) {
                Some(DownloadStatus::InProgress)
            } else {
                None
            }
        },
        DownloadAction::Pause => {
            if matches!(status, DownloadStatus::InProgress) {
                Some(DownloadStatus::Paused)
            } else {
                None
            }
        },
        DownloadAction::Cancel => {
            match status {
                DownloadStatus::Idle | DownloadStatus::InProgress | DownloadStatus::Paused => Some(
                    DownloadStatus::Cancelled,
                ),
                _ => None,
            }
        },
    }
}

/// A start is accepted only from the idle state. In particular a job already
/// in progress, completed or cancelled never launches a second transfer.
pub proof fn lemma_start_only_from_idle(status: DownloadStatus)
    ensures
        spec_transition(status, DownloadAction::Start) is Some <==> status is Idle,
{
}

/// A resume is accepted only from the paused state, the one resumable state
/// that implies a partial working file and no live transfer task.
pub proof fn lemma_resume_only_from_paused(status: DownloadStatus)
    ensures
        spec_transition(status, DownloadAction::Resume) is Some <==> status is Paused,
{
}

/// Completed and cancelled are terminal, and the transient states of a record
/// that was never persisted accept no action either.
pub proof fn lemma_terminal_states(status: DownloadStatus, action: DownloadAction)
    ensures
        status is Completed || status is Cancelled || status is Pending
            || status is Unknown ==> spec_transition(status, action) is None,
{
}

} // verus!
