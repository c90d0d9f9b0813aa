//! Startup reconciliation: repairing jobs left in an impossible in-progress
//! state by an unclean shutdown. No transfer task can survive the process, so
//! a persisted in-progress job is demoted to a state that implies no live
//! task: back to idle when nothing was downloaded, else to paused so the
//! partial working file can be resumed.

use vstd::prelude::*;

use crate::models::{DownloadItem, DownloadItemExt, DownloadStatus, ItemView};

verus! {

/// The repaired value of a persisted record: an in-progress job is demoted
/// to idle (no progress yet) or paused (partial progress); every other job
/// is left as it is.
pub open spec fn reconciled_spec(item: ItemView) -> ItemView {
    if item.status is InProgress {
        if item.progress == 0 {
            item.with_status_spec(DownloadStatus::Idle)
        } else {
            item.with_status_spec(DownloadStatus::Paused)
        }
    } else {
        item
    }
}

/// Reconciliation keeps the record's key and its invariant.
pub proof fn lemma_reconciled_wf(item: ItemView)
    requires
        item.wf(),
    ensures
        reconciled_spec(item).wf(),
        reconciled_spec(item).key == item.key,
{
}

/// Computes the repaired record.
pub fn reconcile_item(item: &DownloadItem) -> (r: DownloadItem)
    ensures
        r@ == reconciled_spec(item@),
{
    match item.status {
        DownloadStatus::InProgress => {
            if item.progress == 0 {
                item.with_status(DownloadStatus::Idle)
            } else {
                item.with_status(DownloadStatus::Paused)
            }
        },
        _ => item.clone(),
    }
}

} // verus!
