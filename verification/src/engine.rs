//! Decision logic of one resumable transfer: range negotiation, the
//! partial-content check, exact progress arithmetic, and the throttle that
//! bounds how often progress is persisted.
//!
//! The surrounding application performs the network and file work and drives
//! these functions from its read loop; every decision in the loop is taken
//! here. Cancellation and pause are pull-based: at each throttle checkpoint
//! the loop re-reads the persisted job state through
//! [`crate::manager::Download::checkpoint`] and stops when the job is no
//! longer in progress.
//!
//! When the server reports no content length the total is unknown: progress
//! is then indeterminate rather than a percentage, no throttle checkpoint
//! fires, and the transfer simply runs to the end of the stream.

use vstd::arithmetic::div_mod::{
    lemma_div_is_ordered,
    lemma_div_pos_is_pos,
    lemma_multiply_divide_lt,
};
use vstd::prelude::*;

use crate::error::Error;
use crate::models::{PROGRESS_FULL, PROGRESS_THRESHOLD};

verus! {

/// Progress of `downloaded` bytes out of `total`, in hundredths of a
/// percentage point, clamped to full once the download has reached or passed
/// the expected total.
pub open spec fn progress_units_spec(downloaded: int, total: int) -> int {
    if downloaded >= total {
        PROGRESS_FULL as int
    } else {
        downloaded * (PROGRESS_FULL as int) / total
    }
}

/// Progress stays on the scale: between zero and full.
pub proof fn lemma_progress_bounds(downloaded: int, total: int)
    requires
        0 <= downloaded,
    ensures
        0 <= progress_units_spec(downloaded, total) <= PROGRESS_FULL,
{
    if downloaded < total {
        lemma_div_pos_is_pos(downloaded * (PROGRESS_FULL as int), total);
        lemma_multiply_divide_lt(downloaded * (PROGRESS_FULL as int), total, PROGRESS_FULL as int);
    }
}

/// Progress never decreases as the downloaded byte count grows: the progress
/// of a transfer over a monotonically growing byte stream is monotone.
pub proof fn lemma_progress_monotone(d1: int, d2: int, total: int)
    requires
        0 <= d1 <= d2,
    ensures
        progress_units_spec(d1, total) <= progress_units_spec(d2, total),
{
    if d1 >= total {
        // both are full
    } else if d2 >= total {
        lemma_progress_bounds(d1, total);
    } else {
        lemma_div_is_ordered(d1 * (PROGRESS_FULL as int), d2 * (PROGRESS_FULL as int), total);
    }
}

/// Computes [`progress_units_spec`] exactly.
pub fn progress_units(downloaded: u64, total: u64) -> (r: u64)
    ensures
        r == progress_units_spec(downloaded as int, total as int),
        r <= PROGRESS_FULL,
{
    if downloaded >= total {
        PROGRESS_FULL
    } else {
        proof {
            lemma_progress_bounds(downloaded as int, total as int);
        }
        (((downloaded as u128) * (PROGRESS_FULL as u128)) / (total as u128)) as u64
    }
}

/// In-flight state of one transfer: how many bytes the working file holds,
/// the expected final size when the server reported one, and the progress at
/// the last persisted checkpoint.
pub struct Transfer {
    pub downloaded: u64,
    pub total: Option<u64>,
    pub last_emitted: u64,
}

impl Transfer {
    /// The last emitted progress stays on the scale.
    pub open spec fn wf(self) -> bool {
        self.last_emitted <= PROGRESS_FULL
    }

    /// Current progress; `None` when the total is unknown and progress is
    /// indeterminate.
    pub open spec fn progress_opt(self) -> Option<int> {
        match self.total {
            Some(t) => Some(progress_units_spec(self.downloaded as int, t as int)),
            None => None,
        }
    }
}

/// The expected final size of the file: the remaining length the server
/// reported plus what the working file already holds. `None` when the server
/// reported none, or when the sum would not be representable.
pub open spec fn spec_total(downloaded: int, content_length: Option<u64>) -> Option<u64> {
    match content_length {
        Some(len) => if len + downloaded <= u64::MAX {
            Some((len + downloaded) as u64)
        } else {
            None
        },
        None => None,
    }
}

/// The byte offset a resumed request must ask the server for: the size of the
/// working file, or nothing when the download starts fresh and no range
/// header is needed.
pub fn plan_range(downloaded_size: u64) -> (r: Option<u64>)
    ensures
        r == if downloaded_size > 0 {
            Some(downloaded_size)
        } else {
            None::<u64>
        },
{
    if downloaded_size > 0 {
        Some(downloaded_size)
    } else {
        None
    }
}

/// Judges the response to the (possibly ranged) request and opens the
/// transfer state.
///
/// A resumed request — one that asked for a byte range because the working
/// file already holds `downloaded_size > 0` bytes — is honored only by a
/// partial-content response; anything else fails with an HTTP error and the
/// job is left exactly as it was, for the caller to retry or abandon.
pub fn begin_transfer(downloaded_size: u64, partial_content: bool, content_length: Option<u64>) -> (r:
    Result<Transfer, Error>)
    ensures
        r is Ok <==> (downloaded_size == 0 || partial_content),
        r matches Ok(t) ==> t == (Transfer {
            downloaded: downloaded_size,
            total: spec_total(downloaded_size as int, content_length),
            last_emitted: 0,
        }),
        r matches Ok(t) ==> t.wf(),
        r matches Err(e) ==> e is Http,
{
    if downloaded_size > 0 && !partial_content {
        return Err(Error::Http(String::from_str("Server does not support partial downloads")));
    }
    let total = match content_length {
        Some(len) => len.checked_add(downloaded_size),
        None => None,
    };
    Ok(Transfer { downloaded: downloaded_size, total, last_emitted: 0 })
}

/// Accounts one received chunk: the chunk is appended to the working file, so
/// the downloaded byte count advances by its length. Progress never
/// decreases.
pub fn apply_chunk(t: &Transfer, chunk_len: u64) -> (r: Transfer)
    requires
        t.downloaded + chunk_len <= u64::MAX,
    ensures
        r.downloaded == t.downloaded + chunk_len,
        r.total == t.total,
        r.last_emitted == t.last_emitted,
        t.wf() ==> r.wf(),
        match (t.progress_opt(), r.progress_opt()) {
            (Some(before), Some(after)) => before <= after,
            (None, None) => true,
            _ => false,
        },
{
    proof {
        if t.total is Some {
            lemma_progress_monotone(
                t.downloaded as int,
                t.downloaded + chunk_len,
                t.total->0 as int,
            );
        }
    }
    Transfer { downloaded: t.downloaded + chunk_len, total: t.total, last_emitted: t.last_emitted }
}

/// Whether the loop owes a throttle checkpoint: progress has reached full, or
/// it has climbed more than one percentage point past the last persisted
/// value. With an unknown total no checkpoint is ever due.
pub open spec fn emit_due(t: Transfer) -> bool {
    match t.progress_opt() {
        Some(p) => p >= PROGRESS_FULL || p > t.last_emitted + PROGRESS_THRESHOLD,
        None => false,
    }
}

/// Decides [`emit_due`] for the loop.
pub fn should_emit(t: &Transfer) -> (b: bool)
    requires
        t.wf(),
    ensures
        b == emit_due(*t),
{
    match t.total {
        Some(total) => {
            let p = progress_units(t.downloaded, total);
            p >= PROGRESS_FULL || p > t.last_emitted + PROGRESS_THRESHOLD
        },
        None => false,
    }
}

/// Current progress as a number the store can hold; `None` when the total is
/// unknown and progress is indeterminate.
pub fn current_progress(t: &Transfer) -> (r: Option<u64>)
    ensures
        match (r, t.progress_opt()) {
            (Some(p), Some(q)) => p == q && p <= PROGRESS_FULL,
            (None, None) => true,
            _ => false,
        },
{
    match t.total {
        Some(total) => Some(progress_units(t.downloaded, total)),
        None => None,
    }
}

/// Records that `progress` was just persisted, restarting the throttle
/// window there.
pub fn mark_emitted(t: &Transfer, progress: u64) -> (r: Transfer)
    requires
        progress <= PROGRESS_FULL,
    ensures
        r.downloaded == t.downloaded,
        r.total == t.total,
        r.last_emitted == progress,
        r.wf(),
{
    Transfer { downloaded: t.downloaded, total: t.total, last_emitted: progress }
}

/// Resumption correctness: a working file holding the first `n` bytes of the
/// resource, extended with the rest of the resource from byte `n` on — which
/// is what a server honoring `Range: bytes=n-` sends — is byte-for-byte the
/// whole resource, the same bytes a fresh, uninterrupted download yields.
pub proof fn lemma_resume_reconstructs(resource: Seq<u8>, n: int)
    requires
        0 <= n <= resource.len(),
    ensures
        resource.subrange(0, n) + resource.subrange(n, resource.len() as int) == resource,
{
    assert(resource.subrange(0, n) + resource.subrange(n, resource.len() as int) =~= resource);
}

} // verus!
