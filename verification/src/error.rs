//! Error taxonomy of the job actions and of a running transfer.

use vstd::prelude::*;

verus! {

/// What can go wrong around a download job.
///
/// `InvalidState`, `NotFound` and `Store` are returned directly from a job
/// action. `File`, `Http` and `Io` arise inside a running transfer, whose
/// launcher has long returned: they reach observers through the job-changed
/// notification channel, not through a return value.
#[derive(Debug)]
pub enum Error {
    /// The requested action is not legal in the job's current state.
    InvalidState,
    /// No job record exists for the given key.
    NotFound(String),
    /// The persistence backend failed.
    Store(String),
    /// The filesystem failed while opening or writing the working file.
    File(String),
    /// The network failed, the server refused a range request, or a chunk
    /// read broke off mid-stream.
    Http(String),
    /// Any other input/output failure.
    Io(String),
}

} // verus!
