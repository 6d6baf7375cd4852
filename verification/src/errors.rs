//! The error taxonomy: which I/O failures the tailer heals from on its own,
//! and which terminate it.
//!
//! The driving loop maps the error kinds its platform reports into
//! [`IoErrorKind`] and asks these functions; anything not recognised here as
//! transient is fatal and propagates out of the loop.

use vstd::prelude::*;

verus! {

/// The failure kinds the tailer distinguishes.  Everything else is `Other`.
#[derive(Debug, Clone, Copy, PartialEq, Eq, Structural)]
pub enum IoErrorKind {
    /// The path does not exist (any more).
    NotFound,
    /// The stream ended mid-read.
    UnexpectedEof,
    /// The path cannot be inspected.
    PermissionDenied,
    /// Anything else.
    Other,
}

/// Whether a failure during a read self-heals: the file vanishing or the
/// stream ending early only means "no new data here"; the state machine
/// recovers through `Missing` and `Reloading`.  Any other failure is fatal.
pub fn read_error_is_transient(kind: IoErrorKind) -> (r: bool)
    ensures
        r == (kind is NotFound || kind is UnexpectedEof),
{
    match kind {
        IoErrorKind::NotFound => true,
        IoErrorKind::UnexpectedEof => true,
        _ => false,
    }
}

/// Whether a failure while probing the path during reload counts as "the
/// file does not exist yet": absence and inaccessibility are both retried
/// indefinitely at the reload interval.  Any other failure is fatal.
pub fn probe_error_means_absent(kind: IoErrorKind) -> (r: bool)
    ensures
        r == (kind is NotFound || kind is PermissionDenied),
{
    match kind {
        IoErrorKind::NotFound => true,
        IoErrorKind::PermissionDenied => true,
        _ => false,
    }
}

} // verus!
