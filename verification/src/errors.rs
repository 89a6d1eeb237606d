//! The kinds of errors that the library reports.
use vstd::prelude::*;

verus! {

/// What kind of thing went wrong.
#[derive(Debug, Clone, Copy, PartialEq, Eq, Structural)]
pub enum ErrorKind {
    Aborted,
    Cancelled,
    DeadlineExceeded,
    FailedPrecondition,
    InvalidArgument,
    NotFound,
    Unavailable,
    Unimplemented,
    Unknown,
}

} // verus!
