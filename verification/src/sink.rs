//! What audio sinks have in common: their errors and the position up to which
//! audio was written.
use vstd::prelude::*;

verus! {

/// Why a sink could not do what it was asked for.
#[derive(Debug)]
pub enum SinkError {
    NotConnected(String),
    OnWrite(String),
    InvalidParams(String),
}

/// The kinds of sink errors.
#[derive(Debug, Clone, Copy, PartialEq, Eq, Structural)]
pub enum SinkErrorKind {
    NotConnected,
    OnWrite,
    InvalidParams,
}

impl SinkError {
    /// What kind of error this is.
    pub open spec fn kind(self) -> SinkErrorKind {
        match self {
            SinkError::NotConnected(_) => SinkErrorKind::NotConnected,
            SinkError::OnWrite(_) => SinkErrorKind::OnWrite,
            SinkError::InvalidParams(_) => SinkErrorKind::InvalidParams,
        }
    }

    /// The message that the error carries.
    pub open spec fn text(self) -> Seq<char> {
        match self {
            SinkError::NotConnected(message) => message@,
            SinkError::OnWrite(message) => message@,
            SinkError::InvalidParams(message) => message@,
        }
    }

    /// Whether this is an error of the given kind and with the given message.
    pub open spec fn is(self, kind: SinkErrorKind, message: Seq<char>) -> bool {
        self.kind() == kind && self.text() == message
    }

    /// The message that the error carries.
    pub fn message(&self) -> (message: &String)
        ensures
            message@ == self.text(),
    {
        match self {
            SinkError::NotConnected(message) => message,
            SinkError::OnWrite(message) => message,
            SinkError::InvalidParams(message) => message,
        }
    }

    /// An error of a sink that has no connection to its device.
    pub fn not_connected(message: &str) -> (error: SinkError)
        ensures
            error.is(SinkErrorKind::NotConnected, message@),
    {
        SinkError::NotConnected(message.to_owned())
    }

    /// An error of a sink that cannot take audio.
    pub fn on_write(message: &str) -> (error: SinkError)
        ensures
            error.is(SinkErrorKind::OnWrite, message@),
    {
        SinkError::OnWrite(message.to_owned())
    }

    /// An error of a sink that was given audio it does not accept.
    pub fn invalid_params(message: &str) -> (error: SinkError)
        ensures
            error.is(SinkErrorKind::InvalidParams, message@),
    {
        SinkError::InvalidParams(message.to_owned())
    }
}

/// The number of bytes that all sinks together have written; it starts again
/// at zero when it no longer fits.
#[derive(Debug, Clone, Copy, PartialEq, Eq, Structural)]
pub struct WritePosition {
    pub total: usize,
}

/// The count after `bytes` more than `total`.
pub open spec fn counted(total: usize, bytes: int) -> int {
    if total + bytes > usize::MAX {
        total + bytes - usize::MAX - 1
    } else {
        total + bytes
    }
}

impl WritePosition {
    /// The position of a process that has written nothing.
    pub fn new() -> (position: WritePosition)
        ensures
            position.total == 0,
    {
        WritePosition { total: 0 }
    }

    /// Counts `bytes` more.
    pub fn advance(&mut self, bytes: usize)
        ensures
            final(self).total == counted(old(self).total, bytes as int),
    {
        self.total = self.total.wrapping_add(bytes);
    }
}

/// Counting never loses bytes: the count goes up by what was written, and starts
/// again at zero where it no longer fits. Writing in two parts counts what
/// writing at once does.
pub proof fn law_the_count_goes_up_by_what_was_written(total: usize, first: usize, second: usize)
    requires
        first + second <= usize::MAX,
    ensures
        0 <= counted(total, first as int) <= usize::MAX,
        total + first <= usize::MAX ==> counted(total, first as int) == total + first,
        total + first > usize::MAX ==> counted(total, first as int) + usize::MAX + 1 == total
            + first,
        counted(counted(total, first as int) as usize, second as int) == counted(
            total,
            first + second,
        ),
{
}

/// An error is of the kind that it was made as, and carries its message.
pub proof fn law_errors_keep_their_kind(error: SinkError, message: String)
    ensures
        SinkError::NotConnected(message).is(SinkErrorKind::NotConnected, message@),
        SinkError::OnWrite(message).is(SinkErrorKind::OnWrite, message@),
        SinkError::InvalidParams(message).is(SinkErrorKind::InvalidParams, message@),
        error.is(error.kind(), error.text()),
        error is NotConnected <==> error.kind() == SinkErrorKind::NotConnected,
        error is OnWrite <==> error.kind() == SinkErrorKind::OnWrite,
        error is InvalidParams <==> error.kind() == SinkErrorKind::InvalidParams,
{
}

} // verus!
