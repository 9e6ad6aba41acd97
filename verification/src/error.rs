//! The failures a transfer can end with.

use vstd::prelude::*;

verus! {

/// The kinds of operating-system failure that the protocol tells apart.
/// Every other kind is `Other`.
#[derive(Clone, Copy, Debug, PartialEq, Eq, Structural)]
pub enum IoErrorKind {
    NotFound,
    InvalidInput,
    TimedOut,
    WouldBlock,
    AlreadyExists,
    Other,
}

/// A terminal failure of a transfer, distinguishable by kind.
#[derive(Clone, Copy, Debug, PartialEq, Eq, Structural)]
pub enum FileTransferError {
    /// The file to send does not exist.
    FileNotFound,
    /// The passcode has the wrong length or a character outside the alphabet.
    InvalidPasscode,
    /// The two peers never paired.
    ConnectionFailed,
    /// An I/O fault of no more specific kind.
    TransferError,
    /// The destination path is already taken.
    FileExists,
    /// A bounded wait ran out.
    Timeout,
    /// The stream ended after `.0` of the `.1` bytes announced.
    IncompleteTransfer(u64, u64),
}

/// The transfer failure that an operating-system failure of kind `kind` is
/// told to the caller as.
pub open spec fn error_of_io_kind(kind: IoErrorKind) -> FileTransferError {
    match kind {
        IoErrorKind::NotFound => FileTransferError::FileNotFound,
        IoErrorKind::InvalidInput => FileTransferError::InvalidPasscode,
        IoErrorKind::TimedOut => FileTransferError::Timeout,
        IoErrorKind::WouldBlock => FileTransferError::Timeout,
        IoErrorKind::AlreadyExists => FileTransferError::FileExists,
        IoErrorKind::Other => FileTransferError::TransferError,
    }
}

impl From<IoErrorKind> for FileTransferError {
    fn from(kind: IoErrorKind) -> (error: FileTransferError) {
        match kind {
            IoErrorKind::NotFound => FileTransferError::FileNotFound,
            IoErrorKind::InvalidInput => FileTransferError::InvalidPasscode,
            IoErrorKind::TimedOut | IoErrorKind::WouldBlock => FileTransferError::Timeout,
            IoErrorKind::AlreadyExists => FileTransferError::FileExists,
            IoErrorKind::Other => FileTransferError::TransferError,
        }
    }
}

impl vstd::std_specs::convert::FromSpecImpl<IoErrorKind> for FileTransferError {
    open spec fn obeys_from_spec() -> bool {
        true
    }

    open spec fn from_spec(kind: IoErrorKind) -> FileTransferError {
        error_of_io_kind(kind)
    }
}

} // verus!
