//! The errors that socket operations surface to script callers.

use vstd::prelude::*;

verus! {

/// Every failure a socket call can report.
///
/// Each variant records the precise condition that produced it; the
/// platform's user-visible taxonomy is coarser and is recovered by
/// [`SocketError::category`].
#[derive(Clone, Copy, Debug, PartialEq, Eq, Structural)]
pub enum SocketError {
    /// The port handed to `connect` does not fit in 16 bits.
    InvalidPort,
    /// An offset or length argument falls outside the byte range it addresses.
    InvalidArgument,
    /// The handle has no queue endpoints: `connect` has not succeeded yet,
    /// or the connection was closed locally.
    NotOpen,
    /// The driver is gone, so a command could not be enqueued.
    QueueClosed,
    /// The receive queue is disconnected and holds no more data.
    Disconnected,
    /// Fewer bytes are buffered than a bounded read requested.
    InsufficientData,
    /// Queue endpoints were already installed on this handle: a handle
    /// represents a single connection attempt.
    AlreadyConnected,
}

/// The user-visible error classes of the platform's exception model.
#[derive(Clone, Copy, Debug, PartialEq, Eq, Structural)]
pub enum ErrorCategory {
    /// Platform-level constraint violated (for example the port range).
    Security,
    /// A malformed argument, rejected synchronously at the API boundary.
    Argument,
    /// Any connection-level failure: not connected, reset, write after close.
    Socket,
    /// A bounded read asked for more bytes than are buffered.
    EndOfData,
}

/// The class under which each error is reported to script.
pub open spec fn spec_category(e: SocketError) -> ErrorCategory {
    match e {
        SocketError::InvalidPort => ErrorCategory::Security,
        SocketError::InvalidArgument => ErrorCategory::Argument,
        SocketError::NotOpen => ErrorCategory::Socket,
        SocketError::QueueClosed => ErrorCategory::Socket,
        SocketError::Disconnected => ErrorCategory::Socket,
        SocketError::InsufficientData => ErrorCategory::EndOfData,
        SocketError::AlreadyConnected => ErrorCategory::Argument,
    }
}

impl SocketError {
    /// The user-visible class of this error.
    pub fn category(self) -> (c: ErrorCategory)
        ensures
            c == spec_category(self),
    {
        match self {
            SocketError::InvalidPort => ErrorCategory::Security,
            SocketError::InvalidArgument => ErrorCategory::Argument,
            SocketError::NotOpen => ErrorCategory::Socket,
            SocketError::QueueClosed => ErrorCategory::Socket,
            SocketError::Disconnected => ErrorCategory::Socket,
            SocketError::InsufficientData => ErrorCategory::EndOfData,
            SocketError::AlreadyConnected => ErrorCategory::Argument,
        }
    }
}

} // verus!
