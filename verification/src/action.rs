//! The commands that script code enqueues for the connection driver.

use vstd::prelude::*;

verus! {

/// A command travelling from the interpreter thread to the connection
/// driver over the outgoing queue.
///
/// Ordering is first-in first-out: the driver processes commands in
/// submission order, so a `Write` followed by a `Flush` followed by a
/// `Close` observably writes, flushes, then closes, never reordered.
#[derive(Clone, Debug)]
pub enum OutgoingSocketAction {
    /// Write these bytes to the socket, fully: a short write is retried by
    /// the driver until every byte is on the wire or the connection errors.
    Write(Vec<u8>),
    /// Flush the underlying stream, best effort.
    Flush,
    /// Shut the connection down in an orderly fashion and end the driver.
    Close,
}

impl OutgoingSocketAction {
    /// The bytes this command puts on the wire: the payload of a `Write`,
    /// nothing for the others.
    pub open spec fn wire_bytes(self) -> Seq<u8> {
        match self {
            OutgoingSocketAction::Write(payload) => payload@,
            OutgoingSocketAction::Flush => Seq::<u8>::empty(),
            OutgoingSocketAction::Close => Seq::<u8>::empty(),
        }
    }
}

} // verus!
