//! The trusted boundary to the flume channels that carry commands from the
//! interpreter thread to the driver and inbound chunks back.
//!
//! Producer/consumer channels are the sole synchronization primitive of the
//! bridge: every cross-domain interaction is a channel send or receive,
//! never a shared mutable field. The other end of each channel lives on
//! the asynchronous runtime, so nothing can be assumed about what a poll
//! returns beyond the shape of the answer; every caller here states what
//! holds of its own state whatever came back.

use vstd::prelude::*;

use crate::action::OutgoingSocketAction;

verus! {

#[verifier::external_type_specification]
#[verifier::external_body]
#[verifier::reject_recursive_types(T)]
pub struct ExSender<T>(flume::Sender<T>);

#[verifier::external_type_specification]
#[verifier::external_body]
#[verifier::reject_recursive_types(T)]
pub struct ExReceiver<T>(flume::Receiver<T>);

/// Relies on flume::unbounded: creates a connected channel pair with no
/// capacity bound, so sending on it never blocks.
pub assume_specification<T>[ flume::unbounded::<T> ]() -> (flume::Sender<T>, flume::Receiver<T>)
;

/// Relies on flume::Receiver::len: the number of messages waiting in the
/// channel at the instant of the call.
pub assume_specification<T>[ flume::Receiver::<T>::len ](queue: &flume::Receiver<T>) -> usize
;

/// Relies on flume::Receiver::is_disconnected: whether every sender for
/// the channel has been dropped, so that once the queue is also empty no
/// further message can ever arrive.
pub assume_specification<T>[ flume::Receiver::<T>::is_disconnected ](
    queue: &flume::Receiver<T>,
) -> bool
;

/// What one non-blocking poll of the receive queue yielded.
pub enum ChunkPoll {
    /// The oldest chunk waiting in the queue.
    Chunk(Vec<u8>),
    /// Nothing is buffered right now; more may arrive later.
    Empty,
    /// Nothing is buffered and the sender is gone: nothing more will
    /// arrive.
    Closed,
}

/// Relies on flume::Sender::send: on an unbounded channel it enqueues the
/// command without blocking and fails exactly when every receiver has been
/// dropped.
#[verifier::external_body]
pub(crate) fn send_action(
    queue: &flume::Sender<OutgoingSocketAction>,
    action: OutgoingSocketAction,
) -> (accepted: bool) {
    queue.send(action).is_ok()
}

/// Relies on flume::Receiver::try_recv: returns the oldest waiting message
/// without blocking, or reports the queue empty or disconnected.
#[verifier::external_body]
pub(crate) fn poll_chunk(queue: &flume::Receiver<Vec<u8>>) -> (r: ChunkPoll) {
    match queue.try_recv() {
        Ok(chunk) => ChunkPoll::Chunk(chunk),
        Err(flume::TryRecvError::Empty) => ChunkPoll::Empty,
        Err(flume::TryRecvError::Disconnected) => ChunkPoll::Closed,
    }
}

} // verus!
