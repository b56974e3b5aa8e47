//! The script-visible socket handle.
//!
//! A handle represents one connection attempt. It starts empty; on a
//! successful connect the manager installs both queue endpoints on it,
//! together and exactly once; they are never re-pointed at a different
//! queue pair. The handle never touches the live TCP stream: it reaches
//! the connection only through the two channels. It also owns the pool of
//! inbound bytes already drained from the receive queue but not yet handed
//! to script, since reassembling chunks into a stream is the consumer's
//! job.

use vstd::prelude::*;

use crate::action::OutgoingSocketAction;
use crate::channel;
use crate::channel::ChunkPoll;
use crate::errors::SocketError;
use crate::recv;

verus! {

/// The script-visible socket object: at most one pair of queue endpoints,
/// and the inbound bytes not yet consumed.
pub struct SocketHandle {
    queues: Option<(flume::Sender<OutgoingSocketAction>, flume::Receiver<Vec<u8>>)>,
    opened: bool,
    pending: Vec<u8>,
}

impl SocketHandle {
    /// Endpoints can only be present on a handle that has connected.
    #[verifier::type_invariant]
    spec fn opened_tracks_queues(self) -> bool {
        self.queues is Some ==> self.opened
    }

    /// Whether the queue endpoints are installed: true from the moment a
    /// connect succeeds until the connection is closed locally.
    pub closed spec fn is_open(self) -> bool {
        self.queues is Some
    }

    /// Whether queue endpoints were ever installed on this handle.
    pub closed spec fn was_opened(self) -> bool {
        self.opened
    }

    /// The inbound bytes drained from the receive queue and not yet handed
    /// to script, in arrival order.
    pub closed spec fn buffered(self) -> Seq<u8> {
        self.pending@
    }

    /// A fresh handle: no endpoints, nothing buffered.
    pub fn new() -> (h: SocketHandle)
        ensures
            !h.is_open(),
            !h.was_opened(),
            h.buffered() == Seq::<u8>::empty(),
    {
        SocketHandle { queues: None, opened: false, pending: Vec::new() }
    }

    /// Whether the queue endpoints are currently installed.
    pub fn is_connected(&self) -> (b: bool)
        ensures
            b == self.is_open(),
    {
        self.queues.is_some()
    }

    /// Whether this handle has ever had its endpoints installed.
    pub fn has_connected(&self) -> (b: bool)
        ensures
            b == self.was_opened(),
    {
        self.opened
    }

    /// How many inbound bytes are buffered on the handle.
    pub fn buffered_len(&self) -> (n: usize)
        ensures
            n == self.buffered().len(),
    {
        self.pending.len()
    }

    /// Install both queue endpoints. Installing twice is a programmer
    /// error: a handle stands for a single connection attempt, so the
    /// operation is refused and the handle is left untouched.
    pub fn set_queues(
        &mut self,
        outgoing: flume::Sender<OutgoingSocketAction>,
        incoming: flume::Receiver<Vec<u8>>,
    ) -> (r: Result<(), SocketError>)
        ensures
            !old(self).was_opened() ==> (r matches Ok(()) && final(self).is_open() && final(self).was_opened() && final(self).buffered() == old(self).buffered()),
            old(self).was_opened() ==> (r matches Err(e) && e == SocketError::AlreadyConnected
                && *final(self) == *old(self)),
    {
        if self.opened {
            return Err(SocketError::AlreadyConnected);
        }
        proof {
            use_type_invariant(&*self);
        }
        let mut pending: Vec<u8> = Vec::new();
        core::mem::swap(&mut pending, &mut self.pending);
        *self = SocketHandle { queues: Some((outgoing, incoming)), opened: true, pending };
        Ok(())
    }

    /// The producer end of the outgoing command queue, if installed.
    pub fn outgoing_queue(&self) -> (r: Option<&flume::Sender<OutgoingSocketAction>>)
        ensures
            r is Some <==> self.is_open(),
    {
        match &self.queues {
            Some((tx, _)) => Some(tx),
            None => None,
        }
    }

    /// The consumer end of the receive queue, if installed.
    pub fn recv_queue(&self) -> (r: Option<&flume::Receiver<Vec<u8>>>)
        ensures
            r is Some <==> self.is_open(),
    {
        match &self.queues {
            Some((_, rx)) => Some(rx),
            None => None,
        }
    }

    /// Drop both queue endpoints and the buffered bytes. Dropping the
    /// command-queue producer is what tells the driver that no more
    /// commands will ever come.
    pub fn close_queues(&mut self)
        ensures
            !final(self).is_open(),
            final(self).was_opened() == old(self).was_opened(),
            final(self).buffered() == Seq::<u8>::empty(),
    {
        let opened = self.opened;
        *self = SocketHandle { queues: None, opened, pending: Vec::new() };
    }

    /// Move every chunk currently waiting in the receive queue into the
    /// handle's buffer, in arrival order, without blocking: at most as
    /// many polls are made as there are chunks waiting when the call
    /// starts. The buffer grows by exactly the concatenation of the polled
    /// chunks, in order: no gaps, no reordering, no duplication. Returns
    /// whether the queue is disconnected, meaning no further bytes will
    /// ever arrive beyond what is now buffered.
    pub fn poll_into_buffer(&mut self) -> (disconnected: bool)
        requires
            old(self).is_open(),
        ensures
            final(self).is_open(),
            final(self).was_opened() == old(self).was_opened(),
            exists|chunks: Seq<Seq<u8>>|
                final(self).buffered() == old(self).buffered() + recv::concat_chunks(chunks),
    {
        proof {
            use_type_invariant(&*self);
        }
        let mut pending: Vec<u8> = Vec::new();
        core::mem::swap(&mut pending, &mut self.pending);
        let ghost base = pending@;
        let ghost mut chunks = Seq::<Seq<u8>>::empty();
        let mut disconnected = false;
        match &self.queues {
            None => {
                proof {
                    assert(false);
                }
            },
            Some((_, rx)) => {
                let waiting = rx.len();
                let mut polled: usize = 0;
                let mut stop = false;
                proof {
                    assert(recv::concat_chunks(chunks) =~= Seq::<u8>::empty());
                    assert(base + recv::concat_chunks(chunks) =~= base);
                }
                while polled < waiting && !stop
                    invariant
                        pending@ == base + recv::concat_chunks(chunks),
                    decreases waiting - polled,
                {
                    match channel::poll_chunk(rx) {
                        ChunkPoll::Chunk(chunk) => {
                            proof {
                                let grown = chunks.push(chunk@);
                                assert(grown.drop_last() =~= chunks);
                                assert(grown.last() == chunk@);
                                assert(base + (recv::concat_chunks(chunks) + chunk@) =~= (base
                                    + recv::concat_chunks(chunks)) + chunk@);
                                chunks = grown;
                            }
                            recv::absorb_chunk(&mut pending, chunk);
                        },
                        ChunkPoll::Empty => {
                            stop = true;
                        },
                        ChunkPoll::Closed => {
                            disconnected = true;
                            stop = true;
                        },
                    }
                    polled = polled + 1;
                }
                if !disconnected {
                    disconnected = rx.is_disconnected();
                }
            },
        }
        self.pending = pending;
        proof {
            assert(final(self).buffered() == old(self).buffered() + recv::concat_chunks(chunks));
        }
        disconnected
    }

    /// Take bytes out of the handle's buffer for one `readBytes` call,
    /// with the exact semantics of [`recv::take_buffered`]: everything for
    /// a zero length, exactly `length` bytes otherwise, `InsufficientData`
    /// when fewer are buffered, and `Disconnected` once the queue is
    /// disconnected and the buffer is empty.
    pub fn take_pending(&mut self, length: u32, disconnected: bool) -> (r: Result<
        Vec<u8>,
        SocketError,
    >)
        ensures
            final(self).is_open() == old(self).is_open(),
            final(self).was_opened() == old(self).was_opened(),
            disconnected && old(self).buffered().len() == 0 ==> (r matches Err(e) && e
                == SocketError::Disconnected && final(self).buffered() == old(self).buffered()),
            !(disconnected && old(self).buffered().len() == 0) && length == 0 ==> (r matches Ok(taken) && taken@ == old(self).buffered() && final(self).buffered() == Seq::<u8>::empty()),
            !(disconnected && old(self).buffered().len() == 0) && length > 0 && old(self).buffered().len() >= length ==> (r matches Ok(taken) && taken@ == old(self).buffered().subrange(0, length as int) && final(self).buffered() == old(self).buffered().skip(length as int)),
            !(disconnected && old(self).buffered().len() == 0) && length > 0 && old(self).buffered().len() < length ==> (r matches Err(e) && e == SocketError::InsufficientData
                && final(self).buffered() == old(self).buffered()),
    {
        proof {
            use_type_invariant(&*self);
        }
        let mut pending: Vec<u8> = Vec::new();
        core::mem::swap(&mut pending, &mut self.pending);
        let r = recv::take_buffered(&mut pending, length, disconnected);
        self.pending = pending;
        r
    }
}

} // verus!
