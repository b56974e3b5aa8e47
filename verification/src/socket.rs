//! The native functions behind the script-visible socket methods.
//!
//! Every function here runs on the interpreter thread and returns without
//! suspending, whatever the network is doing: writes enqueue a command on
//! the outgoing queue, reads drain only what the receive queue already
//! holds, and connecting merely validates the request and hands it to the
//! asynchronous runtime.

use vstd::prelude::*;

use crate::action::OutgoingSocketAction;
use crate::buffer::ByteBuffer;
use crate::channel;
use crate::errors::SocketError;
use crate::handle::SocketHandle;
use crate::recv;

verus! {

/// A validated connection request, ready to be resolved by the
/// asynchronous runtime: connecting is the only part of the bridge that
/// does not happen here.
pub struct ConnectRequest {
    /// The host to resolve, by the network stack's standard resolution.
    pub host: String,
    /// The TCP port, already proven to fit in 16 bits.
    pub port: u16,
}

/// Validate a `connect(host, port)` call. A port that does not fit in 16
/// bits is a security error, raised synchronously before any asynchronous
/// work starts: no request value exists, so nothing can be spawned. Any
/// port up to 65535 yields the request to hand to the connection manager.
pub fn connect(host: String, port: u32) -> (r: Result<ConnectRequest, SocketError>)
    ensures
        port > 65535 ==> (r matches Err(e) && e == SocketError::InvalidPort),
        port <= 65535 ==> (r matches Ok(req) && req.host == host && req.port == port as u16),
{
    if port > 65535 {
        return Err(SocketError::InvalidPort);
    }
    Ok(ConnectRequest { host, port: port as u16 })
}

/// Whether `offset` and `length` address a range inside a buffer of
/// `len` bytes, with `length == 0` meaning "everything from `offset` on".
pub open spec fn span_valid(len: int, offset: u32, length: u32) -> bool {
    offset <= len && (length == 0 || offset + length <= len)
}

/// The bytes a `writeBytes(bytes, offset, length)` call puts on the
/// outgoing queue: `length` bytes starting at `offset`, or everything from
/// `offset` on when `length` is zero.
pub open spec fn payload_of(bytes: Seq<u8>, offset: u32, length: u32) -> Seq<u8>
    recommends
        span_valid(bytes.len() as int, offset, length),
{
    if length == 0 {
        bytes.skip(offset as int)
    } else {
        bytes.subrange(offset as int, offset as int + length as int)
    }
}

/// Select the payload of a `writeBytes` call, rejecting an out-of-range
/// offset or length as an argument error.
pub fn write_payload(bytes: &Vec<u8>, offset: u32, length: u32) -> (r: Result<Vec<u8>, SocketError>)
    ensures
        span_valid(bytes@.len() as int, offset, length) ==> (r matches Ok(p) && p@ == payload_of(bytes@, offset, length)),
        !span_valid(bytes@.len() as int, offset, length) ==> (r matches Err(e) && e
            == SocketError::InvalidArgument),
{
    let start = offset as usize;
    if start > bytes.len() {
        return Err(SocketError::InvalidArgument);
    }
    let end: usize = if length == 0 {
        bytes.len()
    } else {
        if (length as usize) > bytes.len() - start {
            return Err(SocketError::InvalidArgument);
        }
        start + length as usize
    };
    let mut out: Vec<u8> = Vec::new();
    let mut i: usize = start;
    while i < end
        invariant
            start <= i <= end <= bytes@.len(),
            out@ == bytes@.subrange(start as int, i as int),
        decreases end - i,
    {
        out.push(bytes[i]);
        i += 1;
    }
    proof {
        if length == 0 {
            assert(out@ =~= bytes@.skip(start as int));
        }
    }
    Ok(out)
}

/// Enqueue the selected payload on the outgoing queue: the driver will
/// write it to the socket, in submission order relative to every other
/// command. Fails with an argument error on an out-of-range span, a
/// socket error when the handle has no queues or the driver is gone.
/// Never blocks: the queue is unbounded and the send returns immediately.
pub fn write_bytes(handle: &SocketHandle, bytes: &Vec<u8>, offset: u32, length: u32) -> (r: Result<
    (),
    SocketError,
>)
    ensures
        !span_valid(bytes@.len() as int, offset, length) ==> (r matches Err(e) && e
            == SocketError::InvalidArgument),
        span_valid(bytes@.len() as int, offset, length) && !handle.is_open() ==> (r matches Err(e)
            && e == SocketError::NotOpen),
        span_valid(bytes@.len() as int, offset, length) && handle.is_open() ==> (r matches Ok(())
            || (r matches Err(e) && e == SocketError::QueueClosed)),
        r matches Ok(()) ==> span_valid(bytes@.len() as int, offset, length) && handle.is_open(),
{
    let payload = match write_payload(bytes, offset, length) {
        Ok(p) => p,
        Err(e) => {
            return Err(e);
        },
    };
    let queue = match handle.outgoing_queue() {
        Some(q) => q,
        None => {
            return Err(SocketError::NotOpen);
        },
    };
    if channel::send_action(queue, OutgoingSocketAction::Write(payload)) {
        Ok(())
    } else {
        Err(SocketError::QueueClosed)
    }
}

/// The low eight bits of a script integer: what `writeByte` sends.
pub open spec fn low_byte(byte: i32) -> u8 {
    (byte & 0xff) as u8
}

/// Select the payload of a `writeByte` call: the single byte made of the
/// low eight bits of the script integer.
pub fn byte_payload(byte: i32) -> (payload: Vec<u8>)
    ensures
        payload@ == seq![low_byte(byte)],
{
    let masked: i32 = byte & 0xff;
    assert(0 <= masked < 256) by (bit_vector)
        requires
            masked == byte & 0xff,
    ;
    let mut payload: Vec<u8> = Vec::new();
    payload.push(masked as u8);
    proof {
        assert(payload@ =~= seq![low_byte(byte)]);
    }
    payload
}

/// Enqueue a single byte, the low eight bits of the script integer, on
/// the outgoing queue; the payload handed over is fixed by
/// [`byte_payload`]. Fails with a socket error when the handle has no
/// queues or the driver is gone. Never blocks.
pub fn write_byte(handle: &SocketHandle, byte: i32) -> (r: Result<(), SocketError>)
    ensures
        !handle.is_open() ==> (r matches Err(e) && e == SocketError::NotOpen),
        handle.is_open() ==> (r matches Ok(()) || (r matches Err(e) && e
            == SocketError::QueueClosed)),
{
    let queue = match handle.outgoing_queue() {
        Some(q) => q,
        None => {
            return Err(SocketError::NotOpen);
        },
    };
    let payload = byte_payload(byte);
    if channel::send_action(queue, OutgoingSocketAction::Write(payload)) {
        Ok(())
    } else {
        Err(SocketError::QueueClosed)
    }
}

/// Enqueue a flush command: the driver will flush the stream, best
/// effort, after every write submitted before this call. Fails with a
/// socket error when the handle has no queues or the driver is gone.
pub fn flush(handle: &SocketHandle) -> (r: Result<(), SocketError>)
    ensures
        !handle.is_open() ==> (r matches Err(e) && e == SocketError::NotOpen),
        handle.is_open() ==> (r matches Ok(()) || (r matches Err(e) && e
            == SocketError::QueueClosed)),
{
    let queue = match handle.outgoing_queue() {
        Some(q) => q,
        None => {
            return Err(SocketError::NotOpen);
        },
    };
    if channel::send_action(queue, OutgoingSocketAction::Flush) {
        Ok(())
    } else {
        Err(SocketError::QueueClosed)
    }
}

/// Close the connection. On an open handle this enqueues a `Close`
/// command — the driver shuts the socket down only after every write
/// submitted before this call — and drops both queue endpoints. Closing
/// again afterwards is a no-op: no error, no second command, the queues
/// remain absent. Only a handle that never connected reports an error.
pub fn close(handle: &mut SocketHandle) -> (r: Result<(), SocketError>)
    ensures
        !old(handle).was_opened() ==> (r matches Err(e) && e == SocketError::NotOpen && *final(handle) == *old(handle)),
        old(handle).was_opened() ==> r matches Ok(()),
        old(handle).was_opened() && old(handle).is_open() ==> !final(handle).is_open() && final(handle).was_opened() && final(handle).buffered() == Seq::<u8>::empty(),
        old(handle).was_opened() && !old(handle).is_open() ==> *final(handle) == *old(handle),
{
    if !handle.has_connected() {
        return Err(SocketError::NotOpen);
    }
    if handle.is_connected() {
        match handle.outgoing_queue() {
            Some(queue) => {
                let _ = channel::send_action(queue, OutgoingSocketAction::Close);
            },
            None => {},
        }
        handle.close_queues();
    }
    Ok(())
}

/// Drain the receive queue into `buffer` at its write cursor, without
/// blocking, and advance the cursor by the number of bytes written.
///
/// `length == 0` drains everything currently buffered; a positive
/// `length` delivers exactly that many bytes, or fails with
/// `InsufficientData`, consuming nothing, when fewer are buffered. Once
/// the peer is gone and every buffered byte has been delivered, the call
/// fails with `Disconnected`. A handle with no queues fails with
/// `NotOpen`. Bytes already in `buffer` before the cursor are never
/// overwritten, and on failure the buffer is untouched.
pub fn read_bytes(handle: &mut SocketHandle, buffer: &mut ByteBuffer, length: u32) -> (r: Result<
    usize,
    SocketError,
>)
    ensures
        !old(handle).is_open() ==> (r matches Err(e) && e == SocketError::NotOpen && *final(handle)
            == *old(handle) && *final(buffer) == *old(buffer)),
        final(handle).is_open() == old(handle).is_open(),
        final(handle).was_opened() == old(handle).was_opened(),
        final(buffer).contents().subrange(0, old(buffer).cursor()) == old(buffer).contents().subrange(0, old(buffer).cursor()),
        final(buffer).cursor() >= old(buffer).cursor(),
        r matches Ok(n) ==> final(buffer).cursor() == old(buffer).cursor() + n,
        length > 0 ==> (r matches Ok(n) ==> n == length),
        r matches Ok(n) ==> exists|arrived: Seq<u8>|
            old(handle).buffered() + arrived == final(buffer).contents().subrange(
                old(buffer).cursor(),
                old(buffer).cursor() + n as int,
            ) + final(handle).buffered(),
        r is Err ==> *final(buffer) == *old(buffer),
        r is Err ==> exists|arrived: Seq<u8>|
            final(handle).buffered() == old(handle).buffered() + arrived,
        old(handle).is_open() ==> (r matches Err(e) ==> e == SocketError::Disconnected || e
            == SocketError::InsufficientData || e == SocketError::InvalidArgument),
        length == 0 && r is Ok ==> final(handle).buffered() == Seq::<u8>::empty(),
        r matches Err(e) && e == SocketError::InsufficientData ==> length > 0 && final(handle).buffered().len() < length,
        r matches Err(e) && e == SocketError::Disconnected ==> final(handle).buffered()
            == Seq::<u8>::empty(),
        r matches Err(e) && e == SocketError::InvalidArgument ==> old(buffer).cursor() + final(handle).buffered().len() > usize::MAX,
{
    if !handle.is_connected() {
        proof {
            assert(final(handle).buffered() == old(handle).buffered() + Seq::<u8>::empty());
        }
        return Err(SocketError::NotOpen);
    }
    let disconnected = handle.poll_into_buffer();
    let ghost polled = handle.buffered();
    let pos = buffer.position();
    let avail = handle.buffered_len();
    if avail > usize::MAX - pos {
        return Err(SocketError::InvalidArgument);
    }
    let taken = match handle.take_pending(length, disconnected) {
        Ok(t) => t,
        Err(e) => {
            return Err(e);
        },
    };
    let n = taken.len();
    let ghost cursor0 = buffer.cursor();
    buffer.write_at_cursor(&taken);
    proof {
        assert(final(buffer).contents().subrange(cursor0, cursor0 + n as int) =~= taken@);
        assert(final(buffer).contents().subrange(0, cursor0) =~= old(buffer).contents().subrange(
            0,
            cursor0,
        ));
        let chunks = choose|chunks: Seq<Seq<u8>>|
            polled == old(handle).buffered() + recv::concat_chunks(chunks);
        let arrived = recv::concat_chunks(chunks);
        if length == 0 {
            assert(old(handle).buffered() + arrived =~= taken@ + final(handle).buffered());
        } else {
            assert(polled =~= polled.subrange(0, length as int) + polled.skip(length as int));
            assert(old(handle).buffered() + arrived =~= taken@ + final(handle).buffered());
        }
    }
    Ok(n)
}

} // verus!
