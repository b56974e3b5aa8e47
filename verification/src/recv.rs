//! The consumer side of the receive queue.
//!
//! The receive queue delivers inbound bytes as an ordered sequence of
//! chunks, each one a contiguous read from the transport. Reassembling the
//! chunks into a stream is the consumer's job: the functions here maintain
//! the pool of bytes already drained from the queue but not yet handed to
//! script, and take bytes out of it without ever blocking.

use vstd::prelude::*;

use crate::errors::SocketError;

verus! {

/// The concatenation of a sequence of byte chunks, in arrival order.
pub open spec fn concat_chunks(chunks: Seq<Seq<u8>>) -> Seq<u8>
    decreases chunks.len(),
{
    if chunks.len() == 0 {
        Seq::<u8>::empty()
    } else {
        concat_chunks(chunks.drop_last()) + chunks.last()
    }
}

/// Append one inbound chunk to the pool of buffered bytes. Chunks are
/// absorbed in arrival order, so the pool is always a contiguous slice of
/// the inbound stream: no gaps, no reordering, no duplication.
pub fn absorb_chunk(pending: &mut Vec<u8>, chunk: Vec<u8>)
    ensures
        final(pending)@ == old(pending)@ + chunk@,
{
    let mut chunk = chunk;
    pending.append(&mut chunk);
}

/// Take bytes out of the pool for one `readBytes` call, never blocking.
///
/// `length == 0` means "drain everything currently buffered"; a positive
/// `length` asks for exactly that many bytes and fails with
/// `InsufficientData`, consuming nothing, when fewer are buffered. Once the
/// queue is disconnected and the pool is empty, every further call reports
/// `Disconnected`: no more data, and no more will arrive.
pub fn take_buffered(pending: &mut Vec<u8>, length: u32, disconnected: bool) -> (r: Result<
    Vec<u8>,
    SocketError,
>)
    ensures
        disconnected && old(pending)@.len() == 0 ==> (r matches Err(e)
            && e == SocketError::Disconnected
            && final(pending)@ == old(pending)@),
        !(disconnected && old(pending)@.len() == 0) && length == 0 ==> (r matches Ok(taken)
            && taken@ == old(pending)@
            && final(pending)@ == Seq::<u8>::empty()),
        !(disconnected && old(pending)@.len() == 0) && length > 0
            && old(pending)@.len() >= length ==> (r matches Ok(taken)
            && taken@ == old(pending)@.subrange(0, length as int)
            && final(pending)@ == old(pending)@.skip(length as int)),
        !(disconnected && old(pending)@.len() == 0) && length > 0
            && old(pending)@.len() < length ==> (r matches Err(e)
            && e == SocketError::InsufficientData
            && final(pending)@ == old(pending)@),
{
    if disconnected && pending.len() == 0 {
        return Err(SocketError::Disconnected);
    }
    if length == 0 {
        let mut taken: Vec<u8> = Vec::new();
        core::mem::swap(pending, &mut taken);
        return Ok(taken);
    }
    let wanted = length as usize;
    if pending.len() >= wanted {
        let mut head = pending.split_off(wanted);
        core::mem::swap(pending, &mut head);
        Ok(head)
    } else {
        Err(SocketError::InsufficientData)
    }
}

/// Concatenating two runs of chunks drains the same bytes as one run.
pub proof fn lemma_concat_chunks_append(a: Seq<Seq<u8>>, b: Seq<Seq<u8>>)
    ensures
        concat_chunks(a + b) == concat_chunks(a) + concat_chunks(b),
    decreases b.len(),
{
    if b.len() == 0 {
        assert(a + b =~= a);
        assert(concat_chunks(a) + concat_chunks(b) =~= concat_chunks(a));
    } else {
        lemma_concat_chunks_append(a, b.drop_last());
        assert((a + b).drop_last() =~= a + b.drop_last());
        assert((a + b).last() == b.last());
        assert(concat_chunks(a) + concat_chunks(b.drop_last()) + b.last() =~= concat_chunks(a) + (
        concat_chunks(b.drop_last()) + b.last()));
    }
}

/// The chunks of several successive drains, laid out in arrival order.
pub open spec fn flatten_groups(groups: Seq<Seq<Seq<u8>>>) -> Seq<Seq<u8>>
    decreases groups.len(),
{
    if groups.len() == 0 {
        Seq::<Seq<u8>>::empty()
    } else {
        flatten_groups(groups.drop_last()) + groups.last()
    }
}

/// The bytes yielded by draining each group of chunks in turn.
pub open spec fn drained_by_groups(groups: Seq<Seq<Seq<u8>>>) -> Seq<u8>
    decreases groups.len(),
{
    if groups.len() == 0 {
        Seq::<u8>::empty()
    } else {
        drained_by_groups(groups.drop_last()) + concat_chunks(groups.last())
    }
}

/// No data loss: however the inbound chunks are grouped into successive
/// "drain everything" reads, the bytes those reads yield, concatenated in
/// call order, are exactly the concatenation of every chunk the peer
/// delivered, in arrival order, with no gaps, reordering, or duplication.
pub proof fn lemma_no_data_loss(groups: Seq<Seq<Seq<u8>>>)
    ensures
        drained_by_groups(groups) == concat_chunks(flatten_groups(groups)),
    decreases groups.len(),
{
    if groups.len() > 0 {
        lemma_no_data_loss(groups.drop_last());
        lemma_concat_chunks_append(flatten_groups(groups.drop_last()), groups.last());
    }
}

} // verus!
