//! The script-visible byte buffer that `readBytes` appends into.
//!
//! The buffer carries a write cursor. Draining the receive queue writes the
//! drained bytes at the cursor and advances it by the number of bytes
//! written, so the cursor always reflects the total written by prior reads,
//! and nothing before the cursor is ever overwritten.

use vstd::prelude::*;

use crate::errors::SocketError;

verus! {

/// `base` with `src` written over it starting at `pos`: bytes before `pos`
/// are kept, bytes from `pos` on are replaced by `src`, and whatever of
/// `base` lies beyond the written range is kept as well.
pub open spec fn overwrite(base: Seq<u8>, pos: int, src: Seq<u8>) -> Seq<u8>
    recommends
        0 <= pos <= base.len(),
{
    base.subrange(0, pos) + src + if pos + src.len() <= base.len() {
        base.skip(pos + src.len())
    } else {
        Seq::<u8>::empty()
    }
}

/// A growable byte buffer with a write cursor, the destination of every
/// `readBytes` call.
pub struct ByteBuffer {
    data: Vec<u8>,
    position: usize,
}

impl ByteBuffer {
    /// The cursor never points past the end of the data.
    #[verifier::type_invariant]
    spec fn cursor_in_bounds(self) -> bool {
        self.position <= self.data.len()
    }

    /// The bytes the buffer holds.
    pub closed spec fn contents(self) -> Seq<u8> {
        self.data@
    }

    /// The write cursor.
    pub closed spec fn cursor(self) -> int {
        self.position as int
    }

    /// An empty buffer with the cursor at the start.
    pub fn new() -> (b: ByteBuffer)
        ensures
            b.contents() == Seq::<u8>::empty(),
            b.cursor() == 0,
    {
        ByteBuffer { data: Vec::new(), position: 0 }
    }

    /// The current cursor, which always lies within the contents.
    pub fn position(&self) -> (p: usize)
        ensures
            p == self.cursor(),
            0 <= p <= self.contents().len(),
    {
        proof {
            use_type_invariant(self);
        }
        self.position
    }

    /// Move the cursor; a position past the end of the data is rejected as
    /// an argument error.
    pub fn set_position(&mut self, pos: usize) -> (r: Result<(), SocketError>)
        ensures
            final(self).contents() == old(self).contents(),
            pos <= old(self).contents().len() ==> (r matches Ok(()) && final(self).cursor()
                == pos),
            pos > old(self).contents().len() ==> (r matches Err(e)
                && e == SocketError::InvalidArgument
                && final(self).cursor() == old(self).cursor()),
    {
        if pos > self.data.len() {
            return Err(SocketError::InvalidArgument);
        }
        proof {
            use_type_invariant(&*self);
        }
        self.position = pos;
        Ok(())
    }

    /// The number of bytes the buffer holds.
    pub fn len(&self) -> (n: usize)
        ensures
            n == self.contents().len(),
    {
        self.data.len()
    }

    /// A view of the bytes the buffer holds.
    pub fn bytes(&self) -> (r: &Vec<u8>)
        ensures
            r@ == self.contents(),
    {
        &self.data
    }

    /// Write `src` into the buffer starting at `pos`, growing the buffer as
    /// needed. A start past the end of the data, or a range that does not
    /// fit in a machine word, is rejected as an argument error and leaves
    /// the buffer untouched. The cursor does not move.
    pub fn write_at(&mut self, src: &Vec<u8>, pos: usize) -> (r: Result<(), SocketError>)
        ensures
            final(self).cursor() == old(self).cursor(),
            pos <= old(self).contents().len() && pos + src@.len() <= usize::MAX ==> (r matches Ok(
                (),
            ) && final(self).contents() == overwrite(old(self).contents(), pos as int, src@)),
            !(pos <= old(self).contents().len() && pos + src@.len() <= usize::MAX) ==> (r matches
                Err(e) && e == SocketError::InvalidArgument && final(self).contents() == old(
                self,
            ).contents()),
    {
        proof {
            use_type_invariant(&*self);
        }
        if pos > self.data.len() {
            return Err(SocketError::InvalidArgument);
        }
        if src.len() > usize::MAX - pos {
            return Err(SocketError::InvalidArgument);
        }
        let ghost base = self.data@;
        let mut out: Vec<u8> = Vec::new();
        let mut i: usize = 0;
        while i < pos
            invariant
                i <= pos <= base.len(),
                base == self.data@,
                out@ == base.subrange(0, i as int),
            decreases pos - i,
        {
            out.push(self.data[i]);
            i += 1;
        }
        let mut j: usize = 0;
        while j < src.len()
            invariant
                j <= src@.len(),
                pos <= base.len(),
                base == self.data@,
                out@ == base.subrange(0, pos as int) + src@.subrange(0, j as int),
            decreases src@.len() - j,
        {
            out.push(src[j]);
            j += 1;
        }
        assert(out@ == base.subrange(0, pos as int) + src@);
        if src.len() <= self.data.len() - pos {
            let mut k: usize = pos + src.len();
            while k < self.data.len()
                invariant
                    pos + src@.len() <= k <= base.len(),
                    base == self.data@,
                    out@ == base.subrange(0, pos as int) + src@ + base.subrange(
                        pos + src@.len(),
                        k as int,
                    ),
                decreases self.data@.len() - k,
            {
                out.push(self.data[k]);
                k += 1;
            }
        }
        assert(out@ =~= overwrite(base, pos as int, src@));
        let position = self.position;
        *self = ByteBuffer { data: out, position };
        Ok(())
    }

    /// Write `src` at the cursor and advance the cursor past it: the
    /// append-at-cursor operation behind `readBytes`. Bytes before the
    /// cursor are never touched.
    pub fn write_at_cursor(&mut self, src: &Vec<u8>)
        requires
            old(self).cursor() + src@.len() <= usize::MAX,
        ensures
            final(self).contents() == overwrite(old(self).contents(), old(self).cursor(), src@),
            final(self).cursor() == old(self).cursor() + src@.len(),
            final(self).contents().subrange(0, old(self).cursor()) == old(
                self,
            ).contents().subrange(0, old(self).cursor()),
    {
        proof {
            use_type_invariant(&*self);
        }
        let pos = self.position;
        let r = self.write_at(src, pos);
        proof {
            use_type_invariant(&*self);
        }
        self.position = pos + src.len();
        proof {
            assert(final(self).contents().subrange(0, pos as int) =~= old(
                self,
            ).contents().subrange(0, pos as int));
        }
    }
}

} // verus!
