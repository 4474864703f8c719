use vstd::prelude::*;

use crate::error::ChunkError;
use crate::tag::Tag;

verus! {

/// The tag standing at offset `pos` of `data`.
pub open spec fn spec_tag_at(data: Seq<u8>, pos: int) -> Tag
    recommends
        0 <= pos,
        pos + 4 <= data.len(),
{
    Tag { b0: data[pos], b1: data[pos + 1], b2: data[pos + 2], b3: data[pos + 3] }
}

/// The big-endian 32-bit integer standing at offset `pos` of `data`.
pub open spec fn spec_be32_at(data: Seq<u8>, pos: int) -> u32
    recommends
        0 <= pos,
        pos + 4 <= data.len(),
{
    (data[pos] * 0x100_0000 + data[pos + 1] * 0x1_0000 + data[pos + 2] * 0x100 + data[pos
        + 3]) as u32
}

/// An in-memory byte source with an exact cursor.  Every operation either
/// advances by the declared amount or fails atomically, leaving the position
/// unchanged; the cursor never stands past the end of the source.
pub struct Cursor {
    data: Vec<u8>,
    pos: usize,
}

impl Cursor {
    /// The bytes of the source.
    pub closed spec fn spec_data(self) -> Seq<u8> {
        self.data@
    }

    /// The current absolute offset.
    pub closed spec fn spec_pos(self) -> int {
        self.pos as int
    }

    /// The position is always inside the source (the end counts as inside).
    pub open spec fn wf(self) -> bool {
        0 <= self.spec_pos() <= self.spec_data().len()
    }

    pub fn new(data: Vec<u8>) -> (c: Cursor)
        ensures
            c.wf(),
            c.spec_data() == data@,
            c.spec_pos() == 0,
    {
        Cursor { data, pos: 0 }
    }

    /// Absolute position query.
    pub fn position(&self) -> (p: usize)
        ensures
            p as int == self.spec_pos(),
    {
        self.pos
    }

    /// Total length of the source.
    pub fn len(&self) -> (n: usize)
        ensures
            n as int == self.spec_data().len(),
    {
        self.data.len()
    }

    /// Absolute seek.  Fails without moving when the target lies past the
    /// end of the source.
    pub fn seek(&mut self, to: usize) -> (r: Result<(), ChunkError>)
        requires
            old(self).wf(),
        ensures
            final(self).wf(),
            final(self).spec_data() == old(self).spec_data(),
            to <= old(self).spec_data().len() ==> r == Ok::<(), ChunkError>(()) && final(self).spec_pos()
                == to as int,
            to > old(self).spec_data().len() ==> r == Err::<(), ChunkError>(
                ChunkError::TruncatedInput,
            ) && final(self).spec_pos() == old(self).spec_pos(),
    {
        if to <= self.data.len() {
            self.pos = to;
            Ok(())
        } else {
            Err(ChunkError::TruncatedInput)
        }
    }

    /// Relative advance.  Fails without moving when fewer than `n` bytes
    /// remain.
    pub fn skip(&mut self, n: usize) -> (r: Result<(), ChunkError>)
        requires
            old(self).wf(),
        ensures
            final(self).wf(),
            final(self).spec_data() == old(self).spec_data(),
            old(self).spec_pos() + n <= old(self).spec_data().len() ==> r == Ok::<(), ChunkError>(
                (),
            ) && final(self).spec_pos() == old(self).spec_pos() + n,
            old(self).spec_pos() + n > old(self).spec_data().len() ==> r == Err::<(), ChunkError>(
                ChunkError::TruncatedInput,
            ) && final(self).spec_pos() == old(self).spec_pos(),
    {
        if n <= self.data.len() - self.pos {
            self.pos = self.pos + n;
            Ok(())
        } else {
            Err(ChunkError::TruncatedInput)
        }
    }

    /// Relative retreat.  Fails without moving when the cursor stands less
    /// than `n` bytes from the start.
    pub fn rewind(&mut self, n: usize) -> (r: Result<(), ChunkError>)
        requires
            old(self).wf(),
        ensures
            final(self).wf(),
            final(self).spec_data() == old(self).spec_data(),
            n <= old(self).spec_pos() ==> r == Ok::<(), ChunkError>(()) && final(self).spec_pos() == old(
                self,
            ).spec_pos() - n,
            n > old(self).spec_pos() ==> r == Err::<(), ChunkError>(ChunkError::IoFailure)
                && final(self).spec_pos() == old(self).spec_pos(),
    {
        if n <= self.pos {
            self.pos = self.pos - n;
            Ok(())
        } else {
            Err(ChunkError::IoFailure)
        }
    }

    /// Read four bytes as a tag, consuming them.  Fails without moving when
    /// fewer than four bytes remain.
    pub fn read_tag(&mut self) -> (r: Result<Tag, ChunkError>)
        requires
            old(self).wf(),
        ensures
            final(self).wf(),
            final(self).spec_data() == old(self).spec_data(),
            old(self).spec_pos() + 4 <= old(self).spec_data().len() ==> r == Ok::<Tag, ChunkError>(
                spec_tag_at(old(self).spec_data(), old(self).spec_pos()),
            ) && final(self).spec_pos() == old(self).spec_pos() + 4,
            old(self).spec_pos() + 4 > old(self).spec_data().len() ==> r == Err::<Tag, ChunkError>(
                ChunkError::TruncatedInput,
            ) && final(self).spec_pos() == old(self).spec_pos(),
    {
        if 4 <= self.data.len() - self.pos {
            let t = Tag {
                b0: self.data[self.pos],
                b1: self.data[self.pos + 1],
                b2: self.data[self.pos + 2],
                b3: self.data[self.pos + 3],
            };
            self.pos = self.pos + 4;
            Ok(t)
        } else {
            Err(ChunkError::TruncatedInput)
        }
    }

    /// Read a big-endian 32-bit integer, consuming four bytes.  Fails
    /// without moving when fewer than four bytes remain.
    pub fn read_be_u32(&mut self) -> (r: Result<u32, ChunkError>)
        requires
            old(self).wf(),
        ensures
            final(self).wf(),
            final(self).spec_data() == old(self).spec_data(),
            old(self).spec_pos() + 4 <= old(self).spec_data().len() ==> r == Ok::<u32, ChunkError>(
                spec_be32_at(old(self).spec_data(), old(self).spec_pos()),
            ) && final(self).spec_pos() == old(self).spec_pos() + 4,
            old(self).spec_pos() + 4 > old(self).spec_data().len() ==> r == Err::<u32, ChunkError>(
                ChunkError::TruncatedInput,
            ) && final(self).spec_pos() == old(self).spec_pos(),
    {
        if 4 <= self.data.len() - self.pos {
            let b0 = self.data[self.pos];
            let b1 = self.data[self.pos + 1];
            let b2 = self.data[self.pos + 2];
            let b3 = self.data[self.pos + 3];
            self.pos = self.pos + 4;
            Ok((b0 as u32) * 0x100_0000 + (b1 as u32) * 0x1_0000 + (b2 as u32) * 0x100 + (
            b3 as u32))
        } else {
            Err(ChunkError::TruncatedInput)
        }
    }
}

} // verus!
