use vstd::prelude::*;

use crate::error::SaveError;

verus! {

/// A read position over the bytes of a save file.
pub struct SaveCursor {
    position: usize,
    bytes: Vec<u8>,
}

impl SaveCursor {
    /// The bytes the cursor reads from.
    pub closed spec fn bytes(&self) -> Seq<u8> {
        self.bytes@
    }

    /// How many bytes have been read so far.
    pub closed spec fn position(&self) -> nat {
        self.position as nat
    }

    /// The cursor never stands past the end of its bytes.
    pub open spec fn wf(&self) -> bool {
        self.position() <= self.bytes().len()
    }

    /// The bytes that are still to be read.
    pub open spec fn remaining(&self) -> Seq<u8> {
        self.bytes().skip(self.position() as int)
    }

    /// A cursor at the start of `bytes`.
    pub fn new(bytes: Vec<u8>) -> (cursor: Self)
        ensures
            cursor.wf(),
            cursor.bytes() == bytes@,
            cursor.position() == 0,
    {
        Self { position: 0, bytes }
    }

    /// How many bytes have been read so far.
    pub fn current_position(&self) -> (pos: usize)
        ensures
            pos == self.position(),
    {
        self.position
    }

    /// How many bytes are left to read.
    pub fn remaining_len(&self) -> (len: usize)
        requires
            self.wf(),
        ensures
            len == self.remaining().len(),
    {
        self.bytes.len() - self.position
    }

    /// Reads the next `num_bytes` bytes and moves past them.
    ///
    /// Fails, and leaves the cursor where it stands, when fewer than
    /// `num_bytes` bytes are left.
    pub fn read(&mut self, num_bytes: usize) -> (res: Result<&[u8], SaveError>)
        requires
            old(self).wf(),
        ensures
            final(self).wf(),
            final(self).bytes() == old(self).bytes(),
            match res {
                Ok(slice) => {
                    &&& num_bytes <= old(self).remaining().len()
                    &&& slice@ == old(self).remaining().take(num_bytes as int)
                    &&& final(self).position() == old(self).position() + num_bytes
                    &&& final(self).remaining() == old(self).remaining().skip(num_bytes as int)
                },
                Err(e) => {
                    &&& e == SaveError::UnexpectedEndOfFile
                    &&& num_bytes > old(self).remaining().len()
                    &&& final(self).position() == old(self).position()
                },
            },
    {
        if num_bytes > self.bytes.len() - self.position {
            return Err(SaveError::UnexpectedEndOfFile);
        }
        let start = self.position;
        let end = start + num_bytes;
        self.position = end;
        let slice = &self.bytes.as_slice()[start..end];
        assert(slice@ =~= self.bytes@.skip(start as int).take(num_bytes as int));
        assert(self.bytes@.skip(end as int) =~= self.bytes@.skip(start as int).skip(num_bytes as int));
        Ok(slice)
    }

    /// Reads every byte that is left.
    pub fn read_to_end(&mut self) -> (res: Result<&[u8], SaveError>)
        requires
            old(self).wf(),
        ensures
            final(self).wf(),
            final(self).bytes() == old(self).bytes(),
            res matches Ok(slice) && slice@ == old(self).remaining(),
            final(self).position() == old(self).bytes().len(),
    {
        let len = self.bytes.len() - self.position;
        let res = self.read(len);
        proof {
            assert(old(self).remaining().take(len as int) =~= old(self).remaining());
        }
        res
    }
}


/// Law: two reads in a row give the bytes that one read of both lengths
/// gives, and leave the cursor at the same place.
pub proof fn law_consecutive_reads(remaining: Seq<u8>, n: int, m: int)
    requires
        0 <= n,
        0 <= m,
        n + m <= remaining.len(),
    ensures
        remaining.take(n) + remaining.skip(n).take(m) == remaining.take(n + m),
        remaining.skip(n).skip(m) == remaining.skip(n + m),
{
    assert(remaining.take(n) + remaining.skip(n).take(m) =~= remaining.take(n + m));
    assert(remaining.skip(n).skip(m) =~= remaining.skip(n + m));
}
} // verus!
