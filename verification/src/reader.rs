//! A bounded byte cursor with big-endian integer reads.
//!
//! Every multi-byte field of the container format is stored big-endian
//! (network order); the spec functions here give the value such a field
//! denotes, and the reader's methods are proved to return exactly that value
//! while consuming exactly the field's bytes.

use vstd::prelude::*;

use crate::error::Error;

verus! {

/// The big-endian value of the two bytes of `s` starting at `i`.
pub open spec fn be_u16_at(s: Seq<u8>, i: int) -> u16 {
    (s[i] * 0x100 + s[i + 1]) as u16
}

/// The big-endian value of the four bytes of `s` starting at `i`.
pub open spec fn be_u32_at(s: Seq<u8>, i: int) -> u32 {
    (s[i] * 0x100_0000 + s[i + 1] * 0x1_0000 + s[i + 2] * 0x100 + s[i + 3]) as u32
}

/// The big-endian value of the eight bytes of `s` starting at `i`.
pub open spec fn be_u64_at(s: Seq<u8>, i: int) -> u64 {
    (be_u32_at(s, i) * 0x1_0000_0000 + be_u32_at(s, i + 4)) as u64
}

/// A field read relative to a suffix of the stream denotes the same value as
/// the field at the corresponding absolute position.
pub proof fn lemma_be_u16_skip(s: Seq<u8>, p: int, i: int)
    requires
        0 <= p <= s.len(),
        0 <= i,
        p + i + 2 <= s.len(),
    ensures
        be_u16_at(s.skip(p), i) == be_u16_at(s, p + i),
{
}

/// A field read relative to a suffix of the stream denotes the same value as
/// the field at the corresponding absolute position.
pub proof fn lemma_be_u32_skip(s: Seq<u8>, p: int, i: int)
    requires
        0 <= p <= s.len(),
        0 <= i,
        p + i + 4 <= s.len(),
    ensures
        be_u32_at(s.skip(p), i) == be_u32_at(s, p + i),
{
}

/// A field read relative to a suffix of the stream denotes the same value as
/// the field at the corresponding absolute position.
pub proof fn lemma_be_u64_skip(s: Seq<u8>, p: int, i: int)
    requires
        0 <= p <= s.len(),
        0 <= i,
        p + i + 8 <= s.len(),
    ensures
        be_u64_at(s.skip(p), i) == be_u64_at(s, p + i),
{
    lemma_be_u32_skip(s, p, i);
    lemma_be_u32_skip(s, p, i + 4);
}

/// A byte stream being decoded: the whole input plus a read position.
///
/// The position never exceeds the input's length (`wf`), reads never change
/// the underlying bytes, and a failed read reports `Error::UnexpectedEOF`
/// and leaves the reader untouched.
pub struct ByteReader {
    data: Vec<u8>,
    pos: usize,
}

impl ByteReader {
    /// The whole input.
    pub closed spec fn bytes(&self) -> Seq<u8> {
        self.data@
    }

    /// How many bytes have been consumed.
    pub closed spec fn position(&self) -> int {
        self.pos as int
    }

    /// The read position lies inside the input.
    pub open spec fn wf(&self) -> bool {
        0 <= self.position() <= self.bytes().len()
    }

    /// How many bytes are still unread.
    pub open spec fn remaining(&self) -> int {
        self.bytes().len() - self.position()
    }

    /// The still-unread suffix of the input.
    pub open spec fn suffix(&self) -> Seq<u8> {
        self.bytes().skip(self.position())
    }

    /// Wrap a buffer for decoding, positioned at its start.
    pub fn new(data: Vec<u8>) -> (r: ByteReader)
        ensures
            r.wf(),
            r.bytes() == data@,
            r.position() == 0,
    {
        ByteReader { data, pos: 0 }
    }

    /// How many bytes are still unread.
    pub fn remaining_len(&self) -> (n: usize)
        requires
            self.wf(),
        ensures
            n == self.remaining(),
    {
        self.data.len() - self.pos
    }

    /// Read one byte.
    pub fn read_u8(&mut self) -> (r: Result<u8, Error>)
        requires
            old(self).wf(),
        ensures
            final(self).wf(),
            final(self).bytes() == old(self).bytes(),
            old(self).remaining() >= 1 ==> r == Ok::<u8, Error>(old(self).bytes()[old(self).position()])
                && final(self).position() == old(self).position() + 1,
            old(self).remaining() < 1 ==> r == Err::<u8, Error>(Error::UnexpectedEOF)
                && *final(self) == *old(self),
    {
        if self.pos < self.data.len() {
            let b = self.data[self.pos];
            self.pos = self.pos + 1;
            Ok(b)
        } else {
            Err(Error::UnexpectedEOF)
        }
    }

    /// Read a big-endian 16-bit integer.
    pub fn read_u16(&mut self) -> (r: Result<u16, Error>)
        requires
            old(self).wf(),
        ensures
            final(self).wf(),
            final(self).bytes() == old(self).bytes(),
            old(self).remaining() >= 2 ==> r == Ok::<u16, Error>(
                be_u16_at(old(self).bytes(), old(self).position()),
            ) && final(self).position() == old(self).position() + 2,
            old(self).remaining() < 2 ==> r == Err::<u16, Error>(Error::UnexpectedEOF)
                && *final(self) == *old(self),
    {
        if self.data.len() - self.pos >= 2 {
            let b0 = self.data[self.pos] as u16;
            let b1 = self.data[self.pos + 1] as u16;
            self.pos = self.pos + 2;
            Ok(b0 * 0x100 + b1)
        } else {
            Err(Error::UnexpectedEOF)
        }
    }

    /// Read a big-endian 32-bit integer.
    pub fn read_u32(&mut self) -> (r: Result<u32, Error>)
        requires
            old(self).wf(),
        ensures
            final(self).wf(),
            final(self).bytes() == old(self).bytes(),
            old(self).remaining() >= 4 ==> r == Ok::<u32, Error>(
                be_u32_at(old(self).bytes(), old(self).position()),
            ) && final(self).position() == old(self).position() + 4,
            old(self).remaining() < 4 ==> r == Err::<u32, Error>(Error::UnexpectedEOF)
                && *final(self) == *old(self),
    {
        if self.data.len() - self.pos >= 4 {
            let b0 = self.data[self.pos] as u32;
            let b1 = self.data[self.pos + 1] as u32;
            let b2 = self.data[self.pos + 2] as u32;
            let b3 = self.data[self.pos + 3] as u32;
            self.pos = self.pos + 4;
            Ok(b0 * 0x100_0000 + b1 * 0x1_0000 + b2 * 0x100 + b3)
        } else {
            Err(Error::UnexpectedEOF)
        }
    }

    /// Read a big-endian 64-bit integer.
    pub fn read_u64(&mut self) -> (r: Result<u64, Error>)
        requires
            old(self).wf(),
        ensures
            final(self).wf(),
            final(self).bytes() == old(self).bytes(),
            old(self).remaining() >= 8 ==> r == Ok::<u64, Error>(
                be_u64_at(old(self).bytes(), old(self).position()),
            ) && final(self).position() == old(self).position() + 8,
            old(self).remaining() < 8 ==> r == Err::<u64, Error>(Error::UnexpectedEOF)
                && *final(self) == *old(self),
    {
        if self.data.len() - self.pos >= 8 {
            let hi = match self.read_u32() {
                Ok(v) => v,
                Err(e) => {
                    return Err(e);
                },
            };
            let lo = match self.read_u32() {
                Ok(v) => v,
                Err(e) => {
                    return Err(e);
                },
            };
            Ok(hi as u64 * 0x1_0000_0000 + lo as u64)
        } else {
            Err(Error::UnexpectedEOF)
        }
    }

    /// Discard the next `n` bytes.
    pub fn skip_bytes(&mut self, n: usize) -> (r: Result<(), Error>)
        requires
            old(self).wf(),
        ensures
            final(self).wf(),
            final(self).bytes() == old(self).bytes(),
            old(self).remaining() >= n ==> r == Ok::<(), Error>(())
                && final(self).position() == old(self).position() + n,
            old(self).remaining() < n ==> r == Err::<(), Error>(Error::UnexpectedEOF)
                && *final(self) == *old(self),
    {
        if self.data.len() - self.pos >= n {
            self.pos = self.pos + n;
            Ok(())
        } else {
            Err(Error::UnexpectedEOF)
        }
    }

    /// Read the next `n` bytes into an owned buffer.
    pub fn read_bytes(&mut self, n: usize) -> (r: Result<Vec<u8>, Error>)
        requires
            old(self).wf(),
        ensures
            final(self).wf(),
            final(self).bytes() == old(self).bytes(),
            old(self).remaining() >= n ==> match r {
                Ok(v) => v@ == old(self).bytes().subrange(
                    old(self).position(),
                    old(self).position() + n,
                ) && final(self).position() == old(self).position() + n,
                Err(_) => false,
            },
            old(self).remaining() < n ==> r == Err::<Vec<u8>, Error>(Error::UnexpectedEOF)
                && *final(self) == *old(self),
    {
        if self.data.len() - self.pos >= n {
            let mut out: Vec<u8> = Vec::new();
            let mut i: usize = 0;
            while i < n
                invariant
                    i <= n,
                    self.wf(),
                    self.pos + n <= self.data.len(),
                    out@ == self.bytes().subrange(self.position(), self.position() + i),
                decreases n - i,
            {
                out.push(self.data[self.pos + i]);
                proof {
                    assert(out@ =~= self.bytes().subrange(
                        self.position(),
                        self.position() + i + 1,
                    ));
                }
                i = i + 1;
            }
            self.pos = self.pos + n;
            Ok(out)
        } else {
            Err(Error::UnexpectedEOF)
        }
    }
}

} // verus!
