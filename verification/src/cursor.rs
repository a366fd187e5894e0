//! A bounds-checked reader over an immutable byte buffer.

use crate::endian::{
    be_u16, be_u32, be_u64, read_be_i32, read_be_i64, read_be_u16, read_be_u32, read_be_u64,
    signed32, signed64,
};
use crate::error::Error;
use vstd::prelude::*;
use vstd::slice::slice_subrange;

verus! {

/// The `n` bytes of `bytes` that begin at `pos`, with the offset behind them;
/// `Truncated` where the buffer does not hold that many.
pub open spec fn spec_take(bytes: Seq<u8>, pos: int, n: int) -> Result<(Seq<u8>, int), Error> {
    if 0 <= pos && 0 <= n && pos + n <= bytes.len() {
        Ok((bytes.subrange(pos, pos + n), pos + n))
    } else {
        Err(Error::Truncated { position: pos as usize, needed: n as usize })
    }
}

/// The byte at `pos`.
pub open spec fn spec_u8(bytes: Seq<u8>, pos: int) -> Result<(u8, int), Error> {
    match spec_take(bytes, pos, 1) {
        Ok((s, end)) => Ok((s[0], end)),
        Err(e) => Err(e),
    }
}

/// The big-endian 16-bit number at `pos`.
pub open spec fn spec_u16(bytes: Seq<u8>, pos: int) -> Result<(u16, int), Error> {
    match spec_take(bytes, pos, 2) {
        Ok((s, end)) => Ok((be_u16(s), end)),
        Err(e) => Err(e),
    }
}

/// The big-endian 32-bit number at `pos`.
pub open spec fn spec_u32(bytes: Seq<u8>, pos: int) -> Result<(u32, int), Error> {
    match spec_take(bytes, pos, 4) {
        Ok((s, end)) => Ok((be_u32(s), end)),
        Err(e) => Err(e),
    }
}

/// The big-endian 64-bit number at `pos`.
pub open spec fn spec_u64(bytes: Seq<u8>, pos: int) -> Result<(u64, int), Error> {
    match spec_take(bytes, pos, 8) {
        Ok((s, end)) => Ok((be_u64(s), end)),
        Err(e) => Err(e),
    }
}

/// The big-endian two's-complement 32-bit number at `pos`.
pub open spec fn spec_i32(bytes: Seq<u8>, pos: int) -> Result<(i32, int), Error> {
    match spec_take(bytes, pos, 4) {
        Ok((s, end)) => Ok((signed32(be_u32(s)), end)),
        Err(e) => Err(e),
    }
}

/// The big-endian two's-complement 64-bit number at `pos`.
pub open spec fn spec_i64(bytes: Seq<u8>, pos: int) -> Result<(i64, int), Error> {
    match spec_take(bytes, pos, 8) {
        Ok((s, end)) => Ok((signed64(be_u64(s)), end)),
        Err(e) => Err(e),
    }
}

/// A run of bytes that can be taken from `bytes` can be taken alike from
/// every prefix of `bytes` that still holds it, and from no shorter one.
pub proof fn lemma_take_prefix(bytes: Seq<u8>, pos: int, n: int, m: int)
    requires
        0 <= pos <= m <= bytes.len(),
    ensures
        match spec_take(bytes, pos, n) {
            Ok((s, end)) => if end <= m {
                spec_take(bytes.take(m), pos, n) == Ok::<(Seq<u8>, int), Error>((s, end))
            } else {
                spec_take(bytes.take(m), pos, n) == Err::<(Seq<u8>, int), Error>(
                    Error::Truncated { position: pos as usize, needed: n as usize },
                )
            },
            Err(_) => true,
        },
{
    if 0 <= n && pos + n <= m {
        assert(bytes.take(m).subrange(pos, pos + n) =~= bytes.subrange(pos, pos + n));
    }
}

/// Two adjoining ranges of a buffer make up the range that spans them.
pub proof fn lemma_join(bytes: Seq<u8>, a: int, b: int, c: int)
    requires
        0 <= a <= b <= c <= bytes.len(),
    ensures
        bytes.subrange(a, b) + bytes.subrange(b, c) == bytes.subrange(a, c),
{
    assert(bytes.subrange(a, b) + bytes.subrange(b, c) =~= bytes.subrange(a, c));
}

/// How the outcome `r` of a read that left the cursor at `after` agrees with
/// the outcome `expected` that the format prescribes.
pub open spec fn read_agrees<T>(r: Result<T, Error>, after: int, expected: Result<(T, int), Error>) -> bool {
    match expected {
        Ok((v, end)) => r == Ok::<T, Error>(v) && after == end,
        Err(e) => r == Err::<T, Error>(e),
    }
}

/// A byte buffer with a read position. Reads advance the position; a read
/// that the buffer cannot satisfy fails and the decode is to be abandoned.
pub struct Cursor<'a> {
    pub data: &'a [u8],
    pub pos: usize,
}

impl<'a> Cursor<'a> {
    /// A cursor at the start of `data`.
    pub fn new(data: &'a [u8]) -> (c: Self)
        ensures
            c.data@ == data@,
            c.pos == 0,
    {
        Cursor { data, pos: 0 }
    }

    /// The number of bytes that are left to read.
    pub open spec fn spec_remaining(&self) -> int {
        if self.pos <= self.data@.len() {
            self.data@.len() - self.pos
        } else {
            0
        }
    }

    /// The number of bytes that are left to read.
    pub fn remaining(&self) -> (n: usize)
        ensures
            n == self.spec_remaining(),
    {
        let len: usize = self.data.len();
        if self.pos <= len {
            len - self.pos
        } else {
            0
        }
    }

    /// Reads exactly `n` bytes.
    pub fn read_bytes(&mut self, n: usize) -> (r: Result<&'a [u8], Error>)
        ensures
            final(self).data@ == old(self).data@,
            match spec_take(old(self).data@, old(self).pos as int, n as int) {
                Ok((s, end)) => r is Ok && r->Ok_0@ == s && final(self).pos == end,
                Err(e) => r is Err && r->Err_0 == e,
            },
    {
        let len: usize = self.data.len();
        if self.pos > len || len - self.pos < n {
            return Err(Error::Truncated { position: self.pos, needed: n });
        }
        let out = slice_subrange(self.data, self.pos, self.pos + n);
        self.pos = self.pos + n;
        Ok(out)
    }

    /// Reads one byte.
    pub fn read_u8(&mut self) -> (r: Result<u8, Error>)
        ensures
            final(self).data@ == old(self).data@,
            read_agrees(r, final(self).pos as int, spec_u8(old(self).data@, old(self).pos as int)),
    {
        match self.read_bytes(1) {
            Ok(s) => Ok(s[0]),
            Err(e) => Err(e),
        }
    }

    /// Reads a big-endian unsigned 16-bit number.
    pub fn read_u16(&mut self) -> (r: Result<u16, Error>)
        ensures
            final(self).data@ == old(self).data@,
            read_agrees(r, final(self).pos as int, spec_u16(old(self).data@, old(self).pos as int)),
    {
        match self.read_bytes(2) {
            Ok(s) => Ok(read_be_u16(s)),
            Err(e) => Err(e),
        }
    }

    /// Reads a big-endian unsigned 32-bit number.
    pub fn read_u32(&mut self) -> (r: Result<u32, Error>)
        ensures
            final(self).data@ == old(self).data@,
            read_agrees(r, final(self).pos as int, spec_u32(old(self).data@, old(self).pos as int)),
    {
        match self.read_bytes(4) {
            Ok(s) => Ok(read_be_u32(s)),
            Err(e) => Err(e),
        }
    }

    /// Reads a big-endian unsigned 64-bit number.
    pub fn read_u64(&mut self) -> (r: Result<u64, Error>)
        ensures
            final(self).data@ == old(self).data@,
            read_agrees(r, final(self).pos as int, spec_u64(old(self).data@, old(self).pos as int)),
    {
        match self.read_bytes(8) {
            Ok(s) => Ok(read_be_u64(s)),
            Err(e) => Err(e),
        }
    }

    /// Reads a big-endian two's-complement 32-bit number.
    pub fn read_i32(&mut self) -> (r: Result<i32, Error>)
        ensures
            final(self).data@ == old(self).data@,
            read_agrees(r, final(self).pos as int, spec_i32(old(self).data@, old(self).pos as int)),
    {
        match self.read_bytes(4) {
            Ok(s) => Ok(read_be_i32(s)),
            Err(e) => Err(e),
        }
    }

    /// Reads a big-endian two's-complement 64-bit number.
    pub fn read_i64(&mut self) -> (r: Result<i64, Error>)
        ensures
            final(self).data@ == old(self).data@,
            read_agrees(r, final(self).pos as int, spec_i64(old(self).data@, old(self).pos as int)),
    {
        match self.read_bytes(8) {
            Ok(s) => Ok(read_be_i64(s)),
            Err(e) => Err(e),
        }
    }
}

/// Appends `bytes` to `output`.
pub fn append_bytes(output: &mut Vec<u8>, bytes: &[u8])
    ensures
        final(output)@ == old(output)@ + bytes@,
{
    let ghost base = output@;
    let mut i: usize = 0;
    while i < bytes.len()
        invariant
            i <= bytes.len(),
            output@ == base + bytes@.take(i as int),
        decreases bytes.len() - i,
    {
        output.push(bytes[i]);
        assert(output@ =~= base + bytes@.take(i + 1));
        i = i + 1;
    }
    assert(bytes@.take(bytes.len() as int) =~= bytes@);
}

} // verus!
