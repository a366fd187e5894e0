//! Big-endian integers: what a run of bytes denotes, and the bytes of a value.

use byteorder::{BigEndian, ByteOrder};
use vstd::prelude::*;

verus! {

/// The unsigned number that the first two bytes of `b` denote, high byte first.
#[verifier::opaque]
pub open spec fn be_u16(b: Seq<u8>) -> u16
    recommends
        b.len() >= 2,
{
    (b[0] as int * 0x100 + b[1] as int) as u16
}

/// The unsigned number that the first four bytes of `b` denote, high byte first.
#[verifier::opaque]
pub open spec fn be_u32(b: Seq<u8>) -> u32
    recommends
        b.len() >= 4,
{
    (be_u16(b) as int * 0x1_0000 + be_u16(b.skip(2)) as int) as u32
}

/// The unsigned number that the first eight bytes of `b` denote, high byte first.
#[verifier::opaque]
pub open spec fn be_u64(b: Seq<u8>) -> u64
    recommends
        b.len() >= 8,
{
    (be_u32(b) as int * 0x1_0000_0000 + be_u32(b.skip(4)) as int) as u64
}

/// The two's-complement reading of a 32-bit pattern.
pub open spec fn signed32(u: u32) -> i32 {
    if u >= 0x8000_0000 {
        (u as int - 0x1_0000_0000) as i32
    } else {
        u as i32
    }
}

/// The two's-complement reading of a 64-bit pattern.
pub open spec fn signed64(u: u64) -> i64 {
    if u >= 0x8000_0000_0000_0000 {
        (u as int - 0x1_0000_0000_0000_0000) as i64
    } else {
        u as i64
    }
}

/// The 32-bit pattern of a signed number in two's complement.
pub open spec fn unsigned32(i: i32) -> u32 {
    if i < 0 {
        (i as int + 0x1_0000_0000) as u32
    } else {
        i as u32
    }
}

/// The 64-bit pattern of a signed number in two's complement.
pub open spec fn unsigned64(i: i64) -> u64 {
    if i < 0 {
        (i as int + 0x1_0000_0000_0000_0000) as u64
    } else {
        i as u64
    }
}

/// The two bytes of `v`, high byte first.
#[verifier::opaque]
pub open spec fn u16_bytes(v: u16) -> Seq<u8> {
    seq![(v as int / 0x100) as u8, (v as int % 0x100) as u8]
}

/// The four bytes of `v`, high byte first.
#[verifier::opaque]
pub open spec fn u32_bytes(v: u32) -> Seq<u8> {
    u16_bytes((v as int / 0x1_0000) as u16) + u16_bytes((v as int % 0x1_0000) as u16)
}

/// The eight bytes of `v`, high byte first.
#[verifier::opaque]
pub open spec fn u64_bytes(v: u64) -> Seq<u8> {
    u32_bytes((v as int / 0x1_0000_0000) as u32) + u32_bytes((v as int % 0x1_0000_0000) as u32)
}

/// Reading back the bytes of a 16-bit value gives the value, and writing the
/// value that two bytes denote gives those bytes.
pub proof fn lemma_u16_bytes(v: u16, b: Seq<u8>)
    ensures
        u16_bytes(v).len() == 2,
        be_u16(u16_bytes(v)) == v,
        b.len() >= 2 ==> u16_bytes(be_u16(b)) == b.take(2),
{
    reveal(be_u16);
    reveal(u16_bytes);
    if b.len() >= 2 {
        assert(u16_bytes(be_u16(b)) =~= b.take(2));
    }
}

/// Reading back the bytes of a 32-bit value gives the value, and writing the
/// value that four bytes denote gives those bytes.
pub proof fn lemma_u32_bytes(v: u32, b: Seq<u8>)
    ensures
        u32_bytes(v).len() == 4,
        be_u32(u32_bytes(v)) == v,
        b.len() >= 4 ==> u32_bytes(be_u32(b)) == b.take(4),
{
    reveal(be_u32);
    reveal(u32_bytes);
    reveal(be_u16);
    reveal(u16_bytes);
    let hi = (v as int / 0x1_0000) as u16;
    let lo = (v as int % 0x1_0000) as u16;
    lemma_u16_bytes(hi, b);
    lemma_u16_bytes(lo, b);
    assert(u32_bytes(v).skip(2) =~= u16_bytes(lo));
    assert(be_u16(u32_bytes(v)) == be_u16(u16_bytes(hi)));
    if b.len() >= 4 {
        let x = be_u32(b);
        lemma_u16_bytes(0, b.skip(2));
        assert((x as int / 0x1_0000) as u16 == be_u16(b));
        assert((x as int % 0x1_0000) as u16 == be_u16(b.skip(2)));
        assert(b.take(2) + b.skip(2).take(2) =~= b.take(4));
    }
}

/// Reading back the bytes of a 64-bit value gives the value, and writing the
/// value that eight bytes denote gives those bytes.
pub proof fn lemma_u64_bytes(v: u64, b: Seq<u8>)
    ensures
        u64_bytes(v).len() == 8,
        be_u64(u64_bytes(v)) == v,
        b.len() >= 8 ==> u64_bytes(be_u64(b)) == b.take(8),
{
    reveal(be_u64);
    reveal(u64_bytes);
    reveal(be_u32);
    reveal(u32_bytes);
    reveal(be_u16);
    reveal(u16_bytes);
    let hi = (v as int / 0x1_0000_0000) as u32;
    let lo = (v as int % 0x1_0000_0000) as u32;
    lemma_u32_bytes(hi, b);
    lemma_u32_bytes(lo, b);
    assert(u64_bytes(v).skip(4) =~= u32_bytes(lo));
    assert(be_u32(u64_bytes(v)) == be_u32(u32_bytes(hi)));
    if b.len() >= 8 {
        let x = be_u64(b);
        lemma_u32_bytes(0, b);
        lemma_u32_bytes(0, b.skip(4));
        assert((x as int / 0x1_0000_0000) as u32 == be_u32(b));
        assert((x as int % 0x1_0000_0000) as u32 == be_u32(b.skip(4)));
        assert(b.take(4) + b.skip(4).take(4) =~= b.take(8));
    }
}

/// The two readings of a bit pattern are inverse to each other.
pub proof fn lemma_signed_unsigned(u: u32, i: i32, w: u64, l: i64)
    ensures
        unsigned32(signed32(u)) == u,
        signed32(unsigned32(i)) == i,
        unsigned64(signed64(w)) == w,
        signed64(unsigned64(l)) == l,
{
}

/// `byteorder::BigEndian::read_u16`: the number that the first two bytes of
/// `buf` denote, high byte first. It panics on a shorter slice.
#[verifier::external_body]
pub(crate) fn read_be_u16(buf: &[u8]) -> (r: u16)
    requires
        buf@.len() >= 2,
    ensures
        r == be_u16(buf@),
{
    BigEndian::read_u16(buf)
}

/// `byteorder::BigEndian::read_u32`: the number that the first four bytes of
/// `buf` denote, high byte first. It panics on a shorter slice.
#[verifier::external_body]
pub(crate) fn read_be_u32(buf: &[u8]) -> (r: u32)
    requires
        buf@.len() >= 4,
    ensures
        r == be_u32(buf@),
{
    BigEndian::read_u32(buf)
}

/// `byteorder::BigEndian::read_u64`: the number that the first eight bytes of
/// `buf` denote, high byte first. It panics on a shorter slice.
#[verifier::external_body]
pub(crate) fn read_be_u64(buf: &[u8]) -> (r: u64)
    requires
        buf@.len() >= 8,
    ensures
        r == be_u64(buf@),
{
    BigEndian::read_u64(buf)
}

/// `byteorder::BigEndian::read_i32`: the first four bytes of `buf` read as an
/// unsigned big-endian number and reinterpreted in two's complement. It panics
/// on a shorter slice.
#[verifier::external_body]
pub(crate) fn read_be_i32(buf: &[u8]) -> (r: i32)
    requires
        buf@.len() >= 4,
    ensures
        r == signed32(be_u32(buf@)),
{
    BigEndian::read_i32(buf)
}

/// `byteorder::BigEndian::read_i64`: the first eight bytes of `buf` read as an
/// unsigned big-endian number and reinterpreted in two's complement. It panics
/// on a shorter slice.
#[verifier::external_body]
pub(crate) fn read_be_i64(buf: &[u8]) -> (r: i64)
    requires
        buf@.len() >= 8,
    ensures
        r == signed64(be_u64(buf@)),
{
    BigEndian::read_i64(buf)
}

/// `byteorder::BigEndian::write_u16` into a fresh two-byte buffer: the bytes
/// of `n`, high byte first.
#[verifier::external_body]
pub(crate) fn write_be_u16(n: u16) -> (r: [u8; 2])
    ensures
        r@ == u16_bytes(n),
{
    let mut buf: [u8; 2] = [0; 2];
    BigEndian::write_u16(&mut buf, n);
    buf
}

/// `byteorder::BigEndian::write_u32` into a fresh four-byte buffer: the bytes
/// of `n`, high byte first.
#[verifier::external_body]
pub(crate) fn write_be_u32(n: u32) -> (r: [u8; 4])
    ensures
        r@ == u32_bytes(n),
{
    let mut buf: [u8; 4] = [0; 4];
    BigEndian::write_u32(&mut buf, n);
    buf
}

/// `byteorder::BigEndian::write_u64` into a fresh eight-byte buffer: the
/// bytes of `n`, high byte first.
#[verifier::external_body]
pub(crate) fn write_be_u64(n: u64) -> (r: [u8; 8])
    ensures
        r@ == u64_bytes(n),
{
    let mut buf: [u8; 8] = [0; 8];
    BigEndian::write_u64(&mut buf, n);
    buf
}

/// `byteorder::BigEndian::write_i32` into a fresh four-byte buffer: the bytes
/// of the two's-complement pattern of `n`, high byte first.
#[verifier::external_body]
pub(crate) fn write_be_i32(n: i32) -> (r: [u8; 4])
    ensures
        r@ == u32_bytes(unsigned32(n)),
{
    let mut buf: [u8; 4] = [0; 4];
    BigEndian::write_i32(&mut buf, n);
    buf
}

/// `byteorder::BigEndian::write_i64` into a fresh eight-byte buffer: the
/// bytes of the two's-complement pattern of `n`, high byte first.
#[verifier::external_body]
pub(crate) fn write_be_i64(n: i64) -> (r: [u8; 8])
    ensures
        r@ == u64_bytes(unsigned64(n)),
{
    let mut buf: [u8; 8] = [0; 8];
    BigEndian::write_i64(&mut buf, n);
    buf
}

} // verus!
