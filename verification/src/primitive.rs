//! The wire form of the fixed-width integers.

use crate::codec::{Decode, Encode};
use crate::cursor::{
    append_bytes, lemma_take_prefix, spec_i32, spec_i64, spec_u16, spec_u32, spec_u64, spec_u8,
    Cursor,
};
use crate::endian::{
    be_u32, be_u64, lemma_signed_unsigned, lemma_u16_bytes, lemma_u32_bytes, lemma_u64_bytes,
    u16_bytes, u32_bytes, u64_bytes, unsigned32, unsigned64, write_be_i32, write_be_i64,
    write_be_u16, write_be_u32, write_be_u64,
};
use crate::error::Error;
use vstd::prelude::*;

verus! {

/// Appends the byte `v` to `output`.
pub fn encode_u8(v: u8, output: &mut Vec<u8>)
    ensures
        final(output)@ == old(output)@ + seq![v],
{
    v.encode(output);
}

/// Appends the two bytes of `v` to `output`, high byte first.
pub fn encode_u16(v: u16, output: &mut Vec<u8>)
    ensures
        final(output)@ == old(output)@ + u16_bytes(v),
{
    v.encode(output);
}

/// Appends the four bytes of `v` to `output`, high byte first.
pub fn encode_u32(v: u32, output: &mut Vec<u8>)
    ensures
        final(output)@ == old(output)@ + u32_bytes(v),
{
    v.encode(output);
}

impl Encode for u8 {
    open spec fn encodable(v: u8) -> bool {
        true
    }

    open spec fn spec_encode(v: u8) -> Seq<u8> {
        seq![v]
    }

    fn is_encodable(&self) -> (r: bool) {
        true
    }

    fn encode(&self, output: &mut Vec<u8>) {
        output.push(*self);
        assert(output@ =~= old(output)@ + seq![*self]);
    }
}

impl Decode for u8 {
    open spec fn spec_decode(bytes: Seq<u8>, pos: int) -> Result<(u8, int), Error> {
        spec_u8(bytes, pos)
    }

    fn decode(input: &mut Cursor<'_>) -> (r: Result<Self, Error>) {
        input.read_u8()
    }

    proof fn lemma_round_trip(bytes: Seq<u8>, pos: int) {
        if pos + 1 <= bytes.len() {
            assert(seq![bytes[pos]] =~= bytes.subrange(pos, pos + 1));
        }
    }

    proof fn lemma_prefix(bytes: Seq<u8>, pos: int, m: int) {
        lemma_take_prefix(bytes, pos, 1, m);
    }
}

impl Encode for u16 {
    open spec fn encodable(v: u16) -> bool {
        true
    }

    open spec fn spec_encode(v: u16) -> Seq<u8> {
        u16_bytes(v)
    }

    fn is_encodable(&self) -> (r: bool) {
        true
    }

    fn encode(&self, output: &mut Vec<u8>) {
        let b: [u8; 2] = write_be_u16(*self);
        append_bytes(output, b.as_slice());
    }
}

impl Decode for u16 {
    open spec fn spec_decode(bytes: Seq<u8>, pos: int) -> Result<(u16, int), Error> {
        spec_u16(bytes, pos)
    }

    fn decode(input: &mut Cursor<'_>) -> (r: Result<Self, Error>) {
        input.read_u16()
    }

    proof fn lemma_round_trip(bytes: Seq<u8>, pos: int) {
        if pos + 2 <= bytes.len() {
            let s = bytes.subrange(pos, pos + 2);
            lemma_u16_bytes(0, s);
            assert(s.take(2) =~= s);
        }
    }

    proof fn lemma_prefix(bytes: Seq<u8>, pos: int, m: int) {
        lemma_take_prefix(bytes, pos, 2, m);
    }
}

impl Encode for u32 {
    open spec fn encodable(v: u32) -> bool {
        true
    }

    open spec fn spec_encode(v: u32) -> Seq<u8> {
        u32_bytes(v)
    }

    fn is_encodable(&self) -> (r: bool) {
        true
    }

    fn encode(&self, output: &mut Vec<u8>) {
        let b: [u8; 4] = write_be_u32(*self);
        append_bytes(output, b.as_slice());
    }
}

impl Decode for u32 {
    open spec fn spec_decode(bytes: Seq<u8>, pos: int) -> Result<(u32, int), Error> {
        spec_u32(bytes, pos)
    }

    fn decode(input: &mut Cursor<'_>) -> (r: Result<Self, Error>) {
        input.read_u32()
    }

    proof fn lemma_round_trip(bytes: Seq<u8>, pos: int) {
        if pos + 4 <= bytes.len() {
            let s = bytes.subrange(pos, pos + 4);
            lemma_u32_bytes(0, s);
            assert(s.take(4) =~= s);
        }
    }

    proof fn lemma_prefix(bytes: Seq<u8>, pos: int, m: int) {
        lemma_take_prefix(bytes, pos, 4, m);
    }
}

impl Encode for u64 {
    open spec fn encodable(v: u64) -> bool {
        true
    }

    open spec fn spec_encode(v: u64) -> Seq<u8> {
        u64_bytes(v)
    }

    fn is_encodable(&self) -> (r: bool) {
        true
    }

    fn encode(&self, output: &mut Vec<u8>) {
        let b: [u8; 8] = write_be_u64(*self);
        append_bytes(output, b.as_slice());
    }
}

impl Decode for u64 {
    open spec fn spec_decode(bytes: Seq<u8>, pos: int) -> Result<(u64, int), Error> {
        spec_u64(bytes, pos)
    }

    fn decode(input: &mut Cursor<'_>) -> (r: Result<Self, Error>) {
        input.read_u64()
    }

    proof fn lemma_round_trip(bytes: Seq<u8>, pos: int) {
        if pos + 8 <= bytes.len() {
            let s = bytes.subrange(pos, pos + 8);
            lemma_u64_bytes(0, s);
            assert(s.take(8) =~= s);
        }
    }

    proof fn lemma_prefix(bytes: Seq<u8>, pos: int, m: int) {
        lemma_take_prefix(bytes, pos, 8, m);
    }
}

impl Encode for i32 {
    open spec fn encodable(v: i32) -> bool {
        true
    }

    open spec fn spec_encode(v: i32) -> Seq<u8> {
        u32_bytes(unsigned32(v))
    }

    fn is_encodable(&self) -> (r: bool) {
        true
    }

    fn encode(&self, output: &mut Vec<u8>) {
        let b: [u8; 4] = write_be_i32(*self);
        append_bytes(output, b.as_slice());
    }
}

impl Decode for i32 {
    open spec fn spec_decode(bytes: Seq<u8>, pos: int) -> Result<(i32, int), Error> {
        spec_i32(bytes, pos)
    }

    fn decode(input: &mut Cursor<'_>) -> (r: Result<Self, Error>) {
        input.read_i32()
    }

    proof fn lemma_round_trip(bytes: Seq<u8>, pos: int) {
        if pos + 4 <= bytes.len() {
            let s = bytes.subrange(pos, pos + 4);
            lemma_u32_bytes(0, s);
            lemma_signed_unsigned(be_u32(s), 0, 0, 0);
            assert(s.take(4) =~= s);
        }
    }

    proof fn lemma_prefix(bytes: Seq<u8>, pos: int, m: int) {
        lemma_take_prefix(bytes, pos, 4, m);
    }
}

impl Encode for i64 {
    open spec fn encodable(v: i64) -> bool {
        true
    }

    open spec fn spec_encode(v: i64) -> Seq<u8> {
        u64_bytes(unsigned64(v))
    }

    fn is_encodable(&self) -> (r: bool) {
        true
    }

    fn encode(&self, output: &mut Vec<u8>) {
        let b: [u8; 8] = write_be_i64(*self);
        append_bytes(output, b.as_slice());
    }
}

impl Decode for i64 {
    open spec fn spec_decode(bytes: Seq<u8>, pos: int) -> Result<(i64, int), Error> {
        spec_i64(bytes, pos)
    }

    fn decode(input: &mut Cursor<'_>) -> (r: Result<Self, Error>) {
        input.read_i64()
    }

    proof fn lemma_round_trip(bytes: Seq<u8>, pos: int) {
        if pos + 8 <= bytes.len() {
            let s = bytes.subrange(pos, pos + 8);
            lemma_u64_bytes(0, s);
            lemma_signed_unsigned(0, 0, be_u64(s), 0);
            assert(s.take(8) =~= s);
        }
    }

    proof fn lemma_prefix(bytes: Seq<u8>, pos: int, m: int) {
        lemma_take_prefix(bytes, pos, 8, m);
    }
}

} // verus!
