//! The two directions of the wire format, and sequences of encoded records.

use crate::cursor::{lemma_take_prefix, spec_u16, Cursor};
use crate::endian::u16_bytes;
use crate::error::Error;
use crate::primitive::encode_u16;
use vstd::prelude::*;

verus! {

/// A value that has a wire form.
pub trait Encode: DeepView {
    /// Whether the value fits the widths of the format's count fields.
    spec fn encodable(v: Self::V) -> bool;

    /// The bytes of the value.
    spec fn spec_encode(v: Self::V) -> Seq<u8>;

    /// Whether the value fits the widths of the format's count fields.
    fn is_encodable(&self) -> (r: bool)
        ensures
            r == Self::encodable(self.deep_view()),
    ;

    /// Appends the bytes of the value to `output`.
    fn encode(&self, output: &mut Vec<u8>)
        requires
            Self::encodable(self.deep_view()),
        ensures
            final(output)@ == old(output)@ + Self::spec_encode(self.deep_view()),
    ;
}

/// A value that can be read from its wire form.
pub trait Decode: Sized + Encode {
    /// What the bytes from `pos` on denote: a value and the offset behind it,
    /// or the failure that decoding reports.
    spec fn spec_decode(bytes: Seq<u8>, pos: int) -> Result<(Self::V, int), Error>;

    /// Reads one value at the cursor and advances past it.
    fn decode(input: &mut Cursor<'_>) -> (r: Result<Self, Error>)
        ensures
            final(input).data@ == old(input).data@,
            decode_agrees(
                r,
                final(input).pos as int,
                Self::spec_decode(old(input).data@, old(input).pos as int),
            ),
    ;

    /// Encoding a decoded value gives back the bytes it was decoded from.
    proof fn lemma_round_trip(bytes: Seq<u8>, pos: int)
        requires
            0 <= pos <= bytes.len(),
        ensures
            match Self::spec_decode(bytes, pos) {
                Ok((v, end)) => pos <= end <= bytes.len() && Self::encodable(v)
                    && Self::spec_encode(v) == bytes.subrange(pos, end),
                Err(_) => true,
            },
    ;

    /// A value that decodes from `bytes` decodes alike from every prefix of
    /// `bytes` that still holds it; a shorter prefix is reported as truncated.
    proof fn lemma_prefix(bytes: Seq<u8>, pos: int, m: int)
        requires
            0 <= pos <= m <= bytes.len(),
        ensures
            match Self::spec_decode(bytes, pos) {
                Ok((v, end)) => if end <= m {
                    Self::spec_decode(bytes.take(m), pos) == Ok::<(Self::V, int), Error>((v, end))
                } else {
                    is_truncated(Self::spec_decode(bytes.take(m), pos))
                },
                Err(_) => true,
            },
    ;
}

/// Whether an outcome is the failure `Truncated`.
pub open spec fn is_truncated<V>(r: Result<(V, int), Error>) -> bool {
    r is Err && r->Err_0 is Truncated
}

/// How the outcome `r` of a decode that left the cursor at `after` agrees
/// with the outcome `expected` that the format prescribes.
pub open spec fn decode_agrees<T: DeepView>(
    r: Result<T, Error>,
    after: int,
    expected: Result<(T::V, int), Error>,
) -> bool {
    match expected {
        Ok((v, end)) => r is Ok && r->Ok_0.deep_view() == v && after == end,
        Err(e) => r is Err && r->Err_0 == e,
    }
}

/// What `count` consecutive records from `pos` on denote.
pub open spec fn spec_decode_seq<T: Decode>(bytes: Seq<u8>, pos: int, count: nat) -> Result<
    (Seq<T::V>, int),
    Error,
>
    decreases count,
{
    if count == 0 {
        Ok((Seq::empty(), pos))
    } else {
        match spec_decode_seq::<T>(bytes, pos, (count - 1) as nat) {
            Err(e) => Err(e),
            Ok((items, mid)) => match T::spec_decode(bytes, mid) {
                Err(e) => Err(e),
                Ok((v, end)) => Ok((items.push(v), end)),
            },
        }
    }
}

/// The bytes of consecutive records.
pub open spec fn spec_encode_seq<T: Encode>(items: Seq<T::V>) -> Seq<u8>
    decreases items.len(),
{
    if items.len() == 0 {
        Seq::empty()
    } else {
        spec_encode_seq::<T>(items.drop_last()) + T::spec_encode(items.last())
    }
}

/// Whether every record of a sequence has a wire form.
pub open spec fn all_encodable<T: Encode>(items: Seq<T::V>) -> bool {
    forall|i: int| 0 <= i < items.len() ==> T::encodable(#[trigger] items[i])
}

/// A failure among the first `i` records is the failure of every longer run.
pub proof fn lemma_seq_failure<T: Decode>(bytes: Seq<u8>, pos: int, i: nat, count: nat)
    requires
        i <= count,
        spec_decode_seq::<T>(bytes, pos, i) is Err,
    ensures
        spec_decode_seq::<T>(bytes, pos, count) == spec_decode_seq::<T>(bytes, pos, i),
    decreases count,
{
    if i < count {
        lemma_seq_failure::<T>(bytes, pos, i, (count - 1) as nat);
    }
}

/// A decoded run has as many records as were asked for, and encoding them
/// one after the other gives back the bytes they were decoded from.
pub proof fn lemma_seq_round_trip<T: Decode>(bytes: Seq<u8>, pos: int, count: nat)
    requires
        0 <= pos <= bytes.len(),
    ensures
        match spec_decode_seq::<T>(bytes, pos, count) {
            Ok((items, end)) => pos <= end <= bytes.len() && items.len() == count
                && all_encodable::<T>(items) && spec_encode_seq::<T>(items) == bytes.subrange(
                pos,
                end,
            ),
            Err(_) => true,
        },
    decreases count,
{
    if count == 0 {
        assert(bytes.subrange(pos, pos) =~= Seq::<u8>::empty());
    } else {
        lemma_seq_round_trip::<T>(bytes, pos, (count - 1) as nat);
        match spec_decode_seq::<T>(bytes, pos, (count - 1) as nat) {
            Err(_) => {},
            Ok((items, mid)) => {
                T::lemma_round_trip(bytes, mid);
                match T::spec_decode(bytes, mid) {
                    Err(_) => {},
                    Ok((v, end)) => {
                        assert(items.push(v).drop_last() =~= items);
                        assert(bytes.subrange(pos, mid) + bytes.subrange(mid, end)
                            =~= bytes.subrange(pos, end));
                    },
                }
            },
        }
    }
}

/// A run that decodes from `bytes` decodes alike from every prefix of `bytes`
/// that still holds it; a shorter prefix is reported as truncated.
pub proof fn lemma_seq_prefix<T: Decode>(bytes: Seq<u8>, pos: int, count: nat, m: int)
    requires
        0 <= pos <= m <= bytes.len(),
    ensures
        match spec_decode_seq::<T>(bytes, pos, count) {
            Ok((items, end)) => pos <= end && if end <= m {
                spec_decode_seq::<T>(bytes.take(m), pos, count) == Ok::<(Seq<T::V>, int), Error>(
                    (items, end),
                )
            } else {
                is_truncated(spec_decode_seq::<T>(bytes.take(m), pos, count))
            },
            Err(_) => true,
        },
    decreases count,
{
    if count > 0 {
        lemma_seq_prefix::<T>(bytes, pos, (count - 1) as nat, m);
        lemma_seq_round_trip::<T>(bytes, pos, (count - 1) as nat);
        match spec_decode_seq::<T>(bytes, pos, (count - 1) as nat) {
            Err(_) => {},
            Ok((items, mid)) => {
                T::lemma_round_trip(bytes, mid);
                if mid <= m {
                    T::lemma_prefix(bytes, mid, m);
                }
            },
        }
    }
}

/// Reads `count` consecutive records.
pub fn decode_seq<T: Decode>(input: &mut Cursor<'_>, count: usize) -> (r: Result<Vec<T>, Error>)
    ensures
        final(input).data@ == old(input).data@,
        decode_agrees(
            r,
            final(input).pos as int,
            spec_decode_seq::<T>(old(input).data@, old(input).pos as int, count as nat),
        ),
{
    let ghost bytes = input.data@;
    let ghost start = input.pos as int;
    let mut items: Vec<T> = Vec::new();
    let mut i: usize = 0;
    assert(items.deep_view() =~= Seq::<T::V>::empty());
    while i < count
        invariant
            i <= count,
            input.data@ == bytes,
            bytes == old(input).data@,
            start == old(input).pos as int,
            spec_decode_seq::<T>(bytes, start, i as nat) == Ok::<(Seq<T::V>, int), Error>(
                (items.deep_view(), input.pos as int),
            ),
        decreases count - i,
    {
        let ghost before = items.deep_view();
        match T::decode(input) {
            Ok(v) => {
                items.push(v);
                assert(items.deep_view() =~= before.push(v.deep_view()));
            },
            Err(e) => {
                proof {
                    lemma_seq_failure::<T>(bytes, start, (i + 1) as nat, count as nat);
                }
                return Err(e);
            },
        }
        i = i + 1;
    }
    Ok(items)
}

/// Appends the bytes of consecutive records to `output`.
pub fn encode_seq<T: Encode>(items: &Vec<T>, output: &mut Vec<u8>)
    requires
        all_encodable::<T>(items.deep_view()),
    ensures
        final(output)@ == old(output)@ + spec_encode_seq::<T>(items.deep_view()),
{
    let ghost all = items.deep_view();
    let ghost base = output@;
    let mut i: usize = 0;
    assert(all.take(0) =~= Seq::<T::V>::empty());
    while i < items.len()
        invariant
            i <= items.len(),
            all == items.deep_view(),
            all_encodable::<T>(all),
            output@ == base + spec_encode_seq::<T>(all.take(i as int)),
        decreases items.len() - i,
    {
        assert(all[i as int] == items[i as int].deep_view());
        items[i].encode(output);
        proof {
            let next = all.take(i + 1);
            assert(next.drop_last() =~= all.take(i as int));
            assert(next.last() == all[i as int]);
            assert(output@ =~= base + spec_encode_seq::<T>(next));
        }
        i = i + 1;
    }
    assert(all.take(items.len() as int) =~= all);
}

/// The bytes of a run of one record are the bytes of that record.
pub proof fn lemma_encode_seq_single<T: Encode>(v: T::V)
    ensures
        spec_encode_seq::<T>(seq![v]) == T::spec_encode(v),
{
    let none = Seq::<T::V>::empty();
    assert(spec_encode_seq::<T>(none) =~= Seq::<u8>::empty());
    assert(seq![v].drop_last() =~= none);
    assert(seq![v].last() == v);
    assert(spec_encode_seq::<T>(seq![v]) =~= T::spec_encode(v));
}

/// Encoding two runs one after the other encodes their concatenation.
pub proof fn lemma_encode_seq_concat<T: Encode>(a: Seq<T::V>, b: Seq<T::V>)
    ensures
        spec_encode_seq::<T>(a + b) == spec_encode_seq::<T>(a) + spec_encode_seq::<T>(b),
    decreases b.len(),
{
    if b.len() == 0 {
        assert(a + b =~= a);
        assert(spec_encode_seq::<T>(a) + spec_encode_seq::<T>(b) =~= spec_encode_seq::<T>(a));
    } else {
        lemma_encode_seq_concat::<T>(a, b.drop_last());
        assert((a + b).drop_last() =~= a + b.drop_last());
        assert((a + b).last() == b.last());
        assert(spec_encode_seq::<T>(a + b) =~= spec_encode_seq::<T>(a) + spec_encode_seq::<T>(b));
    }
}

/// What a 16-bit count at `pos` and that many records behind it denote.
pub open spec fn spec_decode_counted<T: Decode>(bytes: Seq<u8>, pos: int) -> Result<
    (Seq<T::V>, int),
    Error,
> {
    match spec_u16(bytes, pos) {
        Err(e) => Err(e),
        Ok((count, mid)) => spec_decode_seq::<T>(bytes, mid, count as nat),
    }
}

/// Whether a run can be written behind a 16-bit count.
pub open spec fn counted_encodable<T: Encode>(items: Seq<T::V>) -> bool {
    items.len() <= 0xffff && all_encodable::<T>(items)
}

/// The bytes of a 16-bit count and the records it counts.
pub open spec fn spec_encode_counted<T: Encode>(items: Seq<T::V>) -> Seq<u8> {
    u16_bytes(items.len() as u16) + spec_encode_seq::<T>(items)
}

/// Encoding a decoded counted run gives back the bytes it was decoded from.
pub proof fn lemma_counted_round_trip<T: Decode>(bytes: Seq<u8>, pos: int)
    requires
        0 <= pos <= bytes.len(),
    ensures
        match spec_decode_counted::<T>(bytes, pos) {
            Ok((items, end)) => pos <= end <= bytes.len() && counted_encodable::<T>(items)
                && spec_encode_counted::<T>(items) == bytes.subrange(pos, end),
            Err(_) => true,
        },
{
    u16::lemma_round_trip(bytes, pos);
    match spec_u16(bytes, pos) {
        Err(_) => {},
        Ok((count, mid)) => {
            lemma_seq_round_trip::<T>(bytes, mid, count as nat);
            match spec_decode_seq::<T>(bytes, mid, count as nat) {
                Err(_) => {},
                Ok((items, end)) => {
                    assert(bytes.subrange(pos, mid) + bytes.subrange(mid, end) =~= bytes.subrange(
                        pos,
                        end,
                    ));
                },
            }
        },
    }
}

/// A counted run that decodes from `bytes` decodes alike from every prefix
/// that still holds it; a shorter prefix is reported as truncated.
pub proof fn lemma_counted_prefix<T: Decode>(bytes: Seq<u8>, pos: int, m: int)
    requires
        0 <= pos <= m <= bytes.len(),
    ensures
        match spec_decode_counted::<T>(bytes, pos) {
            Ok((items, end)) => if end <= m {
                spec_decode_counted::<T>(bytes.take(m), pos) == Ok::<(Seq<T::V>, int), Error>(
                    (items, end),
                )
            } else {
                is_truncated(spec_decode_counted::<T>(bytes.take(m), pos))
            },
            Err(_) => true,
        },
{
    lemma_take_prefix(bytes, pos, 2, m);
    match spec_u16(bytes, pos) {
        Err(_) => {},
        Ok((count, mid)) => {
            if mid <= m {
                lemma_seq_prefix::<T>(bytes, mid, count as nat, m);
            } else {
                lemma_seq_round_trip::<T>(bytes, mid, count as nat);
            }
        },
    }
}

/// Whether every record of a run has a wire form.
pub fn all_are_encodable<T: Encode>(items: &Vec<T>) -> (r: bool)
    ensures
        r == all_encodable::<T>(items.deep_view()),
{
    let ghost all = items.deep_view();
    let mut i: usize = 0;
    while i < items.len()
        invariant
            i <= items.len(),
            all == items.deep_view(),
            forall|j: int| 0 <= j < i ==> T::encodable(#[trigger] all[j]),
        decreases items.len() - i,
    {
        assert(all[i as int] == items[i as int].deep_view());
        if !items[i].is_encodable() {
            return false;
        }
        i = i + 1;
    }
    true
}

/// Whether a run can be written behind a 16-bit count.
pub fn counted_is_encodable<T: Encode>(items: &Vec<T>) -> (r: bool)
    ensures
        r == counted_encodable::<T>(items.deep_view()),
{
    items.len() <= 0xffff && all_are_encodable::<T>(items)
}

/// Reads a 16-bit count and that many records.
pub fn decode_counted<T: Decode>(input: &mut Cursor<'_>) -> (r: Result<Vec<T>, Error>)
    ensures
        final(input).data@ == old(input).data@,
        decode_agrees(
            r,
            final(input).pos as int,
            spec_decode_counted::<T>(old(input).data@, old(input).pos as int),
        ),
{
    let count: u16 = match input.read_u16() {
        Ok(c) => c,
        Err(e) => { return Err(e); },
    };
    decode_seq::<T>(input, count as usize)
}

/// Appends a 16-bit count and the records it counts to `output`.
pub fn encode_counted<T: Encode>(items: &Vec<T>, output: &mut Vec<u8>)
    requires
        counted_encodable::<T>(items.deep_view()),
    ensures
        final(output)@ == old(output)@ + spec_encode_counted::<T>(items.deep_view()),
{
    let count: u16 = items.len() as u16;
    encode_u16(count, output);
    encode_seq::<T>(items, output);
    assert(output@ =~= old(output)@ + spec_encode_counted::<T>(items.deep_view()));
}

} // verus!
