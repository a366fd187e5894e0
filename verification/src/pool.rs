//! The constant pool as a whole: its slots and their layout.

use crate::codec::{
    all_encodable, is_truncated, lemma_encode_seq_concat, lemma_encode_seq_single,
    spec_encode_seq, Decode, Encode,
};
use crate::constant::{
    lemma_constant_prefix, lemma_constant_round_trip, spec_decode_constant, ConstantPoolInfo,
    ConstantView,
};
use crate::cursor::{spec_u16, Cursor};
use crate::error::Error;
use vstd::prelude::*;

verus! {

/// The number of slots that a count field announces. The field holds one
/// more than the number of slots, in 16-bit arithmetic.
pub open spec fn pool_slots(count: u16) -> nat {
    if count == 0 {
        0xffff
    } else {
        (count - 1) as nat
    }
}

/// The count field of a pool of `slots` slots.
pub open spec fn pool_count(slots: nat) -> u16 {
    if slots >= 0xffff {
        0
    } else {
        (slots + 1) as u16
    }
}

/// The slots that a decoded entry fills when `slots` are left: a wide entry
/// is followed by a reserved slot, unless it fills the last slot.
pub open spec fn slot_run(v: ConstantView, slots: nat) -> Seq<ConstantView> {
    if v.is_wide() && slots >= 2 {
        seq![v, ConstantView::Reserved]
    } else {
        seq![v]
    }
}

/// What the bytes from `pos` on denote as a pool of `slots` slots.
pub open spec fn spec_decode_pool(bytes: Seq<u8>, pos: int, slots: nat) -> Result<
    (Seq<ConstantView>, int),
    Error,
>
    decreases slots,
{
    if slots == 0 {
        Ok((Seq::empty(), pos))
    } else {
        match spec_decode_constant(bytes, pos) {
            Err(e) => Err(e),
            Ok((v, mid)) => {
                let run = slot_run(v, slots);
                match spec_decode_pool(bytes, mid, (slots - run.len()) as nat) {
                    Err(e) => Err(e),
                    Ok((rest, end)) => Ok((run + rest, end)),
                }
            },
        }
    }
}

/// What the bytes from `pos` on denote as a count field and the pool that
/// it announces.
pub open spec fn spec_decode_constant_pool(bytes: Seq<u8>, pos: int) -> Result<
    (Seq<ConstantView>, int),
    Error,
> {
    match spec_u16(bytes, pos) {
        Err(e) => Err(e),
        Ok((count, mid)) => spec_decode_pool(bytes, mid, pool_slots(count)),
    }
}

/// The layout of a pool: the slot behind a wide entry is reserved, and a
/// reserved slot stands nowhere else.
pub open spec fn well_laid_out(pool: Seq<ConstantView>) -> bool {
    forall|i: int|
        0 <= i < pool.len() ==> {
            &&& (#[trigger] pool[i]).is_wide() && i + 1 < pool.len() ==> pool[i + 1] is Reserved
            &&& pool[i] is Reserved ==> i > 0 && pool[i - 1].is_wide()
        }
}

/// The outcome `r` with the slots `done` put before its pool.
pub open spec fn after_slots(done: Seq<ConstantView>, r: Result<(Seq<ConstantView>, int), Error>)
    -> Result<(Seq<ConstantView>, int), Error> {
    match r {
        Ok((rest, end)) => Ok((done + rest, end)),
        Err(e) => Err(e),
    }
}

/// A decoded pool has the announced number of slots and is well laid out.
pub proof fn lemma_pool_layout(bytes: Seq<u8>, pos: int, slots: nat)
    requires
        0 <= pos <= bytes.len(),
    ensures
        match spec_decode_pool(bytes, pos, slots) {
            Ok((pool, end)) => pos <= end <= bytes.len() && pool.len() == slots && well_laid_out(
                pool,
            ),
            Err(_) => true,
        },
    decreases slots,
{
    if slots > 0 {
        lemma_constant_round_trip(bytes, pos);
        if let Ok((v, mid)) = spec_decode_constant(bytes, pos) {
            let run = slot_run(v, slots);
            lemma_pool_layout(bytes, mid, (slots - run.len()) as nat);
            if let Ok((rest, end)) = spec_decode_pool(bytes, mid, (slots - run.len()) as nat) {
                let pool = run + rest;
                assert forall|i: int| 0 <= i < pool.len() implies {
                    &&& (#[trigger] pool[i]).is_wide() && i + 1 < pool.len() ==> pool[i
                        + 1] is Reserved
                    &&& pool[i] is Reserved ==> i > 0 && pool[i - 1].is_wide()
                } by {
                    if i >= run.len() {
                        let j = i - run.len();
                        assert(pool[i] == rest[j]);
                        if j + 1 < rest.len() {
                            assert(pool[i + 1] == rest[j + 1]);
                        }
                        if j > 0 {
                            assert(pool[i - 1] == rest[j - 1]);
                        }
                    }
                }
            }
        }
    }
}

/// The failure of an entry is the failure of the pool: of its first entry,
/// and of every entry behind entries that decoded. So an undefined tag
/// anywhere among the entries fails the whole pool.
pub proof fn lemma_entry_failure_is_fatal(bytes: Seq<u8>, pos: int, slots: nat)
    requires
        slots > 0,
    ensures
        match spec_decode_constant(bytes, pos) {
            Err(e) => spec_decode_pool(bytes, pos, slots) == Err::<(Seq<ConstantView>, int), Error>(
                e,
            ),
            Ok((v, mid)) => match spec_decode_pool(
                bytes,
                mid,
                (slots - slot_run(v, slots).len()) as nat,
            ) {
                Err(e) => spec_decode_pool(bytes, pos, slots) == Err::<
                    (Seq<ConstantView>, int),
                    Error,
                >(e),
                Ok(_) => spec_decode_pool(bytes, pos, slots) is Ok,
            },
        },
{
}

/// The slots that an entry fills have the bytes of the entry.
pub proof fn lemma_slot_run_bytes(v: ConstantView, slots: nat)
    ensures
        spec_encode_seq::<ConstantPoolInfo>(slot_run(v, slots)) == ConstantPoolInfo::spec_encode(
            v,
        ),
{
    lemma_encode_seq_single::<ConstantPoolInfo>(v);
    if v.is_wide() && slots >= 2 {
        let reserved = ConstantView::Reserved;
        lemma_encode_seq_single::<ConstantPoolInfo>(reserved);
        lemma_encode_seq_concat::<ConstantPoolInfo>(seq![v], seq![reserved]);
        assert(seq![v] + seq![reserved] =~= seq![v, reserved]);
        assert(ConstantPoolInfo::spec_encode(v) + ConstantPoolInfo::spec_encode(reserved)
            =~= ConstantPoolInfo::spec_encode(v));
    }
}

/// Encoding the slots of a decoded pool one after the other gives back the
/// bytes the pool was decoded from.
pub proof fn lemma_pool_round_trip(bytes: Seq<u8>, pos: int, slots: nat)
    requires
        0 <= pos <= bytes.len(),
    ensures
        match spec_decode_pool(bytes, pos, slots) {
            Ok((pool, end)) => pos <= end <= bytes.len() && all_encodable::<ConstantPoolInfo>(
                pool,
            ) && spec_encode_seq::<ConstantPoolInfo>(pool) == bytes.subrange(pos, end),
            Err(_) => true,
        },
    decreases slots,
{
    if slots == 0 {
        assert(bytes.subrange(pos, pos) =~= Seq::<u8>::empty());
    } else {
        lemma_constant_round_trip(bytes, pos);
        if let Ok((v, mid)) = spec_decode_constant(bytes, pos) {
            let run = slot_run(v, slots);
            lemma_pool_round_trip(bytes, mid, (slots - run.len()) as nat);
            if let Ok((rest, end)) = spec_decode_pool(bytes, mid, (slots - run.len()) as nat) {
                lemma_encode_seq_concat::<ConstantPoolInfo>(run, rest);
                lemma_slot_run_bytes(v, slots);
                assert(bytes.subrange(pos, mid) + bytes.subrange(mid, end) =~= bytes.subrange(
                    pos,
                    end,
                ));
                let pool = run + rest;
                assert forall|i: int| 0 <= i < pool.len() implies ConstantPoolInfo::encodable(
                    #[trigger] pool[i],
                ) by {
                    if i >= run.len() {
                        assert(pool[i] == rest[i - run.len()]);
                    }
                }
            }
        }
    }
}

/// A pool that decodes from `bytes` decodes alike from every prefix that
/// still holds it; a shorter prefix is reported as truncated.
pub proof fn lemma_pool_prefix(bytes: Seq<u8>, pos: int, slots: nat, m: int)
    requires
        0 <= pos <= m <= bytes.len(),
    ensures
        match spec_decode_pool(bytes, pos, slots) {
            Ok((pool, end)) => if end <= m {
                spec_decode_pool(bytes.take(m), pos, slots) == Ok::<
                    (Seq<ConstantView>, int),
                    Error,
                >((pool, end))
            } else {
                is_truncated(spec_decode_pool(bytes.take(m), pos, slots))
            },
            Err(_) => true,
        },
    decreases slots,
{
    if slots > 0 {
        lemma_constant_prefix(bytes, pos, m);
        lemma_constant_round_trip(bytes, pos);
        if let Ok((v, mid)) = spec_decode_constant(bytes, pos) {
            let run = slot_run(v, slots);
            lemma_pool_layout(bytes, mid, (slots - run.len()) as nat);
            if mid <= m {
                lemma_pool_prefix(bytes, mid, (slots - run.len()) as nat, m);
            }
        }
    }
}

/// Reads a pool of `slots` slots.
pub fn decode_pool(input: &mut Cursor<'_>, slots: usize) -> (r: Result<
    Vec<ConstantPoolInfo>,
    Error,
>)
    ensures
        final(input).data@ == old(input).data@,
        match spec_decode_pool(old(input).data@, old(input).pos as int, slots as nat) {
            Ok((pool, end)) => r is Ok && r->Ok_0.deep_view() == pool && final(input).pos == end
                && pool.len() == slots && well_laid_out(pool),
            Err(e) => r is Err && r->Err_0 == e,
        },
{
    let ghost bytes = input.data@;
    let ghost start = input.pos as int;
    let mut pool: Vec<ConstantPoolInfo> = Vec::new();
    let mut i: usize = 0;
    proof {
        assert(pool.deep_view() =~= Seq::<ConstantView>::empty());
        if let Ok((rest, end)) = spec_decode_pool(bytes, start, slots as nat) {
            assert(Seq::<ConstantView>::empty() + rest =~= rest);
        }
    }
    while i < slots
        invariant
            i <= slots,
            input.data@ == bytes,
            bytes == old(input).data@,
            start == old(input).pos as int,
            spec_decode_pool(bytes, start, slots as nat) == after_slots(
                pool.deep_view(),
                spec_decode_pool(bytes, input.pos as int, (slots - i) as nat),
            ),
        decreases slots - i,
    {
        let ghost before = pool.deep_view();
        let ghost left = (slots - i) as nat;
        let entry = ConstantPoolInfo::decode(input)?;
        let ghost v = entry.deep_view();
        let wide = entry.is_wide();
        pool.push(entry);
        if wide && slots - i >= 2 {
            pool.push(ConstantPoolInfo::Reserved);
            i = i + 2;
        } else {
            i = i + 1;
        }
        proof {
            let run = slot_run(v, left);
            assert(pool.deep_view() =~= before + run);
            if let Ok((rest, end)) = spec_decode_pool(
                bytes,
                input.pos as int,
                (left - run.len()) as nat,
            ) {
                assert(before + (run + rest) =~= (before + run) + rest);
            }
        }
    }
    proof {
        assert(pool.deep_view() + Seq::<ConstantView>::empty() =~= pool.deep_view());
        if start <= bytes.len() {
            lemma_pool_layout(bytes, start, slots as nat);
        }
    }
    Ok(pool)
}

/// Reads the count field at the cursor and the pool that it announces.
pub fn decode_constant_pool(input: &mut Cursor<'_>) -> (r: Result<Vec<ConstantPoolInfo>, Error>)
    ensures
        final(input).data@ == old(input).data@,
        match spec_decode_constant_pool(old(input).data@, old(input).pos as int) {
            Ok((pool, end)) => r is Ok && r->Ok_0.deep_view() == pool && final(input).pos == end
                && well_laid_out(pool),
            Err(e) => r is Err && r->Err_0 == e,
        },
{
    let count: u16 = input.read_u16()?;
    let slots: usize = if count == 0 {
        0xffff
    } else {
        (count - 1) as usize
    };
    decode_pool(input, slots)
}

} // verus!
