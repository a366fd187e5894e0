//! Lookups in the constant pool by one-based index.

use crate::constant::{ConstantPoolInfo, ConstantView};
use crate::error::Error;
use crate::pool::well_laid_out;
use vstd::prelude::*;

verus! {

/// The failure of a lookup at `index`.
pub open spec fn out_of_range(index: u16) -> Error {
    Error::IndexOutOfRange { index }
}

/// The entry at the one-based `index`. Index 0, an index past the pool and
/// the reserved slot behind a wide entry address nothing.
pub open spec fn spec_resolve(pool: Seq<ConstantView>, index: u16) -> Result<ConstantView, Error> {
    if 1 <= index <= pool.len() && !(pool[index - 1] is Reserved) {
        Ok(pool[index - 1])
    } else {
        Err(out_of_range(index))
    }
}

/// The text of the `Utf8` entry at `index`.
pub open spec fn spec_resolve_utf8(pool: Seq<ConstantView>, index: u16) -> Result<
    Seq<char>,
    Error,
> {
    match spec_resolve(pool, index) {
        Ok(ConstantView::Utf8(text)) => Ok(text),
        _ => Err(out_of_range(index)),
    }
}

/// The name of the `Class` entry at `class_index`: the text of the `Utf8`
/// entry that its name index addresses. The failure names the index that
/// did not resolve.
pub open spec fn spec_resolve_class_name(pool: Seq<ConstantView>, class_index: u16) -> Result<
    Seq<char>,
    Error,
> {
    match spec_resolve(pool, class_index) {
        Ok(ConstantView::Class { name_index }) => spec_resolve_utf8(pool, name_index),
        _ => Err(out_of_range(class_index)),
    }
}

/// In a well-laid-out pool the slot behind a `Long` or a `Double` cannot be
/// addressed: the index of that slot resolves to nothing, whether the slot
/// is reserved or lies past the end of the pool.
pub proof fn lemma_slot_behind_wide_entry(pool: Seq<ConstantView>, index: u16)
    requires
        well_laid_out(pool),
        index < 0xffff,
        spec_resolve(pool, index) is Ok,
        spec_resolve(pool, index)->Ok_0.is_wide(),
    ensures
        spec_resolve(pool, (index + 1) as u16) == Err::<ConstantView, Error>(
            out_of_range((index + 1) as u16),
        ),
{
    assert(pool[index - 1].is_wide());
}

/// The entry at the one-based `index`.
pub fn resolve<'a>(pool: &'a Vec<ConstantPoolInfo>, index: u16) -> (r: Result<
    &'a ConstantPoolInfo,
    Error,
>)
    ensures
        match spec_resolve(pool.deep_view(), index) {
            Ok(v) => r is Ok && r->Ok_0.deep_view() == v && 1 <= index <= pool@.len()
                && *r->Ok_0 == pool@[index - 1],
            Err(e) => r is Err && r->Err_0 == e,
        },
{
    if index == 0 || index as usize > pool.len() {
        return Err(Error::IndexOutOfRange { index });
    }
    let entry = &pool[(index - 1) as usize];
    match entry {
        ConstantPoolInfo::Reserved => Err(Error::IndexOutOfRange { index }),
        _ => Ok(entry),
    }
}

/// The text of the `Utf8` entry at `index`.
pub fn resolve_utf8<'a>(pool: &'a Vec<ConstantPoolInfo>, index: u16) -> (r: Result<&'a str, Error>)
    ensures
        match spec_resolve_utf8(pool.deep_view(), index) {
            Ok(text) => r is Ok && r->Ok_0@ == text,
            Err(e) => r is Err && r->Err_0 == e,
        },
{
    match resolve(pool, index) {
        Ok(ConstantPoolInfo::Utf8(text)) => Ok(text.as_str()),
        _ => Err(Error::IndexOutOfRange { index }),
    }
}

/// The name of the class that the `Class` entry at `class_index` names.
pub fn resolve_class_name<'a>(pool: &'a Vec<ConstantPoolInfo>, class_index: u16) -> (r: Result<
    &'a str,
    Error,
>)
    ensures
        match spec_resolve_class_name(pool.deep_view(), class_index) {
            Ok(text) => r is Ok && r->Ok_0@ == text,
            Err(e) => r is Err && r->Err_0 == e,
        },
{
    match resolve(pool, class_index) {
        Ok(ConstantPoolInfo::Class { name_index }) => resolve_utf8(pool, *name_index),
        _ => Err(Error::IndexOutOfRange { index: class_index }),
    }
}

} // verus!
