//! The entries of the constant pool.

use crate::codec::{is_truncated, Decode, Encode};
use crate::cursor::{
    append_bytes, lemma_take_prefix, spec_i32, spec_i64, spec_take, spec_u16, spec_u32, spec_u64,
    spec_u8, Cursor,
};
use crate::endian::{u16_bytes, u32_bytes, u64_bytes, unsigned32, unsigned64};
use crate::error::Error;
use crate::primitive::{encode_u16, encode_u8};
use vstd::prelude::*;
use vstd::slice::slice_to_vec;
use vstd::utf8::{decode_utf8, decode_utf8_encode_utf8, encode_utf8, valid_utf8};

verus! {

/// One slot of the constant pool. Index fields are one-based pool indices.
/// `Float` and `Double` hold the IEEE-754 bit pattern of the constant.
/// `Reserved` is the slot behind a `Long` or a `Double`, which the format
/// leaves unused; no entry is ever decoded into it.
#[derive(Debug, Clone, PartialEq, Eq)]
pub enum ConstantPoolInfo {
    Utf8(String),
    Integer(i32),
    Float(u32),
    Long(i64),
    Double(u64),
    Class { name_index: u16 },
    String { string_index: u16 },
    Fieldref { class_index: u16, name_and_type_index: u16 },
    Methodref { class_index: u16, name_and_type_index: u16 },
    InterfaceMethodref { class_index: u16, name_and_type_index: u16 },
    NameAndType { name_index: u16, descriptor_index: u16 },
    MethodHandle { reference_kind: u8, reference_index: u16 },
    MethodType { descriptor_index: u16 },
    Dynamic { bootstrap_method_attr_index: u16, name_and_type_index: u16 },
    InvokeDynamic { bootstrap_method_attr_index: u16, name_and_type_index: u16 },
    Module { name_index: u16 },
    Package { name_index: u16 },
    Reserved,
}

/// The content of a [`ConstantPoolInfo`].
pub enum ConstantView {
    Utf8(Seq<char>),
    Integer(i32),
    Float(u32),
    Long(i64),
    Double(u64),
    Class { name_index: u16 },
    String { string_index: u16 },
    Fieldref { class_index: u16, name_and_type_index: u16 },
    Methodref { class_index: u16, name_and_type_index: u16 },
    InterfaceMethodref { class_index: u16, name_and_type_index: u16 },
    NameAndType { name_index: u16, descriptor_index: u16 },
    MethodHandle { reference_kind: u8, reference_index: u16 },
    MethodType { descriptor_index: u16 },
    Dynamic { bootstrap_method_attr_index: u16, name_and_type_index: u16 },
    InvokeDynamic { bootstrap_method_attr_index: u16, name_and_type_index: u16 },
    Module { name_index: u16 },
    Package { name_index: u16 },
    Reserved,
}

impl ConstantView {
    /// Whether the entry takes two slots of the pool.
    pub open spec fn is_wide(self) -> bool {
        self is Long || self is Double
    }
}

impl DeepView for ConstantPoolInfo {
    type V = ConstantView;

    open spec fn deep_view(&self) -> ConstantView {
        match *self {
            ConstantPoolInfo::Utf8(s) => ConstantView::Utf8(s@),
            ConstantPoolInfo::Integer(v) => ConstantView::Integer(v),
            ConstantPoolInfo::Float(v) => ConstantView::Float(v),
            ConstantPoolInfo::Long(v) => ConstantView::Long(v),
            ConstantPoolInfo::Double(v) => ConstantView::Double(v),
            ConstantPoolInfo::Class { name_index } => ConstantView::Class { name_index },
            ConstantPoolInfo::String { string_index } => ConstantView::String { string_index },
            ConstantPoolInfo::Fieldref { class_index, name_and_type_index } => {
                ConstantView::Fieldref { class_index, name_and_type_index }
            },
            ConstantPoolInfo::Methodref { class_index, name_and_type_index } => {
                ConstantView::Methodref { class_index, name_and_type_index }
            },
            ConstantPoolInfo::InterfaceMethodref { class_index, name_and_type_index } => {
                ConstantView::InterfaceMethodref { class_index, name_and_type_index }
            },
            ConstantPoolInfo::NameAndType { name_index, descriptor_index } => {
                ConstantView::NameAndType { name_index, descriptor_index }
            },
            ConstantPoolInfo::MethodHandle { reference_kind, reference_index } => {
                ConstantView::MethodHandle { reference_kind, reference_index }
            },
            ConstantPoolInfo::MethodType { descriptor_index } => {
                ConstantView::MethodType { descriptor_index }
            },
            ConstantPoolInfo::Dynamic { bootstrap_method_attr_index, name_and_type_index } => {
                ConstantView::Dynamic { bootstrap_method_attr_index, name_and_type_index }
            },
            ConstantPoolInfo::InvokeDynamic {
                bootstrap_method_attr_index,
                name_and_type_index,
            } => ConstantView::InvokeDynamic { bootstrap_method_attr_index, name_and_type_index },
            ConstantPoolInfo::Module { name_index } => ConstantView::Module { name_index },
            ConstantPoolInfo::Package { name_index } => ConstantView::Package { name_index },
            ConstantPoolInfo::Reserved => ConstantView::Reserved,
        }
    }
}

impl ConstantPoolInfo {
    /// Whether the entry takes two slots of the pool.
    pub fn is_wide(&self) -> (r: bool)
        ensures
            r == self.deep_view().is_wide(),
    {
        match self {
            ConstantPoolInfo::Long(_) => true,
            ConstantPoolInfo::Double(_) => true,
            _ => false,
        }
    }
}

/// Whether the format defines an entry with this tag.
pub open spec fn tag_defined(tag: u8) -> bool {
    1 <= tag <= 20 && tag != 2 && tag != 13 && tag != 14
}

/// Whether an entry with this tag consists of one pool index.
pub open spec fn has_one_index(tag: u8) -> bool {
    tag == 7 || tag == 8 || tag == 16 || tag == 19 || tag == 20
}

/// Whether an entry with this tag consists of two pool indices.
pub open spec fn has_two_indices(tag: u8) -> bool {
    tag == 9 || tag == 10 || tag == 11 || tag == 12 || tag == 17 || tag == 18
}

/// The entry with a tag of one index.
pub open spec fn with_one_index(tag: u8, a: u16) -> ConstantView
    recommends
        has_one_index(tag),
{
    if tag == 7 {
        ConstantView::Class { name_index: a }
    } else if tag == 8 {
        ConstantView::String { string_index: a }
    } else if tag == 16 {
        ConstantView::MethodType { descriptor_index: a }
    } else if tag == 19 {
        ConstantView::Module { name_index: a }
    } else {
        ConstantView::Package { name_index: a }
    }
}

/// The entry with a tag of two indices.
pub open spec fn with_two_indices(tag: u8, a: u16, b: u16) -> ConstantView
    recommends
        has_two_indices(tag),
{
    if tag == 9 {
        ConstantView::Fieldref { class_index: a, name_and_type_index: b }
    } else if tag == 10 {
        ConstantView::Methodref { class_index: a, name_and_type_index: b }
    } else if tag == 11 {
        ConstantView::InterfaceMethodref { class_index: a, name_and_type_index: b }
    } else if tag == 12 {
        ConstantView::NameAndType { name_index: a, descriptor_index: b }
    } else if tag == 17 {
        ConstantView::Dynamic { bootstrap_method_attr_index: a, name_and_type_index: b }
    } else {
        ConstantView::InvokeDynamic { bootstrap_method_attr_index: a, name_and_type_index: b }
    }
}

/// What the bytes behind the tag of a `Utf8` entry denote: a 16-bit length
/// and that many bytes of UTF-8 text. `start` is where the entry begins.
pub open spec fn spec_decode_text(bytes: Seq<u8>, start: int, pos: int) -> Result<
    (ConstantView, int),
    Error,
> {
    match spec_u16(bytes, pos) {
        Err(e) => Err(e),
        Ok((length, p)) => match spec_take(bytes, p, length as int) {
            Err(e) => Err(e),
            Ok((text, end)) => if valid_utf8(text) {
                Ok((ConstantView::Utf8(decode_utf8(text)), end))
            } else {
                Err(Error::InvalidUtf8 { position: start as usize })
            },
        },
    }
}

/// What the bytes from `pos` on denote as one pool entry.
pub open spec fn spec_decode_constant(bytes: Seq<u8>, pos: int) -> Result<
    (ConstantView, int),
    Error,
> {
    match spec_u8(bytes, pos) {
        Err(e) => Err(e),
        Ok((tag, p)) => if tag == 1 {
            spec_decode_text(bytes, pos, p)
        } else if tag == 3 {
            match spec_i32(bytes, p) {
                Err(e) => Err(e),
                Ok((v, end)) => Ok((ConstantView::Integer(v), end)),
            }
        } else if tag == 4 {
            match spec_u32(bytes, p) {
                Err(e) => Err(e),
                Ok((v, end)) => Ok((ConstantView::Float(v), end)),
            }
        } else if tag == 5 {
            match spec_i64(bytes, p) {
                Err(e) => Err(e),
                Ok((v, end)) => Ok((ConstantView::Long(v), end)),
            }
        } else if tag == 6 {
            match spec_u64(bytes, p) {
                Err(e) => Err(e),
                Ok((v, end)) => Ok((ConstantView::Double(v), end)),
            }
        } else if tag == 15 {
            match spec_u8(bytes, p) {
                Err(e) => Err(e),
                Ok((reference_kind, q)) => match spec_u16(bytes, q) {
                    Err(e) => Err(e),
                    Ok((reference_index, end)) => Ok(
                        (ConstantView::MethodHandle { reference_kind, reference_index }, end),
                    ),
                },
            }
        } else if has_one_index(tag) {
            match spec_u16(bytes, p) {
                Err(e) => Err(e),
                Ok((a, end)) => Ok((with_one_index(tag, a), end)),
            }
        } else if has_two_indices(tag) {
            match spec_u16(bytes, p) {
                Err(e) => Err(e),
                Ok((a, q)) => match spec_u16(bytes, q) {
                    Err(e) => Err(e),
                    Ok((b, end)) => Ok((with_two_indices(tag, a, b), end)),
                },
            }
        } else {
            Err(Error::UnknownConstantTag { tag, position: pos as usize })
        },
    }
}

/// The bytes of one pool entry. A reserved slot has none.
pub open spec fn spec_encode_constant(v: ConstantView) -> Seq<u8> {
    match v {
        ConstantView::Utf8(s) => seq![1u8] + u16_bytes(encode_utf8(s).len() as u16) + encode_utf8(
            s,
        ),
        ConstantView::Integer(v) => seq![3u8] + u32_bytes(unsigned32(v)),
        ConstantView::Float(v) => seq![4u8] + u32_bytes(v),
        ConstantView::Long(v) => seq![5u8] + u64_bytes(unsigned64(v)),
        ConstantView::Double(v) => seq![6u8] + u64_bytes(v),
        ConstantView::Class { name_index } => seq![7u8] + u16_bytes(name_index),
        ConstantView::String { string_index } => seq![8u8] + u16_bytes(string_index),
        ConstantView::Fieldref { class_index, name_and_type_index } => seq![9u8] + u16_bytes(
            class_index,
        ) + u16_bytes(name_and_type_index),
        ConstantView::Methodref { class_index, name_and_type_index } => seq![10u8] + u16_bytes(
            class_index,
        ) + u16_bytes(name_and_type_index),
        ConstantView::InterfaceMethodref { class_index, name_and_type_index } => seq![11u8]
            + u16_bytes(class_index) + u16_bytes(name_and_type_index),
        ConstantView::NameAndType { name_index, descriptor_index } => seq![12u8] + u16_bytes(
            name_index,
        ) + u16_bytes(descriptor_index),
        ConstantView::MethodHandle { reference_kind, reference_index } => seq![15u8]
            + seq![reference_kind] + u16_bytes(reference_index),
        ConstantView::MethodType { descriptor_index } => seq![16u8] + u16_bytes(descriptor_index),
        ConstantView::Dynamic { bootstrap_method_attr_index, name_and_type_index } => seq![17u8]
            + u16_bytes(bootstrap_method_attr_index) + u16_bytes(name_and_type_index),
        ConstantView::InvokeDynamic { bootstrap_method_attr_index, name_and_type_index } => seq![
            18u8,
        ] + u16_bytes(bootstrap_method_attr_index) + u16_bytes(name_and_type_index),
        ConstantView::Module { name_index } => seq![19u8] + u16_bytes(name_index),
        ConstantView::Package { name_index } => seq![20u8] + u16_bytes(name_index),
        ConstantView::Reserved => Seq::empty(),
    }
}

/// `String::from_utf8`: the text that `bytes` encodes, which exists exactly
/// when `bytes` is well-formed UTF-8; the failure is returned otherwise.
#[verifier::external_body]
pub(crate) fn string_from_utf8(bytes: Vec<u8>) -> (r: Result<String, std::string::FromUtf8Error>)
    ensures
        r is Ok <==> valid_utf8(bytes@),
        r is Ok ==> r->Ok_0@ == decode_utf8(bytes@),
{
    String::from_utf8(bytes)
}

/// The failure of `String::from_utf8`.
#[verifier::external_type_specification]
#[verifier::external_body]
pub struct ExFromUtf8Error(std::string::FromUtf8Error);

impl Encode for ConstantPoolInfo {
    open spec fn encodable(v: ConstantView) -> bool {
        v matches ConstantView::Utf8(s) ==> encode_utf8(s).len() <= 0xffff
    }

    open spec fn spec_encode(v: ConstantView) -> Seq<u8> {
        spec_encode_constant(v)
    }

    fn is_encodable(&self) -> (r: bool) {
        match self {
            ConstantPoolInfo::Utf8(s) => s.as_str().as_bytes().len() <= 0xffff,
            _ => true,
        }
    }

    fn encode(&self, output: &mut Vec<u8>) {
        match self {
            ConstantPoolInfo::Utf8(s) => {
                let text = s.as_str().as_bytes();
                encode_u8(1, output);
                let length: u16 = text.len() as u16;
                encode_u16(length, output);
                append_bytes(output, text);
            },
            ConstantPoolInfo::Integer(v) => {
                encode_u8(3, output);
                v.encode(output);
            },
            ConstantPoolInfo::Float(v) => {
                encode_u8(4, output);
                v.encode(output);
            },
            ConstantPoolInfo::Long(v) => {
                encode_u8(5, output);
                v.encode(output);
            },
            ConstantPoolInfo::Double(v) => {
                encode_u8(6, output);
                v.encode(output);
            },
            ConstantPoolInfo::Class { name_index } => {
                encode_u8(7, output);
                encode_u16(*name_index, output);
            },
            ConstantPoolInfo::String { string_index } => {
                encode_u8(8, output);
                encode_u16(*string_index, output);
            },
            ConstantPoolInfo::Fieldref { class_index, name_and_type_index } => {
                encode_u8(9, output);
                encode_u16(*class_index, output);
                encode_u16(*name_and_type_index, output);
            },
            ConstantPoolInfo::Methodref { class_index, name_and_type_index } => {
                encode_u8(10, output);
                encode_u16(*class_index, output);
                encode_u16(*name_and_type_index, output);
            },
            ConstantPoolInfo::InterfaceMethodref { class_index, name_and_type_index } => {
                encode_u8(11, output);
                encode_u16(*class_index, output);
                encode_u16(*name_and_type_index, output);
            },
            ConstantPoolInfo::NameAndType { name_index, descriptor_index } => {
                encode_u8(12, output);
                encode_u16(*name_index, output);
                encode_u16(*descriptor_index, output);
            },
            ConstantPoolInfo::MethodHandle { reference_kind, reference_index } => {
                encode_u8(15, output);
                encode_u8(*reference_kind, output);
                encode_u16(*reference_index, output);
            },
            ConstantPoolInfo::MethodType { descriptor_index } => {
                encode_u8(16, output);
                encode_u16(*descriptor_index, output);
            },
            ConstantPoolInfo::Dynamic { bootstrap_method_attr_index, name_and_type_index } => {
                encode_u8(17, output);
                encode_u16(*bootstrap_method_attr_index, output);
                encode_u16(*name_and_type_index, output);
            },
            ConstantPoolInfo::InvokeDynamic { bootstrap_method_attr_index, name_and_type_index } => {
                encode_u8(18, output);
                encode_u16(*bootstrap_method_attr_index, output);
                encode_u16(*name_and_type_index, output);
            },
            ConstantPoolInfo::Module { name_index } => {
                encode_u8(19, output);
                encode_u16(*name_index, output);
            },
            ConstantPoolInfo::Package { name_index } => {
                encode_u8(20, output);
                encode_u16(*name_index, output);
            },
            ConstantPoolInfo::Reserved => {},
        }
        assert(output@ =~= old(output)@ + spec_encode_constant(self.deep_view()));
    }
}

impl Decode for ConstantPoolInfo {
    open spec fn spec_decode(bytes: Seq<u8>, pos: int) -> Result<(ConstantView, int), Error> {
        spec_decode_constant(bytes, pos)
    }

    fn decode(input: &mut Cursor<'_>) -> (r: Result<Self, Error>) {
        let start: usize = input.pos;
        let tag: u8 = input.read_u8()?;
        let info = match tag {
            1 => {
                let length: u16 = input.read_u16()?;
                let text = slice_to_vec(input.read_bytes(length as usize)?);
                match string_from_utf8(text) {
                    Ok(s) => ConstantPoolInfo::Utf8(s),
                    Err(_) => { return Err(Error::InvalidUtf8 { position: start }); },
                }
            },
            3 => ConstantPoolInfo::Integer(input.read_i32()?),
            4 => ConstantPoolInfo::Float(input.read_u32()?),
            5 => ConstantPoolInfo::Long(input.read_i64()?),
            6 => ConstantPoolInfo::Double(input.read_u64()?),
            7 => ConstantPoolInfo::Class { name_index: input.read_u16()? },
            8 => ConstantPoolInfo::String { string_index: input.read_u16()? },
            9 => {
                let class_index: u16 = input.read_u16()?;
                let name_and_type_index: u16 = input.read_u16()?;
                ConstantPoolInfo::Fieldref { class_index, name_and_type_index }
            },
            10 => {
                let class_index: u16 = input.read_u16()?;
                let name_and_type_index: u16 = input.read_u16()?;
                ConstantPoolInfo::Methodref { class_index, name_and_type_index }
            },
            11 => {
                let class_index: u16 = input.read_u16()?;
                let name_and_type_index: u16 = input.read_u16()?;
                ConstantPoolInfo::InterfaceMethodref { class_index, name_and_type_index }
            },
            12 => {
                let name_index: u16 = input.read_u16()?;
                let descriptor_index: u16 = input.read_u16()?;
                ConstantPoolInfo::NameAndType { name_index, descriptor_index }
            },
            15 => {
                let reference_kind: u8 = input.read_u8()?;
                let reference_index: u16 = input.read_u16()?;
                ConstantPoolInfo::MethodHandle { reference_kind, reference_index }
            },
            16 => ConstantPoolInfo::MethodType { descriptor_index: input.read_u16()? },
            17 => {
                let bootstrap_method_attr_index: u16 = input.read_u16()?;
                let name_and_type_index: u16 = input.read_u16()?;
                ConstantPoolInfo::Dynamic { bootstrap_method_attr_index, name_and_type_index }
            },
            18 => {
                let bootstrap_method_attr_index: u16 = input.read_u16()?;
                let name_and_type_index: u16 = input.read_u16()?;
                ConstantPoolInfo::InvokeDynamic { bootstrap_method_attr_index, name_and_type_index }
            },
            19 => ConstantPoolInfo::Module { name_index: input.read_u16()? },
            20 => ConstantPoolInfo::Package { name_index: input.read_u16()? },
            _ => { return Err(Error::UnknownConstantTag { tag, position: start }); },
        };
        Ok(info)
    }

    proof fn lemma_round_trip(bytes: Seq<u8>, pos: int) {
        lemma_constant_round_trip(bytes, pos);
    }

    proof fn lemma_prefix(bytes: Seq<u8>, pos: int, m: int) {
        lemma_constant_prefix(bytes, pos, m);
    }
}

/// Encoding a decoded entry gives back the bytes it was decoded from, and no
/// decoded entry is a reserved slot.
pub proof fn lemma_constant_round_trip(bytes: Seq<u8>, pos: int)
    requires
        0 <= pos <= bytes.len(),
    ensures
        match spec_decode_constant(bytes, pos) {
            Ok((v, end)) => pos < end <= bytes.len() && !(v is Reserved)
                && ConstantPoolInfo::encodable(v) && spec_encode_constant(v) == bytes.subrange(
                pos,
                end,
            ),
            Err(_) => true,
        },
{
    u8::lemma_round_trip(bytes, pos);
    if let Ok((tag, p)) = spec_u8(bytes, pos) {
        if let Ok((v, end)) = spec_decode_constant(bytes, pos) {
            assert(bytes.subrange(pos, p) + bytes.subrange(p, end) =~= bytes.subrange(pos, end));
            if tag == 1 {
                u16::lemma_round_trip(bytes, p);
                let q = p + 2;
                let text = bytes.subrange(q, end);
                decode_utf8_encode_utf8(text);
                assert(bytes.subrange(p, q) + text =~= bytes.subrange(p, end));
            } else if tag == 3 {
                i32::lemma_round_trip(bytes, p);
            } else if tag == 4 {
                u32::lemma_round_trip(bytes, p);
            } else if tag == 5 {
                i64::lemma_round_trip(bytes, p);
            } else if tag == 6 {
                u64::lemma_round_trip(bytes, p);
            } else if tag == 15 {
                u8::lemma_round_trip(bytes, p);
                u16::lemma_round_trip(bytes, p + 1);
                assert(bytes.subrange(p, p + 1) + bytes.subrange(p + 1, end) =~= bytes.subrange(
                    p,
                    end,
                ));
            } else if has_one_index(tag) {
                u16::lemma_round_trip(bytes, p);
            } else {
                u16::lemma_round_trip(bytes, p);
                u16::lemma_round_trip(bytes, p + 2);
                assert(bytes.subrange(p, p + 2) + bytes.subrange(p + 2, end) =~= bytes.subrange(
                    p,
                    end,
                ));
            }
        }
    }
}

/// An entry decodes only if its tag is defined; an undefined tag is
/// reported with its value and the position of the entry.
pub proof fn lemma_undefined_tag(bytes: Seq<u8>, pos: int)
    requires
        0 <= pos < bytes.len(),
    ensures
        spec_decode_constant(bytes, pos) is Ok ==> tag_defined(bytes[pos]),
        !tag_defined(bytes[pos]) ==> spec_decode_constant(bytes, pos) == Err::<
            (ConstantView, int),
            Error,
        >(Error::UnknownConstantTag { tag: bytes[pos], position: pos as usize }),
{
}

/// An entry that decodes from `bytes` decodes alike from every prefix that
/// still holds it; a shorter prefix is reported as truncated.
pub proof fn lemma_constant_prefix(bytes: Seq<u8>, pos: int, m: int)
    requires
        0 <= pos <= m <= bytes.len(),
    ensures
        match spec_decode_constant(bytes, pos) {
            Ok((v, end)) => if end <= m {
                spec_decode_constant(bytes.take(m), pos) == Ok::<(ConstantView, int), Error>(
                    (v, end),
                )
            } else {
                is_truncated(spec_decode_constant(bytes.take(m), pos))
            },
            Err(_) => true,
        },
{
    lemma_take_prefix(bytes, pos, 1, m);
    if let Ok((tag, p)) = spec_u8(bytes, pos) {
        if spec_decode_constant(bytes, pos) is Ok && p <= m {
            if tag == 1 {
                lemma_take_prefix(bytes, p, 2, m);
                if let Ok((length, q)) = spec_u16(bytes, p) {
                    if q <= m {
                        lemma_take_prefix(bytes, q, length as int, m);
                    }
                }
            } else if tag == 3 || tag == 4 {
                lemma_take_prefix(bytes, p, 4, m);
            } else if tag == 5 || tag == 6 {
                lemma_take_prefix(bytes, p, 8, m);
            } else if tag == 15 {
                lemma_take_prefix(bytes, p, 1, m);
                if p + 1 <= m {
                    lemma_take_prefix(bytes, p + 1, 2, m);
                }
            } else if has_one_index(tag) {
                lemma_take_prefix(bytes, p, 2, m);
            } else {
                lemma_take_prefix(bytes, p, 2, m);
                if p + 2 <= m {
                    lemma_take_prefix(bytes, p + 2, 2, m);
                }
            }
        }
    }
}

} // verus!
