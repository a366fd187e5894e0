//! Attributes, and the fields and methods that carry them.

use crate::codec::{
    counted_encodable, counted_is_encodable, decode_counted, encode_counted, is_truncated, lemma_counted_prefix,
    lemma_counted_round_trip, spec_decode_counted, spec_encode_counted, Decode, Encode,
};
use crate::cursor::{append_bytes, lemma_take_prefix, spec_take, spec_u16, spec_u32, Cursor};
use crate::endian::{u16_bytes, u32_bytes};
use crate::error::Error;
use crate::flags::{FieldAccessFlags, MethodAccessFlags};
use crate::primitive::{encode_u16, encode_u32};
use vstd::prelude::*;
use vstd::slice::slice_to_vec;

verus! {

/// A named extension record. The payload is kept as it was read; what it
/// means depends on the name that `attribute_name_index` resolves to.
#[derive(Debug, Clone, PartialEq, Eq)]
pub struct AttributeInfo {
    pub attribute_name_index: u16,
    pub info: Vec<u8>,
}

/// The content of an [`AttributeInfo`].
pub struct AttributeView {
    pub attribute_name_index: u16,
    pub info: Seq<u8>,
}

impl DeepView for AttributeInfo {
    type V = AttributeView;

    open spec fn deep_view(&self) -> AttributeView {
        AttributeView { attribute_name_index: self.attribute_name_index, info: self.info@ }
    }
}

impl Encode for AttributeInfo {
    open spec fn encodable(v: AttributeView) -> bool {
        v.info.len() <= 0xffff_ffff
    }

    open spec fn spec_encode(v: AttributeView) -> Seq<u8> {
        u16_bytes(v.attribute_name_index) + u32_bytes(v.info.len() as u32) + v.info
    }

    fn is_encodable(&self) -> (r: bool) {
        self.info.len() <= 0xffff_ffff
    }

    fn encode(&self, output: &mut Vec<u8>) {
        encode_u16(self.attribute_name_index, output);
        let length: u32 = self.info.len() as u32;
        encode_u32(length, output);
        append_bytes(output, self.info.as_slice());
    }
}

impl Decode for AttributeInfo {
    open spec fn spec_decode(bytes: Seq<u8>, pos: int) -> Result<(AttributeView, int), Error> {
        match spec_u16(bytes, pos) {
            Err(e) => Err(e),
            Ok((attribute_name_index, e1)) => match spec_u32(bytes, e1) {
                Err(e) => Err(e),
                Ok((length, e2)) => match spec_take(bytes, e2, length as int) {
                    Err(e) => Err(e),
                    Ok((info, end)) => Ok((AttributeView { attribute_name_index, info }, end)),
                },
            },
        }
    }

    fn decode(input: &mut Cursor<'_>) -> (r: Result<Self, Error>) {
        let attribute_name_index: u16 = input.read_u16()?;
        let length: u32 = input.read_u32()?;
        let info = slice_to_vec(input.read_bytes(length as usize)?);
        Ok(AttributeInfo { attribute_name_index, info })
    }

    proof fn lemma_round_trip(bytes: Seq<u8>, pos: int) {
        u16::lemma_round_trip(bytes, pos);
        if let Ok((_, e1)) = spec_u16(bytes, pos) {
            u32::lemma_round_trip(bytes, e1);
            if let Ok((length, e2)) = spec_u32(bytes, e1) {
                if let Ok((info, end)) = spec_take(bytes, e2, length as int) {
                    assert(bytes.subrange(pos, e1) + bytes.subrange(e1, e2) + info
                        =~= bytes.subrange(pos, end));
                }
            }
        }
    }

    proof fn lemma_prefix(bytes: Seq<u8>, pos: int, m: int) {
        lemma_take_prefix(bytes, pos, 2, m);
        if let Ok((_, e1)) = spec_u16(bytes, pos) {
            if e1 <= m {
                lemma_take_prefix(bytes, e1, 4, m);
                if let Ok((length, e2)) = spec_u32(bytes, e1) {
                    if e2 <= m {
                        lemma_take_prefix(bytes, e2, length as int, m);
                    }
                }
            }
        }
    }
}

/// The content of a field or a method: both have the same shape on the wire.
pub struct MemberView {
    pub access_flags: u16,
    pub name_index: u16,
    pub descriptor_index: u16,
    pub attributes: Seq<AttributeView>,
}

/// What the bytes from `pos` on denote as a field or a method.
pub open spec fn spec_decode_member(bytes: Seq<u8>, pos: int) -> Result<(MemberView, int), Error> {
    match spec_u16(bytes, pos) {
        Err(e) => Err(e),
        Ok((access_flags, e1)) => match spec_u16(bytes, e1) {
            Err(e) => Err(e),
            Ok((name_index, e2)) => match spec_u16(bytes, e2) {
                Err(e) => Err(e),
                Ok((descriptor_index, e3)) => match spec_decode_counted::<AttributeInfo>(
                    bytes,
                    e3,
                ) {
                    Err(e) => Err(e),
                    Ok((attributes, end)) => Ok(
                        (
                            MemberView { access_flags, name_index, descriptor_index, attributes },
                            end,
                        ),
                    ),
                },
            },
        }
    }
}

/// The bytes of a field or a method.
pub open spec fn spec_encode_member(v: MemberView) -> Seq<u8> {
    u16_bytes(v.access_flags) + u16_bytes(v.name_index) + u16_bytes(v.descriptor_index)
        + spec_encode_counted::<AttributeInfo>(v.attributes)
}

/// Encoding a decoded member gives back the bytes it was decoded from.
pub proof fn lemma_member_round_trip(bytes: Seq<u8>, pos: int)
    requires
        0 <= pos <= bytes.len(),
    ensures
        match spec_decode_member(bytes, pos) {
            Ok((v, end)) => pos <= end <= bytes.len() && counted_encodable::<AttributeInfo>(
                v.attributes,
            ) && spec_encode_member(v) == bytes.subrange(pos, end),
            Err(_) => true,
        },
{
    u16::lemma_round_trip(bytes, pos);
    if let Ok((_, e1)) = spec_u16(bytes, pos) {
        u16::lemma_round_trip(bytes, e1);
        if let Ok((_, e2)) = spec_u16(bytes, e1) {
            u16::lemma_round_trip(bytes, e2);
            if let Ok((_, e3)) = spec_u16(bytes, e2) {
                lemma_counted_round_trip::<AttributeInfo>(bytes, e3);
                if let Ok((_, end)) = spec_decode_counted::<AttributeInfo>(bytes, e3) {
                    assert(bytes.subrange(pos, e1) + bytes.subrange(e1, e2) + bytes.subrange(
                        e2,
                        e3,
                    ) + bytes.subrange(e3, end) =~= bytes.subrange(pos, end));
                }
            }
        }
    }
}

/// A member that decodes from `bytes` decodes alike from every prefix that
/// still holds it; a shorter prefix is reported as truncated.
pub proof fn lemma_member_prefix(bytes: Seq<u8>, pos: int, m: int)
    requires
        0 <= pos <= m <= bytes.len(),
    ensures
        match spec_decode_member(bytes, pos) {
            Ok((v, end)) => if end <= m {
                spec_decode_member(bytes.take(m), pos) == Ok::<(MemberView, int), Error>((v, end))
            } else {
                is_truncated(spec_decode_member(bytes.take(m), pos))
            },
            Err(_) => true,
        },
{
    lemma_take_prefix(bytes, pos, 2, m);
    if let Ok((_, e1)) = spec_u16(bytes, pos) {
        if let Ok((_, e2)) = spec_u16(bytes, e1) {
            if let Ok((_, e3)) = spec_u16(bytes, e2) {
                lemma_counted_round_trip::<AttributeInfo>(bytes, e3);
                if e1 <= m {
                    lemma_take_prefix(bytes, e1, 2, m);
                }
                if e2 <= m {
                    lemma_take_prefix(bytes, e2, 2, m);
                }
                if e3 <= m {
                    lemma_counted_prefix::<AttributeInfo>(bytes, e3, m);
                }
            }
        }
    }
}

/// A field of the class.
#[derive(Debug, Clone, PartialEq, Eq)]
pub struct FieldInfo {
    pub access_flags: FieldAccessFlags,
    pub name_index: u16,
    pub descriptor_index: u16,
    pub attributes: Vec<AttributeInfo>,
}

impl DeepView for FieldInfo {
    type V = MemberView;

    open spec fn deep_view(&self) -> MemberView {
        MemberView {
            access_flags: self.access_flags.bits,
            name_index: self.name_index,
            descriptor_index: self.descriptor_index,
            attributes: self.attributes.deep_view(),
        }
    }
}

impl Encode for FieldInfo {
    open spec fn encodable(v: MemberView) -> bool {
        counted_encodable::<AttributeInfo>(v.attributes)
    }

    open spec fn spec_encode(v: MemberView) -> Seq<u8> {
        spec_encode_member(v)
    }

    fn is_encodable(&self) -> (r: bool) {
        counted_is_encodable::<AttributeInfo>(&self.attributes)
    }

    fn encode(&self, output: &mut Vec<u8>) {
        encode_u16(self.access_flags.bits, output);
        encode_u16(self.name_index, output);
        encode_u16(self.descriptor_index, output);
        encode_counted::<AttributeInfo>(&self.attributes, output);
        assert(output@ =~= old(output)@ + spec_encode_member(self.deep_view()));
    }
}

impl Decode for FieldInfo {
    open spec fn spec_decode(bytes: Seq<u8>, pos: int) -> Result<(MemberView, int), Error> {
        spec_decode_member(bytes, pos)
    }

    fn decode(input: &mut Cursor<'_>) -> (r: Result<Self, Error>) {
        let bits: u16 = input.read_u16()?;
        let name_index: u16 = input.read_u16()?;
        let descriptor_index: u16 = input.read_u16()?;
        let attributes = decode_counted::<AttributeInfo>(input)?;
        Ok(
            FieldInfo {
                access_flags: FieldAccessFlags::from_bits_retain(bits),
                name_index,
                descriptor_index,
                attributes,
            },
        )
    }

    proof fn lemma_round_trip(bytes: Seq<u8>, pos: int) {
        lemma_member_round_trip(bytes, pos);
    }

    proof fn lemma_prefix(bytes: Seq<u8>, pos: int, m: int) {
        lemma_member_prefix(bytes, pos, m);
    }
}

/// A method of the class.
#[derive(Debug, Clone, PartialEq, Eq)]
pub struct MethodInfo {
    pub access_flags: MethodAccessFlags,
    pub name_index: u16,
    pub descriptor_index: u16,
    pub attributes: Vec<AttributeInfo>,
}

impl DeepView for MethodInfo {
    type V = MemberView;

    open spec fn deep_view(&self) -> MemberView {
        MemberView {
            access_flags: self.access_flags.bits,
            name_index: self.name_index,
            descriptor_index: self.descriptor_index,
            attributes: self.attributes.deep_view(),
        }
    }
}

impl Encode for MethodInfo {
    open spec fn encodable(v: MemberView) -> bool {
        counted_encodable::<AttributeInfo>(v.attributes)
    }

    open spec fn spec_encode(v: MemberView) -> Seq<u8> {
        spec_encode_member(v)
    }

    fn is_encodable(&self) -> (r: bool) {
        counted_is_encodable::<AttributeInfo>(&self.attributes)
    }

    fn encode(&self, output: &mut Vec<u8>) {
        encode_u16(self.access_flags.bits, output);
        encode_u16(self.name_index, output);
        encode_u16(self.descriptor_index, output);
        encode_counted::<AttributeInfo>(&self.attributes, output);
        assert(output@ =~= old(output)@ + spec_encode_member(self.deep_view()));
    }
}

impl Decode for MethodInfo {
    open spec fn spec_decode(bytes: Seq<u8>, pos: int) -> Result<(MemberView, int), Error> {
        spec_decode_member(bytes, pos)
    }

    fn decode(input: &mut Cursor<'_>) -> (r: Result<Self, Error>) {
        let bits: u16 = input.read_u16()?;
        let name_index: u16 = input.read_u16()?;
        let descriptor_index: u16 = input.read_u16()?;
        let attributes = decode_counted::<AttributeInfo>(input)?;
        Ok(
            MethodInfo {
                access_flags: MethodAccessFlags::from_bits_retain(bits),
                name_index,
                descriptor_index,
                attributes,
            },
        )
    }

    proof fn lemma_round_trip(bytes: Seq<u8>, pos: int) {
        lemma_member_round_trip(bytes, pos);
    }

    proof fn lemma_prefix(bytes: Seq<u8>, pos: int, m: int) {
        lemma_member_prefix(bytes, pos, m);
    }
}

} // verus!
