//! Typed readings of attribute payloads. The structural decoder keeps every
//! payload as bytes; a payload is read here once its name is known. Any type
//! with a wire form can be read from a payload.

use crate::codec::{
    counted_encodable, counted_is_encodable, decode_counted, encode_counted, lemma_counted_prefix,
    lemma_counted_round_trip, spec_decode_counted, spec_encode_counted, Decode, Encode,
};
use crate::cursor::{lemma_join, lemma_take_prefix, spec_u16, Cursor};
use crate::endian::u16_bytes;
use crate::error::Error;
use crate::flags::MethodParameterAccessFlags;
use crate::primitive::encode_u16;
use vstd::prelude::*;
use vstd::slice::slice_to_vec;

verus! {

/// One formal parameter of a method.
#[derive(Debug, Clone, Copy, PartialEq, Eq)]
pub struct MethodParameter {
    pub name_index: u16,
    pub access_flags: MethodParameterAccessFlags,
}

/// The content of a [`MethodParameter`].
pub struct ParameterView {
    pub name_index: u16,
    pub access_flags: u16,
}

impl DeepView for MethodParameter {
    type V = ParameterView;

    open spec fn deep_view(&self) -> ParameterView {
        ParameterView { name_index: self.name_index, access_flags: self.access_flags.bits }
    }
}

impl Encode for MethodParameter {
    open spec fn encodable(v: ParameterView) -> bool {
        true
    }

    open spec fn spec_encode(v: ParameterView) -> Seq<u8> {
        u16_bytes(v.name_index) + u16_bytes(v.access_flags)
    }

    fn is_encodable(&self) -> (r: bool) {
        true
    }

    fn encode(&self, output: &mut Vec<u8>) {
        encode_u16(self.name_index, output);
        encode_u16(self.access_flags.bits, output);
        assert(output@ =~= old(output)@ + Self::spec_encode(self.deep_view()));
    }
}

impl Decode for MethodParameter {
    open spec fn spec_decode(bytes: Seq<u8>, pos: int) -> Result<(ParameterView, int), Error> {
        match spec_u16(bytes, pos) {
            Err(e) => Err(e),
            Ok((name_index, mid)) => match spec_u16(bytes, mid) {
                Err(e) => Err(e),
                Ok((access_flags, end)) => Ok((ParameterView { name_index, access_flags }, end)),
            },
        }
    }

    fn decode(input: &mut Cursor<'_>) -> (r: Result<Self, Error>) {
        let name_index: u16 = input.read_u16()?;
        let bits: u16 = input.read_u16()?;
        Ok(
            MethodParameter {
                name_index,
                access_flags: MethodParameterAccessFlags::from_bits_retain(bits),
            },
        )
    }

    proof fn lemma_round_trip(bytes: Seq<u8>, pos: int) {
        u16::lemma_round_trip(bytes, pos);
        if let Ok((_, mid)) = spec_u16(bytes, pos) {
            u16::lemma_round_trip(bytes, mid);
            if let Ok((_, end)) = spec_u16(bytes, mid) {
                lemma_join(bytes, pos, mid, end);
            }
        }
    }

    proof fn lemma_prefix(bytes: Seq<u8>, pos: int, m: int) {
        lemma_take_prefix(bytes, pos, 2, m);
        if pos + 2 <= m {
            lemma_take_prefix(bytes, pos + 2, 2, m);
        }
    }
}

/// The payload of a `MethodParameters` attribute: a 16-bit count and that
/// many parameters.
#[derive(Debug, Clone, PartialEq, Eq)]
pub struct MethodParametersAttribute(pub Vec<MethodParameter>);

impl DeepView for MethodParametersAttribute {
    type V = Seq<ParameterView>;

    open spec fn deep_view(&self) -> Seq<ParameterView> {
        self.0.deep_view()
    }
}

impl Encode for MethodParametersAttribute {
    open spec fn encodable(v: Seq<ParameterView>) -> bool {
        counted_encodable::<MethodParameter>(v)
    }

    open spec fn spec_encode(v: Seq<ParameterView>) -> Seq<u8> {
        spec_encode_counted::<MethodParameter>(v)
    }

    fn is_encodable(&self) -> (r: bool) {
        counted_is_encodable::<MethodParameter>(&self.0)
    }

    fn encode(&self, output: &mut Vec<u8>) {
        encode_counted::<MethodParameter>(&self.0, output);
    }
}

impl Decode for MethodParametersAttribute {
    open spec fn spec_decode(bytes: Seq<u8>, pos: int) -> Result<(Seq<ParameterView>, int), Error> {
        spec_decode_counted::<MethodParameter>(bytes, pos)
    }

    fn decode(input: &mut Cursor<'_>) -> (r: Result<Self, Error>) {
        let parameters = decode_counted::<MethodParameter>(input)?;
        Ok(MethodParametersAttribute(parameters))
    }

    proof fn lemma_round_trip(bytes: Seq<u8>, pos: int) {
        lemma_counted_round_trip::<MethodParameter>(bytes, pos);
    }

    proof fn lemma_prefix(bytes: Seq<u8>, pos: int, m: int) {
        lemma_counted_prefix::<MethodParameter>(bytes, pos, m);
    }
}

/// Reads a value of type `T` from the start of an attribute's payload.
pub fn decode_payload<T: Decode>(info: &[u8]) -> (r: Result<T, Error>)
    ensures
        match T::spec_decode(info@, 0) {
            Ok((v, _)) => r is Ok && r->Ok_0.deep_view() == v,
            Err(e) => r is Err && r->Err_0 == e,
        },
{
    let mut input = Cursor::new(info);
    T::decode(&mut input)
}

/// An attribute's payload, read by the grammar that its name selects.
#[derive(Debug, Clone, PartialEq, Eq)]
pub enum TypedAttribute {
    /// The payload of an attribute named `MethodParameters`.
    MethodParameters(MethodParametersAttribute),
    /// The payload of an attribute whose name selects no grammar, as it is.
    Opaque(Vec<u8>),
}

/// The content of a [`TypedAttribute`].
pub enum TypedAttributeView {
    MethodParameters(Seq<ParameterView>),
    Opaque(Seq<u8>),
}

impl DeepView for TypedAttribute {
    type V = TypedAttributeView;

    open spec fn deep_view(&self) -> TypedAttributeView {
        match *self {
            TypedAttribute::MethodParameters(p) => TypedAttributeView::MethodParameters(
                p.deep_view(),
            ),
            TypedAttribute::Opaque(bytes) => TypedAttributeView::Opaque(bytes@),
        }
    }
}

/// What the payload `info` of an attribute named `name` denotes. A name
/// without a grammar is no failure: its payload is kept as bytes.
pub open spec fn spec_decode_attribute(name: Seq<char>, info: Seq<u8>) -> Result<
    TypedAttributeView,
    Error,
> {
    if name == "MethodParameters"@ {
        match spec_decode_counted::<MethodParameter>(info, 0) {
            Ok((v, _)) => Ok(TypedAttributeView::MethodParameters(v)),
            Err(e) => Err(e),
        }
    } else {
        Ok(TypedAttributeView::Opaque(info))
    }
}

/// Reads the payload `info` of an attribute whose name resolved to `name`.
pub fn decode_attribute(name: &str, info: &[u8]) -> (r: Result<TypedAttribute, Error>)
    ensures
        match spec_decode_attribute(name@, info@) {
            Ok(v) => r is Ok && r->Ok_0.deep_view() == v,
            Err(e) => r is Err && r->Err_0 == e,
        },
{
    let known = "MethodParameters".to_owned();
    let given = name.to_owned();
    if given == known {
        let parameters = decode_payload::<MethodParametersAttribute>(info)?;
        Ok(TypedAttribute::MethodParameters(parameters))
    } else {
        Ok(TypedAttribute::Opaque(slice_to_vec(info)))
    }
}

} // verus!
