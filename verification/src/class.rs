//! The class file as a whole.

use crate::codec::{
    all_are_encodable, all_encodable, counted_encodable, counted_is_encodable, decode_counted, encode_counted, encode_seq, is_truncated,
    lemma_counted_prefix, lemma_counted_round_trip, spec_decode_counted, spec_encode_counted,
    spec_encode_seq, Decode, Encode,
};
use crate::constant::{ConstantPoolInfo, ConstantView};
use crate::cursor::{lemma_join, lemma_take_prefix, spec_u16, spec_u32, Cursor};
use crate::endian::{u16_bytes, u32_bytes};
use crate::error::Error;
use crate::flags::ClassAccessFlags;
use crate::member::{AttributeInfo, AttributeView, FieldInfo, MemberView, MethodInfo};
use crate::pool::{
    decode_constant_pool, lemma_pool_layout, lemma_pool_prefix, lemma_pool_round_trip, pool_count,
    pool_slots, spec_decode_constant_pool, spec_decode_pool, well_laid_out,
};
use crate::primitive::{encode_u16, encode_u32};
use vstd::prelude::*;

verus! {

/// The four bytes that every class file begins with.
pub const MAGIC: u32 = 0xCAFE_BABE;

/// A decoded class file. Pool indices are one-based and are not resolved
/// while decoding.
#[derive(Debug, Clone, PartialEq, Eq)]
pub struct ClassFile {
    pub minor_version: u16,
    pub major_version: u16,
    pub constant_pool: Vec<ConstantPoolInfo>,
    pub access_flags: ClassAccessFlags,
    pub this_class: u16,
    pub super_class: u16,
    pub interfaces: Vec<u16>,
    pub fields: Vec<FieldInfo>,
    pub methods: Vec<MethodInfo>,
    pub attributes: Vec<AttributeInfo>,
}

/// The content of a [`ClassFile`].
pub struct ClassView {
    pub minor_version: u16,
    pub major_version: u16,
    pub constant_pool: Seq<ConstantView>,
    pub access_flags: u16,
    pub this_class: u16,
    pub super_class: u16,
    pub interfaces: Seq<u16>,
    pub fields: Seq<MemberView>,
    pub methods: Seq<MemberView>,
    pub attributes: Seq<AttributeView>,
}

impl DeepView for ClassFile {
    type V = ClassView;

    open spec fn deep_view(&self) -> ClassView {
        ClassView {
            minor_version: self.minor_version,
            major_version: self.major_version,
            constant_pool: self.constant_pool.deep_view(),
            access_flags: self.access_flags.bits,
            this_class: self.this_class,
            super_class: self.super_class,
            interfaces: self.interfaces.deep_view(),
            fields: self.fields.deep_view(),
            methods: self.methods.deep_view(),
            attributes: self.attributes.deep_view(),
        }
    }
}

/// The part of a class file up to and including the constant pool.
pub struct Preamble {
    pub minor_version: u16,
    pub major_version: u16,
    pub constant_pool: Seq<ConstantView>,
}

/// What the bytes from `pos` on denote as magic number, version and pool.
pub open spec fn spec_decode_preamble(bytes: Seq<u8>, pos: int) -> Result<(Preamble, int), Error> {
    match spec_u32(bytes, pos) {
        Err(e) => Err(e),
        Ok((magic, e1)) => if magic != MAGIC {
            Err(Error::BadMagic { found: magic })
        } else {
            match spec_u16(bytes, e1) {
                Err(e) => Err(e),
                Ok((minor_version, e2)) => match spec_u16(bytes, e2) {
                    Err(e) => Err(e),
                    Ok((major_version, e3)) => match spec_decode_constant_pool(bytes, e3) {
                        Err(e) => Err(e),
                        Ok((constant_pool, end)) => Ok(
                            (Preamble { minor_version, major_version, constant_pool }, end),
                        ),
                    },
                },
            }
        },
    }
}

/// The bytes of magic number, version and pool.
pub open spec fn spec_encode_preamble(v: Preamble) -> Seq<u8> {
    u32_bytes(MAGIC) + u16_bytes(v.minor_version) + u16_bytes(v.major_version) + u16_bytes(
        pool_count(v.constant_pool.len()),
    ) + spec_encode_seq::<ConstantPoolInfo>(v.constant_pool)
}

/// What the bytes from `pos` on denote as a class file whose magic number,
/// version and pool are `head`.
pub open spec fn spec_decode_body(bytes: Seq<u8>, pos: int, head: Preamble) -> Result<
    (ClassView, int),
    Error,
> {
    match spec_u16(bytes, pos) {
        Err(e) => Err(e),
        Ok((access_flags, e1)) => match spec_u16(bytes, e1) {
            Err(e) => Err(e),
            Ok((this_class, e2)) => match spec_u16(bytes, e2) {
                Err(e) => Err(e),
                Ok((super_class, e3)) => match spec_decode_counted::<u16>(bytes, e3) {
                    Err(e) => Err(e),
                    Ok((interfaces, e4)) => match spec_decode_counted::<FieldInfo>(bytes, e4) {
                        Err(e) => Err(e),
                        Ok((fields, e5)) => match spec_decode_counted::<MethodInfo>(bytes, e5) {
                            Err(e) => Err(e),
                            Ok((methods, e6)) => match spec_decode_counted::<AttributeInfo>(
                                bytes,
                                e6,
                            ) {
                                Err(e) => Err(e),
                                Ok((attributes, end)) => Ok(
                                    (
                                        ClassView {
                                            minor_version: head.minor_version,
                                            major_version: head.major_version,
                                            constant_pool: head.constant_pool,
                                            access_flags,
                                            this_class,
                                            super_class,
                                            interfaces,
                                            fields,
                                            methods,
                                            attributes,
                                        },
                                        end,
                                    ),
                                ),
                            },
                        },
                    },
                },
            },
        },
    }
}

/// The bytes of a class file behind its pool.
pub open spec fn spec_encode_body(v: ClassView) -> Seq<u8> {
    u16_bytes(v.access_flags) + u16_bytes(v.this_class) + u16_bytes(v.super_class)
        + spec_encode_counted::<u16>(v.interfaces) + spec_encode_counted::<FieldInfo>(v.fields)
        + spec_encode_counted::<MethodInfo>(v.methods) + spec_encode_counted::<AttributeInfo>(
        v.attributes,
    )
}

/// The magic number, version and pool of a class.
pub open spec fn preamble_of(v: ClassView) -> Preamble {
    Preamble {
        minor_version: v.minor_version,
        major_version: v.major_version,
        constant_pool: v.constant_pool,
    }
}

/// What the bytes from `pos` on denote as a class file.
pub open spec fn spec_decode_class(bytes: Seq<u8>, pos: int) -> Result<(ClassView, int), Error> {
    match spec_decode_preamble(bytes, pos) {
        Err(e) => Err(e),
        Ok((head, mid)) => spec_decode_body(bytes, mid, head),
    }
}

/// The bytes of a class file.
pub open spec fn spec_encode_class(v: ClassView) -> Seq<u8> {
    spec_encode_preamble(preamble_of(v)) + spec_encode_body(v)
}

/// Whether every count of a class fits the width of its field.
pub open spec fn class_encodable(v: ClassView) -> bool {
    &&& v.constant_pool.len() <= 0xffff
    &&& all_encodable::<ConstantPoolInfo>(v.constant_pool)
    &&& counted_encodable::<u16>(v.interfaces)
    &&& counted_encodable::<FieldInfo>(v.fields)
    &&& counted_encodable::<MethodInfo>(v.methods)
    &&& counted_encodable::<AttributeInfo>(v.attributes)
}

/// Encoding a decoded preamble gives back the bytes it was decoded from, and
/// its pool is well laid out.
pub proof fn lemma_preamble_round_trip(bytes: Seq<u8>, pos: int)
    requires
        0 <= pos <= bytes.len(),
    ensures
        match spec_decode_preamble(bytes, pos) {
            Ok((v, end)) => pos <= end <= bytes.len() && v.constant_pool.len() <= 0xffff
                && well_laid_out(v.constant_pool) && all_encodable::<ConstantPoolInfo>(
                v.constant_pool,
            ) && spec_encode_preamble(v) == bytes.subrange(pos, end),
            Err(_) => true,
        },
{
    u32::lemma_round_trip(bytes, pos);
    if let Ok((_, e1)) = spec_u32(bytes, pos) {
        u16::lemma_round_trip(bytes, e1);
        if let Ok((_, e2)) = spec_u16(bytes, e1) {
            u16::lemma_round_trip(bytes, e2);
            if let Ok((_, e3)) = spec_u16(bytes, e2) {
                u16::lemma_round_trip(bytes, e3);
                if let Ok((count, e4)) = spec_u16(bytes, e3) {
                    lemma_pool_round_trip(bytes, e4, pool_slots(count));
                    lemma_pool_layout(bytes, e4, pool_slots(count));
                    if let Ok((_, end)) = spec_decode_pool(bytes, e4, pool_slots(count)) {
                        assert(pool_count(pool_slots(count)) == count);
                        lemma_join(bytes, pos, e1, e2);
                        lemma_join(bytes, pos, e2, e3);
                        lemma_join(bytes, pos, e3, e4);
                        lemma_join(bytes, pos, e4, end);
                    }
                }
            }
        }
    }
}

/// Encoding a decoded body gives back the bytes it was decoded from.
pub proof fn lemma_body_round_trip(bytes: Seq<u8>, pos: int, head: Preamble)
    requires
        0 <= pos <= bytes.len(),
    ensures
        match spec_decode_body(bytes, pos, head) {
            Ok((v, end)) => pos <= end <= bytes.len() && preamble_of(v) == head
                && counted_encodable::<u16>(v.interfaces) && counted_encodable::<FieldInfo>(
                v.fields,
            ) && counted_encodable::<MethodInfo>(v.methods) && counted_encodable::<AttributeInfo>(
                v.attributes,
            ) && spec_encode_body(v) == bytes.subrange(pos, end),
            Err(_) => true,
        },
{
    u16::lemma_round_trip(bytes, pos);
    if let Ok((_, e1)) = spec_u16(bytes, pos) {
        u16::lemma_round_trip(bytes, e1);
        if let Ok((_, e2)) = spec_u16(bytes, e1) {
            u16::lemma_round_trip(bytes, e2);
            if let Ok((_, e3)) = spec_u16(bytes, e2) {
                lemma_counted_round_trip::<u16>(bytes, e3);
                if let Ok((_, e4)) = spec_decode_counted::<u16>(bytes, e3) {
                    lemma_counted_round_trip::<FieldInfo>(bytes, e4);
                    if let Ok((_, e5)) = spec_decode_counted::<FieldInfo>(bytes, e4) {
                        lemma_counted_round_trip::<MethodInfo>(bytes, e5);
                        if let Ok((_, e6)) = spec_decode_counted::<MethodInfo>(bytes, e5) {
                            lemma_counted_round_trip::<AttributeInfo>(bytes, e6);
                            if let Ok((_, end)) = spec_decode_counted::<AttributeInfo>(bytes, e6) {
                                lemma_join(bytes, pos, e1, e2);
                                lemma_join(bytes, pos, e2, e3);
                                lemma_join(bytes, pos, e3, e4);
                                lemma_join(bytes, pos, e4, e5);
                                lemma_join(bytes, pos, e5, e6);
                                lemma_join(bytes, pos, e6, end);
                            }
                        }
                    }
                }
            }
        }
    }
}

/// A preamble that decodes from `bytes` decodes alike from every prefix that
/// still holds it; a shorter prefix is reported as truncated.
pub proof fn lemma_preamble_prefix(bytes: Seq<u8>, pos: int, m: int)
    requires
        0 <= pos <= m <= bytes.len(),
    ensures
        match spec_decode_preamble(bytes, pos) {
            Ok((v, end)) => if end <= m {
                spec_decode_preamble(bytes.take(m), pos) == Ok::<(Preamble, int), Error>((v, end))
            } else {
                is_truncated(spec_decode_preamble(bytes.take(m), pos))
            },
            Err(_) => true,
        },
{
    lemma_take_prefix(bytes, pos, 4, m);
    if let Ok((_, e1)) = spec_u32(bytes, pos) {
        if let Ok((_, e2)) = spec_u16(bytes, e1) {
            if let Ok((_, e3)) = spec_u16(bytes, e2) {
                if let Ok((count, e4)) = spec_u16(bytes, e3) {
                    lemma_pool_layout(bytes, e4, pool_slots(count));
                    if e1 <= m {
                        lemma_take_prefix(bytes, e1, 2, m);
                    }
                    if e2 <= m {
                        lemma_take_prefix(bytes, e2, 2, m);
                    }
                    if e3 <= m {
                        lemma_take_prefix(bytes, e3, 2, m);
                    }
                    if e4 <= m {
                        lemma_pool_prefix(bytes, e4, pool_slots(count), m);
                    }
                }
            }
        }
    }
}

/// A body that decodes from `bytes` decodes alike from every prefix that
/// still holds it; a shorter prefix is reported as truncated.
pub proof fn lemma_body_prefix(bytes: Seq<u8>, pos: int, head: Preamble, m: int)
    requires
        0 <= pos <= m <= bytes.len(),
    ensures
        match spec_decode_body(bytes, pos, head) {
            Ok((v, end)) => if end <= m {
                spec_decode_body(bytes.take(m), pos, head) == Ok::<(ClassView, int), Error>(
                    (v, end),
                )
            } else {
                is_truncated(spec_decode_body(bytes.take(m), pos, head))
            },
            Err(_) => true,
        },
{
    lemma_take_prefix(bytes, pos, 2, m);
    if let Ok((_, e1)) = spec_u16(bytes, pos) {
        if let Ok((_, e2)) = spec_u16(bytes, e1) {
            if let Ok((_, e3)) = spec_u16(bytes, e2) {
                lemma_counted_round_trip::<u16>(bytes, e3);
                if let Ok((_, e4)) = spec_decode_counted::<u16>(bytes, e3) {
                    lemma_counted_round_trip::<FieldInfo>(bytes, e4);
                    if let Ok((_, e5)) = spec_decode_counted::<FieldInfo>(bytes, e4) {
                        lemma_counted_round_trip::<MethodInfo>(bytes, e5);
                        if let Ok((_, e6)) = spec_decode_counted::<MethodInfo>(bytes, e5) {
                            lemma_counted_round_trip::<AttributeInfo>(bytes, e6);
                            if e1 <= m {
                                lemma_take_prefix(bytes, e1, 2, m);
                            }
                            if e2 <= m {
                                lemma_take_prefix(bytes, e2, 2, m);
                            }
                            if e3 <= m {
                                lemma_counted_prefix::<u16>(bytes, e3, m);
                            }
                            if e4 <= m {
                                lemma_counted_prefix::<FieldInfo>(bytes, e4, m);
                            }
                            if e5 <= m {
                                lemma_counted_prefix::<MethodInfo>(bytes, e5, m);
                            }
                            if e6 <= m {
                                lemma_counted_prefix::<AttributeInfo>(bytes, e6, m);
                            }
                        }
                    }
                }
            }
        }
    }
}

impl Encode for ClassFile {
    open spec fn encodable(v: ClassView) -> bool {
        class_encodable(v)
    }

    open spec fn spec_encode(v: ClassView) -> Seq<u8> {
        spec_encode_class(v)
    }

    fn is_encodable(&self) -> (r: bool) {
        self.constant_pool.len() <= 0xffff && all_are_encodable::<ConstantPoolInfo>(
            &self.constant_pool,
        ) && counted_is_encodable::<u16>(&self.interfaces) && counted_is_encodable::<FieldInfo>(
            &self.fields,
        ) && counted_is_encodable::<MethodInfo>(&self.methods) && counted_is_encodable::<
            AttributeInfo,
        >(&self.attributes)
    }

    fn encode(&self, output: &mut Vec<u8>) {
        encode_u32(MAGIC, output);
        encode_u16(self.minor_version, output);
        encode_u16(self.major_version, output);
        let slots: usize = self.constant_pool.len();
        let count: u16 = if slots >= 0xffff {
            0
        } else {
            (slots + 1) as u16
        };
        encode_u16(count, output);
        encode_seq::<ConstantPoolInfo>(&self.constant_pool, output);
        assert(output@ =~= old(output)@ + spec_encode_preamble(preamble_of(self.deep_view())));
        let ghost mid = output@;
        encode_u16(self.access_flags.bits, output);
        encode_u16(self.this_class, output);
        encode_u16(self.super_class, output);
        encode_counted::<u16>(&self.interfaces, output);
        encode_counted::<FieldInfo>(&self.fields, output);
        encode_counted::<MethodInfo>(&self.methods, output);
        encode_counted::<AttributeInfo>(&self.attributes, output);
        assert(output@ =~= mid + spec_encode_body(self.deep_view()));
        assert(output@ =~= old(output)@ + spec_encode_class(self.deep_view()));
    }
}

impl Decode for ClassFile {
    open spec fn spec_decode(bytes: Seq<u8>, pos: int) -> Result<(ClassView, int), Error> {
        spec_decode_class(bytes, pos)
    }

    fn decode(input: &mut Cursor<'_>) -> (r: Result<Self, Error>) {
        let magic: u32 = input.read_u32()?;
        if magic != MAGIC {
            return Err(Error::BadMagic { found: magic });
        }
        let minor_version: u16 = input.read_u16()?;
        let major_version: u16 = input.read_u16()?;
        let constant_pool = decode_constant_pool(input)?;
        let bits: u16 = input.read_u16()?;
        let this_class: u16 = input.read_u16()?;
        let super_class: u16 = input.read_u16()?;
        let interfaces = decode_counted::<u16>(input)?;
        let fields = decode_counted::<FieldInfo>(input)?;
        let methods = decode_counted::<MethodInfo>(input)?;
        let attributes = decode_counted::<AttributeInfo>(input)?;
        Ok(
            ClassFile {
                minor_version,
                major_version,
                constant_pool,
                access_flags: ClassAccessFlags::from_bits_retain(bits),
                this_class,
                super_class,
                interfaces,
                fields,
                methods,
                attributes,
            },
        )
    }

    proof fn lemma_round_trip(bytes: Seq<u8>, pos: int) {
        lemma_preamble_round_trip(bytes, pos);
        if let Ok((head, mid)) = spec_decode_preamble(bytes, pos) {
            lemma_body_round_trip(bytes, mid, head);
            if let Ok((_, end)) = spec_decode_body(bytes, mid, head) {
                lemma_join(bytes, pos, mid, end);
            }
        }
    }

    proof fn lemma_prefix(bytes: Seq<u8>, pos: int, m: int) {
        lemma_preamble_prefix(bytes, pos, m);
        lemma_preamble_round_trip(bytes, pos);
        if let Ok((head, mid)) = spec_decode_preamble(bytes, pos) {
            lemma_body_round_trip(bytes, mid, head);
            if mid <= m {
                lemma_body_prefix(bytes, mid, head, m);
            }
        }
    }
}

/// Encoding a decoded class file gives back, byte for byte, the input it was
/// decoded from.
pub proof fn lemma_decode_then_encode(bytes: Seq<u8>)
    ensures
        match spec_decode_class(bytes, 0) {
            Ok((v, end)) => 0 <= end <= bytes.len() && class_encodable(v) && spec_encode_class(v)
                == bytes.take(end) && (end == bytes.len() ==> spec_encode_class(v) == bytes),
            Err(_) => true,
        },
{
    ClassFile::lemma_round_trip(bytes, 0);
    if let Ok((v, end)) = spec_decode_class(bytes, 0) {
        assert(bytes.subrange(0, end) =~= bytes.take(end));
        if end == bytes.len() {
            assert(bytes.take(end) =~= bytes);
        }
    }
}

/// Every proper prefix of the bytes that a class file was decoded from
/// fails to decode, as truncated.
pub proof fn lemma_truncated_prefix(bytes: Seq<u8>, m: int)
    requires
        spec_decode_class(bytes, 0) is Ok,
        0 <= m < spec_decode_class(bytes, 0)->Ok_0.1,
    ensures
        is_truncated(spec_decode_class(bytes.take(m), 0)),
{
    ClassFile::lemma_round_trip(bytes, 0);
    ClassFile::lemma_prefix(bytes, 0, m);
}

/// Removing the last byte of a class file makes decoding fail as truncated.
pub proof fn lemma_truncation(bytes: Seq<u8>)
    requires
        spec_decode_class(bytes, 0) is Ok,
        spec_decode_class(bytes, 0)->Ok_0.1 == bytes.len(),
    ensures
        is_truncated(spec_decode_class(bytes.drop_last(), 0)),
{
    lemma_preamble_round_trip(bytes, 0);
    lemma_truncated_prefix(bytes, bytes.len() - 1);
    assert(bytes.take(bytes.len() - 1) =~= bytes.drop_last());
}

/// In the pool of a decoded class file, the slot behind a `Long` or a
/// `Double` is reserved, no other slot is, and the entries that follow
/// resume two slots on.
pub proof fn lemma_decoded_pool_layout(bytes: Seq<u8>)
    ensures
        match spec_decode_class(bytes, 0) {
            Ok((v, _)) => well_laid_out(v.constant_pool),
            Err(_) => true,
        },
{
    lemma_preamble_round_trip(bytes, 0);
}

/// Decodes a class file from the start of `bytes`. Bytes behind the class
/// file are left unread.
pub fn decode(bytes: &[u8]) -> (r: Result<ClassFile, Error>)
    ensures
        match spec_decode_class(bytes@, 0) {
            Ok((v, _)) => r is Ok && r->Ok_0.deep_view() == v && well_laid_out(v.constant_pool),
            Err(e) => r is Err && r->Err_0 == e,
        },
{
    let mut input = Cursor::new(bytes);
    proof {
        lemma_preamble_round_trip(bytes@, 0);
    }
    ClassFile::decode(&mut input)
}

/// The bytes of a class file, or nothing where one of its counts does not
/// fit the width of its field.
pub fn try_encode(class: &ClassFile) -> (r: Option<Vec<u8>>)
    ensures
        match r {
            Some(bytes) => class_encodable(class.deep_view()) && bytes@ == spec_encode_class(
                class.deep_view(),
            ),
            None => !class_encodable(class.deep_view()),
        },
{
    if class.is_encodable() {
        Some(encode(class))
    } else {
        None
    }
}

/// The bytes of a class file.
pub fn encode(class: &ClassFile) -> (bytes: Vec<u8>)
    requires
        class_encodable(class.deep_view()),
    ensures
        bytes@ == spec_encode_class(class.deep_view()),
{
    let mut bytes: Vec<u8> = Vec::new();
    class.encode(&mut bytes);
    assert(bytes@ =~= spec_encode_class(class.deep_view()));
    bytes
}

} // verus!
