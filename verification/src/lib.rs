//! Decoder for the JVM class-file format and parser for its type descriptors.
//!
//! Every decoder is specified by a pure function from a byte sequence and an
//! offset to either a decoded value with the offset behind it, or an error.
//! The executable decoders are proved to compute exactly that function, and
//! the encoders to invert it.

pub mod error;
pub mod endian;
pub mod cursor;
pub mod codec;
pub mod primitive;
pub mod flags;
pub mod member;
pub mod constant;
pub mod pool;
pub mod class;
pub mod descriptor;
pub mod resolve;
pub mod attribute;
pub mod validate;

pub use attribute::{
    decode_attribute, decode_payload, MethodParameter, MethodParametersAttribute, TypedAttribute,
};
pub use class::{decode, encode, try_encode, ClassFile, MAGIC};
pub use codec::{Decode, Encode};
pub use constant::ConstantPoolInfo;
pub use cursor::Cursor;
pub use descriptor::{parse_field_type, parse_method_descriptor, FieldType, MethodDescriptor};
pub use error::Error;
pub use flags::{
    ClassAccessFlags, FieldAccessFlags, MethodAccessFlags, MethodParameterAccessFlags,
};
pub use member::{AttributeInfo, FieldInfo, MethodInfo};
pub use resolve::{resolve, resolve_class_name, resolve_utf8};
pub use validate::{pool_is_valid, Expected};
