//! The failures that decoding, descriptor parsing and pool lookups report.

use vstd::prelude::*;

verus! {

/// Why a decode, a descriptor parse or a constant-pool lookup failed.
#[derive(Debug, Clone, PartialEq, Eq)]
pub enum Error {
    /// The buffer ended before a read of `needed` bytes that began at
    /// `position` was satisfied.
    Truncated { position: usize, needed: usize },
    /// The first four bytes are not the class-file magic number.
    BadMagic { found: u32 },
    /// A constant-pool entry that begins at `position` carries an undefined tag.
    UnknownConstantTag { tag: u8, position: usize },
    /// The payload of a `Utf8` entry, beginning at `position`, is not UTF-8.
    InvalidUtf8 { position: usize },
    /// The descriptor `descriptor` breaks the grammar at character `position`.
    InvalidDescriptor { descriptor: String, position: usize },
    /// A one-based pool index is zero, past the end of the pool, names a
    /// reserved slot, or names an entry of another kind than asked for.
    IndexOutOfRange { index: u16 },
}

impl Error {
    /// A short description of the failure.
    pub fn message(&self) -> (s: &'static str)
        ensures
            s@ == self.spec_message()@,
    {
        match self {
            Error::Truncated { .. } => "input ends before a declared length is satisfied",
            Error::BadMagic { .. } => "not a class file: wrong magic number",
            Error::UnknownConstantTag { .. } => "unknown constant pool tag",
            Error::InvalidUtf8 { .. } => "constant pool string is not valid UTF-8",
            Error::InvalidDescriptor { .. } => "malformed descriptor",
            Error::IndexOutOfRange { .. } => "constant pool index out of range",
        }
    }

    /// The description that [`Error::message`] returns.
    pub open spec fn spec_message(self) -> &'static str {
        match self {
            Error::Truncated { .. } => "input ends before a declared length is satisfied",
            Error::BadMagic { .. } => "not a class file: wrong magic number",
            Error::UnknownConstantTag { .. } => "unknown constant pool tag",
            Error::InvalidUtf8 { .. } => "constant pool string is not valid UTF-8",
            Error::InvalidDescriptor { .. } => "malformed descriptor",
            Error::IndexOutOfRange { .. } => "constant pool index out of range",
        }
    }
}

} // verus!
