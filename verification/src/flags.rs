//! Access-flag sets. Each kind of declaration has its own vocabulary; bits
//! outside it are kept as they were read.

use vstd::prelude::*;

verus! {

/// The flags of a class.
#[derive(Debug, Clone, Copy, PartialEq, Eq, Structural)]
pub struct ClassAccessFlags {
    pub bits: u16,
}

impl ClassAccessFlags {
    pub const PUBLIC: u16 = 0x0001;

    pub const FINAL: u16 = 0x0010;

    pub const SUPER: u16 = 0x0020;

    pub const INTERFACE: u16 = 0x0200;

    pub const SYNTHETIC: u16 = 0x1000;

    pub const ANNOTATION: u16 = 0x2000;

    pub const ENUM: u16 = 0x4000;

    pub const MODULE: u16 = 0x8000;

    /// Every bit of the vocabulary.
    pub const ALL: u16 = 0xf231;

    /// The set with exactly the bits of `bits`, known or not.
    pub fn from_bits_retain(bits: u16) -> (f: Self)
        ensures
            f.bits == bits,
    {
        ClassAccessFlags { bits }
    }

    /// The set with the bits of `bits`, if all of them are in the vocabulary.
    pub fn from_bits(bits: u16) -> (f: Option<Self>)
        ensures
            f == if bits & !0xf231u16 == 0 {
                Some(ClassAccessFlags { bits })
            } else {
                None
            },
    {
        if bits & !0xf231u16 == 0 {
            Some(ClassAccessFlags { bits })
        } else {
            None
        }
    }

    /// The raw bits.
    pub fn bits(&self) -> (b: u16)
        ensures
            b == self.bits,
    {
        self.bits
    }

    /// Whether every bit of `mask` is set.
    pub fn contains(&self, mask: u16) -> (r: bool)
        ensures
            r == (self.bits & mask == mask),
    {
        self.bits & mask == mask
    }

    /// The bits that are set and lie outside the vocabulary.
    pub fn unknown_bits(&self) -> (b: u16)
        ensures
            b == self.bits & !0xf231u16,
    {
        self.bits & !0xf231u16
    }
}

impl DeepView for ClassAccessFlags {
    type V = ClassAccessFlags;

    open spec fn deep_view(&self) -> ClassAccessFlags {
        *self
    }
}

/// The flags of a field.
#[derive(Debug, Clone, Copy, PartialEq, Eq, Structural)]
pub struct FieldAccessFlags {
    pub bits: u16,
}

impl FieldAccessFlags {
    pub const PUBLIC: u16 = 0x0001;

    pub const PRIVATE: u16 = 0x0002;

    pub const PROTECTED: u16 = 0x0004;

    pub const STATIC: u16 = 0x0008;

    pub const FINAL: u16 = 0x0010;

    pub const VOLATILE: u16 = 0x0040;

    pub const TRANSIENT: u16 = 0x0080;

    pub const SYNTHETIC: u16 = 0x1000;

    pub const ENUM: u16 = 0x4000;

    /// Every bit of the vocabulary.
    pub const ALL: u16 = 0x50df;

    /// The set with exactly the bits of `bits`, known or not.
    pub fn from_bits_retain(bits: u16) -> (f: Self)
        ensures
            f.bits == bits,
    {
        FieldAccessFlags { bits }
    }

    /// The set with the bits of `bits`, if all of them are in the vocabulary.
    pub fn from_bits(bits: u16) -> (f: Option<Self>)
        ensures
            f == if bits & !0x50dfu16 == 0 {
                Some(FieldAccessFlags { bits })
            } else {
                None
            },
    {
        if bits & !0x50dfu16 == 0 {
            Some(FieldAccessFlags { bits })
        } else {
            None
        }
    }

    /// The raw bits.
    pub fn bits(&self) -> (b: u16)
        ensures
            b == self.bits,
    {
        self.bits
    }

    /// Whether every bit of `mask` is set.
    pub fn contains(&self, mask: u16) -> (r: bool)
        ensures
            r == (self.bits & mask == mask),
    {
        self.bits & mask == mask
    }

    /// The bits that are set and lie outside the vocabulary.
    pub fn unknown_bits(&self) -> (b: u16)
        ensures
            b == self.bits & !0x50dfu16,
    {
        self.bits & !0x50dfu16
    }
}

impl DeepView for FieldAccessFlags {
    type V = FieldAccessFlags;

    open spec fn deep_view(&self) -> FieldAccessFlags {
        *self
    }
}

/// The flags of a method.
#[derive(Debug, Clone, Copy, PartialEq, Eq, Structural)]
pub struct MethodAccessFlags {
    pub bits: u16,
}

impl MethodAccessFlags {
    pub const PUBLIC: u16 = 0x0001;

    pub const PRIVATE: u16 = 0x0002;

    pub const PROTECTED: u16 = 0x0004;

    pub const STATIC: u16 = 0x0008;

    pub const FINAL: u16 = 0x0010;

    pub const SYNCHRONIZED: u16 = 0x0020;

    pub const BRIDGE: u16 = 0x0040;

    pub const VARARGS: u16 = 0x0080;

    pub const NATIVE: u16 = 0x0100;

    pub const ABSTRACT: u16 = 0x0400;

    pub const STRICT: u16 = 0x0800;

    pub const SYNTHETIC: u16 = 0x1000;

    /// Every bit of the vocabulary.
    pub const ALL: u16 = 0x1dff;

    /// The set with exactly the bits of `bits`, known or not.
    pub fn from_bits_retain(bits: u16) -> (f: Self)
        ensures
            f.bits == bits,
    {
        MethodAccessFlags { bits }
    }

    /// The set with the bits of `bits`, if all of them are in the vocabulary.
    pub fn from_bits(bits: u16) -> (f: Option<Self>)
        ensures
            f == if bits & !0x1dffu16 == 0 {
                Some(MethodAccessFlags { bits })
            } else {
                None
            },
    {
        if bits & !0x1dffu16 == 0 {
            Some(MethodAccessFlags { bits })
        } else {
            None
        }
    }

    /// The raw bits.
    pub fn bits(&self) -> (b: u16)
        ensures
            b == self.bits,
    {
        self.bits
    }

    /// Whether every bit of `mask` is set.
    pub fn contains(&self, mask: u16) -> (r: bool)
        ensures
            r == (self.bits & mask == mask),
    {
        self.bits & mask == mask
    }

    /// The bits that are set and lie outside the vocabulary.
    pub fn unknown_bits(&self) -> (b: u16)
        ensures
            b == self.bits & !0x1dffu16,
    {
        self.bits & !0x1dffu16
    }
}

impl DeepView for MethodAccessFlags {
    type V = MethodAccessFlags;

    open spec fn deep_view(&self) -> MethodAccessFlags {
        *self
    }
}

/// The flags of a method parameter.
#[derive(Debug, Clone, Copy, PartialEq, Eq, Structural)]
pub struct MethodParameterAccessFlags {
    pub bits: u16,
}

impl MethodParameterAccessFlags {
    pub const FINAL: u16 = 0x0010;

    pub const SYNTHETIC: u16 = 0x1000;

    pub const MANDATED: u16 = 0x8000;

    /// Every bit of the vocabulary.
    pub const ALL: u16 = 0x9010;

    /// The set with exactly the bits of `bits`, known or not.
    pub fn from_bits_retain(bits: u16) -> (f: Self)
        ensures
            f.bits == bits,
    {
        MethodParameterAccessFlags { bits }
    }

    /// The set with the bits of `bits`, if all of them are in the vocabulary.
    pub fn from_bits(bits: u16) -> (f: Option<Self>)
        ensures
            f == if bits & !0x9010u16 == 0 {
                Some(MethodParameterAccessFlags { bits })
            } else {
                None
            },
    {
        if bits & !0x9010u16 == 0 {
            Some(MethodParameterAccessFlags { bits })
        } else {
            None
        }
    }

    /// The raw bits.
    pub fn bits(&self) -> (b: u16)
        ensures
            b == self.bits,
    {
        self.bits
    }

    /// Whether every bit of `mask` is set.
    pub fn contains(&self, mask: u16) -> (r: bool)
        ensures
            r == (self.bits & mask == mask),
    {
        self.bits & mask == mask
    }

    /// The bits that are set and lie outside the vocabulary.
    pub fn unknown_bits(&self) -> (b: u16)
        ensures
            b == self.bits & !0x9010u16,
    {
        self.bits & !0x9010u16
    }
}

impl DeepView for MethodParameterAccessFlags {
    type V = MethodParameterAccessFlags;

    open spec fn deep_view(&self) -> MethodParameterAccessFlags {
        *self
    }
}

} // verus!
