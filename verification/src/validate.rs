//! The check that every pool index of a decoded class addresses an entry of
//! the kind that its place asks for. Decoding does not make this check:
//! entries may refer forward, and the decoder reads each of them once.

use crate::class::{ClassFile, ClassView};
use crate::constant::{ConstantPoolInfo, ConstantView};
use crate::member::{AttributeInfo, AttributeView, MemberView};
use crate::resolve::{resolve, resolve_class_name, spec_resolve, spec_resolve_class_name};
use vstd::prelude::*;

verus! {

/// The kinds of entry that an index can be asked to address.
#[derive(Debug, Clone, Copy, PartialEq, Eq, Structural)]
pub enum Expected {
    Utf8,
    Class,
    NameAndType,
    /// A `Fieldref`, a `Methodref` or an `InterfaceMethodref`.
    MemberRef,
}

/// Whether the entry `v` is of the kind `kind`.
pub open spec fn is_of_kind(v: ConstantView, kind: Expected) -> bool {
    match kind {
        Expected::Utf8 => v is Utf8,
        Expected::Class => v is Class,
        Expected::NameAndType => v is NameAndType,
        Expected::MemberRef => v is Fieldref || v is Methodref || v is InterfaceMethodref,
    }
}

/// Whether `index` addresses an entry of the kind `kind`.
pub open spec fn addresses(pool: Seq<ConstantView>, index: u16, kind: Expected) -> bool {
    match spec_resolve(pool, index) {
        Ok(v) => is_of_kind(v, kind),
        Err(_) => false,
    }
}

/// Whether the indices that the entry `v` holds address entries of the
/// kinds they should. The index of a bootstrap method is none of the pool
/// and is left alone.
pub open spec fn entry_valid(pool: Seq<ConstantView>, v: ConstantView) -> bool {
    match v {
        ConstantView::Class { name_index } => addresses(pool, name_index, Expected::Utf8),
        ConstantView::String { string_index } => addresses(pool, string_index, Expected::Utf8),
        ConstantView::Fieldref { class_index, name_and_type_index } => addresses(
            pool,
            class_index,
            Expected::Class,
        ) && addresses(pool, name_and_type_index, Expected::NameAndType),
        ConstantView::Methodref { class_index, name_and_type_index } => addresses(
            pool,
            class_index,
            Expected::Class,
        ) && addresses(pool, name_and_type_index, Expected::NameAndType),
        ConstantView::InterfaceMethodref { class_index, name_and_type_index } => addresses(
            pool,
            class_index,
            Expected::Class,
        ) && addresses(pool, name_and_type_index, Expected::NameAndType),
        ConstantView::NameAndType { name_index, descriptor_index } => addresses(
            pool,
            name_index,
            Expected::Utf8,
        ) && addresses(pool, descriptor_index, Expected::Utf8),
        ConstantView::MethodHandle { reference_kind, reference_index } => addresses(
            pool,
            reference_index,
            Expected::MemberRef,
        ),
        ConstantView::MethodType { descriptor_index } => addresses(
            pool,
            descriptor_index,
            Expected::Utf8,
        ),
        ConstantView::Dynamic { bootstrap_method_attr_index, name_and_type_index } => addresses(
            pool,
            name_and_type_index,
            Expected::NameAndType,
        ),
        ConstantView::InvokeDynamic { bootstrap_method_attr_index, name_and_type_index } => {
            addresses(pool, name_and_type_index, Expected::NameAndType)
        },
        ConstantView::Module { name_index } => addresses(pool, name_index, Expected::Utf8),
        ConstantView::Package { name_index } => addresses(pool, name_index, Expected::Utf8),
        _ => true,
    }
}

/// Whether every entry of the pool is valid in it.
pub open spec fn pool_valid(pool: Seq<ConstantView>) -> bool {
    forall|i: int| 0 <= i < pool.len() ==> entry_valid(pool, #[trigger] pool[i])
}

/// Whether every attribute of the run is named by a `Utf8` entry.
pub open spec fn attributes_valid(pool: Seq<ConstantView>, attributes: Seq<AttributeView>) -> bool {
    forall|i: int|
        0 <= i < attributes.len() ==> addresses(
            pool,
            (#[trigger] attributes[i]).attribute_name_index,
            Expected::Utf8,
        )
}

/// Whether name and descriptor of a member, and the names of its
/// attributes, are `Utf8` entries.
pub open spec fn member_valid(pool: Seq<ConstantView>, m: MemberView) -> bool {
    &&& addresses(pool, m.name_index, Expected::Utf8)
    &&& addresses(pool, m.descriptor_index, Expected::Utf8)
    &&& attributes_valid(pool, m.attributes)
}

/// Whether every member of the run is valid.
pub open spec fn members_valid(pool: Seq<ConstantView>, members: Seq<MemberView>) -> bool {
    forall|i: int| 0 <= i < members.len() ==> member_valid(pool, #[trigger] members[i])
}

/// Whether every interface of the run is a `Class` entry.
pub open spec fn interfaces_valid(pool: Seq<ConstantView>, interfaces: Seq<u16>) -> bool {
    forall|i: int|
        0 <= i < interfaces.len() ==> addresses(pool, #[trigger] interfaces[i], Expected::Class)
}

/// Whether the superclass index is in order: it addresses a `Class` entry,
/// or it is 0 and the class itself is `java/lang/Object`.
pub open spec fn super_class_valid(pool: Seq<ConstantView>, this_class: u16, super_class: u16)
    -> bool {
    if super_class == 0 {
        spec_resolve_class_name(pool, this_class) == Ok::<Seq<char>, crate::error::Error>(
            "java/lang/Object"@,
        )
    } else {
        addresses(pool, super_class, Expected::Class)
    }
}

/// Whether every pool index of the class addresses an entry of the kind
/// that its place asks for.
pub open spec fn class_valid(v: ClassView) -> bool {
    &&& pool_valid(v.constant_pool)
    &&& addresses(v.constant_pool, v.this_class, Expected::Class)
    &&& super_class_valid(v.constant_pool, v.this_class, v.super_class)
    &&& interfaces_valid(v.constant_pool, v.interfaces)
    &&& members_valid(v.constant_pool, v.fields)
    &&& members_valid(v.constant_pool, v.methods)
    &&& attributes_valid(v.constant_pool, v.attributes)
}

/// Whether `index` addresses an entry of the kind `kind`.
pub fn index_addresses(pool: &Vec<ConstantPoolInfo>, index: u16, kind: Expected) -> (r: bool)
    ensures
        r == addresses(pool.deep_view(), index, kind),
{
    match resolve(pool, index) {
        Err(_) => false,
        Ok(entry) => match kind {
            Expected::Utf8 => match entry {
                ConstantPoolInfo::Utf8(_) => true,
                _ => false,
            },
            Expected::Class => match entry {
                ConstantPoolInfo::Class { .. } => true,
                _ => false,
            },
            Expected::NameAndType => match entry {
                ConstantPoolInfo::NameAndType { .. } => true,
                _ => false,
            },
            Expected::MemberRef => match entry {
                ConstantPoolInfo::Fieldref { .. } => true,
                ConstantPoolInfo::Methodref { .. } => true,
                ConstantPoolInfo::InterfaceMethodref { .. } => true,
                _ => false,
            },
        },
    }
}

/// Whether the indices that `entry` holds address entries of the kinds
/// they should.
pub fn entry_is_valid(pool: &Vec<ConstantPoolInfo>, entry: &ConstantPoolInfo) -> (r: bool)
    ensures
        r == entry_valid(pool.deep_view(), entry.deep_view()),
{
    match entry {
        ConstantPoolInfo::Class { name_index } => index_addresses(
            pool,
            *name_index,
            Expected::Utf8,
        ),
        ConstantPoolInfo::String { string_index } => index_addresses(
            pool,
            *string_index,
            Expected::Utf8,
        ),
        ConstantPoolInfo::Fieldref { class_index, name_and_type_index } => index_addresses(
            pool,
            *class_index,
            Expected::Class,
        ) && index_addresses(pool, *name_and_type_index, Expected::NameAndType),
        ConstantPoolInfo::Methodref { class_index, name_and_type_index } => index_addresses(
            pool,
            *class_index,
            Expected::Class,
        ) && index_addresses(pool, *name_and_type_index, Expected::NameAndType),
        ConstantPoolInfo::InterfaceMethodref { class_index, name_and_type_index } => {
            index_addresses(pool, *class_index, Expected::Class) && index_addresses(
                pool,
                *name_and_type_index,
                Expected::NameAndType,
            )
        },
        ConstantPoolInfo::NameAndType { name_index, descriptor_index } => index_addresses(
            pool,
            *name_index,
            Expected::Utf8,
        ) && index_addresses(pool, *descriptor_index, Expected::Utf8),
        ConstantPoolInfo::MethodHandle { reference_kind, reference_index } => index_addresses(
            pool,
            *reference_index,
            Expected::MemberRef,
        ),
        ConstantPoolInfo::MethodType { descriptor_index } => index_addresses(
            pool,
            *descriptor_index,
            Expected::Utf8,
        ),
        ConstantPoolInfo::Dynamic { bootstrap_method_attr_index, name_and_type_index } => {
            index_addresses(pool, *name_and_type_index, Expected::NameAndType)
        },
        ConstantPoolInfo::InvokeDynamic { bootstrap_method_attr_index, name_and_type_index } => {
            index_addresses(pool, *name_and_type_index, Expected::NameAndType)
        },
        ConstantPoolInfo::Module { name_index } => index_addresses(
            pool,
            *name_index,
            Expected::Utf8,
        ),
        ConstantPoolInfo::Package { name_index } => index_addresses(
            pool,
            *name_index,
            Expected::Utf8,
        ),
        _ => true,
    }
}

/// Whether every entry of the pool is valid in it.
pub fn pool_is_valid(pool: &Vec<ConstantPoolInfo>) -> (r: bool)
    ensures
        r == pool_valid(pool.deep_view()),
{
    let ghost view = pool.deep_view();
    let mut i: usize = 0;
    while i < pool.len()
        invariant
            i <= pool.len(),
            view == pool.deep_view(),
            forall|j: int| 0 <= j < i ==> entry_valid(view, #[trigger] view[j]),
        decreases pool.len() - i,
    {
        assert(view[i as int] == pool[i as int].deep_view());
        if !entry_is_valid(pool, &pool[i]) {
            return false;
        }
        i = i + 1;
    }
    true
}

/// Whether every attribute of the run is named by a `Utf8` entry.
pub fn attributes_are_valid(pool: &Vec<ConstantPoolInfo>, attributes: &Vec<AttributeInfo>) -> (r:
    bool)
    ensures
        r == attributes_valid(pool.deep_view(), attributes.deep_view()),
{
    let ghost view = attributes.deep_view();
    let mut i: usize = 0;
    while i < attributes.len()
        invariant
            i <= attributes.len(),
            view == attributes.deep_view(),
            forall|j: int|
                0 <= j < i ==> addresses(
                    pool.deep_view(),
                    (#[trigger] view[j]).attribute_name_index,
                    Expected::Utf8,
                ),
        decreases attributes.len() - i,
    {
        assert(view[i as int] == attributes[i as int].deep_view());
        if !index_addresses(pool, attributes[i].attribute_name_index, Expected::Utf8) {
            return false;
        }
        i = i + 1;
    }
    true
}

/// Whether name and descriptor of a member, and the names of its
/// attributes, are `Utf8` entries.
pub fn member_is_valid(
    pool: &Vec<ConstantPoolInfo>,
    name_index: u16,
    descriptor_index: u16,
    attributes: &Vec<AttributeInfo>,
) -> (r: bool)
    ensures
        r == (addresses(pool.deep_view(), name_index, Expected::Utf8) && addresses(
            pool.deep_view(),
            descriptor_index,
            Expected::Utf8,
        ) && attributes_valid(pool.deep_view(), attributes.deep_view())),
{
    index_addresses(pool, name_index, Expected::Utf8) && index_addresses(
        pool,
        descriptor_index,
        Expected::Utf8,
    ) && attributes_are_valid(pool, attributes)
}

impl ClassFile {
    /// Whether every pool index of the class addresses an entry of the kind
    /// that its place asks for.
    pub fn is_valid(&self) -> (r: bool)
        ensures
            r == class_valid(self.deep_view()),
    {
        let pool = &self.constant_pool;
        if !pool_is_valid(pool) {
            return false;
        }
        if !index_addresses(pool, self.this_class, Expected::Class) {
            return false;
        }
        if self.super_class == 0 {
            let root = match resolve_class_name(pool, self.this_class) {
                Ok(name) => name.to_owned() == "java/lang/Object".to_owned(),
                Err(_) => false,
            };
            if !root {
                return false;
            }
        } else if !index_addresses(pool, self.super_class, Expected::Class) {
            return false;
        }
        let ghost interfaces = self.interfaces.deep_view();
        let mut i: usize = 0;
        while i < self.interfaces.len()
            invariant
                i <= self.interfaces.len(),
                interfaces == self.interfaces.deep_view(),
                forall|j: int|
                    0 <= j < i ==> addresses(
                        self.constant_pool.deep_view(),
                        #[trigger] interfaces[j],
                        Expected::Class,
                    ),
            decreases self.interfaces.len() - i,
        {
            assert(interfaces[i as int] == self.interfaces[i as int]);
            if !index_addresses(&self.constant_pool, self.interfaces[i], Expected::Class) {
                return false;
            }
            i = i + 1;
        }
        let ghost fields = self.fields.deep_view();
        let mut k: usize = 0;
        while k < self.fields.len()
            invariant
                k <= self.fields.len(),
                fields == self.fields.deep_view(),
                forall|j: int|
                    0 <= j < k ==> member_valid(
                        self.constant_pool.deep_view(),
                        #[trigger] fields[j],
                    ),
            decreases self.fields.len() - k,
        {
            assert(fields[k as int] == self.fields[k as int].deep_view());
            let field = &self.fields[k];
            if !member_is_valid(
                &self.constant_pool,
                field.name_index,
                field.descriptor_index,
                &field.attributes,
            ) {
                return false;
            }
            k = k + 1;
        }
        let ghost methods = self.methods.deep_view();
        let mut n: usize = 0;
        while n < self.methods.len()
            invariant
                n <= self.methods.len(),
                methods == self.methods.deep_view(),
                forall|j: int|
                    0 <= j < n ==> member_valid(
                        self.constant_pool.deep_view(),
                        #[trigger] methods[j],
                    ),
            decreases self.methods.len() - n,
        {
            assert(methods[n as int] == self.methods[n as int].deep_view());
            let method = &self.methods[n];
            if !member_is_valid(
                &self.constant_pool,
                method.name_index,
                method.descriptor_index,
                &method.attributes,
            ) {
                return false;
            }
            n = n + 1;
        }
        attributes_are_valid(&self.constant_pool, &self.attributes)
    }
}

} // verus!
