//! Member descriptors and the schema node of a named type.
use vstd::prelude::*;

use crate::types::{FunctionSignature, Type};

verus! {

/// How a field is reached.
#[derive(Clone, Copy, PartialEq, Eq, Structural)]
pub enum FieldAccess {
    InstanceGet,
    InstanceSet,
    StaticGet,
    StaticSet,
}

/// One exposed member of a record.
pub enum MemberDescriptor {
    /// Called on an instance.
    Method { name: String, signature: FunctionSignature, is_mut: bool, doc: Option<String> },
    /// Called without a receiver.
    Function { name: String, signature: FunctionSignature, is_mut: bool, doc: Option<String> },
    /// An operator hook; `has_receiver` is false for the static kind.
    MetaMethod {
        operator: String,
        signature: FunctionSignature,
        is_mut: bool,
        has_receiver: bool,
        doc: Option<String>,
    },
    /// A field with its type and the way it is reached.
    Field { name: String, ty: Type, access: FieldAccess, doc: Option<String> },
}

/// Whether a member can be used without an instance.
pub open spec fn is_static(m: MemberDescriptor) -> bool {
    match m {
        MemberDescriptor::Method { .. } => false,
        MemberDescriptor::Function { .. } => true,
        MemberDescriptor::MetaMethod { has_receiver, .. } => !has_receiver,
        MemberDescriptor::Field { access, .. } => access == FieldAccess::StaticGet || access
            == FieldAccess::StaticSet,
    }
}

impl MemberDescriptor {
    /// Whether this member can be used without an instance.
    pub fn is_static(&self) -> (r: bool)
        ensures
            r == is_static(*self),
    {
        match self {
            MemberDescriptor::Method { .. } => false,
            MemberDescriptor::Function { .. } => true,
            MemberDescriptor::MetaMethod { has_receiver, .. } => !*has_receiver,
            MemberDescriptor::Field { access, .. } => match access {
                FieldAccess::StaticGet | FieldAccess::StaticSet => true,
                _ => false,
            },
        }
    }
}

/// A qualified name is well formed when it has a display segment.
pub open spec fn valid_name(name: Seq<Seq<char>>) -> bool {
    name.len() > 0
}

/// The shape of a record type.
pub struct RecordGenerator {
    /// Namespace segments followed by the display name.
    pub name: Vec<String>,
    pub type_doc: String,
    /// Fields reached through an instance.
    pub fields: Vec<MemberDescriptor>,
    /// Fields reached without an instance.
    pub static_fields: Vec<MemberDescriptor>,
    pub methods: Vec<MemberDescriptor>,
    pub mut_methods: Vec<MemberDescriptor>,
    pub meta_method: Vec<MemberDescriptor>,
    pub meta_method_mut: Vec<MemberDescriptor>,
}

/// The shape of an enum type: its variants in registration order.
pub struct EnumGenerator {
    pub name: Vec<String>,
    pub variants: Vec<String>,
}

/// The schema node of one named type.
pub enum TypeGenerator {
    Record(Box<RecordGenerator>),
    Enum(EnumGenerator),
}

/// The qualified name of a schema node.
pub open spec fn node_name(g: TypeGenerator) -> Seq<String> {
    match g {
        TypeGenerator::Record(r) => r.name@,
        TypeGenerator::Enum(e) => e.name@,
    }
}

impl TypeGenerator {
    /// The qualified name of this node.
    pub fn name(&self) -> (r: &Vec<String>)
        ensures
            r@ == node_name(*self),
    {
        match self {
            TypeGenerator::Record(r) => &r.name,
            TypeGenerator::Enum(e) => &e.name,
        }
    }
}

/// A type that can describe its own schema node.
pub trait TypeBody {
    fn get_type_body() -> TypeGenerator;
}

/// A type that can name itself as a type reference.
pub trait ToTypename {
    fn to_typename() -> Type;
}

} // verus!
