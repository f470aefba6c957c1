//! The static-only view of a type, documented under a class-like name.
use vstd::prelude::*;
use vstd::string::StringExecFns;

use core::marker::PhantomData;

use crate::generator::{
    is_static, EnumGenerator, MemberDescriptor, RecordGenerator, ToTypename, TypeBody,
    TypeGenerator,
};
use crate::types::{name_view, Type};

verus! {

/// A type whose static surface can be documented through a proxy: it names
/// itself and describes its own schema node.
pub trait StaticUserdata: ToTypename + TypeBody + 'static {

}

impl<T: ToTypename + TypeBody + 'static> StaticUserdata for T {

}

/// The members of `s` that can be used without an instance, in order.
pub open spec fn static_only(s: Seq<MemberDescriptor>) -> Seq<MemberDescriptor>
    decreases s.len(),
{
    if s.len() == 0 {
        Seq::empty()
    } else if is_static(s[0]) {
        seq![s[0]] + static_only(s.drop_first())
    } else {
        static_only(s.drop_first())
    }
}

/// A qualified name whose display segment is prefixed with `Class`.
pub open spec fn class_name(name: Seq<Seq<char>>) -> Seq<Seq<char>> {
    if name.len() == 0 {
        name
    } else {
        name.update(name.len() - 1, "Class"@ + name.last())
    }
}

/// The display segment of a qualified name.
pub open spec fn display_name(name: Seq<Seq<char>>) -> Seq<char> {
    if name.len() == 0 {
        Seq::empty()
    } else {
        name.last()
    }
}

/// The documentation of a proxy for the type displayed as `display`.
pub open spec fn proxy_doc(display: Seq<char>) -> Seq<char> {
    "Collection of static methods for `"@ + display + "`."@
}

/// `view` is the static-only view of `full`.
pub open spec fn is_static_view(full: TypeGenerator, view: TypeGenerator) -> bool {
    match (full, view) {
        (TypeGenerator::Record(f), TypeGenerator::Record(v)) => {
            &&& name_view(v.name@) == class_name(name_view(f.name@))
            &&& v.type_doc@ == proxy_doc(display_name(name_view(f.name@)))
            &&& v.fields@.len() == 0
            &&& v.static_fields == f.static_fields
            &&& v.methods@ == static_only(f.methods@)
            &&& v.mut_methods@ == static_only(f.mut_methods@)
            &&& v.meta_method@ == static_only(f.meta_method@)
            &&& v.meta_method_mut@ == static_only(f.meta_method_mut@)
        },
        (TypeGenerator::Enum(f), TypeGenerator::Enum(v)) => {
            &&& name_view(v.name@) == class_name(name_view(f.name@))
            &&& v.variants == f.variants
        },
        _ => false,
    }
}

/// Keeps the members that can be used without an instance, in order.
pub fn keep_static(members: Vec<MemberDescriptor>) -> (r: Vec<MemberDescriptor>)
    ensures
        r@ == static_only(members@),
{
    let mut rest = members;
    let mut out: Vec<MemberDescriptor> = Vec::new();
    while rest.len() > 0
        invariant
            out@ + static_only(rest@) == static_only(members@),
        decreases rest.len(),
    {
        let ghost before = rest@;
        let m = rest.remove(0);
        assert(rest@ =~= before.drop_first());
        if m.is_static() {
            let ghost out0 = out@;
            out.push(m);
            assert(out0 + static_only(before) =~= out@ + static_only(rest@));
        }
    }
    assert(out@ + static_only(rest@) =~= out@);
    out
}

/// Prefixes the display segment of a qualified name with `Class`.
pub fn to_class_name(name: &mut Vec<String>)
    ensures
        name_view(final(name)@) == class_name(name_view(old(name)@)),
{
    if name.len() > 0 {
        let ghost before = name@;
        let last = name.pop().unwrap();
        let mut class = String::from_str("Class");
        class.append(last.as_str());
        name.push(class);
        assert(name_view(name@) =~= class_name(name_view(before)));
    }
}

/// The documentation of a proxy for the type named `name`.
fn proxy_doc_for(name: &Vec<String>) -> (r: String)
    ensures
        r@ == proxy_doc(display_name(name_view(name@))),
{
    let mut doc = String::from_str("Collection of static methods for `");
    if name.len() > 0 {
        doc.append(name[name.len() - 1].as_str());
    }
    doc.append("`.");
    assert(doc@ =~= proxy_doc(display_name(name_view(name@))));
    doc
}

/// Derives the static-only view of a schema node: instance members are
/// dropped, the display name gets the `Class` prefix, and a record's
/// documentation is replaced. Enum nodes keep their variants.
pub fn derive_static_view(full: TypeGenerator) -> (r: TypeGenerator)
    ensures
        is_static_view(full, r),
{
    match full {
        TypeGenerator::Record(rec) => {
            let rec = *rec;
            let type_doc = proxy_doc_for(&rec.name);
            let mut name = rec.name;
            to_class_name(&mut name);
            TypeGenerator::Record(
                Box::new(
                    RecordGenerator {
                        name,
                        type_doc,
                        fields: Vec::new(),
                        static_fields: rec.static_fields,
                        methods: keep_static(rec.methods),
                        mut_methods: keep_static(rec.mut_methods),
                        meta_method: keep_static(rec.meta_method),
                        meta_method_mut: keep_static(rec.meta_method_mut),
                    },
                ),
            )
        },
        TypeGenerator::Enum(en) => {
            let mut name = en.name;
            to_class_name(&mut name);
            TypeGenerator::Enum(EnumGenerator { name, variants: en.variants })
        },
    }
}

/// The class-like type reference of a proxy: a named type gets the `Class`
/// prefix on its display segment; other references stay as they are.
pub open spec fn is_proxy_typename(full: Type, proxy: Type) -> bool {
    match (full, proxy) {
        (Type::Single { name: n1, generics: g1 }, Type::Single { name: n2, generics: g2 }) => {
            &&& name_view(n2@) == class_name(name_view(n1@))
            &&& g2 == g1
        },
        (Type::Single { .. }, _) => false,
        _ => proxy == full,
    }
}

/// Turns the type reference of a type into that of its proxy.
pub fn proxy_typename(full: Type) -> (r: Type)
    ensures
        is_proxy_typename(full, r),
{
    match full {
        Type::Single { name, generics } => {
            let mut name = name;
            to_class_name(&mut name);
            Type::Single { name, generics }
        },
        other => other,
    }
}

/// Documents the static surface of `T` under the name `Class<T>`.
pub struct UserDataProxy<T> {
    ph_: PhantomData<T>,
}

impl<T: StaticUserdata> ToTypename for UserDataProxy<T> {
    fn to_typename() -> (r: Type)
        ensures
            exists|full: Type| is_proxy_typename(full, r),
    {
        proxy_typename(T::to_typename())
    }
}

impl<T: StaticUserdata> TypeBody for UserDataProxy<T> {
    fn get_type_body() -> (r: TypeGenerator)
        ensures
            exists|full: TypeGenerator| is_static_view(full, r),
    {
        derive_static_view(T::get_type_body())
    }
}

} // verus!
