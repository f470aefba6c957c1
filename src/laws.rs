//! Laws that relate several calls of the library.
use vstd::prelude::*;

use crate::generator::{is_static, node_name, valid_name, MemberDescriptor, TypeGenerator};
use crate::proxy::{class_name, display_name, is_proxy_typename, is_static_view, static_only};
use crate::types::{name_view, same_list, same_signature, same_type, Type};
use crate::walker::{bound_where, distinct_names, has_name, is_bound, processed, GlobalBinding};

verus! {

/// Requesting a node a second time, or any node of the same qualified name,
/// leaves the nodes as one request did. Names stay distinct, so after a
/// request its name has exactly one node.
pub proof fn lemma_process_idempotent(
    nodes: Seq<TypeGenerator>,
    node: TypeGenerator,
    again: TypeGenerator,
)
    requires
        distinct_names(nodes),
        name_view(node_name(again)) == name_view(node_name(node)),
    ensures
        processed(processed(nodes, node), again) == processed(nodes, node),
        has_name(processed(nodes, node), name_view(node_name(node))),
        distinct_names(processed(nodes, node)),
{
    let once = processed(nodes, node);
    if !has_name(nodes, name_view(node_name(node))) {
        assert(once[nodes.len() as int] == node);
        assert forall|i: int, j: int| 0 <= i < j < once.len() implies name_view(
            node_name(#[trigger] once[i]),
        ) != name_view(node_name(#[trigger] once[j])) by {
            assert(once[i] == nodes[i]);
            if j < nodes.len() {
                assert(once[j] == nodes[j]);
            }
        }
    }
    assert(has_name(once, name_view(node_name(again))));
}

/// The static view keeps exactly the static members, in order: each kept
/// member is static and comes from the full list, and each static member
/// of the full list is kept.
pub proof fn lemma_static_only_members(s: Seq<MemberDescriptor>)
    ensures
        forall|m: MemberDescriptor| #[trigger] static_only(s).contains(m) ==> is_static(m) && s.contains(m),
        forall|m: MemberDescriptor| #[trigger] s.contains(m) && is_static(m) ==> static_only(s).contains(m),
    decreases s.len(),
{
    if s.len() > 0 {
        lemma_static_only_members(s.drop_first());
        assert forall|m: MemberDescriptor| #[trigger] static_only(s).contains(m) implies is_static(m) && s.contains(m) by {
            let rest = static_only(s.drop_first());
            if is_static(s[0]) {
                if m != s[0] {
                    let k = choose|k: int| 0 <= k < static_only(s).len() && static_only(s)[k] == m;
                    assert(rest[k - 1] == m);
                    assert(rest.contains(m));
                }
            }
            if s.drop_first().contains(m) {
                let k = choose|k: int| 0 <= k < s.drop_first().len() && s.drop_first()[k] == m;
                assert(s[k + 1] == m);
            }
            if m == s[0] {
                assert(s[0] == m);
            }
        }
        assert forall|m: MemberDescriptor| #[trigger] s.contains(m) && is_static(m) implies static_only(s).contains(m) by {
            let k = choose|k: int| 0 <= k < s.len() && s[k] == m;
            if k == 0 {
                assert(static_only(s)[0] == m);
            } else {
                assert(s.drop_first()[k - 1] == m);
                assert(s.drop_first().contains(m));
                let rest = static_only(s.drop_first());
                assert(rest.contains(m));
                let j = choose|j: int| 0 <= j < rest.len() && rest[j] == m;
                if is_static(s[0]) {
                    assert(static_only(s)[j + 1] == m);
                } else {
                    assert(static_only(s)[j] == m);
                }
            }
        }
    }
}

/// The class name of a well-formed qualified name keeps the namespace
/// segments, prefixes the display segment with `Class`, stays well formed,
/// and differs from the name it came from.
pub proof fn lemma_class_name(name: Seq<Seq<char>>)
    requires
        valid_name(name),
    ensures
        valid_name(class_name(name)),
        class_name(name).len() == name.len(),
        class_name(name).subrange(0, name.len() - 1) == name.subrange(0, name.len() - 1),
        display_name(class_name(name)) == "Class"@ + display_name(name),
        class_name(name) != name,
{
    reveal_strlit("Class");
    let c = class_name(name);
    assert(c.subrange(0, name.len() - 1) =~= name.subrange(0, name.len() - 1));
    assert(c.last().len() == name.last().len() + 5);
}

/// The static view of a record keeps, in each method list, exactly the
/// static members of the full list; it has no instance fields and the same
/// static fields. The view of a well-formed name has another name, so the
/// type and its proxy are two nodes.
pub proof fn lemma_proxy_filtering(full: TypeGenerator, view: TypeGenerator)
    requires
        is_static_view(full, view),
    ensures
        valid_name(name_view(node_name(full))) ==> name_view(node_name(view)) != name_view(
            node_name(full),
        ),
        full is Record ==> {
            let f = full->Record_0;
            let v = view->Record_0;
            &&& view is Record
            &&& v.fields@.len() == 0
            &&& v.static_fields == f.static_fields
            &&& forall|m: MemberDescriptor|
                #[trigger] v.methods@.contains(m) <==> f.methods@.contains(m) && is_static(m)
            &&& forall|m: MemberDescriptor|
                #[trigger] v.mut_methods@.contains(m) <==> f.mut_methods@.contains(m) && is_static(m)
            &&& forall|m: MemberDescriptor|
                #[trigger] v.meta_method@.contains(m) <==> f.meta_method@.contains(m) && is_static(m)
            &&& forall|m: MemberDescriptor|
                #[trigger] v.meta_method_mut@.contains(m) <==> f.meta_method_mut@.contains(m)
                    && is_static(m)
        },
        full is Enum ==> view is Enum && view->Enum_0.variants == full->Enum_0.variants,
{
    if valid_name(name_view(node_name(full))) {
        lemma_class_name(name_view(node_name(full)));
    }
    if let TypeGenerator::Record(f) = full {
        lemma_static_only_members(f.methods@);
        lemma_static_only_members(f.mut_methods@);
        lemma_static_only_members(f.meta_method@);
        lemma_static_only_members(f.meta_method_mut@);
    }
}

/// Requesting a type and then its proxy, neither present before, adds both
/// nodes in that order.
pub proof fn lemma_type_and_proxy_nodes(
    nodes: Seq<TypeGenerator>,
    full: TypeGenerator,
    view: TypeGenerator,
)
    requires
        is_static_view(full, view),
        valid_name(name_view(node_name(full))),
        !has_name(nodes, name_view(node_name(full))),
        !has_name(nodes, name_view(node_name(view))),
    ensures
        processed(processed(nodes, full), view) == nodes.push(full).push(view),
{
    lemma_proxy_filtering(full, view);
    let once = nodes.push(full);
    if has_name(once, name_view(node_name(view))) {
        let i = choose|i: int|
            0 <= i < once.len() && name_view(node_name(#[trigger] once[i])) == name_view(
                node_name(view),
            );
        if i < nodes.len() {
            assert(once[i] == nodes[i]);
        }
    }
}

/// The proxy's type reference of a well-formed named type has another
/// qualified name, so binding one global name to a type and then to its
/// proxy is a collision.
pub proof fn lemma_proxy_typename_differs(full: Type, proxy: Type)
    requires
        is_proxy_typename(full, proxy),
        full is Single,
        valid_name(name_view(full->name@)),
    ensures
        proxy is Single,
        name_view(proxy->name@) == class_name(name_view(full->name@)),
        name_view(proxy->name@) != name_view(full->name@),
{
    lemma_class_name(name_view(full->name@));
}

/// Once `binding` is bound to the type named `ty`, binding it to a type of
/// another name is a collision, and binding it to the same name again finds
/// it bound to that name, with one binding of that name in all.
pub proof fn lemma_binding_collision(
    globals: Seq<GlobalBinding>,
    entry: GlobalBinding,
    other: Seq<Seq<char>>,
)
    requires
        !is_bound(globals, entry.binding@),
    ensures
        bound_where(globals.push(entry), entry.binding@, name_view(entry.ty@), true),
        !bound_where(globals.push(entry), entry.binding@, name_view(entry.ty@), false),
        other != name_view(entry.ty@) ==> bound_where(globals.push(entry), entry.binding@, other, false)
            && !bound_where(globals.push(entry), entry.binding@, other, true),
        forall|i: int|
            0 <= i < globals.len() + 1 && (#[trigger] globals.push(entry)[i]).binding@
                == entry.binding@ ==> i == globals.len(),
{
    let g2 = globals.push(entry);
    assert(g2[globals.len() as int].binding@ == entry.binding@);
    assert forall|i: int| 0 <= i < globals.len() + 1 && (#[trigger] g2[i]).binding@ == entry.binding@ implies i
        == globals.len() by {
        if i < globals.len() {
            assert(g2[i] == globals[i]);
        }
    }
}

/// List equality is position-by-position equality.
pub proof fn lemma_same_list_pointwise(a: Vec<Type>, b: Vec<Type>, n: nat)
    requires
        n <= a.len(),
        n <= b.len(),
    ensures
        same_list(a, b, n) <==> forall|i: int| 0 <= i < n ==> same_type(#[trigger] a[i], b[i]),
    decreases n,
{
    if n > 0 {
        lemma_same_list_pointwise(a, b, (n - 1) as nat);
        if forall|i: int| 0 <= i < n ==> same_type(#[trigger] a[i], b[i]) {
            assert(forall|i: int| 0 <= i < n - 1 ==> same_type(#[trigger] a[i], b[i]));
            assert(same_type(a[n - 1], b[n - 1]));
        }
    }
}

/// Every type reference equals itself.
pub proof fn lemma_same_type_reflexive(t: Type)
    ensures
        same_type(t, t),
    decreases t, 0nat,
{
    match t {
        Type::Single { name, generics } => {
            lemma_same_list_reflexive(generics, generics.len() as nat);
        },
        Type::Array(x) => {
            lemma_same_type_reflexive(*x);
        },
        Type::Function(sig) => {
            lemma_same_list_reflexive(sig.params, sig.params.len() as nat);
            lemma_same_list_reflexive(sig.returns, sig.returns.len() as nat);
            assert(same_signature(sig, sig));
        },
    }
}

/// Every type list equals itself.
pub proof fn lemma_same_list_reflexive(a: Vec<Type>, n: nat)
    requires
        n <= a.len(),
    ensures
        same_list(a, a, n),
    decreases a, n,
{
    if n > 0 {
        lemma_same_list_reflexive(a, (n - 1) as nat);
        lemma_same_type_reflexive(a[n - 1]);
    }
}

/// Two named type references are equal exactly when their qualified names
/// agree segment by segment and their generic arguments agree position by
/// position; the same arguments in another order make them differ, and a
/// reference equals itself however it was built.
pub proof fn lemma_single_equality(n1: Vec<String>, g1: Vec<Type>, n2: Vec<String>, g2: Vec<Type>)
    ensures
        same_type((Type::Single { name: n1, generics: g1 }), (Type::Single { name: n2, generics: g2 }))
            <==> (name_view(n1@) == name_view(n2@) && g1.len() == g2.len() && forall|i: int|
            0 <= i < g1.len() ==> same_type(#[trigger] g1[i], g2[i])),
        same_type((Type::Single { name: n1, generics: g1 }), (Type::Single { name: n1, generics: g1 })),
{
    if g1.len() == g2.len() {
        lemma_same_list_pointwise(g1, g2, g1.len() as nat);
    }
    lemma_same_type_reflexive(Type::Single { name: n1, generics: g1 });
}

} // verus!
