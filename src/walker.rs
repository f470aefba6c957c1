//! The document builder: schema nodes deduplicated by qualified name, in
//! first-request order, and the table of global bindings.
use vstd::prelude::*;

use crate::generator::{node_name, TypeBody, TypeGenerator};
use crate::types::name_view;

verus! {

/// A global name of the scripting environment and the type bound to it.
pub struct GlobalBinding {
    pub binding: String,
    pub ty: Vec<String>,
}

/// A binding name was claimed for two different types.
pub struct BindingCollision {
    pub binding: String,
}

/// The finished document.
pub struct Document {
    pub nodes: Vec<TypeGenerator>,
    pub globals: Vec<GlobalBinding>,
    /// The documentation of each group of global bindings.
    pub global_docs: Vec<String>,
}

/// Collects schema nodes and global bindings.
///
/// Nodes are told apart by their full qualified name: two types with the
/// same display name in different namespaces are two nodes. The proxy of a
/// type renames only the display segment, so it never takes the place of an
/// unrelated type of the same display name elsewhere.
pub struct TypeWalker {
    nodes: Vec<TypeGenerator>,
    globals: Vec<GlobalBinding>,
    global_docs: Vec<String>,
}

/// Whether two qualified names are equal, segment by segment.
pub fn names_eq(a: &Vec<String>, b: &Vec<String>) -> (r: bool)
    ensures
        r == (name_view(a@) == name_view(b@)),
{
    if a.len() != b.len() {
        assert(name_view(a@).len() != name_view(b@).len());
        return false;
    }
    let mut i: usize = 0;
    while i < a.len()
        invariant
            a.len() == b.len(),
            i <= a.len(),
            forall|j: int| 0 <= j < i ==> a@[j]@ == b@[j]@,
        decreases a.len() - i,
    {
        if a[i] != b[i] {
            assert(name_view(a@)[i as int] != name_view(b@)[i as int]);
            return false;
        }
        i = i + 1;
    }
    assert(name_view(a@) =~= name_view(b@));
    true
}

/// No two nodes share a qualified name.
pub open spec fn distinct_names(nodes: Seq<TypeGenerator>) -> bool {
    forall|i: int, j: int|
        0 <= i < j < nodes.len() ==> name_view(node_name(#[trigger] nodes[i])) != name_view(
            node_name(#[trigger] nodes[j]),
        )
}

/// Whether a node of `nodes` has the qualified name `name`.
pub open spec fn has_name(nodes: Seq<TypeGenerator>, name: Seq<Seq<char>>) -> bool {
    exists|i: int| 0 <= i < nodes.len() && name_view(node_name(#[trigger] nodes[i])) == name
}

/// The nodes after a request for `node`: unchanged when its name is taken,
/// else `node` appended.
pub open spec fn processed(nodes: Seq<TypeGenerator>, node: TypeGenerator) -> Seq<TypeGenerator> {
    if has_name(nodes, name_view(node_name(node))) {
        nodes
    } else {
        nodes.push(node)
    }
}

/// Whether some binding of `globals` is named `binding`.
pub open spec fn is_bound(globals: Seq<GlobalBinding>, binding: Seq<char>) -> bool {
    exists|i: int| 0 <= i < globals.len() && #[trigger] globals[i].binding@ == binding
}

/// Whether `binding` is bound to a type whose name equals `ty` (`same`), or
/// to one whose name differs (`!same`).
pub open spec fn bound_where(
    globals: Seq<GlobalBinding>,
    binding: Seq<char>,
    ty: Seq<Seq<char>>,
    same: bool,
) -> bool {
    exists|i: int|
        0 <= i < globals.len() && #[trigger] globals[i].binding@ == binding && (name_view(
            globals[i].ty@,
        ) == ty) == same
}

/// The bindings after binding `e`: `None` on a collision, unchanged when
/// `e`'s name is already bound to the same type, else `e` appended.
pub open spec fn bind_step(globals: Seq<GlobalBinding>, e: GlobalBinding) -> Option<
    Seq<GlobalBinding>,
> {
    if bound_where(globals, e.binding@, name_view(e.ty@), false) {
        None
    } else if is_bound(globals, e.binding@) {
        Some(globals)
    } else {
        Some(globals.push(e))
    }
}

/// The bindings after binding each of `es` in order, `None` if one collides.
pub open spec fn bind_all(globals: Seq<GlobalBinding>, es: Seq<GlobalBinding>) -> Option<
    Seq<GlobalBinding>,
>
    decreases es.len(),
{
    if es.len() == 0 {
        Some(globals)
    } else {
        match bind_step(globals, es[0]) {
            None => None,
            Some(g) => bind_all(g, es.drop_first()),
        }
    }
}

/// With distinct binding names, a name is not bound both to the name of
/// `e`'s type and to another.
proof fn lemma_bound_one_way(globals: Seq<GlobalBinding>, e: GlobalBinding)
    requires
        forall|i: int, j: int|
            0 <= i < j < globals.len() ==> (#[trigger] globals[i]).binding@
                != (#[trigger] globals[j]).binding@,
        bound_where(globals, e.binding@, name_view(e.ty@), true),
    ensures
        !bound_where(globals, e.binding@, name_view(e.ty@), false),
{
    let i = choose|i: int|
        0 <= i < globals.len() && #[trigger] globals[i].binding@ == e.binding@ && (name_view(
            globals[i].ty@,
        ) == name_view(e.ty@)) == true;
    if bound_where(globals, e.binding@, name_view(e.ty@), false) {
        let j = choose|j: int|
            0 <= j < globals.len() && #[trigger] globals[j].binding@ == e.binding@ && (name_view(
                globals[j].ty@,
            ) == name_view(e.ty@)) == false;
        if i < j {
            assert(globals[i].binding@ != globals[j].binding@);
        } else {
            assert(globals[j].binding@ != globals[i].binding@);
        }
    }
}

impl TypeWalker {
    /// The nodes collected so far, in first-request order.
    pub closed spec fn spec_nodes(&self) -> Seq<TypeGenerator> {
        self.nodes@
    }

    /// The documentation of each group of global bindings.
    pub closed spec fn spec_global_docs(&self) -> Seq<String> {
        self.global_docs@
    }

    /// The global bindings documented so far.
    pub closed spec fn spec_globals(&self) -> Seq<GlobalBinding> {
        self.globals@
    }

    /// Whether a node with this qualified name is present.
    pub open spec fn has_node(&self, name: Seq<Seq<char>>) -> bool {
        has_name(self.spec_nodes(), name)
    }

    /// Node names are distinct, and so are binding names.
    pub open spec fn wf(&self) -> bool {
        &&& distinct_names(self.spec_nodes())
        &&& forall|i: int, j: int|
            0 <= i < j < self.spec_globals().len() ==> (#[trigger] self.spec_globals()[i]).binding@
                != (#[trigger] self.spec_globals()[j]).binding@
    }

    /// With distinct binding names, the binding at `i` is the only one of its
    /// name.
    proof fn unique_binding(&self, i: int)
        requires
            self.wf(),
            0 <= i < self.spec_globals().len(),
        ensures
            forall|j: int|
                0 <= j < self.spec_globals().len() && #[trigger] self.spec_globals()[j].binding@
                    == self.spec_globals()[i].binding@ ==> j == i,
    {
        assert forall|j: int|
            0 <= j < self.spec_globals().len() && #[trigger] self.spec_globals()[j].binding@
                == self.spec_globals()[i].binding@ implies j == i by {
            if j < i {
                assert(self.spec_globals()[j].binding@ != self.spec_globals()[i].binding@);
            } else if j > i {
                assert(self.spec_globals()[i].binding@ != self.spec_globals()[j].binding@);
            }
        }
    }

    /// An empty builder.
    pub fn new() -> (r: Self)
        ensures
            r.wf(),
            r.spec_nodes().len() == 0,
            r.spec_globals().len() == 0,
    {
        TypeWalker { nodes: Vec::new(), globals: Vec::new(), global_docs: Vec::new() }
    }

    /// Adds `node` unless a node of the same qualified name is present.
    pub fn process_node(self, node: TypeGenerator) -> (r: Self)
        requires
            self.wf(),
        ensures
            r.wf(),
            r.spec_globals() == self.spec_globals(),
            r.spec_nodes() == processed(self.spec_nodes(), node),
    {
        let mut walker = self;
        let mut i: usize = 0;
        while i < walker.nodes.len()
            invariant
                walker == self,
                self.wf(),
                i <= walker.nodes.len(),
                forall|j: int|
                    0 <= j < i ==> name_view(node_name(#[trigger] self.nodes@[j])) != name_view(
                        node_name(node),
                    ),
            decreases walker.nodes.len() - i,
        {
            if names_eq(walker.nodes[i].name(), node.name()) {
                return walker;
            }
            i = i + 1;
        }
        walker.nodes.push(node);
        assert(walker.nodes@ =~= self.nodes@.push(node));
        assert forall|a: int, b: int|
            0 <= a < b < walker.nodes@.len() implies name_view(node_name(#[trigger] walker.nodes@[a]))
            != name_view(node_name(#[trigger] walker.nodes@[b])) by {
            assert(walker.nodes@[a] == self.nodes@[a]);
            if b < self.nodes@.len() {
                assert(walker.nodes@[b] == self.nodes@[b]);
                assert(name_view(node_name(self.spec_nodes()[a])) != name_view(node_name(self.spec_nodes()[b])));
            } else {
                assert(walker.nodes@[b] == node);
            }
        }
        assert(walker.spec_nodes() == walker.nodes@);
        assert(walker.spec_globals() == self.spec_globals());
        assert(walker.wf());
        walker
    }

    /// Adds the schema node of `T` unless one of its name is present.
    pub fn process_type<T: TypeBody>(self) -> (r: Self)
        requires
            self.wf(),
        ensures
            r.wf(),
            r.spec_globals() == self.spec_globals(),
            exists|node: TypeGenerator| r.spec_nodes() == processed(self.spec_nodes(), node),
    {
        let node = T::get_type_body();
        self.process_node(node)
    }

    /// Binds the global name `binding` to the type named `ty`. Binding a name
    /// again to the same type changes nothing; binding it to another type
    /// fails and leaves the builder as it was.
    pub fn add_global(&mut self, binding: String, ty: Vec<String>) -> (r: Result<(), BindingCollision>)
        requires
            old(self).wf(),
        ensures
            final(self).wf(),
            final(self).spec_nodes() == old(self).spec_nodes(),
            final(self).spec_global_docs() == old(self).spec_global_docs(),
            bound_where(old(self).spec_globals(), binding@, name_view(ty@), true) ==> r is Ok
                && final(self).spec_globals() == old(self).spec_globals(),
            bound_where(old(self).spec_globals(), binding@, name_view(ty@), false) ==> r is Err && r->Err_0.binding@
                == binding@ && final(self).spec_globals() == old(self).spec_globals(),
            !is_bound(old(self).spec_globals(), binding@) ==> r is Ok && final(self).spec_globals() == old(self).spec_globals().push(
                GlobalBinding { binding, ty },
            ),
    {
        let mut i: usize = 0;
        while i < self.globals.len()
            invariant
                *self == *old(self),
                old(self).wf(),
                i <= self.globals.len(),
                forall|j: int| 0 <= j < i ==> (#[trigger] old(self).globals@[j]).binding@ != binding@,
            decreases self.globals.len() - i,
        {
            if self.globals[i].binding == binding {
                proof {
                    self.unique_binding(i as int);
                }
                if names_eq(&self.globals[i].ty, &ty) {
                    return Ok(());
                } else {
                    return Err(BindingCollision { binding });
                }
            }
            i = i + 1;
        }
        let ghost before = self.globals@;
        self.globals.push(GlobalBinding { binding, ty });
        assert(self.globals@ =~= before.push(GlobalBinding { binding, ty }));
        assert forall|a: int, b: int|
            0 <= a < b < self.globals@.len() implies (#[trigger] self.globals@[a]).binding@
            != (#[trigger] self.globals@[b]).binding@ by {
            assert(self.globals@[a] == before[a]);
            if b < before.len() {
                assert(self.globals@[b] == before[b]);
                assert(old(self).spec_globals()[a].binding@ != old(self).spec_globals()[b].binding@);
            } else {
                assert(self.globals@[b].binding@ == binding@);
                assert(old(self).globals@[a].binding@ != binding@);
            }
        }
        assert(self.spec_globals() == self.globals@);
        assert(self.spec_nodes() == old(self).spec_nodes());
        assert(self.wf());
        Ok(())
    }

    /// Documents a group of global bindings: binds each of `bindings` in
    /// order and records `doc`. If one of them collides, nothing changes.
    pub fn document_global_instance(&mut self, doc: String, bindings: Vec<GlobalBinding>) -> (r:
        Result<(), BindingCollision>)
        requires
            old(self).wf(),
        ensures
            final(self).wf(),
            final(self).spec_nodes() == old(self).spec_nodes(),
            r is Ok <==> bind_all(old(self).spec_globals(), bindings@) is Some,
            r is Ok ==> final(self).spec_globals() == bind_all(
                old(self).spec_globals(),
                bindings@,
            )->Some_0 && final(self).spec_global_docs() == old(self).spec_global_docs().push(doc),
            r is Err ==> final(self).spec_globals() == old(self).spec_globals()
                && final(self).spec_global_docs() == old(self).spec_global_docs(),
    {
        let start = self.globals.len();
        let mut rest = bindings;
        while rest.len() > 0
            invariant
                self.wf(),
                self.spec_nodes() == old(self).spec_nodes(),
                self.spec_global_docs() == old(self).spec_global_docs(),
                start == old(self).spec_globals().len(),
                start <= self.spec_globals().len(),
                self.spec_globals().subrange(0, start as int) == old(self).spec_globals(),
                bind_all(old(self).spec_globals(), bindings@) == bind_all(self.spec_globals(), rest@),
            decreases rest.len(),
        {
            let ghost before = self.spec_globals();
            let ghost rest_before = rest@;
            let e = rest.remove(0);
            assert(rest@ =~= rest_before.drop_first());
            let ghost e_spec = e;
            let result = self.add_global(e.binding, e.ty);
            proof {
                let pushed = GlobalBinding { binding: e_spec.binding, ty: e_spec.ty };
                assert(pushed == e_spec);
                if bound_where(before, e_spec.binding@, name_view(e_spec.ty@), true) {
                    assert(is_bound(before, e_spec.binding@));
                    lemma_bound_one_way(before, e_spec);
                }
            }
            match result {
                Ok(()) => {
                    assert(self.spec_globals().subrange(0, start as int) =~= before.subrange(
                        0,
                        start as int,
                    ));
                },
                Err(c) => {
                    self.globals.truncate(start);
                    assert(self.globals@ =~= old(self).spec_globals());
                    assert(self.spec_globals() == self.globals@);
                    assert(self.wf());
                    return Err(c);
                },
            }
        }
        self.global_docs.push(doc);
        assert(self.spec_global_docs() == self.global_docs@);
        assert(self.spec_globals() == self.globals@);
        assert(self.spec_nodes() == self.nodes@);
        assert(self.wf());
        Ok(())
    }

    /// Finishes the document: the nodes in first-request order, then the
    /// global bindings.
    pub fn to_document(self) -> (r: Document)
        ensures
            r.nodes@ == self.spec_nodes(),
            r.globals@ == self.spec_globals(),
            r.global_docs@ == self.spec_global_docs(),
    {
        Document { nodes: self.nodes, globals: self.globals, global_docs: self.global_docs }
    }
}

} // verus!
