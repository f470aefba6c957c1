//! Type references and the rendering of function signatures.
use vstd::prelude::*;
use vstd::string::StringExecFns;

verus! {

/// A reference to a type as the scripting side sees it.
pub enum Type {
    /// A named type: a qualified name (namespace segments, then the display
    /// name) and its generic arguments.
    Single { name: Vec<String>, generics: Vec<Type> },
    /// An array of the element type.
    Array(Box<Type>),
    /// A function type.
    Function(FunctionSignature),
}

/// Parameter and return types of a function.
pub struct FunctionSignature {
    pub params: Vec<Type>,
    pub returns: Vec<Type>,
}

/// How the returns of a function are written.
#[derive(Clone, Copy, PartialEq, Eq, Structural)]
pub enum RenderMode {
    /// Returns written bare after the colon (`function(string):string`).
    /// The form is meant for exactly one return. With none or several the
    /// returns are still written bare, separated by ` , `; this degenerate
    /// text is accepted as it is rather than repaired.
    LegacySingleReturn,
    /// Returns always written in parentheses (`function(string):(string)`).
    TupleReturn,
}

/// The characters of each segment of a qualified name.
pub open spec fn name_view(name: Seq<String>) -> Seq<Seq<char>> {
    name.map_values(|s: String| s@)
}

/// The segments of a qualified name joined by dots.
pub open spec fn dotted(name: Seq<String>, n: nat) -> Seq<char>
    decreases n,
{
    if n == 0 || n > name.len() {
        Seq::empty()
    } else if n == 1 {
        name[0]@
    } else {
        dotted(name, (n - 1) as nat) + "."@ + name[n - 1]@
    }
}

/// The text of a type reference.
pub open spec fn type_text(t: Type, mode: RenderMode) -> Seq<char>
    decreases t, 0nat,
{
    match t {
        Type::Single { name, generics } => if generics.len() == 0 {
            dotted(name@, name.len() as nat)
        } else {
            dotted(name@, name.len() as nat) + "<"@ + list_text(generics, generics.len() as nat, ", "@, mode) + ">"@
        },
        Type::Array(elem) => "{"@ + type_text(*elem, mode) + "}"@,
        Type::Function(sig) => signature_text(sig, mode),
    }
}

/// The text of a signature: `function(<params>):<returns>`.
pub open spec fn signature_text(sig: FunctionSignature, mode: RenderMode) -> Seq<char>
    decreases sig, 1nat,
{
    let params = list_text(sig.params, sig.params.len() as nat, " , "@, mode);
    let rets = list_text(sig.returns, sig.returns.len() as nat, " , "@, mode);
    match mode {
        RenderMode::TupleReturn => "function("@ + params + "):("@ + rets + ")"@,
        RenderMode::LegacySingleReturn => "function("@ + params + "):"@ + rets,
    }
}

/// The texts of the first `n` types of `ts`, separated by `sep`.
pub open spec fn list_text(ts: Vec<Type>, n: nat, sep: Seq<char>, mode: RenderMode) -> Seq<char>
    decreases ts, n,
{
    if n == 0 || n > ts.len() {
        Seq::empty()
    } else if n == 1 {
        type_text(ts[0], mode)
    } else {
        list_text(ts, (n - 1) as nat, sep, mode) + sep + type_text(ts[n - 1], mode)
    }
}

/// Structural equality of type references: qualified names segment by
/// segment, generic arguments position by position.
pub open spec fn same_type(a: Type, b: Type) -> bool
    decreases a, 0nat,
{
    match a {
        Type::Single { name: n1, generics: g1 } => match b {
            Type::Single { name: n2, generics: g2 } => name_view(n1@) == name_view(n2@) && g1.len()
                == g2.len() && same_list(g1, g2, g1.len() as nat),
            _ => false,
        },
        Type::Array(x) => match b {
            Type::Array(y) => same_type(*x, *y),
            _ => false,
        },
        Type::Function(s1) => match b {
            Type::Function(s2) => same_signature(s1, s2),
            _ => false,
        },
    }
}

/// Structural equality of signatures.
pub open spec fn same_signature(a: FunctionSignature, b: FunctionSignature) -> bool
    decreases a, 1nat,
{
    &&& a.params.len() == b.params.len()
    &&& same_list(a.params, b.params, a.params.len() as nat)
    &&& a.returns.len() == b.returns.len()
    &&& same_list(a.returns, b.returns, a.returns.len() as nat)
}

/// The first `n` types of `a` and `b` are pairwise structurally equal.
pub open spec fn same_list(a: Vec<Type>, b: Vec<Type>, n: nat) -> bool
    decreases a, n,
{
    if n == 0 {
        true
    } else if n > a.len() || n > b.len() {
        false
    } else {
        same_list(a, b, (n - 1) as nat) && same_type(a[n - 1], b[n - 1])
    }
}

/// Whether two type lists are pairwise structurally equal.
fn list_eq(a: &Vec<Type>, b: &Vec<Type>) -> (r: bool)
    ensures
        r == (a.len() == b.len() && same_list(*a, *b, a.len() as nat)),
    decreases a, a.len(),
{
    if a.len() != b.len() {
        return false;
    }
    let mut i: usize = 0;
    while i < a.len()
        invariant
            a.len() == b.len(),
            i <= a.len(),
            same_list(*a, *b, i as nat),
        decreases a.len() - i,
    {
        if !a[i].eq(&b[i]) {
            proof {
                if same_list(*a, *b, a.len() as nat) {
                    lemma_same_list_prefix(*a, *b, i as nat + 1, a.len() as nat);
                    assert(same_type(a[i as int], b[i as int]));
                }
            }
            return false;
        }
        i = i + 1;
    }
    true
}

/// Equality of a list prefix carries over to shorter prefixes.
proof fn lemma_same_list_prefix(a: Vec<Type>, b: Vec<Type>, m: nat, n: nat)
    requires
        m <= n,
        same_list(a, b, n),
    ensures
        same_list(a, b, m),
    decreases n - m,
{
    if m < n {
        lemma_same_list_prefix(a, b, m, (n - 1) as nat);
    }
}

impl PartialEq for Type {
    fn eq(&self, other: &Type) -> (r: bool)
        ensures
            r == same_type(*self, *other),
        decreases self, 0nat,
    {
        match self {
            Type::Single { name: n1, generics: g1 } => match other {
                Type::Single { name: n2, generics: g2 } => {
                    let same_name = crate::walker::names_eq(n1, n2);
                    let same_args = list_eq(g1, g2);
                    assert(same_type(*self, *other) == (same_name && same_args));
                    same_name && same_args
                },
                _ => false,
            },
            Type::Array(x) => match other {
                Type::Array(y) => {
                    let r = (**x).eq(&**y);
                    assert(same_type(*self, *other) == same_type(**x, **y));
                    r
                },
                _ => false,
            },
            Type::Function(s1) => match other {
                Type::Function(s2) => {
                    let same_params = list_eq(&s1.params, &s2.params);
                    let same_returns = list_eq(&s1.returns, &s2.returns);
                    assert(same_signature(*s1, *s2) == (same_params && same_returns));
                    same_params && same_returns
                },
                _ => false,
            },
        }
    }
}

impl vstd::std_specs::cmp::PartialEqSpecImpl for Type {
    open spec fn obeys_eq_spec() -> bool {
        true
    }

    open spec fn eq_spec(&self, other: &Type) -> bool {
        same_type(*self, *other)
    }
}

/// Appends the dotted form of a qualified name.
fn write_dotted(name: &Vec<String>, out: &mut String)
    ensures
        final(out)@ == old(out)@ + dotted(name@, name.len() as nat),
{
    let ghost start = out@;
    let mut i: usize = 0;
    while i < name.len()
        invariant
            i <= name.len(),
            out@ == start + dotted(name@, i as nat),
        decreases name.len() - i,
    {
        if i > 0 {
            out.append(".");
        }
        out.append(name[i].as_str());
        i = i + 1;
        assert(out@ =~= start + dotted(name@, i as nat));
    }
}

/// Appends the texts of `ts`, separated by `sep`.
fn write_list(ts: &Vec<Type>, sep: &str, mode: RenderMode, out: &mut String)
    ensures
        final(out)@ == old(out)@ + list_text(*ts, ts.len() as nat, sep@, mode),
    decreases ts, ts.len(),
{
    let ghost start = out@;
    let mut i: usize = 0;
    while i < ts.len()
        invariant
            i <= ts.len(),
            out@ == start + list_text(*ts, i as nat, sep@, mode),
        decreases ts.len() - i,
    {
        if i > 0 {
            out.append(sep);
        }
        ts[i].write_to(mode, out);
        i = i + 1;
        assert(out@ =~= start + list_text(*ts, i as nat, sep@, mode));
    }
}

impl Type {
    /// Appends the text of this type.
    pub fn write_to(&self, mode: RenderMode, out: &mut String)
        ensures
            final(out)@ == old(out)@ + type_text(*self, mode),
        decreases self, 0nat,
    {
        let ghost start = out@;
        match self {
            Type::Single { name, generics } => {
                write_dotted(name, out);
                if generics.len() > 0 {
                    out.append("<");
                    write_list(generics, ", ", mode, out);
                    out.append(">");
                }
            },
            Type::Array(elem) => {
                out.append("{");
                elem.write_to(mode, out);
                out.append("}");
            },
            Type::Function(sig) => {
                sig.write_to(mode, out);
            },
        }
        assert(out@ =~= start + type_text(*self, mode));
    }

    /// The text of this type.
    pub fn render(&self, mode: RenderMode) -> (r: String)
        ensures
            r@ == type_text(*self, mode),
    {
        let mut out = String::new();
        self.write_to(mode, &mut out);
        assert(out@ =~= type_text(*self, mode));
        out
    }
}

impl FunctionSignature {
    /// Appends the text of this signature.
    pub fn write_to(&self, mode: RenderMode, out: &mut String)
        ensures
            final(out)@ == old(out)@ + signature_text(*self, mode),
        decreases self, 1nat,
    {
        let ghost start = out@;
        out.append("function(");
        write_list(&self.params, " , ", mode, out);
        match mode {
            RenderMode::TupleReturn => {
                out.append("):(");
                write_list(&self.returns, " , ", mode, out);
                out.append(")");
            },
            RenderMode::LegacySingleReturn => {
                out.append("):");
                write_list(&self.returns, " , ", mode, out);
            },
        }
        assert(out@ =~= start + signature_text(*self, mode));
    }

    /// The text of this signature, `function(<params>):<returns>`.
    pub fn render(&self, mode: RenderMode) -> (r: String)
        ensures
            r@ == signature_text(*self, mode),
    {
        let mut out = String::new();
        self.write_to(mode, &mut out);
        assert(out@ =~= signature_text(*self, mode));
        out
    }
}

} // verus!
