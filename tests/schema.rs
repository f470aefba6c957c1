use tealr::generator::{
    EnumGenerator, FieldAccess, MemberDescriptor, RecordGenerator, ToTypename, TypeBody,
    TypeGenerator,
};
use tealr::proxy::{derive_static_view, keep_static, proxy_typename, to_class_name, UserDataProxy};
use tealr::types::{FunctionSignature, RenderMode, Type};
use tealr::walker::{names_eq, GlobalBinding, TypeWalker};

fn named(name: &str) -> Type {
    Type::Single { name: vec![name.to_string()], generics: vec![] }
}

fn sig(params: Vec<Type>, returns: Vec<Type>) -> FunctionSignature {
    FunctionSignature { params, returns }
}

fn qname(parts: &[&str]) -> Vec<String> {
    parts.iter().map(|p| p.to_string()).collect()
}

fn method(name: &str) -> MemberDescriptor {
    MemberDescriptor::Method {
        name: name.to_string(),
        signature: sig(vec![named("integer")], vec![named("integer")]),
        is_mut: false,
        doc: None,
    }
}

fn function(name: &str) -> MemberDescriptor {
    MemberDescriptor::Function {
        name: name.to_string(),
        signature: sig(vec![], vec![named("string")]),
        is_mut: false,
        doc: None,
    }
}

fn field(name: &str, access: FieldAccess) -> MemberDescriptor {
    MemberDescriptor::Field { name: name.to_string(), ty: named("number"), access, doc: None }
}

fn member_name(m: &MemberDescriptor) -> String {
    match m {
        MemberDescriptor::Method { name, .. }
        | MemberDescriptor::Function { name, .. }
        | MemberDescriptor::Field { name, .. } => name.clone(),
        MemberDescriptor::MetaMethod { operator, .. } => operator.clone(),
    }
}

fn example_record() -> RecordGenerator {
    RecordGenerator {
        name: qname(&["Example"]),
        type_doc: "An example".to_string(),
        fields: vec![field("example_field", FieldAccess::InstanceGet)],
        static_fields: vec![field("example_static_field", FieldAccess::StaticGet)],
        methods: vec![method("example_method"), function("example_function")],
        mut_methods: vec![],
        meta_method: vec![],
        meta_method_mut: vec![],
    }
}

fn colors() -> EnumGenerator {
    EnumGenerator { name: qname(&["Color"]), variants: qname(&["Red", "Green", "Blue"]) }
}

#[test]
fn function_wrapper_generate_correct_type() {
    assert_eq!(
        sig(vec![named("string")], vec![named("string")]).render(RenderMode::TupleReturn),
        "function(string):(string)"
    );
    let inner = Type::Function(sig(
        vec![named("integer"), named("string")],
        vec![named("string"), named("integer")],
    ));
    assert_eq!(
        sig(vec![inner], vec![named("number")]).render(RenderMode::TupleReturn),
        "function(function(integer , string):(string , integer)):(number)"
    );
}

#[test]
fn tuple_return_without_arguments() {
    assert_eq!(sig(vec![], vec![named("string")]).render(RenderMode::TupleReturn), "function():(string)");
    assert_eq!(sig(vec![], vec![]).render(RenderMode::TupleReturn), "function():()");
}

#[test]
fn legacy_single_return_rendering() {
    assert_eq!(
        sig(vec![named("string")], vec![named("string")]).render(RenderMode::LegacySingleReturn),
        "function(string):string"
    );
    let inner = Type::Function(sig(
        vec![named("integer"), named("string")],
        vec![named("string"), named("integer")],
    ));
    assert_eq!(
        sig(vec![inner], vec![named("number")]).render(RenderMode::LegacySingleReturn),
        "function(function(integer , string):string , integer):number"
    );
    assert_eq!(sig(vec![], vec![]).render(RenderMode::LegacySingleReturn), "function():");
}

#[test]
fn generics_arrays_and_namespaces_render() {
    let map = Type::Single {
        name: qname(&["std", "Map"]),
        generics: vec![named("string"), Type::Array(Box::new(named("integer")))],
    };
    assert_eq!(map.render(RenderMode::TupleReturn), "std.Map<string, {integer}>");
    assert_eq!(Type::Array(Box::new(named("boolean"))).render(RenderMode::TupleReturn), "{boolean}");
}

#[test]
fn proxy_keeps_only_static_members() {
    let view = derive_static_view(TypeGenerator::Record(Box::new(example_record())));
    match view {
        TypeGenerator::Record(r) => {
            assert_eq!(r.name, qname(&["ClassExample"]));
            assert_eq!(r.type_doc, "Collection of static methods for `Example`.");
            assert!(r.fields.is_empty());
            assert_eq!(r.static_fields.len(), 1);
            assert_eq!(member_name(&r.static_fields[0]), "example_static_field");
            assert_eq!(r.methods.len(), 1);
            assert_eq!(member_name(&r.methods[0]), "example_function");
            assert!(r.mut_methods.is_empty());
        }
        TypeGenerator::Enum(_) => panic!("a record stays a record"),
    }
}

#[test]
fn proxy_renames_only_the_display_segment() {
    let mut name = qname(&["game", "Example"]);
    to_class_name(&mut name);
    assert_eq!(name, qname(&["game", "ClassExample"]));
}

#[test]
fn proxy_keeps_static_meta_methods() {
    let meta = |has_receiver: bool| MemberDescriptor::MetaMethod {
        operator: if has_receiver { "__add".to_string() } else { "__call".to_string() },
        signature: sig(vec![], vec![]),
        is_mut: false,
        has_receiver,
        doc: None,
    };
    let kept = keep_static(vec![meta(true), meta(false), method("m"), function("f")]);
    let names: Vec<String> = kept.iter().map(member_name).collect();
    assert_eq!(names, qname(&["__call", "f"]));
}

#[test]
fn proxy_of_enum_keeps_variants() {
    match derive_static_view(TypeGenerator::Enum(colors())) {
        TypeGenerator::Enum(e) => {
            assert_eq!(e.name, qname(&["ClassColor"]));
            assert_eq!(e.variants, qname(&["Red", "Green", "Blue"]));
        }
        TypeGenerator::Record(_) => panic!("an enum stays an enum"),
    }
}

#[test]
fn proxy_typename_prefixes_class() {
    match proxy_typename(named("Example")) {
        Type::Single { name, generics } => {
            assert_eq!(name, qname(&["ClassExample"]));
            assert!(generics.is_empty());
        }
        _ => panic!("a named type stays named"),
    }
    assert_eq!(
        proxy_typename(Type::Array(Box::new(named("Example")))).render(RenderMode::TupleReturn),
        "{Example}"
    );
}

struct Example;

impl ToTypename for Example {
    fn to_typename() -> Type {
        named("Example")
    }
}

impl TypeBody for Example {
    fn get_type_body() -> TypeGenerator {
        TypeGenerator::Record(Box::new(example_record()))
    }
}

#[test]
fn user_data_proxy_documents_the_class() {
    assert_eq!(
        UserDataProxy::<Example>::to_typename().render(RenderMode::TupleReturn),
        "ClassExample"
    );
    let doc = TypeWalker::new()
        .process_type::<Example>()
        .process_type::<UserDataProxy<Example>>()
        .to_document();
    let names: Vec<Vec<String>> = doc.nodes.iter().map(|n| n.name().clone()).collect();
    assert_eq!(names, vec![qname(&["Example"]), qname(&["ClassExample"])]);
}

#[test]
fn processing_twice_keeps_one_node() {
    let doc = TypeWalker::new()
        .process_type::<Example>()
        .process_type::<Example>()
        .to_document();
    assert_eq!(doc.nodes.len(), 1);
    assert_eq!(doc.nodes[0].name(), &qname(&["Example"]));
}

#[test]
fn same_display_name_in_other_namespace_is_another_node() {
    let mut other = example_record();
    other.name = qname(&["other", "Example"]);
    let doc = TypeWalker::new()
        .process_node(TypeGenerator::Record(Box::new(example_record())))
        .process_node(TypeGenerator::Record(Box::new(other)))
        .to_document();
    assert_eq!(doc.nodes.len(), 2);
}

#[test]
fn enum_passes_through_in_order() {
    let doc = TypeWalker::new().process_node(TypeGenerator::Enum(colors())).to_document();
    assert_eq!(doc.nodes.len(), 1);
    match &doc.nodes[0] {
        TypeGenerator::Enum(e) => assert_eq!(e.variants, qname(&["Red", "Green", "Blue"])),
        TypeGenerator::Record(_) => panic!("an enum stays an enum"),
    }
    let repeated = EnumGenerator { name: qname(&["Twice"]), variants: qname(&["A", "A"]) };
    let doc = TypeWalker::new().process_node(TypeGenerator::Enum(repeated)).to_document();
    match &doc.nodes[0] {
        TypeGenerator::Enum(e) => assert_eq!(e.variants, qname(&["A", "A"])),
        TypeGenerator::Record(_) => panic!("an enum stays an enum"),
    }
}

#[test]
fn binding_collision_is_reported() {
    let mut walker = TypeWalker::new();
    assert!(walker.add_global("Example".to_string(), qname(&["A"])).is_ok());
    let err = walker.add_global("Example".to_string(), qname(&["B"])).err().unwrap();
    assert_eq!(err.binding, "Example");
    assert!(walker.add_global("Example".to_string(), qname(&["A"])).is_ok());
    let doc = walker.to_document();
    assert_eq!(doc.globals.len(), 1);
    assert_eq!(doc.globals[0].ty, qname(&["A"]));
}

#[test]
fn failed_group_changes_nothing() {
    let mut walker = TypeWalker::new();
    let group = vec![
        GlobalBinding { binding: "Example".to_string(), ty: qname(&["ClassExample"]) },
        GlobalBinding { binding: "Other".to_string(), ty: qname(&["Other"]) },
    ];
    assert!(walker.document_global_instance("statics".to_string(), group).is_ok());
    let clash = vec![
        GlobalBinding { binding: "Third".to_string(), ty: qname(&["Third"]) },
        GlobalBinding { binding: "Example".to_string(), ty: qname(&["Example"]) },
    ];
    assert!(walker.document_global_instance("clash".to_string(), clash).is_err());
    let doc = walker.to_document();
    let bound: Vec<String> = doc.globals.iter().map(|g| g.binding.clone()).collect();
    assert_eq!(bound, qname(&["Example", "Other"]));
    assert_eq!(doc.global_docs, qname(&["statics"]));
}

#[test]
fn names_compare_by_full_path() {
    assert!(names_eq(&qname(&["a", "B"]), &qname(&["a", "B"])));
    assert!(!names_eq(&qname(&["a", "B"]), &qname(&["c", "B"])));
    assert!(!names_eq(&qname(&["B"]), &qname(&["a", "B"])));
}

#[test]
fn type_equality_is_structural() {
    let build = |args: Vec<Type>| Type::Single { name: qname(&["pkg", "Pair"]), generics: args };
    assert!(build(vec![named("string"), named("integer")]) == build(vec![named("string"), named("integer")]));
    assert!(build(vec![named("string"), named("integer")]) != build(vec![named("integer"), named("string")]));
    assert!(build(vec![]) == build(vec![]));
    assert!(build(vec![]) != Type::Single { name: qname(&["other", "Pair"]), generics: vec![] });
    assert!(Type::Array(Box::new(named("a"))) != named("a"));
    let f = |r: &str| Type::Function(sig(vec![named("x")], vec![named(r)]));
    assert!(f("y") == f("y"));
    assert!(f("y") != f("z"));
}

#[test]
fn same_name_keeps_first_node() {
    let first = EnumGenerator { name: qname(&["Color"]), variants: qname(&["Red"]) };
    let doc = TypeWalker::new()
        .process_node(TypeGenerator::Enum(first))
        .process_node(TypeGenerator::Enum(colors()))
        .to_document();
    assert_eq!(doc.nodes.len(), 1);
    match &doc.nodes[0] {
        TypeGenerator::Enum(e) => assert_eq!(e.variants, qname(&["Red"])),
        TypeGenerator::Record(_) => panic!("an enum stays an enum"),
    }
}

#[test]
fn binding_a_type_then_its_proxy_collides() {
    let name_of = |t: Type| match t {
        Type::Single { name, .. } => name,
        _ => panic!("a named type stays named"),
    };
    let mut walker = TypeWalker::new();
    let proxy_group = vec![GlobalBinding {
        binding: "Example".to_string(),
        ty: name_of(UserDataProxy::<Example>::to_typename()),
    }];
    assert!(walker.document_global_instance("proxy".to_string(), proxy_group).is_ok());
    let plain_group = vec![GlobalBinding { binding: "Example".to_string(), ty: name_of(Example::to_typename()) }];
    assert!(walker.document_global_instance("plain".to_string(), plain_group).is_err());
    let doc = walker.to_document();
    assert_eq!(doc.globals.len(), 1);
    assert_eq!(doc.globals[0].ty, qname(&["ClassExample"]));
    assert_eq!(doc.global_docs, qname(&["proxy"]));
}
