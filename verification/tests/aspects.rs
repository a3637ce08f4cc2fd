use metel::ast::{Span, Visibility};
use metel::bounds::GenericBound;
use metel::definitions::{BindingKind, FieldEntry, GlobTier, ImportBinding, ModuleScope};
use metel::identity::MemberTable;
use metel::infer_type::InferType;
use metel::registry::TypeDefinitionRegistry;
use metel::symbols::{FieldId, SymbolId};
use metel::table::{KeySet, Table};
use metel::term::TypeVar;
use metel::types::{NominalId, Type};

fn module(name: &str) -> Vec<String> {
    vec![name.to_string()]
}

fn named(name: &str, args: Vec<InferType>) -> InferType {
    InferType::Named(name.to_string(), args)
}

fn import(id: SymbolId, from: &str, name: &str) -> ImportBinding {
    ImportBinding {
        symbol_id: id,
        source_module: module(from),
        source_name: name.to_string(),
        kind: BindingKind::Item,
    }
}

/// `main` declares `Own`, imports `Seen` from `lib` and all of `lib` and of the
/// standard library; all of them declare `Seen`, `Own` and `Far`.
fn program() -> TypeDefinitionRegistry {
    let mut symbols = Table::new();
    symbols.insert((module("main"), "Own".to_string()), SymbolId(1));
    symbols.insert((module("other"), "Seen".to_string()), SymbolId(2));
    symbols.insert((module("lib"), "Own".to_string()), SymbolId(3));
    symbols.insert((module("lib"), "Seen".to_string()), SymbolId(4));
    symbols.insert((module("lib"), "Far".to_string()), SymbolId(5));
    symbols.insert((module("std"), "Far".to_string()), SymbolId(6));
    symbols.insert((module("std"), "Base".to_string()), SymbolId(7));
    let mut scopes = Table::new();
    scopes.insert(
        module("main"),
        ModuleScope {
            explicit: vec![("Seen".to_string(), import(SymbolId(2), "other", "Seen"))],
            globs: vec![
                (GlobTier::Std, module("std")),
                (GlobTier::User, module("lib")),
            ],
            re_exports: Table::new(),
        },
    );
    let mut reg = TypeDefinitionRegistry::new();
    reg.set_symbol_resolution(symbols, scopes);
    reg
}

#[test]
fn nearer_declarations_win() {
    let reg = program();
    let main = module("main");
    assert_eq!(reg.resolve_type_position_id(&main, "Own"), Some(SymbolId(1)));
    assert_eq!(reg.resolve_type_position_id(&main, "Seen"), Some(SymbolId(2)));
    assert_eq!(reg.resolve_type_position_id(&main, "Far"), Some(SymbolId(5)));
    assert_eq!(reg.resolve_type_position_id(&main, "Base"), Some(SymbolId(7)));
    assert_eq!(reg.resolve_type_position_id(&main, "Nothing"), None);
}

#[test]
fn a_variable_has_what_is_assumed_of_it() {
    let reg = program();
    let main = module("main");
    let mut aspects = KeySet::new();
    aspects.insert("Copy".to_string());
    let mut assumed = Table::new();
    assumed.insert(TypeVar(1), aspects);
    let a = InferType::var(TypeVar(1));
    let b = InferType::var(TypeVar(2));
    assert!(reg.infer_type_satisfies_aspect(&main, &a, "Copy", &assumed));
    assert!(!reg.infer_type_satisfies_aspect(&main, &a, "Display", &assumed));
    assert!(!reg.infer_type_satisfies_aspect(&main, &b, "Copy", &assumed));
    let both = InferType::Tuple(vec![a, b]);
    assert!(!reg.infer_type_satisfies_aspect(&main, &both, "Copy", &assumed));
}

#[test]
fn impls_give_aspects_and_negative_impls_take_them() {
    let mut reg = program();
    let main = module("main");
    let none = Table::new();
    let own = named("Own", vec![]);
    assert!(!reg.infer_type_satisfies_aspect(&main, &own, "Display", &none));
    reg.register_aspect_impl(&main, "Own", "Display", vec![]);
    assert!(reg.infer_type_satisfies_aspect(&main, &own, "Display", &none));
    reg.register_neg_impl(&main, "Own", "Display", vec![]);
    assert!(!reg.infer_type_satisfies_aspect(&main, &own, "Display", &none));
}

#[test]
fn conditional_impls_ask_for_the_type_arguments() {
    let mut reg = program();
    let main = module("main");
    let none = Table::new();
    reg.register_conditional_impl_bounds(
        &main,
        "Own",
        "Display",
        vec![vec![GenericBound::Aspect("Copy".to_string())]],
        vec![],
    );
    let good = named("Own", vec![InferType::Array(Box::new(InferType::unit()))]);
    let bad = named("Own", vec![named("Seen", vec![])]);
    assert!(reg.infer_type_satisfies_aspect(&main, &good, "Display", &none));
    assert!(!reg.infer_type_satisfies_aspect(&main, &bad, "Display", &none));
}

#[test]
fn blanket_impls_hold_of_every_type_that_they_ask_for() {
    let mut reg = program();
    let main = module("main");
    reg.register_aspect_impl(&main, "Own", "Display", vec![]);
    reg.register_bare_impl_bounds(
        "Show",
        vec![vec![GenericBound::Aspect("Display".to_string())]],
        vec![],
    );
    let none = Table::new();
    assert!(reg.infer_type_satisfies_aspect(&main, &named("Own", vec![]), "Show", &none));
    assert!(!reg.infer_type_satisfies_aspect(&main, &named("Seen", vec![]), "Show", &none));
    assert!(!reg.type_satisfies_aspect(&main, &Type::I64, "Show"));
}

#[test]
fn negative_impls_come_before_blanket_ones() {
    let mut reg = program();
    let main = module("main");
    let none = Table::new();
    reg.register_bare_impl_bounds("Show", vec![], vec![]);
    let own = named("Own", vec![InferType::bool()]);
    let other = named("Own", vec![InferType::unit()]);
    assert!(reg.infer_type_satisfies_aspect(&main, &own, "Show", &none));
    reg.register_neg_impl(&main, "Own", "Show", vec![Type::Boolean]);
    assert!(!reg.infer_type_satisfies_aspect(&main, &own, "Show", &none));
    assert!(reg.infer_type_satisfies_aspect(&main, &other, "Show", &none));
    reg.register_neg_conditional_impl_bounds(&main, "Own", "Show", vec![], vec![]);
    assert!(!reg.infer_type_satisfies_aspect(&main, &other, "Show", &none));
    let list = InferType::Array(Box::new(own));
    assert!(reg.infer_type_satisfies_aspect(&main, &list, "Show", &none));
    reg.register_neg_array_impl_bounds("Show", vec![], vec![]);
    assert!(!reg.infer_type_satisfies_aspect(&main, &list, "Show", &none));
}

#[test]
fn declaring_an_aspect_again_replaces_it() {
    let mut reg = TypeDefinitionRegistry::new();
    for methods in [vec!["a"], vec!["b", "c"]] {
        reg.register_aspect_decl(
            "Shape".to_string(),
            module("main"),
            methods.iter().map(|m| m.to_string()).collect(),
            vec![],
            vec![],
            vec![],
        );
    }
    let methods = reg.aspect_method_names("Shape").unwrap();
    assert_eq!(methods, &vec!["b".to_string(), "c".to_string()]);
}

#[test]
fn stamping_twice_changes_nothing() {
    let mut reg = TypeDefinitionRegistry::new();
    let id = SymbolId(1000);
    let field = |name: &str| FieldEntry {
        name: name.to_string(),
        ty: InferType::unit(),
        span: Span::new(0, 0, "t"),
        visibility: Visibility::Public,
        id: None,
    };
    reg.register_struct_fields(
        id,
        "Point".to_string(),
        vec![field("x"), field("y")],
        module("main"),
        Visibility::Public,
    );
    let mut fields = Table::new();
    fields.insert((id, "x".to_string()), FieldId(7));
    let members = MemberTable {
        fields,
        variants: Table::new(),
    };
    for _ in 0..2 {
        reg.stamp_member_ids(Some(&members));
        let stamped = reg.struct_fields_by_id(id).unwrap();
        assert_eq!(stamped[0].id, Some(FieldId(7)));
        assert_eq!(stamped[1].id, None);
    }
}

fn named_type(name: &str, args: Vec<Type>) -> Type {
    Type::Named(name.to_string(), args, NominalId::default())
}

#[test]
fn questions_go_down_into_nested_type_arguments() {
    let mut reg = program();
    let main = module("main");
    reg.register_conditional_impl_bounds(
        &main,
        "Far",
        "Show",
        vec![vec![GenericBound::Aspect("Show".to_string())]],
        vec![],
    );
    reg.register_aspect_impl(&main, "Own", "Show", vec![]);
    let layered = |name: &str, layers: usize| {
        (0..layers).fold(named_type(name, vec![]), |t, _| named_type("Far", vec![t]))
    };
    for layers in 0..4 {
        assert!(reg.type_satisfies_aspect(&main, &layered("Own", layers), "Show"));
        assert!(!reg.type_satisfies_aspect(&main, &layered("Seen", layers), "Show"));
    }
}

#[test]
fn a_negative_impl_denies_its_own_arguments_only() {
    let mut reg = program();
    let main = module("main");
    let none = Table::new();
    reg.register_aspect_impl(&main, "Far", "Show", vec![]);
    reg.register_neg_impl(&main, "Far", "Show", vec![Type::I64]);
    let far = |args: Vec<InferType>| named("Far", args);
    let denied = far(vec![InferType::Concrete(Type::I64)]);
    assert!(!reg.infer_type_satisfies_aspect(&main, &denied, "Show", &none));
    for args in [
        vec![],
        vec![InferType::Concrete(Type::Boolean)],
        vec![InferType::var(TypeVar(1))],
        vec![InferType::Concrete(Type::I64), InferType::Concrete(Type::I64)],
    ] {
        assert!(reg.infer_type_satisfies_aspect(&main, &far(args), "Show", &none));
    }
}

#[test]
fn conversions_come_from_impls_of_the_type_itself() {
    let mut reg = program();
    let main = module("main");
    assert!(!reg.has_from_impl(&main, "Own", &Type::I64));
    reg.register_aspect_impl(&module("lib"), "Own", "From", vec![Type::I64]);
    reg.register_aspect_impl(&main, "Own", "Into", vec![Type::I64]);
    assert!(!reg.has_from_impl(&main, "Own", &Type::I64));
    reg.register_aspect_impl(&main, "Own", "From", vec![]);
    reg.register_aspect_impl(&main, "Own", "From", vec![Type::Str, Type::I64]);
    assert!(!reg.has_from_impl(&main, "Own", &Type::I64));
    assert!(reg.has_from_impl(&main, "Own", &Type::Str));
    reg.register_aspect_impl(&main, "Own", "From", vec![Type::I64]);
    assert!(reg.has_from_impl(&main, "Own", &Type::I64));
}
