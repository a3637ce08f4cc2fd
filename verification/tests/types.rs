use metel::infer_type::InferType;
use metel::symbols::SymbolId;
use metel::term::TypeVar;
use metel::type_expr::TypeExpr;
use metel::types::{
    default_fun_type, CallMultiplicity, CallMutation, NominalId, Type, UseMultiplicity,
};

#[test]
fn mutable_reference_display_uses_language_spelling() {
    assert_eq!(
        Type::MutReference(Box::new(Type::I64)).to_string(),
        "&var i64"
    );
}

#[test]
fn types_are_written_as_in_programs() {
    assert_eq!(Type::Reference(Box::new(Type::Str)).to_string(), "&String");
    assert_eq!(Type::Array(Box::new(Type::U8)).to_string(), "u8[]");
    assert_eq!(
        Type::Tuple(vec![Type::I32, Type::Boolean]).to_string(),
        "(i32, boolean)"
    );
    assert_eq!(
        Type::Named(
            "Perhaps".to_string(),
            vec![Type::I64],
            NominalId::some(SymbolId(15))
        )
        .to_string(),
        "Perhaps<i64>"
    );
    assert_eq!(Type::Unit.to_string(), "()");
    assert_eq!(Type::Never.to_string(), "!");
}

#[test]
fn kinds_of_numbers_are_told_apart() {
    assert!(Type::U16.is_integer());
    assert!(!Type::F32.is_integer());
    assert!(Type::F32.is_float());
    assert!(Type::F64.is_numeric());
    assert!(!Type::Str.is_numeric());
}

#[test]
fn ordinary_functions_are_called_many_times_and_only_read() {
    match default_fun_type(vec![Type::I64], Type::Unit) {
        Type::Fun(params, ret, call, us, mutation) => {
            assert_eq!(params.len(), 1);
            assert!(matches!(*ret, Type::Unit));
            assert!(call == CallMultiplicity::Many);
            assert!(us == UseMultiplicity::Copy);
            assert!(mutation == CallMutation::Reading);
        }
        _ => panic!("not a function"),
    }
}

#[test]
fn identities_of_declarations_do_not_tell_types_apart() {
    let a = NominalId::some(SymbolId(1));
    let b = NominalId::some(SymbolId(2));
    assert!(a == b);
    assert_eq!(a.get(), Some(SymbolId(1)));
    assert_eq!(b.get(), Some(SymbolId(2)));
    assert_eq!(NominalId::default().get(), None);
}

#[test]
fn unknown_types_are_written_with_a_number() {
    let s = InferType::var(TypeVar(3)).to_string();
    assert!(s.contains('3'), "{s}");
    assert_eq!(InferType::bool().to_string(), "boolean");
}

#[test]
fn annotations_are_written_as_in_programs() {
    let list = TypeExpr::Named(
        "List".to_string(),
        vec![TypeExpr::Named("i64".to_string(), vec![])],
    );
    assert_eq!(list.to_string(), "List<i64>");
    assert_eq!(TypeExpr::Array(Box::new(list)).to_string(), "List<i64>[]");
}
