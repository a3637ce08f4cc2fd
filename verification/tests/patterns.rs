use metel::ast::Span;
use metel::pattern::match_pattern;
use metel::store::Store;
use metel::symbols::VariantId;
use metel::typed_ast::{Literal, TypedPattern};
use metel::values::{LocalId, Value};

fn f64_value(x: f64) -> Value {
    Value::F64(x.to_bits())
}

fn fields(list: Vec<(&str, Value)>) -> Vec<(String, Value)> {
    list.into_iter().map(|(n, v)| (n.to_string(), v)).collect()
}

#[test]
fn pattern_binding_pattern_carries_its_local_id() {
    let mut store = Store::new();
    let pat = TypedPattern::Binding("x".to_string(), Some(LocalId(5)), Span::new(0, 0, "t"));
    let mut out = Vec::new();
    assert!(match_pattern(&mut store, &pat, &Value::I64(9), &mut out));
    assert_eq!(out.len(), 1);
    assert_eq!(out[0].0, "x");
    assert_eq!(out[0].1, Some(LocalId(5)));
}

#[test]
fn pattern_struct_field_shorthand_bindings_carry_their_local_ids() {
    let mut store = Store::new();
    let pat = TypedPattern::Struct {
        name: "P".to_string(),
        type_id: None,
        fields: vec![
            ("a".to_string(), None, Some(LocalId(1))),
            ("b".to_string(), None, Some(LocalId(2))),
        ],
        rest: false,
        span: Span::new(0, 0, "t"),
    };
    let value = Value::Struct {
        name: "P".to_string(),
        type_id: None,
        fields: fields(vec![("a", Value::I64(1)), ("b", Value::I64(2))]),
    };
    let mut out = Vec::new();
    assert!(match_pattern(&mut store, &pat, &value, &mut out));
    let ids: Vec<_> = out.iter().map(|(n, id, _)| (n.as_str(), *id)).collect();
    assert!(ids.contains(&("a", Some(LocalId(1)))));
    assert!(ids.contains(&("b", Some(LocalId(2)))));
}

#[test]
fn pattern_enum_variant_pattern_rejects_a_same_named_variant_from_an_unrelated_enum() {
    let mut store = Store::new();
    let pat = TypedPattern::EnumVariant {
        path: vec!["Shape".to_string(), "Circle".to_string()],
        variant_id: Some(VariantId(1)),
        fields: vec![("radius".to_string(), None, Some(LocalId(1)))],
        rest: false,
        span: Span::new(0, 0, "t"),
    };
    let value = Value::Enum {
        name: "Shape".to_string(),
        type_id: None,
        variant: "Circle".to_string(),
        variant_id: Some(VariantId(2)),
        fields: fields(vec![("radius", f64_value(2.0))]),
    };
    let mut out = Vec::new();
    assert!(
        !match_pattern(&mut store, &pat, &value, &mut out),
        "a pattern resolved to one enum's variant must not match a value \
         belonging to an unrelated same-named enum's same-named variant"
    );
}

#[test]
fn pattern_enum_variant_pattern_matches_the_same_resolved_identity() {
    let mut store = Store::new();
    let pat = TypedPattern::EnumVariant {
        path: vec!["Shape".to_string(), "Circle".to_string()],
        variant_id: Some(VariantId(1)),
        fields: vec![("radius".to_string(), None, Some(LocalId(1)))],
        rest: false,
        span: Span::new(0, 0, "t"),
    };
    let value = Value::Enum {
        name: "Shape".to_string(),
        type_id: None,
        variant: "Circle".to_string(),
        variant_id: Some(VariantId(1)),
        fields: fields(vec![("radius", f64_value(2.0))]),
    };
    let mut out = Vec::new();
    assert!(
        match_pattern(&mut store, &pat, &value, &mut out),
        "the same resolved VariantId on both sides must match"
    );
    assert_eq!(out[0].0, "radius");
    assert_eq!(out[0].1, Some(LocalId(1)));
    assert!(matches!(out[0].2, Value::F64(r) if f64::from_bits(r) == 2.0));
}

#[test]
fn pattern_enum_variant_pattern_falls_back_to_bare_names_without_identity_context() {
    let mut store = Store::new();
    let pat = TypedPattern::EnumVariant {
        path: vec!["Shape".to_string(), "Circle".to_string()],
        variant_id: None,
        fields: vec![],
        rest: false,
        span: Span::new(0, 0, "t"),
    };
    let value = Value::Enum {
        name: "Shape".to_string(),
        type_id: None,
        variant: "Circle".to_string(),
        variant_id: None,
        fields: vec![],
    };
    let mut out = Vec::new();
    assert!(
        match_pattern(&mut store, &pat, &value, &mut out),
        "without identity context on either side, matching falls back to bare names"
    );
}

#[test]
fn pattern_array_rest_binding_carries_its_local_id() {
    let mut store = Store::new();
    let pat = TypedPattern::Array {
        elems: vec![TypedPattern::Binding(
            "head".to_string(),
            Some(LocalId(1)),
            Span::new(0, 0, "t"),
        )],
        rest: Some(("tail".to_string(), Some(LocalId(2)))),
        span: Span::new(0, 0, "t"),
    };
    let items = store.make_array(vec![Value::I64(1), Value::I64(2), Value::I64(3)]);
    let value = Value::Array(items);
    let mut out = Vec::new();
    assert!(match_pattern(&mut store, &pat, &value, &mut out));
    let rest_binding = out
        .iter()
        .find(|(name, ..)| name == "tail")
        .expect("rest binding present");
    assert_eq!(rest_binding.1, Some(LocalId(2)));
}

#[test]
fn tests_binding_pattern_carries_its_local_id() {
    let mut store = Store::new();
    let pat = TypedPattern::Binding("x".to_string(), Some(LocalId(5)), Span::new(0, 0, "t"));
    let mut out = Vec::new();
    assert!(match_pattern(&mut store, &pat, &Value::I64(9), &mut out));
    assert_eq!(out.len(), 1);
    assert_eq!(out[0].0, "x");
    assert_eq!(out[0].1, Some(LocalId(5)));
}

#[test]
fn tests_struct_field_shorthand_bindings_carry_their_local_ids() {
    let mut store = Store::new();
    let pat = TypedPattern::Struct {
        name: "P".to_string(),
        type_id: None,
        fields: vec![
            ("a".to_string(), None, Some(LocalId(1))),
            ("b".to_string(), None, Some(LocalId(2))),
        ],
        rest: false,
        span: Span::new(0, 0, "t"),
    };
    let value = Value::Struct {
        name: "P".to_string(),
        type_id: None,
        fields: fields(vec![("a", Value::I64(1)), ("b", Value::I64(2))]),
    };
    let mut out = Vec::new();
    assert!(match_pattern(&mut store, &pat, &value, &mut out));
    let ids: Vec<_> = out.iter().map(|(n, id, _)| (n.as_str(), *id)).collect();
    assert!(ids.contains(&("a", Some(LocalId(1)))));
    assert!(ids.contains(&("b", Some(LocalId(2)))));
}

#[test]
fn tests_enum_variant_pattern_rejects_a_same_named_variant_from_an_unrelated_enum() {
    let mut store = Store::new();
    let pat = TypedPattern::EnumVariant {
        path: vec!["Shape".to_string(), "Circle".to_string()],
        variant_id: Some(VariantId(1)),
        fields: vec![("radius".to_string(), None, Some(LocalId(1)))],
        rest: false,
        span: Span::new(0, 0, "t"),
    };
    let value = Value::Enum {
        name: "Shape".to_string(),
        type_id: None,
        variant: "Circle".to_string(),
        variant_id: Some(VariantId(2)),
        fields: fields(vec![("radius", f64_value(2.0))]),
    };
    let mut out = Vec::new();
    assert!(
        !match_pattern(&mut store, &pat, &value, &mut out),
        "a pattern resolved to one enum's variant must not match a value \
         belonging to an unrelated same-named enum's same-named variant"
    );
}

#[test]
fn tests_enum_variant_pattern_matches_the_same_resolved_identity() {
    let mut store = Store::new();
    let pat = TypedPattern::EnumVariant {
        path: vec!["Shape".to_string(), "Circle".to_string()],
        variant_id: Some(VariantId(1)),
        fields: vec![("radius".to_string(), None, Some(LocalId(1)))],
        rest: false,
        span: Span::new(0, 0, "t"),
    };
    let value = Value::Enum {
        name: "Shape".to_string(),
        type_id: None,
        variant: "Circle".to_string(),
        variant_id: Some(VariantId(1)),
        fields: fields(vec![("radius", f64_value(2.0))]),
    };
    let mut out = Vec::new();
    assert!(
        match_pattern(&mut store, &pat, &value, &mut out),
        "the same resolved VariantId on both sides must match"
    );
    assert_eq!(out[0].0, "radius");
    assert_eq!(out[0].1, Some(LocalId(1)));
    assert!(matches!(out[0].2, Value::F64(r) if f64::from_bits(r) == 2.0));
}

#[test]
fn tests_enum_variant_pattern_falls_back_to_bare_names_without_identity_context() {
    let mut store = Store::new();
    let pat = TypedPattern::EnumVariant {
        path: vec!["Shape".to_string(), "Circle".to_string()],
        variant_id: None,
        fields: vec![],
        rest: false,
        span: Span::new(0, 0, "t"),
    };
    let value = Value::Enum {
        name: "Shape".to_string(),
        type_id: None,
        variant: "Circle".to_string(),
        variant_id: None,
        fields: vec![],
    };
    let mut out = Vec::new();
    assert!(
        match_pattern(&mut store, &pat, &value, &mut out),
        "without identity context on either side, matching falls back to bare names"
    );
}

#[test]
fn tests_array_rest_binding_carries_its_local_id() {
    let mut store = Store::new();
    let pat = TypedPattern::Array {
        elems: vec![TypedPattern::Binding(
            "head".to_string(),
            Some(LocalId(1)),
            Span::new(0, 0, "t"),
        )],
        rest: Some(("tail".to_string(), Some(LocalId(2)))),
        span: Span::new(0, 0, "t"),
    };
    let items = store.make_array(vec![Value::I64(1), Value::I64(2), Value::I64(3)]);
    let value = Value::Array(items);
    let mut out = Vec::new();
    assert!(match_pattern(&mut store, &pat, &value, &mut out));
    let rest_binding = out
        .iter()
        .find(|(name, ..)| name == "tail")
        .expect("rest binding present");
    assert_eq!(rest_binding.1, Some(LocalId(2)));
}

#[test]
fn the_rest_of_an_array_is_an_array_of_its_own() {
    let mut store = Store::new();
    let sp = Span::new(0, 0, "t");
    let pat = TypedPattern::Array {
        elems: vec![TypedPattern::Wildcard(sp.clone())],
        rest: Some(("tail".to_string(), None)),
        span: sp,
    };
    let items = store.make_array(vec![Value::I64(1), Value::I64(2), Value::I64(3)]);
    let mut out = Vec::new();
    assert!(match_pattern(&mut store, &pat, &Value::Array(items), &mut out));
    match &out[0].2 {
        Value::Array(tail) => {
            assert_ne!(*tail, items);
            assert_eq!(store.array_len(*tail), 2);
            assert!(matches!(store.element(*tail, 0), Value::I64(2)));
            assert!(matches!(store.element(*tail, 1), Value::I64(3)));
        }
        other => panic!("{other:?}"),
    }
}

#[test]
fn an_array_pattern_without_rest_fits_only_its_length() {
    let mut store = Store::new();
    let sp = Span::new(0, 0, "t");
    let pat = TypedPattern::Array {
        elems: vec![TypedPattern::Wildcard(sp.clone())],
        rest: None,
        span: sp,
    };
    let one = store.make_array(vec![Value::I64(1)]);
    let two = store.make_array(vec![Value::I64(1), Value::I64(2)]);
    let mut out = Vec::new();
    assert!(match_pattern(&mut store, &pat, &Value::Array(one), &mut out));
    assert!(!match_pattern(&mut store, &pat, &Value::Array(two), &mut out));
    assert!(!match_pattern(&mut store, &pat, &Value::Unit, &mut out));
}

#[test]
fn tuples_are_matched_element_by_element() {
    let mut store = Store::new();
    let sp = Span::new(0, 0, "t");
    let pat = TypedPattern::Tuple(
        vec![
            TypedPattern::Literal(Literal::Int(1), sp.clone()),
            TypedPattern::Binding("y".to_string(), None, sp.clone()),
        ],
        sp,
    );
    let mut out = Vec::new();
    let fits = Value::Tuple(vec![Value::I64(1), Value::Boolean(true)]);
    assert!(match_pattern(&mut store, &pat, &fits, &mut out));
    assert!(matches!(out[0].2, Value::Boolean(true)));
    let other = Value::Tuple(vec![Value::I64(2), Value::Boolean(true)]);
    assert!(!match_pattern(&mut store, &pat, &other, &mut out));
    let longer = Value::Tuple(vec![Value::I64(1), Value::Unit, Value::Unit]);
    assert!(!match_pattern(&mut store, &pat, &longer, &mut out));
}

#[test]
fn a_struct_pattern_wants_every_field() {
    let mut store = Store::new();
    let pat = TypedPattern::Struct {
        name: "P".to_string(),
        type_id: None,
        fields: vec![("missing".to_string(), None, None)],
        rest: true,
        span: Span::new(0, 0, "t"),
    };
    let value = Value::Struct {
        name: "P".to_string(),
        type_id: None,
        fields: fields(vec![("a", Value::Unit)]),
    };
    let mut out = Vec::new();
    assert!(!match_pattern(&mut store, &pat, &value, &mut out));
}
