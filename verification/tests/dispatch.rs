use metel::ast::ReceiverKind;
use metel::runtime::RuntimeRegistry;
use metel::runtime_types::{RuntimeMethod, RuntimeSignature};
use metel::symbols::SymbolId;
use metel::values::{ClosureId, RuntimeCallable, Value};

fn method(label: &str) -> RuntimeMethod {
    RuntimeMethod {
        label: label.to_string(),
        receiver: Some(ReceiverKind::Ref),
        signature: RuntimeSignature::default(),
        body: RuntimeCallable::Closure(ClosureId(0)),
    }
}

fn point(id: Option<SymbolId>) -> Value {
    Value::Struct { name: "Point".to_string(), type_id: id, fields: vec![] }
}

fn label(m: Option<RuntimeMethod>) -> Option<String> {
    m.map(|m| m.label)
}

#[test]
fn types_of_the_same_name_have_their_own_methods() {
    let (a, b) = (SymbolId(1), SymbolId(2));
    let mut rt = RuntimeRegistry::new();
    rt.register_inherent_method(a, "Point", "show", method("a"));
    rt.register_inherent_method(b, "Point", "show", method("b"));
    let found = |id| label(rt.get_method_for_value(&point(id), "show"));
    assert_eq!(found(Some(a)).as_deref(), Some("a"));
    assert_eq!(found(Some(b)).as_deref(), Some("b"));
    assert_eq!(found(None).as_deref(), Some("b"));
    assert_eq!(found(Some(SymbolId(3))), None);
}

#[test]
fn aspects_give_methods_of_the_same_name() {
    let (id, first, second) = (SymbolId(1), SymbolId(10), SymbolId(11));
    let mut rt = RuntimeRegistry::new();
    rt.register_aspect_method(id, "Point", "Show", Some(first), vec![], "text", method("show"));
    rt.register_aspect_method(id, "Point", "Debug", Some(second), vec![], "text", method("debug"));
    let of = |aspect| label(rt.get_aspect_method_by_id(id, aspect, "text"));
    assert_eq!(of(first).as_deref(), Some("show"));
    assert_eq!(of(second).as_deref(), Some("debug"));
    assert_eq!(of(SymbolId(12)), None);
    assert_eq!(label(rt.get_regular_method(id, "text")).as_deref(), Some("debug"));
    rt.register_inherent_method(id, "Point", "text", method("own"));
    assert_eq!(label(rt.get_regular_method(id, "text")).as_deref(), Some("own"));
}
