use metel::ast::Span;
use metel::evaluator::ident_rc;
use metel::runtime::RuntimeRegistry;
use metel::store::{Environment, Store};
use metel::symbols::SymbolId;
use metel::typed_ast::{BindingId, CaptureSpec};
use metel::values::{LocalId, Value};

fn as_i64(v: Option<Value>) -> Option<i64> {
    match v {
        Some(Value::I64(n)) => Some(n),
        _ => None,
    }
}

#[test]
fn define_binding_is_readable_by_local_id() {
    let mut store = Store::new();
    let mut env = Environment::new();
    let id = LocalId(0x1234);
    assert!(env.define_binding(&mut store, Some(id), "x", Value::I64(7)));
    assert_eq!(as_i64(env.get_local(&store, id)), Some(7));
    // The name map is written in step so unmigrated paths keep working.
    assert_eq!(as_i64(env.get(&store, "x")), Some(7));
}

#[test]
fn a_name_only_binding_has_no_frame_slot() {
    let mut store = Store::new();
    let mut env = Environment::new();
    assert!(env.define(&mut store, "y", Value::I64(1)));
    assert!(env.get_local(&store, LocalId(0x9999)).is_none());
    assert_eq!(as_i64(env.get(&store, "y")), Some(1));
}

#[test]
fn distinct_local_ids_do_not_alias_when_the_name_is_reused() {
    let mut store = Store::new();
    let mut env = Environment::new();
    let outer = LocalId(1);
    let inner = LocalId(2);
    env.define_binding(&mut store, Some(outer), "n", Value::I64(10));
    env.define_binding(&mut store, Some(inner), "n", Value::I64(20));
    assert_eq!(as_i64(env.get_local(&store, outer)), Some(10));
    assert_eq!(as_i64(env.get_local(&store, inner)), Some(20));
    assert_eq!(as_i64(env.get(&store, "n")), Some(20));
}

#[test]
fn capture_clone_drops_frame_slots_but_keeps_the_name_snapshot() {
    let mut store = Store::new();
    let mut env = Environment::new();
    let id = LocalId(42);
    env.define_binding(&mut store, Some(id), "c", Value::I64(5));
    let snapshot = env.capture_clone(&mut store).unwrap();
    assert!(snapshot.get_local(&store, id).is_none());
    assert_eq!(as_i64(snapshot.get(&store, "c")), Some(5));
}

#[test]
fn capture_closure_installs_captures_in_the_frame_by_enclosing_id() {
    let mut store = Store::new();
    let mut outer = Environment::new();
    let n_id = LocalId(7);
    outer.define_binding(&mut store, Some(n_id), "n", Value::I64(3));
    let sp = Span::new(0, 0, "t");
    let caps = vec![CaptureSpec::Clone {
        name: "n".to_string(),
        span: sp.clone(),
    }];
    let closure_env = outer
        .capture_closure(&mut store, &caps, &vec![Some(n_id)], &sp)
        .unwrap();
    assert_eq!(as_i64(closure_env.get_local(&store, n_id)), Some(3));
    assert_eq!(as_i64(closure_env.get(&store, "n")), Some(3));
}

#[test]
fn mut_ref_capture_shares_one_cell_across_name_and_id() {
    let mut store = Store::new();
    let mut outer = Environment::new();
    let n_id = LocalId(8);
    outer.define_binding(&mut store, Some(n_id), "n", Value::I64(0));
    let sp = Span::new(0, 0, "t");
    let caps = vec![CaptureSpec::MutRef {
        name: "n".to_string(),
        span: sp.clone(),
    }];
    let closure_env = outer
        .capture_closure(&mut store, &caps, &vec![Some(n_id)], &sp)
        .unwrap();
    // One cell backs both keys: a write via the name map is seen by the
    // id-indexed read.
    assert_eq!(closure_env.set(&mut store, "n", Value::I64(42)), Some(true));
    assert_eq!(as_i64(closure_env.get_local(&store, n_id)), Some(42));
    assert_eq!(as_i64(outer.get(&store, "n")), Some(42));
}

#[test]
fn ident_rc_prefers_the_frame_cell_over_the_name_map() {
    let mut store = Store::new();
    let mut env = Environment::new();
    let id = LocalId(99);
    env.define_binding(&mut store, Some(id), "x", Value::I64(3));
    let runtime = RuntimeRegistry::new();
    let cell = ident_rc("x", Some(BindingId::Local(id)), &env, &runtime).expect("resolves by id");
    assert_eq!(as_i64(Some(store.cell(cell))), Some(3));

    // A name the frame doesn't know about still falls back to the name map.
    env.define(&mut store, "y", Value::I64(9));
    let cell = ident_rc("y", None, &env, &runtime).expect("falls back by name");
    assert_eq!(as_i64(Some(store.cell(cell))), Some(9));
}

#[test]
fn globals_are_found_by_their_identity() {
    let mut store = Store::new();
    let env = Environment::new();
    let mut runtime = RuntimeRegistry::new();
    let cell = store.make_cell(Value::I64(12));
    runtime.register_global_slot(SymbolId(50), cell);
    let found = ident_rc("g", Some(BindingId::Global(SymbolId(50))), &env, &runtime).unwrap();
    assert_eq!(as_i64(Some(store.cell(found))), Some(12));
    assert!(ident_rc("g", Some(BindingId::Global(SymbolId(51))), &env, &runtime).is_none());
}

#[test]
fn inner_scopes_hide_outer_ones_and_end() {
    let mut store = Store::new();
    let mut env = Environment::new();
    env.define(&mut store, "n", Value::I64(1));
    env.push_scope();
    env.define(&mut store, "n", Value::I64(2));
    assert_eq!(as_i64(env.get(&store, "n")), Some(2));
    env.pop_scope();
    assert_eq!(as_i64(env.get(&store, "n")), Some(1));
}

#[test]
fn captures_by_value_are_independent() {
    let mut store = Store::new();
    let mut outer = Environment::new();
    outer.define(&mut store, "n", Value::I64(1));
    let sp = Span::new(0, 0, "t");
    let caps = vec![CaptureSpec::Owned {
        name: "n".to_string(),
        span: sp.clone(),
    }];
    let inner = outer
        .capture_closure(&mut store, &caps, &vec![None], &sp)
        .unwrap();
    assert_eq!(inner.set(&mut store, "n", Value::I64(5)), Some(true));
    assert_eq!(as_i64(inner.get(&store, "n")), Some(5));
    assert_eq!(as_i64(outer.get(&store, "n")), Some(1));
}

#[test]
fn capturing_what_is_not_there_fails() {
    let mut store = Store::new();
    let outer = Environment::new();
    let sp = Span::new(3, 4, "t");
    let caps = vec![CaptureSpec::Owned {
        name: "missing".to_string(),
        span: sp.clone(),
    }];
    let r = outer.capture_closure(&mut store, &caps, &vec![None], &sp);
    let text = format!("{:?}", r.err());
    assert!(text.contains("undefined variable `missing`"), "{text}");
    assert!(text.contains("R0003"), "{text}");
}

#[test]
fn assigning_to_what_is_not_there_changes_nothing() {
    let mut store = Store::new();
    let env = Environment::new();
    assert_eq!(env.set(&mut store, "n", Value::I64(5)), Some(false));
    assert!(env.get(&store, "n").is_none());
}

#[test]
fn arrays_are_copied_when_they_are_bound() {
    let mut store = Store::new();
    let mut env = Environment::new();
    let items = store.make_array(vec![Value::I64(1), Value::I64(2)]);
    assert!(env.define(&mut store, "a", Value::Array(items)));
    store.set_element(items, 0, Value::I64(9));
    match env.get(&store, "a") {
        Some(Value::Array(copy)) => {
            assert_ne!(copy, items);
            assert_eq!(as_i64(Some(store.element(copy, 0))), Some(1));
            assert_eq!(as_i64(Some(store.element(copy, 1))), Some(2));
        }
        other => panic!("{other:?}"),
    }
}

#[test]
fn an_array_that_contains_itself_cannot_be_bound() {
    let mut store = Store::new();
    let mut env = Environment::new();
    let a = store.make_array(vec![Value::Unit]);
    store.set_element(a, 0, Value::Array(a));
    assert!(!env.define(&mut store, "a", Value::Array(a)));
    assert!(env.get(&store, "a").is_none());
}
