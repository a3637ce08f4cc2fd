use metel::ast::Span;
use metel::display::{format_value, plain_text};
use metel::environment::Stop;
use metel::host::{IoValue, Reply, Task};
use metel::native_keys::{NativeFn, NativeKey};
use metel::natives::{finish_native, native_host_impl, start_native, NativeStep};
use metel::store::Store;
use metel::values::{RuntimeCallable, Value};

const ALL: [NativeKey; 61] = [
    NativeKey::StdCorePrint,
    NativeKey::StdCorePrintln,
    NativeKey::StdCoreDbg,
    NativeKey::StdCoreAssert,
    NativeKey::StdCoreAssertMsg,
    NativeKey::StdCoreClock,
    NativeKey::StdCoreYoloNone,
    NativeKey::StdCoreYoloErr,
    NativeKey::StdCorePanic,
    NativeKey::StdCoreStringLen,
    NativeKey::StdCoreStringIsEmpty,
    NativeKey::StdCoreStringToUpper,
    NativeKey::StdCoreStringToLower,
    NativeKey::StdCoreStringTrim,
    NativeKey::StdCoreStringTrimStart,
    NativeKey::StdCoreStringTrimEnd,
    NativeKey::StdCoreStringContains,
    NativeKey::StdCoreStringStartsWith,
    NativeKey::StdCoreStringEndsWith,
    NativeKey::StdCoreStringIndexOf,
    NativeKey::StdCoreStringSplit,
    NativeKey::StdCoreStringReplace,
    NativeKey::StdCoreStringRepeat,
    NativeKey::StdCoreStringJoin,
    NativeKey::StdCoreStringChars,
    NativeKey::StdCoreStringCharAt,
    NativeKey::StdCoreStringSubstring,
    NativeKey::StdCoreToString,
    NativeKey::StdCoreI8From,
    NativeKey::StdCoreI16From,
    NativeKey::StdCoreI32From,
    NativeKey::StdCoreI64From,
    NativeKey::StdCoreU8From,
    NativeKey::StdCoreU16From,
    NativeKey::StdCoreU32From,
    NativeKey::StdCoreU64From,
    NativeKey::StdCoreF32From,
    NativeKey::StdCoreF64From,
    NativeKey::StdCoreCharFrom,
    NativeKey::StdCoreListNew,
    NativeKey::StdCoreListFrom,
    NativeKey::StdCoreListPush,
    NativeKey::StdCoreListPop,
    NativeKey::StdCoreListLen,
    NativeKey::StdCoreListGet,
    NativeKey::StdCoreListSet,
    NativeKey::StdCoreListAsSlice,
    NativeKey::StdEnvVar,
    NativeKey::StdEnvVars,
    NativeKey::StdFsReadToString,
    NativeKey::StdFsWriteString,
    NativeKey::StdFsAppendString,
    NativeKey::StdFsExists,
    NativeKey::StdFsReadDir,
    NativeKey::StdFsCreateDir,
    NativeKey::StdFsCreateDirAll,
    NativeKey::StdFsRemoveFile,
    NativeKey::StdFsRemoveDir,
    NativeKey::StdFsRemoveDirAll,
    NativeKey::StdProcessArgs,
    NativeKey::StdProcessRun,
];

#[test]
fn every_native_key_has_a_host_impl() {
    for key in ALL {
        let callable = native_host_impl(key);
        match callable {
            RuntimeCallable::Intrinsic { label, .. } => {
                assert!(!label.is_empty(), "native impl for {key:?} has empty label");
            }
            _ => panic!("native impl for {key:?} is not an intrinsic"),
        }
    }
}

fn sp() -> Span {
    Span::new(0, 0, "t")
}

fn step(store: &mut Store, key: NativeKey, args: Vec<Value>) -> NativeStep {
    start_native(store, NativeFn::Key(key), &args, &sp(), 1000)
}

fn value(store: &mut Store, key: NativeKey, args: Vec<Value>) -> Value {
    match step(store, key, args) {
        NativeStep::Done(Ok(v)) => v,
        NativeStep::Done(Err(e)) => panic!("{e:?}"),
        NativeStep::Ask(t) => panic!("{t:?}"),
    }
}

fn failure(store: &mut Store, key: NativeKey, args: Vec<Value>) -> String {
    match step(store, key, args) {
        NativeStep::Done(Err(e)) => format!("{e:?}"),
        NativeStep::Done(Ok(v)) => panic!("{v:?}"),
        NativeStep::Ask(t) => panic!("{t:?}"),
    }
}

fn s(text: &str) -> Value {
    Value::Str(text.to_string())
}

fn shown(store: &Store, v: &Value) -> String {
    plain_text(&format_value(store, v, 1000).expect("it ends")).expect("no floats")
}

fn shows(key: NativeKey, args: Vec<Value>, expected: &str) {
    let mut store = Store::new();
    let v = value(&mut store, key, args);
    assert_eq!(shown(&store, &v), expected);
}

#[test]
fn mutable_reference_value_display_uses_language_spelling() {
    let mut store = Store::new();
    let cell = store.make_cell(Value::I64(42));
    let value = Value::MutReference(cell);
    assert_eq!(shown(&store, &value), "&var 42");
}

#[test]
fn values_are_written_out() {
    let mut store = Store::new();
    let a = store.make_array(vec![s("a\n"), Value::Char('b'), Value::Unit]);
    assert_eq!(shown(&store, &Value::Array(a)), "[\"a\\n\", 'b', ()]");
    let p = Value::Struct {
        name: "P".to_string(),
        type_id: None,
        fields: vec![
            ("y".to_string(), Value::I64(2)),
            ("x".to_string(), Value::Boolean(true)),
        ],
    };
    assert_eq!(shown(&store, &p), "P { x: true, y: 2 }");
    assert_eq!(shown(&store, &Value::Tuple(vec![Value::U8(1), Value::I8(-1)])), "(1, -1)");
    let loop_ = store.make_array(vec![Value::Unit]);
    store.set_element(loop_, 0, Value::Array(loop_));
    assert!(format_value(&store, &Value::Array(loop_), 50).is_none());
}

#[test]
fn texts_are_changed_and_searched() {
    shows(NativeKey::StdCoreStringToUpper, vec![s("straße")], "\"STRASSE\"");
    shows(NativeKey::StdCoreStringToLower, vec![s("ÀB")], "\"àb\"");
    shows(NativeKey::StdCoreStringTrim, vec![s(" \ta b\n")], "\"a b\"");
    shows(NativeKey::StdCoreStringTrimStart, vec![s("  a ")], "\"a \"");
    shows(NativeKey::StdCoreStringTrimEnd, vec![s("  a ")], "\"  a\"");
    shows(NativeKey::StdCoreStringIsEmpty, vec![s("")], "true");
    shows(NativeKey::StdCoreStringContains, vec![s("abcd"), s("bc")], "true");
    shows(NativeKey::StdCoreStringStartsWith, vec![s("abcd"), s("bc")], "false");
    shows(NativeKey::StdCoreStringEndsWith, vec![s("abcd"), s("cd")], "true");
    shows(NativeKey::StdCoreStringSplit, vec![s("a,b,,c"), s(",")], "[\"a\", \"b\", \"\", \"c\"]");
    shows(NativeKey::StdCoreStringSplit, vec![s("ab"), s("")], "[\"ab\"]");
    shows(NativeKey::StdCoreStringReplace, vec![s("aXbX"), s("X"), s("--")], "\"a--b--\"");
    shows(NativeKey::StdCoreStringReplace, vec![s("ab"), s(""), s("-")], "\"-a-b-\"");
    shows(NativeKey::StdCoreStringRepeat, vec![s("ab"), Value::I64(3)], "\"ababab\"");
    shows(NativeKey::StdCoreStringChars, vec![s("hé")], "['h', 'é']");
}

#[test]
fn host_functions_want_their_arguments() {
    let mut store = Store::new();
    let text = failure(&mut store, NativeKey::StdCoreStringTrim, vec![Value::I64(1)]);
    assert!(text.contains("Internal"), "{text}");
    let text = failure(&mut store, NativeKey::StdCoreStringContains, vec![s("a")]);
    assert!(text.contains("Internal"), "{text}");
}

#[test]
fn failed_assertions_are_errors() {
    let mut store = Store::new();
    assert!(matches!(
        value(&mut store, NativeKey::StdCoreAssert, vec![Value::Boolean(true)]),
        Value::Unit
    ));
    let text = failure(&mut store, NativeKey::StdCoreAssert, vec![Value::Boolean(false)]);
    assert!(text.contains("R0012"), "{text}");
    let text = failure(&mut store, NativeKey::StdCorePanic, vec![s("no way")]);
    assert!(text.contains("R0014") && text.contains("no way"), "{text}");
    let text = failure(&mut store, NativeKey::StdCoreYoloNone, vec![]);
    assert!(text.contains("R0013"), "{text}");
}

#[test]
fn characters_are_made_from_their_numbers() {
    let mut store = Store::new();
    assert!(matches!(
        value(&mut store, NativeKey::StdCoreCharFrom, vec![Value::U32(0x41)]),
        Value::Char('A')
    ));
    let text = failure(&mut store, NativeKey::StdCoreCharFrom, vec![Value::U32(0xD800)]);
    assert!(text.contains("R0009"), "{text}");
}

#[test]
fn integers_are_cut_to_their_size() {
    let mut store = Store::new();
    assert!(matches!(
        value(&mut store, NativeKey::StdCoreU8From, vec![Value::I64(257)]),
        Value::U8(1)
    ));
    assert!(matches!(
        value(&mut store, NativeKey::StdCoreI8From, vec![Value::U8(255)]),
        Value::I8(-1)
    ));
}

#[test]
fn lists_grow_and_shrink() {
    let mut store = Store::new();
    let list = value(&mut store, NativeKey::StdCoreListNew, vec![]);
    value(&mut store, NativeKey::StdCoreListPush, vec![list.clone(), Value::I64(1)]);
    value(&mut store, NativeKey::StdCoreListPush, vec![list.clone(), Value::I64(2)]);
    let n = value(&mut store, NativeKey::StdCoreListLen, vec![list.clone()]);
    assert!(matches!(n, Value::I64(2)), "{n:?}");
    let last = value(&mut store, NativeKey::StdCoreListPop, vec![list.clone()]);
    assert!(format!("{last:?}").contains("I64(2)"), "{last:?}");
    let n = value(&mut store, NativeKey::StdCoreListLen, vec![list]);
    assert!(matches!(n, Value::I64(1)), "{n:?}");
}

#[test]
fn files_are_read_by_the_host() {
    let mut store = Store::new();
    let args = vec![s("path")];
    match start_native(&mut store, NativeFn::Key(NativeKey::StdFsReadToString), &args, &sp(), 10) {
        NativeStep::Ask(Task::ReadToString(path)) => assert_eq!(path, "path"),
        NativeStep::Ask(other) => panic!("{other:?}"),
        NativeStep::Done(r) => panic!("{r:?}"),
    }
    let ok = finish_native(
        &mut store,
        NativeFn::Key(NativeKey::StdFsReadToString),
        &args,
        &sp(),
        Reply::Io(Ok(IoValue::Text("hello".to_string()))),
    )
    .unwrap();
    let text = format!("{ok:?}");
    assert!(text.contains("\"Ok\"") && text.contains("hello"), "{text}");
    let err = finish_native(
        &mut store,
        NativeFn::Key(NativeKey::StdFsReadToString),
        &args,
        &sp(),
        Reply::Io(Err("gone".to_string())),
    )
    .unwrap();
    let text = format!("{err:?}");
    assert!(text.contains("\"Err\"") && text.contains("gone"), "{text}");
    let odd = finish_native(
        &mut store,
        NativeFn::Key(NativeKey::StdFsReadToString),
        &args,
        &sp(),
        Reply::Body(None),
    );
    assert!(matches!(odd, Err(Stop::Error(_))));
}

#[test]
fn printing_is_the_hosts_business() {
    let mut store = Store::new();
    match step(&mut store, NativeKey::StdCorePrintln, vec![s("hi")]) {
        NativeStep::Ask(Task::Print { text, newline }) => {
            assert!(newline);
            assert_eq!(plain_text(&text).as_deref(), Some("hi"));
        }
        NativeStep::Ask(other) => panic!("{other:?}"),
        NativeStep::Done(r) => panic!("{r:?}"),
    }
}

#[test]
fn the_length_of_an_array_is_known() {
    let mut store = Store::new();
    let a = store.make_array(vec![Value::Unit, Value::Unit]);
    match start_native(&mut store, NativeFn::ArrayLen, &vec![Value::Array(a)], &sp(), 10) {
        NativeStep::Done(Ok(Value::I64(n))) => assert_eq!(n, 2),
        NativeStep::Done(r) => panic!("{r:?}"),
        NativeStep::Ask(t) => panic!("{t:?}"),
    }
}

#[test]
fn joining_what_was_split_gives_the_text_back() {
    for (text, sep) in [("a,b,,c", ","), (",", ","), ("", ","), ("abab", "ab"), ("ab", "")] {
        let mut store = Store::new();
        let parts = value(&mut store, NativeKey::StdCoreStringSplit, vec![s(text), s(sep)]);
        match value(&mut store, NativeKey::StdCoreStringJoin, vec![parts, s(sep)]) {
            Value::Str(joined) => assert_eq!(joined, text),
            other => panic!("{other:?}"),
        }
    }
}

#[test]
fn positions_outside_a_text_do_no_harm() {
    let at = |i: i64| vec![s("héß"), Value::I64(i)];
    shows(NativeKey::StdCoreStringCharAt, at(2), "Some('ß')");
    shows(NativeKey::StdCoreStringCharAt, at(3), "None");
    shows(NativeKey::StdCoreStringCharAt, at(-1), "None");
    let part = |i: i64, j: i64| vec![s("héß"), Value::I64(i), Value::I64(j)];
    shows(NativeKey::StdCoreStringSubstring, part(1, 3), "\"éß\"");
    shows(NativeKey::StdCoreStringSubstring, part(-5, i64::MAX), "\"héß\"");
    shows(NativeKey::StdCoreStringSubstring, part(2, 1), "\"\"");
    shows(NativeKey::StdCoreStringIndexOf, vec![s("aßbßb"), s("ßb")], "Some(1)");
    shows(NativeKey::StdCoreStringIndexOf, vec![s("ab"), s("ba")], "None");
}

#[test]
fn what_is_set_in_a_list_is_got_from_it() {
    let mut store = Store::new();
    let list = value(&mut store, NativeKey::StdCoreListNew, vec![]);
    for n in [1, 2] {
        value(&mut store, NativeKey::StdCoreListPush, vec![list.clone(), Value::I64(n)]);
    }
    let set = |store: &mut Store, i: i64, n: i64| {
        let args = vec![list.clone(), Value::I64(i), Value::I64(n)];
        let old = value(store, NativeKey::StdCoreListSet, args);
        shown(store, &old)
    };
    assert_eq!(set(&mut store, 1, 9), "Some(2)");
    assert_eq!(set(&mut store, 2, 9), "None");
    assert_eq!(set(&mut store, -1, 9), "None");
    for (i, expected) in [(0, "Some(1)"), (1, "Some(9)"), (2, "None"), (-1, "None")] {
        let got = value(&mut store, NativeKey::StdCoreListGet, vec![list.clone(), Value::I64(i)]);
        assert_eq!(shown(&store, &got), expected);
    }
}
