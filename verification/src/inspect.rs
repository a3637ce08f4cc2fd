//! How values look in messages about faults of the evaluator itself.

use crate::spelling::{concat, list_string};
use crate::strings::{debug_char, debug_text};
use crate::symbols::SymbolId;
use crate::term::Term;
use crate::text::{decimal_string, signed_decimal_string};
use crate::types::Type;
use crate::values::{
    CallableModel, FloatKind, IntKind, PathSegment, RuntimeCallable, SegmentModel, Value, ValueHead,
    ValueTerm,
};
use vstd::prelude::*;
use vstd::string::*;

verus! {

/// The name of the kind of value that an integer type has.
pub open spec fn int_name(kind: IntKind) -> Seq<char> {
    match kind {
        IntKind::I8 => "I8"@,
        IntKind::I16 => "I16"@,
        IntKind::I32 => "I32"@,
        IntKind::I64 => "I64"@,
        IntKind::U8 => "U8"@,
        IntKind::U16 => "U16"@,
        IntKind::U32 => "U32"@,
        IntKind::U64 => "U64"@,
    }
}

/// A text in round brackets, after a name.
pub open spec fn wrapped(name: Seq<char>, inner: Seq<char>) -> Seq<char> {
    name + "("@ + inner + ")"@
}

/// A number in round brackets, after a name.
pub open spec fn numbered(name: Seq<char>, n: nat) -> Seq<char> {
    wrapped(name, crate::text::decimal(n))
}

/// An identity that may not be known.
pub open spec fn identity_text(id: Option<SymbolId>) -> Seq<char> {
    match id {
        Some(id) => wrapped("Some"@, numbered("SymbolId"@, id.0 as nat)),
        None => "None"@,
    }
}

/// Labels with their values, as a map is written.
pub open spec fn entries(labels: Seq<Seq<char>>, parts: Seq<Seq<char>>) -> Seq<Seq<char>> {
    Seq::new(parts.len(), |i: int| crate::strings::quoted(labels[i]) + ": "@ + parts[i])
}

/// Fields between braces, as a map is written.
pub open spec fn fields_text(labels: Seq<Seq<char>>, parts: Seq<Seq<char>>) -> Seq<char> {
    "{"@ + crate::text::joined(entries(labels, parts), ", "@) + "}"@
}

/// One step of a path into a value.
pub open spec fn segment_text(s: SegmentModel) -> Seq<char> {
    match s {
        SegmentModel::Field(f) => wrapped("Field"@, crate::strings::quoted(f)),
        SegmentModel::TupleIndex(i) => numbered("TupleIndex"@, i as nat),
        SegmentModel::ArrayIndex(i) => numbered("ArrayIndex"@, i as nat),
    }
}

/// The steps of a path into a value.
pub open spec fn path_text(path: Seq<SegmentModel>) -> Seq<char> {
    "["@ + crate::text::joined(Seq::new(path.len(), |i: int| segment_text(path[i])), ", "@) + "]"@
}

/// Types between square brackets.
pub open spec fn types_text(ts: Seq<Term>) -> Seq<char> {
    "["@ + crate::text::joined(Seq::new(ts.len(), |i: int| crate::term::text(ts[i])), ", "@)
        + "]"@
}

/// A pointer to a part of what is in a cell.
pub open spec fn pointer_text(name: Seq<char>, root: nat, path: Seq<SegmentModel>) -> Seq<char> {
    name + " { root: "@ + numbered("CellId"@, root) + ", path: "@ + path_text(path) + " }"@
}

/// How a value looks, from its head and from how its components look.
pub open spec fn frame(head: ValueHead, parts: Seq<Seq<char>>) -> Seq<char> {
    match head {
        ValueHead::Int(kind, n) => wrapped(int_name(kind), crate::text::signed_decimal(n)),
        ValueHead::Float(FloatKind::F32, bits) => wrapped(
            "F32"@,
            "bits "@ + crate::text::decimal(bits),
        ),
        ValueHead::Float(FloatKind::F64, bits) => wrapped(
            "F64"@,
            "bits "@ + crate::text::decimal(bits),
        ),
        ValueHead::Char(c) => wrapped("Char"@, crate::strings::quoted_char(c)),
        ValueHead::Boolean(b) => wrapped(
            "Boolean"@,
            if b {
                "true"@
            } else {
                "false"@
            },
        ),
        ValueHead::Str(s) => wrapped("Str"@, crate::strings::quoted(s)),
        ValueHead::Unit => "Unit"@,
        ValueHead::Tuple => "Tuple(["@ + crate::text::joined(parts, ", "@) + "])"@,
        ValueHead::Array(a) => wrapped("Array"@, numbered("ArrayId"@, a.0 as nat)),
        ValueHead::Record(labels) => "Record { fields: "@ + fields_text(labels, parts) + " }"@,
        ValueHead::Struct(name, id, labels) => "Struct { name: "@ + crate::strings::quoted(name)
            + ", type_id: "@ + identity_text(id) + ", fields: "@ + fields_text(labels, parts)
            + " }"@,
        ValueHead::Enum(name, id, variant, _, labels) => "Enum { name: "@
            + crate::strings::quoted(name) + ", type_id: "@ + identity_text(id) + ", variant: "@
            + crate::strings::quoted(variant) + ", fields: "@ + fields_text(labels, parts)
            + " }"@,
        ValueHead::Callable(CallableModel::Closure(c)) => wrapped(
            "Callable"@,
            wrapped("Closure"@, numbered("ClosureId"@, c.0 as nat)),
        ),
        ValueHead::Callable(CallableModel::Intrinsic(label, _)) => wrapped(
            "Callable"@,
            "Intrinsic { label: "@ + crate::strings::quoted(label) + " }"@,
        ),
        ValueHead::Reference(c) => wrapped("Reference"@, numbered("CellId"@, c.0 as nat)),
        ValueHead::MutReference(c) => wrapped("MutReference"@, numbered("CellId"@, c.0 as nat)),
        ValueHead::FieldReference(c, path) => pointer_text("FieldReference"@, c.0 as nat, path),
        ValueHead::MutFieldReference(c, path) => pointer_text(
            "MutFieldReference"@,
            c.0 as nat,
            path,
        ),
        ValueHead::Dyn(c, type_id, aspect_id, aspect, args) => "DynAspect { data: "@ + numbered(
            "CellId"@,
            c.0 as nat,
        ) + ", type_id: "@ + numbered("SymbolId"@, type_id.0 as nat) + ", aspect_id: "@ + numbered(
            "SymbolId"@,
            aspect_id.0 as nat,
        ) + ", aspect_name: "@ + crate::strings::quoted(aspect) + ", type_args: "@ + types_text(
            args,
        ) + " }"@,
    }
}

/// How a value looks inside. What several values share, arrays, cells and closures, is
/// given by its number in the store, and a floating-point number by its bits.
pub open spec fn inspected(v: ValueTerm) -> Seq<char>
    decreases v, 1int,
{
    frame(v.head, parts_inspected(v))
}

/// How the components of a value look.
pub open spec fn parts_inspected(v: ValueTerm) -> Seq<Seq<char>>
    decreases v, 0int,
{
    Seq::new(
        v.args.len(),
        |i: int|
            if 0 <= i < v.args.len() {
                inspected(v.args[i])
            } else {
                arbitrary()
            },
    )
}

fn wrap(name: &str, inner: &str) -> (s: String)
    ensures
        s@ == wrapped(name@, inner@),
{
    let mut s = name.to_owned();
    s.append("(");
    s.append(inner);
    s.append(")");
    s
}

fn number(name: &str, n: u128) -> (s: String)
    ensures
        s@ == numbered(name@, n as nat),
{
    wrap(name, decimal_string(n).as_str())
}

fn show_int(kind: IntKind, n: i128) -> (s: String)
    ensures
        s@ == wrapped(int_name(kind), crate::text::signed_decimal(n as int)),
{
    let name = match kind {
        IntKind::I8 => "I8",
        IntKind::I16 => "I16",
        IntKind::I32 => "I32",
        IntKind::I64 => "I64",
        IntKind::U8 => "U8",
        IntKind::U16 => "U16",
        IntKind::U32 => "U32",
        IntKind::U64 => "U64",
    };
    wrap(name, signed_decimal_string(n).as_str())
}

fn show_bits(name: &str, bits: u128) -> (s: String)
    ensures
        s@ == wrapped(name@, "bits "@ + crate::text::decimal(bits as nat)),
{
    wrap(name, concat("bits ", decimal_string(bits).as_str()).as_str())
}

fn show_identity(id: &Option<SymbolId>) -> (s: String)
    ensures
        s@ == identity_text(*id),
{
    match id {
        Some(id) => wrap("Some", number("SymbolId", id.0 as u128).as_str()),
        None => "None".to_owned(),
    }
}

fn show_fields(fields: &Vec<(String, Value)>, parts: &Vec<String>) -> (s: String)
    requires
        fields@.len() == parts@.len(),
    ensures
        s@ == fields_text(crate::types::labels_of(fields@), parts.deep_view()),
{
    let mut items: Vec<String> = Vec::new();
    let ghost want = entries(crate::types::labels_of(fields@), parts.deep_view());
    let mut i: usize = 0;
    while i < parts.len()
        invariant
            i <= parts.len(),
            fields@.len() == parts@.len(),
            want == entries(crate::types::labels_of(fields@), parts.deep_view()),
            items@.len() == i,
            forall|j: int| 0 <= j < i ==> (#[trigger] items@[j])@ == want[j],
        decreases parts.len() - i,
    {
        let mut item = debug_text(fields[i].0.as_str());
        item.append(": ");
        item.append(parts[i].as_str());
        items.push(item);
        i += 1;
    }
    proof {
        assert(items.deep_view() =~= want);
    }
    list_string("{", &items, "}")
}

fn show_path(path: &Vec<PathSegment>) -> (s: String)
    ensures
        s@ == path_text(path.deep_view()),
{
    let mut items: Vec<String> = Vec::new();
    let ghost all = path.deep_view();
    let ghost want = Seq::new(all.len(), |i: int| segment_text(all[i]));
    let mut i: usize = 0;
    while i < path.len()
        invariant
            i <= path.len(),
            all == path.deep_view(),
            want == Seq::new(all.len(), |i: int| segment_text(all[i])),
            items@.len() == i,
            forall|j: int| 0 <= j < i ==> (#[trigger] items@[j])@ == want[j],
        decreases path.len() - i,
    {
        assert(all[i as int] == path@[i as int].deep_view());
        let item = match &path[i] {
            PathSegment::Field(f) => wrap("Field", debug_text(f.as_str()).as_str()),
            PathSegment::TupleIndex(k) => number("TupleIndex", *k as u128),
            PathSegment::ArrayIndex(k) => number("ArrayIndex", *k as u128),
        };
        items.push(item);
        i += 1;
    }
    proof {
        assert(items.deep_view() =~= want);
    }
    list_string("[", &items, "]")
}

fn show_types(ts: &Vec<Type>) -> (s: String)
    ensures
        s@ == types_text(ts.deep_view()),
{
    let mut items: Vec<String> = Vec::new();
    let ghost all = ts.deep_view();
    let ghost want = Seq::new(all.len(), |i: int| crate::term::text(all[i]));
    let mut i: usize = 0;
    while i < ts.len()
        invariant
            i <= ts.len(),
            all == ts.deep_view(),
            want == Seq::new(all.len(), |i: int| crate::term::text(all[i])),
            items@.len() == i,
            forall|j: int| 0 <= j < i ==> (#[trigger] items@[j])@ == want[j],
        decreases ts.len() - i,
    {
        assert(all[i as int] == ts@[i as int].deep_view());
        items.push(ts[i].to_string());
        i += 1;
    }
    proof {
        assert(items.deep_view() =~= want);
    }
    list_string("[", &items, "]")
}

fn show_pointer(name: &str, root: usize, path: &Vec<PathSegment>) -> (s: String)
    ensures
        s@ == pointer_text(name@, root as nat, path.deep_view()),
{
    let mut s = name.to_owned();
    s.append(" { root: ");
    s.append(number("CellId", root as u128).as_str());
    s.append(", path: ");
    s.append(show_path(path).as_str());
    s.append(" }");
    s
}

/// How a value looks inside. What several values share, arrays, cells and closures, is
/// given by its number in the store, and a floating-point number by its bits.
pub fn inspect(v: &Value) -> (s: String)
    ensures
        s@ == inspected(v@),
    decreases v@,
{
    let mut parts: Vec<String> = Vec::new();
    let ghost want = parts_inspected(v@);
    let n: usize = v.arity();
    let mut i: usize = 0;
    while i < n
        invariant
            i <= n,
            n == v@.args.len(),
            want == parts_inspected(v@),
            parts@.len() == i,
            forall|j: int| 0 <= j < i ==> (#[trigger] parts@[j])@ == want[j],
        decreases n - i,
    {
        let c = v.child(i);
        parts.push(inspect(c));
        i += 1;
    }
    proof {
        assert(parts.deep_view() =~= want);
    }
    match v {
        Value::I64(n) => show_int(IntKind::I64, *n as i128),
        Value::I8(n) => show_int(IntKind::I8, *n as i128),
        Value::I16(n) => show_int(IntKind::I16, *n as i128),
        Value::I32(n) => show_int(IntKind::I32, *n as i128),
        Value::U8(n) => show_int(IntKind::U8, *n as i128),
        Value::U16(n) => show_int(IntKind::U16, *n as i128),
        Value::U32(n) => show_int(IntKind::U32, *n as i128),
        Value::U64(n) => show_int(IntKind::U64, *n as i128),
        Value::F64(bits) => show_bits("F64", *bits as u128),
        Value::F32(bits) => show_bits("F32", *bits as u128),
        Value::Char(c) => wrap("Char", debug_char(*c).as_str()),
        Value::Boolean(b) => wrap(
            "Boolean",
            if *b {
                "true"
            } else {
                "false"
            },
        ),
        Value::Str(s) => wrap("Str", debug_text(s.as_str()).as_str()),
        Value::Unit => "Unit".to_owned(),
        Value::Tuple(_) => list_string("Tuple([", &parts, "])"),
        Value::Array(a) => wrap("Array", number("ArrayId", a.0 as u128).as_str()),
        Value::Record { fields } => {
            let mut s = "Record { fields: ".to_owned();
            s.append(show_fields(fields, &parts).as_str());
            s.append(" }");
            s
        },
        Value::Struct { name, type_id, fields } => {
            let mut s = "Struct { name: ".to_owned();
            s.append(debug_text(name.as_str()).as_str());
            s.append(", type_id: ");
            s.append(show_identity(type_id).as_str());
            s.append(", fields: ");
            s.append(show_fields(fields, &parts).as_str());
            s.append(" }");
            s
        },
        Value::Enum { name, type_id, variant, variant_id: _, fields } => {
            let mut s = "Enum { name: ".to_owned();
            s.append(debug_text(name.as_str()).as_str());
            s.append(", type_id: ");
            s.append(show_identity(type_id).as_str());
            s.append(", variant: ");
            s.append(debug_text(variant.as_str()).as_str());
            s.append(", fields: ");
            s.append(show_fields(fields, &parts).as_str());
            s.append(" }");
            s
        },
        Value::Callable(RuntimeCallable::Closure(c)) => wrap(
            "Callable",
            wrap("Closure", number("ClosureId", c.0 as u128).as_str()).as_str(),
        ),
        Value::Callable(RuntimeCallable::Intrinsic { label, fun: _ }) => {
            let mut s = "Intrinsic { label: ".to_owned();
            s.append(debug_text(label.as_str()).as_str());
            s.append(" }");
            wrap("Callable", s.as_str())
        },
        Value::Reference(c) => wrap("Reference", number("CellId", c.0 as u128).as_str()),
        Value::MutReference(c) => wrap("MutReference", number("CellId", c.0 as u128).as_str()),
        Value::FieldReference { root, path } => show_pointer("FieldReference", root.0, path),
        Value::MutFieldReference { root, path } => show_pointer("MutFieldReference", root.0, path),
        Value::DynAspect { data, type_id, aspect_id, aspect_name, type_args } => {
            let mut s = "DynAspect { data: ".to_owned();
            s.append(number("CellId", data.0 as u128).as_str());
            s.append(", type_id: ");
            s.append(number("SymbolId", type_id.0 as u128).as_str());
            s.append(", aspect_id: ");
            s.append(number("SymbolId", aspect_id.0 as u128).as_str());
            s.append(", aspect_name: ");
            s.append(debug_text(aspect_name.as_str()).as_str());
            s.append(", type_args: ");
            s.append(show_types(type_args).as_str());
            s.append(" }");
            s
        },
    }
}

} // verus!
