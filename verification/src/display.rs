//! Values as text.
//!
//! How a floating-point number is written is not decided here: a text is made of
//! pieces, and such a number is a piece of its own.

use crate::data::Dup;
use crate::store::{Store, StoreModel};
use crate::strings::{debug_text, is_not_after};
use crate::text::signed_decimal_string;
use crate::values::{
    field_position, CallableModel, CellId, FloatKind, RuntimeCallable, Value, ValueHead, ValueTerm,
};
use vstd::prelude::*;
use vstd::string::*;

verus! {

/// A floating-point number to be written. Where `whole` is set, a whole number is
/// written as an integer.
#[derive(Debug, Clone, Copy, PartialEq, Eq, Structural)]
pub struct FloatText {
    pub kind: FloatKind,
    pub bits: u64,
    pub whole: bool,
}

impl DeepView for FloatText {
    type V = FloatText;

    open spec fn deep_view(&self) -> FloatText {
        *self
    }
}

/// A piece of text.
#[derive(Debug)]
pub enum Piece {
    Text(String),
    Float(FloatText),
}

pub enum PieceModel {
    Text(Seq<char>),
    Float(FloatText),
}

impl DeepView for Piece {
    type V = PieceModel;

    open spec fn deep_view(&self) -> PieceModel {
        match self {
            Piece::Text(s) => PieceModel::Text(s@),
            Piece::Float(f) => PieceModel::Float(*f),
        }
    }
}

/// The number of positions, of the first `n` in order, whose labels do not come
/// after the label at `i`.
pub open spec fn rank(order: Seq<int>, labels: Seq<Seq<char>>, i: int, n: int) -> int
    decreases n,
{
    if n <= 0 {
        0
    } else if crate::strings::not_after(labels[order[n - 1]], labels[i], 0) {
        n
    } else {
        rank(order, labels, i, n - 1)
    }
}

/// The positions of the first `k` labels in the order of the labels.
pub open spec fn ordered(labels: Seq<Seq<char>>, k: nat) -> Seq<int>
    decreases k,
{
    if k == 0 {
        Seq::empty()
    } else {
        let order = ordered(labels, (k - 1) as nat);
        order.insert(rank(order, labels, k - 1, order.len() as int), k - 1)
    }
}

/// A label before the value that it belongs to.
pub open spec fn label_text(label: Seq<char>) -> PieceModel {
    PieceModel::Text(label + ": "@)
}

/// How a value without parts that are values is written, where it is one.
pub open spec fn leaf(v: ValueTerm) -> Option<PieceModel> {
    match v.head {
        ValueHead::Int(_, k) => Some(PieceModel::Text(crate::text::signed_decimal(k))),
        ValueHead::Float(kind, bits) => Some(
            PieceModel::Float(FloatText { kind, bits: bits as u64, whole: false }),
        ),
        ValueHead::Char(c) => Some(PieceModel::Text("'"@.push(c) + "'"@)),
        ValueHead::Boolean(b) => Some(
            PieceModel::Text(
                if b {
                    "true"@
                } else {
                    "false"@
                },
            ),
        ),
        ValueHead::Str(t) => Some(PieceModel::Text(crate::strings::quoted(t))),
        ValueHead::Unit => Some(PieceModel::Text("()"@)),
        ValueHead::Callable(CallableModel::Closure(_)) => Some(PieceModel::Text("<closure>"@)),
        ValueHead::Callable(CallableModel::Intrinsic(label, _)) => Some(
            PieceModel::Text("<intrinsic:"@ + label + ">"@),
        ),
        ValueHead::FieldReference(_, _) => Some(PieceModel::Text("<& field-path>"@)),
        ValueHead::MutFieldReference(_, _) => Some(PieceModel::Text("<&var field-path>"@)),
        _ => None,
    }
}

/// How a value is written, following at most `n` references or arrays into each
/// other.
pub open spec fn shown(s: StoreModel, v: ValueTerm, n: nat) -> Option<Seq<PieceModel>>
    decreases n, v, 0int,
{
    let all = v.args.len() as int;
    match v.head {
        ValueHead::Tuple => between("("@, items_shown(s, v.args, all, n), ")"@),
        ValueHead::Array(a) => if n == 0 {
            None
        } else {
            let items = crate::store::array_at(s, a);
            between("["@, items_shown(s, items, items.len() as int, (n - 1) as nat), "]"@)
        },
        ValueHead::Record(labels) => between(
            "{ "@,
            fields_shown(s, v.args, labels, ordered(labels, labels.len()), all, n),
            " }"@,
        ),
        ValueHead::Struct(name, _, labels) => between(
            name + " { "@,
            fields_shown(s, v.args, labels, ordered(labels, labels.len()), all, n),
            " }"@,
        ),
        ValueHead::Enum(name, _, variant, _, labels) => if name == "Perhaps"@ {
            let at = crate::values::label_at(labels, "value"@, 0);
            if variant == "Some"@ && at < labels.len() {
                between("Some("@, part_shown(s, v.args, at, n), ")"@)
            } else {
                one("None"@)
            }
        } else if name == "Result"@ {
            if variant == "Ok"@ {
                between(
                    "Ok("@,
                    part_shown(s, v.args, crate::values::label_at(labels, "value"@, 0), n),
                    ")"@,
                )
            } else {
                between(
                    "Err("@,
                    part_shown(s, v.args, crate::values::label_at(labels, "error"@, 0), n),
                    ")"@,
                )
            }
        } else if all == 0 {
            one(name + "::"@ + variant)
        } else {
            between(
                name + "::"@ + variant + "{ "@,
                fields_shown(s, v.args, labels, ordered(labels, labels.len()), all, n),
                " }"@,
            )
        },
        ValueHead::Reference(c) => if n == 0 {
            None
        } else {
            between("&"@, shown(s, crate::store::cell_at(s, c), (n - 1) as nat), ""@)
        },
        ValueHead::MutReference(c) => if n == 0 {
            None
        } else {
            between("&var "@, shown(s, crate::store::cell_at(s, c), (n - 1) as nat), ""@)
        },
        ValueHead::Dyn(c, _, _, _, _) => if n == 0 {
            None
        } else {
            between(""@, shown(s, crate::store::cell_at(s, c), (n - 1) as nat), ""@)
        },
        _ => match leaf(v) {
            Some(piece) => Some(seq![piece]),
            None => None,
        },
    }
}

/// A text by itself.
pub open spec fn one(text: Seq<char>) -> Option<Seq<PieceModel>> {
    Some(seq![PieceModel::Text(text)])
}

/// Pieces between two texts.
pub open spec fn between(
    before: Seq<char>,
    inner: Option<Seq<PieceModel>>,
    after: Seq<char>,
) -> Option<Seq<PieceModel>> {
    match inner {
        Some(ps) => Some(seq![PieceModel::Text(before)] + ps + seq![PieceModel::Text(after)]),
        None => None,
    }
}

/// How the component at a position is written; what is not there is written as
/// the unit value.
pub open spec fn part_shown(s: StoreModel, items: Seq<ValueTerm>, at: int, n: nat) -> Option<
    Seq<PieceModel>,
>
    decreases n, items, 0int,
{
    if 0 <= at < items.len() {
        shown(s, items[at], n)
    } else {
        one("()"@)
    }
}

/// How the first `k` of some values are written, with commas between them.
pub open spec fn items_shown(s: StoreModel, items: Seq<ValueTerm>, k: int, n: nat) -> Option<
    Seq<PieceModel>,
>
    decreases n, items, k,
{
    if k <= 0 || k > items.len() {
        Some(Seq::empty())
    } else {
        match (items_shown(s, items, k - 1, n), shown(s, items[k - 1], n)) {
            (Some(a), Some(b)) => Some(
                (if k == 1 {
                    a
                } else {
                    a.push(PieceModel::Text(", "@))
                }) + b,
            ),
            _ => None,
        }
    }
}

/// How the first `k` fields in an order are written, with commas between them.
pub open spec fn fields_shown(
    s: StoreModel,
    items: Seq<ValueTerm>,
    labels: Seq<Seq<char>>,
    order: Seq<int>,
    k: int,
    n: nat,
) -> Option<Seq<PieceModel>>
    decreases n, items, k,
{
    if k <= 0 || k > items.len() {
        Some(Seq::empty())
    } else {
        let at = order[k - 1];
        if 0 <= at < items.len() {
            match (fields_shown(s, items, labels, order, k - 1, n), shown(s, items[at], n)) {
                (Some(a), Some(b)) => Some(
                    (if k == 1 {
                        a
                    } else {
                        a.push(PieceModel::Text(", "@))
                    }).push(label_text(labels[at])) + b,
                ),
                _ => None,
            }
        } else {
            None
        }
    }
}

/// The positions of labels are positions.
proof fn lemma_ordered(labels: Seq<Seq<char>>, k: nat)
    requires
        k <= labels.len(),
    ensures
        ordered(labels, k).len() == k,
        forall|j: int| 0 <= j < k ==> 0 <= #[trigger] ordered(labels, k)[j] < k,
    decreases k,
{
    if k > 0 {
        let order = ordered(labels, (k - 1) as nat);
        lemma_ordered(labels, (k - 1) as nat);
        lemma_rank(order, labels, k - 1, order.len() as int);
        let r = rank(order, labels, k - 1, order.len() as int);
        assert forall|j: int| 0 <= j < k implies 0 <= #[trigger] ordered(labels, k)[j] < k by {
            if j < r {
                assert(ordered(labels, k)[j] == order[j]);
            } else if j > r {
                assert(ordered(labels, k)[j] == order[j - 1]);
            }
        }
    }
}

proof fn lemma_rank(order: Seq<int>, labels: Seq<Seq<char>>, i: int, n: int)
    requires
        n >= 0,
    ensures
        0 <= rank(order, labels, i, n) <= n,
    decreases n,
{
    if n > 0 {
        lemma_rank(order, labels, i, n - 1);
    }
}

/// The positions of fields in the order of their names.
pub fn sorted_positions<T>(fields: &Vec<(String, T)>) -> (r: Vec<usize>)
    ensures
        r@.len() == fields@.len(),
        forall|j: int| 0 <= j < r@.len() ==> (#[trigger] r@[j]) < fields@.len(),
        forall|j: int|
            0 <= j < r@.len() ==> (#[trigger] r@[j]) as int == ordered(
                crate::types::labels_of(fields@),
                fields@.len(),
            )[j],
{
    let ghost labels = crate::types::labels_of(fields@);
    let mut out: Vec<usize> = Vec::new();
    let mut k: usize = 0;
    while k < fields.len()
        invariant
            k <= fields.len(),
            labels == crate::types::labels_of(fields@),
            out@.len() == k,
            forall|j: int| 0 <= j < k ==> (#[trigger] out@[j]) < k,
            forall|j: int| 0 <= j < k ==> (#[trigger] out@[j]) as int == ordered(
                labels,
                k as nat,
            )[j],
        decreases fields.len() - k,
    {
        let ghost order = ordered(labels, k as nat);
        let mut r: usize = k;
        proof {
            lemma_ordered(labels, k as nat);
        }
        while r > 0 && !is_not_after(fields[out[r - 1]].0.as_str(), fields[k].0.as_str())
            invariant
                r <= k < fields.len(),
                labels == crate::types::labels_of(fields@),
                out@.len() == k,
                order == ordered(labels, k as nat),
                order.len() == k,
                forall|j: int| 0 <= j < k ==> (#[trigger] out@[j]) < k,
                forall|j: int| 0 <= j < k ==> (#[trigger] out@[j]) as int == order[j],
                rank(order, labels, k as int, k as int) == rank(order, labels, k as int, r as int),
            decreases r,
        {
            assert(out@[r - 1] as int == order[r - 1]);
            r -= 1;
        }
        proof {
            if r > 0 {
                assert(out@[r - 1] as int == order[r - 1]);
            }
            assert(rank(order, labels, k as int, k as int) == r);
        }
        let ghost before = out@;
        out.insert(r, k);
        proof {
            let next = ordered(labels, (k + 1) as nat);
            assert(next == order.insert(r as int, k as int));
            assert forall|j: int| 0 <= j < k + 1 implies (#[trigger] out@[j]) as int == next[j]
                && out@[j] < k + 1 by {
                if j < r {
                    assert(out@[j] == before[j]);
                } else if j > r {
                    assert(out@[j] == before[j - 1]);
                }
            }
        }
        k += 1;
    }
    out
}

fn push_text(out: &mut Vec<Piece>, text: String)
    ensures
        final(out).deep_view() == old(out).deep_view().push(PieceModel::Text(text@)),
{
    let ghost prev = out.deep_view();
    assert(prev.len() == out@.len());
    out.push(Piece::Text(text));
    assert(out.deep_view() =~= prev.push(PieceModel::Text(text@)));
}

fn push_str(out: &mut Vec<Piece>, text: &str)
    ensures
        final(out).deep_view() == old(out).deep_view().push(PieceModel::Text(text@)),
{
    push_text(out, text.to_owned());
}

/// What a text that is written to a list of pieces comes to.
pub open spec fn appended_pieces(
    before: Seq<PieceModel>,
    more: Option<Seq<PieceModel>>,
    after: Seq<PieceModel>,
    ended: bool,
) -> bool {
    match more {
        Some(ps) => ended && after == before + ps,
        None => !ended,
    }
}

fn show_items(store: &Store, items: &Vec<Value>, limit: u64, out: &mut Vec<Piece>) -> (b: bool)
    ensures
        appended_pieces(
            old(out).deep_view(),
            items_shown(store@, items.deep_view(), items@.len() as int, limit as nat),
            final(out).deep_view(),
            b,
        ),
    decreases limit, items.deep_view(), 1int,
{
    let ghost start = out.deep_view();
    let ghost terms = items.deep_view();
    let mut k: usize = 0;
    proof {
        assert(terms.len() == items@.len());
        assert(start + Seq::empty() =~= start);
    }
    while k < items.len()
        invariant
            k <= items.len(),
            terms == items.deep_view(),
            terms.len() == items@.len(),
            start == old(out).deep_view(),
            items_shown(store@, terms, k as int, limit as nat) is Some,
            out.deep_view() == start + items_shown(store@, terms, k as int, limit as nat)->0,
        decreases items.len() - k,
    {
        if k > 0 {
            push_str(out, ", ");
        }
        proof {
            assert(terms[k as int] == items@[k as int]@);
        }
        if !show(store, &items[k], limit, out) {
            proof {
                lemma_items_stuck(store@, terms, k + 1, items@.len() as int, limit as nat);
            }
            return false;
        }
        proof {
            let all = items_shown(store@, terms, k + 1, limit as nat)->0;
            assert(out.deep_view() =~= start + all);
        }
        k += 1;
    }
    true
}

proof fn lemma_items_stuck(s: StoreModel, items: Seq<ValueTerm>, k: int, all: int, n: nat)
    requires
        0 < k <= all <= items.len(),
        items_shown(s, items, k, n) is None,
    ensures
        items_shown(s, items, all, n) is None,
    decreases all - k,
{
    if k < all {
        lemma_items_stuck(s, items, k + 1, all, n);
    }
}

proof fn lemma_fields_stuck(
    s: StoreModel,
    items: Seq<ValueTerm>,
    labels: Seq<Seq<char>>,
    order: Seq<int>,
    k: int,
    all: int,
    n: nat,
)
    requires
        0 < k <= all <= items.len(),
        fields_shown(s, items, labels, order, k, n) is None,
    ensures
        fields_shown(s, items, labels, order, all, n) is None,
    decreases all - k,
{
    if k < all {
        lemma_fields_stuck(s, items, labels, order, k + 1, all, n);
    }
}

/// The fields of a value, written in the order of their names.
fn show_fields(
    store: &Store,
    v: &Value,
    fields: &Vec<(String, Value)>,
    limit: u64,
    out: &mut Vec<Piece>,
) -> (b: bool)
    requires
        v@.args.len() == fields@.len(),
        forall|i: int| 0 <= i < fields@.len() ==> (#[trigger] fields@[i]).1@ == v@.args[i],
    ensures
        appended_pieces(
            old(out).deep_view(),
            fields_shown(
                store@,
                v@.args,
                crate::types::labels_of(fields@),
                ordered(crate::types::labels_of(fields@), fields@.len()),
                v@.args.len() as int,
                limit as nat,
            ),
            final(out).deep_view(),
            b,
        ),
    decreases limit, v@.args, 1int,
{
    let ghost start = out.deep_view();
    let ghost items = v@.args;
    let ghost labels = crate::types::labels_of(fields@);
    let ghost order = ordered(labels, fields@.len());
    let positions = sorted_positions(fields);
    let mut k: usize = 0;
    proof {
        assert(start + Seq::empty() =~= start);
    }
    while k < positions.len()
        invariant
            k <= positions.len(),
            positions@.len() == fields@.len(),
            items == v@.args,
            items.len() == fields@.len(),
            labels == crate::types::labels_of(fields@),
            order == ordered(labels, fields@.len()),
            forall|i: int| 0 <= i < fields@.len() ==> (#[trigger] fields@[i]).1@ == items[i],
            forall|j: int| 0 <= j < positions@.len() ==> (#[trigger] positions@[j]) < fields@.len(),
            forall|j: int|
                0 <= j < positions@.len() ==> (#[trigger] positions@[j]) as int == order[j],
            start == old(out).deep_view(),
            fields_shown(store@, items, labels, order, k as int, limit as nat) is Some,
            out.deep_view() == start + fields_shown(
                store@,
                items,
                labels,
                order,
                k as int,
                limit as nat,
            )->0,
        decreases positions.len() - k,
    {
        let at: usize = positions[k];
        assert(at as int == order[k as int]);
        assert(at < fields@.len());
        if k > 0 {
            push_str(out, ", ");
        }
        let mut label = fields[at].0.clone();
        label.append(": ");
        push_text(out, label);
        if !show(store, &fields[at].1, limit, out) {
            proof {
                lemma_fields_stuck(
                    store@,
                    items,
                    labels,
                    order,
                    k + 1,
                    items.len() as int,
                    limit as nat,
                );
            }
            return false;
        }
        proof {
            let all = fields_shown(store@, items, labels, order, k + 1, limit as nat)->0;
            assert(out.deep_view() =~= start + all);
        }
        k += 1;
    }
    true
}

/// A component between two texts, or the unit value where it is not there.
fn show_part(
    store: &Store,
    v: &Value,
    fields: &Vec<(String, Value)>,
    name: &str,
    limit: u64,
    out: &mut Vec<Piece>,
) -> (b: bool)
    requires
        v@.args.len() == fields@.len(),
        forall|i: int| 0 <= i < fields@.len() ==> (#[trigger] fields@[i]).1@ == v@.args[i],
    ensures
        appended_pieces(
            old(out).deep_view(),
            part_shown(
                store@,
                v@.args,
                crate::values::label_at(crate::types::labels_of(fields@), name@, 0),
                limit as nat,
            ),
            final(out).deep_view(),
            b,
        ),
    decreases limit, v@.args, 0int,
{
    match field_position(fields, name) {
        Some(i) => {
            assert(fields@[i as int].1@ == v@.args[i as int]);
            show(store, &fields[i].1, limit, out)
        },
        None => {
            let ghost start = out.deep_view();
            push_str(out, "()");
            assert(out.deep_view() =~= start + one("()"@)->0);
            true
        },
    }
}

fn show_leaf(v: &Value) -> (r: Option<Piece>)
    ensures
        r.deep_view() == leaf(v@),
{
    let text: String = match v {
        Value::I64(n) => signed_decimal_string(*n as i128),
        Value::I8(n) => signed_decimal_string(*n as i128),
        Value::I16(n) => signed_decimal_string(*n as i128),
        Value::I32(n) => signed_decimal_string(*n as i128),
        Value::U8(n) => signed_decimal_string(*n as i128),
        Value::U16(n) => signed_decimal_string(*n as i128),
        Value::U32(n) => signed_decimal_string(*n as i128),
        Value::U64(n) => signed_decimal_string(*n as i128),
        Value::F64(bits) => {
            return Some(
                Piece::Float(FloatText { kind: FloatKind::F64, bits: *bits, whole: false }),
            );
        },
        Value::F32(bits) => {
            return Some(
                Piece::Float(FloatText { kind: FloatKind::F32, bits: *bits as u64, whole: false }),
            );
        },
        Value::Char(c) => {
            let mut s = "'".to_owned();
            s.push(*c);
            s.append("'");
            s
        },
        Value::Boolean(b) => if *b {
            "true".to_owned()
        } else {
            "false".to_owned()
        },
        Value::Str(s) => debug_text(s.as_str()),
        Value::Unit => "()".to_owned(),
        Value::Callable(RuntimeCallable::Closure(_)) => "<closure>".to_owned(),
        Value::Callable(RuntimeCallable::Intrinsic { label, fun: _ }) => {
            let mut s = "<intrinsic:".to_owned();
            s.append(label.as_str());
            s.append(">");
            s
        },
        Value::FieldReference { root: _, path: _ } => "<& field-path>".to_owned(),
        Value::MutFieldReference { root: _, path: _ } => "<&var field-path>".to_owned(),
        _ => {
            return None;
        },
    };
    Some(Piece::Text(text))
}

/// Appends how a value is written. The answer is `false` where that would need
/// more than `limit` references or arrays to be followed into each other.
fn show(store: &Store, v: &Value, limit: u64, out: &mut Vec<Piece>) -> (b: bool)
    ensures
        appended_pieces(
            old(out).deep_view(),
            shown(store@, v@, limit as nat),
            final(out).deep_view(),
            b,
        ),
    decreases limit, v@, 0int,
{
    let ghost start = out.deep_view();
    let ghost want = shown(store@, v@, limit as nat);
    match show_leaf(v) {
        Some(piece) => {
            proof {
                assert(start.len() == out@.len());
                assert(want == Some(seq![leaf(v@)->0]));
            }
            out.push(piece);
            assert(out.deep_view() =~= start + seq![leaf(v@)->0]);
            return true;
        },
        None => {},
    }
    match v {
        Value::Tuple(items) => {
            proof {
                assert(v@.args =~= items.deep_view());
            }
            push_str(out, "(");
            if !show_items(store, items, limit, out) {
                return false;
            }
            push_str(out, ")");
        },
        Value::Array(a) => {
            if limit == 0 {
                return false;
            }
            let items = store.array(*a);
            assert(items.deep_view().len() == items@.len());
            push_str(out, "[");
            if !show_items(store, &items, limit - 1, out) {
                return false;
            }
            push_str(out, "]");
        },
        Value::Record { fields } => {
            push_str(out, "{ ");
            if !show_fields(store, v, fields, limit, out) {
                return false;
            }
            push_str(out, " }");
        },
        Value::Struct { name, type_id: _, fields } => {
            let mut open = name.clone();
            open.append(" { ");
            push_text(out, open);
            if !show_fields(store, v, fields, limit, out) {
                return false;
            }
            push_str(out, " }");
        },
        Value::Enum { name, type_id: _, variant, variant_id: _, fields } => {
            return show_enum(store, v, name, variant, fields, limit, out);
        },
        _ => {
            let (before, c): (&str, CellId) = match v {
                Value::Reference(c) => ("&", *c),
                Value::MutReference(c) => ("&var ", *c),
                Value::DynAspect {
                    data,
                    type_id: _,
                    aspect_id: _,
                    aspect_name: _,
                    type_args: _,
                } => (
                    "",
                    *data,
                ),
                _ => {
                    return false;
                },
            };
            if limit == 0 {
                return false;
            }
            push_str(out, before);
            let inner = store.cell(c);
            if !show(store, &inner, limit - 1, out) {
                return false;
            }
            push_str(out, "");
        },
    }
    assert(out.deep_view() =~= start + want->0);
    true
}

fn show_enum(
    store: &Store,
    v: &Value,
    name: &String,
    variant: &String,
    fields: &Vec<(String, Value)>,
    limit: u64,
    out: &mut Vec<Piece>,
) -> (b: bool)
    requires
        v@.args.len() == fields@.len(),
        forall|i: int| 0 <= i < fields@.len() ==> (#[trigger] fields@[i]).1@ == v@.args[i],
        v@.head matches ValueHead::Enum(n, _, k, _, labels) && n == name@ && k == variant@
            && labels == crate::types::labels_of(fields@),
    ensures
        appended_pieces(
            old(out).deep_view(),
            shown(store@, v@, limit as nat),
            final(out).deep_view(),
            b,
        ),
    decreases limit, v@.args, 2int,
{
    let ghost start = out.deep_view();
    let ghost want = shown(store@, v@, limit as nat);
    if *name == "Perhaps".to_owned() {
        if *variant == "Some".to_owned() && field_position(fields, "value").is_some() {
            push_str(out, "Some(");
            if !show_part(store, v, fields, "value", limit, out) {
                return false;
            }
            push_str(out, ")");
        } else {
            push_str(out, "None");
        }
    } else if *name == "Result".to_owned() {
        if *variant == "Ok".to_owned() {
            push_str(out, "Ok(");
            if !show_part(store, v, fields, "value", limit, out) {
                return false;
            }
            push_str(out, ")");
        } else {
            push_str(out, "Err(");
            if !show_part(store, v, fields, "error", limit, out) {
                return false;
            }
            push_str(out, ")");
        }
    } else {
        let mut full = name.clone();
        full.append("::");
        full.append(variant.as_str());
        if fields.len() == 0 {
            push_text(out, full);
        } else {
            full.append("{ ");
            push_text(out, full);
            if !show_fields(store, v, fields, limit, out) {
                return false;
            }
            push_str(out, " }");
        }
    }
    assert(out.deep_view() =~= start + want->0);
    true
}

/// How a value is written for those who look into programs, or nothing where that
/// would need more than `limit` references or arrays to be followed into each
/// other.
pub fn format_value(store: &Store, val: &Value, limit: u64) -> (r: Option<Vec<Piece>>)
    ensures
        r.deep_view() == shown(store@, val@, limit as nat),
{
    let mut out: Vec<Piece> = Vec::new();
    assert(out.deep_view() =~= Seq::empty());
    if show(store, val, limit, &mut out) {
        assert(out.deep_view() =~= shown(store@, val@, limit as nat)->0);
        Some(out)
    } else {
        None
    }
}

/// How a value is written for those who use programs, where it is a simple one.
pub open spec fn displayed(v: ValueTerm) -> Option<PieceModel> {
    match v.head {
        ValueHead::Int(_, k) => Some(PieceModel::Text(crate::text::signed_decimal(k))),
        ValueHead::Float(kind, bits) => Some(
            PieceModel::Float(FloatText { kind, bits: bits as u64, whole: kind is F64 }),
        ),
        ValueHead::Char(c) => Some(PieceModel::Text(seq![c])),
        ValueHead::Boolean(b) => Some(
            PieceModel::Text(
                if b {
                    "true"@
                } else {
                    "false"@
                },
            ),
        ),
        ValueHead::Str(s) => Some(PieceModel::Text(s)),
        _ => None,
    }
}

/// How a value is written for those who use programs, where it is a simple one.
pub fn value_to_display_string(v: &Value) -> (r: Option<Piece>)
    ensures
        r.deep_view() == displayed(v@),
{
    let text: String = match v {
        Value::I64(n) => signed_decimal_string(*n as i128),
        Value::I8(n) => signed_decimal_string(*n as i128),
        Value::I16(n) => signed_decimal_string(*n as i128),
        Value::I32(n) => signed_decimal_string(*n as i128),
        Value::U8(n) => signed_decimal_string(*n as i128),
        Value::U16(n) => signed_decimal_string(*n as i128),
        Value::U32(n) => signed_decimal_string(*n as i128),
        Value::U64(n) => signed_decimal_string(*n as i128),
        Value::F64(bits) => {
            return Some(
                Piece::Float(FloatText { kind: FloatKind::F64, bits: *bits, whole: true }),
            );
        },
        Value::F32(bits) => {
            return Some(
                Piece::Float(FloatText { kind: FloatKind::F32, bits: *bits as u64, whole: false }),
            );
        },
        Value::Char(c) => {
            let mut s = String::new();
            s.push(*c);
            assert(s@ =~= seq![*c]);
            s
        },
        Value::Boolean(b) => if *b {
            "true".to_owned()
        } else {
            "false".to_owned()
        },
        Value::Str(s) => s.clone(),
        _ => {
            return None;
        },
    };
    Some(Piece::Text(text))
}

/// The text of the first `k` pieces, where none of them is a floating-point
/// number.
pub open spec fn plain_of(ps: Seq<PieceModel>, k: int) -> Option<Seq<char>>
    decreases k,
{
    if k <= 0 || k > ps.len() {
        Some(Seq::empty())
    } else {
        match (plain_of(ps, k - 1), ps[k - 1]) {
            (Some(a), PieceModel::Text(b)) => Some(a + b),
            _ => None,
        }
    }
}

/// The text that pieces make up, where none of them is a floating-point number.
pub fn plain_text(pieces: &Vec<Piece>) -> (r: Option<String>)
    ensures
        r.deep_view() == plain_of(pieces.deep_view(), pieces@.len() as int),
{
    let mut s = String::new();
    let mut k: usize = 0;
    let ghost ps = pieces.deep_view();
    proof {
        assert(ps.len() == pieces@.len());
        assert(s@ =~= Seq::empty());
    }
    while k < pieces.len()
        invariant
            k <= pieces.len(),
            ps == pieces.deep_view(),
            ps.len() == pieces@.len(),
            plain_of(ps, k as int) == Some(s@),
        decreases pieces.len() - k,
    {
        assert(ps[k as int] == pieces@[k as int].deep_view());
        match &pieces[k] {
            Piece::Text(t) => {
                s.append(t.as_str());
            },
            Piece::Float(_) => {
                proof {
                    lemma_plain_stuck(ps, k + 1, ps.len() as int);
                }
                return None;
            },
        }
        k += 1;
    }
    Some(s)
}

proof fn lemma_plain_stuck(ps: Seq<PieceModel>, k: int, all: int)
    requires
        0 < k <= all <= ps.len(),
        plain_of(ps, k) is None,
    ensures
        plain_of(ps, all) is None,
    decreases all - k,
{
    if k < all {
        lemma_plain_stuck(ps, k + 1, all);
    }
}

} // verus!
