//! How texts are ordered, and how values are written for debugging.

use crate::display::PieceModel;
use crate::store::StoreModel;
use crate::values::{ArrayId, CellId, ValueHead, ValueTerm};
use vstd::prelude::*;
use vstd::string::*;

verus! {

/// Whether a text comes before another one, or is the same.
pub open spec fn up_to(a: Seq<char>, b: Seq<char>) -> bool {
    crate::strings::not_after(a, b, 0)
}

proof fn lemma_either(a: Seq<char>, b: Seq<char>, i: int)
    requires
        0 <= i,
    ensures
        crate::strings::not_after(a, b, i) || crate::strings::not_after(b, a, i),
    decreases a.len() - i,
{
    if i < a.len() && i < b.len() && a[i] == b[i] {
        lemma_either(a, b, i + 1);
    }
}

proof fn lemma_both(a: Seq<char>, b: Seq<char>, i: int)
    requires
        0 <= i <= a.len(),
        i <= b.len(),
        crate::strings::not_after(a, b, i),
        crate::strings::not_after(b, a, i),
    ensures
        a.skip(i) == b.skip(i),
    decreases a.len() - i,
{
    if i < a.len() && i < b.len() {
        lemma_both(a, b, i + 1);
        assert(a.skip(i) =~= seq![a[i]] + a.skip(i + 1));
        assert(b.skip(i) =~= seq![b[i]] + b.skip(i + 1));
    } else {
        assert(a.skip(i) =~= b.skip(i));
    }
}

proof fn lemma_prefix(p: Seq<char>, a: Seq<char>, b: Seq<char>, i: int)
    requires
        0 <= i <= p.len(),
    ensures
        crate::strings::not_after(p + a, p + b, i) == crate::strings::not_after(
            p + a,
            p + b,
            p.len() as int,
        ),
    decreases p.len() - i,
{
    if i < p.len() {
        assert((p + a)[i] == p[i] && (p + b)[i] == p[i]);
        lemma_prefix(p, a, b, i + 1);
    }
}

/// Texts are ordered as words in a dictionary: what they have in common makes no difference, the
/// first character that differs decides by its number, and a beginning comes before the whole.
/// Of two texts one always comes first, and both only if they are the same.
pub proof fn texts_are_ordered(
    p: Seq<char>,
    c: char,
    d: char,
    a: Seq<char>,
    b: Seq<char>,
)
    ensures
        up_to(a, b) || up_to(b, a),
        up_to(a, b) && up_to(b, a) ==> a == b,
        up_to(p, p + a),
        a.len() > 0 ==> !up_to(p + a, p),
        c != d ==> (up_to(p + seq![c] + a, p + seq![d] + b) <==> (c as int) < (d as int)),
{
    lemma_either(a, b, 0);
    if up_to(a, b) && up_to(b, a) {
        lemma_both(a, b, 0);
        assert(a.skip(0) =~= a && b.skip(0) =~= b);
    }
    let none = Seq::<char>::empty();
    lemma_prefix(p, none, a, 0);
    lemma_prefix(p, a, none, 0);
    assert(p + none =~= p);
    let x = seq![c] + a;
    let y = seq![d] + b;
    lemma_prefix(p, x, y, 0);
    assert(p + seq![c] + a =~= p + x);
    assert(p + seq![d] + b =~= p + y);
    assert((p + x)[p.len() as int] == c);
    assert((p + y)[p.len() as int] == d);
}

proof fn lemma_transitive(a: Seq<char>, b: Seq<char>, c: Seq<char>, i: int)
    requires
        0 <= i,
        crate::strings::not_after(a, b, i),
        crate::strings::not_after(b, c, i),
    ensures
        crate::strings::not_after(a, c, i),
    decreases a.len() - i,
{
    if i < a.len() && i < b.len() && i < c.len() && a[i] == b[i] && b[i] == c[i] {
        lemma_transitive(a, b, c, i + 1);
    }
}

/// The order of texts goes on: what comes before another comes before all that follow it.
pub proof fn the_order_of_texts_goes_on(a: Seq<char>, b: Seq<char>, c: Seq<char>)
    requires
        up_to(a, b),
        up_to(b, c),
    ensures
        up_to(a, c),
{
    lemma_transitive(a, b, c, 0);
}

/// Whether positions are those of labels in order, each position once.
pub open spec fn in_order(order: Seq<int>, labels: Seq<Seq<char>>, k: nat) -> bool {
    &&& order.len() == k
    &&& forall|i: int| 0 <= i < order.len() ==> 0 <= #[trigger] order[i] < k
    &&& forall|i: int, j: int| 0 <= i < j < order.len() ==> order[i] != order[j]
    &&& forall|i: int, j: int|
        0 <= i < j < order.len() ==> up_to(labels[#[trigger] order[i]], labels[#[trigger] order[j]])
}

proof fn lemma_rank(order: Seq<int>, labels: Seq<Seq<char>>, i: int, n: int)
    requires
        0 <= n <= order.len(),
        forall|a: int, b: int|
            0 <= a < b < order.len() ==> up_to(
                labels[#[trigger] order[a]],
                labels[#[trigger] order[b]],
            ),
    ensures
        ({
            let r = crate::display::rank(order, labels, i, n);
            &&& 0 <= r <= n
            &&& forall|a: int|
                0 <= a < r ==> up_to(labels[#[trigger] order[a]], labels[i])
            &&& forall|a: int|
                r <= a < n ==> up_to(labels[i], labels[#[trigger] order[a]])
        }),
    decreases n,
{
    if n > 0 {
        let last = labels[order[n - 1]];
        if up_to(last, labels[i]) {
            assert forall|a: int| 0 <= a < n implies up_to(
                labels[#[trigger] order[a]],
                labels[i],
            ) by {
                if a < n - 1 {
                    assert(up_to(labels[order[a]], labels[order[n - 1]]));
                    lemma_transitive(labels[order[a]], last, labels[i], 0);
                }
            }
        } else {
            lemma_rank(order, labels, i, n - 1);
            lemma_either(last, labels[i], 0);
        }
    }
}

/// Fields are written in the order of their names, each once.
pub proof fn fields_are_written_in_order(labels: Seq<Seq<char>>, k: nat)
    requires
        k <= labels.len(),
    ensures
        in_order(crate::display::ordered(labels, k), labels, k),
    decreases k,
{
    if k > 0 {
        let before = crate::display::ordered(labels, (k - 1) as nat);
        fields_are_written_in_order(labels, (k - 1) as nat);
        let at = crate::display::rank(before, labels, k - 1, before.len() as int);
        lemma_rank(before, labels, k - 1, before.len() as int);
        let order = before.insert(at, k - 1);
        assert(crate::display::ordered(labels, k) == order);
        assert forall|i: int| 0 <= i < order.len() implies 0 <= #[trigger] order[i] < k by {
            if i < at {
                assert(order[i] == before[i]);
            } else if i > at {
                assert(order[i] == before[i - 1]);
            }
        }
        assert forall|i: int, j: int| 0 <= i < j < order.len() implies order[i] != order[j] by {
            if i < at {
                assert(order[i] == before[i]);
            } else if i > at {
                assert(order[i] == before[i - 1]);
            }
            if j < at {
                assert(order[j] == before[j]);
            } else if j > at {
                assert(order[j] == before[j - 1]);
            }
        }
        assert forall|i: int, j: int| 0 <= i < j < order.len() implies up_to(
            labels[#[trigger] order[i]],
            labels[#[trigger] order[j]],
        ) by {
            if i < at {
                assert(order[i] == before[i]);
            } else if i > at {
                assert(order[i] == before[i - 1]);
            }
            if j < at {
                assert(order[j] == before[j]);
            } else if j > at {
                assert(order[j] == before[j - 1]);
            }
        }
    }
}

/// What is written of a value, where it holds no floating-point number.
pub open spec fn written(s: StoreModel, v: ValueTerm, n: nat) -> Option<Seq<char>> {
    match crate::display::shown(s, v, n) {
        Some(ps) => crate::display::plain_of(ps, ps.len() as int),
        None => None,
    }
}

pub open spec fn plain(ps: Seq<PieceModel>) -> Option<Seq<char>> {
    crate::display::plain_of(ps, ps.len() as int)
}

proof fn lemma_plain_front(a: Seq<PieceModel>, b: Seq<PieceModel>, k: int)
    requires
        0 <= k <= a.len(),
    ensures
        crate::display::plain_of(a + b, k) == crate::display::plain_of(a, k),
    decreases k,
{
    if k > 0 {
        lemma_plain_front(a, b, k - 1);
        assert((a + b)[k - 1] == a[k - 1]);
    }
}

proof fn lemma_plain(a: Seq<PieceModel>, b: Seq<PieceModel>, k: int)
    requires
        0 <= k <= b.len(),
        plain(a) is Some,
        crate::display::plain_of(b, k) is Some,
    ensures
        crate::display::plain_of(a + b, a.len() + k) == Some(
            plain(a)->Some_0 + crate::display::plain_of(b, k)->Some_0,
        ),
    decreases k,
{
    if k > 0 {
        lemma_plain(a, b, k - 1);
        assert((a + b)[a.len() + k - 1] == b[k - 1]);
        let x = plain(a)->Some_0;
        let y = crate::display::plain_of(b, k - 1)->Some_0;
        assert(x + y + b[k - 1]->Text_0 =~= x + (y + b[k - 1]->Text_0));
    } else {
        lemma_plain_front(a, b, a.len() as int);
        assert(plain(a)->Some_0 + Seq::<char>::empty() =~= plain(a)->Some_0);
    }
}

proof fn lemma_plain_one(t: Seq<char>)
    ensures
        plain(seq![PieceModel::Text(t)]) == Some(t),
{
    let ps = seq![PieceModel::Text(t)];
    assert(ps[0] == PieceModel::Text(t));
    assert(crate::display::plain_of(ps, 0) == Some(Seq::<char>::empty()));
    assert(Seq::<char>::empty() + t =~= t);
}

proof fn lemma_between(before: Seq<char>, ps: Seq<PieceModel>, after: Seq<char>)
    requires
        plain(ps) is Some,
    ensures
        ({
            let all = seq![PieceModel::Text(before)] + ps + seq![PieceModel::Text(after)];
            plain(all) == Some(before + plain(ps)->Some_0 + after)
        }),
{
    let a = seq![PieceModel::Text(before)];
    let b = seq![PieceModel::Text(after)];
    lemma_plain_one(before);
    lemma_plain_one(after);
    lemma_plain(a, ps, ps.len() as int);
    lemma_plain(a + ps, b, 1);
}

/// The texts of several values, one for each.
pub open spec fn all_written(
    s: StoreModel,
    items: Seq<ValueTerm>,
    n: nat,
    ts: Seq<Seq<char>>,
) -> bool {
    &&& ts.len() == items.len()
    &&& forall|i: int| 0 <= i < items.len() ==> #[trigger] written(s, items[i], n) == Some(ts[i])
}

proof fn lemma_items(s: StoreModel, items: Seq<ValueTerm>, k: int, n: nat, ts: Seq<Seq<char>>)
    requires
        0 <= k <= items.len(),
        all_written(s, items, n, ts),
    ensures
        ({
            let r = crate::display::items_shown(s, items, k, n);
            r is Some && plain(r->Some_0) == Some(crate::text::joined(ts.take(k), ", "@))
        }),
    decreases k,
{
    let r = crate::display::items_shown(s, items, k, n);
    if k > 0 {
        lemma_items(s, items, k - 1, n, ts);
        let a = crate::display::items_shown(s, items, k - 1, n)->Some_0;
        assert(written(s, items[k - 1], n) == Some(ts[k - 1]));
        let b = crate::display::shown(s, items[k - 1], n)->Some_0;
        assert(ts.take(k).drop_last() =~= ts.take(k - 1));
        assert(ts.take(k).last() == ts[k - 1]);
        if k == 1 {
            assert(r == Some(a + b));
            lemma_plain(a, b, b.len() as int);
            assert(ts.take(1)[0] == ts[0]);
            assert(ts.take(0) =~= Seq::<Seq<char>>::empty());
            assert(Seq::<char>::empty() + ts[0] =~= ts[0]);
        } else {
            let comma = seq![PieceModel::Text(", "@)];
            lemma_plain_one(", "@);
            lemma_plain(a, comma, 1);
            assert(a.push(PieceModel::Text(", "@)) =~= a + comma);
            lemma_plain(a + comma, b, b.len() as int);
            assert(r == Some(a.push(PieceModel::Text(", "@)) + b));
            assert(crate::text::joined(ts.take(k), ", "@) == crate::text::joined(
                ts.take(k).drop_last(),
                ", "@,
            ) + ", "@ + ts.take(k).last());
        }
    } else {
        assert(ts.take(0) =~= Seq::<Seq<char>>::empty());
    }
}

/// A tuple is written as its components between round brackets, and an array as its elements
/// between square ones, with commas between them.
pub proof fn tuples_and_arrays_are_written_in_brackets(
    s: StoreModel,
    items: Seq<ValueTerm>,
    a: ArrayId,
    n: nat,
    ts: Seq<Seq<char>>,
)
    requires
        all_written(s, items, n, ts),
        a.0 < s.arrays.len(),
        s.arrays[a.0 as int] == items,
    ensures
        written(s, ValueTerm { head: ValueHead::Tuple, args: items }, n) == Some(
            "("@ + crate::text::joined(ts, ", "@) + ")"@,
        ),
        written(s, ValueTerm { head: ValueHead::Array(a), args: Seq::empty() }, n + 1) == Some(
            "["@ + crate::text::joined(ts, ", "@) + "]"@,
        ),
{
    let k = items.len() as int;
    lemma_items(s, items, k, n, ts);
    assert(ts.take(k) =~= ts);
    let ps = crate::display::items_shown(s, items, k, n)->Some_0;
    lemma_between("("@, ps, ")"@);
    lemma_between("["@, ps, "]"@);
}

/// What is written of the fields of a value, in their order.
pub open spec fn field_texts(labels: Seq<Seq<char>>, ts: Seq<Seq<char>>) -> Seq<Seq<char>> {
    let order = crate::display::ordered(labels, labels.len());
    Seq::new(order.len(), |i: int| labels[order[i]] + ": "@ + ts[order[i]])
}

proof fn lemma_fields(
    s: StoreModel,
    items: Seq<ValueTerm>,
    labels: Seq<Seq<char>>,
    k: int,
    n: nat,
    ts: Seq<Seq<char>>,
)
    requires
        0 <= k <= items.len(),
        labels.len() == items.len(),
        all_written(s, items, n, ts),
    ensures
        ({
            let order = crate::display::ordered(labels, labels.len());
            let r = crate::display::fields_shown(s, items, labels, order, k, n);
            r is Some && plain(r->Some_0) == Some(
                crate::text::joined(field_texts(labels, ts).take(k), ", "@),
            )
        }),
    decreases k,
{
    let order = crate::display::ordered(labels, labels.len());
    fields_are_written_in_order(labels, labels.len());
    let us = field_texts(labels, ts);
    let r = crate::display::fields_shown(s, items, labels, order, k, n);
    if k > 0 {
        lemma_fields(s, items, labels, k - 1, n, ts);
        let at = order[k - 1];
        let a = crate::display::fields_shown(s, items, labels, order, k - 1, n)->Some_0;
        assert(written(s, items[at], n) == Some(ts[at]));
        let b = crate::display::shown(s, items[at], n)->Some_0;
        assert(us.take(k).drop_last() =~= us.take(k - 1));
        assert(us.take(k).last() == us[k - 1]);
        let label = labels[at] + ": "@;
        let l = seq![PieceModel::Text(label)];
        lemma_plain_one(label);
        assert(label + ts[at] == us[k - 1]);
        if k == 1 {
            lemma_plain(a, l, 1);
            assert(a.push(PieceModel::Text(label)) =~= a + l);
            lemma_plain(a + l, b, b.len() as int);
            assert(r == Some(a.push(crate::display::label_text(labels[at])) + b));
            assert(us.take(1)[0] == us[0]);
            assert(us.take(0) =~= Seq::<Seq<char>>::empty());
            assert(Seq::<char>::empty() + label + ts[at] =~= us[0]);
        } else {
            let comma = seq![PieceModel::Text(", "@)];
            lemma_plain_one(", "@);
            lemma_plain(a, comma, 1);
            assert(a.push(PieceModel::Text(", "@)) =~= a + comma);
            lemma_plain(a + comma, l, 1);
            assert((a + comma).push(PieceModel::Text(label)) =~= a + comma + l);
            lemma_plain(a + comma + l, b, b.len() as int);
            assert(r == Some(
                a.push(PieceModel::Text(", "@)).push(crate::display::label_text(labels[at])) + b,
            ));
            let front = crate::text::joined(us.take(k - 1), ", "@);
            assert(crate::text::joined(us.take(k), ", "@) == front + ", "@ + us[k - 1]);
            assert(front + ", "@ + label + ts[at] =~= front + ", "@ + us[k - 1]);
        }
    } else {
        assert(us.take(0) =~= Seq::<Seq<char>>::empty());
    }
}

/// Records, structs and variants are written with their fields in curly brackets: each name, a
/// colon and the value, in the order of the names. A variant without fields has no brackets.
pub proof fn fields_are_written_with_their_names(
    s: StoreModel,
    labels: Seq<Seq<char>>,
    items: Seq<ValueTerm>,
    name: Seq<char>,
    variant: Seq<char>,
    n: nat,
    ts: Seq<Seq<char>>,
)
    requires
        labels.len() == items.len(),
        all_written(s, items, n, ts),
        name != "Perhaps"@,
        name != "Result"@,
    ensures
        ({
            let all = crate::text::joined(field_texts(labels, ts), ", "@);
            let case = ValueTerm {
                head: ValueHead::Enum(name, None, variant, None, labels),
                args: items,
            };
            &&& in_order(
                crate::display::ordered(labels, labels.len()),
                labels,
                labels.len(),
            )
            &&& written(s, ValueTerm { head: ValueHead::Record(labels), args: items }, n) == Some(
                "{ "@ + all + " }"@,
            )
            &&& written(
                s,
                ValueTerm { head: ValueHead::Struct(name, None, labels), args: items },
                n,
            ) == Some((name + " { "@) + all + " }"@)
            &&& items.len() > 0 ==> written(s, case, n) == Some(
                (name + "::"@ + variant + "{ "@) + all + " }"@,
            )
            &&& items.len() == 0 ==> written(s, case, n) == Some(name + "::"@ + variant)
        }),
{
    fields_are_written_in_order(labels, labels.len());
    let k = items.len() as int;
    lemma_fields(s, items, labels, k, n, ts);
    let us = field_texts(labels, ts);
    assert(us.take(k) =~= us);
    let order = crate::display::ordered(labels, labels.len());
    let ps = crate::display::fields_shown(s, items, labels, order, k, n)->Some_0;
    lemma_between("{ "@, ps, " }"@);
    lemma_between(name + " { "@, ps, " }"@);
    lemma_between(name + "::"@ + variant + "{ "@, ps, " }"@);
    lemma_plain_one(name + "::"@ + variant);
}

/// A present value is written in `Some(..)`, a success in `Ok(..)` and a failure in `Err(..)`;
/// an absent value is written `None`. What is behind a reference is written after its sign.
pub proof fn wrapped_values_are_written_inside(
    s: StoreModel,
    v: ValueTerm,
    c: CellId,
    n: nat,
    t: Seq<char>,
)
    requires
        written(s, v, n) == Some(t),
        c.0 < s.cells.len(),
        s.cells[c.0 as int] == v,
    ensures
        written(s, crate::natives::perhaps_term(Some(v)), n) == Some("Some("@ + t + ")"@),
        written(s, crate::natives::perhaps_term(None), n) == Some("None"@),
        written(s, crate::natives::result_term(Ok(v)), n) == Some("Ok("@ + t + ")"@),
        written(s, crate::natives::result_term(Err(v)), n) == Some("Err("@ + t + ")"@),
        written(s, ValueTerm { head: ValueHead::Reference(c), args: Seq::empty() }, n + 1) == Some(
            "&"@ + t + ""@,
        ),
        written(s, ValueTerm { head: ValueHead::MutReference(c), args: Seq::empty() }, n + 1)
            == Some("&var "@ + t + ""@),
{
    reveal_strlit("Perhaps");
    reveal_strlit("Result");
    reveal_strlit("Some");
    reveal_strlit("None");
    reveal_strlit("Ok");
    reveal_strlit("Err");
    assert("Perhaps"@[0] != "Result"@[0]);
    assert("Some"@[0] != "None"@[0]);
    assert("Ok"@[0] != "Err"@[0]);
    let ps = crate::display::shown(s, v, n)->Some_0;
    lemma_between("Some("@, ps, ")"@);
    lemma_between("Ok("@, ps, ")"@);
    lemma_between("Err("@, ps, ")"@);
    lemma_between("&"@, ps, ""@);
    lemma_between("&var "@, ps, ""@);
    lemma_plain_one("None"@);
    let values = seq!["value"@];
    let errors = seq!["error"@];
    assert(values[0] == "value"@ && errors[0] == "error"@);
    assert(crate::values::label_at(values, "value"@, 0) == 0);
    assert(crate::values::label_at(errors, "error"@, 0) == 0);
    assert(crate::display::part_shown(s, seq![v], 0, n) == Some(ps)) by {
        assert(seq![v][0] == v);
    }
}

/// Numbers are written as numerals, truths as words, characters between single quotation
/// marks, and the unit value as empty brackets.
pub proof fn simple_values_are_written(s: StoreModel, v: ValueTerm, n: nat)
    ensures
        v.head matches ValueHead::Int(_, k) ==> written(s, v, n) is Some
            && crate::builtin_laws::number_text(written(s, v, n)->Some_0, k),
        v.head matches ValueHead::Boolean(b) ==> written(s, v, n) == Some(
            if b {
                "true"@
            } else {
                "false"@
            },
        ),
        v.head matches ValueHead::Char(c) ==> written(s, v, n) == Some(seq!['\'', c, '\'']),
        v.head is Unit ==> written(s, v, n) == Some("()"@),
{
    reveal_strlit("'");
    match v.head {
        ValueHead::Int(_, k) => {
            crate::builtin_laws::lemma_number_text(k);
            lemma_plain_one(crate::text::signed_decimal(k));
        },
        ValueHead::Boolean(b) => {
            lemma_plain_one(
                if b {
                    "true"@
                } else {
                    "false"@
                },
            );
        },
        ValueHead::Char(c) => {
            lemma_plain_one("'"@.push(c) + "'"@);
            assert("'"@.push(c) + "'"@ =~= seq!['\'', c, '\'']);
        },
        ValueHead::Unit => {
            lemma_plain_one("()"@);
        },
        _ => {},
    }
}

} // verus!
