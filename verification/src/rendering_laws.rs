//! What holds of types in diagnostics.

use crate::term::{Head, Term, TypeVar};
use vstd::prelude::*;

verus! {

/// A type with other variables.
pub open spec fn renamed(t: Term, other: spec_fn(TypeVar) -> TypeVar) -> Term
    decreases t,
{
    Term {
        head: match t.head {
            Head::Var(v) => Head::Var(other(v)),
            h => h,
        },
        args: Seq::new(
            t.args.len(),
            |i: int|
                if 0 <= i < t.args.len() {
                    renamed(t.args[i], other)
                } else {
                    arbitrary()
                },
        ),
    }
}

/// Variables in the place of others.
pub open spec fn mapped(vs: Seq<TypeVar>, other: spec_fn(TypeVar) -> TypeVar) -> Seq<TypeVar> {
    Seq::new(vs.len(), |i: int| other(vs[i]))
}

/// Whether different variables stay different.
pub open spec fn one_to_one(other: spec_fn(TypeVar) -> TypeVar) -> bool {
    forall|a: TypeVar, b: TypeVar| #[trigger] other(a) == #[trigger] other(b) ==> a == b
}

/// Whether variables and resolved types have no components, as in all types of
/// programs.
pub open spec fn proper(t: Term) -> bool
    decreases t,
{
    &&& t.head is Concrete || t.head is Var ==> t.args.len() == 0
    &&& forall|i: int| 0 <= i < t.args.len() ==> proper(#[trigger] t.args[i])
}

/// Whether all variables of a type are in a list or in a set.
spec fn covered(t: Term, known: Set<TypeVar>, order: Seq<TypeVar>) -> bool
    decreases t,
{
    &&& t.head matches Head::Var(v) ==> known.contains(v) || order.contains(v)
    &&& forall|i: int| 0 <= i < t.args.len() ==> covered(#[trigger] t.args[i], known, order)
}

proof fn lemma_mapped_contains(
    vs: Seq<TypeVar>,
    other: spec_fn(TypeVar) -> TypeVar,
    v: TypeVar,
)
    requires
        one_to_one(other),
    ensures
        mapped(vs, other).contains(other(v)) == vs.contains(v),
{
    if vs.contains(v) {
        let i = vs.index_of(v);
        assert(mapped(vs, other)[i] == other(v));
    }
    if mapped(vs, other).contains(other(v)) {
        let i = mapped(vs, other).index_of(other(v));
        assert(other(vs[i]) == other(v));
        assert(vs[i] == v);
    }
}

proof fn lemma_covered_on(t: Term, known: Set<TypeVar>, order: Seq<TypeVar>, more: Seq<TypeVar>)
    requires
        covered(t, known, order),
        forall|v: TypeVar| #[trigger] order.contains(v) ==> more.contains(v),
    ensures
        covered(t, known, more),
    decreases t,
{
    assert forall|i: int| 0 <= i < t.args.len() implies covered(
        #[trigger] t.args[i],
        known,
        more,
    ) by {
        lemma_covered_on(t.args[i], known, order, more);
    }
}

/// What has been seen stays, nothing is seen twice, and all variables are seen.
proof fn lemma_seen(acc: Seq<TypeVar>, known: Set<TypeVar>, t: Term)
    requires
        acc.no_duplicates(),
        proper(t),
    ensures
        crate::render::seen(acc, known, t).no_duplicates(),
        forall|v: TypeVar| #[trigger]
            acc.contains(v) ==> crate::render::seen(acc, known, t).contains(v),
        covered(t, known, crate::render::seen(acc, known, t)),
    decreases t, t.args.len() + 1,
{
    match t.head {
        Head::Var(v) => {
            let all = acc.push(v);
            assert(all[acc.len() as int] == v);
            assert forall|w: TypeVar| #[trigger] acc.contains(w) implies all.contains(w) by {
                let i = acc.index_of(w);
                assert(all[i] == w);
            }
            if !acc.contains(v) {
                assert forall|i: int, j: int| 0 <= i < j < all.len() implies all[i] != all[j] by {
                    if j == acc.len() {
                        assert(acc.contains(acc[i]));
                    }
                }
            }
        },
        _ => lemma_seen_in(acc, known, t, t.args.len()),
    }
}

proof fn lemma_seen_in(acc: Seq<TypeVar>, known: Set<TypeVar>, t: Term, k: nat)
    requires
        acc.no_duplicates(),
        k <= t.args.len(),
        proper(t),
    ensures
        crate::render::seen_in(acc, known, t, k).no_duplicates(),
        forall|v: TypeVar| #[trigger]
            acc.contains(v) ==> crate::render::seen_in(acc, known, t, k).contains(v),
        forall|i: int|
            0 <= i < k ==> covered(
                #[trigger] t.args[i],
                known,
                crate::render::seen_in(acc, known, t, k),
            ),
    decreases t, k,
{
    if k > 0 {
        let before = crate::render::seen_in(acc, known, t, (k - 1) as nat);
        let after = crate::render::seen_in(acc, known, t, k);
        lemma_seen_in(acc, known, t, (k - 1) as nat);
        lemma_seen(before, known, t.args[k - 1]);
        assert forall|i: int| 0 <= i < k implies covered(
            #[trigger] t.args[i],
            known,
            after,
        ) by {
            if i < k - 1 {
                lemma_covered_on(t.args[i], known, before, after);
            }
        }
    }
}

proof fn lemma_seen_all(known: Set<TypeVar>, ts: Seq<Term>)
    requires
        forall|i: int| 0 <= i < ts.len() ==> proper(#[trigger] ts[i]),
    ensures
        crate::render::seen_all(known, ts).no_duplicates(),
        forall|i: int|
            0 <= i < ts.len() ==> covered(
                #[trigger] ts[i],
                known,
                crate::render::seen_all(known, ts),
            ),
    decreases ts.len(),
{
    if ts.len() > 0 {
        let before = crate::render::seen_all(known, ts.drop_last());
        let after = crate::render::seen_all(known, ts);
        assert forall|i: int| 0 <= i < ts.len() - 1 implies proper(
            #[trigger] ts.drop_last()[i],
        ) by {
            assert(ts[i] == ts.drop_last()[i]);
        }
        lemma_seen_all(known, ts.drop_last());
        assert(ts[ts.len() - 1] == ts.last());
        lemma_seen(before, known, ts.last());
        assert forall|i: int| 0 <= i < ts.len() implies covered(
            #[trigger] ts[i],
            known,
            after,
        ) by {
            if i < ts.len() - 1 {
                assert(ts[i] == ts.drop_last()[i]);
                lemma_covered_on(ts[i], known, before, after);
            }
        }
    }
}

/// Whether known names do not tell variables from those in their place.
pub open spec fn names_kept(
    known: Map<TypeVar, Seq<char>>,
    other: spec_fn(TypeVar) -> TypeVar,
) -> bool {
    forall|v: TypeVar|
        {
            &&& known.contains_key(#[trigger] other(v)) == known.contains_key(v)
            &&& known.contains_key(v) ==> known[other(v)] == known[v]
        }
}

proof fn lemma_seen_renamed(
    acc: Seq<TypeVar>,
    known: Map<TypeVar, Seq<char>>,
    t: Term,
    other: spec_fn(TypeVar) -> TypeVar,
)
    requires
        one_to_one(other),
        names_kept(known, other),
    ensures
        crate::render::seen(mapped(acc, other), known.dom(), renamed(t, other)) == mapped(
            crate::render::seen(acc, known.dom(), t),
            other,
        ),
    decreases t, t.args.len() + 1,
{
    match t.head {
        Head::Var(v) => {
            lemma_mapped_contains(acc, other, v);
            assert(known.contains_key(other(v)) == known.contains_key(v));
            assert(mapped(acc.push(v), other) =~= mapped(acc, other).push(other(v)));
        },
        _ => lemma_seen_in_renamed(acc, known, t, other, t.args.len()),
    }
}

proof fn lemma_seen_in_renamed(
    acc: Seq<TypeVar>,
    known: Map<TypeVar, Seq<char>>,
    t: Term,
    other: spec_fn(TypeVar) -> TypeVar,
    k: nat,
)
    requires
        one_to_one(other),
        names_kept(known, other),
        k <= t.args.len(),
    ensures
        crate::render::seen_in(mapped(acc, other), known.dom(), renamed(t, other), k) == mapped(
            crate::render::seen_in(acc, known.dom(), t, k),
            other,
        ),
    decreases t, k,
{
    if k > 0 {
        lemma_seen_in_renamed(acc, known, t, other, (k - 1) as nat);
        let before = crate::render::seen_in(acc, known.dom(), t, (k - 1) as nat);
        lemma_seen_renamed(before, known, t.args[k - 1], other);
        assert(renamed(t, other).args[k - 1] == renamed(t.args[k - 1], other));
    }
}

proof fn lemma_seen_all_renamed(
    known: Map<TypeVar, Seq<char>>,
    ts: Seq<Term>,
    other: spec_fn(TypeVar) -> TypeVar,
)
    requires
        one_to_one(other),
        names_kept(known, other),
    ensures
        crate::render::seen_all(known.dom(), all_renamed(ts, other)) == mapped(
            crate::render::seen_all(known.dom(), ts),
            other,
        ),
    decreases ts.len(),
{
    if ts.len() > 0 {
        lemma_seen_all_renamed(known, ts.drop_last(), other);
        let before = crate::render::seen_all(known.dom(), ts.drop_last());
        lemma_seen_renamed(before, known, ts.last(), other);
        assert(all_renamed(ts, other).drop_last() =~= all_renamed(ts.drop_last(), other));
    } else {
        assert(mapped(Seq::<TypeVar>::empty(), other) =~= Seq::<TypeVar>::empty());
    }
}

/// Types with other variables.
pub open spec fn all_renamed(ts: Seq<Term>, other: spec_fn(TypeVar) -> TypeVar) -> Seq<Term> {
    Seq::new(ts.len(), |i: int| renamed(ts[i], other))
}

proof fn lemma_text_renamed(
    t: Term,
    known: Map<TypeVar, Seq<char>>,
    order: Seq<TypeVar>,
    other: spec_fn(TypeVar) -> TypeVar,
)
    requires
        one_to_one(other),
        names_kept(known, other),
        order.no_duplicates(),
        proper(t),
        covered(t, known.dom(), order),
    ensures
        crate::render::named_text(renamed(t, other), known, mapped(order, other))
            == crate::render::named_text(t, known, order),
    decreases t,
{
    match t.head {
        Head::Var(v) => {
            lemma_mapped_contains(order, other, v);
            assert(known.contains_key(other(v)) == known.contains_key(v));
            if !known.contains_key(v) {
                let i = order.index_of(v);
                let j = mapped(order, other).index_of(other(v));
                assert(order[i] == v);
                assert(other(order[j]) == other(v));
                assert(order[j] == v);
            }
        },
        Head::Concrete(_) => {
            assert(renamed(t, other).args =~= t.args);
        },
        _ => {
            let parts = crate::render::named_parts(t, known, order);
            let others = crate::render::named_parts(
                renamed(t, other),
                known,
                mapped(order, other),
            );
            assert forall|i: int| 0 <= i < t.args.len() implies others[i] == parts[i] by {
                lemma_text_renamed(t.args[i], known, order, other);
            }
            assert(others =~= parts);
        },
    }
}

/// How types are written in a message depends on their structure only, and not on
/// which variables stand for what is unknown: with other variables in their place
/// the message is the same.
pub proof fn messages_do_not_depend_on_variables(
    ts: Seq<Term>,
    known: Map<TypeVar, Seq<char>>,
    other: spec_fn(TypeVar) -> TypeVar,
)
    requires
        one_to_one(other),
        names_kept(known, other),
        forall|i: int| 0 <= i < ts.len() ==> proper(#[trigger] ts[i]),
    ensures
        crate::render::rendered(all_renamed(ts, other), known) == crate::render::rendered(
            ts,
            known,
        ),
{
    let order = crate::render::seen_all(known.dom(), ts);
    lemma_seen_all(known.dom(), ts);
    lemma_seen_all_renamed(known, ts, other);
    let a = crate::render::rendered(all_renamed(ts, other), known);
    let b = crate::render::rendered(ts, known);
    assert forall|i: int| 0 <= i < ts.len() implies a[i] == b[i] by {
        lemma_text_renamed(ts[i], known, order, other);
    }
    assert(a =~= b);
}

/// The variables of a type as one meets them from left to right, going down into each
/// component before the next.
pub open spec fn met(t: Term) -> Seq<TypeVar>
    decreases t, t.args.len() + 1,
{
    match t.head {
        Head::Var(v) => seq![v],
        _ => met_in(t, t.args.len()),
    }
}

/// The same for the first `k` components of a type.
pub open spec fn met_in(t: Term, k: nat) -> Seq<TypeVar>
    decreases t, k,
{
    if k == 0 || k > t.args.len() {
        Seq::empty()
    } else {
        met_in(t, (k - 1) as nat) + met(t.args[k - 1])
    }
}

/// The same for a list of types.
pub open spec fn met_in_all(ts: Seq<Term>) -> Seq<TypeVar>
    decreases ts.len(),
{
    if ts.len() == 0 {
        Seq::empty()
    } else {
        met_in_all(ts.drop_last()) + met(ts.last())
    }
}

/// Where a variable is met first.
pub open spec fn first_met(vs: Seq<TypeVar>, v: TypeVar) -> int
    decreases vs.len(),
{
    if vs.len() == 0 {
        0
    } else if vs.drop_last().contains(v) {
        first_met(vs.drop_last(), v)
    } else {
        vs.len() - 1
    }
}

/// A list with those of some variables that are not known and not in it yet.
spec fn noted(acc: Seq<TypeVar>, known: Set<TypeVar>, vs: Seq<TypeVar>) -> Seq<TypeVar>
    decreases vs.len(),
{
    if vs.len() == 0 {
        acc
    } else {
        let prev = noted(acc, known, vs.drop_last());
        if known.contains(vs.last()) || prev.contains(vs.last()) {
            prev
        } else {
            prev.push(vs.last())
        }
    }
}

proof fn lemma_noted_more(
    acc: Seq<TypeVar>,
    known: Set<TypeVar>,
    vs: Seq<TypeVar>,
    ws: Seq<TypeVar>,
)
    ensures
        noted(acc, known, vs + ws) == noted(noted(acc, known, vs), known, ws),
    decreases ws.len(),
{
    if ws.len() == 0 {
        assert(vs + ws =~= vs);
    } else {
        lemma_noted_more(acc, known, vs, ws.drop_last());
        assert((vs + ws).drop_last() =~= vs + ws.drop_last());
    }
}

proof fn lemma_seen_noted(acc: Seq<TypeVar>, known: Set<TypeVar>, t: Term)
    ensures
        crate::render::seen(acc, known, t) == noted(acc, known, met(t)),
    decreases t, t.args.len() + 1,
{
    match t.head {
        Head::Var(v) => {
            assert(seq![v].drop_last() =~= Seq::empty());
            assert(noted(acc, known, seq![v].drop_last()) == acc);
        },
        _ => {
            lemma_seen_in_noted(acc, known, t, t.args.len());
        },
    }
}

proof fn lemma_seen_in_noted(acc: Seq<TypeVar>, known: Set<TypeVar>, t: Term, k: nat)
    requires
        k <= t.args.len(),
    ensures
        crate::render::seen_in(acc, known, t, k) == noted(acc, known, met_in(t, k)),
    decreases t, k,
{
    if k > 0 {
        let prev = crate::render::seen_in(acc, known, t, (k - 1) as nat);
        lemma_seen_in_noted(acc, known, t, (k - 1) as nat);
        lemma_seen_noted(prev, known, t.args[k - 1]);
        lemma_noted_more(acc, known, met_in(t, (k - 1) as nat), met(t.args[k - 1]));
    }
}

proof fn lemma_seen_all_noted(known: Set<TypeVar>, ts: Seq<Term>)
    ensures
        crate::render::seen_all(known, ts) == noted(Seq::empty(), known, met_in_all(ts)),
    decreases ts.len(),
{
    if ts.len() > 0 {
        lemma_seen_all_noted(known, ts.drop_last());
        lemma_seen_noted(crate::render::seen_all(known, ts.drop_last()), known, ts.last());
        lemma_noted_more(
            Seq::empty(),
            known,
            met_in_all(ts.drop_last()),
            met(ts.last()),
        );
    }
}

proof fn lemma_last_contained(vs: Seq<TypeVar>, v: TypeVar)
    requires
        vs.len() > 0,
    ensures
        vs.contains(v) <==> vs.drop_last().contains(v) || vs.last() == v,
{
    if vs.contains(v) && vs.last() != v {
        let i = vs.index_of(v);
        assert(vs.drop_last()[i] == v);
    }
    if vs.drop_last().contains(v) {
        let i = vs.drop_last().index_of(v);
        assert(vs[i] == v);
    }
    if vs.last() == v {
        assert(vs[vs.len() - 1] == v);
    }
}

proof fn lemma_first_met(vs: Seq<TypeVar>, v: TypeVar)
    requires
        vs.contains(v),
    ensures
        0 <= first_met(vs, v) < vs.len(),
        vs[first_met(vs, v)] == v,
        forall|i: int| 0 <= i < first_met(vs, v) ==> vs[i] != v,
    decreases vs.len(),
{
    lemma_last_contained(vs, v);
    if vs.drop_last().contains(v) {
        lemma_first_met(vs.drop_last(), v);
        assert forall|i: int| 0 <= i < first_met(vs, v) implies vs[i] != v by {
            assert(vs.drop_last()[i] == vs[i]);
        }
    } else {
        assert forall|i: int| 0 <= i < first_met(vs, v) implies vs[i] != v by {
            assert(vs.drop_last()[i] == vs[i]);
        }
    }
}

proof fn lemma_noted_order(known: Set<TypeVar>, vs: Seq<TypeVar>)
    ensures
        ({
            let order = noted(Seq::empty(), known, vs);
            &&& order.no_duplicates()
            &&& forall|v: TypeVar| #[trigger]
                order.contains(v) <==> vs.contains(v) && !known.contains(v)
            &&& forall|i: int, j: int|
                0 <= i < j < order.len() ==> first_met(vs, #[trigger] order[i]) < first_met(
                    vs,
                    #[trigger] order[j],
                )
        }),
    decreases vs.len(),
{
    let order = noted(Seq::empty(), known, vs);
    if vs.len() > 0 {
        let before = vs.drop_last();
        let prev = noted(Seq::empty(), known, before);
        let last = vs.last();
        lemma_noted_order(known, before);
        assert forall|i: int| 0 <= i < prev.len() implies first_met(vs, #[trigger] prev[i])
            == first_met(before, prev[i]) && first_met(before, prev[i]) < vs.len() - 1 by {
            assert(prev.contains(prev[i]));
            lemma_first_met(before, prev[i]);
        }
        assert forall|v: TypeVar| #[trigger]
            order.contains(v) <==> vs.contains(v) && !known.contains(v) by {
            lemma_last_contained(vs, v);
            if order.len() > prev.len() {
                lemma_last_contained(order, v);
                assert(order.drop_last() =~= prev);
            }
            assert(prev.contains(v) <==> before.contains(v) && !known.contains(v));
            assert(prev.contains(last) <==> before.contains(last) && !known.contains(last));
        }
        if order.len() > prev.len() {
            assert(!before.contains(last));
            assert forall|i: int, j: int| 0 <= i < j < order.len() implies first_met(
                vs,
                #[trigger] order[i],
            ) < first_met(vs, #[trigger] order[j]) by {
                assert(order[i] == prev[i]);
                if j < prev.len() {
                    assert(order[j] == prev[j]);
                    assert(first_met(before, prev[i]) < first_met(before, prev[j]));
                }
            }
            assert(order.no_duplicates()) by {
                assert forall|i: int, j: int| 0 <= i < j < order.len() implies order[i]
                    != order[j] by {
                    assert(first_met(vs, order[i]) < first_met(vs, order[j]));
                }
            }
        } else {
            assert forall|i: int, j: int| 0 <= i < j < order.len() implies first_met(
                vs,
                #[trigger] order[i],
            ) < first_met(vs, #[trigger] order[j]) by {
                assert(first_met(before, prev[i]) < first_met(before, prev[j]));
            }
        }
    }
}

proof fn lemma_decimal_length(n: nat)
    ensures
        crate::text::decimal(n).len() > 0,
        crate::text::decimal(n).len() == 1 <==> n < 10,
    decreases n,
{
    if n >= 10 {
        lemma_decimal_length(n / 10);
    }
}

proof fn lemma_digits_differ(a: nat, b: nat)
    requires
        a < 10,
        b < 10,
        crate::text::digit(a) == crate::text::digit(b),
    ensures
        a == b,
{
}

proof fn lemma_decimals_differ(a: nat, b: nat)
    requires
        crate::text::decimal(a) == crate::text::decimal(b),
    ensures
        a == b,
    decreases a,
{
    let x = crate::text::decimal(a);
    let y = crate::text::decimal(b);
    lemma_decimal_length(a);
    lemma_decimal_length(b);
    if a < 10 {
        assert(x[0] == crate::text::digit(a) && y[0] == crate::text::digit(b));
        lemma_digits_differ(a, b);
    } else {
        assert(x.last() == crate::text::digit(a % 10));
        assert(y.last() == crate::text::digit(b % 10));
        assert(x.drop_last() =~= crate::text::decimal(a / 10));
        assert(y.drop_last() =~= crate::text::decimal(b / 10));
        lemma_decimals_differ(a / 10, b / 10);
        lemma_digits_differ(a % 10, b % 10);
    }
}

/// In a message each unknown variable has one number in all types of the message. The
/// numbers count the variables from one on, in the order in which one meets them first
/// from left to right. Every type has a text of its own.
pub proof fn variables_are_numbered_as_they_are_met(
    ts: Seq<Term>,
    known: Map<TypeVar, Seq<char>>,
)
    ensures
        ({
            let order = crate::render::seen_all(known.dom(), ts);
            let all = met_in_all(ts);
            &&& order.no_duplicates()
            &&& forall|v: TypeVar| #[trigger]
                order.contains(v) <==> all.contains(v) && !known.contains_key(v)
            &&& forall|i: int, j: int|
                0 <= i < j < order.len() ==> first_met(all, #[trigger] order[i]) < first_met(
                    all,
                    #[trigger] order[j],
                )
            &&& forall|i: int|
                0 <= i < order.len() ==> crate::render::name_of(
                    known,
                    order,
                    #[trigger] order[i],
                ) == "?"@ + crate::text::decimal((i + 1) as nat)
            &&& crate::render::rendered(ts, known).len() == ts.len()
            &&& forall|i: int|
                0 <= i < ts.len() ==> #[trigger] crate::render::rendered(ts, known)[i]
                    == crate::render::named_text(ts[i], known, order)
        }),
{
    let order = crate::render::seen_all(known.dom(), ts);
    lemma_seen_all_noted(known.dom(), ts);
    lemma_noted_order(known.dom(), met_in_all(ts));
    assert forall|i: int| 0 <= i < order.len() implies crate::render::name_of(
        known,
        order,
        #[trigger] order[i],
    ) == "?"@ + crate::text::decimal((i + 1) as nat) by {
        assert(order.contains(order[i]));
        let j = order.index_of(order[i]);
        assert(order[j] == order[i]);
    }
}

/// Different unknown variables of a message have different numbers.
pub proof fn numbers_tell_variables_apart(
    ts: Seq<Term>,
    known: Map<TypeVar, Seq<char>>,
    v: TypeVar,
    w: TypeVar,
)
    requires
        crate::render::seen_all(known.dom(), ts).contains(v),
        crate::render::seen_all(known.dom(), ts).contains(w),
        v != w,
    ensures
        crate::render::name_of(known, crate::render::seen_all(known.dom(), ts), v)
            != crate::render::name_of(known, crate::render::seen_all(known.dom(), ts), w),
{
    let order = crate::render::seen_all(known.dom(), ts);
    variables_are_numbered_as_they_are_met(ts, known);
    let i = order.index_of(v);
    let j = order.index_of(w);
    assert(order[i] == v && order[j] == w);
    let a = crate::text::decimal((i + 1) as nat);
    let b = crate::text::decimal((j + 1) as nat);
    if "?"@ + a == "?"@ + b {
        let n = "?"@.len() as int;
        assert(("?"@ + a).skip(n) =~= a);
        assert(("?"@ + b).skip(n) =~= b);
        lemma_decimals_differ((i + 1) as nat, (j + 1) as nat);
    }
}

} // verus!
