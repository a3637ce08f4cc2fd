//! What holds of the texts and lists that are reported.

use crate::profiler::{EdgeModel, FunctionModel};
use vstd::prelude::*;

verus! {

/// Whether nothing in a list comes before what it stands behind.
pub open spec fn in_order<A>(s: Seq<A>, before: spec_fn(A, A) -> bool) -> bool {
    forall|i: int, j: int| 0 <= i < j < s.len() ==> !before(#[trigger] s[j], #[trigger] s[i])
}

/// What is put where it belongs keeps a list in order, and the list has it once
/// more.
proof fn lemma_put_in_order<A>(s: Seq<A>, x: A, p: int, before: spec_fn(A, A) -> bool)
    requires
        in_order(s, before),
        0 <= p <= s.len(),
        forall|i: int| 0 <= i < p ==> !before(x, #[trigger] s[i]),
        p < s.len() ==> before(x, s[p]),
        forall|a: A, b: A, c: A|
            #[trigger] before(a, b) && #[trigger] before(b, c) ==> before(a, c),
        forall|a: A| !(#[trigger] before(a, a)),
    ensures
        in_order(s.insert(p, x), before),
        s.insert(p, x).to_multiset() == s.to_multiset().insert(x),
{
    let t = s.insert(p, x);
    assert forall|i: int, j: int| 0 <= i < j < t.len() implies !before(
        #[trigger] t[j],
        #[trigger] t[i],
    ) by {
        if i == p {
            assert(t[j] == s[j - 1]);
            if before(s[j - 1], x) {
                assert(before(x, s[p]));
                assert(before(s[j - 1], s[p]));
                if j - 1 == p {
                    assert(before(s[p], s[p]));
                }
            }
        } else if j == p {
            assert(t[i] == s[i]);
        } else {
            let a = if i < p {
                i
            } else {
                i - 1
            };
            let b = if j < p {
                j
            } else {
                j - 1
            };
            assert(t[i] == s[a] && t[j] == s[b]);
        }
    }
    broadcast use vstd::seq_lib::group_to_multiset_ensures;
    assert(t.remove(p) =~= s);
    assert(t[p] == x);
    assert(t.to_multiset().count(x) > 0);
    assert(s.to_multiset() == t.to_multiset().remove(x));
    assert(t.to_multiset() =~= s.to_multiset().insert(x));
}

proof fn lemma_function_inserted(s: Seq<FunctionModel>, x: FunctionModel, i: int)
    requires
        0 <= i <= s.len(),
        forall|j: int| 0 <= j < i ==> !crate::bench::hotter(x, #[trigger] s[j]),
    ensures
        exists|p: int|
            0 <= p <= s.len() && #[trigger] s.insert(p, x) == crate::bench::function_inserted(
                s,
                x,
                i,
            ) && (forall|j: int| 0 <= j < p ==> !crate::bench::hotter(x, #[trigger] s[j])) && (p
                < s.len() ==> crate::bench::hotter(x, s[p])),
    decreases s.len() - i,
{
    if i >= s.len() {
        assert(s.insert(i, x) =~= s.push(x));
    } else if crate::bench::hotter(x, s[i]) {
        assert(s.insert(i, x) == crate::bench::function_inserted(s, x, i));
    } else {
        lemma_function_inserted(s, x, i + 1);
    }
}

proof fn lemma_text_order(a: Seq<char>, b: Seq<char>, c: Seq<char>)
    requires
        a != b,
        crate::strings::not_after(a, b, 0),
        b != c,
        crate::strings::not_after(b, c, 0),
    ensures
        a != c,
        crate::strings::not_after(a, c, 0),
{
    crate::strings::lemma_order_transitive(a, b, c, 0);
    if a == c {
        crate::strings::lemma_order_antisymmetric(a, b, 0);
    }
}

/// The hottest functions come first, and each function is there as often as it was
/// before.
pub proof fn hottest_functions_come_first(fs: Seq<FunctionModel>, k: int)
    requires
        0 <= k <= fs.len(),
    ensures
        in_order(
            crate::bench::functions_by_heat(fs, k),
            |a: FunctionModel, b: FunctionModel| crate::bench::hotter(a, b),
        ),
        crate::bench::functions_by_heat(fs, k).to_multiset() == fs.take(k).to_multiset(),
    decreases k,
{
    let before = |a: FunctionModel, b: FunctionModel| crate::bench::hotter(a, b);
    if k > 0 {
        hottest_functions_come_first(fs, k - 1);
        let s = crate::bench::functions_by_heat(fs, k - 1);
        let x = fs[k - 1];
        lemma_function_inserted(s, x, 0);
        let p = choose|p: int|
            0 <= p <= s.len() && #[trigger] s.insert(p, x) == crate::bench::function_inserted(
                s,
                x,
                0,
            ) && (forall|j: int| 0 <= j < p ==> !crate::bench::hotter(x, #[trigger] s[j])) && (p
                < s.len() ==> crate::bench::hotter(x, s[p]));
        assert forall|a: FunctionModel, b: FunctionModel, c: FunctionModel|
            #[trigger] before(a, b) && #[trigger] before(b, c) implies before(a, c) by {
            if a.acc.inclusive_ns == b.acc.inclusive_ns && b.acc.inclusive_ns
                == c.acc.inclusive_ns {
                lemma_text_order(a.function, b.function, c.function);
            }
        }
        lemma_put_in_order(s, x, p, before);
        vstd::seq_lib::to_multiset_build(fs.take(k - 1), x);
        assert(fs.take(k - 1).push(x) =~= fs.take(k));
    } else {
        assert(fs.take(k) =~= Seq::empty());
    }
}

proof fn lemma_edge_inserted(s: Seq<EdgeModel>, x: EdgeModel, i: int)
    requires
        0 <= i <= s.len(),
        forall|j: int| 0 <= j < i ==> !crate::bench::edge_hotter(x, #[trigger] s[j]),
    ensures
        exists|p: int|
            0 <= p <= s.len() && #[trigger] s.insert(p, x) == crate::bench::edge_inserted(s, x, i)
                && (forall|j: int| 0 <= j < p ==> !crate::bench::edge_hotter(x, #[trigger] s[j]))
                && (p < s.len() ==> crate::bench::edge_hotter(x, s[p])),
    decreases s.len() - i,
{
    if i >= s.len() {
        assert(s.insert(i, x) =~= s.push(x));
    } else if crate::bench::edge_hotter(x, s[i]) {
        assert(s.insert(i, x) == crate::bench::edge_inserted(s, x, i));
    } else {
        lemma_edge_inserted(s, x, i + 1);
    }
}

/// The hottest calls come first, and each is there as often as it was before.
pub proof fn hottest_calls_come_first(es: Seq<EdgeModel>, k: int)
    requires
        0 <= k <= es.len(),
    ensures
        in_order(
            crate::bench::edges_by_heat(es, k),
            |a: EdgeModel, b: EdgeModel| crate::bench::edge_hotter(a, b),
        ),
        crate::bench::edges_by_heat(es, k).to_multiset() == es.take(k).to_multiset(),
    decreases k,
{
    let before = |a: EdgeModel, b: EdgeModel| crate::bench::edge_hotter(a, b);
    if k > 0 {
        hottest_calls_come_first(es, k - 1);
        let s = crate::bench::edges_by_heat(es, k - 1);
        let x = es[k - 1];
        lemma_edge_inserted(s, x, 0);
        let p = choose|p: int|
            0 <= p <= s.len() && #[trigger] s.insert(p, x) == crate::bench::edge_inserted(s, x, 0)
                && (forall|j: int| 0 <= j < p ==> !crate::bench::edge_hotter(x, #[trigger] s[j]))
                && (p < s.len() ==> crate::bench::edge_hotter(x, s[p]));
        assert forall|a: EdgeModel, b: EdgeModel, c: EdgeModel|
            #[trigger] before(a, b) && #[trigger] before(b, c) implies before(a, c) by {
            if a.acc.inclusive_ns == b.acc.inclusive_ns && b.acc.inclusive_ns
                == c.acc.inclusive_ns {
                lemma_text_order(a.edge.1, b.edge.1, c.edge.1);
            }
        }
        lemma_put_in_order(s, x, p, before);
        vstd::seq_lib::to_multiset_build(es.take(k - 1), x);
        assert(es.take(k - 1).push(x) =~= es.take(k));
    } else {
        assert(es.take(k) =~= Seq::empty());
    }
}

/// Whether a text comes before another one.
pub open spec fn text_before(a: Seq<char>, b: Seq<char>) -> bool {
    a != b && crate::strings::not_after(a, b, 0)
}

proof fn lemma_text_inserted(s: Seq<Seq<char>>, x: Seq<char>, i: int)
    requires
        0 <= i <= s.len(),
        forall|j: int| 0 <= j < i ==> !text_before(x, #[trigger] s[j]),
    ensures
        exists|p: int|
            0 <= p <= s.len() && #[trigger] s.insert(p, x) == crate::bench::text_inserted(s, x, i)
                && (forall|j: int| 0 <= j < p ==> !text_before(x, #[trigger] s[j])) && (p < s.len()
                ==> text_before(x, s[p])),
    decreases s.len() - i,
{
    if i >= s.len() {
        assert(s.insert(i, x) =~= s.push(x));
    } else if crate::strings::not_after(s[i], x, 0) {
        if text_before(x, s[i]) {
            crate::strings::lemma_order_antisymmetric(x, s[i], 0);
        }
        lemma_text_inserted(s, x, i + 1);
    } else {
        crate::strings::lemma_order_total(x, s[i], 0);
        assert(text_before(x, s[i])) by {
            if x == s[i] {
                crate::strings::lemma_order_total(x, x, 0);
            }
        }
        assert(s.insert(i, x) == crate::bench::text_inserted(s, x, i));
    }
}

/// Fixtures are run in the order of their names: just those that have been asked
/// for.
pub proof fn fixtures_are_run_in_order(
    names: Seq<Seq<char>>,
    selected: Seq<Seq<char>>,
    k: int,
    name: Seq<char>,
)
    requires
        0 <= k <= names.len(),
    ensures
        in_order(
            crate::bench::fixtures_among(names, selected, k),
            |a: Seq<char>, b: Seq<char>| text_before(a, b),
        ),
        crate::bench::fixtures_among(names, selected, k).to_multiset().count(name) == if
            crate::bench::is_fixture(name) && crate::bench::is_selected(name, selected) {
            names.take(k).to_multiset().count(name)
        } else {
            0
        },
    decreases k,
{
    let before = |a: Seq<char>, b: Seq<char>| text_before(a, b);
    if k > 0 {
        fixtures_are_run_in_order(names, selected, k - 1, name);
        let s = crate::bench::fixtures_among(names, selected, k - 1);
        let x = names[k - 1];
        vstd::seq_lib::to_multiset_build(names.take(k - 1), x);
        assert(names.take(k - 1).push(x) =~= names.take(k));
        if crate::bench::is_fixture(x) && crate::bench::is_selected(x, selected) {
            lemma_text_inserted(s, x, 0);
            let p = choose|p: int|
                0 <= p <= s.len() && #[trigger] s.insert(p, x) == crate::bench::text_inserted(
                    s,
                    x,
                    0,
                ) && (forall|j: int| 0 <= j < p ==> !text_before(x, #[trigger] s[j])) && (p
                    < s.len() ==> text_before(x, s[p]));
            assert forall|a: Seq<char>, b: Seq<char>, c: Seq<char>|
                #[trigger] before(a, b) && #[trigger] before(b, c) implies before(a, c) by {
                lemma_text_order(a, b, c);
            }
            lemma_put_in_order(s, x, p, before);
        }
    } else {
        assert(names.take(k) =~= Seq::empty());
        broadcast use vstd::seq_lib::group_to_multiset_ensures;
        assert(Seq::<Seq<char>>::empty().to_multiset().len() == 0);
        assert(!Seq::<Seq<char>>::empty().contains(name));
    }
}

proof fn lemma_joined_first(first: Seq<char>, rest: Seq<Seq<char>>, sep: Seq<char>)
    requires
        rest.len() > 0,
    ensures
        crate::text::joined(seq![first] + rest, sep) == first + sep + crate::text::joined(
            rest,
            sep,
        ),
    decreases rest.len(),
{
    let all = seq![first] + rest;
    assert(all.last() == rest.last());
    if rest.len() == 1 {
        assert(all.drop_last() =~= seq![first]);
        assert(crate::text::joined(all.drop_last(), sep) == first);
    } else {
        assert(all.drop_last() =~= seq![first] + rest.drop_last());
        lemma_joined_first(first, rest.drop_last(), sep);
        assert(first + sep + crate::text::joined(rest.drop_last(), sep) + sep + rest.last()
            =~= first + sep + (crate::text::joined(rest.drop_last(), sep) + sep + rest.last()));
    }
}

proof fn lemma_split_from(s: Seq<char>, sep: Seq<char>, from: int)
    requires
        0 <= from <= s.len(),
    ensures
        crate::strings::split_from(s, sep, from).len() > 0,
        crate::text::joined(crate::strings::split_from(s, sep, from), sep) == s.skip(from),
    decreases s.len() - from + 1,
{
    let i = crate::strings::first_at(s, sep, from);
    crate::strings::lemma_first_at(s, sep, from);
    if sep.len() > 0 && i >= from {
        let next = i + sep.len();
        lemma_split_from(s, sep, next);
        let rest = crate::strings::split_from(s, sep, next);
        lemma_joined_first(s.subrange(from, i), rest, sep);
        assert(s.subrange(from, i) + sep + s.skip(next) =~= s.skip(from));
    }
}

/// A text that has been split is had back by joining its parts.
pub proof fn joining_undoes_splitting(s: Seq<char>, sep: Seq<char>)
    ensures
        crate::text::joined(crate::strings::split_from(s, sep, 0), sep) == s,
{
    lemma_split_from(s, sep, 0);
    assert(s.skip(0) =~= s);
}

} // verus!
