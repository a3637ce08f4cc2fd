//! What holds of copies.

use crate::store::{ClosureModel, StoreModel};
use crate::values::{ArrayId, CallableModel, CellId, ClosureId, ValueHead, ValueTerm};
use vstd::prelude::*;

verus! {

/// Whether the arrays and closures that a value holds have been made.
pub open spec fn within(s: StoreModel, v: ValueTerm) -> bool
    decreases v,
{
    &&& match v.head {
        ValueHead::Array(a) => a.0 < s.arrays.len(),
        ValueHead::Callable(CallableModel::Closure(c)) => c.0 < s.closures.len(),
        _ => true,
    }
    &&& forall|i: int| 0 <= i < v.args.len() ==> within(s, #[trigger] v.args[i])
}

/// Whether the variables of an environment are in a store.
pub open spec fn cells_within(s: StoreModel, scopes: Seq<Seq<(Seq<char>, CellId)>>) -> bool {
    forall|i: int, j: int|
        0 <= i < scopes.len() && 0 <= j < scopes[i].len() ==> (#[trigger] scopes[i][j]).1.0
            < s.cells.len()
}

/// Whether all that a store holds is in it.
pub open spec fn closed(s: StoreModel) -> bool {
    &&& forall|i: int| 0 <= i < s.cells.len() ==> within(s, #[trigger] s.cells[i])
    &&& forall|a: int, i: int|
        0 <= a < s.arrays.len() && 0 <= i < s.arrays[a].len() ==> within(
            s,
            #[trigger] s.arrays[a][i],
        )
    &&& forall|c: int|
        0 <= c < s.closures.len() ==> cells_within(s, (#[trigger] s.closures[c]).captured.scopes)
}

/// Whether every array and closure that a value holds has a rank below `n`.
pub open spec fn below(rank: spec_fn(ValueHead) -> nat, v: ValueTerm, n: nat) -> bool
    decreases v,
{
    &&& v.head is Array || v.head is Callable ==> rank(v.head) < n
    &&& forall|i: int| 0 <= i < v.args.len() ==> below(rank, #[trigger] v.args[i], n)
}

/// Whether arrays and closures can be ranked: each is above all that it holds.
pub open spec fn ranks(rank: spec_fn(ValueHead) -> nat, s: StoreModel) -> bool {
    &&& forall|a: ArrayId, i: int|
        a.0 < s.arrays.len() && 0 <= i < crate::store::array_at(s, a).len() ==> below(
            rank,
            #[trigger] crate::store::array_at(s, a)[i],
            rank(ValueHead::Array(a)),
        )
    &&& forall|c: ClosureId, i: int, j: int|
        c.0 < s.closures.len() && 0 <= i < s.closures[c.0 as int].captured.scopes.len() && 0 <= j
            < s.closures[c.0 as int].captured.scopes[i].len() ==> below(
            rank,
            crate::store::cell_at(
                s,
                (#[trigger] s.closures[c.0 as int].captured.scopes[i][j]).1,
            ),
            rank(ValueHead::Callable(CallableModel::Closure(c))),
        )
}

/// Whether a value in one store is a copy of a value in another, as far as `n`
/// arrays into each other: the arrays are not the same, but hold the same, and
/// closures have the same code.
pub open spec fn copy_of(s: StoreModel, v: ValueTerm, t: StoreModel, x: ValueTerm, n: nat) -> bool
    decreases n, v,
{
    match v.head {
        ValueHead::Array(a) => n > 0 && match x.head {
            ValueHead::Array(b) => {
                let from = crate::store::array_at(s, a);
                let to = crate::store::array_at(t, b);
                &&& s.arrays.len() <= b.0 < t.arrays.len()
                &&& from.len() == to.len()
                &&& forall|i: int|
                    0 <= i < from.len() ==> copy_of(
                        s,
                        #[trigger] from[i],
                        t,
                        to[i],
                        (n - 1) as nat,
                    )
            },
            _ => false,
        },
        ValueHead::Callable(CallableModel::Closure(c)) => match x.head {
            ValueHead::Callable(CallableModel::Closure(d)) => match (
                crate::store::closure_at(s, c),
                crate::store::closure_at(t, d),
            ) {
                (Some(from), Some(to)) => from.code == to.code && if crate::store::copied_on_use(
                    from.code,
                ) {
                    s.closures.len() <= d.0
                } else {
                    d == c
                },
                _ => false,
            },
            _ => false,
        },
        _ => {
            &&& x.head == v.head
            &&& x.args.len() == v.args.len()
            &&& forall|i: int|
                0 <= i < v.args.len() ==> copy_of(s, #[trigger] v.args[i], t, x.args[i], n)
        },
    }
}

/// A copy stays one when more is made.
proof fn lemma_copy_stays(
    s: StoreModel,
    v: ValueTerm,
    t: StoreModel,
    x: ValueTerm,
    u: StoreModel,
    n: nat,
)
    requires
        copy_of(s, v, t, x, n),
        crate::copying::extends(t, u),
    ensures
        copy_of(s, v, u, x, n),
    decreases n, v,
{
    match v.head {
        ValueHead::Array(a) => match x.head {
            ValueHead::Array(b) => {
                let from = crate::store::array_at(s, a);
                let to = crate::store::array_at(t, b);
                assert(u.arrays.take(t.arrays.len() as int)[b.0 as int] == t.arrays[b.0 as int]);
                assert forall|i: int| 0 <= i < from.len() implies copy_of(
                    s,
                    #[trigger] from[i],
                    u,
                    to[i],
                    (n - 1) as nat,
                ) by {
                    lemma_copy_stays(s, from[i], t, to[i], u, (n - 1) as nat);
                }
            },
            _ => {},
        },
        ValueHead::Callable(CallableModel::Closure(_)) => match x.head {
            ValueHead::Callable(CallableModel::Closure(d)) => {
                assert(u.closures.take(t.closures.len() as int)[d.0 as int]
                    == t.closures[d.0 as int]);
            },
            _ => {},
        },
        _ => {
            assert forall|i: int| 0 <= i < v.args.len() implies copy_of(
                s,
                #[trigger] v.args[i],
                u,
                x.args[i],
                n,
            ) by {
                lemma_copy_stays(s, v.args[i], t, x.args[i], u, n);
            }
        },
    }
}

/// Values whose arrays and closures have ranks below `n` are copied.
#[verifier::rlimit(40)]
proof fn lemma_ranked_copied(
    s: StoreModel,
    rank: spec_fn(ValueHead) -> nat,
    u: StoreModel,
    v: ValueTerm,
    n: nat,
)
    requires
        closed(s),
        ranks(rank, s),
        crate::copying::extends(s, u),
        within(s, v),
        below(rank, v, n),
    ensures
        crate::copying::copied(u, v, n) is Some,
        ({
            let (t, x) = crate::copying::copied(u, v, n)->Some_0;
            t.arrays.len() <= usize::MAX && t.closures.len() <= usize::MAX ==> copy_of(
                s,
                v,
                t,
                x,
                n,
            )
        }),
    decreases n, 0int, v, 0int,
{
    match v.head {
        ValueHead::Array(a) => {
            let items = crate::store::array_at(s, a);
            assert(u.arrays.take(s.arrays.len() as int)[a.0 as int] == s.arrays[a.0 as int]);
            assert forall|i: int| 0 <= i < items.len() implies within(s, #[trigger] items[i])
                && below(rank, items[i], (n - 1) as nat) by {
                assert(s.arrays[a.0 as int][i] == items[i]);
                assert(crate::store::array_at(s, a)[i] == items[i]);
                lemma_below(rank, items[i], rank(v.head), (n - 1) as nat);
            }
            lemma_ranked_list(s, rank, u, items, (n - 1) as nat, 0, Seq::empty());
            let (t, made) = crate::copying::list_copied(
                u,
                items,
                (n - 1) as nat,
                0,
                Seq::empty(),
            )->Some_0;
            crate::depth::lemma_list_copied(u, items, (n - 1) as nat, 0, Seq::empty());
            crate::depth::lemma_made(t, v, made, arbitrary());
            let (after, b) = crate::store::array_made(t, made);
            if after.arrays.len() <= usize::MAX && after.closures.len() <= usize::MAX {
                assert forall|i: int| 0 <= i < items.len() implies copy_of(
                    s,
                    #[trigger] items[i],
                    after,
                    made[i],
                    (n - 1) as nat,
                ) by {
                    lemma_copy_stays(s, items[i], t, made[i], after, (n - 1) as nat);
                }
                assert(crate::store::array_at(after, b) == made);
            }
        },
        ValueHead::Callable(CallableModel::Closure(c)) => {
            let closure = s.closures[c.0 as int];
            assert(u.closures.take(s.closures.len() as int)[c.0 as int] == closure);
            if crate::store::copied_on_use(closure.code) {
                let k = (n - 1) as nat;
                let scopes = closure.captured.scopes;
                assert forall|i: int, j: int|
                    0 <= i < scopes.len() && 0 <= j < scopes[i].len() implies (
                #[trigger] scopes[i][j]).1.0 < s.cells.len() && below(
                    rank,
                    crate::store::cell_at(s, scopes[i][j].1),
                    k,
                ) by {
                    assert(s.closures[c.0 as int].captured.scopes[i][j] == scopes[i][j]);
                    lemma_below(
                        rank,
                        crate::store::cell_at(s, scopes[i][j].1),
                        rank(v.head),
                        k,
                    );
                }
                lemma_ranked_scopes(s, rank, u, scopes, k, 0, Seq::empty());
                lemma_ranked_env(u, closure, k);
                let (t, captured) = crate::copying::closure_env_copied(u, closure, k)->Some_0;
                crate::depth::lemma_env_copied(u, closure.captured, k);
            }
        },
        _ => {
            lemma_ranked_list(s, rank, u, v.args, n, 0, Seq::empty());
        },
    }
}

/// An environment of which all scopes are copied is copied.
proof fn lemma_ranked_env(u: StoreModel, closure: ClosureModel, n: nat)
    requires
        crate::copying::scopes_copied(u, closure.captured.scopes, n, 0, Seq::empty()) is Some,
    ensures
        crate::copying::closure_env_copied(u, closure, n) is Some,
{
    assert(crate::copying::env_copied(u, closure.captured, n) is Some);
}

proof fn lemma_below(rank: spec_fn(ValueHead) -> nat, v: ValueTerm, n: nat, more: nat)
    requires
        below(rank, v, n),
        n <= more,
    ensures
        below(rank, v, more),
    decreases v,
{
    assert forall|i: int| 0 <= i < v.args.len() implies below(rank, #[trigger] v.args[i], more) by {
        lemma_below(rank, v.args[i], n, more);
    }
}

proof fn lemma_ranked_list(
    s: StoreModel,
    rank: spec_fn(ValueHead) -> nat,
    u: StoreModel,
    items: Seq<ValueTerm>,
    n: nat,
    i: int,
    done: Seq<ValueTerm>,
)
    requires
        closed(s),
        ranks(rank, s),
        crate::copying::extends(s, u),
        0 <= i <= items.len(),
        done.len() == i,
        forall|j: int|
            0 <= j < items.len() ==> within(s, #[trigger] items[j]) && below(rank, items[j], n),
        u.arrays.len() <= usize::MAX && u.closures.len() <= usize::MAX ==> forall|j: int|
            0 <= j < i ==> copy_of(s, #[trigger] items[j], u, done[j], n),
    ensures
        crate::copying::list_copied(u, items, n, i, done) is Some,
        ({
            let (t, made) = crate::copying::list_copied(u, items, n, i, done)->Some_0;
            &&& made.len() == items.len()
            &&& t.arrays.len() <= usize::MAX && t.closures.len() <= usize::MAX ==> forall|j: int|
                0 <= j < items.len() ==> copy_of(s, #[trigger] items[j], t, made[j], n)
        }),
    decreases n, 0int, items, items.len() - i,
{
    if i < items.len() {
        lemma_ranked_copied(s, rank, u, items[i], n);
        let (t, x) = crate::copying::copied(u, items[i], n)->Some_0;
        crate::depth::lemma_copied(u, items[i], n);
        crate::copying::lemma_extends_on(s, u, t);
        if t.arrays.len() <= usize::MAX && t.closures.len() <= usize::MAX {
            assert forall|j: int| 0 <= j < i + 1 implies copy_of(
                s,
                #[trigger] items[j],
                t,
                done.push(x)[j],
                n,
            ) by {
                if j < i {
                    lemma_copy_stays(s, items[j], u, done[j], t, n);
                }
            }
        }
        lemma_ranked_list(s, rank, t, items, n, i + 1, done.push(x));
    }
}

proof fn lemma_ranked_scope(
    s: StoreModel,
    rank: spec_fn(ValueHead) -> nat,
    u: StoreModel,
    scope: Seq<(Seq<char>, CellId)>,
    n: nat,
    i: int,
    done: Seq<(Seq<char>, CellId)>,
)
    requires
        closed(s),
        ranks(rank, s),
        crate::copying::extends(s, u),
        0 <= i <= scope.len(),
        forall|j: int|
            0 <= j < scope.len() ==> (#[trigger] scope[j]).1.0 < s.cells.len() && below(
                rank,
                crate::store::cell_at(s, scope[j].1),
                n,
            ),
    ensures
        crate::copying::scope_copied(u, scope, n, i, done) is Some,
    decreases n, 1int, scope, scope.len() - i,
{
    if i < scope.len() {
        let c = scope[i].1.0 as int;
        let v = crate::store::cell_at(s, scope[i].1);
        assert(u.cells.take(s.cells.len() as int)[c] == s.cells[c]);
        assert(within(s, s.cells[c]));
        lemma_ranked_copied(s, rank, u, v, n);
        let (t, x) = crate::copying::copied(u, v, n)->Some_0;
        crate::depth::lemma_copied(u, v, n);
        crate::depth::lemma_made(t, x, Seq::empty(), arbitrary());
        let (after, made) = crate::store::cell_made(t, x);
        crate::copying::lemma_extends_on(s, u, t);
        crate::copying::lemma_extends_on(s, t, after);
        lemma_ranked_scope(s, rank, after, scope, n, i + 1, done.push((scope[i].0, made)));
    }
}

proof fn lemma_ranked_scopes(
    s: StoreModel,
    rank: spec_fn(ValueHead) -> nat,
    u: StoreModel,
    scopes: Seq<Seq<(Seq<char>, CellId)>>,
    n: nat,
    i: int,
    done: Seq<Seq<(Seq<char>, CellId)>>,
)
    requires
        closed(s),
        ranks(rank, s),
        crate::copying::extends(s, u),
        0 <= i <= scopes.len(),
        forall|k: int, j: int|
            0 <= k < scopes.len() && 0 <= j < scopes[k].len() ==> (#[trigger] scopes[k][j]).1.0
                < s.cells.len() && below(rank, crate::store::cell_at(s, scopes[k][j].1), n),
    ensures
        crate::copying::scopes_copied(u, scopes, n, i, done) is Some,
    decreases n, 2int, scopes, scopes.len() - i,
{
    if i < scopes.len() {
        lemma_ranked_scope(s, rank, u, scopes[i], n, 0, Seq::empty());
        let (t, scope) = crate::copying::scope_copied(u, scopes[i], n, 0, Seq::empty())->Some_0;
        crate::depth::lemma_scope_copied(u, scopes[i], n, 0, Seq::empty());
        crate::copying::lemma_extends_on(s, u, t);
        lemma_ranked_scopes(s, rank, t, scopes, n, i + 1, done.push(scope));
    }
}

/// A value in which nothing contains itself is copied: where the arrays and
/// closures can be ranked, each above all that it holds, and by numbers no greater
/// than there are of them, there is a copy. Its arrays are new ones that hold the
/// same, and nothing that there was has changed.
pub proof fn copies_are_separate_and_alike(
    s: StoreModel,
    v: ValueTerm,
    rank: spec_fn(ValueHead) -> nat,
)
    requires
        closed(s),
        within(s, v),
        ranks(rank, s),
        below(rank, v, crate::copying::depth_bound(s)),
    ensures
        crate::copying::value_copied(s, v) is Some,
        ({
            let (t, x) = crate::copying::value_copied(s, v)->Some_0;
            &&& crate::copying::extends(s, t)
            &&& t.arrays.len() <= usize::MAX && t.closures.len() <= usize::MAX ==> copy_of(
                s,
                v,
                t,
                x,
                crate::copying::depth_bound(s),
            )
        }),
{
    crate::copying::lemma_extends_self(s);
    lemma_ranked_copied(s, rank, s, v, crate::copying::depth_bound(s));
    crate::depth::lemma_value_copied(s, v);
}

} // verus!
