//! What holds of the question whether a type has an aspect.

use crate::aspects::{Check, Ruling};
use crate::bounds::BoundModel;
use crate::definitions::EntryModel;
use crate::registry::RegistryModel;
use crate::symbols::SymbolId;
use crate::term::{Head, Term, TypeVar};
use vstd::prelude::*;
use vstd::string::*;

verus! {

proof fn lemma_answer_stays(
    n: nat,
    more: nat,
    reg: RegistryModel,
    module: Seq<Seq<char>>,
    assumed: Map<TypeVar, Set<Seq<char>>>,
    t: Term,
    aspect: Seq<char>,
)
    requires
        n <= more,
    ensures
        crate::aspects::satisfied_at(n, reg, module, assumed, t, aspect) is Some
            ==> crate::aspects::satisfied_at(more, reg, module, assumed, t, aspect)
            == crate::aspects::satisfied_at(n, reg, module, assumed, t, aspect),
    decreases n, 0int, 0int,
{
    if n > 0 {
        lemma_verdict_stays(
            (n - 1) as nat,
            (more - 1) as nat,
            reg,
            module,
            assumed,
            crate::aspects::ruling(reg, module, t, aspect, assumed),
            0,
        );
    }
}

proof fn lemma_verdict_stays(
    n: nat,
    more: nat,
    reg: RegistryModel,
    module: Seq<Seq<char>>,
    assumed: Map<TypeVar, Set<Seq<char>>>,
    r: Ruling,
    i: int,
)
    requires
        n <= more,
    ensures
        crate::aspects::first_verdict(n, reg, module, assumed, r, i) is Some
            ==> crate::aspects::first_verdict(more, reg, module, assumed, r, i)
            == crate::aspects::first_verdict(n, reg, module, assumed, r, i),
    decreases n, 2int, r.rules.len() - i,
{
    if 0 <= i < r.rules.len() {
        lemma_holding_stays(n, more, reg, module, assumed, r.rules[i].checks, 0);
        lemma_verdict_stays(n, more, reg, module, assumed, r, i + 1);
    }
}

proof fn lemma_holding_stays(
    n: nat,
    more: nat,
    reg: RegistryModel,
    module: Seq<Seq<char>>,
    assumed: Map<TypeVar, Set<Seq<char>>>,
    checks: Seq<Check>,
    j: int,
)
    requires
        n <= more,
    ensures
        crate::aspects::all_hold(n, reg, module, assumed, checks, j) is Some
            ==> crate::aspects::all_hold(more, reg, module, assumed, checks, j)
            == crate::aspects::all_hold(n, reg, module, assumed, checks, j),
    decreases n, 1int, checks.len() - j,
{
    if 0 <= j < checks.len() {
        lemma_answer_stays(n, more, reg, module, assumed, checks[j].ty, checks[j].aspect);
        lemma_holding_stays(n, more, reg, module, assumed, checks, j + 1);
    }
}

/// A question has one answer: the one that is found first stays, however many
/// questions may be nested.
pub proof fn answers_are_unique(
    n: nat,
    reg: RegistryModel,
    module: Seq<Seq<char>>,
    assumed: Map<TypeVar, Set<Seq<char>>>,
    t: Term,
    aspect: Seq<char>,
)
    requires
        crate::aspects::satisfied_at(n, reg, module, assumed, t, aspect) is Some,
    ensures
        crate::aspects::satisfied_at(n, reg, module, assumed, t, aspect) == Some(
            crate::aspects::satisfied(reg, module, assumed, t, aspect),
        ),
{
    let k = choose|k: nat| #[trigger]
        crate::aspects::satisfied_at(k, reg, module, assumed, t, aspect) is Some;
    if n <= k {
        lemma_answer_stays(n, k, reg, module, assumed, t, aspect);
    } else {
        lemma_answer_stays(k, n, reg, module, assumed, t, aspect);
    }
}

/// Whether every question of a list has an answer.
spec fn all_decided(
    reg: RegistryModel,
    module: Seq<Seq<char>>,
    assumed: Map<TypeVar, Set<Seq<char>>>,
    checks: Seq<Check>,
) -> bool {
    forall|j: int|
        0 <= j < checks.len() ==> crate::aspects::decided(
            reg,
            module,
            assumed,
            (#[trigger] checks[j]).ty,
            checks[j].aspect,
        )
}

proof fn lemma_checks_decided(
    reg: RegistryModel,
    module: Seq<Seq<char>>,
    assumed: Map<TypeVar, Set<Seq<char>>>,
    checks: Seq<Check>,
    j: int,
) -> (n: nat)
    requires
        all_decided(reg, module, assumed, checks),
    ensures
        crate::aspects::all_hold(n, reg, module, assumed, checks, j) is Some,
    decreases checks.len() - j,
{
    if 0 <= j < checks.len() {
        let c = checks[j];
        let a = choose|a: nat| #[trigger]
            crate::aspects::satisfied_at(a, reg, module, assumed, c.ty, c.aspect) is Some;
        let b = lemma_checks_decided(reg, module, assumed, checks, j + 1);
        let n = if a <= b {
            b
        } else {
            a
        };
        lemma_answer_stays(a, n, reg, module, assumed, c.ty, c.aspect);
        lemma_holding_stays(b, n, reg, module, assumed, checks, j + 1);
        n
    } else {
        0
    }
}

proof fn lemma_ruling_decided(
    reg: RegistryModel,
    module: Seq<Seq<char>>,
    assumed: Map<TypeVar, Set<Seq<char>>>,
    r: Ruling,
    i: int,
) -> (n: nat)
    requires
        forall|k: int|
            0 <= k < r.rules.len() ==> all_decided(
                reg,
                module,
                assumed,
                (#[trigger] r.rules[k]).checks,
            ),
    ensures
        crate::aspects::first_verdict(n, reg, module, assumed, r, i) is Some,
    decreases r.rules.len() - i,
{
    if 0 <= i < r.rules.len() {
        let checks = r.rules[i].checks;
        let a = lemma_checks_decided(reg, module, assumed, checks, 0);
        let b = lemma_ruling_decided(reg, module, assumed, r, i + 1);
        let n = if a <= b {
            b
        } else {
            a
        };
        lemma_holding_stays(a, n, reg, module, assumed, checks, 0);
        lemma_verdict_stays(b, n, reg, module, assumed, r, i + 1);
        n
    } else {
        0
    }
}

/// Whether blanket impls of an aspect, positive or negative, ask only for aspects
/// of a lower rank.
pub open spec fn blankets_lower(
    rank: spec_fn(Seq<char>) -> nat,
    entries: Seq<EntryModel>,
    n: nat,
) -> bool {
    forall|e: int, i: int|
        0 <= e < entries.len() && 0 <= i < entries[e].0.len() + entries[e].1.len() ==> asks_lower(
            rank,
            #[trigger] bounds_of(entries[e], i),
            n,
        )
}

/// The bounds of a blanket impl, those that are wanted before those that are not.
pub open spec fn bounds_of(entry: EntryModel, i: int) -> Seq<BoundModel> {
    if i < entry.0.len() {
        entry.0[i]
    } else {
        entry.1[i - entry.0.len()]
    }
}

/// Whether bounds ask only for aspects of a rank below `n`.
pub open spec fn asks_lower(
    rank: spec_fn(Seq<char>) -> nat,
    bounds: Seq<BoundModel>,
    n: nat,
) -> bool {
    forall|i: int|
        0 <= i < bounds.len() ==> match #[trigger] bounds[i] {
            BoundModel::Aspect(a) => rank(a) < n,
            BoundModel::Row(_) => true,
        }
}

/// Whether the aspects of a program can be ranked: each above those that its
/// blanket impls ask for.
pub open spec fn ranks_aspects(rank: spec_fn(Seq<char>) -> nat, reg: RegistryModel) -> bool {
    forall|aspect: Seq<char>|
        {
            &&& blankets_lower(
                rank,
                #[trigger] crate::table::list_at(reg.bare_neg_impl_bounds, aspect),
                rank(aspect),
            )
            &&& blankets_lower(
                rank,
                crate::table::list_at(reg.bare_impl_bounds, aspect),
                rank(aspect),
            )
        }
}

proof fn lemma_bound_checks(
    rank: spec_fn(Seq<char>) -> nat,
    ty: Term,
    bounds: Seq<BoundModel>,
    wanted: bool,
    n: nat,
)
    ensures
        ({
            let checks = crate::aspects::bound_checks(ty, bounds, wanted);
            forall|j: int|
                0 <= j < checks.len() ==> (#[trigger] checks[j]).ty == ty && (asks_lower(
                    rank,
                    bounds,
                    n,
                ) ==> rank(checks[j].aspect) < n)
        }),
    decreases bounds.len(),
{
    if bounds.len() > 0 {
        lemma_bound_checks(rank, ty, bounds.drop_last(), wanted, n);
        if asks_lower(rank, bounds, n) {
            assert(asks_lower(rank, bounds.drop_last(), n)) by {
                assert forall|i: int| 0 <= i < bounds.len() - 1 implies match #[trigger]
                bounds.drop_last()[i] {
                    BoundModel::Aspect(a) => rank(a) < n,
                    BoundModel::Row(_) => true,
                } by {
                    assert(bounds[i] == bounds.drop_last()[i]);
                }
            }
            assert(bounds[bounds.len() - 1] == bounds.last());
        }
    }
}

/// The questions of a conditional impl are about the type arguments.
proof fn lemma_entry_checks(
    rank: spec_fn(Seq<char>) -> nat,
    args: Seq<Term>,
    entry: EntryModel,
    k: nat,
    n: nat,
)
    requires
        k <= args.len(),
    ensures
        ({
            let checks = crate::aspects::entry_checks(args, entry, k);
            forall|j: int|
                0 <= j < checks.len() ==> args.contains((#[trigger] checks[j]).ty) && (
                blankets_lower(rank, seq![entry], n) ==> rank(checks[j].aspect) < n)
        }),
    decreases k,
{
    if k > 0 {
        let i = k - 1;
        lemma_entry_checks(rank, args, entry, i as nat, n);
        let wanted = crate::aspects::bounds_at(entry.0, i);
        let unwanted = crate::aspects::bounds_at(entry.1, i);
        lemma_bound_checks(rank, args[i], wanted, true, n);
        lemma_bound_checks(rank, args[i], unwanted, false, n);
        if blankets_lower(rank, seq![entry], n) {
            assert(seq![entry][0] == entry);
            if i < entry.0.len() {
                assert(asks_lower(rank, bounds_of(seq![entry][0], i), n));
            }
            if i < entry.1.len() {
                assert(asks_lower(rank, bounds_of(seq![entry][0], entry.0.len() + i), n));
            }
        }
        assert(args.contains(args[i]));
    }
}

/// Every question has an answer where the aspects can be ranked, each above those
/// that its blanket impls ask for. Only blanket impls that ask in circles would
/// leave a question open.
pub proof fn every_question_is_answered(
    rank: spec_fn(Seq<char>) -> nat,
    reg: RegistryModel,
    module: Seq<Seq<char>>,
    assumed: Map<TypeVar, Set<Seq<char>>>,
    t: Term,
    aspect: Seq<char>,
)
    requires
        ranks_aspects(rank, reg),
    ensures
        crate::aspects::decided(reg, module, assumed, t, aspect),
    decreases t, rank(aspect),
{
    let r = crate::aspects::ruling(reg, module, t, aspect, assumed);
    assert forall|k: int| 0 <= k < r.rules.len() implies all_decided(
        reg,
        module,
        assumed,
        (#[trigger] r.rules[k]).checks,
    ) by {
        let checks = r.rules[k].checks;
        let neg = crate::table::list_at(reg.bare_neg_impl_bounds, aspect);
        let pos = crate::table::list_at(reg.bare_impl_bounds, aspect);
        assert(blankets_lower(rank, neg, rank(aspect)));
        assert(blankets_lower(rank, pos, rank(aspect)));
        let denied = crate::aspects::denials(reg, module, t, aspect);
        let blanket = k < neg.len() || neg.len() + denied.len() <= k < neg.len() + denied.len()
            + pos.len();
        if t.head is Var {
        } else if blanket {
            let entries = if k < neg.len() {
                neg
            } else {
                pos
            };
            let at = if k < neg.len() {
                k
            } else {
                k - neg.len() - denied.len()
            };
            let entry = entries[at];
            assert(blankets_lower(rank, seq![entry], rank(aspect))) by {
                assert forall|e: int, i: int|
                    0 <= e < seq![entry].len() && 0 <= i < seq![entry][e].0.len()
                        + seq![entry][e].1.len() implies asks_lower(
                    rank,
                    #[trigger] bounds_of(seq![entry][e], i),
                    rank(aspect),
                ) by {
                    assert(bounds_of(entries[at], i) == bounds_of(seq![entry][e], i));
                }
            }
            lemma_entry_checks(rank, seq![t], entry, 1, rank(aspect));
            assert(checks == crate::aspects::entry_checks(seq![t], entry, 1));
            assert forall|j: int| 0 <= j < checks.len() implies crate::aspects::decided(
                reg,
                module,
                assumed,
                (#[trigger] checks[j]).ty,
                checks[j].aspect,
            ) by {
                assert(seq![t].contains(checks[j].ty));
                assert(checks[j].ty == t);
                every_question_is_answered(rank, reg, module, assumed, t, checks[j].aspect);
            }
        } else {
            let own = crate::aspects::structural_ruling(reg, module, t, aspect);
            if k < neg.len() + denied.len() {
                assert(denied[k - neg.len()] == r.rules[k]);
                lemma_denial_checks(rank, reg, module, t, aspect, k - neg.len());
            } else {
                let at = k - neg.len() - denied.len() - pos.len();
                assert(own.rules[at] == r.rules[k]);
                lemma_own_checks(rank, reg, module, t, aspect, at);
            }
            assert forall|j: int| 0 <= j < checks.len() implies crate::aspects::decided(
                reg,
                module,
                assumed,
                (#[trigger] checks[j]).ty,
                checks[j].aspect,
            ) by {
                assert(t.args.contains(checks[j].ty));
                let i = choose|i: int| 0 <= i < t.args.len() && t.args[i] == checks[j].ty;
                every_question_is_answered(
                    rank,
                    reg,
                    module,
                    assumed,
                    t.args[i],
                    checks[j].aspect,
                );
            }
        }
    }
    let n = lemma_ruling_decided(reg, module, assumed, r, 0);
    assert(crate::aspects::satisfied_at(n + 1, reg, module, assumed, t, aspect) is Some);
}

/// The rules that a type's own structure makes ask about its components only.
proof fn lemma_own_checks(
    rank: spec_fn(Seq<char>) -> nat,
    reg: RegistryModel,
    module: Seq<Seq<char>>,
    t: Term,
    aspect: Seq<char>,
    k: int,
)
    requires
        0 <= k < crate::aspects::structural_ruling(reg, module, t, aspect).rules.len(),
    ensures
        ({
            let checks = crate::aspects::structural_ruling(reg, module, t, aspect).rules[k].checks;
            forall|j: int| 0 <= j < checks.len() ==> t.args.contains((#[trigger] checks[j]).ty)
        }),
{
    let checks = crate::aspects::structural_ruling(reg, module, t, aspect).rules[k].checks;
    match t.head {
        Head::Array => {
            let pos = crate::table::list_at(reg.array_impl_bounds, aspect);
            lemma_entry_checks(rank, t.args, pos[k], t.args.len(), 0);
        },
        Head::Named(name, _) => {
            let id = crate::resolve::resolved(reg, module, name)->Some_0;
            let pos = crate::table::list_at(reg.conditional_impl_bounds, (id, aspect));
            lemma_entry_checks(rank, t.args, pos[k], t.args.len(), 0);
        },
        _ => {
            assert forall|j: int| 0 <= j < checks.len() implies t.args.contains(
                (#[trigger] checks[j]).ty,
            ) by {
                assert(checks[j].ty == t.args[j]);
            }
        },
    }
}

/// The negative impls for a type's own head ask about its components only.
proof fn lemma_denial_checks(
    rank: spec_fn(Seq<char>) -> nat,
    reg: RegistryModel,
    module: Seq<Seq<char>>,
    t: Term,
    aspect: Seq<char>,
    k: int,
)
    requires
        0 <= k < crate::aspects::denials(reg, module, t, aspect).len(),
    ensures
        ({
            let checks = crate::aspects::denials(reg, module, t, aspect)[k].checks;
            forall|j: int| 0 <= j < checks.len() ==> t.args.contains((#[trigger] checks[j]).ty)
        }),
{
    match t.head {
        Head::Array => {
            let neg = crate::table::list_at(reg.array_neg_impl_bounds, aspect);
            lemma_entry_checks(rank, t.args, neg[k], t.args.len(), 0);
        },
        Head::Named(name, _) => {
            let id = crate::resolve::resolved(reg, module, name)->Some_0;
            let neg = crate::table::list_at(reg.neg_conditional_impl_bounds, (id, aspect));
            if k < neg.len() {
                lemma_entry_checks(rank, t.args, neg[k], t.args.len(), 0);
            }
        },
        Head::Concrete(c) => {
            let name = crate::aspects::primitive_name(c.head)->Some_0;
            let id = crate::resolve::resolved(reg, module, name)->Some_0;
            let neg = crate::table::list_at(reg.neg_conditional_impl_bounds, (id, aspect));
            if k < neg.len() {
                lemma_entry_checks(rank, Seq::empty(), neg[k], 0, 0);
            }
        },
        _ => {},
    }
}

/// Whether no blanket impl, positive or negative, speaks of an aspect.
pub open spec fn unblanketed(reg: RegistryModel, aspect: Seq<char>) -> bool {
    &&& crate::table::list_at(reg.bare_neg_impl_bounds, aspect).len() == 0
    &&& crate::table::list_at(reg.bare_impl_bounds, aspect).len() == 0
}

proof fn lemma_no_rules(
    reg: RegistryModel,
    module: Seq<Seq<char>>,
    assumed: Map<TypeVar, Set<Seq<char>>>,
    t: Term,
    aspect: Seq<char>,
)
    requires
        crate::aspects::ruling(reg, module, t, aspect, assumed).rules.len() == 0,
    ensures
        crate::aspects::decided(reg, module, assumed, t, aspect),
        crate::aspects::satisfied(reg, module, assumed, t, aspect) == crate::aspects::ruling(
            reg,
            module,
            t,
            aspect,
            assumed,
        ).otherwise,
{
    let r = crate::aspects::ruling(reg, module, t, aspect, assumed);
    assert(crate::aspects::first_verdict(0, reg, module, assumed, r, 0) == Some(r.otherwise));
    assert(crate::aspects::satisfied_at(1, reg, module, assumed, t, aspect) == Some(r.otherwise));
    answers_are_unique(1, reg, module, assumed, t, aspect);
}

/// What the questions of one rule come to, where the questions are whether the components
/// of a type have an aspect.
proof fn lemma_held(
    n: nat,
    reg: RegistryModel,
    module: Seq<Seq<char>>,
    assumed: Map<TypeVar, Set<Seq<char>>>,
    checks: Seq<Check>,
    j: int,
)
    requires
        0 <= j,
        crate::aspects::all_hold(n, reg, module, assumed, checks, j) is Some,
    ensures
        crate::aspects::all_hold(n, reg, module, assumed, checks, j) == Some(
            forall|k: int|
                j <= k < checks.len() ==> crate::aspects::satisfied(
                    reg,
                    module,
                    assumed,
                    (#[trigger] checks[k]).ty,
                    checks[k].aspect,
                ) == checks[k].wanted,
        ),
    decreases checks.len() - j,
{
    if j < checks.len() {
        answers_are_unique(n, reg, module, assumed, checks[j].ty, checks[j].aspect);
        if crate::aspects::satisfied(reg, module, assumed, checks[j].ty, checks[j].aspect)
            == checks[j].wanted {
            lemma_held(n, reg, module, assumed, checks, j + 1);
        }
    }
}

proof fn lemma_one_rule(
    reg: RegistryModel,
    module: Seq<Seq<char>>,
    assumed: Map<TypeVar, Set<Seq<char>>>,
    t: Term,
    aspect: Seq<char>,
)
    requires
        ({
            let r = crate::aspects::ruling(reg, module, t, aspect, assumed);
            &&& r.rules.len() == 1
            &&& r.rules[0].verdict
            &&& !r.otherwise
            &&& r.rules[0].checks == Seq::new(
                t.args.len(),
                |i: int| Check { ty: t.args[i], aspect, wanted: true },
            )
        }),
        forall|i: int|
            0 <= i < t.args.len() ==> crate::aspects::decided(
                reg,
                module,
                assumed,
                #[trigger] t.args[i],
                aspect,
            ),
    ensures
        crate::aspects::decided(reg, module, assumed, t, aspect),
        crate::aspects::satisfied(reg, module, assumed, t, aspect) == all_satisfied(
            reg,
            module,
            assumed,
            t.args,
            aspect,
        ),
{
    let r = crate::aspects::ruling(reg, module, t, aspect, assumed);
    let checks = r.rules[0].checks;
    assert forall|j: int| 0 <= j < checks.len() implies crate::aspects::decided(
        reg,
        module,
        assumed,
        (#[trigger] checks[j]).ty,
        checks[j].aspect,
    ) by {
        assert(crate::aspects::decided(reg, module, assumed, t.args[j], aspect));
    }
    let n = lemma_checks_decided(reg, module, assumed, checks, 0);
    lemma_held(n, reg, module, assumed, checks, 0);
    let all = all_satisfied(reg, module, assumed, t.args, aspect);
    if all {
        assert forall|k: int| 0 <= k < checks.len() implies crate::aspects::satisfied(
            reg,
            module,
            assumed,
            (#[trigger] checks[k]).ty,
            checks[k].aspect,
        ) == checks[k].wanted by {
            assert(crate::aspects::satisfied(reg, module, assumed, t.args[k], aspect));
        }
    } else {
        let k = choose|k: int|
            0 <= k < t.args.len() && !crate::aspects::satisfied(
                reg,
                module,
                assumed,
                #[trigger] t.args[k],
                aspect,
            );
        assert(checks[k].ty == t.args[k]);
    }
    assert(crate::aspects::first_verdict(n, reg, module, assumed, r, 1) == Some(false));
    assert(crate::aspects::first_verdict(n, reg, module, assumed, r, 0) == Some(all));
    assert(crate::aspects::satisfied_at(n + 1, reg, module, assumed, t, aspect) == Some(all));
    answers_are_unique(n + 1, reg, module, assumed, t, aspect);
}

/// Whether all types of a list have an aspect.
pub open spec fn all_satisfied(
    reg: RegistryModel,
    module: Seq<Seq<char>>,
    assumed: Map<TypeVar, Set<Seq<char>>>,
    ts: Seq<Term>,
    aspect: Seq<char>,
) -> bool {
    forall|i: int|
        0 <= i < ts.len() ==> crate::aspects::satisfied(
            reg,
            module,
            assumed,
            #[trigger] ts[i],
            aspect,
        )
}

/// A shared reference is copied, whatever it refers to, unless a blanket impl denies it.
pub proof fn references_are_copied(
    reg: RegistryModel,
    module: Seq<Seq<char>>,
    assumed: Map<TypeVar, Set<Seq<char>>>,
    t: Term,
)
    requires
        crate::table::list_at(reg.bare_neg_impl_bounds, "Copy"@).len() == 0,
    ensures
        ({
            let r = Term { head: Head::Reference, args: seq![t] };
            &&& crate::aspects::decided(reg, module, assumed, r, "Copy"@)
                ==> crate::aspects::satisfied(reg, module, assumed, r, "Copy"@)
            &&& unblanketed(reg, "Copy"@) ==> crate::aspects::decided(
                reg,
                module,
                assumed,
                r,
                "Copy"@,
            )
        }),
{
    let r = Term { head: Head::Reference, args: seq![t] };
    let ruling = crate::aspects::ruling(reg, module, r, "Copy"@, assumed);
    if unblanketed(reg, "Copy"@) {
        lemma_no_rules(reg, module, assumed, r, "Copy"@);
    }
    if crate::aspects::decided(reg, module, assumed, r, "Copy"@) {
        let n = choose|n: nat| #[trigger]
            crate::aspects::satisfied_at(n, reg, module, assumed, r, "Copy"@) is Some;
        let granted = crate::aspects::entry_rules(
            crate::table::list_at(reg.bare_impl_bounds, "Copy"@),
            seq![r],
            true,
        );
        assert(ruling.rules =~= granted);
        lemma_only_granted((n - 1) as nat, reg, module, assumed, ruling, 0);
        assert(crate::aspects::satisfied_at(n, reg, module, assumed, r, "Copy"@)
            == crate::aspects::first_verdict((n - 1) as nat, reg, module, assumed, ruling, 0));
        answers_are_unique(n, reg, module, assumed, r, "Copy"@);
    }
}

/// Rules that only grant give no other answer.
proof fn lemma_only_granted(
    n: nat,
    reg: RegistryModel,
    module: Seq<Seq<char>>,
    assumed: Map<TypeVar, Set<Seq<char>>>,
    r: Ruling,
    i: int,
)
    requires
        0 <= i,
        r.otherwise,
        forall|k: int| 0 <= k < r.rules.len() ==> (#[trigger] r.rules[k]).verdict,
    ensures
        crate::aspects::first_verdict(n, reg, module, assumed, r, i) != Some(false),
    decreases r.rules.len() - i,
{
    if i < r.rules.len() {
        lemma_only_granted(n, reg, module, assumed, r, i + 1);
    }
}

/// Where no blanket impl speaks of an aspect, the shape of a type decides it. Exclusive
/// references have none. Shared references, and arrays of any length, are copied and
/// references have nothing else. Functions are copied if they may be used again, and
/// shared between threads unless calls change their state. What is known of an object
/// is its own aspect.
pub proof fn shapes_decide_aspects(
    reg: RegistryModel,
    module: Seq<Seq<char>>,
    assumed: Map<TypeVar, Set<Seq<char>>>,
    t: Term,
    aspect: Seq<char>,
)
    requires
        unblanketed(reg, aspect),
        t.head is Reference || t.head is MutReference || t.head is Fun || t.head is Dyn || (
        t.head is Array && aspect == "Copy"@),
    ensures
        crate::aspects::decided(reg, module, assumed, t, aspect),
        ({
            let holds = crate::aspects::satisfied(reg, module, assumed, t, aspect);
            match t.head {
                Head::MutReference => !holds,
                Head::Reference => holds <==> aspect == "Copy"@,
                Head::Array => holds,
                Head::Fun(_, us, mutation) => {
                    &&& aspect == "Copy"@ ==> (holds <==> us is Copy)
                    &&& aspect == "Sync"@ ==> (holds <==> !(mutation is Mutating))
                    &&& holds ==> aspect == "Copy"@ || aspect == "Sync"@
                },
                Head::Dyn(own) => holds <==> aspect == own,
                _ => true,
            }
        }),
{
    reveal_strlit("Copy");
    reveal_strlit("Sync");
    assert("Copy"@[0] != "Sync"@[0]);
    lemma_no_rules(reg, module, assumed, t, aspect);
}

/// A tuple and an array of known length are copied exactly if all their components are. A
/// record, and what is left of one, is sent or shared between threads exactly if all its
/// fields are. They have no other aspects.
pub proof fn components_decide_aspects(
    reg: RegistryModel,
    module: Seq<Seq<char>>,
    assumed: Map<TypeVar, Set<Seq<char>>>,
    t: Term,
    aspect: Seq<char>,
)
    requires
        unblanketed(reg, aspect),
        forall|i: int|
            0 <= i < t.args.len() ==> crate::aspects::decided(
                reg,
                module,
                assumed,
                #[trigger] t.args[i],
                aspect,
            ),
    ensures
        ({
            let decided = crate::aspects::decided(reg, module, assumed, t, aspect);
            let holds = crate::aspects::satisfied(reg, module, assumed, t, aspect);
            let all = all_satisfied(reg, module, assumed, t.args, aspect);
            match t.head {
                Head::Tuple => decided && (holds <==> aspect == "Copy"@ && all),
                Head::SizedArray(_) => decided && (holds <==> aspect == "Copy"@ && all),
                Head::Record(_) => decided && (holds <==> (aspect == "Send"@ || aspect == "Sync"@)
                    && all),
                Head::Residual(_, _) => decided && (holds <==> (aspect == "Send"@ || aspect
                    == "Sync"@) && all),
                _ => true,
            }
        }),
{
    let r = crate::aspects::ruling(reg, module, t, aspect, assumed);
    let by_components = match t.head {
        Head::Tuple => aspect == "Copy"@,
        Head::SizedArray(_) => aspect == "Copy"@,
        Head::Record(_) => aspect == "Send"@ || aspect == "Sync"@,
        Head::Residual(_, _) => aspect == "Send"@ || aspect == "Sync"@,
        _ => false,
    };
    if t.head is Tuple || t.head is SizedArray || t.head is Record || t.head is Residual {
        if by_components {
            assert(r.rules[0] == crate::aspects::all_have(t.args, aspect)[0]);
            lemma_one_rule(reg, module, assumed, t, aspect);
        } else {
            lemma_no_rules(reg, module, assumed, t, aspect);
        }
    }
}

/// The name of a primitive type in a program.
pub open spec fn primitive_names(h: Head) -> Seq<char> {
    match h {
        Head::Str => "String"@,
        Head::Boolean => "boolean"@,
        Head::Char => "Char"@,
        Head::I8 => "i8"@,
        Head::I16 => "i16"@,
        Head::I32 => "i32"@,
        Head::I64 => "i64"@,
        Head::U8 => "u8"@,
        Head::U16 => "u16"@,
        Head::U32 => "u32"@,
        Head::U64 => "u64"@,
        Head::F32 => "f32"@,
        _ => "f64"@,
    }
}

/// A primitive type has the aspects that impls give to its name, and no other, unless a
/// negative impl for that name denies them.
pub proof fn primitives_have_what_their_names_have(
    reg: RegistryModel,
    module: Seq<Seq<char>>,
    assumed: Map<TypeVar, Set<Seq<char>>>,
    h: Head,
    id: SymbolId,
    aspect: Seq<char>,
)
    requires
        unblanketed(reg, aspect),
        h is Str || h is Boolean || h is Char || h is I8 || h is I16 || h is I32 || h is I64 || h
            is U8 || h is U16 || h is U32 || h is U64 || h is F32 || h is F64,
        crate::resolve::resolved(reg, module, primitive_names(h)) == Some(id),
        crate::table::list_at(reg.neg_conditional_impl_bounds, (id, aspect)).len() == 0,
        crate::table::list_at(reg.neg_impl_env, (id, aspect)).len() == 0,
    ensures
        ({
            let t = crate::term::concrete(Term { head: h, args: Seq::empty() });
            &&& crate::aspects::decided(reg, module, assumed, t, aspect)
            &&& crate::aspects::satisfied(reg, module, assumed, t, aspect)
                <==> reg.impl_aspect_env.dom().contains((id, aspect))
        }),
{
    let t = crate::term::concrete(Term { head: h, args: Seq::empty() });
    lemma_no_rules(reg, module, assumed, t, aspect);
}

proof fn lemma_first_rule(
    reg: RegistryModel,
    module: Seq<Seq<char>>,
    assumed: Map<TypeVar, Set<Seq<char>>>,
    t: Term,
    aspect: Seq<char>,
)
    requires
        crate::aspects::ruling(reg, module, t, aspect, assumed).rules.len() > 0,
        crate::aspects::ruling(reg, module, t, aspect, assumed).rules[0].checks.len() == 0,
    ensures
        crate::aspects::decided(reg, module, assumed, t, aspect),
        crate::aspects::satisfied(reg, module, assumed, t, aspect) == crate::aspects::ruling(
            reg,
            module,
            t,
            aspect,
            assumed,
        ).rules[0].verdict,
{
    let r = crate::aspects::ruling(reg, module, t, aspect, assumed);
    assert(crate::aspects::all_hold(0, reg, module, assumed, r.rules[0].checks, 0) == Some(true));
    assert(crate::aspects::first_verdict(0, reg, module, assumed, r, 0) == Some(
        r.rules[0].verdict,
    ));
    assert(crate::aspects::satisfied_at(1, reg, module, assumed, t, aspect) == Some(
        r.rules[0].verdict,
    ));
    answers_are_unique(1, reg, module, assumed, t, aspect);
}

/// Whether an impl asks for nothing.
pub open spec fn unconditional(entry: EntryModel) -> bool {
    entry.0.len() == 0 && entry.1.len() == 0
}

proof fn lemma_no_checks(args: Seq<Term>, entry: EntryModel, k: nat)
    requires
        unconditional(entry),
    ensures
        crate::aspects::entry_checks(args, entry, k).len() == 0,
    decreases k,
{
    if k > 0 {
        lemma_no_checks(args, entry, (k - 1) as nat);
    }
}

/// An array has an aspect other than that of being copied exactly if there is an impl for arrays:
/// one without conditions grants it, a negative one without conditions denies it, and without any
/// it is not had.
pub proof fn arrays_have_what_their_impls_give(
    reg: RegistryModel,
    module: Seq<Seq<char>>,
    assumed: Map<TypeVar, Set<Seq<char>>>,
    t: Term,
    aspect: Seq<char>,
)
    requires
        unblanketed(reg, aspect),
        aspect != "Copy"@,
    ensures
        ({
            let array = Term { head: Head::Array, args: seq![t] };
            let impls = crate::table::list_at(reg.array_impl_bounds, aspect);
            let denials = crate::table::list_at(reg.array_neg_impl_bounds, aspect);
            let holds = crate::aspects::satisfied(reg, module, assumed, array, aspect);
            &&& impls.len() == 0 && denials.len() == 0 ==> !holds
            &&& denials.len() == 0 && impls.len() > 0 && unconditional(impls[0]) ==> holds
            &&& denials.len() > 0 && unconditional(denials[0]) ==> !holds
        }),
{
    let array = Term { head: Head::Array, args: seq![t] };
    let impls = crate::table::list_at(reg.array_impl_bounds, aspect);
    let denials = crate::table::list_at(reg.array_neg_impl_bounds, aspect);
    let r = crate::aspects::ruling(reg, module, array, aspect, assumed);
    if impls.len() == 0 && denials.len() == 0 {
        lemma_no_rules(reg, module, assumed, array, aspect);
    }
    if denials.len() > 0 && unconditional(denials[0]) {
        lemma_no_checks(array.args, denials[0], 1);
        assert(r.rules[0] == crate::aspects::entry_rules(denials, array.args, false)[0]);
        lemma_first_rule(reg, module, assumed, array, aspect);
    }
    if denials.len() == 0 && impls.len() > 0 && unconditional(impls[0]) {
        lemma_no_checks(array.args, impls[0], 1);
        assert(r.rules[0] == crate::aspects::entry_rules(impls, array.args, true)[0]);
        lemma_first_rule(reg, module, assumed, array, aspect);
    }
}

/// A blanket impl without conditions gives an aspect to every type that nothing denies it, and a
/// negative one denies it to every type. Only placeholders that are known to have an aspect, and
/// variables that are assumed to, have it nevertheless.
pub proof fn blanket_impls_count_for_every_type(
    reg: RegistryModel,
    module: Seq<Seq<char>>,
    assumed: Map<TypeVar, Set<Seq<char>>>,
    t: Term,
    aspect: Seq<char>,
)
    requires
        !(t.head is Var),
    ensures
        ({
            let grants = crate::table::list_at(reg.bare_impl_bounds, aspect);
            let denials = crate::table::list_at(reg.bare_neg_impl_bounds, aspect);
            let holds = crate::aspects::satisfied(reg, module, assumed, t, aspect);
            let placeholder = t.head is Named && t.args.len() == 0
                && reg.symbolic_named_aspects.dom().contains(t.head->Named_0)
                && reg.symbolic_named_aspects[t.head->Named_0].contains(aspect);
            let own = t.head is Named || t.head is Concrete || t.head is Array;
            &&& placeholder ==> holds
            &&& !placeholder && denials.len() > 0 && unconditional(denials[0]) ==> !holds
            &&& !own && denials.len() == 0 && grants.len() > 0 && unconditional(grants[0]) ==> holds
        }),
{
    let grants = crate::table::list_at(reg.bare_impl_bounds, aspect);
    let denials = crate::table::list_at(reg.bare_neg_impl_bounds, aspect);
    let placeholder = t.head is Named && t.args.len() == 0
        && reg.symbolic_named_aspects.dom().contains(t.head->Named_0)
        && reg.symbolic_named_aspects[t.head->Named_0].contains(aspect);
    let own = t.head is Named || t.head is Concrete || t.head is Array;
    let r = crate::aspects::ruling(reg, module, t, aspect, assumed);
    if placeholder {
        lemma_no_rules(reg, module, assumed, t, aspect);
    } else if denials.len() > 0 && unconditional(denials[0]) {
        lemma_no_checks(seq![t], denials[0], 1);
        assert(r.rules[0] == crate::aspects::entry_rules(denials, seq![t], false)[0]);
        lemma_first_rule(reg, module, assumed, t, aspect);
    } else if !own && denials.len() == 0 && grants.len() > 0 && unconditional(grants[0]) {
        lemma_no_checks(seq![t], grants[0], 1);
        assert(r.rules[0] == crate::aspects::entry_rules(grants, seq![t], true)[0]);
        lemma_first_rule(reg, module, assumed, t, aspect);
    }
}

/// Whether a type has, or lacks, all aspects that bounds name.
pub open spec fn meets(
    reg: RegistryModel,
    module: Seq<Seq<char>>,
    assumed: Map<TypeVar, Set<Seq<char>>>,
    ty: Term,
    bounds: Seq<BoundModel>,
    wanted: bool,
) -> bool {
    forall|j: int|
        0 <= j < bounds.len() ==> match #[trigger] bounds[j] {
            BoundModel::Aspect(a) => crate::aspects::satisfied(reg, module, assumed, ty, a)
                == wanted,
            BoundModel::Row(_) => true,
        }
}

/// Whether the first `k` type arguments have what an impl asks of them, and lack what it must not
/// find.
pub open spec fn meets_all(
    reg: RegistryModel,
    module: Seq<Seq<char>>,
    assumed: Map<TypeVar, Set<Seq<char>>>,
    args: Seq<Term>,
    entry: EntryModel,
    k: nat,
) -> bool {
    forall|i: int|
        0 <= i < k ==> (i < entry.0.len() ==> meets(
            reg,
            module,
            assumed,
            #[trigger] args[i],
            entry.0[i],
            true,
        )) && (i < entry.1.len() ==> meets(reg, module, assumed, args[i], entry.1[i], false))
}

/// Whether all questions of a list are answered as wanted.
spec fn holding(
    reg: RegistryModel,
    module: Seq<Seq<char>>,
    assumed: Map<TypeVar, Set<Seq<char>>>,
    checks: Seq<Check>,
) -> bool {
    forall|k: int|
        0 <= k < checks.len() ==> crate::aspects::satisfied(
            reg,
            module,
            assumed,
            (#[trigger] checks[k]).ty,
            checks[k].aspect,
        ) == checks[k].wanted
}

proof fn lemma_holding_joined(
    reg: RegistryModel,
    module: Seq<Seq<char>>,
    assumed: Map<TypeVar, Set<Seq<char>>>,
    a: Seq<Check>,
    b: Seq<Check>,
)
    ensures
        holding(reg, module, assumed, a + b) <==> holding(reg, module, assumed, a) && holding(
            reg,
            module,
            assumed,
            b,
        ),
{
    let all = a + b;
    if holding(reg, module, assumed, all) {
        assert forall|k: int| 0 <= k < a.len() implies crate::aspects::satisfied(
            reg,
            module,
            assumed,
            (#[trigger] a[k]).ty,
            a[k].aspect,
        ) == a[k].wanted by {
            assert(all[k] == a[k]);
        }
        assert forall|k: int| 0 <= k < b.len() implies crate::aspects::satisfied(
            reg,
            module,
            assumed,
            (#[trigger] b[k]).ty,
            b[k].aspect,
        ) == b[k].wanted by {
            assert(all[a.len() + k] == b[k]);
        }
    }
}

proof fn lemma_bounds_met(
    reg: RegistryModel,
    module: Seq<Seq<char>>,
    assumed: Map<TypeVar, Set<Seq<char>>>,
    ty: Term,
    bounds: Seq<BoundModel>,
    wanted: bool,
)
    ensures
        holding(reg, module, assumed, crate::aspects::bound_checks(ty, bounds, wanted)) <==> meets(
            reg,
            module,
            assumed,
            ty,
            bounds,
            wanted,
        ),
    decreases bounds.len(),
{
    if bounds.len() > 0 {
        let front = bounds.drop_last();
        lemma_bounds_met(reg, module, assumed, ty, front, wanted);
        let prev = crate::aspects::bound_checks(ty, front, wanted);
        let all = crate::aspects::bound_checks(ty, bounds, wanted);
        let last = bounds[bounds.len() - 1];
        assert(last == bounds.last());
        if let BoundModel::Aspect(aspect) = last {
            let one = seq![Check { ty, aspect, wanted }];
            assert(all =~= prev + one);
            lemma_holding_joined(reg, module, assumed, prev, one);
            assert(one[0].aspect == aspect);
            assert(holding(reg, module, assumed, one) <==> crate::aspects::satisfied(
                reg,
                module,
                assumed,
                ty,
                aspect,
            ) == wanted) by {
                assert(one[0].ty == ty);
            }
        }
        if meets(reg, module, assumed, ty, bounds, wanted) {
            assert forall|j: int| 0 <= j < front.len() implies match #[trigger] front[j] {
                BoundModel::Aspect(a) => crate::aspects::satisfied(reg, module, assumed, ty, a)
                    == wanted,
                BoundModel::Row(_) => true,
            } by {
                assert(bounds[j] == front[j]);
            }
        }
        if meets(reg, module, assumed, ty, front, wanted) {
            assert forall|j: int| 0 <= j < bounds.len() - 1 implies match #[trigger] bounds[j] {
                BoundModel::Aspect(a) => crate::aspects::satisfied(reg, module, assumed, ty, a)
                    == wanted,
                BoundModel::Row(_) => true,
            } by {
                assert(bounds[j] == front[j]);
            }
        }
    }
}

proof fn lemma_entry_met(
    reg: RegistryModel,
    module: Seq<Seq<char>>,
    assumed: Map<TypeVar, Set<Seq<char>>>,
    args: Seq<Term>,
    entry: EntryModel,
    k: nat,
)
    requires
        k <= args.len(),
    ensures
        holding(reg, module, assumed, crate::aspects::entry_checks(args, entry, k)) <==> meets_all(
            reg,
            module,
            assumed,
            args,
            entry,
            k,
        ),
    decreases k,
{
    if k > 0 {
        let i = k - 1;
        lemma_entry_met(reg, module, assumed, args, entry, i as nat);
        let prev = crate::aspects::entry_checks(args, entry, i as nat);
        let wanted = crate::aspects::bounds_at(entry.0, i);
        let unwanted = crate::aspects::bounds_at(entry.1, i);
        let a = crate::aspects::bound_checks(args[i], wanted, true);
        let b = crate::aspects::bound_checks(args[i], unwanted, false);
        lemma_bounds_met(reg, module, assumed, args[i], wanted, true);
        lemma_bounds_met(reg, module, assumed, args[i], unwanted, false);
        lemma_holding_joined(reg, module, assumed, prev, a);
        lemma_holding_joined(reg, module, assumed, prev + a, b);
    }
}

/// A conditional impl gives a type its aspect exactly if its type arguments meet all conditions:
/// each has every aspect that is asked of it, and none that it must not have.
pub proof fn conditional_impls_ask_every_bound(
    reg: RegistryModel,
    module: Seq<Seq<char>>,
    assumed: Map<TypeVar, Set<Seq<char>>>,
    name: Seq<char>,
    id: SymbolId,
    args: Seq<Term>,
    aspect: Seq<char>,
    entry: EntryModel,
)
    requires
        unblanketed(reg, aspect),
        crate::resolve::resolved(reg, module, name) == Some(id),
        crate::table::list_at(reg.neg_conditional_impl_bounds, (id, aspect)).len() == 0,
        crate::table::list_at(reg.neg_impl_env, (id, aspect)).len() == 0,
        !reg.impl_aspect_env.dom().contains((id, aspect)),
        crate::table::list_at(reg.conditional_impl_bounds, (id, aspect)) == seq![entry],
        !(args.len() == 0 && reg.symbolic_named_aspects.contains_key(name)),
        crate::aspects::decided(
            reg,
            module,
            assumed,
            Term { head: Head::Named(name, None), args },
            aspect,
        ),
    ensures
        crate::aspects::satisfied(
            reg,
            module,
            assumed,
            Term { head: Head::Named(name, None), args },
            aspect,
        ) <==> meets_all(reg, module, assumed, args, entry, args.len()),
{
    let t = Term { head: Head::Named(name, None), args };
    let r = crate::aspects::ruling(reg, module, t, aspect, assumed);
    let checks = crate::aspects::entry_checks(args, entry, args.len());
    assert(seq![entry][0] == entry);
    assert(r.rules.len() == 1);
    assert(r.rules[0].checks == checks && r.rules[0].verdict && !r.otherwise);
    let n = choose|n: nat| #[trigger]
        crate::aspects::satisfied_at(n, reg, module, assumed, t, aspect) is Some;
    let k = (n - 1) as nat;
    assert(crate::aspects::satisfied_at(n, reg, module, assumed, t, aspect)
        == crate::aspects::first_verdict(k, reg, module, assumed, r, 0));
    assert(crate::aspects::first_verdict(k, reg, module, assumed, r, 1) == Some(false));
    assert(crate::aspects::all_hold(k, reg, module, assumed, checks, 0) is Some);
    lemma_held(k, reg, module, assumed, checks, 0);
    lemma_entry_met(reg, module, assumed, args, entry, args.len());
    answers_are_unique(n, reg, module, assumed, t, aspect);
    assert(crate::aspects::all_hold(k, reg, module, assumed, checks, 0) == Some(
        holding(reg, module, assumed, checks),
    ));
}

/// A resolved type is taken over into inference in its shape: composite types with their
/// components taken over, primitive types as they are, and named types without their identity.
pub proof fn resolved_types_keep_their_shape(t: Term)
    ensures
        ({
            let r = crate::aspects::embedded(t);
            let primitive = t.head is Str || t.head is Boolean || t.head is Char || t.head is Unit
                || t.head is I8 || t.head is I16 || t.head is I32 || t.head is I64 || t.head is U8
                || t.head is U16 || t.head is U32 || t.head is U64 || t.head is F32
                || t.head is F64;
            let composite = t.head is Array || t.head is SizedArray || t.head is Tuple
                || t.head is Record || t.head is Reference || t.head is MutReference
                || t.head is Fun || t.head is Named;
            &&& primitive ==> r == crate::term::concrete(t)
            &&& t.head is Never ==> r == t
            &&& composite ==> r.args.len() == t.args.len() && forall|i: int|
                0 <= i < t.args.len() ==> #[trigger] r.args[i] == crate::aspects::embedded(
                    t.args[i],
                )
            &&& composite && !(t.head is Named) ==> r.head == t.head
            &&& t.head is Named ==> r.head == Head::Named(t.head->Named_0, None)
        }),
{
}

} // verus!
