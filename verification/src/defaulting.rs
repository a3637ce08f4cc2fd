//! Default types for numeric literals that nothing else decides.

use crate::data::Dup;
use crate::infer_type::InferType;
use crate::substitution::Substitution;
use crate::table::KeySet;
use crate::term::{Head, Term, TypeVar};
use vstd::prelude::*;

verus! {

/// The type of an integer literal that nothing else decides.
pub open spec fn default_integer() -> Term {
    crate::term::concrete(crate::term::leaf(Head::I64))
}

/// The type of a float literal that nothing else decides.
pub open spec fn default_float() -> Term {
    crate::term::concrete(crate::term::leaf(Head::F64))
}

/// Whether a variable of a set stands for an unknown type.
pub open spec fn stands_for(m: Map<TypeVar, Term>, vars: Set<TypeVar>, w: TypeVar) -> bool {
    exists|v: TypeVar| #[trigger]
        vars.contains(v) && crate::constraints::value_of(m, v) == crate::term::var(w)
}

/// The default types: `i64` for what integer literals stand for, `f64` for what
/// only float literals stand for.
pub open spec fn defaults(
    m: Map<TypeVar, Term>,
    ints: Set<TypeVar>,
    floats: Set<TypeVar>,
) -> Map<TypeVar, Term> {
    Map::new(
        |w: TypeVar| stands_for(m, ints, w) || stands_for(m, floats, w),
        |w: TypeVar|
            if stands_for(m, ints, w) {
                default_integer()
            } else {
                default_float()
            },
    )
}

/// Whether bindings extend others by defaults: every type comes out as it did,
/// with the defaults put in.
pub open spec fn extends_by(
    m: Map<TypeVar, Term>,
    d: Map<TypeVar, Term>,
    r: Map<TypeVar, Term>,
) -> bool {
    forall|t: Term| #[trigger]
        crate::subst_model::applies(m, t) ==> crate::subst_model::applies(r, t)
            && crate::subst_model::apply(r, t) == crate::subst_model::subst(
            d,
            crate::subst_model::apply(m, t),
        )
}

/// A variable that a type comes out as is not bound.
proof fn lemma_result_unbound(m: Map<TypeVar, Term>, t: Term, n: nat, f: TypeVar)
    requires
        crate::subst_model::settles(m, t, n),
        crate::subst_model::subst_at(m, t, n).head == Head::Var(f),
    ensures
        !m.contains_key(f),
    decreases n,
{
    if let Head::Var(v) = t.head {
        if m.contains_key(v) {
            lemma_result_unbound(m, m[v], (n - 1) as nat, f);
        }
    }
}

/// A type without parts and variables.
spec fn ground(g: Term) -> bool {
    !(g.head is Var) && g.args.len() == 0
}

/// Two variables that stand for the same unknown type, bound to a type.
spec fn both_bound(m: Map<TypeVar, Term>, v: TypeVar, f: TypeVar, g: Term) -> Map<TypeVar, Term> {
    m.insert(f, g).insert(v, g)
}

proof fn lemma_both_bound(
    m: Map<TypeVar, Term>,
    v: TypeVar,
    f: TypeVar,
    g: Term,
    t: Term,
    n: nat,
)
    requires
        ground(g),
        !m.contains_key(f),
        crate::subst_model::applies(m, crate::term::var(v)),
        crate::constraints::value_of(m, v) == crate::term::var(f),
        crate::subst_model::settles(m, t, n),
    ensures
        crate::subst_model::settles(both_bound(m, v, f, g), t, n + 1),
        crate::subst_model::subst_at(both_bound(m, v, f, g), t, n + 1)
            == crate::subst_model::subst(map![f => g], crate::subst_model::subst_at(m, t, n)),
    decreases n, t,
{
    let m2 = both_bound(m, v, f, g);
    let one = map![f => g];
    match t.head {
        Head::Var(w) => {
            if w == v || w == f {
                assert(m2.contains_key(w) && m2[w] == g);
                assert(crate::subst_model::settles(m2, g, n));
                assert(crate::subst_model::subst_at(m2, g, n).args =~= g.args);
                if w == v {
                    crate::subst_model::lemma_apply_at(m, t, n);
                    assert(crate::subst_model::settles(m, crate::term::var(v), n)
                        == crate::subst_model::settles(m, t, n)) by {
                        if m.contains_key(v) {
                        }
                    }
                    crate::subst_model::lemma_apply_at(m, crate::term::var(v), n);
                    if m.contains_key(v) {
                        assert(crate::subst_model::subst_at(m, t, n)
                            == crate::subst_model::subst_at(m, crate::term::var(v), n));
                    } else {
                        assert(crate::subst_model::subst_at(m, t, n) == t);
                    }
                    assert(crate::subst_model::subst_at(m, t, n).head == Head::Var(f));
                } else {
                    assert(crate::subst_model::subst_at(m, t, n) == t);
                }
                assert(one.contains_key(f) && one[f] == g);
            } else if m.contains_key(w) {
                lemma_both_bound(m, v, f, g, m[w], (n - 1) as nat);
                assert(m2.contains_key(w) && m2[w] == m[w]);
            } else {
                assert(!m2.contains_key(w));
                assert(!one.contains_key(w));
            }
        },
        _ => {
            assert forall|i: int| 0 <= i < t.args.len() implies crate::subst_model::settles(
                m2,
                #[trigger] t.args[i],
                n + 1,
            ) && crate::subst_model::subst_at(m2, t.args[i], n + 1) == crate::subst_model::subst(
                one,
                crate::subst_model::subst_at(m, t.args[i], n),
            ) by {
                lemma_both_bound(m, v, f, g, t.args[i], n);
            }
            assert(crate::subst_model::subst_at(m2, t, n + 1).args =~= crate::subst_model::subst(
                one,
                crate::subst_model::subst_at(m, t, n),
            ).args);
        },
    }
}

/// Putting in one more default.
proof fn lemma_default_step(
    m: Map<TypeVar, Term>,
    d: Map<TypeVar, Term>,
    ext: Map<TypeVar, Term>,
    v: TypeVar,
    f: TypeVar,
    g: Term,
)
    requires
        ground(g),
        extends_by(m, d, ext),
        crate::subst_model::applies(m, crate::term::var(v)),
        crate::constraints::value_of(ext, v) == crate::term::var(f),
        forall|w: TypeVar| #[trigger] d.contains_key(w) ==> ground(d[w]),
    ensures
        crate::constraints::value_of(m, v).head == Head::Var(f),
        !d.contains_key(f),
        extends_by(m, d.insert(f, g), both_bound(ext, v, f, g)),
{
    let tv = crate::term::var(v);
    assert(crate::subst_model::applies(ext, tv));
    let at = choose|n: nat| crate::subst_model::settles(ext, tv, n);
    lemma_result_unbound(ext, tv, at, f);
    let before = crate::constraints::value_of(m, v);
    match before.head {
        Head::Var(w) => {
            if d.contains_key(w) {
                assert(ground(d[w]));
            }
        },
        _ => {},
    }
    let d2 = d.insert(f, g);
    let one = map![f => g];
    let ext2 = both_bound(ext, v, f, g);
    assert forall|t: Term| #[trigger] crate::subst_model::applies(m, t) implies
        crate::subst_model::applies(ext2, t) && crate::subst_model::apply(ext2, t)
        == crate::subst_model::subst(d2, crate::subst_model::apply(m, t)) by {
        assert(crate::subst_model::applies(ext, t));
        let n = choose|n: nat| crate::subst_model::settles(ext, t, n);
        lemma_both_bound(ext, v, f, g, t, n);
        crate::subst_model::lemma_apply_at(ext, t, n);
        crate::subst_model::lemma_apply_at(ext2, t, n + 1);
        let whole = crate::subst_model::apply(m, t);
        assert forall|x: Term|
            x.head is Var && crate::term::occurs(x.head->Var_0, whole) implies
            #[trigger] crate::subst_model::subst(d2, x) == crate::subst_model::subst(
            one,
            crate::subst_model::subst(d, x),
        ) by {
            let w = x.head->Var_0;
            if d.contains_key(w) {
                assert(w != f);
                assert(ground(d[w]));
                assert(crate::subst_model::subst(one, d[w]).args =~= d[w].args);
            }
        }
        crate::subst_model::lemma_subst_subst(d, one, d2, whole);
    }
}

proof fn lemma_extends_nothing(m: Map<TypeVar, Term>)
    ensures
        extends_by(m, Map::empty(), m),
{
    assert forall|t: Term| #[trigger] crate::subst_model::applies(m, t) implies
        crate::subst_model::applies(m, t) && crate::subst_model::apply(m, t)
        == crate::subst_model::subst(
        Map::<TypeVar, Term>::empty(),
        crate::subst_model::apply(m, t),
    ) by {
        crate::subst_model::lemma_apply_unbound(
            Map::<TypeVar, Term>::empty(),
            crate::subst_model::apply(m, t),
        );
    }
}

/// Binds every literal of a kind that is still unknown.
fn default_kind(
    extended: &mut Substitution,
    vars: &KeySet<TypeVar>,
    integer: bool,
    Ghost(m): Ghost<Map<TypeVar, Term>>,
    Ghost(ints): Ghost<Set<TypeVar>>,
)
    requires
        crate::constraints::values_settle(m, vars@),
        integer ==> ints == Set::<TypeVar>::empty(),
        extends_by(m, defaults(m, ints, Set::empty()), old(extended)@),
    ensures
        extends_by(
            m,
            if integer {
                defaults(m, vars@, Set::empty())
            } else {
                defaults(m, ints, vars@)
            },
            final(extended)@,
        ),
{
    let ghost g = if integer {
        default_integer()
    } else {
        default_float()
    };
    let n: usize = vars.len();
    let mut i: usize = 0;
    let ghost mut seen: Set<TypeVar> = Set::empty();
    let ghost mut d = defaults(m, ints, Set::empty());
    proof {
        assert(vars.order().take(0).to_set() =~= seen);
        if integer {
            assert(d =~= defaults(m, seen, Set::empty()));
        } else {
            assert(d =~= defaults(m, ints, seen));
        }
    }
    while i < n
        invariant
            i <= n,
            n == vars.order().len(),
            crate::constraints::values_settle(m, vars@),
            forall|j: int| 0 <= j < n ==> vars@.contains(#[trigger] vars.order()[j]),
            seen == vars.order().take(i as int).to_set(),
            integer ==> ints == Set::<TypeVar>::empty(),
            g == (if integer {
                default_integer()
            } else {
                default_float()
            }),
            d == (if integer {
                defaults(m, seen, Set::empty())
            } else {
                defaults(m, ints, seen)
            }),
            extends_by(m, d, extended@),
        decreases n - i,
    {
        let var = *vars.at(i);
        let ghost next = seen.insert(var);
        let ghost d2 = if integer {
            defaults(m, next, Set::empty())
        } else {
            defaults(m, ints, next)
        };
        proof {
            assert(vars@.contains(vars.order()[i as int]));
            let a = vars.order().take(i as int);
            let b = vars.order().take(i as int + 1);
            assert(b =~= a.push(var));
            assert forall|w: TypeVar| b.to_set().contains(w) == next.contains(w) by {
                if w == var {
                    assert(b[i as int] == w);
                }
                if a.contains(w) {
                    let j = a.index_of(w);
                    assert(b[j] == w);
                }
                if b.contains(w) && w != var {
                    let j = b.index_of(w);
                    assert(a[j] == w);
                }
            }
            assert(next =~= b.to_set());
            assert(next.contains(var));
            assert forall|w: TypeVar| stands_for(m, next, w) == (stands_for(m, seen, w)
                || crate::constraints::value_of(m, var) == crate::term::var(w)) by {
                if stands_for(m, seen, w) {
                    let v = choose|v: TypeVar| #[trigger]
                        seen.contains(v) && crate::constraints::value_of(m, v)
                            == crate::term::var(w);
                    assert(next.contains(v));
                }
                if stands_for(m, next, w) {
                    let v = choose|v: TypeVar| #[trigger]
                        next.contains(v) && crate::constraints::value_of(m, v)
                            == crate::term::var(w);
                    if v != var {
                        assert(seen.contains(v));
                    }
                }
            }
            assert(crate::subst_model::applies(m, crate::term::var(var)));
            assert(crate::subst_model::applies(extended@, crate::term::var(var)));
        }
        let ty = InferType::Var(var);
        let ghost ext = extended@;
        match extended.apply(&ty) {
            InferType::Var(final_var) => {
                proof {
                    lemma_default_step(m, d, ext, var, final_var, g);
                    assert(d2 =~= d.insert(final_var, g));
                }
                if integer {
                    extended.bind(final_var, InferType::integer());
                    extended.bind(var, InferType::integer());
                } else {
                    extended.bind(final_var, InferType::float());
                    extended.bind(var, InferType::float());
                }
                assert(extended@ =~= both_bound(ext, var, final_var, g));
            },
            _ => {
                proof {
                    assert(d2 =~= d) by {
                        let x = crate::constraints::value_of(m, var);
                        assert forall|w: TypeVar| x == crate::term::var(w) implies d.contains_key(
                            w,
                        ) by {
                            if !d.contains_key(w) {
                                assert(crate::subst_model::subst(d, x) == x);
                            }
                        }
                    }
                }
            },
        }
        proof {
            seen = next;
            d = d2;
        }
        i += 1;
    }
    let again: usize = vars.len();
    proof {
        assert(vars.order().take(n as int) =~= vars.order());
        assert(seen =~= vars@);
    }
}

/// Extend `subst` so that any literal type variable still free is defaulted.
/// Also propagates defaults through chains of variables: if a literal's
/// variable stands for another free variable, both are bound to the default.
pub fn default_literals(
    subst: &Substitution,
    integer_literal_vars: &KeySet<TypeVar>,
    float_literal_vars: &KeySet<TypeVar>,
) -> (r: Substitution)
    requires
        crate::constraints::values_settle(subst@, integer_literal_vars@),
        crate::constraints::values_settle(subst@, float_literal_vars@),
    ensures
        extends_by(
            subst@,
            defaults(subst@, integer_literal_vars@, float_literal_vars@),
            r@,
        ),
{
    let mut extended = subst.dup();
    let ghost m = subst@;
    proof {
        lemma_extends_nothing(m);
        assert(defaults(m, Set::empty(), Set::empty()) =~= Map::<TypeVar, Term>::empty());
    }
    default_kind(&mut extended, integer_literal_vars, true, Ghost(m), Ghost(Set::empty()));
    default_kind(
        &mut extended,
        float_literal_vars,
        false,
        Ghost(m),
        Ghost(integer_literal_vars@),
    );
    extended
}

} // verus!
