//! Names, constraints and solving in the inference context.

use crate::ast::Span;
use crate::coercion::{apply_constraint_with_coercion, Watched};
use crate::constraints::{Constraint, ConstraintModel};
use crate::context::{find_innermost, Binding, ContextModel, InferContext, SolveStats};
use crate::data::Dup;
use crate::defaulting::default_literals;
use crate::error::{ErrorModel, MetelError, TypeErrorCode};
use crate::infer_type::InferType;
use crate::registry::{RegistryModel, TypeDefinitionRegistry};
use crate::schemes::{SchemeModel, TypeScheme};
use crate::substitution::Substitution;
use crate::table::{KeySet, Table};
use crate::term::{Term, TypeVar};
use vstd::prelude::*;
use vstd::string::*;

verus! {

/// Names of variables with those that the first `k` parameters of a scheme
/// declare for the fresh variables that stand for them.
pub open spec fn names_tagged(
    names: Map<TypeVar, Seq<char>>,
    s: SchemeModel,
    start: nat,
    k: nat,
) -> Map<TypeVar, Seq<char>>
    decreases k,
{
    if k == 0 {
        names
    } else {
        let prev = names_tagged(names, s, start, (k - 1) as nat);
        if s.names[k - 1].len() > 0 {
            prev.insert(
                crate::schemes::fresh_names(s.vars, start, s.vars.len())[s.vars[k - 1]],
                s.names[k - 1],
            )
        } else {
            prev
        }
    }
}

/// How many quantified variables of a scheme have a declared name.
pub open spec fn named_count(s: SchemeModel) -> nat {
    if s.vars.len() <= s.names.len() {
        s.vars.len()
    } else {
        s.names.len()
    }
}

/// The context after a scheme has been instantiated.
pub open spec fn instantiated(c: ContextModel, s: SchemeModel) -> ContextModel {
    ContextModel {
        next_var: (c.next_var + s.vars.len()) as u32,
        var_names: names_tagged(c.var_names, s, c.next_var as nat, named_count(s)),
        ..c
    }
}

/// What a scheme is instantiated to.
pub open spec fn instance(c: ContextModel, s: SchemeModel) -> Term {
    crate::subst_model::apply(
        crate::schemes::instance_bindings(s, c.next_var as nat),
        s.ty,
    )
}

/// Whether a scheme can be instantiated: there are variables left, and replacing
/// them comes to an end.
pub open spec fn can_instantiate(c: ContextModel, s: SchemeModel) -> bool {
    c.next_var + s.vars.len() <= u32::MAX && crate::subst_model::applies(
        crate::schemes::instance_bindings(s, c.next_var as nat),
        s.ty,
    )
}

proof fn lemma_fresh_names_dom(vars: Seq<TypeVar>, start: nat, k: nat, i: int)
    requires
        0 <= i < k <= vars.len(),
    ensures
        crate::schemes::fresh_names(vars, start, k).contains_key(vars[i]),
    decreases k,
{
    if i < k - 1 {
        lemma_fresh_names_dom(vars, start, (k - 1) as nat, i);
    }
}

/// Whether bindings and a result are what solving constraints from the `i`-th on
/// leaves. The first constraint that fails ends it.
pub open spec fn solved_from(
    reg: RegistryModel,
    m: Map<TypeVar, Term>,
    cs: Seq<ConstraintModel>,
    i: int,
    w: Watched,
    known: Map<TypeVar, Seq<char>>,
    after: Map<TypeVar, Term>,
    r: Result<(), ErrorModel>,
) -> bool
    decreases cs.len() - i,
{
    if i >= cs.len() {
        after == m && r is Ok
    } else {
        match crate::coercion::coerced_step(reg, m, cs[i], known) {
            Err(e) => after == m && r == Err::<(), ErrorModel>(e),
            Ok(next) => if crate::coercion::accepted(next, w) {
                solved_from(reg, next, cs, i + 1, w, known, after, r)
            } else {
                after == next && r is Err && crate::coercion::watched_fault(
                    r->Err_0,
                    next,
                    w,
                    cs[i],
                    known,
                )
            },
        }
    }
}

/// Whether solving constraints from the `i`-th on comes to an end.
pub open spec fn steps_settle(
    reg: RegistryModel,
    m: Map<TypeVar, Term>,
    cs: Seq<ConstraintModel>,
    i: int,
    w: Watched,
    known: Map<TypeVar, Seq<char>>,
) -> bool
    decreases cs.len() - i,
{
    i < cs.len() ==> {
        &&& crate::coercion::step_settles(reg, m, cs[i], w, known)
        &&& match crate::coercion::coerced_step(reg, m, cs[i], known) {
            Ok(next) => crate::coercion::accepted(next, w) ==> steps_settle(
                reg,
                next,
                cs,
                i + 1,
                w,
                known,
            ),
            Err(_) => true,
        }
    }
}

/// The variables that solving watches over.
pub open spec fn watched(c: ContextModel) -> Watched {
    Watched { ints: c.ints, floats: c.floats, opaque: c.opaque_vars }
}

/// Whether solving what is left in a context comes to an end.
pub open spec fn solving_settles(c: ContextModel) -> bool {
    steps_settle(c.registry, c.solution, c.constraints, c.solved as int, watched(c), c.var_names)
}

/// Whether bindings and a result are what solving leaves in a context.
pub open spec fn solving(
    c: ContextModel,
    after: Map<TypeVar, Term>,
    r: Result<(), ErrorModel>,
) -> bool {
    solved_from(
        c.registry,
        c.solution,
        c.constraints,
        c.solved as int,
        watched(c),
        c.var_names,
        after,
        r,
    )
}

/// The type that may be assigned to a name, or why nothing may.
pub open spec fn assignable(
    mono: Seq<Map<Seq<char>, (Term, bool)>>,
    name: Seq<char>,
    span: crate::ast::SpanModel,
) -> Result<Term, ErrorModel> {
    match crate::context::innermost(mono, name) {
        None => Err(
            ErrorModel::Type(
                TypeErrorCode::T0003,
                "use of undeclared variable `"@ + name + "`"@,
                span,
            ),
        ),
        Some((ty, false)) => Err(
            ErrorModel::Type(
                TypeErrorCode::T0006,
                "cannot assign to immutable binding `"@ + name + "`"@,
                span,
            ),
        ),
        Some((ty, true)) => Ok(ty),
    }
}

/// The constraints that were added since the last solve that succeeded.
pub open spec fn outstanding(c: ContextModel) -> int {
    c.constraints.len() - c.solved
}

/// The context after its constraints have been solved with these bindings.
pub open spec fn solve_succeeded(c: ContextModel, bindings: Map<TypeVar, Term>) -> ContextModel {
    ContextModel {
        solution: bindings,
        solved: c.constraints.len() as usize,
        stats: SolveStats {
            solve_calls: (c.stats.solve_calls + 1) as u64,
            constraints_processed: (c.stats.constraints_processed + outstanding(c)) as u64,
            solve_ns: c.stats.solve_ns,
        },
        ..c
    }
}

/// The context after solving has failed and left these bindings.
pub open spec fn solve_failed(c: ContextModel, bindings: Map<TypeVar, Term>) -> ContextModel {
    ContextModel {
        solution: bindings,
        stats: SolveStats {
            solve_calls: (c.stats.solve_calls + 1) as u64,
            constraints_processed: c.stats.constraints_processed,
            solve_ns: c.stats.solve_ns,
        },
        ..c
    }
}

/// Solves constraints from one on.
fn solve_steps(
    subst: &mut Substitution,
    constraints: &Vec<Constraint>,
    from: usize,
    integer_literal_vars: &KeySet<TypeVar>,
    float_literal_vars: &KeySet<TypeVar>,
    opaque_return_vars: &KeySet<TypeVar>,
    registry: &TypeDefinitionRegistry,
    known_names: &Table<TypeVar, String>,
) -> (r: Result<(), MetelError>)
    requires
        from <= constraints@.len(),
        steps_settle(
            registry@,
            old(subst)@,
            constraints.deep_view(),
            from as int,
            (Watched {
                ints: integer_literal_vars@,
                floats: float_literal_vars@,
                opaque: opaque_return_vars@,
            }),
            known_names@,
        ),
    ensures
        solved_from(
            registry@,
            old(subst)@,
            constraints.deep_view(),
            from as int,
            (Watched {
                ints: integer_literal_vars@,
                floats: float_literal_vars@,
                opaque: opaque_return_vars@,
            }),
            known_names@,
            final(subst)@,
            crate::constraints::result_model(r),
        ),
{
    let ghost reg = registry@;
    let ghost cs = constraints.deep_view();
    let ghost w = Watched {
        ints: integer_literal_vars@,
        floats: float_literal_vars@,
        opaque: opaque_return_vars@,
    };
    let ghost known = known_names@;
    let ghost start = subst@;
    let mut i: usize = from;
    while i < constraints.len()
        invariant
            from <= i <= constraints@.len(),
            start == old(subst)@,
            reg == registry@,
            cs == constraints.deep_view(),
            known == known_names@,
            w == (Watched {
                ints: integer_literal_vars@,
                floats: float_literal_vars@,
                opaque: opaque_return_vars@,
            }),
            steps_settle(reg, subst@, cs, i as int, w, known),
            forall|after: Map<TypeVar, Term>, r: Result<(), ErrorModel>|
                #[trigger] solved_from(reg, subst@, cs, i as int, w, known, after, r)
                    ==> solved_from(reg, start, cs, from as int, w, known, after, r),
        decreases constraints.len() - i,
    {
        let ghost m = subst@;
        assert(cs[i as int] == constraints@[i as int].deep_view());
        let step = apply_constraint_with_coercion(
            subst,
            &constraints[i],
            integer_literal_vars,
            float_literal_vars,
            opaque_return_vars,
            registry,
            known_names,
        );
        let ghost outcome = crate::constraints::result_model(step);
        if let Err(e) = step {
            assert(solved_from(reg, m, cs, i as int, w, known, subst@, outcome));
            return Err(e);
        }
        proof {
            assert forall|after: Map<TypeVar, Term>, r: Result<(), ErrorModel>|
                #[trigger] solved_from(
                    reg,
                    subst@,
                    cs,
                    i + 1,
                    w,
                    known,
                    after,
                    r,
                ) implies solved_from(
                reg,
                start,
                cs,
                from as int,
                w,
                known,
                after,
                r,
            ) by {
                assert(solved_from(reg, m, cs, i as int, w, known, after, r));
            }
        }
        i += 1;
    }
    assert(solved_from(reg, subst@, cs, i as int, w, known, subst@, Ok(())));
    Ok(())
}

impl InferContext {
    /// Instantiate a scheme and retain the source-to-fresh variable mapping for
    /// callers that must subsequently pin or annotate a particular parameter.
    /// Declared, non-empty parameter names follow their fresh variables.
    pub fn instantiate_with_renaming(&mut self, scheme: &TypeScheme) -> (r: (
        InferType,
        Table<TypeVar, TypeVar>,
    ))
        requires
            can_instantiate(old(self)@, scheme@),
        ensures
            r.0.term() == instance(old(self)@, scheme@),
            r.1@ == crate::schemes::fresh_names(
                scheme@.vars,
                old(self)@.next_var as nat,
                scheme@.vars.len(),
            ),
            final(self)@ == instantiated(old(self)@, scheme@),
    {
        let ghost c = self@;
        let ghost s = scheme@;
        let (instance, renaming) = crate::schemes::instantiate_with_renaming(
            scheme,
            &mut self.var_gen,
        );
        let ghost minted = self@;
        let vars = &scheme.quantified_vars;
        let names = &scheme.param_names;
        let mut i: usize = 0;
        while i < vars.len() && i < names.len()
            invariant
                i <= vars.len(),
                i <= names.len(),
                s == scheme@,
                vars == scheme.quantified_vars,
                names == scheme.param_names,
                renaming@ == crate::schemes::fresh_names(s.vars, c.next_var as nat, s.vars.len()),
                self@ == (ContextModel {
                    var_names: names_tagged(c.var_names, s, c.next_var as nat, i as nat),
                    ..minted
                }),
            decreases vars.len() - i,
        {
            proof {
                assert(s.vars[i as int] == vars@[i as int]);
                assert(s.names[i as int] == names@[i as int]@);
                lemma_fresh_names_dom(s.vars, c.next_var as nat, s.vars.len(), i as int);
            }
            let name = &names[i];
            if name.as_str().unicode_len() > 0 {
                if let Some(fresh) = renaming.get(&vars[i]) {
                    self.tag_declared_var_name(*fresh, name.clone());
                }
            }
            i += 1;
        }
        (instance, renaming)
    }

    /// Instantiate a scheme when the caller has no need for its renaming map.
    pub fn instantiate(&mut self, scheme: &TypeScheme) -> (r: InferType)
        requires
            can_instantiate(old(self)@, scheme@),
        ensures
            r.term() == instance(old(self)@, scheme@),
            final(self)@ == instantiated(old(self)@, scheme@),
    {
        self.instantiate_with_renaming(scheme).0
    }

    /// Look up a name. Polymorphic bindings are instantiated with fresh
    /// variables. Scopes are searched from the innermost one outwards, and within
    /// each scope a polymorphic binding takes precedence over a monomorphic one.
    pub fn lookup(&mut self, name: &str) -> (r: Option<InferType>)
        requires
            crate::context::nearest(old(self)@.poly, old(self)@.mono, name@) matches Some(
                Binding::Poly(s),
            ) ==> can_instantiate(old(self)@, s),
        ensures
            match crate::context::nearest(old(self)@.poly, old(self)@.mono, name@) {
                Some(Binding::Poly(s)) => r.deep_view() == Some(instance(old(self)@, s))
                    && final(self)@ == instantiated(old(self)@, s),
                Some(Binding::Mono(ty, _)) => r.deep_view() == Some(ty) && final(self)@
                    == old(self)@,
                None => r is None && final(self)@ == old(self)@,
            },
    {
        let key = name.to_owned();
        let ghost start = self@;
        let mut level: usize = if self.poly_env.len() < self.mono_env.len() {
            self.mono_env.len()
        } else {
            self.poly_env.len()
        };
        while level > 0
            invariant
                self@ == start,
                start == old(self)@,
                key@ == name@,
                crate::context::nearest(start.poly, start.mono, name@)
                    == crate::context::nearest_below(
                    start.poly,
                    start.mono,
                    name@,
                    level as nat,
                ),
                crate::context::nearest(start.poly, start.mono, name@) matches Some(
                    Binding::Poly(s),
                ) ==> can_instantiate(start, s),
            decreases level,
        {
            level -= 1;
            if level < self.poly_env.len() {
                assert(self@.poly[level as int] == self.poly_env@[level as int].deep_view());
                if let Some(scheme) = self.poly_env[level].get(&key) {
                    let scheme = scheme.dup();
                    return Some(self.instantiate(&scheme));
                }
            }
            if level < self.mono_env.len() {
                assert(self@.mono[level as int] == self.mono_env@[level as int].deep_view());
                if let Some(found) = self.mono_env[level].get(&key) {
                    return Some(found.0.dup());
                }
            }
        }
        None
    }

    /// Look up a name for writing (assignment). Returns the binding's type on
    /// success, T0003 if the name is not in scope, and T0006 if the binding is
    /// immutable.
    pub fn lookup_for_write(&self, name: &str, span: &Span) -> (r: Result<InferType, MetelError>)
        ensures
            match crate::context::innermost(self@.mono, name@) {
                None => r matches Err(e) && e@ == ErrorModel::Type(
                    TypeErrorCode::T0003,
                    "use of undeclared variable `"@ + name@ + "`"@,
                    span.deep_view(),
                ),
                Some((ty, false)) => r matches Err(e) && e@ == ErrorModel::Type(
                    TypeErrorCode::T0006,
                    "cannot assign to immutable binding `"@ + name@ + "`"@,
                    span.deep_view(),
                ),
                Some((ty, true)) => r matches Ok(t) && t.term() == ty,
            },
            assignable(self@.mono, name@, span.deep_view()) == (match r {
                Ok(t) => Ok(t.term()),
                Err(e) => Err(e@),
            }),
    {
        match find_innermost(&self.mono_env, name) {
            None => {
                let mut s = "use of undeclared variable `".to_owned();
                s.append(name);
                s.append("`");
                Err(MetelError::type_error(TypeErrorCode::T0003, s, span))
            },
            Some(found) => {
                if found.1 {
                    Ok(found.0.dup())
                } else {
                    let mut s = "cannot assign to immutable binding `".to_owned();
                    s.append(name);
                    s.append("`");
                    Err(MetelError::type_error(TypeErrorCode::T0006, s, span))
                }
            },
        }
    }

    /// Extend `subst` so that any literal type variable still free is defaulted:
    /// integer literals to `i64`, float literals to `f64`. Call this immediately
    /// after each `solve` before using the substitution.
    pub fn default_literal_vars(&self, subst: &Substitution) -> (r: Substitution)
        requires
            crate::constraints::values_settle(subst@, self@.ints),
            crate::constraints::values_settle(subst@, self@.floats),
        ensures
            crate::defaulting::extends_by(
                subst@,
                crate::defaulting::defaults(subst@, self@.ints, self@.floats),
                r@,
            ),
    {
        default_literals(subst, &self.integer_literal_vars, &self.float_literal_vars)
    }

    /// Resolve `ty` against the substitution solved so far, without advancing the
    /// solver.
    pub fn apply_cached_subst(&self, ty: &InferType) -> (r: InferType)
        requires
            crate::subst_model::applies(self@.solution, ty.term()),
        ensures
            r.term() == crate::subst_model::apply(self@.solution, ty.term()),
    {
        self.cached_subst.apply(ty)
    }

    /// Record that `lhs` and `rhs` must unify, tagged with its source location.
    pub fn add_constraint(&mut self, lhs: InferType, rhs: InferType, span: Span)
        ensures
            final(self)@ == (ContextModel {
                constraints: old(self)@.constraints.push(
                    ConstraintModel {
                        lhs: lhs.term(),
                        rhs: rhs.term(),
                        span: span.deep_view(),
                        operator: None,
                    },
                ),
                ..old(self)@
            }),
    {
        let ghost before = self@.constraints;
        assert(before.len() == self.constraints@.len());
        let c = Constraint::new(lhs, rhs, span);
        let ghost item = c.deep_view();
        self.constraints.push(c);
        assert(self@.constraints =~= before.push(item));
    }

    /// Record an operand-agreement constraint, tagged with the operator so that a
    /// failure can say which one it was.
    pub fn add_operand_constraint(
        &mut self,
        lhs: InferType,
        rhs: InferType,
        span: Span,
        op: &'static str,
    )
        ensures
            final(self)@ == (ContextModel {
                constraints: old(self)@.constraints.push(
                    ConstraintModel {
                        lhs: lhs.term(),
                        rhs: rhs.term(),
                        span: span.deep_view(),
                        operator: Some(op@),
                    },
                ),
                ..old(self)@
            }),
    {
        let ghost before = self@.constraints;
        assert(before.len() == self.constraints@.len());
        let c = Constraint::for_operator(lhs, rhs, span, op);
        let ghost item = c.deep_view();
        self.constraints.push(c);
        assert(self@.constraints =~= before.push(item));
    }

    /// Solve all accumulated constraints and return the resulting substitution.
    ///
    /// A failed solve keeps the bindings from the constraints processed before
    /// the failure, but does not count them as solved, so the next call processes
    /// them again. A caller that only probes takes a checkpoint and restores it.
    pub fn solve(&mut self) -> (r: Result<Substitution, MetelError>)
        requires
            old(self)@.solved <= old(self)@.constraints.len(),
            old(self)@.stats.solve_calls < u64::MAX,
            old(self)@.stats.constraints_processed + outstanding(old(self)@) <= u64::MAX,
            solving_settles(old(self)@),
        ensures
            match r {
                Ok(subst) => {
                    &&& solving(old(self)@, subst@, Ok(()))
                    &&& final(self)@ == solve_succeeded(old(self)@, subst@)
                },
                Err(e) => {
                    &&& solving(old(self)@, final(self)@.solution, Err(e@))
                    &&& final(self)@ == solve_failed(old(self)@, final(self)@.solution)
                },
            },
    {
        self.stats.solve_calls = self.stats.solve_calls + 1;
        let new_count: usize = self.constraints.len();
        let r = solve_steps(
            &mut self.cached_subst,
            &self.constraints,
            self.solved_constraint_count,
            &self.integer_literal_vars,
            &self.float_literal_vars,
            &self.opaque_return_vars,
            &self.registry,
            &self.declared_var_names,
        );
        if let Err(e) = r {
            return Err(e);
        }
        self.stats.constraints_processed = self.stats.constraints_processed + (new_count
            - self.solved_constraint_count) as u64;
        self.solved_constraint_count = new_count;
        Ok(self.cached_subst.dup())
    }

    /// Adds the time that a successful solve took to the statistics.
    pub fn add_solve_time(&mut self, elapsed_ns: u64)
        requires
            old(self)@.stats.solve_ns + elapsed_ns <= u64::MAX,
        ensures
            final(self)@ == (ContextModel {
                stats: (SolveStats {
                    solve_ns: (old(self)@.stats.solve_ns + elapsed_ns) as u64,
                    ..old(self)@.stats
                }),
                ..old(self)@
            }),
    {
        self.stats.solve_ns = self.stats.solve_ns + elapsed_ns;
    }

    /// Snapshot of what has been solved, for a speculative `solve` that must not
    /// commit on failure.
    pub fn solve_checkpoint(&self) -> (cp: (Substitution, usize))
        ensures
            cp.0@ == self@.solution,
            cp.1 == self@.solved,
    {
        (self.cached_subst.dup(), self.solved_constraint_count)
    }

    /// Restore a `solve_checkpoint`.
    pub fn solve_restore(&mut self, cp: (Substitution, usize))
        ensures
            final(self)@ == (ContextModel { solution: cp.0@, solved: cp.1, ..old(self)@ }),
    {
        self.cached_subst = cp.0;
        self.solved_constraint_count = cp.1;
    }

    pub fn solve_stats(&self) -> (s: SolveStats)
        ensures
            s == self@.stats,
    {
        self.stats
    }
}

} // verus!
