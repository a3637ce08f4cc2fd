//! The context that is threaded through type inference.

use crate::ast::{Span, SpanModel};
use crate::bounds::{BoundModel, GenericBound};
use crate::constraints::{Constraint, ConstraintModel};
use crate::data::Dup;
use crate::infer_type::InferType;
use crate::registry::{RegistryModel, TypeDefinitionRegistry};
use crate::schemes::{SchemeModel, TypeScheme, TypeVarGenerator};
use crate::substitution::Substitution;
use crate::symbols::SymbolId;
use crate::table::{KeySet, Table};
use crate::term::{Term, TypeVar};
use crate::types::Type;
use vstd::prelude::*;

verus! {

/// Memo of associated-type projections: the base variable, the aspect and the
/// associated type.
pub type AssocProjectionMemo = Table<(TypeVar, String, String), TypeVar>;

/// Log of associated-type projections, each with its placeholder.
pub type AssocProjectionLog = Vec<(TypeVar, String, String, TypeVar)>;

/// What solving has done so far.
#[derive(Clone, Copy)]
pub struct SolveStats {
    pub solve_calls: u64,
    pub constraints_processed: u64,
    pub solve_ns: u64,
}

impl Default for SolveStats {
    fn default() -> (s: Self)
        ensures
            s == (SolveStats { solve_calls: 0, constraints_processed: 0, solve_ns: 0 }),
    {
        SolveStats { solve_calls: 0, constraints_processed: 0, solve_ns: 0 }
    }
}

/// One concrete signature within a free-function overload set.
pub struct OverloadEntry {
    pub params: Vec<Type>,
    pub ret: Type,
    /// Stable identity for this definition.
    pub symbol_id: SymbolId,
}

pub struct OverloadModel {
    pub params: Seq<Term>,
    pub ret: Term,
    pub symbol_id: SymbolId,
}

impl DeepView for OverloadEntry {
    type V = OverloadModel;

    open spec fn deep_view(&self) -> OverloadModel {
        OverloadModel {
            params: self.params.deep_view(),
            ret: self.ret.term(),
            symbol_id: self.symbol_id,
        }
    }
}

/// Maps a function name to its overload candidates. Only names with more than
/// one free `fun` declaration appear.
pub type OverloadTable = Table<String, Vec<OverloadEntry>>;

/// State threaded through the entire walk during type inference.
///
/// Owns the variable generator, both environments, and the accumulated
/// constraint list. Call `solve` after the walk to get the final substitution.
///
/// The environments are scope stacks: call `push_scope` and `pop_scope` in
/// matched pairs when entering and leaving lexical scopes.
pub struct InferContext {
    /// Gives fresh type variables.
    pub var_gen: TypeVarGenerator,
    /// Monomorphic bindings, one table per lexical scope, with whether each may be
    /// assigned to.
    pub mono_env: Vec<Table<String, (InferType, bool)>>,
    /// Polymorphic bindings, scoped like `mono_env`.
    pub poly_env: Vec<Table<String, TypeScheme>>,
    pub constraints: Vec<Constraint>,
    pub current_return_type: Option<InferType>,
    pub current_break_type: Option<InferType>,
    pub loop_depth: usize,
    pub registry: TypeDefinitionRegistry,
    /// Type-param name → `TypeVar` for the generic function being inferred.
    /// Empty for a non-generic function and at top level.
    pub current_type_params: Table<String, TypeVar>,
    /// `TypeVar` → bounds for the current generic function's type params.
    pub current_type_param_bounds: Table<TypeVar, Vec<GenericBound>>,
    /// Placeholders for associated-type projections of the current body, so that the
    /// same projection requested twice gets the same placeholder.
    pub current_assoc_projections: AssocProjectionMemo,
    /// All placeholders minted above, in insertion order.
    pub recorded_assoc_projections: AssocProjectionLog,
    /// Placeholders for untyped row-bound field accesses of the current body.
    pub current_row_field_vars: Table<(TypeVar, String), TypeVar>,
    pub current_module_path: Vec<String>,
    /// Names that have same-tier glob conflicts deferred until use: the module
    /// paths that export each.
    pub deferred_glob_conflicts: Table<String, Vec<Vec<String>>>,
    /// Type variables introduced by unsuffixed integer literals.
    pub integer_literal_vars: KeySet<TypeVar>,
    /// Type variables introduced by unsuffixed float literals.
    pub float_literal_vars: KeySet<TypeVar>,
    /// Type variables for opaque return values, which callers must not bind to
    /// concrete types.
    pub opaque_return_vars: KeySet<TypeVar>,
    /// The declared generic-parameter name that a type variable was minted for.
    pub declared_var_names: Table<TypeVar, String>,
    /// Inferred return type for each closure expression, by the closure's span.
    pub closure_types: Table<Span, InferType>,
    /// What has been solved so far.
    pub cached_subst: Substitution,
    /// How many constraints have been solved.
    pub solved_constraint_count: usize,
    pub stats: SolveStats,
    /// Free-function overload sets. Names with a single definition never appear.
    pub overloads: OverloadTable,
    /// Bare variants deferred until the expected type is known: the variable that
    /// stands in for each.
    pub variant_deferrals: Vec<(Span, String, TypeVar)>,
}

/// What the context holds.
pub struct ContextModel {
    pub next_var: u32,
    pub mono: Seq<Map<Seq<char>, (Term, bool)>>,
    pub poly: Seq<Map<Seq<char>, SchemeModel>>,
    pub constraints: Seq<ConstraintModel>,
    pub return_type: Option<Term>,
    pub break_type: Option<Term>,
    pub loop_depth: usize,
    pub registry: RegistryModel,
    pub type_params: Map<Seq<char>, TypeVar>,
    pub bounds: Map<TypeVar, Seq<BoundModel>>,
    pub projections: Map<(TypeVar, Seq<char>, Seq<char>), TypeVar>,
    pub projection_log: Seq<(TypeVar, Seq<char>, Seq<char>, TypeVar)>,
    pub row_fields: Map<(TypeVar, Seq<char>), TypeVar>,
    pub module: Seq<Seq<char>>,
    pub conflicts: Map<Seq<char>, Seq<Seq<Seq<char>>>>,
    pub ints: Set<TypeVar>,
    pub floats: Set<TypeVar>,
    pub opaque_vars: Set<TypeVar>,
    pub var_names: Map<TypeVar, Seq<char>>,
    pub closure_types: Map<SpanModel, Term>,
    pub solution: Map<TypeVar, Term>,
    pub solved: usize,
    pub stats: SolveStats,
    pub overloads: Map<Seq<char>, Seq<OverloadModel>>,
    pub deferrals: Seq<(SpanModel, Seq<char>, TypeVar)>,
}

impl View for InferContext {
    type V = ContextModel;

    open spec fn view(&self) -> ContextModel {
        ContextModel {
            next_var: self.var_gen@,
            mono: self.mono_env.deep_view(),
            poly: self.poly_env.deep_view(),
            constraints: self.constraints.deep_view(),
            return_type: self.current_return_type.deep_view(),
            break_type: self.current_break_type.deep_view(),
            loop_depth: self.loop_depth,
            registry: self.registry@,
            type_params: self.current_type_params@,
            bounds: self.current_type_param_bounds@,
            projections: self.current_assoc_projections@,
            projection_log: self.recorded_assoc_projections.deep_view(),
            row_fields: self.current_row_field_vars@,
            module: self.current_module_path.deep_view(),
            conflicts: self.deferred_glob_conflicts@,
            ints: self.integer_literal_vars@,
            floats: self.float_literal_vars@,
            opaque_vars: self.opaque_return_vars@,
            var_names: self.declared_var_names@,
            closure_types: self.closure_types@,
            solution: self.cached_subst@,
            solved: self.solved_constraint_count,
            stats: self.stats,
            overloads: self.overloads@,
            deferrals: self.variant_deferrals.deep_view(),
        }
    }
}

/// The context before anything has been inferred.
pub open spec fn fresh_context(
    registry: RegistryModel,
    next_var: u32,
    schemes: Map<Seq<char>, SchemeModel>,
    module: Seq<Seq<char>>,
) -> ContextModel {
    ContextModel {
        next_var,
        mono: seq![Map::empty()],
        poly: seq![schemes],
        constraints: Seq::empty(),
        return_type: None,
        break_type: None,
        loop_depth: 0,
        registry,
        type_params: Map::empty(),
        bounds: Map::empty(),
        projections: Map::empty(),
        projection_log: Seq::empty(),
        row_fields: Map::empty(),
        module,
        conflicts: Map::empty(),
        ints: Set::empty(),
        floats: Set::empty(),
        opaque_vars: Set::empty(),
        var_names: Map::empty(),
        closure_types: Map::empty(),
        solution: Map::empty(),
        solved: 0,
        stats: SolveStats { solve_calls: 0, constraints_processed: 0, solve_ns: 0 },
        overloads: Map::empty(),
        deferrals: Seq::empty(),
    }
}

/// The binding of a name in the innermost scope that has one.
pub open spec fn innermost<V>(scopes: Seq<Map<Seq<char>, V>>, name: Seq<char>) -> Option<V>
    decreases scopes.len(),
{
    if scopes.len() == 0 {
        None
    } else if scopes.last().contains_key(name) {
        Some(scopes.last()[name])
    } else {
        innermost(scopes.drop_last(), name)
    }
}

/// Scopes with a binding in the innermost one.
pub open spec fn bound_innermost<V>(
    scopes: Seq<Map<Seq<char>, V>>,
    name: Seq<char>,
    value: V,
) -> Seq<Map<Seq<char>, V>> {
    scopes.drop_last().push(scopes.last().insert(name, value))
}

/// The context in a new innermost scope.
pub open spec fn scope_entered(c: ContextModel) -> ContextModel {
    ContextModel { mono: c.mono.push(Map::empty()), poly: c.poly.push(Map::empty()), ..c }
}

/// The context without its innermost scope.
pub open spec fn scope_left(c: ContextModel) -> ContextModel {
    ContextModel { mono: c.mono.drop_last(), poly: c.poly.drop_last(), ..c }
}

/// The context with a name bound to a type in the innermost scope.
pub open spec fn mono_bound(
    c: ContextModel,
    name: Seq<char>,
    ty: Term,
    is_mutable: bool,
) -> ContextModel {
    ContextModel { mono: bound_innermost(c.mono, name, (ty, is_mutable)), ..c }
}

/// The context with a name bound to a scheme in the innermost scope.
pub open spec fn poly_bound(
    c: ContextModel,
    name: Seq<char>,
    scheme: SchemeModel,
) -> ContextModel {
    ContextModel { poly: bound_innermost(c.poly, name, scheme), ..c }
}

/// The context with a name bound to a scheme in the innermost scope, unless that scope
/// has a scheme of that name.
pub open spec fn poly_bound_if_absent(
    c: ContextModel,
    name: Seq<char>,
    scheme: SchemeModel,
) -> ContextModel {
    if c.poly.last().contains_key(name) {
        c
    } else {
        poly_bound(c, name, scheme)
    }
}

/// What a name is bound to: a scheme, or a type that may be assignable.
pub enum Binding {
    Poly(SchemeModel),
    Mono(Term, bool),
}

/// The binding of a name in the innermost of the first `k` scopes that has one. In
/// the same scope a scheme comes before a type.
pub open spec fn nearest_below(
    poly: Seq<Map<Seq<char>, SchemeModel>>,
    mono: Seq<Map<Seq<char>, (Term, bool)>>,
    name: Seq<char>,
    k: nat,
) -> Option<Binding>
    decreases k,
{
    if k == 0 {
        None
    } else {
        let level = k - 1;
        if level < poly.len() && poly[level].contains_key(name) {
            Some(Binding::Poly(poly[level][name]))
        } else if level < mono.len() && mono[level].contains_key(name) {
            Some(Binding::Mono(mono[level][name].0, mono[level][name].1))
        } else {
            nearest_below(poly, mono, name, level as nat)
        }
    }
}

/// The binding of a name in the innermost scope that has one.
pub open spec fn nearest(
    poly: Seq<Map<Seq<char>, SchemeModel>>,
    mono: Seq<Map<Seq<char>, (Term, bool)>>,
    name: Seq<char>,
) -> Option<Binding> {
    nearest_below(
        poly,
        mono,
        name,
        if poly.len() < mono.len() {
            mono.len()
        } else {
            poly.len()
        },
    )
}

/// Finds the binding of a name in the innermost scope that has one.
pub fn find_innermost<'a, V: DeepView>(scopes: &'a Vec<Table<String, V>>, name: &str) -> (r: Option<
    &'a V,
>)
    ensures
        r.deep_view() == innermost(scopes.deep_view(), name@),
{
    let key = name.to_owned();
    let mut i: usize = scopes.len();
    assert(scopes.deep_view().take(i as int) =~= scopes.deep_view());
    while i > 0
        invariant
            i <= scopes.len(),
            key@ == name@,
            innermost(scopes.deep_view(), name@) == innermost(
                scopes.deep_view().take(i as int),
                name@,
            ),
        decreases i,
    {
        let ghost head = scopes.deep_view().take(i as int);
        i -= 1;
        assert(head.last() == scopes@[i as int].deep_view());
        assert(head.drop_last() =~= scopes.deep_view().take(i as int));
        if let Some(found) = scopes[i].get(&key) {
            return Some(found);
        }
    }
    None
}

/// Whether any scope binds a name.
pub open spec fn bound_in_any<V>(scopes: Seq<Map<Seq<char>, V>>, name: Seq<char>) -> bool {
    exists|i: int| 0 <= i < scopes.len() && (#[trigger] scopes[i]).contains_key(name)
}

proof fn lemma_innermost_bound<V>(scopes: Seq<Map<Seq<char>, V>>, name: Seq<char>)
    ensures
        innermost(scopes, name) is Some <==> bound_in_any(scopes, name),
    decreases scopes.len(),
{
    if scopes.len() > 0 {
        let rest = scopes.drop_last();
        lemma_innermost_bound(rest, name);
        if scopes.last().contains_key(name) {
            assert(scopes[scopes.len() - 1].contains_key(name));
        }
        if bound_in_any(rest, name) {
            let i = choose|i: int| 0 <= i < rest.len() && (#[trigger] rest[i]).contains_key(name);
            assert(scopes[i].contains_key(name));
        }
        if bound_in_any(scopes, name) && !scopes.last().contains_key(name) {
            let i = choose|i: int|
                0 <= i < scopes.len() && (#[trigger] scopes[i]).contains_key(name);
            assert(rest[i].contains_key(name));
        }
    }
}

/// Binds a name in the innermost scope.
fn bind_innermost<V: DeepView>(scopes: &mut Vec<Table<String, V>>, name: String, value: V)
    requires
        old(scopes)@.len() > 0,
    ensures
        final(scopes).deep_view() == bound_innermost(
            old(scopes).deep_view(),
            name@,
            value.deep_view(),
        ),
{
    let ghost want = bound_innermost(scopes.deep_view(), name@, value.deep_view());
    let mut top = scopes.pop().unwrap();
    top.insert(name, value);
    scopes.push(top);
    assert(scopes.deep_view() =~= want);
}

impl InferContext {
    /// Create a new inference context with a pre-built registry, a generator
    /// that has already been advanced past all type variables allocated during
    /// registry construction, and the set of imported schemes.
    pub fn new(
        registry: TypeDefinitionRegistry,
        gen: TypeVarGenerator,
        imported_schemes: &Table<String, TypeScheme>,
        current_module_path: Vec<String>,
    ) -> (c: Self)
        ensures
            c@ == fresh_context(
                registry@,
                gen@,
                imported_schemes@,
                current_module_path.deep_view(),
            ),
    {
        let mut mono_env: Vec<Table<String, (InferType, bool)>> = Vec::new();
        mono_env.push(Table::new());
        let mut poly_env: Vec<Table<String, TypeScheme>> = Vec::new();
        poly_env.push(imported_schemes.dup());
        let c = InferContext {
            var_gen: gen,
            mono_env,
            poly_env,
            constraints: Vec::new(),
            current_return_type: None,
            current_break_type: None,
            loop_depth: 0,
            registry,
            current_type_params: Table::new(),
            current_type_param_bounds: Table::new(),
            current_assoc_projections: Table::new(),
            recorded_assoc_projections: Vec::new(),
            current_row_field_vars: Table::new(),
            current_module_path,
            deferred_glob_conflicts: Table::new(),
            integer_literal_vars: KeySet::new(),
            float_literal_vars: KeySet::new(),
            opaque_return_vars: KeySet::new(),
            declared_var_names: Table::new(),
            closure_types: Table::new(),
            cached_subst: Substitution::new(),
            solved_constraint_count: 0,
            stats: SolveStats::default(),
            overloads: Table::new(),
            variant_deferrals: Vec::new(),
        };
        proof {
            let want = fresh_context(
                registry@,
                gen@,
                imported_schemes@,
                current_module_path.deep_view(),
            );
            assert(c@.mono =~= want.mono);
            assert(c@.poly =~= want.poly);
            assert(c@.constraints =~= want.constraints);
            assert(c@.projection_log =~= want.projection_log);
            assert(c@.deferrals =~= want.deferrals);
        }
        c
    }

    /// Enter a new lexical scope (e.g. a function body or block).
    /// Must be matched with a call to `pop_scope`.
    pub fn push_scope(&mut self)
        ensures
            final(self)@ == scope_entered(old(self)@),
    {
        let ghost before = self@;
        self.mono_env.push(Table::new());
        self.poly_env.push(Table::new());
        assert(self@.mono =~= before.mono.push(Map::empty()));
        assert(self@.poly =~= before.poly.push(Map::empty()));
    }

    /// Exit the current lexical scope, discarding all bindings introduced in it.
    pub fn pop_scope(&mut self)
        requires
            old(self)@.mono.len() > 1,
            old(self)@.poly.len() > 1,
        ensures
            final(self)@ == scope_left(old(self)@),
    {
        let ghost before = self@;
        let _ = self.mono_env.pop();
        let _ = self.poly_env.pop();
        assert(self@.mono =~= before.mono.drop_last());
        assert(self@.poly =~= before.poly.drop_last());
    }

    /// Bind a name to a monomorphic type in the current scope.
    /// `is_mutable` is `true` for `mut` bindings, `false` for `let` bindings and
    /// parameters.
    pub fn bind_mono(&mut self, name: String, ty: InferType, is_mutable: bool)
        requires
            old(self)@.mono.len() > 0,
        ensures
            final(self)@ == mono_bound(old(self)@, name@, ty.term(), is_mutable),
    {
        bind_innermost(&mut self.mono_env, name, (ty, is_mutable));
    }

    /// Bind a name to a polymorphic type scheme in the current scope.
    pub fn bind_poly(&mut self, name: String, scheme: TypeScheme)
        requires
            old(self)@.poly.len() > 0,
        ensures
            final(self)@ == poly_bound(old(self)@, name@, scheme@),
    {
        bind_innermost(&mut self.poly_env, name, scheme);
    }

    /// Bind a polymorphic scheme only if the current scope does not already
    /// contain that name. Used for lower-priority prelude names.
    pub fn bind_poly_if_absent(&mut self, name: String, scheme: TypeScheme)
        requires
            old(self)@.poly.len() > 0,
        ensures
            final(self)@ == poly_bound_if_absent(old(self)@, name@, scheme@),
    {
        let n: usize = self.poly_env.len();
        assert(self@.poly.last() == self.poly_env@[n - 1].deep_view());
        if !self.poly_env[n - 1].contains_key(&name) {
            bind_innermost(&mut self.poly_env, name, scheme);
        }
    }

    /// Whether any scope binds `name` (poly or mono), without instantiating.
    pub fn has_binding(&self, name: &str) -> (b: bool)
        ensures
            b == (bound_in_any(self@.poly, name@) || bound_in_any(self@.mono, name@)),
    {
        proof {
            lemma_innermost_bound(self@.poly, name@);
            lemma_innermost_bound(self@.mono, name@);
        }
        find_innermost(&self.poly_env, name).is_some() || find_innermost(
            &self.mono_env,
            name,
        ).is_some()
    }

    /// Look up a polymorphic scheme by name without instantiation.
    pub fn poly_scheme(&self, name: &str) -> (r: Option<TypeScheme>)
        ensures
            r.deep_view() == innermost(self@.poly, name@),
    {
        match find_innermost(&self.poly_env, name) {
            Some(scheme) => Some(scheme.dup()),
            None => None,
        }
    }

    /// Look up a name's type regardless of its mutability.
    pub fn lookup_mono_raw(&self, name: &str) -> (r: Option<InferType>)
        ensures
            r.deep_view() == (match innermost(self@.mono, name@) {
                Some((ty, _)) => Some(ty),
                None => None,
            }),
    {
        match find_innermost(&self.mono_env, name) {
            Some(found) => Some(found.0.dup()),
            None => None,
        }
    }

    /// Generate a fresh type variable.
    pub fn fresh_type_var_raw(&mut self) -> (v: TypeVar)
        requires
            old(self)@.next_var < u32::MAX,
        ensures
            v == TypeVar(old(self)@.next_var),
            final(self)@ == (ContextModel {
                next_var: (old(self)@.next_var + 1) as u32,
                ..old(self)@
            }),
    {
        self.var_gen.fresh()
    }

    /// Generate a fresh unknown type.
    pub fn fresh_var(&mut self) -> (t: InferType)
        requires
            old(self)@.next_var < u32::MAX,
        ensures
            t.term() == crate::term::var(TypeVar(old(self)@.next_var)),
            final(self)@ == (ContextModel {
                next_var: (old(self)@.next_var + 1) as u32,
                ..old(self)@
            }),
    {
        InferType::Var(self.var_gen.fresh())
    }

    /// Create a fresh type variable for an unsuffixed integer literal.
    /// If still free after constraint solving, it defaults to `i64`.
    pub fn fresh_integer_literal_var(&mut self) -> (t: InferType)
        requires
            old(self)@.next_var < u32::MAX,
        ensures
            t.term() == crate::term::var(TypeVar(old(self)@.next_var)),
            final(self)@ == (ContextModel {
                next_var: (old(self)@.next_var + 1) as u32,
                ints: old(self)@.ints.insert(TypeVar(old(self)@.next_var)),
                ..old(self)@
            }),
    {
        let tv = self.var_gen.fresh();
        self.integer_literal_vars.insert(tv);
        InferType::Var(tv)
    }

    /// Create a fresh type variable for an unsuffixed float literal.
    /// If still free after constraint solving, it defaults to `f64`.
    pub fn fresh_float_literal_var(&mut self) -> (t: InferType)
        requires
            old(self)@.next_var < u32::MAX,
        ensures
            t.term() == crate::term::var(TypeVar(old(self)@.next_var)),
            final(self)@ == (ContextModel {
                next_var: (old(self)@.next_var + 1) as u32,
                floats: old(self)@.floats.insert(TypeVar(old(self)@.next_var)),
                ..old(self)@
            }),
    {
        let tv = self.var_gen.fresh();
        self.float_literal_vars.insert(tv);
        InferType::Var(tv)
    }

    /// Whether `tv` is an unsuffixed integer or float literal's type variable.
    pub fn is_numeric_literal_var(&self, tv: TypeVar) -> (b: bool)
        ensures
            b == (self@.ints.contains(tv) || self@.floats.contains(tv)),
    {
        self.integer_literal_vars.contains(&tv) || self.float_literal_vars.contains(&tv)
    }

    /// Return a new generator whose counter starts immediately past all
    /// variables allocated by this context.
    pub fn split_gen(&self) -> (g: TypeVarGenerator)
        ensures
            g@ == self@.next_var,
    {
        TypeVarGenerator::with_counter(self.var_gen.counter())
    }
}

impl Default for InferContext {
    fn default() -> (c: Self)
        ensures
            c@ == fresh_context(
                crate::registry::empty_registry(),
                0,
                Map::empty(),
                Seq::empty(),
            ),
    {
        let c = InferContext::new(
            TypeDefinitionRegistry::new(),
            TypeVarGenerator::new(),
            &Table::new(),
            Vec::new(),
        );
        assert(c@.module =~= Seq::<Seq<char>>::empty());
        c
    }
}

} // verus!
