//! What the inference context keeps for the function body being inferred.

use crate::ast::{AssocTypeModel, AstBoundModel, Polarity, Span, SpanModel};
use crate::bounds::{BoundModel, GenericBound};
use crate::context::{
    AssocProjectionLog, AssocProjectionMemo, ContextModel, InferContext, OverloadEntry,
    OverloadTable,
};
use crate::data::Dup;
use crate::error::{ErrorModel, MetelError, TypeErrorCode};
use crate::infer_type::InferType;
use crate::substitution::Substitution;
use crate::table::{KeySet, Table};
use crate::term::{Head, Term, TypeVar};
use crate::text::join;
use vstd::prelude::*;
use vstd::string::*;

verus! {

/// The path of the `i`-th module of a list, empty where there is none.
pub open spec fn module_text(sources: Seq<Seq<Seq<char>>>, i: int) -> Seq<char> {
    if i < sources.len() {
        crate::text::joined(sources[i], "::"@)
    } else {
        Seq::empty()
    }
}

/// The error for a name that two glob imports provide.
pub open spec fn conflict_error(
    name: Seq<char>,
    sources: Seq<Seq<Seq<char>>>,
    span: SpanModel,
) -> ErrorModel {
    let m0 = module_text(sources, 0);
    let m1 = module_text(sources, 1);
    ErrorModel::Type(
        TypeErrorCode::T0011,
        "import conflict: `"@ + name + "` is exported by both `"@ + m0 + "` and `"@ + m1
            + "`; use an explicit import to disambiguate: `import "@ + m0 + "::"@ + name
            + "` or `import "@ + m1 + "::"@ + name + "`"@,
        span,
    )
}

fn module_string(sources: &Vec<Vec<String>>, i: usize) -> (s: String)
    ensures
        s@ == module_text(sources.deep_view(), i as int),
{
    if i < sources.len() {
        join(&sources[i], "::")
    } else {
        String::new()
    }
}

/// The variable that stands for a variable's class, or the variable itself where
/// its class has a type.
pub open spec fn representative(m: Map<TypeVar, Term>, v: TypeVar) -> TypeVar {
    match crate::constraints::value_of(m, v).head {
        Head::Var(w) => w,
        _ => v,
    }
}

/// Bounds with one more, unless it names an aspect that is already there.
pub open spec fn with_bound(list: Seq<BoundModel>, b: BoundModel) -> Seq<BoundModel> {
    if b is Aspect && list.contains(b) {
        list
    } else {
        list.push(b)
    }
}

/// Bounds with the first `k` of others.
pub open spec fn with_bounds(list: Seq<BoundModel>, more: Seq<BoundModel>, k: nat) -> Seq<
    BoundModel,
>
    decreases k,
{
    if k == 0 {
        list
    } else {
        with_bound(with_bounds(list, more, (k - 1) as nat), more[k - 1])
    }
}

/// Bounds with those of the first `k` variables of a list that are in the class
/// of `root`, without those of `tv` and `root` themselves.
pub open spec fn with_class(
    list: Seq<BoundModel>,
    bounds: Map<TypeVar, Seq<BoundModel>>,
    m: Map<TypeVar, Term>,
    order: Seq<TypeVar>,
    tv: TypeVar,
    root: TypeVar,
    k: nat,
) -> Seq<BoundModel>
    decreases k,
{
    if k == 0 {
        list
    } else {
        let prev = with_class(list, bounds, m, order, tv, root, (k - 1) as nat);
        let c = order[k - 1];
        if c == tv || c == root || representative(m, c) != root {
            prev
        } else {
            with_bounds(prev, bounds[c], bounds[c].len())
        }
    }
}

/// The bounds on a variable and on its representative.
pub open spec fn own_bounds(
    bounds: Map<TypeVar, Seq<BoundModel>>,
    m: Map<TypeVar, Term>,
    tv: TypeVar,
) -> Seq<BoundModel> {
    let root = representative(m, tv);
    let own = crate::table::list_at(bounds, tv);
    let more = crate::table::list_at(bounds, root);
    if root == tv {
        own
    } else {
        with_bounds(own, more, more.len())
    }
}

/// Whether a list of bounds is what is known of a variable: its own bounds, those
/// of its representative, and those of the others in its class in some order.
pub open spec fn class_bounds(
    bounds: Map<TypeVar, Seq<BoundModel>>,
    m: Map<TypeVar, Term>,
    tv: TypeVar,
    r: Seq<BoundModel>,
) -> bool {
    exists|order: Seq<TypeVar>| #[trigger]
        lists(order, bounds.dom()) && r == with_class(
            own_bounds(bounds, m, tv),
            bounds,
            m,
            order,
            tv,
            representative(m, tv),
            order.len(),
        )
}

/// Whether a sequence lists the members of a set, each once.
pub open spec fn lists<K>(order: Seq<K>, s: Set<K>) -> bool {
    order.no_duplicates() && order.to_set() == s
}

fn add_bound(merged: &mut Vec<GenericBound>, bound: &GenericBound)
    ensures
        final(merged).deep_view() == with_bound(old(merged).deep_view(), bound.deep_view()),
{
    let ghost list = merged.deep_view();
    let ghost b = bound.deep_view();
    assert(list.len() == merged@.len());
    if let GenericBound::Aspect(right) = bound {
        let mut i: usize = 0;
        while i < merged.len()
            invariant
                i <= merged.len(),
                list == merged.deep_view(),
                b == BoundModel::Aspect(right@),
                list == old(merged).deep_view(),
                b == bound.deep_view(),
                forall|j: int| 0 <= j < i ==> list[j] != b,
            decreases merged.len() - i,
        {
            assert(list[i as int] == merged@[i as int].deep_view());
            if let GenericBound::Aspect(left) = &merged[i] {
                if *left == *right {
                    assert(list[i as int] == b);
                    return ;
                }
            }
            i += 1;
        }
        assert(!list.contains(b));
    }
    merged.push(bound.dup());
    assert(merged.deep_view() =~= list.push(b));
}

fn add_bounds(merged: &mut Vec<GenericBound>, bounds: &Vec<GenericBound>)
    ensures
        final(merged).deep_view() == with_bounds(
            old(merged).deep_view(),
            bounds.deep_view(),
            bounds.deep_view().len(),
        ),
{
    let mut i: usize = 0;
    while i < bounds.len()
        invariant
            i <= bounds.len(),
            merged.deep_view() == with_bounds(
                old(merged).deep_view(),
                bounds.deep_view(),
                i as nat,
            ),
        decreases bounds.len() - i,
    {
        add_bound(merged, &bounds[i]);
        i += 1;
    }
}

/// The aspects that the first `k` bounds of a list demand.
pub open spec fn demanded(bounds: Seq<AstBoundModel>, k: nat) -> Seq<Seq<char>>
    decreases k,
{
    if k == 0 {
        Seq::empty()
    } else {
        let prev = demanded(bounds, (k - 1) as nat);
        match crate::ast::bound_aspect(bounds[k - 1]) {
            Some(name) => if bounds[k - 1].polarity == Polarity::Positive {
                prev.push(name)
            } else {
                prev
            },
            None => prev,
        }
    }
}

/// The aspects that the first `k` declarations demand of an associated type.
pub open spec fn declared_aspects(decls: Seq<AssocTypeModel>, name: Seq<char>, k: nat) -> Seq<
    Seq<char>,
>
    decreases k,
{
    if k == 0 {
        Seq::empty()
    } else {
        let prev = declared_aspects(decls, name, (k - 1) as nat);
        let d = decls[k - 1];
        if d.name == name {
            prev + demanded(d.bounds, d.bounds.len())
        } else {
            prev
        }
    }
}

/// Bounds with the first `k` aspects of a list added for a variable.
pub open spec fn aspects_added(
    bounds: Map<TypeVar, Seq<BoundModel>>,
    tv: TypeVar,
    aspects: Seq<Seq<char>>,
    k: nat,
) -> Map<TypeVar, Seq<BoundModel>>
    decreases k,
{
    if k == 0 {
        bounds
    } else {
        let prev = aspects_added(bounds, tv, aspects, (k - 1) as nat);
        prev.insert(
            tv,
            crate::table::list_at(prev, tv).push(BoundModel::Aspect(aspects[k - 1])),
        )
    }
}

/// What an aspect in scope demands of an associated type.
pub open spec fn projection_aspects(
    c: ContextModel,
    aspect: Seq<char>,
    assoc: Seq<char>,
) -> Seq<Seq<char>> {
    match crate::aspect_decls::aspect_in(c.registry, c.module, aspect) {
        Some(e) => declared_aspects(e.assoc_type_decls, assoc, e.assoc_type_decls.len()),
        None => Seq::empty(),
    }
}

/// The context after a projection has been given a placeholder.
pub open spec fn projected(
    c: ContextModel,
    base: TypeVar,
    aspect: Seq<char>,
    assoc: Seq<char>,
) -> ContextModel {
    let v = TypeVar(c.next_var);
    let aspects = projection_aspects(c, aspect, assoc);
    ContextModel {
        next_var: (c.next_var + 1) as u32,
        projections: c.projections.insert((base, aspect, assoc), v),
        projection_log: c.projection_log.push((base, aspect, assoc, v)),
        bounds: aspects_added(c.bounds, v, aspects, aspects.len()),
        ..c
    }
}

/// The placeholder that a projection is given: the one that it has, or a new one.
pub open spec fn placeholder(c: ContextModel, p: (TypeVar, Seq<char>, Seq<char>)) -> TypeVar {
    match c.projections.get(p) {
        Some(known) => known,
        None => TypeVar(c.next_var),
    }
}

/// The context after a projection has been asked for. Where it is known, nothing
/// changes.
pub open spec fn requested(c: ContextModel, p: (TypeVar, Seq<char>, Seq<char>)) -> ContextModel {
    if c.projections.contains_key(p) {
        c
    } else {
        projected(c, p.0, p.1, p.2)
    }
}

/// The placeholder for the type of a field: the one that it has, or a new one.
pub open spec fn field_placeholder(c: ContextModel, f: (TypeVar, Seq<char>)) -> TypeVar {
    match c.row_fields.get(f) {
        Some(known) => known,
        None => TypeVar(c.next_var),
    }
}

/// The context after the type of a field has been asked for. Where it is known,
/// nothing changes.
pub open spec fn field_requested(c: ContextModel, f: (TypeVar, Seq<char>)) -> ContextModel {
    if c.row_fields.contains_key(f) {
        c
    } else {
        ContextModel {
            next_var: (c.next_var + 1) as u32,
            row_fields: c.row_fields.insert(f, TypeVar(c.next_var)),
            ..c
        }
    }
}

/// The deferrals among the first `k` that came out as no named or known type.
pub open spec fn unresolved(
    deferrals: Seq<(SpanModel, Seq<char>, TypeVar)>,
    m: Map<TypeVar, Term>,
    k: nat,
) -> Seq<(SpanModel, Seq<char>)>
    decreases k,
{
    if k == 0 {
        Seq::empty()
    } else {
        let prev = unresolved(deferrals, m, (k - 1) as nat);
        let d = deferrals[k - 1];
        let t = crate::constraints::value_of(m, d.2);
        if t.head is Named || t.head is Concrete {
            prev
        } else {
            prev.push((d.0, d.1))
        }
    }
}

/// The variables that occur in some binding.
pub open spec fn scope_vars(mono: Seq<Map<Seq<char>, (Term, bool)>>) -> Set<TypeVar> {
    Set::new(|v: TypeVar| occurs_in_some(mono, v))
}

/// Whether a variable occurs in some binding.
pub open spec fn occurs_in_some(mono: Seq<Map<Seq<char>, (Term, bool)>>, v: TypeVar) -> bool {
    exists|i: int| 0 <= i < mono.len() && occurs_in_scope(#[trigger] mono[i], v)
}

/// Whether a variable occurs in some binding of a scope.
pub open spec fn occurs_in_scope(scope: Map<Seq<char>, (Term, bool)>, v: TypeVar) -> bool {
    exists|name: Seq<char>| #[trigger]
        scope.contains_key(name) && crate::term::occurs(v, scope[name].0)
}

fn collect_scope_vars(scope: &Table<String, (InferType, bool)>, vars: &mut KeySet<TypeVar>)
    ensures
        forall|v: TypeVar| #[trigger]
            final(vars)@.contains(v) <==> old(vars)@.contains(v) || occurs_in_scope(scope@, v),
{
    let n: usize = scope.len();
    let mut i: usize = 0;
    while i < n
        invariant
            i <= n,
            n == scope.keys().len(),
            forall|j: int| 0 <= j < n ==> scope@.contains_key(#[trigger] scope.keys()[j]),
            forall|v: TypeVar| #[trigger]
                vars@.contains(v) <==> old(vars)@.contains(v) || exists|j: int|
                    0 <= j < i && crate::term::occurs(v, scope@[#[trigger] scope.keys()[j]].0),
        decreases n - i,
    {
        let ghost before = vars@;
        let entry = scope.value_at(i);
        crate::free_vars::collect_free_vars(&entry.0, vars);
        proof {
            let key = scope.keys()[i as int];
            assert(scope@[key] == entry.deep_view());
            assert forall|v: TypeVar| #[trigger] vars@.contains(v) <==> old(vars)@.contains(v)
                || exists|j: int|
                0 <= j < i + 1 && crate::term::occurs(
                    v,
                    scope@[#[trigger] scope.keys()[j]].0,
                ) by {
                assert(vars@.contains(v) <==> before.contains(v) || crate::term::occurs(
                    v,
                    scope@[key].0,
                ));
            }
        }
        i += 1;
    }
    let again: usize = scope.len();
    proof {
        assert forall|v: TypeVar| #[trigger] vars@.contains(v) <==> old(vars)@.contains(v)
            || occurs_in_scope(scope@, v) by {
            if occurs_in_scope(scope@, v) {
                let name = choose|name: Seq<char>| #[trigger]
                    scope@.contains_key(name) && crate::term::occurs(v, scope@[name].0);
                assert(scope.keys().contains(name));
                let j = choose|j: int| 0 <= j < scope.keys().len() && scope.keys()[j] == name;
                assert(crate::term::occurs(v, scope@[scope.keys()[j]].0));
            }
        }
    }
}

impl InferContext {
    /// Register deferred same-tier glob conflicts. The error comes at the use
    /// site.
    pub fn seed_glob_conflicts(&mut self, conflicts: Table<String, Vec<Vec<String>>>)
        ensures
            final(self)@ == (ContextModel { conflicts: conflicts@, ..old(self)@ }),
    {
        self.deferred_glob_conflicts = conflicts;
    }

    /// If `name` has a deferred same-tier glob conflict, return the error.
    /// Call this at every name use site before `lookup`.
    pub fn check_glob_conflict(&self, name: &str, span: &Span) -> (r: Option<MetelError>)
        ensures
            match r {
                Some(e) => self@.conflicts.contains_key(name@) && e@ == conflict_error(
                    name@,
                    self@.conflicts[name@],
                    span.deep_view(),
                ),
                None => !self@.conflicts.contains_key(name@),
            },
    {
        match self.deferred_glob_conflicts.get(&name.to_owned()) {
            Some(sources) => {
                let m0 = module_string(sources, 0);
                let m1 = module_string(sources, 1);
                let mut s = "import conflict: `".to_owned();
                s.append(name);
                s.append("` is exported by both `");
                s.append(m0.as_str());
                s.append("` and `");
                s.append(m1.as_str());
                s.append("`; use an explicit import to disambiguate: `import ");
                s.append(m0.as_str());
                s.append("::");
                s.append(name);
                s.append("` or `import ");
                s.append(m1.as_str());
                s.append("::");
                s.append(name);
                s.append("`");
                Some(MetelError::type_error(TypeErrorCode::T0011, s, span))
            },
            None => None,
        }
    }

    /// Install a new type-param map for the duration of a generic function body.
    /// Returns the previous map so it can be restored with a second call.
    pub fn swap_type_params(
        &mut self,
        map: Table<String, TypeVar>,
    ) -> (prev: Table<String, TypeVar>)
        ensures
            prev@ == old(self)@.type_params,
            final(self)@ == (ContextModel { type_params: map@, ..old(self)@ }),
    {
        let mut prev = map;
        std::mem::swap(&mut self.current_type_params, &mut prev);
        prev
    }

    /// Install new bounds for the duration of a generic function body.
    pub fn swap_type_param_bounds(
        &mut self,
        bounds: Table<TypeVar, Vec<GenericBound>>,
    ) -> (prev: Table<TypeVar, Vec<GenericBound>>)
        ensures
            prev@ == old(self)@.bounds,
            final(self)@ == (ContextModel { bounds: bounds@, ..old(self)@ }),
    {
        let mut prev = bounds;
        std::mem::swap(&mut self.current_type_param_bounds, &mut prev);
        prev
    }

    pub fn type_params(&self) -> (r: &Table<String, TypeVar>)
        ensures
            r@ == self@.type_params,
    {
        &self.current_type_params
    }

    /// Read-only view of all type-param bounds in the current scope.
    pub fn type_param_bounds(&self) -> (r: &Table<TypeVar, Vec<GenericBound>>)
        ensures
            r@ == self@.bounds,
    {
        &self.current_type_param_bounds
    }

    fn representative_of(&self, tv: TypeVar) -> (r: TypeVar)
        requires
            crate::subst_model::applies(self@.solution, crate::term::var(tv)),
        ensures
            r == representative(self@.solution, tv),
    {
        let ty = InferType::Var(tv);
        match self.cached_subst.apply(&ty) {
            InferType::Var(v) => v,
            _ => tv,
        }
    }

    /// Returns the bounds on a type-param variable in the current function
    /// scope. Bounds are tracked apart from the types themselves, so after
    /// unification the active representative may differ from the variable that
    /// the bounds were registered on. Merges bounds across the solved class.
    pub fn bounds_for_type_var(&self, tv: TypeVar) -> (r: Option<Vec<GenericBound>>)
        requires
            crate::subst_model::applies(self@.solution, crate::term::var(tv)),
            crate::constraints::values_settle(self@.solution, self@.bounds.dom()),
        ensures
            match r {
                Some(list) => list@.len() > 0 && class_bounds(
                    self@.bounds,
                    self@.solution,
                    tv,
                    list.deep_view(),
                ),
                None => class_bounds(self@.bounds, self@.solution, tv, Seq::empty()),
            },
    {
        let resolved = self.representative_of(tv);
        let mut merged: Vec<GenericBound> = match self.current_type_param_bounds.get(&tv) {
            Some(bounds) => bounds.dup(),
            None => Vec::new(),
        };
        proof {
            assert(merged.deep_view() =~= crate::table::list_at(self@.bounds, tv));
        }
        if resolved.0 != tv.0 {
            if let Some(bounds) = self.current_type_param_bounds.get(&resolved) {
                add_bounds(&mut merged, bounds);
            }
        }
        let ghost start = merged.deep_view();
        assert(start == own_bounds(self@.bounds, self@.solution, tv));
        let table = &self.current_type_param_bounds;
        let n: usize = table.len();
        let ghost order = table.keys();
        let mut i: usize = 0;
        while i < n
            invariant
                i <= n,
                n == order.len(),
                order == table.keys(),
                table@ == self@.bounds,
                table == self.current_type_param_bounds,
                crate::constraints::values_settle(self@.solution, self@.bounds.dom()),
                forall|j: int| 0 <= j < n ==> table@.contains_key(#[trigger] order[j]),
                resolved == representative(self@.solution, tv),
                merged.deep_view() == with_class(
                    start,
                    self@.bounds,
                    self@.solution,
                    order,
                    tv,
                    resolved,
                    i as nat,
                ),
            decreases n - i,
        {
            let candidate = *table.key_at(i);
            assert(candidate == order[i as int]);
            if candidate.0 != tv.0 && candidate.0 != resolved.0 {
                assert(self@.bounds.dom().contains(candidate));
                let root = self.representative_of(candidate);
                if root.0 == resolved.0 {
                    add_bounds(&mut merged, table.value_at(i));
                }
            }
            i += 1;
        }
        let again: usize = table.len();
        proof {
            assert(order.to_set() =~= self@.bounds.dom());
            assert(lists(order, self@.bounds.dom()));
            assert(merged.deep_view().len() == merged@.len());
            if merged@.len() == 0 {
                assert(merged.deep_view() =~= Seq::<BoundModel>::empty());
            }
        }
        if merged.len() == 0 {
            None
        } else {
            Some(merged)
        }
    }

    /// Register an aspect bound for a type variable.
    pub fn register_type_var_bound(&mut self, tv: TypeVar, aspect: String)
        ensures
            final(self)@ == (ContextModel {
                bounds: old(self)@.bounds.insert(
                    tv,
                    crate::table::list_at(old(self)@.bounds, tv).push(
                        BoundModel::Aspect(aspect@),
                    ),
                ),
                ..old(self)@
            }),
    {
        self.current_type_param_bounds.push_at(tv, GenericBound::Aspect(aspect));
    }

    /// Mark a type variable as an opaque return that should not be bound to
    /// concrete types.
    pub fn mark_opaque_return_var(&mut self, tv: TypeVar)
        ensures
            final(self)@ == (ContextModel {
                opaque_vars: old(self)@.opaque_vars.insert(tv),
                ..old(self)@
            }),
    {
        self.opaque_return_vars.insert(tv);
    }

    /// Swap in empty projection state for a new function or method body,
    /// returning the old state.
    pub fn swap_assoc_projections(&mut self) -> (r: (AssocProjectionMemo, AssocProjectionLog))
        ensures
            r.0@ == old(self)@.projections,
            r.1.deep_view() == old(self)@.projection_log,
            final(self)@ == (ContextModel {
                projections: Map::empty(),
                projection_log: Seq::empty(),
                ..old(self)@
            }),
    {
        let mut memo: AssocProjectionMemo = Table::new();
        let mut log: AssocProjectionLog = Vec::new();
        std::mem::swap(&mut self.current_assoc_projections, &mut memo);
        std::mem::swap(&mut self.recorded_assoc_projections, &mut log);
        assert(self@.projection_log =~= Seq::empty());
        (memo, log)
    }

    /// Restore previously-saved projection state (call when leaving a function or
    /// method body).
    pub fn restore_assoc_projections(&mut self, memo: AssocProjectionMemo, log: AssocProjectionLog)
        ensures
            final(self)@ == (ContextModel {
                projections: memo@,
                projection_log: log.deep_view(),
                ..old(self)@
            }),
    {
        self.current_assoc_projections = memo;
        self.recorded_assoc_projections = log;
    }

    fn demanded_names(bounds: &Vec<crate::ast::Bound>, names: &mut Vec<String>)
        ensures
            final(names).deep_view() == old(names).deep_view() + demanded(
                bounds.deep_view(),
                bounds.deep_view().len(),
            ),
    {
        let ghost start = names.deep_view();
        let mut i: usize = 0;
        assert(names.deep_view() =~= start + demanded(bounds.deep_view(), 0));
        while i < bounds.len()
            invariant
                i <= bounds.len(),
                names.deep_view() == start + demanded(bounds.deep_view(), i as nat),
            decreases bounds.len() - i,
        {
            let b = &bounds[i];
            assert(bounds.deep_view()[i as int] == b.deep_view());
            let ghost prev = names.deep_view();
            assert(prev.len() == names@.len());
            if let Polarity::Positive = b.polarity {
                if let Some(name) = b.aspect_name() {
                    names.push(name.clone());
                    assert(names.deep_view() =~= prev.push(name@));
                    assert(names.deep_view() =~= start + demanded(
                        bounds.deep_view(),
                        (i + 1) as nat,
                    ));
                }
            }
            i += 1;
        }
    }

    fn declared_names(&self, aspect_name: &str, assoc_name: &str) -> (names: Vec<String>)
        ensures
            names.deep_view() == projection_aspects(self@, aspect_name@, assoc_name@),
    {
        let mut names: Vec<String> = Vec::new();
        assert(names.deep_view() =~= Seq::<Seq<char>>::empty());
        if let Some(decls) = self.registry.aspect_assoc_type_decls_in(
            self.current_module_path.as_slice(),
            aspect_name,
        ) {
            let key = assoc_name.to_owned();
            let mut i: usize = 0;
            while i < decls.len()
                invariant
                    i <= decls.len(),
                    key@ == assoc_name@,
                    names.deep_view() == declared_aspects(
                        decls.deep_view(),
                        assoc_name@,
                        i as nat,
                    ),
                decreases decls.len() - i,
            {
                assert(decls.deep_view()[i as int] == decls@[i as int].deep_view());
                if decls[i].name == key {
                    InferContext::demanded_names(&decls[i].bounds, &mut names);
                }
                i += 1;
            }
        }
        names
    }

    /// Mint a fresh variable for the projection `T::AssocName` where `T` is
    /// `base_tv` and the method is declared in `aspect_name`. Reuses the same
    /// placeholder if the same projection was already minted in the current body.
    ///
    /// The associated type's own declared bounds are registered on the
    /// placeholder, so that a method call chained directly onto the projection
    /// can resolve the receiver's bound as for an ordinary bounded parameter.
    pub fn fresh_assoc_projection_var(
        &mut self,
        base_tv: TypeVar,
        aspect_name: &str,
        assoc_name: &str,
    ) -> (v: TypeVar)
        requires
            old(self)@.projections.contains_key((base_tv, aspect_name@, assoc_name@)) || old(
                self,
            )@.next_var < u32::MAX,
        ensures
            v == placeholder(old(self)@, (base_tv, aspect_name@, assoc_name@)),
            final(self)@ == requested(old(self)@, (base_tv, aspect_name@, assoc_name@)),
    {
        let ghost start = self@;
        let key = (base_tv, aspect_name.to_owned(), assoc_name.to_owned());
        if let Some(existing) = self.current_assoc_projections.get(&key) {
            return *existing;
        }
        let placeholder = self.var_gen.fresh();
        self.current_assoc_projections.insert(key, placeholder);
        self.recorded_assoc_projections.push(
            (base_tv, aspect_name.to_owned(), assoc_name.to_owned(), placeholder),
        );
        assert(self@.projection_log =~= start.projection_log.push(
            (base_tv, aspect_name@, assoc_name@, placeholder),
        ));
        let names = self.declared_names(aspect_name, assoc_name);
        let ghost aspects = names.deep_view();
        assert(aspects == projection_aspects(start, aspect_name@, assoc_name@));
        let ghost minted = self@;
        let mut i: usize = 0;
        while i < names.len()
            invariant
                i <= names.len(),
                aspects == names.deep_view(),
                self@ == (ContextModel {
                    bounds: aspects_added(start.bounds, placeholder, aspects, i as nat),
                    ..minted
                }),
            decreases names.len() - i,
        {
            assert(aspects[i as int] == names@[i as int]@);
            self.register_type_var_bound(placeholder, names[i].clone());
            i += 1;
        }
        placeholder
    }

    /// Drain the accumulated projection log. Call after `solve` to build the
    /// scheme's projections.
    pub fn take_recorded_assoc_projections(&mut self) -> (log: AssocProjectionLog)
        ensures
            log.deep_view() == old(self)@.projection_log,
            final(self)@ == (ContextModel { projection_log: Seq::empty(), ..old(self)@ }),
    {
        let mut log: AssocProjectionLog = Vec::new();
        std::mem::swap(&mut self.recorded_assoc_projections, &mut log);
        assert(self@.projection_log =~= Seq::empty());
        log
    }

    /// Swap in an empty row-field memo for a new function or method body,
    /// returning the old state.
    pub fn swap_row_field_vars(&mut self) -> (r: Table<(TypeVar, String), TypeVar>)
        ensures
            r@ == old(self)@.row_fields,
            final(self)@ == (ContextModel { row_fields: Map::empty(), ..old(self)@ }),
    {
        let mut memo: Table<(TypeVar, String), TypeVar> = Table::new();
        std::mem::swap(&mut self.current_row_field_vars, &mut memo);
        memo
    }

    /// Restore a previously-saved row-field memo.
    pub fn restore_row_field_vars(&mut self, memo: Table<(TypeVar, String), TypeVar>)
        ensures
            final(self)@ == (ContextModel { row_fields: memo@, ..old(self)@ }),
    {
        self.current_row_field_vars = memo;
    }

    /// Mint a fresh variable for an untyped row-bound field's type. Reuses the
    /// same placeholder if `field` on `base_tv` was already accessed in the
    /// current body, so that repeated accesses agree on a type.
    pub fn fresh_row_field_var(&mut self, base_tv: TypeVar, field: &str) -> (v: TypeVar)
        requires
            old(self)@.row_fields.contains_key((base_tv, field@)) || old(self)@.next_var
                < u32::MAX,
        ensures
            v == field_placeholder(old(self)@, (base_tv, field@)),
            final(self)@ == field_requested(old(self)@, (base_tv, field@)),
    {
        let key = (base_tv, field.to_owned());
        if let Some(existing) = self.current_row_field_vars.get(&key) {
            return *existing;
        }
        let placeholder = self.var_gen.fresh();
        self.current_row_field_vars.insert(key, placeholder);
        placeholder
    }

    /// Record that `var` was minted for the declared generic parameter `name`.
    /// Overwrites any previous tag for `var`.
    pub fn tag_declared_var_name(&mut self, var: TypeVar, name: String)
        ensures
            final(self)@ == (ContextModel {
                var_names: old(self)@.var_names.insert(var, name@),
                ..old(self)@
            }),
    {
        self.declared_var_names.insert(var, name);
    }

    /// Install the module's free-function overload table.
    pub fn set_overloads(&mut self, overloads: OverloadTable)
        ensures
            final(self)@ == (ContextModel { overloads: overloads@, ..old(self)@ }),
    {
        self.overloads = overloads;
    }

    /// Whether `name` has more than one free-function definition in this module.
    pub fn is_overloaded(&self, name: &str) -> (b: bool)
        ensures
            b == self@.overloads.contains_key(name@),
    {
        self.overloads.contains_key(&name.to_owned())
    }

    /// The overload candidates for `name`, or `None` if it is not overloaded.
    pub fn overload_candidates(&self, name: &str) -> (r: Option<&Vec<OverloadEntry>>)
        ensures
            r.deep_view() == self@.overloads.get(name@),
    {
        self.overloads.get(&name.to_owned())
    }

    /// Record a bare identifier deferred until the expected type is known, so an
    /// unresolvable one can be reported after solving.
    pub fn record_variant_deferral(&mut self, span: Span, name: String, var: TypeVar)
        ensures
            final(self)@ == (ContextModel {
                deferrals: old(self)@.deferrals.push((span.deep_view(), name@, var)),
                ..old(self)@
            }),
    {
        let ghost before = self@.deferrals;
        let ghost item = (span.deep_view(), name@, var);
        assert(before.len() == self.variant_deferrals@.len());
        self.variant_deferrals.push((span, name, var));
        assert(self@.deferrals =~= before.push(item));
    }

    /// Bare-variant deferrals that never resolved to a concrete enum: those
    /// whose stand-in variable is still a variable, or became `!`.
    pub fn unresolved_variant_deferrals(&self, subst: &Substitution) -> (r: Vec<(Span, String)>)
        requires
            forall|i: int|
                0 <= i < self@.deferrals.len() ==> crate::subst_model::applies(
                    subst@,
                    crate::term::var((#[trigger] self@.deferrals[i]).2),
                ),
        ensures
            r.deep_view() == unresolved(self@.deferrals, subst@, self@.deferrals.len()),
    {
        let items = &self.variant_deferrals;
        let mut out: Vec<(Span, String)> = Vec::new();
        let mut i: usize = 0;
        assert(out.deep_view() =~= Seq::<(SpanModel, Seq<char>)>::empty());
        while i < items.len()
            invariant
                i <= items.len(),
                items.deep_view() == self@.deferrals,
                forall|i: int|
                    0 <= i < self@.deferrals.len() ==> crate::subst_model::applies(
                        subst@,
                        crate::term::var((#[trigger] self@.deferrals[i]).2),
                    ),
                out.deep_view() == unresolved(self@.deferrals, subst@, i as nat),
            decreases items.len() - i,
        {
            let d = &items[i];
            assert(self@.deferrals[i as int] == d.deep_view());
            let ty = InferType::Var(d.2);
            let ghost prev = out.deep_view();
            assert(prev.len() == out@.len());
            match subst.apply(&ty) {
                InferType::Named(_, _) => {},
                InferType::Concrete(_) => {},
                _ => {
                    out.push((d.0.dup(), d.1.clone()));
                    assert(out.deep_view() =~= prev.push((d.0.deep_view(), d.1@)));
                },
            }
            i += 1;
        }
        out
    }

    /// Collect all type variables that appear free across all current mono
    /// scopes. Pass this to `generalize` to avoid capturing variables still being
    /// solved.
    pub fn env_free_vars(&self) -> (r: KeySet<TypeVar>)
        ensures
            r@ == scope_vars(self@.mono),
    {
        let mut vars: KeySet<TypeVar> = KeySet::new();
        let mut i: usize = 0;
        while i < self.mono_env.len()
            invariant
                i <= self.mono_env.len(),
                forall|v: TypeVar| #[trigger]
                    vars@.contains(v) <==> exists|j: int|
                        0 <= j < i && occurs_in_scope(#[trigger] self@.mono[j], v),
            decreases self.mono_env.len() - i,
        {
            let ghost before = vars@;
            let scope = &self.mono_env[i];
            collect_scope_vars(scope, &mut vars);
            proof {
                assert(self@.mono[i as int] == scope@);
                assert forall|v: TypeVar| #[trigger] vars@.contains(v) <==> exists|j: int|
                    0 <= j < i + 1 && occurs_in_scope(#[trigger] self@.mono[j], v) by {
                    assert(vars@.contains(v) <==> before.contains(v) || occurs_in_scope(
                        self@.mono[i as int],
                        v,
                    ));
                }
            }
            i += 1;
        }
        proof {
            assert(vars@ =~= scope_vars(self@.mono));
        }
        vars
    }

    pub fn record_closure_return_type(&mut self, span: Span, ty: InferType)
        ensures
            final(self)@ == (ContextModel {
                closure_types: old(self)@.closure_types.insert(span.deep_view(), ty.term()),
                ..old(self)@
            }),
    {
        self.closure_types.insert(span, ty);
    }

    pub fn closure_return_types(&self) -> (r: &Table<Span, InferType>)
        ensures
            r@ == self@.closure_types,
    {
        &self.closure_types
    }

    /// Set the expected return type for the current function, returning the
    /// previous value, which `pop_return_type` restores on function exit.
    pub fn push_return_type(&mut self, ty: InferType) -> (prev: Option<InferType>)
        ensures
            prev.deep_view() == old(self)@.return_type,
            final(self)@ == (ContextModel { return_type: Some(ty.term()), ..old(self)@ }),
    {
        let mut prev = Some(ty);
        std::mem::swap(&mut self.current_return_type, &mut prev);
        prev
    }

    /// Restore the return type context after leaving a function body.
    pub fn pop_return_type(&mut self, prev: Option<InferType>)
        ensures
            final(self)@ == (ContextModel { return_type: prev.deep_view(), ..old(self)@ }),
    {
        self.current_return_type = prev;
    }

    /// The expected return type of the innermost enclosing function, if any.
    pub fn current_return_type(&self) -> (r: Option<&InferType>)
        ensures
            r.deep_view() == self@.return_type,
    {
        self.current_return_type.as_ref()
    }

    /// Set the type that the current loop breaks with, returning the previous
    /// value.
    pub fn push_break_type(&mut self, ty: InferType) -> (prev: Option<InferType>)
        ensures
            prev.deep_view() == old(self)@.break_type,
            final(self)@ == (ContextModel { break_type: Some(ty.term()), ..old(self)@ }),
    {
        let mut prev = Some(ty);
        std::mem::swap(&mut self.current_break_type, &mut prev);
        prev
    }

    /// Restore the break type after leaving a loop.
    pub fn pop_break_type(&mut self, prev: Option<InferType>)
        ensures
            final(self)@ == (ContextModel { break_type: prev.deep_view(), ..old(self)@ }),
    {
        self.current_break_type = prev;
    }

    /// The type that the innermost enclosing loop breaks with, if any.
    pub fn current_break_type(&self) -> (r: Option<&InferType>)
        ensures
            r.deep_view() == self@.break_type,
    {
        self.current_break_type.as_ref()
    }

    pub fn enter_loop(&mut self)
        requires
            old(self)@.loop_depth < usize::MAX,
        ensures
            final(self)@ == (ContextModel {
                loop_depth: (old(self)@.loop_depth + 1) as usize,
                ..old(self)@
            }),
    {
        self.loop_depth = self.loop_depth + 1;
    }

    pub fn exit_loop(&mut self)
        requires
            old(self)@.loop_depth > 0,
        ensures
            final(self)@ == (ContextModel {
                loop_depth: (old(self)@.loop_depth - 1) as usize,
                ..old(self)@
            }),
    {
        self.loop_depth = self.loop_depth - 1;
    }

    /// Starts counting loops anew, returning the depth so far.
    pub fn push_loop_depth_reset(&mut self) -> (prev: usize)
        ensures
            prev == old(self)@.loop_depth,
            final(self)@ == (ContextModel { loop_depth: 0, ..old(self)@ }),
    {
        let prev: usize = self.loop_depth;
        self.loop_depth = 0;
        prev
    }

    pub fn pop_loop_depth(&mut self, prev: usize)
        ensures
            final(self)@ == (ContextModel { loop_depth: prev, ..old(self)@ }),
    {
        self.loop_depth = prev;
    }

    pub fn is_in_loop(&self) -> (b: bool)
        ensures
            b == (self@.loop_depth > 0),
    {
        self.loop_depth > 0
    }
}

} // verus!
