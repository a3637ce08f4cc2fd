//! Type schemes: generalization and instantiation.

use crate::bounds::{BoundModel, GenericBound};
use crate::data::Dup;
use crate::free_vars::free_vars;
use crate::infer_type::InferType;
use crate::substitution::Substitution;
use crate::table::{KeySet, Table};
use crate::term::{Term, TypeVar};
use crate::text::join;
use crate::types::Type;
use vstd::prelude::*;
use vstd::string::*;

verus! {

/// Counter for generating fresh type variables.
///
/// Two variables with the same number are the same variable. All generators
/// within a single type-check run must therefore be coordinated: each new one
/// must start past the highest counter value of any earlier one.
pub struct TypeVarGenerator {
    counter: u32,
}

impl View for TypeVarGenerator {
    type V = u32;

    closed spec fn view(&self) -> u32 {
        self.counter
    }
}

impl TypeVarGenerator {
    /// Create a new type variable generator.
    pub fn new() -> (g: Self)
        ensures
            g@ == 0,
    {
        TypeVarGenerator { counter: 0 }
    }

    pub fn with_counter(start: u32) -> (g: Self)
        ensures
            g@ == start,
    {
        TypeVarGenerator { counter: start }
    }

    /// Generate a fresh type variable.
    pub fn fresh(&mut self) -> (v: TypeVar)
        requires
            old(self)@ < u32::MAX,
        ensures
            v == TypeVar(old(self)@),
            final(self)@ == old(self)@ + 1,
    {
        let var = TypeVar(self.counter);
        self.counter = self.counter + 1;
        var
    }

    /// Get the current counter state.
    pub fn counter(&self) -> (n: u32)
        ensures
            n == self@,
    {
        self.counter
    }
}

impl Default for TypeVarGenerator {
    fn default() -> (g: Self)
        ensures
            g@ == 0,
    {
        TypeVarGenerator::new()
    }
}

/// Associated-type equality constraints per type variable: a list of
/// `(aspect, assoc_name, expected_type)` triples.
pub type AssocEqConstraints = Table<TypeVar, Vec<(String, String, InferType)>>;

/// A universally quantified type: `∀ quantified_vars. ty`.
///
/// Variables in `quantified_vars` are locally owned — each use site gets
/// fresh copies via `instantiate`, enabling let-polymorphism. The other lists
/// are empty, or hold one entry per quantified variable, in the same order.
pub struct TypeScheme {
    pub quantified_vars: Vec<TypeVar>,
    /// Source-level names. Empty for builtins.
    pub param_names: Vec<String>,
    /// Positive bounds.
    pub bounds: Vec<Vec<GenericBound>>,
    /// Negative bounds.
    pub neg_bounds: Vec<Vec<GenericBound>>,
    /// Which variables stand for records.
    pub record_kinds: Vec<bool>,
    /// Associated-type projections: the position, the aspect, the associated
    /// type and the placeholder that stands for the projection.
    pub assoc_projections: Vec<Option<(usize, String, String, TypeVar)>>,
    /// Equality constraints on associated types.
    pub assoc_eq_constraints: Vec<Vec<(String, String, InferType)>>,
    /// Opaque returns: the aspect, and the concrete type that it hides.
    pub opaque_returns: Vec<Option<(String, Type)>>,
    pub ty: InferType,
}

/// What a scheme says.
pub struct SchemeModel {
    pub vars: Seq<TypeVar>,
    pub names: Seq<Seq<char>>,
    pub bounds: Seq<Seq<BoundModel>>,
    pub neg_bounds: Seq<Seq<BoundModel>>,
    pub record_kinds: Seq<bool>,
    pub assoc_projections: Seq<Option<(usize, Seq<char>, Seq<char>, TypeVar)>>,
    pub assoc_eq_constraints: Seq<Seq<(Seq<char>, Seq<char>, Term)>>,
    pub opaque_returns: Seq<Option<(Seq<char>, Term)>>,
    pub ty: Term,
}

impl DeepView for TypeScheme {
    type V = SchemeModel;

    open spec fn deep_view(&self) -> SchemeModel {
        SchemeModel {
            vars: self.quantified_vars.deep_view(),
            names: self.param_names.deep_view(),
            bounds: self.bounds.deep_view(),
            neg_bounds: self.neg_bounds.deep_view(),
            record_kinds: self.record_kinds.deep_view(),
            assoc_projections: self.assoc_projections.deep_view(),
            assoc_eq_constraints: self.assoc_eq_constraints.deep_view(),
            opaque_returns: self.opaque_returns.deep_view(),
            ty: self.ty.term(),
        }
    }
}

impl View for TypeScheme {
    type V = SchemeModel;

    open spec fn view(&self) -> SchemeModel {
        self.deep_view()
    }
}

impl Dup for TypeScheme {
    fn dup(&self) -> (r: Self) {
        TypeScheme {
            quantified_vars: self.quantified_vars.dup(),
            param_names: self.param_names.dup(),
            bounds: self.bounds.dup(),
            neg_bounds: self.neg_bounds.dup(),
            record_kinds: self.record_kinds.dup(),
            assoc_projections: self.assoc_projections.dup(),
            assoc_eq_constraints: self.assoc_eq_constraints.dup(),
            opaque_returns: self.opaque_returns.dup(),
            ty: self.ty.dup(),
        }
    }
}

impl Clone for TypeScheme {
    fn clone(&self) -> (r: Self)
        ensures
            r@ == self@,
    {
        self.dup()
    }
}

/// A scheme that quantifies over `vars` and says nothing else of them.
pub open spec fn plain_scheme(vars: Seq<TypeVar>, ty: Term) -> SchemeModel {
    SchemeModel {
        vars,
        names: Seq::empty(),
        bounds: Seq::empty(),
        neg_bounds: Seq::empty(),
        record_kinds: Seq::empty(),
        assoc_projections: Seq::empty(),
        assoc_eq_constraints: Seq::empty(),
        opaque_returns: Seq::empty(),
        ty,
    }
}

/// The list under each variable, empty where there is none.
pub open spec fn lists_for<V>(vars: Seq<TypeVar>, by_var: Map<TypeVar, Seq<V>>) -> Seq<Seq<V>> {
    Seq::new(
        vars.len(),
        |i: int|
            if by_var.contains_key(vars[i]) {
                by_var[vars[i]]
            } else {
                Seq::empty()
            },
    )
}

/// Whether no list holds anything.
pub open spec fn all_lists_empty<V>(by_var: Map<TypeVar, Seq<V>>) -> bool {
    forall|v: TypeVar| #[trigger] by_var.contains_key(v) ==> by_var[v].len() == 0
}

fn collect_lists<V: Dup>(vars: &Vec<TypeVar>, by_var: &Table<TypeVar, Vec<V>>) -> (r: Vec<Vec<V>>)
    ensures
        r.deep_view() == lists_for(vars.deep_view(), by_var@),
{
    let ghost want = lists_for(vars.deep_view(), by_var@);
    let mut out: Vec<Vec<V>> = Vec::new();
    let mut i: usize = 0;
    while i < vars.len()
        invariant
            i <= vars.len(),
            out@.len() == i,
            want == lists_for(vars.deep_view(), by_var@),
            forall|j: int| 0 <= j < i ==> (#[trigger] out@[j]).deep_view() == want[j],
        decreases vars.len() - i,
    {
        let item = match by_var.get(&vars[i]) {
            Some(list) => list.dup(),
            None => Vec::new(),
        };
        proof {
            assert(item.deep_view() =~= want[i as int]);
        }
        out.push(item);
        i += 1;
    }
    proof {
        assert(out.deep_view() =~= want);
    }
    out
}

fn lists_are_empty<V: Dup>(by_var: &Table<TypeVar, Vec<V>>) -> (b: bool)
    ensures
        b == all_lists_empty(by_var@),
{
    let n: usize = by_var.len();
    let mut i: usize = 0;
    while i < n
        invariant
            i <= n,
            n == by_var.keys().len(),
            forall|j: int| 0 <= j < i ==> by_var@[#[trigger] by_var.keys()[j]].len() == 0,
        decreases n - i,
    {
        if by_var.value_at(i).len() != 0 {
            assert(by_var@.contains_key(by_var.keys()[i as int]));
            return false;
        }
        i += 1;
    }
    let again: usize = by_var.len();
    proof {
        assert forall|v: TypeVar| #[trigger] by_var@.contains_key(v) implies by_var@[v].len()
            == 0 by {
            assert(by_var.keys().contains(v));
        }
    }
    true
}

/// Whether an entry of the projections of a scheme is the right one: that of
/// its variable, or else one for its position.
pub open spec fn projection_for(
    entry: Option<(usize, Seq<char>, Seq<char>, TypeVar)>,
    i: int,
    v: TypeVar,
    map: Map<TypeVar, (usize, Seq<char>, Seq<char>, TypeVar)>,
) -> bool {
    if map.contains_key(v) {
        entry == Some(map[v])
    } else {
        match entry {
            Some(p) => p.0 == i && exists|w: TypeVar| #[trigger] map.contains_key(w) && map[w] == p,
            None => forall|w: TypeVar| #[trigger] map.contains_key(w) ==> map[w].0 != i,
        }
    }
}

impl TypeScheme {
    /// A monomorphic scheme — no quantified variables.
    pub fn mono(ty: InferType) -> (s: Self)
        ensures
            s@ == plain_scheme(Seq::empty(), ty.term()),
    {
        let s = TypeScheme::over(Vec::new(), ty);
        proof {
            assert(s@.vars =~= Seq::<TypeVar>::empty());
        }
        s
    }

    fn over(vars: Vec<TypeVar>, ty: InferType) -> (s: Self)
        ensures
            s@ == plain_scheme(vars.deep_view(), ty.term()),
    {
        let s = TypeScheme {
            quantified_vars: vars,
            param_names: Vec::new(),
            bounds: Vec::new(),
            neg_bounds: Vec::new(),
            record_kinds: Vec::new(),
            assoc_projections: Vec::new(),
            assoc_eq_constraints: Vec::new(),
            opaque_returns: Vec::new(),
            ty,
        };
        proof {
            assert(s@.names =~= Seq::<Seq<char>>::empty());
            assert(s@.bounds =~= Seq::<Seq<BoundModel>>::empty());
            assert(s@.neg_bounds =~= Seq::<Seq<BoundModel>>::empty());
            assert(s@.record_kinds =~= Seq::<bool>::empty());
            assert(s@.assoc_projections =~= Seq::<
                Option<(usize, Seq<char>, Seq<char>, TypeVar)>,
            >::empty());
            assert(s@.assoc_eq_constraints =~= Seq::<
                Seq<(Seq<char>, Seq<char>, Term)>,
            >::empty());
            assert(s@.opaque_returns =~= Seq::<Option<(Seq<char>, Term)>>::empty());
        }
        s
    }

    /// Attach per-var aspect bounds, given a `TypeVar` → bounds map. Robust to
    /// quantifier ordering: each quantified var looks up its own entry.
    pub fn with_bounds(self, by_var: &Table<TypeVar, Vec<GenericBound>>) -> (r: Self)
        ensures
            r@ == (if all_lists_empty(by_var@) {
                self@
            } else {
                SchemeModel { bounds: lists_for(self@.vars, by_var@), ..self@ }
            }),
    {
        if lists_are_empty(by_var) {
            return self;
        }
        let bounds = collect_lists(&self.quantified_vars, by_var);
        TypeScheme { bounds, ..self }
    }

    /// Attach per-var negative aspect bounds, mirroring `with_bounds`.
    pub fn with_neg_bounds(self, by_var: &Table<TypeVar, Vec<GenericBound>>) -> (r: Self)
        ensures
            r@ == (if all_lists_empty(by_var@) {
                self@
            } else {
                SchemeModel { neg_bounds: lists_for(self@.vars, by_var@), ..self@ }
            }),
    {
        if lists_are_empty(by_var) {
            return self;
        }
        let neg_bounds = collect_lists(&self.quantified_vars, by_var);
        TypeScheme { neg_bounds, ..self }
    }

    /// Attach per-var equality constraints on associated types.
    pub fn with_assoc_eq_constraints(self, by_var: &AssocEqConstraints) -> (r: Self)
        ensures
            r@ == (if all_lists_empty(by_var@) {
                self@
            } else {
                SchemeModel { assoc_eq_constraints: lists_for(self@.vars, by_var@), ..self@ }
            }),
    {
        if lists_are_empty(by_var) {
            return self;
        }
        let assoc_eq_constraints = collect_lists(&self.quantified_vars, by_var);
        TypeScheme { assoc_eq_constraints, ..self }
    }

    /// Attach the record-kinded flags, unless none is set.
    pub fn with_record_kinds(self, by_var: &Table<TypeVar, bool>) -> (r: Self)
        ensures
            r@ == (if forall|v: TypeVar| #[trigger] by_var@.contains_key(v) ==> !by_var@[v] {
                self@
            } else {
                SchemeModel {
                    record_kinds: Seq::new(
                        self@.vars.len(),
                        |i: int| by_var@.contains_key(self@.vars[i]) && by_var@[self@.vars[i]],
                    ),
                    ..self@
                }
            }),
    {
        let n: usize = by_var.len();
        let mut any = false;
        let mut i: usize = 0;
        while i < n
            invariant
                i <= n,
                n == by_var.keys().len(),
                any == exists|j: int| 0 <= j < i && by_var@[#[trigger] by_var.keys()[j]],
            decreases n - i,
        {
            if *by_var.value_at(i) {
                assert(by_var@[by_var.keys()[i as int]]);
                any = true;
            }
            i += 1;
        }
        let again: usize = by_var.len();
        proof {
            if any {
                let j = choose|j: int| 0 <= j < n && by_var@[#[trigger] by_var.keys()[j]];
                assert(by_var.keys().contains(by_var.keys()[j]));
                assert(by_var@.contains_key(by_var.keys()[j]));
            } else {
                assert forall|v: TypeVar| #[trigger] by_var@.contains_key(v) implies !by_var@[v] by {
                    assert(by_var.keys().contains(v));
                }
            }
        }
        if !any {
            return self;
        }
        let vars = &self.quantified_vars;
        let mut kinds: Vec<bool> = Vec::new();
        let mut k: usize = 0;
        while k < vars.len()
            invariant
                k <= vars.len(),
                kinds@.len() == k,
                forall|j: int|
                    0 <= j < k ==> #[trigger] kinds@[j] == (by_var@.contains_key(vars@[j])
                        && by_var@[vars@[j]]),
            decreases vars.len() - k,
        {
            let flag = match by_var.get(&vars[k]) {
                Some(flag) => *flag,
                None => false,
            };
            kinds.push(flag);
            k += 1;
        }
        let ghost want = Seq::new(
            self@.vars.len(),
            |i: int| by_var@.contains_key(self@.vars[i]) && by_var@[self@.vars[i]],
        );
        proof {
            assert(kinds.deep_view() =~= want);
        }
        TypeScheme { record_kinds: kinds, ..self }
    }

    /// Attach per-quantified-var associated-type projection metadata. Each
    /// entry in `proj_map` maps a quantified `TypeVar` to its projection; a
    /// variable without one takes a projection that is made for its position.
    pub fn with_assoc_projections(
        self,
        proj_map: &Table<TypeVar, (usize, String, String, TypeVar)>,
    ) -> (r: Self)
        ensures
            if proj_map@ == Map::<TypeVar, (usize, Seq<char>, Seq<char>, TypeVar)>::empty() {
                r@ == self@
            } else {
                &&& r@ == (SchemeModel { assoc_projections: r@.assoc_projections, ..self@ })
                &&& r@.assoc_projections.len() == self@.vars.len()
                &&& forall|i: int|
                    0 <= i < self@.vars.len() ==> projection_for(
                        #[trigger] r@.assoc_projections[i],
                        i,
                        self@.vars[i],
                        proj_map@,
                    )
            },
    {
        let n: usize = proj_map.len();
        if n == 0 {
            proof {
                assert(proj_map@ =~= Map::empty());
            }
            return self;
        }
        proof {
            assert(proj_map.keys().contains(proj_map.keys()[0]));
            assert(proj_map@.contains_key(proj_map.keys()[0]));
        }
        let vars = &self.quantified_vars;
        let mut out: Vec<Option<(usize, String, String, TypeVar)>> = Vec::new();
        let mut k: usize = 0;
        while k < vars.len()
            invariant
                k <= vars.len(),
                n == proj_map.keys().len(),
                forall|w: TypeVar| #[trigger]
                    proj_map@.contains_key(w) <==> proj_map.keys().contains(w),
                out@.len() == k,
                forall|j: int|
                    0 <= j < k ==> projection_for(
                        (#[trigger] out@[j]).deep_view(),
                        j,
                        vars@[j],
                        proj_map@,
                    ),
            decreases vars.len() - k,
        {
            let entry = match proj_map.get(&vars[k]) {
                Some(p) => Some(p.dup()),
                None => {
                    let mut found: Option<(usize, String, String, TypeVar)> = None;
                    let mut i: usize = 0;
                    while i < n && found.is_none()
                        invariant
                            i <= n,
                            n == proj_map.keys().len(),
                            match found.deep_view() {
                                Some(p) => p.0 == k && exists|w: TypeVar| #[trigger]
                                    proj_map@.contains_key(w) && proj_map@[w] == p,
                                None => forall|j: int|
                                    0 <= j < i ==> proj_map@[#[trigger] proj_map.keys()[j]].0 != k,
                            },
                        decreases n - i,
                    {
                        let p = proj_map.value_at(i);
                        if p.0 == k {
                            found = Some(p.dup());
                            assert(proj_map@.contains_key(proj_map.keys()[i as int]));
                        }
                        i += 1;
                    }
                    proof {
                        if found is None {
                            assert forall|w: TypeVar| #[trigger]
                                proj_map@.contains_key(w) implies proj_map@[w].0 != k by {
                                assert(proj_map.keys().contains(w));
                            }
                        }
                    }
                    found
                },
            };
            out.push(entry);
            k += 1;
        }
        let r = TypeScheme { assoc_projections: out, ..self };
        proof {
            assert forall|i: int| 0 <= i < self@.vars.len() implies projection_for(
                #[trigger] r@.assoc_projections[i],
                i,
                self@.vars[i],
                proj_map@,
            ) by {
                assert(r@.assoc_projections[i] == out@[i].deep_view());
            }
        }
        r
    }

    /// Attach per-var opaque-return metadata, given a `TypeVar` →
    /// `(aspect_name, concrete_type)` map.
    pub fn with_opaque_returns(self, by_var: &Table<TypeVar, (String, Type)>) -> (r: Self)
        ensures
            r@ == (if by_var@ == Map::<TypeVar, (Seq<char>, Term)>::empty() {
                self@
            } else {
                SchemeModel {
                    opaque_returns: Seq::new(
                        self@.vars.len(),
                        |i: int| by_var@.get(self@.vars[i]),
                    ),
                    ..self@
                }
            }),
    {
        let n: usize = by_var.len();
        if n == 0 {
            proof {
                assert(by_var@ =~= Map::empty());
            }
            return self;
        }
        proof {
            assert(by_var.keys().contains(by_var.keys()[0]));
            assert(by_var@.contains_key(by_var.keys()[0]));
        }
        let ghost want = Seq::new(self@.vars.len(), |i: int| by_var@.get(self@.vars[i]));
        let vars = &self.quantified_vars;
        let mut out: Vec<Option<(String, Type)>> = Vec::new();
        let mut k: usize = 0;
        while k < vars.len()
            invariant
                k <= vars.len(),
                out@.len() == k,
                want.len() == vars@.len(),
                forall|j: int| 0 <= j < vars@.len() ==> #[trigger] want[j] == by_var@.get(vars@[j]),
                forall|j: int| 0 <= j < k ==> (#[trigger] out@[j]).deep_view() == want[j],
            decreases vars.len() - k,
        {
            let item = match by_var.get(&vars[k]) {
                Some(p) => Some(p.dup()),
                None => None,
            };
            out.push(item);
            k += 1;
        }
        proof {
            assert(out.deep_view() =~= want);
        }
        TypeScheme { opaque_returns: out, ..self }
    }

    /// The scheme as diagnostics show it.
    pub fn to_string(&self) -> (s: String)
        ensures
            s@ == scheme_text(self@),
    {
        let vars = &self.quantified_vars;
        if vars.len() == 0 {
            return self.ty.to_string();
        }
        let ghost want = Seq::new(
            self@.vars.len(),
            |i: int| crate::term::text(crate::term::var(self@.vars[i])),
        );
        let mut parts: Vec<String> = Vec::new();
        let mut i: usize = 0;
        while i < vars.len()
            invariant
                i <= vars.len(),
                parts@.len() == i,
                want.len() == vars@.len(),
                forall|j: int|
                    0 <= j < vars@.len() ==> #[trigger] want[j] == crate::term::text(
                        crate::term::var(vars@[j]),
                    ),
                forall|j: int| 0 <= j < i ==> (#[trigger] parts@[j])@ == want[j],
            decreases vars.len() - i,
        {
            parts.push(vars[i].to_string());
            i += 1;
        }
        proof {
            assert(parts.deep_view() =~= want);
        }
        let mut s = "∀".to_owned();
        s.append(join(&parts, ", ").as_str());
        s.append(". ");
        s.append(self.ty.to_string().as_str());
        s
    }
}

/// A scheme as diagnostics show it.
pub open spec fn scheme_text(s: SchemeModel) -> Seq<char> {
    if s.vars.len() == 0 {
        crate::term::text(s.ty)
    } else {
        "∀"@ + crate::text::joined(
            Seq::new(
                s.vars.len(),
                |i: int| crate::term::text(crate::term::var(s.vars[i])),
            ),
            ", "@,
        ) + ". "@ + crate::term::text(s.ty)
    }
}

/// Whether variables stand in ascending order, each once.
pub open spec fn ascending(vars: Seq<TypeVar>) -> bool {
    forall|i: int, j: int| 0 <= i < j < vars.len() ==> (#[trigger] vars[i]).0 < (#[trigger] vars[j]).0
}

/// Whether a list is that of the variables of a type outside a set, in order.
pub open spec fn quantifies(vars: Seq<TypeVar>, ty: Term, env: Set<TypeVar>) -> bool {
    &&& ascending(vars)
    &&& forall|v: TypeVar| #[trigger]
        vars.contains(v) <==> crate::term::occurs(v, ty) && !env.contains(v)
}

/// Puts a variable into an ascending list at its place.
fn insert_sorted(vars: &mut Vec<TypeVar>, v: TypeVar)
    requires
        ascending(old(vars)@),
        !old(vars)@.contains(v),
    ensures
        ascending(final(vars)@),
        forall|w: TypeVar| #[trigger] final(vars)@.contains(w) <==> old(vars)@.contains(w) || w == v,
{
    let mut i: usize = 0;
    while i < vars.len() && vars[i].0 < v.0
        invariant
            i <= vars.len(),
            vars@ == old(vars)@,
            forall|j: int| 0 <= j < i ==> (#[trigger] vars@[j]).0 < v.0,
        decreases vars.len() - i,
    {
        i += 1;
    }
    proof {
        let s = vars@;
        if i < s.len() {
            assert(s[i as int].0 != v.0) by {
                if s[i as int].0 == v.0 {
                    assert(s[i as int] == v);
                    assert(s.contains(v));
                }
            }
        }
        let t = s.insert(i as int, v);
        assert forall|a: int, b: int| 0 <= a < b < t.len() implies (#[trigger] t[a]).0 < (
        #[trigger] t[b]).0 by {
            let a2 = if a < i {
                a
            } else {
                a - 1
            };
            let b2 = if b < i {
                b
            } else {
                b - 1
            };
            if a == i {
                assert(s[i as int].0 > v.0);
                assert(t[b] == s[b2]);
                if b2 > i {
                    assert(s[i as int].0 < s[b2].0);
                }
            } else if b == i {
                assert(t[a] == s[a2]);
            } else {
                assert(t[a] == s[a2] && t[b] == s[b2]);
            }
        }
        assert forall|w: TypeVar| #[trigger] t.contains(w) <==> s.contains(w) || w == v by {
            if s.contains(w) {
                let j = choose|j: int| 0 <= j < s.len() && s[j] == w;
                let j2 = if j < i {
                    j
                } else {
                    j + 1
                };
                assert(t[j2] == w);
            }
            assert(t[i as int] == v);
            if t.contains(w) && w != v {
                let j = choose|j: int| 0 <= j < t.len() && t[j] == w;
                let j2 = if j < i {
                    j
                } else {
                    j - 1
                };
                assert(s[j2] == w);
            }
        }
    }
    vars.insert(i, v);
}

/// Generalize `ty` into a type scheme by quantifying over all type variables
/// that appear free in `ty` but not in `env_free_vars`.
///
/// `env_free_vars` is the set of variables that are still being solved in the
/// surrounding environment — those must not be captured.
pub fn generalize(ty: InferType, env_free_vars: &KeySet<TypeVar>) -> (s: TypeScheme)
    ensures
        quantifies(s@.vars, ty.term(), env_free_vars@),
        s@ == plain_scheme(s@.vars, ty.term()),
{
    let free = free_vars(&ty);
    let n: usize = free.len();
    let mut vars: Vec<TypeVar> = Vec::new();
    let mut i: usize = 0;
    while i < n
        invariant
            i <= n,
            n == free.order().len(),
            free.order().no_duplicates(),
            ascending(vars@),
            forall|v: TypeVar| #[trigger]
                vars@.contains(v) <==> free.order().take(i as int).contains(v)
                    && !env_free_vars@.contains(v),
        decreases n - i,
    {
        let v = *free.at(i);
        proof {
            crate::data::lemma_take_next(free.order(), i as int);
        }
        if !env_free_vars.contains(&v) {
            insert_sorted(&mut vars, v);
        }
        i += 1;
    }
    proof {
        assert(free.order().take(n as int) =~= free.order());
    }
    let again: usize = free.len();
    let s = TypeScheme::over(vars, ty);
    proof {
        assert(s@.vars =~= vars@);
        assert forall|v: TypeVar| #[trigger] s@.vars.contains(v) <==> crate::term::occurs(
            v,
            ty.term(),
        ) && !env_free_vars@.contains(v) by {
            assert(free@.contains(v) == crate::term::occurs(v, ty.term()));
        }
    }
    s
}

/// Like `generalize` but also records the source-level name for each quantified
/// variable; the name is empty where `name_map` has none.
pub fn generalize_with_names(
    ty: InferType,
    env_free_vars: &KeySet<TypeVar>,
    name_map: &Table<TypeVar, String>,
) -> (s: TypeScheme)
    ensures
        quantifies(s@.vars, ty.term(), env_free_vars@),
        s@ == (SchemeModel {
            names: Seq::new(
                s@.vars.len(),
                |i: int|
                    if name_map@.contains_key(s@.vars[i]) {
                        name_map@[s@.vars[i]]
                    } else {
                        Seq::empty()
                    },
            ),
            ..plain_scheme(s@.vars, ty.term())
        }),
{
    let scheme = generalize(ty, env_free_vars);
    let ghost want = Seq::new(
        scheme@.vars.len(),
        |i: int|
            if name_map@.contains_key(scheme@.vars[i]) {
                name_map@[scheme@.vars[i]]
            } else {
                Seq::empty()
            },
    );
    let vars = &scheme.quantified_vars;
    let mut names: Vec<String> = Vec::new();
    let mut i: usize = 0;
    while i < vars.len()
        invariant
            i <= vars.len(),
            names@.len() == i,
            want.len() == vars@.len(),
            forall|j: int|
                0 <= j < vars@.len() ==> #[trigger] want[j] == (if name_map@.contains_key(
                    vars@[j],
                ) {
                    name_map@[vars@[j]]
                } else {
                    Seq::empty()
                }),
            forall|j: int| 0 <= j < i ==> (#[trigger] names@[j])@ == want[j],
        decreases vars.len() - i,
    {
        let name = match name_map.get(&vars[i]) {
            Some(name) => name.clone(),
            None => String::new(),
        };
        names.push(name);
        i += 1;
    }
    proof {
        assert(names.deep_view() =~= want);
    }
    TypeScheme { param_names: names, ..scheme }
}

/// The bindings of the first `k` variables to fresh ones, which are numbered
/// from `start` on.
pub open spec fn fresh_bindings(vars: Seq<TypeVar>, start: nat, k: nat) -> Map<TypeVar, Term>
    decreases k,
{
    if k == 0 {
        Map::empty()
    } else {
        let prev = fresh_bindings(vars, start, (k - 1) as nat);
        let v = vars[k - 1];
        let fresh = TypeVar((start + k - 1) as u32);
        if fresh == v {
            prev.remove(v)
        } else {
            prev.insert(v, crate::term::var(fresh))
        }
    }
}

/// Which fresh variable stands for each of the first `k` variables.
pub open spec fn fresh_names(vars: Seq<TypeVar>, start: nat, k: nat) -> Map<TypeVar, TypeVar>
    decreases k,
{
    if k == 0 {
        Map::empty()
    } else {
        fresh_names(vars, start, (k - 1) as nat).insert(
            vars[k - 1],
            TypeVar((start + k - 1) as u32),
        )
    }
}

/// The bindings that instantiate a scheme.
pub open spec fn instance_bindings(s: SchemeModel, start: nat) -> Map<TypeVar, Term> {
    fresh_bindings(s.vars, start, s.vars.len())
}

/// Instantiate a type scheme by replacing each quantified variable with a
/// fresh type variable from `gen`. Called once per use site.
pub fn instantiate(scheme: &TypeScheme, gen: &mut TypeVarGenerator) -> (r: InferType)
    requires
        old(gen)@ + scheme@.vars.len() <= u32::MAX,
        crate::subst_model::applies(
            instance_bindings(scheme@, old(gen)@ as nat),
            scheme@.ty,
        ),
    ensures
        r.term() == crate::subst_model::apply(
            instance_bindings(scheme@, old(gen)@ as nat),
            scheme@.ty,
        ),
        final(gen)@ == old(gen)@ + scheme@.vars.len(),
{
    instantiate_with_renaming(scheme, gen).0
}

/// Like `instantiate` but also returns the mapping from each original quantified
/// `TypeVar` to the fresh `TypeVar` it was replaced with.
pub fn instantiate_with_renaming(scheme: &TypeScheme, gen: &mut TypeVarGenerator) -> (r: (
    InferType,
    Table<TypeVar, TypeVar>,
))
    requires
        old(gen)@ + scheme@.vars.len() <= u32::MAX,
        crate::subst_model::applies(
            instance_bindings(scheme@, old(gen)@ as nat),
            scheme@.ty,
        ),
    ensures
        r.0.term() == crate::subst_model::apply(
            instance_bindings(scheme@, old(gen)@ as nat),
            scheme@.ty,
        ),
        r.1@ == fresh_names(scheme@.vars, old(gen)@ as nat, scheme@.vars.len()),
        final(gen)@ == old(gen)@ + scheme@.vars.len(),
{
    let mut renaming: Table<TypeVar, TypeVar> = Table::new();
    let mut subst = Substitution::new();
    let vars = &scheme.quantified_vars;
    let mut i: usize = 0;
    while i < vars.len()
        invariant
            i <= vars.len(),
            vars == scheme.quantified_vars,
            old(gen)@ + scheme@.vars.len() <= u32::MAX,
            gen@ == old(gen)@ + i,
            subst@ == fresh_bindings(scheme@.vars, old(gen)@ as nat, i as nat),
            renaming@ == fresh_names(scheme@.vars, old(gen)@ as nat, i as nat),
        decreases vars.len() - i,
    {
        let fresh = gen.fresh();
        subst.bind(vars[i], InferType::Var(fresh));
        renaming.insert(vars[i], fresh);
        i += 1;
    }
    (subst.apply(&scheme.ty), renaming)
}

} // verus!
