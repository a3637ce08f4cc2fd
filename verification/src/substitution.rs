//! Substitutions: what inference has found out about type variables.

use crate::data::Dup;
use crate::free_vars::free_vars;
use crate::infer_type::InferType;
use crate::table::{KeySet, Table};
use crate::term::{Term, TypeVar};
use vstd::prelude::*;

verus! {

/// A map from type variables to their resolved `InferType`s.
/// The right-hand side may still contain variables — `apply` chases them
/// transitively.
///
/// A reverse index says, for each variable, in which bindings it occurs, so
/// that composition touches only the bindings that it can change.
pub struct Substitution {
    bindings: Table<TypeVar, InferType>,
    rev: Table<TypeVar, KeySet<TypeVar>>,
}

/// Whether the index lists `k` under `u`.
pub open spec fn listed(rev: Map<TypeVar, Set<TypeVar>>, u: TypeVar, k: TypeVar) -> bool {
    rev.contains_key(u) && rev[u].contains(k)
}

/// Whether `u` occurs in what `k` is bound to.
pub open spec fn mentions(m: Map<TypeVar, Term>, u: TypeVar, k: TypeVar) -> bool {
    m.contains_key(k) && crate::term::occurs(u, m[k])
}

/// Whether the index lists exactly the bindings in which a variable occurs.
pub open spec fn indexes(rev: Map<TypeVar, Set<TypeVar>>, m: Map<TypeVar, Term>) -> bool {
    forall|u: TypeVar, k: TypeVar| #[trigger] listed(rev, u, k) == mentions(m, u, k)
}

impl DeepView for Substitution {
    type V = Map<TypeVar, Term>;

    closed spec fn deep_view(&self) -> Map<TypeVar, Term> {
        self.bindings@
    }
}

impl View for Substitution {
    type V = Map<TypeVar, Term>;

    open spec fn view(&self) -> Map<TypeVar, Term> {
        self.deep_view()
    }
}

/// Adds `key`'s membership in the reverse index for every variable in `value`.
fn index(rev: &mut Table<TypeVar, KeySet<TypeVar>>, key: TypeVar, value: &InferType)
    ensures
        forall|u: TypeVar, k: TypeVar| #[trigger]
            listed(final(rev)@, u, k) == (listed(old(rev)@, u, k) || (k == key
                && crate::term::occurs(u, value.term()))),
{
    let vs = free_vars(value);
    let n: usize = vs.len();
    let mut i: usize = 0;
    while i < n
        invariant
            i <= n,
            n == vs.order().len(),
            forall|u: TypeVar, k: TypeVar| #[trigger]
                listed(rev@, u, k) == (listed(old(rev)@, u, k) || (k == key && vs.order().take(
                    i as int,
                ).contains(u))),
        decreases n - i,
    {
        let u = *vs.at(i);
        let ghost before = rev@;
        let mut set = match rev.remove(&u) {
            Some(set) => set,
            None => KeySet::new(),
        };
        set.insert(key);
        rev.insert(u, set);
        proof {
            let t = vs.order().take(i as int);
            crate::data::lemma_take_next(vs.order(), i as int);
            assert forall|w: TypeVar, k: TypeVar| #[trigger]
                listed(rev@, w, k) == (listed(old(rev)@, w, k) || (k == key && t.push(
                    u,
                ).contains(w))) by {
                assert(listed(before, w, k) == (listed(old(rev)@, w, k) || (k == key && t.contains(
                    w,
                ))));
            }
        }
        i += 1;
    }
    proof {
        assert(vs.order().take(n as int) =~= vs.order());
        let m: nat = vs.order().len();
        assert forall|u: TypeVar, k: TypeVar| #[trigger]
            listed(rev@, u, k) == (listed(old(rev)@, u, k) || (k == key && crate::term::occurs(
                u,
                value.term(),
            ))) by {
            assert(vs@.contains(u) == crate::term::occurs(u, value.term()));
        }
    }
}

/// Removes `key`'s membership in the reverse index for every variable in `value`.
fn deindex(rev: &mut Table<TypeVar, KeySet<TypeVar>>, key: TypeVar, value: &InferType)
    ensures
        forall|u: TypeVar, k: TypeVar| #[trigger]
            listed(final(rev)@, u, k) == (listed(old(rev)@, u, k) && !(k == key
                && crate::term::occurs(u, value.term()))),
{
    let vs = free_vars(value);
    let n: usize = vs.len();
    let mut i: usize = 0;
    while i < n
        invariant
            i <= n,
            n == vs.order().len(),
            forall|u: TypeVar, k: TypeVar| #[trigger]
                listed(rev@, u, k) == (listed(old(rev)@, u, k) && !(k == key && vs.order().take(
                    i as int,
                ).contains(u))),
        decreases n - i,
    {
        let u = *vs.at(i);
        let ghost before = rev@;
        match rev.remove(&u) {
            Some(prev) => {
                let mut set = prev;
                set.remove(&key);
                if !set.is_empty() {
                    rev.insert(u, set);
                } else {
                    assert(forall|k: TypeVar| before[u].contains(k) ==> k == key) by {
                        assert forall|k: TypeVar| before[u].contains(k) implies k == key by {
                            assert(!set@.contains(k));
                        }
                    }
                }
            },
            None => {},
        }
        proof {
            let t = vs.order().take(i as int);
            crate::data::lemma_take_next(vs.order(), i as int);
            assert forall|w: TypeVar, k: TypeVar| #[trigger]
                listed(rev@, w, k) == (listed(old(rev)@, w, k) && !(k == key && t.push(
                    u,
                ).contains(w))) by {
                assert(listed(before, w, k) == (listed(old(rev)@, w, k) && !(k == key
                    && t.contains(w))));
            }
        }
        i += 1;
    }
    proof {
        assert(vs.order().take(n as int) =~= vs.order());
        assert forall|u: TypeVar, k: TypeVar| #[trigger]
            listed(rev@, u, k) == (listed(old(rev)@, u, k) && !(k == key && crate::term::occurs(
                u,
                value.term(),
            ))) by {
            assert(vs@.contains(u) == crate::term::occurs(u, value.term()));
        }
    }
}

impl Substitution {
    #[verifier::type_invariant]
    spec fn inv(self) -> bool {
        crate::subst_model::no_identity(self.bindings@) && indexes(self.rev@, self.bindings@)
    }

    pub fn new() -> (s: Self)
        ensures
            s@ == Map::<TypeVar, Term>::empty(),
            crate::subst_model::no_identity(s@),
    {
        Substitution { bindings: Table::new(), rev: Table::new() }
    }

    /// Insert or replace `key -> value`, keeping the reverse index consistent.
    fn put(&mut self, key: TypeVar, value: InferType)
        requires
            value.term() != crate::term::var(key),
        ensures
            final(self)@ == old(self)@.insert(key, value.term()),
    {
        let mut taken = Substitution::new();
        std::mem::swap(&mut taken, self);
        proof {
            use_type_invariant(&taken);
        }
        let ghost m = taken.bindings@;
        let Substitution { mut bindings, mut rev } = taken;
        if let Some(prev) = bindings.remove(&key) {
            deindex(&mut rev, key, &prev);
        }
        proof {
            assert(indexes(rev@, m.remove(key)));
        }
        index(&mut rev, key, &value);
        let ghost vt = value.term();
        bindings.insert(key, value);
        proof {
            assert(bindings@ =~= m.insert(key, vt));
            assert forall|u: TypeVar, k: TypeVar| #[trigger]
                listed(rev@, u, k) == mentions(bindings@, u, k) by {
                assert(mentions(m.remove(key), u, k) == (k != key && mentions(m, u, k)));
            }
        }
        *self = Substitution { bindings, rev };
    }

    /// Remove `key`'s binding, keeping the reverse index consistent.
    fn drop_key(&mut self, key: TypeVar)
        ensures
            final(self)@ == old(self)@.remove(key),
    {
        let mut taken = Substitution::new();
        std::mem::swap(&mut taken, self);
        proof {
            use_type_invariant(&taken);
        }
        let ghost m = taken.bindings@;
        let Substitution { mut bindings, mut rev } = taken;
        if let Some(prev) = bindings.remove(&key) {
            deindex(&mut rev, key, &prev);
        }
        proof {
            assert(bindings@ =~= m.remove(key));
            assert(indexes(rev@, m.remove(key)));
        }
        *self = Substitution { bindings, rev };
    }

    /// The keys whose value mentions any variable bound by `other` — the only
    /// bindings a composition with `other` can change.
    fn affected_by(&self, other: &Substitution) -> (out: KeySet<TypeVar>)
        ensures
            forall|k: TypeVar| #[trigger]
                out@.contains(k) <==> exists|u: TypeVar| #[trigger]
                    other@.contains_key(u) && mentions(self@, u, k),
    {
        proof {
            use_type_invariant(self);
        }
        let mut out: KeySet<TypeVar> = KeySet::new();
        let n: usize = other.bindings.len();
        let mut i: usize = 0;
        while i < n
            invariant
                i <= n,
                n == other.bindings.keys().len(),
                forall|k: TypeVar| #[trigger]
                    out@.contains(k) <==> exists|j: int|
                        0 <= j < i && listed(
                            self.rev@,
                            #[trigger] other.bindings.keys()[j],
                            k,
                        ),
            decreases n - i,
        {
            let u = *other.bindings.key_at(i);
            let ghost before = out@;
            if let Some(set) = self.rev.get(&u) {
                let m: usize = set.len();
                let mut p: usize = 0;
                while p < m
                    invariant
                        p <= m,
                        m == set.order().len(),
                        forall|k: TypeVar| #[trigger]
                            out@.contains(k) <==> before.contains(k) || set.order().take(
                                p as int,
                            ).contains(k),
                    decreases m - p,
                {
                    let k0 = *set.at(p);
                    out.insert(k0);
                    proof {
                        crate::data::lemma_take_next(set.order(), p as int);
                    }
                    p += 1;
                }
                proof {
                    assert(set.order().take(m as int) =~= set.order());
                }
                let again: usize = set.len();
            }
            proof {
                assert forall|k: TypeVar| #[trigger] out@.contains(k) <==> exists|j: int|
                    0 <= j < i + 1 && listed(
                        self.rev@,
                        #[trigger] other.bindings.keys()[j],
                        k,
                    ) by {
                    assert(out@.contains(k) <==> before.contains(k) || listed(self.rev@, u, k));
                    if listed(self.rev@, u, k) {
                        assert(other.bindings.keys()[i as int] == u);
                    }
                }
            }
            i += 1;
        }
        let again: usize = other.bindings.len();
        proof {
            assert forall|k: TypeVar| #[trigger] out@.contains(k) <==> exists|u: TypeVar|
                #[trigger]
                other@.contains_key(u) && mentions(self@, u, k) by {
                if out@.contains(k) {
                    let j = choose|j: int|
                        0 <= j < n && listed(self.rev@, #[trigger] other.bindings.keys()[j], k);
                    let u = other.bindings.keys()[j];
                    assert(other.bindings.keys().contains(u));
                    assert(other@.contains_key(u) && mentions(self@, u, k));
                }
                if exists|u: TypeVar| #[trigger] other@.contains_key(u) && mentions(self@, u, k) {
                    let u = choose|u: TypeVar| #[trigger]
                        other@.contains_key(u) && mentions(self@, u, k);
                    assert(other.bindings.keys().contains(u));
                    let j = choose|j: int|
                        0 <= j < other.bindings.keys().len() && other.bindings.keys()[j] == u;
                    assert(listed(self.rev@, other.bindings.keys()[j], k));
                }
            }
        }
        out
    }

    /// Record that `var` maps to `ty`.
    ///
    /// An identity binding (`?v → ?v`) is a semantic no-op and is dropped:
    /// storing it would make `apply` recurse forever.
    pub fn bind(&mut self, var: TypeVar, ty: InferType)
        ensures
            final(self)@ == (if ty.term() == crate::term::var(var) {
                old(self)@.remove(var)
            } else {
                old(self)@.insert(var, ty.term())
            }),
            crate::subst_model::no_identity(final(self)@),
    {
        proof {
            use_type_invariant(&*self);
        }
        let identity = match &ty {
            InferType::Var(v) => v.0 == var.0,
            _ => false,
        };
        if identity {
            self.drop_key(var);
        } else {
            self.put(var, ty);
        }
    }

    /// Look up the direct binding for `var`, if any.
    pub fn lookup(&self, var: TypeVar) -> (r: Option<&InferType>)
        ensures
            match r {
                Some(t) => self@.contains_key(var) && t.term() == self@[var],
                None => !self@.contains_key(var),
            },
            crate::subst_model::no_identity(self@),
    {
        proof {
            use_type_invariant(self);
        }
        self.bindings.get(&var)
    }

    /// Whether no variable is bound.
    pub fn is_empty(&self) -> (b: bool)
        ensures
            b == (self@ == Map::<TypeVar, Term>::empty()),
    {
        let n: usize = self.bindings.len();
        proof {
            if n == 0 {
                assert(self@ =~= Map::<TypeVar, Term>::empty());
            } else {
                assert(self.bindings.keys().contains(self.bindings.keys()[0]));
                assert(self@.contains_key(self.bindings.keys()[0]));
            }
        }
        n == 0
    }

    fn apply_at(&self, ty: &InferType, Ghost(n): Ghost<nat>) -> (r: InferType)
        requires
            crate::subst_model::settles(self@, ty.term(), n),
        ensures
            r.term() == crate::subst_model::subst_at(self@, ty.term(), n),
        decreases n, ty.term(),
    {
        if let InferType::Var(v) = ty {
            return match self.bindings.get(v) {
                Some(resolved) => self.apply_at(resolved, Ghost((n - 1) as nat)),
                None => ty.dup(),
            };
        }
        let mut items: Vec<InferType> = Vec::new();
        let k: u128 = ty.arity();
        let mut i: u128 = 0;
        while i < k
            invariant
                i <= k,
                k == ty.term().args.len(),
                !(ty.term().head is Var),
                crate::subst_model::settles(self@, ty.term(), n),
                items@.len() == i,
                forall|j: int|
                    0 <= j < i ==> (#[trigger] items@[j]).term() == crate::subst_model::subst_at(
                        self@,
                        ty.term().args[j],
                        n,
                    ),
            decreases k - i,
        {
            let c = ty.child(i);
            items.push(self.apply_at(c, Ghost(n)));
            i += 1;
        }
        let r = ty.rebuild(items);
        proof {
            assert(r.term().args =~= crate::subst_model::subst_at(self@, ty.term(), n).args);
        }
        r
    }

    /// Recursively replace all type variables in `ty` using this substitution.
    pub fn apply(&self, ty: &InferType) -> (r: InferType)
        requires
            crate::subst_model::applies(self@, ty.term()),
        ensures
            r.term() == crate::subst_model::apply(self@, ty.term()),
    {
        if self.is_empty() {
            proof {
                crate::subst_model::lemma_apply_unbound(self@, ty.term());
            }
            return ty.dup();
        }
        self.apply_at(
            ty,
            Ghost(choose|n: nat| crate::subst_model::settles(self@, ty.term(), n)),
        )
    }

    /// Produce a substitution equivalent to applying `self` first, then `other`.
    ///
    /// `self` wins on overlap: if both substitutions bind a variable, `other`
    /// is applied to `self`'s value.
    pub fn compose(&self, other: &Substitution) -> (r: Substitution)
        requires
            forall|k: TypeVar| #[trigger]
                self@.contains_key(k) ==> crate::subst_model::applies(other@, self@[k]),
        ensures
            r@ == crate::subst_model::composed(self@, other@),
            crate::subst_model::no_identity(r@),
    {
        let mut r = self.dup();
        assert(r@ == self@);
        r.compose_in_place(other);
        r
    }

    /// Update this substitution in place so that it becomes equivalent to
    /// applying it first and `other` after it.
    pub fn compose_in_place(&mut self, other: &Substitution)
        requires
            forall|k: TypeVar| #[trigger]
                old(self)@.contains_key(k) ==> crate::subst_model::applies(
                    other@,
                    old(self)@[k],
                ),
        ensures
            final(self)@ == crate::subst_model::composed(old(self)@, other@),
            crate::subst_model::no_identity(final(self)@),
    {
        proof {
            use_type_invariant(&*self);
            use_type_invariant(other);
        }
        let ghost m = self@;
        let ghost s = other@;
        let affected = self.affected_by(other);
        let n: usize = affected.len();
        let mut i: usize = 0;
        while i < n
            invariant
                i <= n,
                n == affected.order().len(),
                affected.order().no_duplicates(),
                s == other@,
                crate::subst_model::no_identity(m),
                forall|k: TypeVar| #[trigger]
                    m.contains_key(k) ==> crate::subst_model::applies(s, m[k]),
                forall|k: TypeVar| #[trigger]
                    affected@.contains(k) <==> exists|u: TypeVar| #[trigger]
                        s.contains_key(u) && mentions(m, u, k),
                forall|k: TypeVar| #[trigger]
                    affected@.contains(k) <==> affected.order().contains(k),
                forall|k: TypeVar|
                    !affected.order().take(i as int).contains(k) ==> (
                    #[trigger] self@.contains_key(k) <==> m.contains_key(k)) && (m.contains_key(
                        k,
                    ) ==> self@[k] == m[k]),
                forall|k: TypeVar|
                    affected.order().take(i as int).contains(k) ==> (
                    #[trigger] self@.contains_key(k) <==> crate::subst_model::apply(s, m[k])
                        != crate::term::var(k)) && (self@.contains_key(k) ==> self@[k]
                        == crate::subst_model::apply(s, m[k])),
            decreases n - i,
        {
            let key = *affected.at(i);
            let ghost before = self@;
            proof {
                crate::data::lemma_take_next(affected.order(), i as int);
                assert(affected@.contains(key));
                assert(m.contains_key(key));
                assert(self@.contains_key(key));
            }
            let new = match self.bindings.get(&key) {
                Some(prev) => Some(other.apply(prev)),
                None => None,
            };
            if let Some(new) = new {
                self.bind(key, new);
            }
            i += 1;
            assert forall|k: TypeVar| k != key implies (#[trigger] self@.contains_key(k)
                == before.contains_key(k)) && self@[k] == before[k] by {}
        }
        proof {
            assert(affected.order().take(n as int) =~= affected.order());
            assert forall|k: TypeVar| m.contains_key(k) && !affected@.contains(k) implies
                #[trigger] crate::subst_model::apply(s, m[k]) == m[k] by {
                assert forall|v: TypeVar| s.contains_key(v) implies !crate::term::occurs(
                    v,
                    m[k],
                ) by {
                    assert(!(s.contains_key(v) && mentions(m, v, k)));
                }
                crate::subst_model::lemma_apply_unbound(s, m[k]);
            }
            assert forall|k: TypeVar| #[trigger] self@.contains_key(k) <==> (m.contains_key(k)
                && crate::subst_model::apply(s, m[k]) != crate::term::var(k)) by {
                assert(affected@.contains(k) <==> affected.order().contains(k));
                if affected@.contains(k) {
                    assert(m.contains_key(k));
                } else if m.contains_key(k) {
                    assert(crate::subst_model::apply(s, m[k]) == m[k]);
                    assert(m[k] != crate::term::var(k));
                }
            }
            assert forall|k: TypeVar| #[trigger] self@.contains_key(k) implies self@[k]
                == crate::subst_model::apply(s, m[k]) by {
                assert(affected@.contains(k) <==> affected.order().contains(k));
            }
        }
        let ghost first = self@;
        let total: usize = other.bindings.len();
        let mut j: usize = 0;
        while j < total
            invariant
                j <= total,
                total == other.bindings.keys().len(),
                s == other@,
                crate::subst_model::no_identity(s),
                forall|k: TypeVar| #[trigger]
                    self@.contains_key(k) <==> first.contains_key(k)
                        || other.bindings.keys().take(j as int).contains(k),
                forall|k: TypeVar| #[trigger]
                    self@.contains_key(k) ==> self@[k] == (if first.contains_key(k) {
                        first[k]
                    } else {
                        s[k]
                    }),
            decreases total - j,
        {
            let key = *other.bindings.key_at(j);
            let value = other.bindings.value_at(j);
            proof {
                crate::data::lemma_take_next(other.bindings.keys(), j as int);
            }
            if !self.bindings.contains_key(&key) {
                self.put(key, value.dup());
            }
            j += 1;
        }
        proof {
            assert(other.bindings.keys().take(total as int) =~= other.bindings.keys());
        }
        let again: usize = other.bindings.len();
        proof {
            assert(self@ =~= crate::subst_model::composed(m, s));
        }
    }
}

impl Dup for Substitution {
    fn dup(&self) -> (r: Self) {
        proof {
            use_type_invariant(self);
        }
        Substitution { bindings: self.bindings.dup(), rev: self.rev.dup() }
    }
}

impl Clone for Substitution {
    fn clone(&self) -> (r: Self)
        ensures
            r@ == self@,
    {
        self.dup()
    }
}

impl Default for Substitution {
    fn default() -> (r: Self)
        ensures
            r@ == Map::<TypeVar, Term>::empty(),
    {
        Substitution::new()
    }
}

} // verus!
