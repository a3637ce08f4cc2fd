//! What holds of the aspects of types once impls have been registered.

use crate::bounds::BoundModel;
use crate::definitions::{EntryModel, GlobTier};
use crate::registry::RegistryModel;
use crate::symbols::SymbolId;
use crate::term::{Head, Term, TypeVar};
use vstd::prelude::*;

verus! {

proof fn lemma_globs_alike(
    a: RegistryModel,
    b: RegistryModel,
    globs: Seq<(GlobTier, Seq<Seq<char>>)>,
    tier: GlobTier,
    name: Seq<char>,
    i: int,
)
    requires
        a.symbols == b.symbols,
        a.scopes == b.scopes,
    ensures
        crate::resolve::glob_provided(a, globs, tier, name, i) == crate::resolve::glob_provided(
            b,
            globs,
            tier,
            name,
            i,
        ),
    decreases globs.len() - i,
{
    if 0 <= i < globs.len() {
        lemma_globs_alike(a, b, globs, tier, name, i + 1);
    }
}

/// What a name means depends on declarations and imports only.
pub proof fn lemma_resolved_alike(
    a: RegistryModel,
    b: RegistryModel,
    module: Seq<Seq<char>>,
    name: Seq<char>,
)
    requires
        a.symbols == b.symbols,
        a.scopes == b.scopes,
    ensures
        crate::resolve::resolved(a, module, name) == crate::resolve::resolved(b, module, name),
    decreases name.len(),
{
    if !a.symbols.contains_key((module, name)) && a.scopes.contains_key(module) {
        let scope = a.scopes[module];
        lemma_globs_alike(a, b, scope.globs, GlobTier::User, name, 0);
        lemma_globs_alike(a, b, scope.globs, GlobTier::Std, name, 0);
        match crate::paths::split_name(name) {
            Some((prefix, short)) => {
                if short.len() < name.len() {
                    lemma_resolved_alike(a, b, module, short);
                }
            },
            None => {},
        }
    }
}

/// A named type as inference knows it.
pub open spec fn named(name: Seq<char>, args: Seq<Term>) -> Term {
    Term { head: Head::Named(name, None), args }
}

/// Whether nothing is registered of an aspect for a declaration: no impl, positive or
/// negative, conditional or not, and no blanket impl.
pub open spec fn unregulated(reg: RegistryModel, id: SymbolId, aspect: Seq<char>) -> bool {
    &&& !reg.impl_aspect_env.contains_key((id, aspect))
    &&& crate::table::list_at(reg.neg_impl_env, (id, aspect)).len() == 0
    &&& crate::table::list_at(reg.conditional_impl_bounds, (id, aspect)).len() == 0
    &&& crate::table::list_at(reg.neg_conditional_impl_bounds, (id, aspect)).len() == 0
    &&& crate::table::list_at(reg.bare_impl_bounds, aspect).len() == 0
    &&& crate::table::list_at(reg.bare_neg_impl_bounds, aspect).len() == 0
}

/// Beside an impl for all arguments, a negative impl denies the aspect for exactly the
/// type arguments that it is written for, and for no others. Only a placeholder that is
/// known to have the aspect has it nevertheless.
pub proof fn negative_impls_deny_their_arguments_only(
    reg: RegistryModel,
    module: Seq<Seq<char>>,
    assumed: Map<TypeVar, Set<Seq<char>>>,
    name: Seq<char>,
    id: SymbolId,
    aspect: Seq<char>,
    denied: Seq<Term>,
    args: Seq<Term>,
)
    requires
        crate::resolve::resolved(reg, module, name) == Some(id),
        unregulated(reg, id, aspect),
        !(args.len() == 0 && reg.symbolic_named_aspects.contains_key(name)
            && reg.symbolic_named_aspects[name].contains(aspect)),
    ensures
        ({
            let granted = crate::registering::impl_registered(
                reg,
                module,
                name,
                aspect,
                Seq::empty(),
            );
            let after = crate::registering::denial_registered(
                granted,
                module,
                name,
                aspect,
                denied,
            );
            &&& crate::aspects::decided(after, module, assumed, named(name, args), aspect)
            &&& crate::aspects::satisfied(after, module, assumed, named(name, args), aspect)
                == !crate::aspects::same_args(denied, args)
        }),
{
    let granted = crate::registering::impl_registered(reg, module, name, aspect, Seq::empty());
    let after = crate::registering::denial_registered(granted, module, name, aspect, denied);
    let t = named(name, args);
    lemma_resolved_alike(reg, granted, module, name);
    lemma_resolved_alike(reg, after, module, name);
    let entries = crate::table::list_at(after.neg_impl_env, (id, aspect));
    assert(entries =~= seq![denied]);
    assert(crate::aspects::overridden(after, id, aspect, args) == crate::aspects::same_args(
        denied,
        args,
    )) by {
        assert(entries[0] == denied);
    }
    let r = crate::aspects::ruling(after, module, t, aspect, assumed);
    if crate::aspects::same_args(denied, args) {
        assert(r.rules.len() == 1);
        assert(r.rules[0].checks =~= Seq::empty());
        assert(!r.rules[0].verdict);
        assert(crate::aspects::all_hold(0, after, module, assumed, r.rules[0].checks, 0) == Some(
            true,
        ));
        assert(crate::aspects::first_verdict(0, after, module, assumed, r, 0) == Some(false));
    } else {
        assert(r.rules.len() == 0);
        assert(r.otherwise);
        assert(crate::aspects::first_verdict(0, after, module, assumed, r, 0) == Some(true));
    }
    assert(crate::aspects::satisfied_at(1, after, module, assumed, t, aspect) is Some);
    crate::aspect_laws::answers_are_unique(1, after, module, assumed, t, aspect);
}

/// The conditions of an impl `impl<T: Aspect> Aspect for Name<T>`.
pub open spec fn passed_on(aspect: Seq<char>) -> EntryModel {
    (seq![seq![BoundModel::Aspect(aspect)]], Seq::empty())
}

/// A type inside `k` layers of a named type with one type argument.
pub open spec fn layered(name: Seq<char>, t: Term, k: nat) -> Term
    decreases k,
{
    if k == 0 {
        t
    } else {
        named(name, seq![layered(name, t, (k - 1) as nat)])
    }
}

proof fn lemma_passed_on_checks(aspect: Seq<char>, t: Term)
    ensures
        crate::aspects::entry_checks(seq![t], passed_on(aspect), 1) == seq![
            crate::aspects::Check { ty: t, aspect, wanted: true },
        ],
{
    let entry = passed_on(aspect);
    let bounds = seq![BoundModel::Aspect(aspect)];
    reveal_with_fuel(crate::aspects::entry_checks, 2);
    reveal_with_fuel(crate::aspects::bound_checks, 2);
    assert(crate::aspects::bounds_at(entry.0, 0) == bounds);
    assert(crate::aspects::bounds_at(entry.1, 0) == Seq::<BoundModel>::empty());
    assert(bounds.drop_last() =~= Seq::<BoundModel>::empty());
    assert(crate::aspects::entry_checks(seq![t], entry, 1) =~= seq![
        crate::aspects::Check { ty: t, aspect, wanted: true },
    ]);
}

proof fn lemma_layer_asks(
    n: nat,
    reg: RegistryModel,
    module: Seq<Seq<char>>,
    assumed: Map<TypeVar, Set<Seq<char>>>,
    name: Seq<char>,
    id: SymbolId,
    aspect: Seq<char>,
    t: Term,
)
    requires
        crate::resolve::resolved(reg, module, name) == Some(id),
        unregulated(reg, id, aspect),
    ensures
        ({
            let after = crate::registering::conditional_registered(
                reg,
                module,
                name,
                aspect,
                passed_on(aspect),
            );
            crate::aspects::satisfied_at(
                n + 1,
                after,
                module,
                assumed,
                named(name, seq![t]),
                aspect,
            ) == crate::aspects::satisfied_at(n, after, module, assumed, t, aspect)
        }),
{
    let entry = passed_on(aspect);
    let after = crate::registering::conditional_registered(reg, module, name, aspect, entry);
    let outer = named(name, seq![t]);
    lemma_resolved_alike(reg, after, module, name);
    lemma_passed_on_checks(aspect, t);
    let r = crate::aspects::ruling(after, module, outer, aspect, assumed);
    let checks = crate::aspects::entry_checks(seq![t], entry, 1);
    assert(crate::table::list_at(after.conditional_impl_bounds, (id, aspect)) =~= seq![entry]);
    assert(!crate::aspects::overridden(after, id, aspect, seq![t]));
    assert(r.rules.len() == 1);
    assert(r.rules[0].checks == checks);
    assert(r.rules[0].verdict && !r.otherwise);
    assert(checks[0] == crate::aspects::Check { ty: t, aspect, wanted: true });
    assert(crate::aspects::all_hold(n, after, module, assumed, checks, 1) == Some(true));
    assert(crate::aspects::first_verdict(n, after, module, assumed, r, 1) == Some(false));
    assert(crate::aspects::satisfied_at(n + 1, after, module, assumed, outer, aspect)
        == crate::aspects::first_verdict(n, after, module, assumed, r, 0));
}

proof fn lemma_layer_has(
    reg: RegistryModel,
    module: Seq<Seq<char>>,
    assumed: Map<TypeVar, Set<Seq<char>>>,
    name: Seq<char>,
    id: SymbolId,
    aspect: Seq<char>,
    t: Term,
)
    requires
        crate::resolve::resolved(reg, module, name) == Some(id),
        unregulated(reg, id, aspect),
    ensures
        ({
            let after = crate::registering::conditional_registered(
                reg,
                module,
                name,
                aspect,
                passed_on(aspect),
            );
            let outer = named(name, seq![t]);
            &&& crate::aspects::decided(after, module, assumed, outer, aspect)
                <==> crate::aspects::decided(after, module, assumed, t, aspect)
            &&& crate::aspects::satisfied(after, module, assumed, outer, aspect)
                == crate::aspects::satisfied(after, module, assumed, t, aspect)
        }),
{
    let after = crate::registering::conditional_registered(
        reg,
        module,
        name,
        aspect,
        passed_on(aspect),
    );
    let outer = named(name, seq![t]);
    if crate::aspects::decided(after, module, assumed, outer, aspect) {
        let n = choose|n: nat| #[trigger]
            crate::aspects::satisfied_at(n, after, module, assumed, outer, aspect) is Some;
        lemma_layer_asks((n - 1) as nat, reg, module, assumed, name, id, aspect, t);
    }
    if crate::aspects::decided(after, module, assumed, t, aspect) {
        let n = choose|n: nat| #[trigger]
            crate::aspects::satisfied_at(n, after, module, assumed, t, aspect) is Some;
        lemma_layer_asks(n, reg, module, assumed, name, id, aspect, t);
        crate::aspect_laws::answers_are_unique(n, after, module, assumed, t, aspect);
        crate::aspect_laws::answers_are_unique(n + 1, after, module, assumed, outer, aspect);
    }
}

/// With an impl that asks its type argument for the aspect, a type has the aspect
/// exactly if its argument has it, however many layers there are: the question goes
/// down into nested type arguments. It has an answer exactly if the innermost one has.
pub proof fn conditional_impls_ask_nested_arguments(
    reg: RegistryModel,
    module: Seq<Seq<char>>,
    assumed: Map<TypeVar, Set<Seq<char>>>,
    name: Seq<char>,
    id: SymbolId,
    aspect: Seq<char>,
    t: Term,
    k: nat,
)
    requires
        crate::resolve::resolved(reg, module, name) == Some(id),
        unregulated(reg, id, aspect),
    ensures
        ({
            let after = crate::registering::conditional_registered(
                reg,
                module,
                name,
                aspect,
                passed_on(aspect),
            );
            &&& crate::aspects::decided(after, module, assumed, layered(name, t, k), aspect)
                <==> crate::aspects::decided(after, module, assumed, t, aspect)
            &&& crate::aspects::satisfied(after, module, assumed, layered(name, t, k), aspect)
                == crate::aspects::satisfied(after, module, assumed, t, aspect)
        }),
    decreases k,
{
    if k > 0 {
        conditional_impls_ask_nested_arguments(
            reg,
            module,
            assumed,
            name,
            id,
            aspect,
            t,
            (k - 1) as nat,
        );
        let inner = layered(name, t, (k - 1) as nat);
        lemma_layer_has(reg, module, assumed, name, id, aspect, inner);
    }
}

/// A resolved type inside `k` layers of a named type with one type argument.
pub open spec fn layered_type(
    name: Seq<char>,
    nominal: Option<SymbolId>,
    t: Term,
    k: nat,
) -> Term
    decreases k,
{
    if k == 0 {
        t
    } else {
        Term {
            head: Head::Named(name, nominal),
            args: seq![layered_type(name, nominal, t, (k - 1) as nat)],
        }
    }
}

/// The same of resolved types.
pub proof fn conditional_impls_ask_nested_types(
    reg: RegistryModel,
    module: Seq<Seq<char>>,
    name: Seq<char>,
    id: SymbolId,
    aspect: Seq<char>,
    nominal: Option<SymbolId>,
    t: Term,
    k: nat,
)
    requires
        crate::resolve::resolved(reg, module, name) == Some(id),
        unregulated(reg, id, aspect),
    ensures
        ({
            let after = crate::registering::conditional_registered(
                reg,
                module,
                name,
                aspect,
                passed_on(aspect),
            );
            let none = Map::<TypeVar, Set<Seq<char>>>::empty();
            let outer = crate::aspects::embedded(layered_type(name, nominal, t, k));
            let inner = crate::aspects::embedded(t);
            &&& crate::aspects::decided(after, module, none, outer, aspect)
                <==> crate::aspects::decided(after, module, none, inner, aspect)
            &&& crate::aspects::satisfied(after, module, none, outer, aspect)
                == crate::aspects::satisfied(after, module, none, inner, aspect)
        }),
{
    lemma_layers_embedded(name, nominal, t, k);
    conditional_impls_ask_nested_arguments(
        reg,
        module,
        Map::empty(),
        name,
        id,
        aspect,
        crate::aspects::embedded(t),
        k,
    );
}

proof fn lemma_layers_embedded(name: Seq<char>, nominal: Option<SymbolId>, t: Term, k: nat)
    ensures
        crate::aspects::embedded(layered_type(name, nominal, t, k)) == layered(
            name,
            crate::aspects::embedded(t),
            k,
        ),
    decreases k,
{
    if k > 0 {
        lemma_layers_embedded(name, nominal, t, (k - 1) as nat);
        let outer = layered_type(name, nominal, t, k);
        assert(crate::aspects::embedded(outer).args =~= layered(
            name,
            crate::aspects::embedded(t),
            k,
        ).args);
    }
}

/// A registration of an impl: in a module, for the type that a name means there.
pub struct Registration {
    pub module: Seq<Seq<char>>,
    pub target: Seq<char>,
    pub aspect: Seq<char>,
    pub args: Seq<Term>,
}

/// The registry after the first `k` registrations.
pub open spec fn all_registered(reg: RegistryModel, rs: Seq<Registration>, k: nat) -> RegistryModel
    decreases k,
{
    if k == 0 || k > rs.len() {
        reg
    } else {
        let r = rs[k - 1];
        crate::registering::impl_registered(
            all_registered(reg, rs, (k - 1) as nat),
            r.module,
            r.target,
            r.aspect,
            r.args,
        )
    }
}

/// Whether a registration is of an impl of `From` for a declaration that takes a type.
pub open spec fn brings_conversion(
    reg: RegistryModel,
    r: Registration,
    id: SymbolId,
    source: Term,
) -> bool {
    crate::resolve::resolved(reg, r.module, r.target) == Some(id) && r.aspect == "From"@
        && crate::registering::from_source(r.args, source)
}

proof fn lemma_conversions(
    reg: RegistryModel,
    rs: Seq<Registration>,
    k: nat,
    module: Seq<Seq<char>>,
    target: Seq<char>,
    id: SymbolId,
    source: Term,
)
    requires
        crate::resolve::resolved(reg, module, target) == Some(id),
        crate::table::list_at(reg.impl_aspect_env, (id, "From"@)).len() == 0,
        k <= rs.len(),
    ensures
        all_registered(reg, rs, k).symbols == reg.symbols,
        all_registered(reg, rs, k).scopes == reg.scopes,
        crate::registering::converts(all_registered(reg, rs, k), module, target, source)
            <==> exists|i: int|
            0 <= i < k && brings_conversion(reg, #[trigger] rs[i], id, source),
    decreases k,
{
    let after = all_registered(reg, rs, k);
    if k > 0 {
        let prev = all_registered(reg, rs, (k - 1) as nat);
        let r = rs[k - 1];
        lemma_conversions(reg, rs, (k - 1) as nat, module, target, id, source);
        lemma_resolved_alike(reg, prev, r.module, r.target);
        lemma_resolved_alike(reg, prev, module, target);
        lemma_resolved_alike(reg, after, module, target);
        let old_impls = crate::table::list_at(prev.impl_aspect_env, (id, "From"@));
        let impls = crate::table::list_at(after.impl_aspect_env, (id, "From"@));
        if crate::resolve::resolved(reg, r.module, r.target) == Some(id) && r.aspect == "From"@ {
            assert(impls == old_impls.push(r.args));
            assert(impls[old_impls.len() as int] == r.args);
        } else {
            assert(impls == old_impls);
        }
        if crate::registering::converts(after, module, target, source) {
            let j = choose|j: int|
                0 <= j < impls.len() && crate::registering::from_source(
                    #[trigger] impls[j],
                    source,
                );
            if j < old_impls.len() {
                assert(crate::registering::from_source(old_impls[j], source));
                let i = choose|i: int|
                    0 <= i < k - 1 && brings_conversion(reg, #[trigger] rs[i], id, source);
                assert(brings_conversion(reg, rs[i], id, source));
            } else {
                assert(brings_conversion(reg, rs[k - 1], id, source));
            }
        }
        if exists|i: int| 0 <= i < k && brings_conversion(reg, #[trigger] rs[i], id, source) {
            let i = choose|i: int|
                0 <= i < k && brings_conversion(reg, #[trigger] rs[i], id, source);
            if i < k - 1 {
                assert(crate::registering::converts(prev, module, target, source));
                let j = choose|j: int|
                    0 <= j < old_impls.len() && crate::registering::from_source(
                        #[trigger] old_impls[j],
                        source,
                    );
                assert(crate::registering::from_source(impls[j], source));
            } else {
                assert(crate::registering::from_source(
                    impls[old_impls.len() as int],
                    source,
                ));
            }
        }
    }
}

/// A type can be made from another one exactly if some registered impl of `From` for
/// it takes that one first. Impls of other aspects, and impls for other types, those of
/// the same name in other modules included, make no difference.
pub proof fn conversions_come_from_their_impls(
    reg: RegistryModel,
    rs: Seq<Registration>,
    module: Seq<Seq<char>>,
    target: Seq<char>,
    id: SymbolId,
    source: Term,
)
    requires
        crate::resolve::resolved(reg, module, target) == Some(id),
        crate::table::list_at(reg.impl_aspect_env, (id, "From"@)).len() == 0,
    ensures
        crate::registering::converts(
            all_registered(reg, rs, rs.len()),
            module,
            target,
            source,
        ) <==> exists|i: int|
            0 <= i < rs.len() && brings_conversion(reg, #[trigger] rs[i], id, source),
{
    lemma_conversions(reg, rs, rs.len(), module, target, id, source);
}

} // verus!
