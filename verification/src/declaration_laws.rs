//! What is known of declarations once they have been registered and merged.

use crate::bounds::BoundModel;
use crate::context::ContextModel;
use crate::definitions::{AspectModel, EntryModel, EnumModel, FieldModel, VariantModel};
use crate::registry::RegistryModel;
use crate::symbols::SymbolId;
use crate::term::{Term, TypeVar};
use vstd::prelude::*;
use vstd::string::*;

verus! {

/// Whether a map holds what two others hold, the first one where both do.
pub open spec fn first_counts<K, V>(m: Map<K, V>, o: Map<K, V>, r: Map<K, V>) -> bool {
    forall|k: K|
        {
            &&& #[trigger] r.dom().contains(k) <==> m.dom().contains(k) || o.dom().contains(k)
            &&& m.dom().contains(k) ==> r[k] == m[k]
            &&& !m.dom().contains(k) && o.dom().contains(k) ==> r[k] == o[k]
        }
}

/// Whether a map of lists holds the lists of two others one after the other.
pub open spec fn lists_follow<K, V>(
    m: Map<K, Seq<V>>,
    o: Map<K, Seq<V>>,
    r: Map<K, Seq<V>>,
) -> bool {
    forall|k: K|
        {
            &&& #[trigger] r.dom().contains(k) <==> m.dom().contains(k) || o.dom().contains(k)
            &&& m.dom().contains(k) && o.dom().contains(k) ==> r[k] == m[k] + o[k]
            &&& m.dom().contains(k) && !o.dom().contains(k) ==> r[k] == m[k]
            &&& !m.dom().contains(k) && o.dom().contains(k) ==> r[k] == o[k]
        }
}

proof fn lemma_appended<K, V>(m: Map<K, Seq<V>>, o: Map<K, Seq<V>>)
    ensures
        lists_follow(m, o, crate::table::appended(m, o)),
{
    let r = crate::table::appended(m, o);
    assert forall|k: K|
        {
            &&& #[trigger] r.dom().contains(k) <==> m.dom().contains(k) || o.dom().contains(k)
            &&& m.dom().contains(k) && o.dom().contains(k) ==> r[k] == m[k] + o[k]
            &&& m.dom().contains(k) && !o.dom().contains(k) ==> r[k] == m[k]
            &&& !m.dom().contains(k) && o.dom().contains(k) ==> r[k] == o[k]
        } by {
        if m.dom().contains(k) && !o.dom().contains(k) {
            assert(m[k] + Seq::<V>::empty() =~= m[k]);
        }
        if !m.dom().contains(k) && o.dom().contains(k) {
            assert(Seq::<V>::empty() + o[k] =~= o[k]);
        }
    }
}

/// Merging adds what another registry knows and changes nothing that was known, in every table of
/// types, methods and bounds.
pub proof fn merging_fills_every_table(m: RegistryModel, o: RegistryModel)
    ensures
        ({
            let r = crate::merge::merged(m, o);
            &&& first_counts(m.struct_env, o.struct_env, r.struct_env)
            &&& first_counts(m.struct_decl_modules, o.struct_decl_modules, r.struct_decl_modules)
            &&& first_counts(m.type_decl_names, o.type_decl_names, r.type_decl_names)
            &&& first_counts(m.type_decl_ids, o.type_decl_ids, r.type_decl_ids)
            &&& first_counts(m.struct_visibility, o.struct_visibility, r.struct_visibility)
            &&& first_counts(m.struct_type_params, o.struct_type_params, r.struct_type_params)
            &&& first_counts(m.struct_generic_names, o.struct_generic_names, r.struct_generic_names)
            &&& first_counts(m.type_param_bounds, o.type_param_bounds, r.type_param_bounds)
            &&& first_counts(
                m.neg_type_param_bounds,
                o.neg_type_param_bounds,
                r.neg_type_param_bounds,
            )
            &&& first_counts(
                m.type_param_record_kinds,
                o.type_param_record_kinds,
                r.type_param_record_kinds,
            )
            &&& first_counts(m.fun_bounds, o.fun_bounds, r.fun_bounds)
            &&& first_counts(m.neg_fun_bounds, o.neg_fun_bounds, r.neg_fun_bounds)
            &&& first_counts(m.fun_record_kinds, o.fun_record_kinds, r.fun_record_kinds)
            &&& first_counts(
                m.fun_assoc_eq_constraints,
                o.fun_assoc_eq_constraints,
                r.fun_assoc_eq_constraints,
            )
            &&& first_counts(m.array_method_env, o.array_method_env, r.array_method_env)
            &&& first_counts(
                m.array_method_receiver_env,
                o.array_method_receiver_env,
                r.array_method_receiver_env,
            )
            &&& first_counts(
                m.array_method_scheme_env,
                o.array_method_scheme_env,
                r.array_method_scheme_env,
            )
            &&& first_counts(
                m.generic_method_schemes_by_span,
                o.generic_method_schemes_by_span,
                r.generic_method_schemes_by_span,
            )
            &&& first_counts(m.enum_env, o.enum_env, r.enum_env)
            &&& first_counts(m.enum_decl_modules, o.enum_decl_modules, r.enum_decl_modules)
            &&& first_counts(
                m.symbolic_named_aspects,
                o.symbolic_named_aspects,
                r.symbolic_named_aspects,
            )
            &&& first_counts(m.impl_aspect_env, o.impl_aspect_env, r.impl_aspect_env)
            &&& first_counts(m.impl_assoc_types, o.impl_assoc_types, r.impl_assoc_types)
            &&& r.symbols == m.symbols && r.scopes == m.scopes
            &&& r.local_type_decl_ids == m.local_type_decl_ids
        }),
{
}

/// Conditional, blanket and negative impls of another registry come after those that were known.
pub proof fn merging_appends_impls(m: RegistryModel, o: RegistryModel)
    ensures
        ({
            let r = crate::merge::merged(m, o);
            &&& lists_follow(
                m.conditional_impl_bounds,
                o.conditional_impl_bounds,
                r.conditional_impl_bounds,
            )
            &&& lists_follow(m.bare_impl_bounds, o.bare_impl_bounds, r.bare_impl_bounds)
            &&& lists_follow(m.array_impl_bounds, o.array_impl_bounds, r.array_impl_bounds)
            &&& lists_follow(
                m.neg_conditional_impl_bounds,
                o.neg_conditional_impl_bounds,
                r.neg_conditional_impl_bounds,
            )
            &&& lists_follow(
                m.bare_neg_impl_bounds,
                o.bare_neg_impl_bounds,
                r.bare_neg_impl_bounds,
            )
            &&& lists_follow(
                m.array_neg_impl_bounds,
                o.array_neg_impl_bounds,
                r.array_neg_impl_bounds,
            )
            &&& lists_follow(m.neg_impl_env, o.neg_impl_env, r.neg_impl_env)
            &&& lists_follow(
                m.array_method_scheme_variants,
                o.array_method_scheme_variants,
                r.array_method_scheme_variants,
            )
        }),
{
    lemma_appended(m.conditional_impl_bounds, o.conditional_impl_bounds);
    lemma_appended(m.bare_impl_bounds, o.bare_impl_bounds);
    lemma_appended(m.array_impl_bounds, o.array_impl_bounds);
    lemma_appended(m.neg_conditional_impl_bounds, o.neg_conditional_impl_bounds);
    lemma_appended(m.bare_neg_impl_bounds, o.bare_neg_impl_bounds);
    lemma_appended(m.array_neg_impl_bounds, o.array_neg_impl_bounds);
    lemma_appended(m.neg_impl_env, o.neg_impl_env);
    lemma_appended(m.array_method_scheme_variants, o.array_method_scheme_variants);
}

/// Methods of a type come from both registries, those that were known first.
pub proof fn merging_joins_methods(
    m: RegistryModel,
    o: RegistryModel,
    owner: Seq<char>,
    name: Seq<char>,
)
    ensures
        ({
            let r = crate::merge::merged(m, o);
            let known = m.method_env.dom().contains(owner) && m.method_env[owner].dom().contains(
                name,
            );
            let other = o.method_env.dom().contains(owner) && o.method_env[owner].dom().contains(
                name,
            );
            &&& known ==> r.method_env[owner][name] == m.method_env[owner][name]
            &&& !known && other ==> r.method_env[owner][name] == o.method_env[owner][name]
            &&& known || other ==> r.method_env.dom().contains(owner)
                && r.method_env[owner].dom().contains(name)
        }),
        ({
            let r = crate::merge::merged(m, o);
            let known = m.method_receiver_env.dom().contains(owner)
                && m.method_receiver_env[owner].dom().contains(name);
            let other = o.method_receiver_env.dom().contains(owner)
                && o.method_receiver_env[owner].dom().contains(name);
            &&& known ==> r.method_receiver_env[owner][name] == m.method_receiver_env[owner][name]
            &&& !known && other ==> r.method_receiver_env[owner][name]
                == o.method_receiver_env[owner][name]
        }),
{
}

/// A struct that has been registered is known under its identity and its name, with its fields,
/// its module and its visibility. Other declarations stay as they are.
pub proof fn registered_structs_are_known(
    reg: RegistryModel,
    owner: SymbolId,
    name: Seq<char>,
    fields: Seq<FieldModel>,
    module: Seq<Seq<char>>,
    visibility: crate::ast::Visibility,
    other: SymbolId,
)
    requires
        other != owner,
    ensures
        ({
            let r = crate::registering::with_struct(reg, owner, name, fields, module, visibility);
            &&& r.struct_env.dom().contains(owner) && r.struct_env[owner] == fields
            &&& r.struct_decl_modules[owner] == module
            &&& r.struct_visibility[owner] == visibility
            &&& r.type_decl_names[owner] == name
            &&& r.type_decl_ids[name] == owner
            &&& r.struct_env.dom().contains(other) == reg.struct_env.dom().contains(other)
            &&& r.struct_env[other] == reg.struct_env[other]
            &&& r.enum_env == reg.enum_env
            &&& r.impl_aspect_env == reg.impl_aspect_env
        }),
{
}

proof fn lemma_variants(
    m: Map<Seq<char>, Seq<SymbolId>>,
    owner: SymbolId,
    variants: Seq<VariantModel>,
    k: nat,
    name: Seq<char>,
)
    requires
        k <= variants.len(),
    ensures
        ({
            let r = crate::registering::with_variants(m, owner, variants, k);
            let listed = crate::table::list_at(r, name);
            let before = crate::table::list_at(m, name);
            &&& (exists|i: int| 0 <= i < k && (#[trigger] variants[i]).name == name)
                ==> listed.contains(owner)
            &&& forall|id: SymbolId|
                id != owner ==> (#[trigger] listed.contains(id) <==> before.contains(id))
        }),
    decreases k,
{
    if k > 0 {
        lemma_variants(m, owner, variants, (k - 1) as nat, name);
        let prev = crate::registering::with_variants(m, owner, variants, (k - 1) as nat);
        let last = variants[k - 1].name;
        let list = crate::table::list_at(prev, last);
        let grown = list.push(owner);
        assert(grown[list.len() as int] == owner);
        assert(grown.contains(owner));
        assert forall|id: SymbolId| id != owner implies (#[trigger] grown.contains(id)
            <==> list.contains(id)) by {
            if list.contains(id) {
                let i = choose|i: int| 0 <= i < list.len() && list[i] == id;
                assert(grown[i] == id);
            }
            if grown.contains(id) {
                let i = choose|i: int| 0 <= i < grown.len() && grown[i] == id;
                assert(list[i] == id);
            }
        }
        let r = crate::registering::with_variants(m, owner, variants, k);
        let new = if list.contains(owner) {
            list
        } else {
            grown
        };
        assert(r == prev.insert(last, new));
        assert(crate::table::list_at(r, last) == new);
        if name != last {
            assert(crate::table::list_at(r, name) == crate::table::list_at(prev, name));
            if exists|i: int| 0 <= i < k && (#[trigger] variants[i]).name == name {
                let i = choose|i: int| 0 <= i < k && (#[trigger] variants[i]).name == name;
                assert(0 <= i < k - 1 && variants[i].name == name);
            }
        }
    }
}

/// An enum that has been registered is known under its identity and its name, and each of its
/// variants leads to it. No variant leads to another enum that it did not lead to before.
pub proof fn registered_enums_are_known(
    reg: RegistryModel,
    owner: SymbolId,
    name: Seq<char>,
    info: EnumModel,
    module: Seq<Seq<char>>,
    i: int,
    other: SymbolId,
)
    requires
        0 <= i < info.variants.len(),
        other != owner,
    ensures
        ({
            let r = crate::registering::with_enum(reg, owner, name, info, module);
            let variant = info.variants[i].name;
            let leads = crate::table::list_at(r.variant_declaring_enums, variant);
            let led = crate::table::list_at(reg.variant_declaring_enums, variant);
            &&& r.enum_env.dom().contains(owner) && r.enum_env[owner] == info
            &&& r.enum_decl_modules[owner] == module
            &&& r.type_decl_names[owner] == name
            &&& r.type_decl_ids[name] == owner
            &&& leads.contains(owner)
            &&& leads.contains(other) <==> led.contains(other)
            &&& r.struct_env == reg.struct_env
        }),
{
    lemma_variants(
        reg.variant_declaring_enums,
        owner,
        info.variants,
        info.variants.len(),
        info.variants[i].name,
    );
}

/// A type has an impl after one has been registered for the name that means it, and a conversion
/// from a type after an impl of `From` for that type. A name that means nothing gets none.
pub proof fn registered_impls_are_known(
    reg: RegistryModel,
    module: Seq<Seq<char>>,
    target: Seq<char>,
    aspect: Seq<char>,
    args: Seq<Term>,
    id: SymbolId,
)
    requires
        crate::resolve::resolved(reg, module, target) == Some(id),
    ensures
        ({
            let r = crate::registering::impl_registered(reg, module, target, aspect, args);
            let impls = r.impl_aspect_env[(id, aspect)];
            &&& r.impl_aspect_env.dom().contains((id, aspect))
            &&& impls.len() > 0 && impls[impls.len() - 1] == args
            &&& reg.impl_aspect_env.dom().contains((id, aspect)) ==> impls.drop_last()
                == reg.impl_aspect_env[(id, aspect)]
            &&& r.symbols == reg.symbols && r.scopes == reg.scopes
        }),
{
    let r = crate::registering::impl_registered(reg, module, target, aspect, args);
    let before = crate::table::list_at(reg.impl_aspect_env, (id, aspect));
    assert(before.push(args).drop_last() =~= before);
}

/// A name means the aspect that its own module declares; where it declares none, the only one
/// there is. Declaring one does not touch those of other modules.
pub proof fn own_aspects_come_first(
    reg: RegistryModel,
    module: Seq<Seq<char>>,
    name: Seq<char>,
    entry: AspectModel,
    other: Seq<Seq<char>>,
)
    requires
        entry.declaring_module == module,
        other != module,
        reg.aspects.dom().contains(name),
    ensures
        ({
            let r = RegistryModel {
                aspects: reg.aspects.insert(
                    name,
                    crate::aspect_decls::with_aspect(reg.aspects[name], entry),
                ),
                ..reg
            };
            &&& crate::aspect_decls::aspect_in(r, module, name) == Some(entry)
            &&& reg.aspects[name].len() == 1 ==> crate::aspect_decls::aspect_in(reg, other, name)
                == Some(reg.aspects[name][0])
        }),
{
    let entries = reg.aspects[name];
    lemma_entry(entries, module, 0);
    let at = crate::aspect_decls::entry_of_module(entries, module, 0);
    let all = crate::aspect_decls::with_aspect(entries, entry);
    lemma_entry(all, module, 0);
    let found = crate::aspect_decls::entry_of_module(all, module, 0);
    assert(all[at] == entry);
    if found < at {
        assert(all[found] == entries[found]);
    }
    assert(found == at);
    if entries.len() == 1 {
        lemma_entry(entries, other, 0);
    }
}

proof fn lemma_entry(entries: Seq<AspectModel>, module: Seq<Seq<char>>, i: int)
    requires
        0 <= i <= entries.len(),
    ensures
        ({
            let k = crate::aspect_decls::entry_of_module(entries, module, i);
            &&& i <= k <= entries.len()
            &&& k < entries.len() ==> entries[k].declaring_module == module
            &&& forall|j: int| i <= j < k ==> (#[trigger] entries[j]).declaring_module != module
        }),
    decreases entries.len() - i,
{
    if i < entries.len() && entries[i].declaring_module != module {
        lemma_entry(entries, module, i + 1);
    }
}

/// An aspect that only one module declares is found under its name, and one that several
/// declare is not found without a module.
pub proof fn sole_aspects_are_found(reg: RegistryModel, name: Seq<char>)
    ensures
        reg.aspects.dom().contains(name) && reg.aspects[name].len() == 1
            ==> crate::aspect_decls::sole_aspect(reg, name) == Some(reg.aspects[name][0]),
        reg.aspects.dom().contains(name) && reg.aspects[name].len() > 1
            ==> crate::aspect_decls::sole_aspect(reg, name) is None,
        !reg.aspects.dom().contains(name) ==> crate::aspect_decls::sole_aspect(reg, name) is None,
{
}

/// An aspect is visible where its name means one; in a program without symbols, every aspect
/// that is declared is.
pub proof fn aspects_are_visible_where_they_are_named(
    reg: RegistryModel,
    module: Seq<Seq<char>>,
    name: Seq<char>,
    key: (Seq<Seq<char>>, Seq<char>),
    id: SymbolId,
)
    requires
        reg.symbols.dom().contains(key),
        reg.symbols[key] == id,
    ensures
        ({
            let seen = crate::aspect_decls::visible_aspect(reg, module, name);
            let meant = crate::resolve::resolved(reg, module, name);
            &&& meant == Some(id) && reg.aspects.dom().contains(key.1) ==> seen
            &&& meant is None ==> !seen
        }),
{
    assert(reg.symbols.dom() != Set::<(Seq<Seq<char>>, Seq<char>)>::empty()) by {
        assert(!Set::<(Seq<Seq<char>>, Seq<char>)>::empty().contains(key));
    }
    assert(reg.symbols.contains_key(key));
}

/// A bound is added to what is known of a variable once: a further one of the same aspect makes
/// no difference, and none that was known goes away.
pub proof fn bounds_are_added_once(list: Seq<BoundModel>, b: BoundModel, other: BoundModel)
    ensures
        ({
            let r = crate::context_state::with_bound(list, b);
            &&& r.contains(b)
            &&& list.contains(other) ==> r.contains(other)
            &&& r.contains(other) ==> list.contains(other) || other == b
            &&& b is Aspect ==> crate::context_state::with_bound(r, b) == r
            &&& b is Aspect && list.contains(b) ==> r == list
        }),
{
    let grown = list.push(b);
    assert(grown[list.len() as int] == b);
    assert(grown.contains(b));
    if list.contains(other) {
        let i = choose|i: int| 0 <= i < list.len() && list[i] == other;
        assert(grown[i] == other);
    }
    if grown.contains(other) && other != b {
        let i = choose|i: int| 0 <= i < grown.len() && grown[i] == other;
        assert(list[i] == other);
    }
}

/// A variable stands for the variable that it was solved to; where it was solved to a type, it
/// stands for itself.
pub proof fn representatives_are_what_was_solved(m: Map<TypeVar, Term>, v: TypeVar, w: TypeVar)
    ensures
        crate::constraints::value_of(m, v) == crate::term::var(w)
            ==> crate::context_state::representative(m, v) == w,
        !(crate::constraints::value_of(m, v).head is Var) ==> crate::context_state::representative(
            m,
            v,
        ) == v,
{
}

/// A method that was left open is one whose receiver came out as no type of its own.
pub proof fn methods_stay_open_without_a_type(
    deferrals: Seq<(crate::ast::SpanModel, Seq<char>, TypeVar)>,
    m: Map<TypeVar, Term>,
    d: (crate::ast::SpanModel, Seq<char>, TypeVar),
)
    ensures
        ({
            let all = deferrals.push(d);
            let t = crate::constraints::value_of(m, d.2);
            let before = crate::context_state::unresolved(deferrals, m, deferrals.len());
            let after = crate::context_state::unresolved(all, m, all.len());
            &&& t.head is Named || t.head is Concrete ==> after == before
            &&& t.head is Var || t.head is Tuple || t.head is Record || t.head is Fun
                || t.head is Array || t.head is Reference ==> after == before.push((d.0, d.1))
        }),
{
    lemma_unresolved(deferrals, m, d, deferrals.len());
}

proof fn lemma_unresolved(
    deferrals: Seq<(crate::ast::SpanModel, Seq<char>, TypeVar)>,
    m: Map<TypeVar, Term>,
    d: (crate::ast::SpanModel, Seq<char>, TypeVar),
    k: nat,
)
    requires
        k <= deferrals.len(),
    ensures
        crate::context_state::unresolved(deferrals.push(d), m, k)
            == crate::context_state::unresolved(deferrals, m, k),
    decreases k,
{
    if k > 0 {
        lemma_unresolved(deferrals, m, d, (k - 1) as nat);
        assert(deferrals.push(d)[k - 1] == deferrals[k - 1]);
    }
}

/// Each core type has an identity of its own, and no other name has one.
pub proof fn core_types_have_identities(a: Seq<char>, b: Seq<char>)
    ensures
        crate::builtins::core_type(a) is Some && crate::builtins::core_type(a)
            == crate::builtins::core_type(b) ==> a == b,
        crate::builtins::core_aspect(a) is Some && crate::builtins::core_aspect(a)
            == crate::builtins::core_aspect(b) ==> a == b,
        ({
            let primitive = a == "boolean"@ || a == "String"@ || a == "Char"@ || a == "i8"@ || a
                == "i16"@ || a == "i32"@ || a == "i64"@ || a == "u8"@ || a == "u16"@ || a == "u32"@
                || a == "u64"@ || a == "f32"@ || a == "f64"@;
            let made = a == "List"@ || a == "Perhaps"@ || a == "Result"@ || a == "Range"@ || a
                == "RangeInclusive"@;
            crate::builtins::core_type(a) is Some <==> primitive || made
        }),
        crate::builtins::core_aspect(a) is Some <==> a == "Display"@ || a == "Iterable"@ || a
            == "From"@,
{
}

/// A name may be assigned to exactly where the binding that is nearest may change: it has the type
/// of that binding. Otherwise the error says whether there is none or it is fixed.
pub proof fn only_changeable_names_are_assigned(
    c: ContextModel,
    name: Seq<char>,
    other: Seq<char>,
    ty: Term,
    span: crate::ast::SpanModel,
)
    requires
        c.mono.len() > 0,
        other != name,
    ensures
        ({
            let free = crate::context::mono_bound(c, name, ty, true);
            let fixed = crate::context::mono_bound(c, name, ty, false);
            let asked = |m: Seq<Map<Seq<char>, (Term, bool)>>, n: Seq<char>|
                crate::context_solve::assignable(m, n, span);
            let none = Seq::<Map<Seq<char>, (Term, bool)>>::empty();
            &&& asked(free.mono, name) == Ok::<Term, crate::error::ErrorModel>(ty)
            &&& asked(fixed.mono, name) is Err
            &&& asked(fixed.mono, name)->Err_0 is Type
            &&& asked(fixed.mono, name)->Err_0->Type_0 is T0006
            &&& asked(free.mono, other) == asked(c.mono, other)
            &&& asked(none, name) is Err && asked(none, name)->Err_0->Type_0 is T0003
        }),
{
    let free = crate::context::mono_bound(c, name, ty, true);
    let fixed = crate::context::mono_bound(c, name, ty, false);
    assert(free.mono.drop_last() =~= c.mono.drop_last());
    assert(fixed.mono.drop_last() =~= c.mono.drop_last());
    assert(free.mono.last() == c.mono.last().insert(name, (ty, true)));
    assert(fixed.mono.last() == c.mono.last().insert(name, (ty, false)));
}

/// What is registered for an impl is found again: an associated type under its name, the newest
/// before older ones, and what is gone through as the argument of the impl of `Iterable`.
pub proof fn registered_associated_types_are_found(
    reg: RegistryModel,
    module: Seq<Seq<char>>,
    target: Seq<char>,
    aspect: Seq<char>,
    name: Seq<char>,
    other: Seq<char>,
    bindings: Map<Seq<char>, Term>,
    id: SymbolId,
    t: Term,
)
    requires
        crate::resolve::resolved(reg, module, target) == Some(id),
        bindings.dom().contains(name),
        !bindings.dom().contains(other),
    ensures
        ({
            let r = crate::registering::assoc_types_registered(
                reg,
                module,
                target,
                aspect,
                bindings,
            );
            &&& crate::registering::assoc_type(r, module, target, aspect, name) == Some(
                bindings[name],
            )
            &&& crate::registering::assoc_type(r, module, target, aspect, other)
                == crate::registering::assoc_type(reg, module, target, aspect, other)
        }),
        !reg.impl_aspect_env.dom().contains((id, "Iterable"@)) ==> {
            let r = crate::registering::impl_registered(
                reg,
                module,
                target,
                "Iterable"@,
                seq![t],
            );
            crate::registering::iterable_element(r, module, target) == Some(t)
        },
{
    let r = crate::registering::assoc_types_registered(reg, module, target, aspect, bindings);
    crate::impl_laws::lemma_resolved_alike(reg, r, module, target);
    let i = crate::registering::impl_registered(reg, module, target, "Iterable"@, seq![t]);
    crate::impl_laws::lemma_resolved_alike(reg, i, module, target);
    assert(Seq::<Seq<Term>>::empty().push(seq![t])[0] == seq![t]);
    assert(seq![t][0] == t);
}

/// A conditional negative impl that is registered for a type comes last among those of its type,
/// and touches no other table.
pub proof fn registered_denials_are_kept(
    reg: RegistryModel,
    module: Seq<Seq<char>>,
    target: Seq<char>,
    aspect: Seq<char>,
    entry: EntryModel,
    id: SymbolId,
)
    requires
        crate::resolve::resolved(reg, module, target) == Some(id),
    ensures
        ({
            let r = crate::registering::conditional_denial_registered(
                reg,
                module,
                target,
                aspect,
                entry,
            );
            let before = crate::table::list_at(reg.neg_conditional_impl_bounds, (id, aspect));
            let after = r.neg_conditional_impl_bounds[(id, aspect)];
            &&& r.neg_conditional_impl_bounds.dom().contains((id, aspect))
            &&& after.len() == before.len() + 1
            &&& after[after.len() - 1] == entry
            &&& after.take(after.len() - 1) == before
            &&& r.conditional_impl_bounds == reg.conditional_impl_bounds
            &&& r.neg_impl_env == reg.neg_impl_env
        }),
{
    let before = crate::table::list_at(reg.neg_conditional_impl_bounds, (id, aspect));
    assert(before.push(entry).take(before.len() as int) =~= before);
}

/// Merging registries joins the enums that declare a variant, each once, and the aspects of a name,
/// of which a module has only one: the one that was known.
pub proof fn merging_joins_variants_and_aspects(
    m: RegistryModel,
    o: RegistryModel,
    name: Seq<char>,
    id: SymbolId,
    entry: AspectModel,
)
    ensures
        ({
            let r = crate::merge::merged(m, o);
            let known = crate::table::list_at(m.variant_declaring_enums, name);
            let more = crate::table::list_at(o.variant_declaring_enums, name);
            let all = crate::table::list_at(r.variant_declaring_enums, name);
            &&& all.contains(id) <==> known.contains(id) || more.contains(id)
            &&& known.len() <= all.len() && all.take(known.len() as int) == known
        }),
        ({
            let r = crate::merge::merged(m, o);
            let known = crate::table::list_at(m.aspects, name);
            let all = crate::table::list_at(r.aspects, name);
            &&& known.len() <= all.len() && all.take(known.len() as int) == known
            &&& known.contains(entry) ==> all.contains(entry)
        }),
{
    let known = crate::table::list_at(m.variant_declaring_enums, name);
    let more = crate::table::list_at(o.variant_declaring_enums, name);
    lemma_ids_joined(known, more, more.len(), id);
    assert(more.take(more.len() as int) =~= more);
    assert(known.take(known.len() as int) =~= known);
    let a = crate::table::list_at(m.aspects, name);
    let b = crate::table::list_at(o.aspects, name);
    lemma_aspects_joined(a, b, b.len());
    assert(a.take(a.len() as int) =~= a);
    let all = crate::merge::aspects_joined(a, b, b.len());
    if a.contains(entry) {
        let i = choose|i: int| 0 <= i < a.len() && a[i] == entry;
        assert(all.take(a.len() as int)[i] == all[i]);
        assert(all[i] == entry);
    }
}

proof fn lemma_ids_joined(list: Seq<SymbolId>, more: Seq<SymbolId>, k: nat, id: SymbolId)
    requires
        k <= more.len(),
    ensures
        ({
            let r = crate::merge::ids_joined(list, more, k);
            &&& r.contains(id) <==> list.contains(id) || more.take(k as int).contains(id)
            &&& list.len() <= r.len()
            &&& r.take(list.len() as int) == list
        }),
    decreases k,
{
    if k > 0 {
        lemma_ids_joined(list, more, (k - 1) as nat, id);
        let prev = crate::merge::ids_joined(list, more, (k - 1) as nat);
        let last = more[k - 1];
        let grown = prev.push(last);
        assert(grown[prev.len() as int] == last);
        if prev.contains(id) {
            let i = choose|i: int| 0 <= i < prev.len() && prev[i] == id;
            assert(grown[i] == id);
        }
        if grown.contains(id) && id != last {
            let i = choose|i: int| 0 <= i < grown.len() && grown[i] == id;
            assert(prev[i] == id);
        }
        assert(grown.take(list.len() as int) =~= prev.take(list.len() as int));
        let front = more.take(k - 1);
        let all = more.take(k as int);
        assert(all =~= front.push(last));
        assert(all[k - 1] == last);
        if front.contains(id) {
            let i = choose|i: int| 0 <= i < front.len() && front[i] == id;
            assert(all[i] == id);
        }
        if all.contains(id) && id != last {
            let i = choose|i: int| 0 <= i < all.len() && all[i] == id;
            assert(front[i] == id);
        }
    } else {
        assert(more.take(0) =~= Seq::<SymbolId>::empty());
        assert(list.take(list.len() as int) =~= list);
    }
}

proof fn lemma_aspects_joined(list: Seq<AspectModel>, more: Seq<AspectModel>, k: nat)
    requires
        k <= more.len(),
    ensures
        ({
            let r = crate::merge::aspects_joined(list, more, k);
            &&& list.len() <= r.len()
            &&& r.take(list.len() as int) == list
        }),
    decreases k,
{
    if k > 0 {
        lemma_aspects_joined(list, more, (k - 1) as nat);
        let prev = crate::merge::aspects_joined(list, more, (k - 1) as nat);
        assert(prev.push(more[k - 1]).take(list.len() as int) =~= prev.take(list.len() as int));
    } else {
        assert(list.take(list.len() as int) =~= list);
    }
}

/// Members get the identities that are interned for them under the name of their owner: a field of a
/// struct by its name, a variant by its name, and a field of a variant behind the variant's name.
/// Everything else about them stays.
pub proof fn members_get_their_identities(
    reg: RegistryModel,
    members: crate::identity::MemberModel,
    owner: SymbolId,
    i: int,
    j: int,
)
    ensures
        ({
            let r = crate::identity::stamped(reg, members);
            let fields = reg.struct_env[owner];
            let stamped = r.struct_env[owner];
            &&& r.struct_env.dom() =~= reg.struct_env.dom()
            &&& reg.struct_env.dom().contains(owner) && 0 <= i < fields.len() ==> {
                &&& stamped.len() == fields.len()
                &&& stamped[i].name == fields[i].name && stamped[i].ty == fields[i].ty
                &&& members.fields.dom().contains((owner, fields[i].name)) ==> stamped[i].id == Some(
                    members.fields[(owner, fields[i].name)],
                )
            }
        }),
        ({
            let r = crate::identity::stamped(reg, members);
            let before = reg.enum_env[owner].variants;
            let after = r.enum_env[owner].variants;
            &&& r.enum_env.dom() =~= reg.enum_env.dom()
            &&& reg.enum_env.dom().contains(owner) && 0 <= i < before.len() ==> {
                let key = (owner, before[i].name);
                let field = before[i].fields[j];
                let inner = (owner, before[i].name + "::"@ + field.name);
                &&& after.len() == before.len()
                &&& after[i].name == before[i].name
                &&& members.variants.dom().contains(key) ==> after[i].id == Some(
                    members.variants[key],
                )
                &&& 0 <= j < before[i].fields.len() && members.fields.dom().contains(inner)
                    ==> after[i].fields[j].id == Some(members.fields[inner])
                    && after[i].fields[j].name == field.name && after[i].fields[j].ty == field.ty
            }
        }),
{
    if 0 <= i < reg.struct_env[owner].len() {
        let fields = reg.struct_env[owner];
        assert(Seq::<char>::empty() + fields[i].name =~= fields[i].name);
    }
}

} // verus!
