//! What holds of the registry and of the inference context as a whole.

use crate::ast::Visibility;
use crate::aspects::{Check, Ruling};
use crate::context::{Binding, ContextModel};
use crate::definitions::{AspectModel, EntryModel, EnumModel, FieldModel, GlobTier};
use crate::error::ErrorModel;
use crate::identity::MemberModel;
use crate::registry::RegistryModel;
use crate::schemes::SchemeModel;
use crate::symbols::SymbolId;
use crate::term::{Head, Term, TypeVar};
use vstd::prelude::*;

verus! {

/// The registry after a block has been opened.
pub open spec fn block_opened(reg: RegistryModel) -> RegistryModel {
    RegistryModel { struct_scope_stack: reg.struct_scope_stack.push(Seq::empty()), ..reg }
}

/// Whether nothing is known of an identity yet.
pub open spec fn unused(reg: RegistryModel, id: SymbolId) -> bool {
    &&& !reg.struct_env.contains_key(id)
    &&& !reg.struct_decl_modules.contains_key(id)
    &&& !reg.struct_visibility.contains_key(id)
    &&& !reg.enum_env.contains_key(id)
    &&& !reg.enum_decl_modules.contains_key(id)
    &&& !reg.type_decl_names.contains_key(id)
    &&& forall|k: Seq<char>| #[trigger]
        reg.variant_declaring_enums.contains_key(k) ==> !reg.variant_declaring_enums[k].contains(
            id,
        )
}

/// A struct declared in a block is gone when the block ends: what the registry
/// knows is what it knew before. Only the identity stays taken.
pub proof fn block_local_structs_end_with_their_block(
    reg: RegistryModel,
    name: Seq<char>,
    fields: Seq<FieldModel>,
    module: Seq<Seq<char>>,
    visibility: Visibility,
)
    requires
        unused(reg, SymbolId(reg.next_local_type_id)),
        !reg.type_decl_ids.contains_key(name),
        !reg.local_type_decl_ids.contains_key(name),
    ensures
        crate::registering::scope_closed(
            crate::registering::with_local_struct(
                block_opened(reg),
                name,
                fields,
                module,
                visibility,
            ),
        ) == crate::registering::with_local_id(reg),
{
    let open = block_opened(reg);
    let id = SymbolId(reg.next_local_type_id);
    let inner = crate::registering::with_local_struct(open, name, fields, module, visibility);
    assert(inner.struct_scope_stack.last() =~= seq![id]);
    assert(inner.struct_scope_stack.drop_last() =~= reg.struct_scope_stack);
    let base = RegistryModel { struct_scope_stack: reg.struct_scope_stack, ..inner };
    let done = crate::registering::forget_all(base, seq![id], 1);
    assert(crate::registering::forget_all(base, seq![id], 0) == base);
    assert(done == crate::registering::forget(base, id));
    assert(done.struct_env =~= reg.struct_env);
    assert(done.struct_decl_modules =~= reg.struct_decl_modules);
    assert(done.struct_visibility =~= reg.struct_visibility);
    assert(done.enum_env =~= reg.enum_env);
    assert(done.type_decl_names =~= reg.type_decl_names);
    assert(done.type_decl_ids =~= reg.type_decl_ids);
    assert(done.local_type_decl_ids =~= reg.local_type_decl_ids);
}

proof fn lemma_without_absent(ids: Seq<SymbolId>, id: SymbolId)
    requires
        !ids.contains(id),
    ensures
        crate::registering::without(ids, id) == ids,
    decreases ids.len(),
{
    if ids.len() > 0 {
        let rest = ids.drop_last();
        assert(!rest.contains(id)) by {
            if rest.contains(id) {
                let i = rest.index_of(id);
                assert(ids[i] == id);
            }
        }
        lemma_without_absent(rest, id);
        assert(ids.last() != id) by {
            assert(ids[ids.len() - 1] == ids.last());
        }
        assert(rest.push(ids.last()) =~= ids);
    }
}

/// Taking back an identity that was added to the lists for some variants leaves
/// the lists as they were.
proof fn lemma_variants_taken_back(
    m: Map<Seq<char>, Seq<SymbolId>>,
    id: SymbolId,
    variants: Seq<crate::definitions::VariantModel>,
    k: nat,
    v: Seq<char>,
)
    requires
        k <= variants.len(),
        forall|n: Seq<char>| #[trigger] m.contains_key(n) ==> !m[n].contains(id),
    ensures
        ({
            let list = crate::table::list_at(
                crate::registering::with_variants(m, id, variants, k),
                v,
            );
            list == crate::table::list_at(m, v) || list == crate::table::list_at(m, v).push(id)
        }),
        crate::registering::without(
            crate::table::list_at(crate::registering::with_variants(m, id, variants, k), v),
            id,
        ) == crate::table::list_at(m, v),
    decreases k,
{
    let before = crate::table::list_at(m, v);
    assert(!before.contains(id));
    lemma_without_absent(before, id);
    assert(before.push(id).drop_last() =~= before);
    if k > 0 {
        lemma_variants_taken_back(m, id, variants, (k - 1) as nat, v);
        let prev = crate::table::list_at(
            crate::registering::with_variants(m, id, variants, (k - 1) as nat),
            v,
        );
        if variants[k - 1].name == v {
            if prev == before.push(id) {
                assert(prev[before.len() as int] == id);
                assert(prev.contains(id));
            }
        }
    }
}

/// An enum declared in a block is gone when the block ends: no name means it, no
/// variant belongs to it, and all else is as before.
pub proof fn block_local_enums_end_with_their_block(
    reg: RegistryModel,
    name: Seq<char>,
    info: EnumModel,
    module: Seq<Seq<char>>,
)
    requires
        unused(reg, SymbolId(reg.next_local_type_id)),
        !reg.type_decl_ids.contains_key(name),
        !reg.local_type_decl_ids.contains_key(name),
    ensures
        ({
            let done = crate::registering::scope_closed(
                crate::registering::with_local_enum(block_opened(reg), name, info, module),
            );
            &&& done == (RegistryModel {
                variant_declaring_enums: done.variant_declaring_enums,
                ..crate::registering::with_local_id(reg)
            })
            &&& forall|v: Seq<char>| #[trigger]
                crate::table::list_at(done.variant_declaring_enums, v) == crate::table::list_at(
                    reg.variant_declaring_enums,
                    v,
                )
        }),
{
    let open = block_opened(reg);
    let id = SymbolId(reg.next_local_type_id);
    let inner = crate::registering::with_local_enum(open, name, info, module);
    assert(inner.struct_scope_stack.last() =~= seq![id]);
    assert(inner.struct_scope_stack.drop_last() =~= reg.struct_scope_stack);
    let base = RegistryModel { struct_scope_stack: reg.struct_scope_stack, ..inner };
    let done = crate::registering::forget_all(base, seq![id], 1);
    assert(crate::registering::forget_all(base, seq![id], 0) == base);
    assert(done == crate::registering::forget(base, id));
    assert(done.struct_env =~= reg.struct_env);
    assert(done.struct_decl_modules =~= reg.struct_decl_modules);
    assert(done.struct_visibility =~= reg.struct_visibility);
    assert(done.enum_env =~= reg.enum_env);
    assert(done.enum_decl_modules =~= reg.enum_decl_modules);
    assert(done.type_decl_names =~= reg.type_decl_names);
    assert(done.type_decl_ids =~= reg.type_decl_ids);
    assert(done.local_type_decl_ids =~= reg.local_type_decl_ids);
    assert forall|v: Seq<char>| #[trigger]
        crate::table::list_at(done.variant_declaring_enums, v) == crate::table::list_at(
            reg.variant_declaring_enums,
            v,
        ) by {
        lemma_variants_taken_back(
            reg.variant_declaring_enums,
            id,
            info.variants,
            info.variants.len(),
            v,
        );
    }
}

/// A struct declared in a block is found by its name there, where the name means
/// nothing else.
pub proof fn block_local_structs_are_visible(
    reg: RegistryModel,
    here: Seq<Seq<char>>,
    name: Seq<char>,
    fields: Seq<FieldModel>,
    module: Seq<Seq<char>>,
    visibility: Visibility,
)
    requires
        crate::resolve::resolved(
            crate::registering::with_local_struct(reg, name, fields, module, visibility),
            here,
            name,
        ) is None,
    ensures
        ({
            let next = crate::registering::with_local_struct(
                reg,
                name,
                fields,
                module,
                visibility,
            );
            crate::resolve::type_key_broad(next, here, name) == Some(
                SymbolId(reg.next_local_type_id),
            ) && next.struct_env.get(SymbolId(reg.next_local_type_id)) == Some(fields)
        }),
{
}

/// Two declarations in blocks have different identities, as long as there are
/// any left.
pub proof fn block_local_identities_differ(
    reg: RegistryModel,
    name: Seq<char>,
    fields: Seq<FieldModel>,
    module: Seq<Seq<char>>,
    visibility: Visibility,
)
    requires
        reg.next_local_type_id > 0,
    ensures
        crate::registering::with_local_struct(
            reg,
            name,
            fields,
            module,
            visibility,
        ).next_local_type_id < reg.next_local_type_id,
{
}

/// Merging never changes what is already known of a declaration.
pub proof fn merging_never_overwrites(m: RegistryModel, o: RegistryModel, id: SymbolId)
    ensures
        m.struct_env.contains_key(id) ==> crate::merge::merged(m, o).struct_env.get(id)
            == m.struct_env.get(id),
        m.enum_env.contains_key(id) ==> crate::merge::merged(m, o).enum_env.get(id)
            == m.enum_env.get(id),
        m.type_decl_names.contains_key(id) ==> crate::merge::merged(m, o).type_decl_names.get(id)
            == m.type_decl_names.get(id),
        m.struct_type_params.contains_key(id) ==> crate::merge::merged(m, o).struct_type_params.get(
            id,
        ) == m.struct_type_params.get(id),
        m.struct_visibility.contains_key(id) ==> crate::merge::merged(m, o).struct_visibility.get(
            id,
        ) == m.struct_visibility.get(id),
        m.type_param_bounds.contains_key(id) ==> crate::merge::merged(m, o).type_param_bounds.get(
            id,
        ) == m.type_param_bounds.get(id),
{
}

/// Merging takes over what was not known of a declaration.
pub proof fn merging_adds_what_is_missing(m: RegistryModel, o: RegistryModel, id: SymbolId)
    ensures
        !m.struct_env.contains_key(id) ==> crate::merge::merged(m, o).struct_env.get(id)
            == o.struct_env.get(id),
        !m.enum_env.contains_key(id) ==> crate::merge::merged(m, o).enum_env.get(id)
            == o.enum_env.get(id),
        !m.type_decl_names.contains_key(id) ==> crate::merge::merged(m, o).type_decl_names.get(id)
            == o.type_decl_names.get(id),
{
}

/// Two modules that declare structs of the same name keep their own fields when
/// their registries are merged.
pub proof fn same_named_structs_stay_apart(
    m: RegistryModel,
    o: RegistryModel,
    a: SymbolId,
    b: SymbolId,
    name: Seq<char>,
    a_fields: Seq<FieldModel>,
    b_fields: Seq<FieldModel>,
    a_module: Seq<Seq<char>>,
    b_module: Seq<Seq<char>>,
    visibility: Visibility,
)
    requires
        a != b,
        !m.struct_env.contains_key(b),
    ensures
        ({
            let both = crate::merge::merged(
                crate::registering::with_struct(m, a, name, a_fields, a_module, visibility),
                crate::registering::with_struct(o, b, name, b_fields, b_module, visibility),
            );
            both.struct_env.get(a) == Some(a_fields) && both.struct_env.get(b) == Some(b_fields)
        }),
{
}

/// Stamping identities a second time changes nothing.
pub proof fn stamping_twice_is_stamping_once(reg: RegistryModel, members: MemberModel)
    ensures
        crate::identity::stamped(crate::identity::stamped(reg, members), members)
            == crate::identity::stamped(reg, members),
{
    let once = crate::identity::stamped(reg, members);
    let twice = crate::identity::stamped(once, members);
    assert forall|id: SymbolId| #[trigger] once.struct_env.contains_key(id) implies
        twice.struct_env[id] == once.struct_env[id] by {
        lemma_fields_stamped_twice(members, id, Seq::empty(), reg.struct_env[id]);
    }
    assert(twice.struct_env =~= once.struct_env);
    assert forall|id: SymbolId| #[trigger] once.enum_env.contains_key(id) implies
        twice.enum_env[id] == once.enum_env[id] by {
        let a = once.enum_env[id].variants;
        let b = twice.enum_env[id].variants;
        assert forall|i: int| 0 <= i < a.len() implies a[i] == b[i] by {
            lemma_fields_stamped_twice(
                members,
                id,
                reg.enum_env[id].variants[i].name + "::"@,
                reg.enum_env[id].variants[i].fields,
            );
        }
        assert(a =~= b);
    }
    assert(twice.enum_env =~= once.enum_env);
}

proof fn lemma_fields_stamped_twice(
    members: MemberModel,
    owner: SymbolId,
    prefix: Seq<char>,
    fields: Seq<FieldModel>,
)
    ensures
        crate::identity::stamped_fields(
            members,
            owner,
            prefix,
            crate::identity::stamped_fields(members, owner, prefix, fields),
        ) == crate::identity::stamped_fields(members, owner, prefix, fields),
{
    assert(crate::identity::stamped_fields(
        members,
        owner,
        prefix,
        crate::identity::stamped_fields(members, owner, prefix, fields),
    ) =~= crate::identity::stamped_fields(members, owner, prefix, fields));
}

/// It makes no difference to the members of structs and enums whether they are
/// stamped before or after registries are merged.
pub proof fn stamping_and_merging_commute(
    m: RegistryModel,
    o: RegistryModel,
    members: MemberModel,
)
    ensures
        crate::identity::stamped(crate::merge::merged(m, o), members) == crate::merge::merged(
            crate::identity::stamped(m, members),
            crate::identity::stamped(o, members),
        ),
{
    let late = crate::identity::stamped(crate::merge::merged(m, o), members);
    let early = crate::merge::merged(
        crate::identity::stamped(m, members),
        crate::identity::stamped(o, members),
    );
    assert(late.struct_env =~= early.struct_env);
    assert(late.enum_env =~= early.enum_env);
}

/// Declaring an aspect again in the same module replaces the earlier declaration
/// and leaves those of other modules alone.
pub proof fn redeclaring_an_aspect_replaces_it(
    entries: Seq<AspectModel>,
    first: AspectModel,
    second: AspectModel,
)
    requires
        first.declaring_module == second.declaring_module,
    ensures
        crate::aspect_decls::with_aspect(
            crate::aspect_decls::with_aspect(entries, first),
            second,
        ) == crate::aspect_decls::with_aspect(entries, second),
{
    let module = first.declaring_module;
    let i = crate::aspect_decls::entry_of_module(entries, module, 0);
    let once = crate::aspect_decls::with_aspect(entries, first);
    crate::aspect_decls::lemma_entry_of_module(entries, module, 0);
    lemma_first_entry(entries, module, 0);
    assert(once[i] == first);
    assert forall|j: int| 0 <= j < i implies (#[trigger] once[j]).declaring_module != module by {
        assert(entries[j].declaring_module != module);
    }
    lemma_entry_at(once, module, 0, i);
    assert(crate::aspect_decls::with_aspect(once, second)
        =~= crate::aspect_decls::with_aspect(entries, second));
}

proof fn lemma_first_entry(entries: Seq<AspectModel>, module: Seq<Seq<char>>, from: int)
    requires
        0 <= from <= entries.len(),
    ensures
        forall|j: int|
            from <= j < crate::aspect_decls::entry_of_module(entries, module, from) ==> (
            #[trigger] entries[j]).declaring_module != module,
    decreases entries.len() - from,
{
    if from < entries.len() && entries[from].declaring_module != module {
        lemma_first_entry(entries, module, from + 1);
    }
}

proof fn lemma_entry_at(entries: Seq<AspectModel>, module: Seq<Seq<char>>, from: int, at: int)
    requires
        0 <= from <= at < entries.len(),
        entries[at].declaring_module == module,
        forall|j: int|
            from <= j < at ==> (#[trigger] entries[j]).declaring_module != module,
    ensures
        crate::aspect_decls::entry_of_module(entries, module, from) == at,
    decreases at - from,
{
    if from < at {
        lemma_entry_at(entries, module, from + 1, at);
    }
}

/// A module's own declaration wins over everything that it imports.
pub proof fn own_declarations_win(reg: RegistryModel, module: Seq<Seq<char>>, name: Seq<char>)
    requires
        reg.symbols.contains_key((module, name)),
    ensures
        crate::resolve::resolved(reg, module, name) == Some(reg.symbols[(module, name)]),
{
}

/// An explicit import wins over every glob import, and a glob import of the
/// program over one of the standard library.
pub proof fn explicit_imports_win_over_globs(
    reg: RegistryModel,
    module: Seq<Seq<char>>,
    name: Seq<char>,
)
    requires
        !reg.symbols.contains_key((module, name)),
        reg.scopes.contains_key(module),
    ensures
        ({
            let scope = reg.scopes[module];
            let user = crate::resolve::glob_provided(reg, scope.globs, GlobTier::User, name, 0);
            match crate::resolve::import_named(scope.explicit, name, 0) {
                Some(b) => crate::resolve::resolved(reg, module, name) == Some(b.symbol_id),
                None => user is Some ==> crate::resolve::resolved(reg, module, name) == user,
            }
        }),
{
}

/// A type variable has exactly the aspects that are assumed of it.
pub proof fn variables_have_what_is_assumed(
    reg: RegistryModel,
    module: Seq<Seq<char>>,
    assumed: Map<TypeVar, Set<Seq<char>>>,
    v: TypeVar,
    aspect: Seq<char>,
)
    ensures
        crate::aspects::decided(reg, module, assumed, crate::term::var(v), aspect),
        crate::aspects::satisfied(reg, module, assumed, crate::term::var(v), aspect) == (
        assumed.contains_key(v) && assumed[v].contains(aspect)),
{
    let t = crate::term::var(v);
    let ruling = crate::aspects::ruling(reg, module, t, aspect, assumed);
    assert(ruling.rules.len() == 0);
    assert(crate::aspects::satisfied_at(1, reg, module, assumed, t, aspect) is Some);
    let n = choose|n: nat| #[trigger]
        crate::aspects::satisfied_at(n, reg, module, assumed, t, aspect) is Some;
    assert(crate::aspects::satisfied_at(n, reg, module, assumed, t, aspect) == Some(
        ruling.otherwise,
    ));
}

/// Rules that deny, up to one that does not fail to apply, come to no grant.
proof fn lemma_only_refusals(
    n: nat,
    reg: RegistryModel,
    module: Seq<Seq<char>>,
    assumed: Map<TypeVar, Set<Seq<char>>>,
    r: Ruling,
    i: int,
    end: int,
)
    requires
        0 <= i <= end < r.rules.len(),
        crate::aspects::all_hold(n, reg, module, assumed, r.rules[end].checks, 0) != Some(false),
        forall|j: int| 0 <= j <= end ==> !(#[trigger] r.rules[j]).verdict,
    ensures
        crate::aspects::first_verdict(n, reg, module, assumed, r, i) != Some(true),
    decreases end - i,
{
    if i < end {
        lemma_only_refusals(n, reg, module, assumed, r, i + 1, end);
    }
}

/// A negative impl written for a type with exactly its arguments denies the
/// aspect, whatever positive impls there are, blanket impls for all types
/// included. Only a placeholder that is known to have the aspect has it.
pub proof fn negative_impls_win(
    reg: RegistryModel,
    module: Seq<Seq<char>>,
    assumed: Map<TypeVar, Set<Seq<char>>>,
    name: Seq<char>,
    args: Seq<Term>,
    id: SymbolId,
    aspect: Seq<char>,
)
    requires
        crate::resolve::resolved(reg, module, name) == Some(id),
        crate::aspects::overridden(reg, id, aspect, args),
        !(args.len() == 0 && reg.symbolic_named_aspects.contains_key(name)
            && reg.symbolic_named_aspects[name].contains(aspect)),
    ensures
        !crate::aspects::satisfied(
            reg,
            module,
            assumed,
            Term { head: Head::Named(name, None), args },
            aspect,
        ),
{
    let t = Term { head: Head::Named(name, None), args };
    let r = crate::aspects::ruling(reg, module, t, aspect, assumed);
    let bare = crate::table::list_at(reg.bare_neg_impl_bounds, aspect);
    let own = crate::table::list_at(reg.neg_conditional_impl_bounds, (id, aspect));
    let end = bare.len() + own.len();
    assert forall|j: int| 0 <= j <= end implies !(#[trigger] r.rules[j]).verdict by {}
    let n = choose|n: nat| #[trigger]
        crate::aspects::satisfied_at(n, reg, module, assumed, t, aspect) is Some;
    if n > 0 {
        lemma_only_refusals((n - 1) as nat, reg, module, assumed, r, 0, end as int);
    }
}

proof fn lemma_never_fails(
    n: nat,
    reg: RegistryModel,
    module: Seq<Seq<char>>,
    assumed: Map<TypeVar, Set<Seq<char>>>,
    checks: Seq<Check>,
    j: int,
)
    requires
        answered_as_wanted(reg, module, assumed, checks),
    ensures
        crate::aspects::all_hold(n, reg, module, assumed, checks, j) != Some(false),
    decreases checks.len() - j,
{
    if 0 <= j < checks.len() {
        let c = checks[j];
        if crate::aspects::satisfied_at(n, reg, module, assumed, c.ty, c.aspect) is Some {
            crate::aspect_laws::answers_are_unique(n, reg, module, assumed, c.ty, c.aspect);
        }
        lemma_never_fails(n, reg, module, assumed, checks, j + 1);
    }
}

/// Whether all questions are answered as wanted.
pub open spec fn answered_as_wanted(
    reg: RegistryModel,
    module: Seq<Seq<char>>,
    assumed: Map<TypeVar, Set<Seq<char>>>,
    checks: Seq<Check>,
) -> bool {
    forall|j: int|
        0 <= j < checks.len() ==> crate::aspects::satisfied(
            reg,
            module,
            assumed,
            (#[trigger] checks[j]).ty,
            checks[j].aspect,
        ) == checks[j].wanted
}

/// A negative impl for a type's head denies the aspect where its conditions are
/// met, again whatever positive impls there are.
pub proof fn conditional_negative_impls_win(
    reg: RegistryModel,
    module: Seq<Seq<char>>,
    assumed: Map<TypeVar, Set<Seq<char>>>,
    name: Seq<char>,
    args: Seq<Term>,
    id: SymbolId,
    aspect: Seq<char>,
    entry: EntryModel,
)
    requires
        crate::resolve::resolved(reg, module, name) == Some(id),
        crate::table::list_at(reg.neg_conditional_impl_bounds, (id, aspect)).contains(entry),
        answered_as_wanted(
            reg,
            module,
            assumed,
            crate::aspects::entry_checks(args, entry, args.len()),
        ),
        !(args.len() == 0 && reg.symbolic_named_aspects.contains_key(name)
            && reg.symbolic_named_aspects[name].contains(aspect)),
    ensures
        !crate::aspects::satisfied(
            reg,
            module,
            assumed,
            Term { head: Head::Named(name, None), args },
            aspect,
        ),
{
    let t = Term { head: Head::Named(name, None), args };
    let r = crate::aspects::ruling(reg, module, t, aspect, assumed);
    let bare = crate::table::list_at(reg.bare_neg_impl_bounds, aspect);
    let own = crate::table::list_at(reg.neg_conditional_impl_bounds, (id, aspect));
    let at = choose|i: int| 0 <= i < own.len() && own[i] == entry;
    let end = bare.len() + at;
    let checks = crate::aspects::entry_checks(args, entry, args.len());
    assert(r.rules[end].checks == checks);
    assert forall|j: int| 0 <= j <= end implies !(#[trigger] r.rules[j]).verdict by {}
    let n = choose|n: nat| #[trigger]
        crate::aspects::satisfied_at(n, reg, module, assumed, t, aspect) is Some;
    if n > 0 {
        lemma_never_fails((n - 1) as nat, reg, module, assumed, checks, 0);
        lemma_only_refusals((n - 1) as nat, reg, module, assumed, r, 0, end);
    }
}

/// A binding is found under its name, hides those of outer scopes, and leaves
/// other names alone.
pub proof fn inner_bindings_hide_outer_ones<V>(
    scopes: Seq<Map<Seq<char>, V>>,
    name: Seq<char>,
    value: V,
    other: Seq<char>,
)
    requires
        scopes.len() > 0,
        other != name,
    ensures
        crate::context::innermost(crate::context::bound_innermost(scopes, name, value), name)
            == Some(value),
        crate::context::innermost(crate::context::bound_innermost(scopes, name, value), other)
            == crate::context::innermost(scopes, other),
{
    let next = crate::context::bound_innermost(scopes, name, value);
    assert(next.drop_last() =~= scopes.drop_last());
}

proof fn lemma_outer_scopes(
    poly: Seq<Map<Seq<char>, SchemeModel>>,
    mono: Seq<Map<Seq<char>, (Term, bool)>>,
    more_poly: Seq<Map<Seq<char>, SchemeModel>>,
    more_mono: Seq<Map<Seq<char>, (Term, bool)>>,
    name: Seq<char>,
    k: nat,
)
    requires
        k <= poly.len() == mono.len(),
        k <= more_poly.len() == more_mono.len(),
        forall|i: int| 0 <= i < k ==> poly[i] == #[trigger] more_poly[i],
        forall|i: int| 0 <= i < k ==> mono[i] == #[trigger] more_mono[i],
    ensures
        crate::context::nearest_below(poly, mono, name, k) == crate::context::nearest_below(
            more_poly,
            more_mono,
            name,
            k,
        ),
    decreases k,
{
    if k > 0 {
        lemma_outer_scopes(poly, mono, more_poly, more_mono, name, (k - 1) as nat);
    }
}

/// A name bound in a new scope hides every outer binding of it, polymorphic ones
/// included; other names mean what they meant outside.
pub proof fn nearer_scopes_are_searched_first(
    poly: Seq<Map<Seq<char>, SchemeModel>>,
    mono: Seq<Map<Seq<char>, (Term, bool)>>,
    name: Seq<char>,
    ty: Term,
    assignable: bool,
    scheme: SchemeModel,
    other: Seq<char>,
)
    requires
        poly.len() == mono.len(),
        other != name,
    ensures
        ({
            let outer = poly.push(Map::empty());
            let inner = crate::context::bound_innermost(
                mono.push(Map::empty()),
                name,
                (ty, assignable),
            );
            &&& crate::context::nearest(outer, inner, name) == Some(Binding::Mono(ty, assignable))
            &&& crate::context::nearest(outer, inner, other) == crate::context::nearest(
                poly,
                mono,
                other,
            )
            &&& crate::context::nearest(
                crate::context::bound_innermost(outer, name, scheme),
                inner,
                name,
            ) == Some(Binding::Poly(scheme))
        }),
{
    let outer = poly.push(Map::empty());
    let inner = crate::context::bound_innermost(mono.push(Map::empty()), name, (ty, assignable));
    let n = poly.len();
    assert(inner[n as int].contains_key(name));
    assert(!outer[n as int].contains_key(name));
    assert(!inner[n as int].contains_key(other));
    assert(!outer[n as int].contains_key(other));
    lemma_outer_scopes(poly, mono, outer, inner, other, n);
    let both = crate::context::bound_innermost(outer, name, scheme);
    assert(both[n as int].contains_key(name));
}

/// A speculative solve leaves no trace but in the statistics once its checkpoint
/// has been restored: solving then goes the same way as before.
pub proof fn restoring_undoes_a_failed_solve(
    c: ContextModel,
    after: ContextModel,
    bindings: Map<TypeVar, Term>,
    r: Result<(), ErrorModel>,
)
    requires
        after == (ContextModel {
            solution: after.solution,
            solved: after.solved,
            stats: after.stats,
            ..c
        }),
    ensures
        ({
            let restored = ContextModel { solution: c.solution, solved: c.solved, ..after };
            &&& restored == (ContextModel { stats: after.stats, ..c })
            &&& crate::context_solve::solving_settles(restored)
                == crate::context_solve::solving_settles(c)
            &&& crate::context_solve::solving(restored, bindings, r)
                == crate::context_solve::solving(c, bindings, r)
        }),
{
}

} // verus!
