//! Merging what one registry knows into another.

use crate::data::Dup;
use crate::definitions::{AspectEntry, AspectModel};
use crate::registry::{RegistryModel, TypeDefinitionRegistry};
use crate::symbols::SymbolId;
use crate::table::Table;
use vstd::prelude::*;

verus! {

/// A list with those of the first `k` identities of another that it lacks.
pub open spec fn ids_joined(list: Seq<SymbolId>, more: Seq<SymbolId>, k: nat) -> Seq<SymbolId>
    decreases k,
{
    if k == 0 {
        list
    } else {
        let prev = ids_joined(list, more, (k - 1) as nat);
        if prev.contains(more[k - 1]) {
            prev
        } else {
            prev.push(more[k - 1])
        }
    }
}

/// Lists, each with the identities of another that it lacks.
pub open spec fn ids_added(
    m: Map<Seq<char>, Seq<SymbolId>>,
    o: Map<Seq<char>, Seq<SymbolId>>,
) -> Map<Seq<char>, Seq<SymbolId>> {
    Map::new(
        |k: Seq<char>| m.contains_key(k) || o.contains_key(k),
        |k: Seq<char>|
            ids_joined(
                crate::table::list_at(m, k),
                crate::table::list_at(o, k),
                crate::table::list_at(o, k).len(),
            ),
    )
}

/// Aspect entries with those of the first `k` entries of another list whose
/// modules have none yet.
pub open spec fn aspects_joined(
    list: Seq<AspectModel>,
    more: Seq<AspectModel>,
    k: nat,
) -> Seq<AspectModel>
    decreases k,
{
    if k == 0 {
        list
    } else {
        let prev = aspects_joined(list, more, (k - 1) as nat);
        let entry = more[k - 1];
        if crate::aspect_decls::entry_of_module(prev, entry.declaring_module, 0) < prev.len() {
            prev
        } else {
            prev.push(entry)
        }
    }
}

/// Aspect entries by name, with those of modules that have none yet.
pub open spec fn aspects_added(
    m: Map<Seq<char>, Seq<AspectModel>>,
    o: Map<Seq<char>, Seq<AspectModel>>,
) -> Map<Seq<char>, Seq<AspectModel>> {
    Map::new(
        |k: Seq<char>| m.contains_key(k) || o.contains_key(k),
        |k: Seq<char>|
            aspects_joined(
                crate::table::list_at(m, k),
                crate::table::list_at(o, k),
                crate::table::list_at(o, k).len(),
            ),
    )
}

/// What a registry knows after another has been merged into it. What it knew
/// before stays; lists of impls and of method variants grow.
pub open spec fn merged(m: RegistryModel, o: RegistryModel) -> RegistryModel {
    RegistryModel {
        struct_env: crate::table::filled(m.struct_env, o.struct_env),
        struct_decl_modules: crate::table::filled(m.struct_decl_modules, o.struct_decl_modules),
        type_decl_names: crate::table::filled(m.type_decl_names, o.type_decl_names),
        type_decl_ids: crate::table::filled(m.type_decl_ids, o.type_decl_ids),
        struct_visibility: crate::table::filled(m.struct_visibility, o.struct_visibility),
        struct_type_params: crate::table::filled(m.struct_type_params, o.struct_type_params),
        struct_generic_names: crate::table::filled(m.struct_generic_names, o.struct_generic_names),
        method_scheme_env: crate::table::inner_filled(m.method_scheme_env, o.method_scheme_env),
        method_scheme_variants: crate::table::inner_appended(
            m.method_scheme_variants,
            o.method_scheme_variants,
        ),
        array_method_scheme_env: crate::table::filled(
            m.array_method_scheme_env,
            o.array_method_scheme_env,
        ),
        array_method_scheme_variants: crate::table::appended(
            m.array_method_scheme_variants,
            o.array_method_scheme_variants,
        ),
        generic_method_schemes_by_span: crate::table::filled(
            m.generic_method_schemes_by_span,
            o.generic_method_schemes_by_span,
        ),
        type_param_bounds: crate::table::filled(m.type_param_bounds, o.type_param_bounds),
        neg_type_param_bounds: crate::table::filled(
            m.neg_type_param_bounds,
            o.neg_type_param_bounds,
        ),
        type_param_record_kinds: crate::table::filled(
            m.type_param_record_kinds,
            o.type_param_record_kinds,
        ),
        fun_bounds: crate::table::filled(m.fun_bounds, o.fun_bounds),
        neg_fun_bounds: crate::table::filled(m.neg_fun_bounds, o.neg_fun_bounds),
        fun_record_kinds: crate::table::filled(m.fun_record_kinds, o.fun_record_kinds),
        fun_assoc_eq_constraints: crate::table::filled(
            m.fun_assoc_eq_constraints,
            o.fun_assoc_eq_constraints,
        ),
        method_env: crate::table::inner_filled(m.method_env, o.method_env),
        method_receiver_env: crate::table::inner_filled(
            m.method_receiver_env,
            o.method_receiver_env,
        ),
        array_method_env: crate::table::filled(m.array_method_env, o.array_method_env),
        array_method_receiver_env: crate::table::filled(
            m.array_method_receiver_env,
            o.array_method_receiver_env,
        ),
        enum_env: crate::table::filled(m.enum_env, o.enum_env),
        variant_declaring_enums: ids_added(m.variant_declaring_enums, o.variant_declaring_enums),
        enum_decl_modules: crate::table::filled(m.enum_decl_modules, o.enum_decl_modules),
        aspects: aspects_added(m.aspects, o.aspects),
        symbolic_named_aspects: crate::table::filled(
            m.symbolic_named_aspects,
            o.symbolic_named_aspects,
        ),
        impl_aspect_env: crate::table::filled(m.impl_aspect_env, o.impl_aspect_env),
        conditional_impl_bounds: crate::table::appended(
            m.conditional_impl_bounds,
            o.conditional_impl_bounds,
        ),
        bare_impl_bounds: crate::table::appended(m.bare_impl_bounds, o.bare_impl_bounds),
        array_impl_bounds: crate::table::appended(m.array_impl_bounds, o.array_impl_bounds),
        neg_conditional_impl_bounds: crate::table::appended(
            m.neg_conditional_impl_bounds,
            o.neg_conditional_impl_bounds,
        ),
        bare_neg_impl_bounds: crate::table::appended(
            m.bare_neg_impl_bounds,
            o.bare_neg_impl_bounds,
        ),
        array_neg_impl_bounds: crate::table::appended(
            m.array_neg_impl_bounds,
            o.array_neg_impl_bounds,
        ),
        neg_impl_env: crate::table::appended(m.neg_impl_env, o.neg_impl_env),
        impl_assoc_types: crate::table::filled(m.impl_assoc_types, o.impl_assoc_types),
        ..m
    }
}

fn join_ids(list: &mut Vec<SymbolId>, more: &Vec<SymbolId>)
    ensures
        final(list).deep_view() == ids_joined(
            old(list).deep_view(),
            more.deep_view(),
            more.deep_view().len(),
        ),
{
    let ghost start = list.deep_view();
    let mut i: usize = 0;
    while i < more.len()
        invariant
            i <= more.len(),
            list.deep_view() == ids_joined(start, more.deep_view(), i as nat),
        decreases more.len() - i,
    {
        let ghost prev = list.deep_view();
        let id = more[i];
        let mut found = false;
        let mut j: usize = 0;
        while j < list.len()
            invariant
                j <= list.len(),
                prev == list.deep_view(),
                found == exists|a: int| 0 <= a < j && #[trigger] list@[a] == id,
            decreases list.len() - j,
        {
            if list[j].0 == id.0 {
                assert(list@[j as int] == id);
                found = true;
            }
            j += 1;
        }
        proof {
            if found {
                let a = choose|a: int| 0 <= a < list@.len() && #[trigger] list@[a] == id;
                assert(prev[a] == id);
            } else if prev.contains(id) {
                let a = choose|a: int| 0 <= a < prev.len() && prev[a] == id;
                assert(list@[a] == id);
            }
        }
        if !found {
            list.push(id);
            proof {
                assert(list.deep_view() =~= prev.push(id));
            }
        }
        i += 1;
    }
}

fn join_aspects(list: &mut Vec<AspectEntry>, more: &Vec<AspectEntry>)
    ensures
        final(list).deep_view() == aspects_joined(
            old(list).deep_view(),
            more.deep_view(),
            more.deep_view().len(),
        ),
{
    let ghost start = list.deep_view();
    let mut i: usize = 0;
    while i < more.len()
        invariant
            i <= more.len(),
            list.deep_view() == aspects_joined(start, more.deep_view(), i as nat),
        decreases more.len() - i,
    {
        let ghost prev = list.deep_view();
        let ghost before = list@;
        assert(prev.len() == before.len());
        if crate::aspect_decls::find_module(list, &more[i].declaring_module).is_none() {
            let entry = more[i].dup();
            let ghost ev = entry.deep_view();
            list.push(entry);
            proof {
                assert(list.deep_view() =~= prev.push(ev));
            }
        }
        i += 1;
    }
}

fn add_ids(m: &mut Table<String, Vec<SymbolId>>, o: &Table<String, Vec<SymbolId>>)
    ensures
        final(m)@ == ids_added(old(m)@, o@),
{
    let ghost start = m@;
    let n: usize = o.len();
    let mut i: usize = 0;
    while i < n
        invariant
            i <= n,
            n == o.keys().len(),
            o.keys().no_duplicates(),
            forall|k: Seq<char>| #[trigger]
                m@.contains_key(k) <==> start.contains_key(k) || o.keys().take(
                    i as int,
                ).contains(k),
            forall|k: Seq<char>| #[trigger]
                m@.contains_key(k) ==> m@[k] == (if o.keys().take(i as int).contains(k) {
                    ids_joined(crate::table::list_at(start, k), o@[k], o@[k].len())
                } else {
                    start[k]
                }),
        decreases n - i,
    {
        let key = o.key_at(i);
        let ghost kv = o.keys()[i as int];
        let ghost before = m@;
        proof {
            crate::data::lemma_take_next(o.keys(), i as int);
        }
        let mut list = match m.remove(key) {
            Some(list) => list,
            None => Vec::new(),
        };
        proof {
            assert(list.deep_view() =~= crate::table::list_at(start, kv));
        }
        join_ids(&mut list, o.value_at(i));
        let ghost nv = list.deep_view();
        m.insert(key.clone(), list);
        proof {
            assert(m@ =~= before.insert(kv, nv));
        }
        i += 1;
    }
    proof {
        assert(o.keys().take(n as int) =~= o.keys());
    }
    let again: usize = o.len();
    proof {
        assert(m@ =~= ids_added(start, o@));
    }
}

fn add_aspects(m: &mut Table<String, Vec<AspectEntry>>, o: &Table<String, Vec<AspectEntry>>)
    ensures
        final(m)@ == aspects_added(old(m)@, o@),
{
    let ghost start = m@;
    let n: usize = o.len();
    let mut i: usize = 0;
    while i < n
        invariant
            i <= n,
            n == o.keys().len(),
            o.keys().no_duplicates(),
            forall|k: Seq<char>| #[trigger]
                m@.contains_key(k) <==> start.contains_key(k) || o.keys().take(
                    i as int,
                ).contains(k),
            forall|k: Seq<char>| #[trigger]
                m@.contains_key(k) ==> m@[k] == (if o.keys().take(i as int).contains(k) {
                    aspects_joined(crate::table::list_at(start, k), o@[k], o@[k].len())
                } else {
                    start[k]
                }),
        decreases n - i,
    {
        let key = o.key_at(i);
        let ghost kv = o.keys()[i as int];
        let ghost before = m@;
        proof {
            crate::data::lemma_take_next(o.keys(), i as int);
        }
        let mut list = match m.remove(key) {
            Some(list) => list,
            None => Vec::new(),
        };
        proof {
            assert(list.deep_view() =~= crate::table::list_at(start, kv));
        }
        join_aspects(&mut list, o.value_at(i));
        let ghost nv = list.deep_view();
        m.insert(key.clone(), list);
        proof {
            assert(m@ =~= before.insert(kv, nv));
        }
        i += 1;
    }
    proof {
        assert(o.keys().take(n as int) =~= o.keys());
    }
    let again: usize = o.len();
    proof {
        assert(m@ =~= aspects_added(start, o@));
    }
}

impl TypeDefinitionRegistry {
    /// Copy all entries from `other` into `self`, without overwriting existing
    /// entries. Seeds a module's registry with type definitions from
    /// already-checked dependency modules.
    ///
    /// Methods are merged one by one, not type by type: two modules can each
    /// implement a different aspect for the same foreign type. Conditional
    /// impls of one aspect for one type from several modules all stay.
    pub fn merge_from(&mut self, other: &TypeDefinitionRegistry)
        ensures
            final(self)@ == merged(old(self)@, other@),
    {
        self.struct_env.fill_from(&other.struct_env);
        self.struct_decl_modules.fill_from(&other.struct_decl_modules);
        self.type_decl_names.fill_from(&other.type_decl_names);
        self.type_decl_ids.fill_from(&other.type_decl_ids);
        self.struct_visibility.fill_from(&other.struct_visibility);
        self.struct_type_params.fill_from(&other.struct_type_params);
        self.struct_generic_names.fill_from(&other.struct_generic_names);
        self.method_scheme_env.fill_inner_from(&other.method_scheme_env);
        self.method_scheme_variants.append_inner_from(&other.method_scheme_variants);
        self.array_method_scheme_env.fill_from(&other.array_method_scheme_env);
        self.array_method_scheme_variants.append_from(&other.array_method_scheme_variants);
        self.generic_method_schemes_by_span.fill_from(&other.generic_method_schemes_by_span);
        self.type_param_bounds.fill_from(&other.type_param_bounds);
        self.neg_type_param_bounds.fill_from(&other.neg_type_param_bounds);
        self.type_param_record_kinds.fill_from(&other.type_param_record_kinds);
        self.fun_bounds.fill_from(&other.fun_bounds);
        self.neg_fun_bounds.fill_from(&other.neg_fun_bounds);
        self.fun_record_kinds.fill_from(&other.fun_record_kinds);
        self.fun_assoc_eq_constraints.fill_from(&other.fun_assoc_eq_constraints);
        self.method_env.fill_inner_from(&other.method_env);
        self.method_receiver_env.fill_inner_from(&other.method_receiver_env);
        self.array_method_env.fill_from(&other.array_method_env);
        self.array_method_receiver_env.fill_from(&other.array_method_receiver_env);
        self.enum_env.fill_from(&other.enum_env);
        add_ids(&mut self.variant_declaring_enums, &other.variant_declaring_enums);
        self.enum_decl_modules.fill_from(&other.enum_decl_modules);
        add_aspects(&mut self.aspects, &other.aspects);
        self.symbolic_named_aspects.fill_from(&other.symbolic_named_aspects);
        self.impl_aspect_env.fill_from(&other.impl_aspect_env);
        self.conditional_impl_bounds.append_from(&other.conditional_impl_bounds);
        self.bare_impl_bounds.append_from(&other.bare_impl_bounds);
        self.array_impl_bounds.append_from(&other.array_impl_bounds);
        self.neg_conditional_impl_bounds.append_from(&other.neg_conditional_impl_bounds);
        self.bare_neg_impl_bounds.append_from(&other.bare_neg_impl_bounds);
        self.array_neg_impl_bounds.append_from(&other.array_neg_impl_bounds);
        self.neg_impl_env.append_from(&other.neg_impl_env);
        self.impl_assoc_types.fill_from(&other.impl_assoc_types);
    }
}

} // verus!
