//! Registering definitions and looking them up.

use crate::ast::{ReceiverKind, Span, Visibility};
use crate::bounds::GenericBound;
use crate::data::Dup;
use crate::definitions::{EntryModel, EnumInfo, EnumModel, FieldEntry, FieldModel};
use crate::infer_type::InferType;
use crate::registry::{
    ArrayMethodSchemeVariant, MethodScheme, MethodSchemeVariant, RegistryModel,
    TypeDefinitionRegistry,
};
use crate::schemes::{AssocEqConstraints, TypeScheme};
use crate::symbols::SymbolId;
use crate::table::{KeySet, Table};
use crate::term::TypeVar;
use crate::types::Type;
use vstd::prelude::*;

verus! {

/// The innermost open block also lists `id`, if a block is open.
pub open spec fn listed_in_scope(stack: Seq<Seq<SymbolId>>, id: SymbolId) -> Seq<Seq<SymbolId>> {
    if stack.len() == 0 {
        stack
    } else {
        stack.drop_last().push(stack.last().push(id))
    }
}

/// The registry after a struct has been registered.
pub open spec fn with_struct(
    reg: RegistryModel,
    owner: SymbolId,
    name: Seq<char>,
    fields: Seq<FieldModel>,
    module: Seq<Seq<char>>,
    visibility: Visibility,
) -> RegistryModel {
    RegistryModel {
        struct_env: reg.struct_env.insert(owner, fields),
        struct_decl_modules: reg.struct_decl_modules.insert(owner, module),
        struct_visibility: reg.struct_visibility.insert(owner, visibility),
        type_decl_ids: reg.type_decl_ids.insert(name, owner),
        type_decl_names: reg.type_decl_names.insert(owner, name),
        struct_scope_stack: listed_in_scope(reg.struct_scope_stack, owner),
        ..reg
    }
}

/// The registry after an identity for a block-local declaration has been taken.
pub open spec fn with_local_id(reg: RegistryModel) -> RegistryModel {
    RegistryModel {
        next_local_type_id: if reg.next_local_type_id == 0 {
            0
        } else {
            (reg.next_local_type_id - 1) as u32
        },
        ..reg
    }
}

/// The registry after a block-local struct has been registered.
pub open spec fn with_local_struct(
    reg: RegistryModel,
    name: Seq<char>,
    fields: Seq<FieldModel>,
    module: Seq<Seq<char>>,
    visibility: Visibility,
) -> RegistryModel {
    let owner = SymbolId(reg.next_local_type_id);
    let next = with_struct(with_local_id(reg), owner, name, fields, module, visibility);
    RegistryModel { local_type_decl_ids: next.local_type_decl_ids.insert(name, owner), ..next }
}

/// The enums that declare each variant, after `owner` has been added for the
/// first `k` variants of a list.
pub open spec fn with_variants(
    m: Map<Seq<char>, Seq<SymbolId>>,
    owner: SymbolId,
    variants: Seq<crate::definitions::VariantModel>,
    k: nat,
) -> Map<Seq<char>, Seq<SymbolId>>
    decreases k,
{
    if k == 0 {
        m
    } else {
        let prev = with_variants(m, owner, variants, (k - 1) as nat);
        let name = variants[k - 1].name;
        let list = crate::table::list_at(prev, name);
        prev.insert(
            name,
            if list.contains(owner) {
                list
            } else {
                list.push(owner)
            },
        )
    }
}

/// The registry after an enum has been registered.
pub open spec fn with_enum(
    reg: RegistryModel,
    owner: SymbolId,
    name: Seq<char>,
    info: EnumModel,
    module: Seq<Seq<char>>,
) -> RegistryModel {
    RegistryModel {
        variant_declaring_enums: with_variants(
            reg.variant_declaring_enums,
            owner,
            info.variants,
            info.variants.len(),
        ),
        enum_env: reg.enum_env.insert(owner, info),
        enum_decl_modules: reg.enum_decl_modules.insert(owner, module),
        type_decl_ids: reg.type_decl_ids.insert(name, owner),
        type_decl_names: reg.type_decl_names.insert(owner, name),
        ..reg
    }
}

/// The registry after a block-local enum has been registered.
pub open spec fn with_local_enum(
    reg: RegistryModel,
    name: Seq<char>,
    info: EnumModel,
    module: Seq<Seq<char>>,
) -> RegistryModel {
    let owner = SymbolId(reg.next_local_type_id);
    let next = with_enum(with_local_id(reg), owner, name, info, module);
    RegistryModel {
        local_type_decl_ids: next.local_type_decl_ids.insert(name, owner),
        struct_scope_stack: listed_in_scope(next.struct_scope_stack, owner),
        ..next
    }
}

/// A list without an identity.
pub open spec fn without(ids: Seq<SymbolId>, id: SymbolId) -> Seq<SymbolId>
    decreases ids.len(),
{
    if ids.len() == 0 {
        ids
    } else if ids.last() == id {
        without(ids.drop_last(), id)
    } else {
        without(ids.drop_last(), id).push(ids.last())
    }
}

/// Lists without an identity.
pub open spec fn all_without(
    m: Map<Seq<char>, Seq<SymbolId>>,
    id: SymbolId,
) -> Map<Seq<char>, Seq<SymbolId>> {
    Map::new(|k: Seq<char>| m.contains_key(k), |k: Seq<char>| without(m[k], id))
}

/// A map without the entry for `name`, if it is for `id`.
pub open spec fn unless_for(m: Map<Seq<char>, SymbolId>, name: Seq<char>, id: SymbolId) -> Map<
    Seq<char>,
    SymbolId,
> {
    if m.get(name) == Some(id) {
        m.remove(name)
    } else {
        m
    }
}

/// The registry after a declaration of a closed block has been removed.
pub open spec fn forget(reg: RegistryModel, id: SymbolId) -> RegistryModel {
    let is_enum = reg.enum_env.contains_key(id);
    let named = reg.type_decl_names.contains_key(id);
    let name = reg.type_decl_names[id];
    RegistryModel {
        struct_env: reg.struct_env.remove(id),
        struct_decl_modules: reg.struct_decl_modules.remove(id),
        struct_visibility: reg.struct_visibility.remove(id),
        enum_env: reg.enum_env.remove(id),
        enum_decl_modules: if is_enum {
            reg.enum_decl_modules.remove(id)
        } else {
            reg.enum_decl_modules
        },
        variant_declaring_enums: if is_enum {
            all_without(reg.variant_declaring_enums, id)
        } else {
            reg.variant_declaring_enums
        },
        type_decl_names: reg.type_decl_names.remove(id),
        type_decl_ids: if named {
            unless_for(reg.type_decl_ids, name, id)
        } else {
            reg.type_decl_ids
        },
        local_type_decl_ids: if named {
            unless_for(reg.local_type_decl_ids, name, id)
        } else {
            reg.local_type_decl_ids
        },
        ..reg
    }
}

/// The registry after the first `k` declarations of a closed block have been
/// removed.
pub open spec fn forget_all(reg: RegistryModel, ids: Seq<SymbolId>, k: nat) -> RegistryModel
    decreases k,
{
    if k == 0 {
        reg
    } else {
        forget(forget_all(reg, ids, (k - 1) as nat), ids[k - 1])
    }
}

/// The registry after the innermost block has been closed.
pub open spec fn scope_closed(reg: RegistryModel) -> RegistryModel {
    if reg.struct_scope_stack.len() == 0 {
        reg
    } else {
        let ids = reg.struct_scope_stack.last();
        forget_all(
            RegistryModel { struct_scope_stack: reg.struct_scope_stack.drop_last(), ..reg },
            ids,
            ids.len(),
        )
    }
}

fn contains_id(ids: &Vec<SymbolId>, id: SymbolId) -> (b: bool)
    ensures
        b == ids.deep_view().contains(id),
{
    let mut i: usize = 0;
    while i < ids.len()
        invariant
            i <= ids.len(),
            forall|j: int| 0 <= j < i ==> ids@[j] != id,
        decreases ids.len() - i,
    {
        if ids[i].0 == id.0 {
            proof {
                assert(ids.deep_view()[i as int] == id);
            }
            return true;
        }
        i += 1;
    }
    false
}

fn remove_id(ids: &Vec<SymbolId>, id: SymbolId) -> (r: Vec<SymbolId>)
    ensures
        r.deep_view() == without(ids.deep_view(), id),
{
    let mut out: Vec<SymbolId> = Vec::new();
    let mut i: usize = 0;
    while i < ids.len()
        invariant
            i <= ids.len(),
            out.deep_view() == without(ids.deep_view().take(i as int), id),
        decreases ids.len() - i,
    {
        proof {
            assert(ids.deep_view().take(i as int + 1).drop_last() =~= ids.deep_view().take(
                i as int,
            ));
        }
        if ids[i].0 != id.0 {
            let ghost prev = out.deep_view();
            out.push(ids[i]);
            proof {
                assert(out.deep_view() =~= prev.push(ids@[i as int]));
            }
        }
        i += 1;
    }
    proof {
        assert(ids.deep_view().take(ids.len() as int) =~= ids.deep_view());
    }
    out
}

/// Takes an identity out of every list.
fn remove_from_all(m: &Table<String, Vec<SymbolId>>, id: SymbolId) -> (r: Table<
    String,
    Vec<SymbolId>,
>)
    ensures
        r@ == all_without(m@, id),
{
    let mut out: Table<String, Vec<SymbolId>> = Table::new();
    let n: usize = m.len();
    let mut i: usize = 0;
    while i < n
        invariant
            i <= n,
            n == m.keys().len(),
            forall|k: Seq<char>| #[trigger]
                out@.contains_key(k) <==> m.keys().take(i as int).contains(k),
            forall|k: Seq<char>| #[trigger]
                out@.contains_key(k) ==> out@[k] == without(m@[k], id),
        decreases n - i,
    {
        proof {
            crate::data::lemma_take_next(m.keys(), i as int);
        }
        out.insert(m.key_at(i).clone(), remove_id(m.value_at(i), id));
        i += 1;
    }
    proof {
        assert(m.keys().take(n as int) =~= m.keys());
    }
    let again: usize = m.len();
    proof {
        assert(out@ =~= all_without(m@, id));
    }
    out
}

/// Removes the entry for `name`, if it is for `id`.
fn remove_if_for(m: &mut Table<String, SymbolId>, name: &String, id: SymbolId)
    ensures
        final(m)@ == unless_for(old(m)@, name@, id),
{
    let matching = match m.get(name) {
        Some(found) => found.0 == id.0,
        None => false,
    };
    if matching {
        m.remove(name);
    }
}

impl TypeDefinitionRegistry {
    fn list_in_scope(&mut self, id: SymbolId)
        ensures
            final(self)@ == (RegistryModel {
                struct_scope_stack: listed_in_scope(old(self)@.struct_scope_stack, id),
                ..old(self)@
            }),
    {
        let ghost before = self.struct_scope_stack.deep_view();
        if let Some(scope) = self.struct_scope_stack.pop() {
            let mut scope = scope;
            let ghost inner = scope.deep_view();
            scope.push(id);
            proof {
                assert(scope.deep_view() =~= inner.push(id));
                assert(inner == before.last());
                assert(self.struct_scope_stack.deep_view() =~= before.drop_last());
            }
            self.struct_scope_stack.push(scope);
            proof {
                assert(self.struct_scope_stack.deep_view() =~= before.drop_last().push(
                    inner.push(id),
                ));
            }
        } else {
            proof {
                assert(self.struct_scope_stack.deep_view() =~= before);
            }
        }
    }

    /// Mint a fresh `SymbolId` for a block-local struct/enum declaration, drawn
    /// from the top of the `u32` space counting down.
    fn fresh_local_type_id(&mut self) -> (id: SymbolId)
        ensures
            id == SymbolId(old(self)@.next_local_type_id),
            final(self)@ == with_local_id(old(self)@),
    {
        let id = SymbolId(self.next_local_type_id);
        if self.next_local_type_id > 0 {
            self.next_local_type_id = self.next_local_type_id - 1;
        }
        id
    }

    /// Register a struct's fields under its declaration `SymbolId`.
    pub fn register_struct_fields(
        &mut self,
        owner: SymbolId,
        name: String,
        fields: Vec<FieldEntry>,
        declaring_module: Vec<String>,
        visibility: Visibility,
    )
        ensures
            final(self)@ == with_struct(
                old(self)@,
                owner,
                name@,
                fields.deep_view(),
                declaring_module.deep_view(),
                visibility,
            ),
    {
        self.struct_env.insert(owner, fields);
        self.struct_decl_modules.insert(owner, declaring_module);
        self.struct_visibility.insert(owner, visibility);
        self.type_decl_ids.insert(name.clone(), owner);
        self.type_decl_names.insert(owner, name);
        self.list_in_scope(owner);
    }

    /// Register a block-local struct declaration, under an identity of its own.
    /// The name reaches it until the enclosing scope is popped.
    pub fn register_local_struct_fields(
        &mut self,
        name: String,
        fields: Vec<FieldEntry>,
        declaring_module: Vec<String>,
        visibility: Visibility,
    )
        ensures
            final(self)@ == with_local_struct(
                old(self)@,
                name@,
                fields.deep_view(),
                declaring_module.deep_view(),
                visibility,
            ),
    {
        let owner = self.fresh_local_type_id();
        self.register_struct_fields(owner, name.clone(), fields, declaring_module, visibility);
        self.local_type_decl_ids.insert(name, owner);
    }

    pub fn push_struct_scope(&mut self)
        ensures
            final(self)@ == (RegistryModel {
                struct_scope_stack: old(self)@.struct_scope_stack.push(Seq::empty()),
                ..old(self)@
            }),
    {
        let ghost before = self.struct_scope_stack.deep_view();
        let scope: Vec<SymbolId> = Vec::new();
        proof {
            assert(scope.deep_view() =~= Seq::<SymbolId>::empty());
        }
        self.struct_scope_stack.push(scope);
        proof {
            assert(self.struct_scope_stack.deep_view() =~= before.push(Seq::empty()));
        }
    }

    fn forget_id(&mut self, id: SymbolId)
        ensures
            final(self)@ == forget(old(self)@, id),
    {
        self.struct_env.remove(&id);
        self.struct_decl_modules.remove(&id);
        self.struct_visibility.remove(&id);
        // A block-local id lives in exactly one of the struct / enum families;
        // removing from both is safe.
        if self.enum_env.remove(&id).is_some() {
            self.enum_decl_modules.remove(&id);
            self.variant_declaring_enums = remove_from_all(&self.variant_declaring_enums, id);
        }
        if let Some(name) = self.type_decl_names.remove(&id) {
            remove_if_for(&mut self.type_decl_ids, &name, id);
            remove_if_for(&mut self.local_type_decl_ids, &name, id);
        }
    }

    pub fn pop_struct_scope(&mut self)
        ensures
            final(self)@ == scope_closed(old(self)@),
    {
        let ghost before = self.struct_scope_stack.deep_view();
        if let Some(ids) = self.struct_scope_stack.pop() {
            let ghost start = RegistryModel {
                struct_scope_stack: old(self)@.struct_scope_stack.drop_last(),
                ..old(self)@
            };
            proof {
                assert(self.struct_scope_stack.deep_view() =~= before.drop_last());
                assert(ids.deep_view() == before.last());
            }
            let mut i: usize = 0;
            while i < ids.len()
                invariant
                    i <= ids.len(),
                    self@ == forget_all(start, ids.deep_view(), i as nat),
                decreases ids.len() - i,
            {
                self.forget_id(ids[i]);
                i += 1;
            }
        } else {
            proof {
                assert(self.struct_scope_stack.deep_view() =~= before);
            }
        }
    }

    /// Register an enum under its declaration `SymbolId`.
    pub fn register_enum(
        &mut self,
        owner: SymbolId,
        name: String,
        info: EnumInfo,
        declaring_module: Vec<String>,
    )
        ensures
            final(self)@ == with_enum(
                old(self)@,
                owner,
                name@,
                info.deep_view(),
                declaring_module.deep_view(),
            ),
    {
        let ghost m = self@.variant_declaring_enums;
        let mut i: usize = 0;
        while i < info.variants.len()
            invariant
                i <= info.variants.len(),
                m == old(self)@.variant_declaring_enums,
                self@ == (RegistryModel {
                    variant_declaring_enums: with_variants(
                        m,
                        owner,
                        info.variants.deep_view(),
                        i as nat,
                    ),
                    ..old(self)@
                }),
            decreases info.variants.len() - i,
        {
            let variant = &info.variants[i];
            let ghost before = self@.variant_declaring_enums;
            let present = match self.variant_declaring_enums.get(&variant.name) {
                Some(list) => contains_id(list, owner),
                None => false,
            };
            if !present {
                self.variant_declaring_enums.push_at(variant.name.clone(), owner);
            }
            proof {
                let list = crate::table::list_at(before, variant.name@);
                if present {
                    assert(before.insert(variant.name@, list) =~= before);
                }
                assert(self@.variant_declaring_enums == with_variants(
                    m,
                    owner,
                    info.variants.deep_view(),
                    (i + 1) as nat,
                ));
            }
            i += 1;
        }
        self.enum_env.insert(owner, info);
        self.enum_decl_modules.insert(owner, declaring_module);
        self.type_decl_ids.insert(name.clone(), owner);
        self.type_decl_names.insert(owner, name);
    }

    /// Register a block-local enum declaration, under an identity of its own.
    pub fn register_local_enum(
        &mut self,
        name: String,
        info: EnumInfo,
        declaring_module: Vec<String>,
    )
        ensures
            final(self)@ == with_local_enum(
                old(self)@,
                name@,
                info.deep_view(),
                declaring_module.deep_view(),
            ),
    {
        let owner = self.fresh_local_type_id();
        self.register_enum(owner, name.clone(), info, declaring_module);
        self.local_type_decl_ids.insert(name, owner);
        self.list_in_scope(owner);
    }

    pub fn register_method(
        &mut self,
        ty_name: String,
        method_name: String,
        fun_ty: InferType,
    )
        ensures
            final(self)@ == (RegistryModel {
                method_env: old(self)@.method_env.insert(
                    ty_name@,
                    crate::table::map_at(old(self)@.method_env, ty_name@).insert(
                        method_name@,
                        fun_ty.term(),
                    ),
                ),
                ..old(self)@
            }),
    {
        self.method_env.insert_at(ty_name, method_name, fun_ty);
    }

    pub fn register_method_receiver(
        &mut self,
        ty_name: String,
        method_name: String,
        receiver_kind: ReceiverKind,
    )
        ensures
            final(self)@ == (RegistryModel {
                method_receiver_env: old(self)@.method_receiver_env.insert(
                    ty_name@,
                    crate::table::map_at(old(self)@.method_receiver_env, ty_name@).insert(
                        method_name@,
                        receiver_kind,
                    ),
                ),
                ..old(self)@
            }),
    {
        self.method_receiver_env.insert_at(ty_name, method_name, receiver_kind);
    }

    pub fn register_array_method(
        &mut self,
        method_name: String,
        fun_ty: InferType,
    )
        ensures
            final(self)@ == (RegistryModel {
                array_method_env: old(self)@.array_method_env.insert(method_name@, fun_ty.term()),
                ..old(self)@
            }),
    {
        self.array_method_env.insert(method_name, fun_ty);
    }

    pub fn register_array_method_receiver(
        &mut self,
        method_name: String,
        receiver_kind: ReceiverKind,
    )
        ensures
            final(self)@ == (RegistryModel {
                array_method_receiver_env: old(self)@.array_method_receiver_env.insert(
                    method_name@,
                    receiver_kind,
                ),
                ..old(self)@
            }),
    {
        self.array_method_receiver_env.insert(method_name, receiver_kind);
    }

    pub fn register_struct_type_params(
        &mut self,
        owner: SymbolId,
        type_params: Vec<TypeVar>,
    )
        ensures
            final(self)@ == (RegistryModel {
                struct_type_params: old(self)@.struct_type_params.insert(
                    owner,
                    type_params.deep_view(),
                ),
                ..old(self)@
            }),
    {
        self.struct_type_params.insert(owner, type_params);
    }

    pub fn register_struct_generic_names(
        &mut self,
        owner: SymbolId,
        param_names: Vec<String>,
    )
        ensures
            final(self)@ == (RegistryModel {
                struct_generic_names: old(self)@.struct_generic_names.insert(
                    owner,
                    param_names.deep_view(),
                ),
                ..old(self)@
            }),
    {
        self.struct_generic_names.insert(owner, param_names);
    }

    pub fn register_type_param_bounds(
        &mut self,
        owner: SymbolId,
        bounds: Vec<Vec<GenericBound>>,
    )
        ensures
            final(self)@ == (RegistryModel {
                type_param_bounds: old(self)@.type_param_bounds.insert(owner, bounds.deep_view()),
                ..old(self)@
            }),
    {
        self.type_param_bounds.insert(owner, bounds);
    }

    pub fn register_type_param_record_kinds(
        &mut self,
        owner: SymbolId,
        record_kinds: Vec<bool>,
    )
        ensures
            final(self)@ == (RegistryModel {
                type_param_record_kinds: old(self)@.type_param_record_kinds.insert(
                    owner,
                    record_kinds.deep_view(),
                ),
                ..old(self)@
            }),
    {
        self.type_param_record_kinds.insert(owner, record_kinds);
    }

    pub fn register_neg_type_param_bounds(
        &mut self,
        owner: SymbolId,
        bounds: Vec<Vec<GenericBound>>,
    )
        ensures
            final(self)@ == (RegistryModel {
                neg_type_param_bounds: old(self)@.neg_type_param_bounds.insert(
                    owner,
                    bounds.deep_view(),
                ),
                ..old(self)@
            }),
    {
        self.neg_type_param_bounds.insert(owner, bounds);
    }

    pub fn register_method_scheme(
        &mut self,
        ty_name: String,
        method_name: String,
        scheme: TypeScheme,
        struct_tvars: Vec<TypeVar>,
    )
        ensures
            final(self)@ == (RegistryModel {
                method_scheme_env: old(self)@.method_scheme_env.insert(
                    ty_name@,
                    crate::table::map_at(old(self)@.method_scheme_env, ty_name@).insert(
                        method_name@,
                        (scheme@, struct_tvars.deep_view()),
                    ),
                ),
                ..old(self)@
            }),
    {
        self.method_scheme_env.insert_at(ty_name, method_name, (scheme, struct_tvars));
    }

    pub fn register_array_method_scheme(
        &mut self,
        method_name: String,
        scheme: TypeScheme,
        element_tvars: Vec<TypeVar>,
    )
        ensures
            final(self)@ == (RegistryModel {
                array_method_scheme_env: old(self)@.array_method_scheme_env.insert(
                    method_name@,
                    (scheme@, element_tvars.deep_view()),
                ),
                ..old(self)@
            }),
    {
        self.array_method_scheme_env.insert(method_name, (scheme, element_tvars));
    }

    /// Add a variant method scheme, for methods that several impls provide.
    pub fn register_method_scheme_variant(
        &mut self,
        ty_name: String,
        method_name: String,
        scheme: TypeScheme,
        struct_tvars: Vec<TypeVar>,
        aspect_name: Option<String>,
        method_span: Span,
    )
        ensures
            final(self)@ == ({
                let inner = crate::table::map_at(old(self)@.method_scheme_variants, ty_name@);
                RegistryModel {
                    generic_method_schemes_by_span:
                        old(self)@.generic_method_schemes_by_span.insert(
                            method_span.deep_view(),
                            scheme@,
                        ),
                    method_scheme_variants: old(self)@.method_scheme_variants.insert(
                        ty_name@,
                        inner.insert(
                            method_name@,
                            crate::table::list_at(inner, method_name@).push(
                                (scheme@, struct_tvars.deep_view(), aspect_name.deep_view()),
                            ),
                        ),
                    ),
                    ..old(self)@
                }
            }),
    {
        self.generic_method_schemes_by_span.insert(method_span, scheme.dup());
        let ghost m = self.method_scheme_variants@;
        let mut inner = match self.method_scheme_variants.remove(&ty_name) {
            Some(inner) => inner,
            None => Table::new(),
        };
        inner.push_at(method_name, (scheme, struct_tvars, aspect_name));
        let ghost iv = inner@;
        let ghost kv = ty_name@;
        self.method_scheme_variants.insert(ty_name, inner);
        proof {
            assert(self.method_scheme_variants@ =~= m.insert(kv, iv));
        }
    }

    pub fn register_array_method_scheme_variant(
        &mut self,
        method_name: String,
        scheme: TypeScheme,
        element_tvars: Vec<TypeVar>,
        aspect_name: Option<String>,
        method_span: Span,
    )
        ensures
            final(self)@ == (RegistryModel {
                generic_method_schemes_by_span: old(self)@.generic_method_schemes_by_span.insert(
                    method_span.deep_view(),
                    scheme@,
                ),
                array_method_scheme_variants: old(self)@.array_method_scheme_variants.insert(
                    method_name@,
                    crate::table::list_at(
                        old(self)@.array_method_scheme_variants,
                        method_name@,
                    ).push((scheme@, element_tvars.deep_view(), aspect_name.deep_view())),
                ),
                ..old(self)@
            }),
    {
        self.generic_method_schemes_by_span.insert(method_span, scheme.dup());
        self.array_method_scheme_variants.push_at(
            method_name,
            (scheme, element_tvars, aspect_name),
        );
    }

    pub fn register_bare_impl_bounds(
        &mut self,
        aspect: &str,
        pos_bounds: Vec<Vec<GenericBound>>,
        neg_bounds: Vec<Vec<GenericBound>>,
    )
        ensures
            final(self)@ == (RegistryModel {
                bare_impl_bounds: old(self)@.bare_impl_bounds.insert(
                    aspect@,
                    crate::table::list_at(old(self)@.bare_impl_bounds, aspect@).push(
                        (pos_bounds.deep_view(), neg_bounds.deep_view()),
                    ),
                ),
                ..old(self)@
            }),
    {
        self.bare_impl_bounds.push_at(aspect.to_owned(), (pos_bounds, neg_bounds));
    }

    pub fn register_array_impl_bounds(
        &mut self,
        aspect: &str,
        pos_bounds: Vec<Vec<GenericBound>>,
        neg_bounds: Vec<Vec<GenericBound>>,
    )
        ensures
            final(self)@ == (RegistryModel {
                array_impl_bounds: old(self)@.array_impl_bounds.insert(
                    aspect@,
                    crate::table::list_at(old(self)@.array_impl_bounds, aspect@).push(
                        (pos_bounds.deep_view(), neg_bounds.deep_view()),
                    ),
                ),
                ..old(self)@
            }),
    {
        self.array_impl_bounds.push_at(aspect.to_owned(), (pos_bounds, neg_bounds));
    }

    pub fn register_neg_bare_impl_bounds(
        &mut self,
        aspect: &str,
        pos_bounds: Vec<Vec<GenericBound>>,
        neg_bounds: Vec<Vec<GenericBound>>,
    )
        ensures
            final(self)@ == (RegistryModel {
                bare_neg_impl_bounds: old(self)@.bare_neg_impl_bounds.insert(
                    aspect@,
                    crate::table::list_at(old(self)@.bare_neg_impl_bounds, aspect@).push(
                        (pos_bounds.deep_view(), neg_bounds.deep_view()),
                    ),
                ),
                ..old(self)@
            }),
    {
        self.bare_neg_impl_bounds.push_at(aspect.to_owned(), (pos_bounds, neg_bounds));
    }

    pub fn register_neg_array_impl_bounds(
        &mut self,
        aspect: &str,
        pos_bounds: Vec<Vec<GenericBound>>,
        neg_bounds: Vec<Vec<GenericBound>>,
    )
        ensures
            final(self)@ == (RegistryModel {
                array_neg_impl_bounds: old(self)@.array_neg_impl_bounds.insert(
                    aspect@,
                    crate::table::list_at(old(self)@.array_neg_impl_bounds, aspect@).push(
                        (pos_bounds.deep_view(), neg_bounds.deep_view()),
                    ),
                ),
                ..old(self)@
            }),
    {
        self.array_neg_impl_bounds.push_at(aspect.to_owned(), (pos_bounds, neg_bounds));
    }

    pub fn register_symbolic_named_aspects(
        &mut self,
        name: String,
        aspects: KeySet<String>,
    )
        ensures
            final(self)@ == (RegistryModel {
                symbolic_named_aspects: old(self)@.symbolic_named_aspects.insert(name@, aspects@),
                ..old(self)@
            }),
    {
        self.symbolic_named_aspects.insert(name, aspects);
    }

    /// Register the conditional impl bounds for a target and an aspect. Does
    /// nothing where the target is not visible.
    pub fn register_conditional_impl_bounds(
        &mut self,
        current_module: &[String],
        target: &str,
        aspect: &str,
        pos_bounds: Vec<Vec<GenericBound>>,
        neg_bounds: Vec<Vec<GenericBound>>,
    )
        ensures
            final(self)@ == conditional_registered(
                old(self)@,
                current_module.deep_view(),
                target@,
                aspect@,
                (pos_bounds.deep_view(), neg_bounds.deep_view()),
            ),
    {
        if let Some(target_id) = self.resolve_type_position_id(current_module, target) {
            self.conditional_impl_bounds.push_at(
                (target_id, aspect.to_owned()),
                (pos_bounds, neg_bounds),
            );
        }
    }

    /// Register a generic negative impl. Empty bound vectors represent an
    /// unconditional one.
    pub fn register_neg_conditional_impl_bounds(
        &mut self,
        current_module: &[String],
        target: &str,
        aspect: &str,
        pos_bounds: Vec<Vec<GenericBound>>,
        neg_bounds: Vec<Vec<GenericBound>>,
    )
        ensures
            final(self)@ == (match crate::resolve::resolved(
                old(self)@,
                current_module.deep_view(),
                target@,
            ) {
                Some(id) => RegistryModel {
                    neg_conditional_impl_bounds: old(self)@.neg_conditional_impl_bounds.insert(
                        (id, aspect@),
                        crate::table::list_at(
                            old(self)@.neg_conditional_impl_bounds,
                            (id, aspect@),
                        ).push(
                            (pos_bounds.deep_view(), neg_bounds.deep_view()),
                        ),
                    ),
                    ..old(self)@
                },
                None => old(self)@,
            }),
            final(self)@ == conditional_denial_registered(
                old(self)@,
                current_module.deep_view(),
                target@,
                aspect@,
                (pos_bounds.deep_view(), neg_bounds.deep_view()),
            ),
    {
        if let Some(target_id) = self.resolve_type_position_id(current_module, target) {
            self.neg_conditional_impl_bounds.push_at(
                (target_id, aspect.to_owned()),
                (pos_bounds, neg_bounds),
            );
        }
    }

    /// Register a concrete negative impl: `impl !Aspect for Target`.
    /// `target_args` is the target's own concrete type-arg list.
    pub fn register_neg_impl(
        &mut self,
        current_module: &[String],
        target: &str,
        aspect: &str,
        target_args: Vec<Type>,
    )
        ensures
            final(self)@ == denial_registered(
                old(self)@,
                current_module.deep_view(),
                target@,
                aspect@,
                target_args.deep_view(),
            ),
    {
        if let Some(target_id) = self.resolve_type_position_id(current_module, target) {
            self.neg_impl_env.push_at((target_id, aspect.to_owned()), target_args);
        }
    }

    /// Registers `impl aspect for target` with `type_args`. Does nothing where
    /// the target is not visible.
    pub fn register_aspect_impl(
        &mut self,
        current_module: &[String],
        target: &str,
        aspect: &str,
        type_args: Vec<Type>,
    )
        ensures
            final(self)@ == impl_registered(
                old(self)@,
                current_module.deep_view(),
                target@,
                aspect@,
                type_args.deep_view(),
            ),
    {
        if let Some(target_id) = self.resolve_type_position_id(current_module, target) {
            self.register_aspect_impl_by_id(target_id, aspect, type_args);
        }
    }

    /// Registers `impl aspect for target` with `target` already resolved.
    pub fn register_aspect_impl_by_id(
        &mut self,
        target: SymbolId,
        aspect: &str,
        type_args: Vec<Type>,
    )
        ensures
            final(self)@ == (RegistryModel {
                impl_aspect_env: old(self)@.impl_aspect_env.insert(
                    (target, aspect@),
                    crate::table::list_at(old(self)@.impl_aspect_env, (target, aspect@)).push(
                        type_args.deep_view(),
                    ),
                ),
                ..old(self)@
            }),
    {
        self.impl_aspect_env.push_at((target, aspect.to_owned()), type_args);
    }

    /// Records the given entries for a function, unless there are none.
    pub fn register_fun_bounds(&mut self, name: String, bounds: Table<TypeVar, Vec<GenericBound>>)
        ensures
            final(self)@ == (if bounds@.dom() == Set::<TypeVar>::empty() {
                old(self)@
            } else {
                RegistryModel {
                    fun_bounds: old(self)@.fun_bounds.insert(name@, bounds@),
                    ..old(self)@
                }
            }),
    {
        let n: usize = bounds.len();
        proof {
            if n == 0 {
                assert(bounds@.dom() =~= Set::<TypeVar>::empty());
            } else {
                assert(bounds.keys().contains(bounds.keys()[0]));
                assert(bounds@.contains_key(bounds.keys()[0]));
            }
        }
        if n > 0 {
            self.fun_bounds.insert(name, bounds);
        }
    }

    /// Records the given entries for a function, unless there are none.
    pub fn register_neg_fun_bounds(
        &mut self,
        name: String,
        bounds: Table<TypeVar, Vec<GenericBound>>,
    )
        ensures
            final(self)@ == (if bounds@.dom() == Set::<TypeVar>::empty() {
                old(self)@
            } else {
                RegistryModel {
                    neg_fun_bounds: old(self)@.neg_fun_bounds.insert(name@, bounds@),
                    ..old(self)@
                }
            }),
    {
        let n: usize = bounds.len();
        proof {
            if n == 0 {
                assert(bounds@.dom() =~= Set::<TypeVar>::empty());
            } else {
                assert(bounds.keys().contains(bounds.keys()[0]));
                assert(bounds@.contains_key(bounds.keys()[0]));
            }
        }
        if n > 0 {
            self.neg_fun_bounds.insert(name, bounds);
        }
    }

    /// Records the given entries for a function, unless there are none.
    pub fn register_fun_assoc_eq_constraints(
        &mut self,
        name: String,
        constraints: AssocEqConstraints,
    )
        ensures
            final(self)@ == (if constraints@.dom() == Set::<TypeVar>::empty() {
                old(self)@
            } else {
                RegistryModel {
                    fun_assoc_eq_constraints: old(self)@.fun_assoc_eq_constraints.insert(
                        name@,
                        constraints@,
                    ),
                    ..old(self)@
                }
            }),
    {
        let n: usize = constraints.len();
        proof {
            if n == 0 {
                assert(constraints@.dom() =~= Set::<TypeVar>::empty());
            } else {
                assert(constraints.keys().contains(constraints.keys()[0]));
                assert(constraints@.contains_key(constraints.keys()[0]));
            }
        }
        if n > 0 {
            self.fun_assoc_eq_constraints.insert(name, constraints);
        }
    }

    /// Records which type variables of a function stand for records, unless
    /// none does.
    pub fn register_fun_record_kinds(&mut self, name: String, record_kinds: Table<TypeVar, bool>)
        ensures
            final(self)@ == (if exists|v: TypeVar| #[trigger]
                record_kinds@.contains_key(v) && record_kinds@[v] {
                RegistryModel {
                    fun_record_kinds: old(self)@.fun_record_kinds.insert(
                        name@,
                        record_kinds@,
                    ),
                    ..old(self)@
                }
            } else {
                old(self)@
            }),
    {
        let n: usize = record_kinds.len();
        let mut i: usize = 0;
        while i < n
            invariant
                i <= n,
                n == record_kinds.keys().len(),
                self@ == old(self)@,
                forall|j: int| 0 <= j < i ==> !record_kinds@[#[trigger] record_kinds.keys()[j]],
            decreases n - i,
        {
            if *record_kinds.value_at(i) {
                assert(record_kinds@.contains_key(record_kinds.keys()[i as int]));
                self.fun_record_kinds.insert(name, record_kinds);
                return ;
            }
            i += 1;
        }
        let again: usize = record_kinds.len();
        proof {
            assert forall|v: TypeVar| #[trigger] record_kinds@.contains_key(
                v,
            ) implies !record_kinds@[v] by {
                assert(record_kinds.keys().contains(v));
            }
        }
    }

    pub fn struct_visibility_for(
        &self,
        current_module: &[String],
        name: &str,
    ) -> (r: Option<&Visibility>)
        ensures
            r.deep_view() == (match crate::resolve::type_key_broad(
                self@,
                current_module.deep_view(),
                name@,
            ) {
                Some(id) => self@.struct_visibility.get(id),
                None => None,
            }),
    {
        match self.resolve_type_key_broad(current_module, name) {
            Some(id) => self.struct_visibility.get(&id),
            None => None,
        }
    }

    pub fn struct_fields(
        &self,
        current_module: &[String],
        name: &str,
    ) -> (r: Option<&Vec<FieldEntry>>)
        ensures
            r.deep_view() == (match crate::resolve::type_key_broad(
                self@,
                current_module.deep_view(),
                name@,
            ) {
                Some(id) => self@.struct_env.get(id),
                None => None,
            }),
    {
        match self.resolve_type_key_broad(current_module, name) {
            Some(id) => self.struct_env.get(&id),
            None => None,
        }
    }

    pub fn struct_type_params_for(
        &self,
        current_module: &[String],
        name: &str,
    ) -> (r: Option<&Vec<TypeVar>>)
        ensures
            r.deep_view() == (match crate::resolve::type_key_broad(
                self@,
                current_module.deep_view(),
                name@,
            ) {
                Some(id) => self@.struct_type_params.get(id),
                None => None,
            }),
    {
        match self.resolve_type_key_broad(current_module, name) {
            Some(id) => self.struct_type_params.get(&id),
            None => None,
        }
    }

    pub fn struct_generic_names_for(
        &self,
        current_module: &[String],
        name: &str,
    ) -> (r: Option<&Vec<String>>)
        ensures
            r.deep_view() == (match crate::resolve::type_key(
                self@,
                current_module.deep_view(),
                name@,
            ) {
                Some(id) => self@.struct_generic_names.get(id),
                None => None,
            }),
    {
        match self.resolve_type_id(current_module, name) {
            Some(id) => self.struct_generic_names.get(&id),
            None => None,
        }
    }

    pub fn type_param_bounds_for(
        &self,
        current_module: &[String],
        name: &str,
    ) -> (r: Option<&Vec<Vec<GenericBound>>>)
        ensures
            r.deep_view() == (match crate::resolve::type_key(
                self@,
                current_module.deep_view(),
                name@,
            ) {
                Some(id) => self@.type_param_bounds.get(id),
                None => None,
            }),
    {
        match self.resolve_type_id(current_module, name) {
            Some(id) => self.type_param_bounds.get(&id),
            None => None,
        }
    }

    pub fn type_param_record_kinds_for(
        &self,
        current_module: &[String],
        name: &str,
    ) -> (r: Option<&Vec<bool>>)
        ensures
            r.deep_view() == (match crate::resolve::type_key(
                self@,
                current_module.deep_view(),
                name@,
            ) {
                Some(id) => self@.type_param_record_kinds.get(id),
                None => None,
            }),
    {
        match self.resolve_type_id(current_module, name) {
            Some(id) => self.type_param_record_kinds.get(&id),
            None => None,
        }
    }

    pub fn neg_type_param_bounds_for(
        &self,
        current_module: &[String],
        name: &str,
    ) -> (r: Option<&Vec<Vec<GenericBound>>>)
        ensures
            r.deep_view() == (match crate::resolve::type_key(
                self@,
                current_module.deep_view(),
                name@,
            ) {
                Some(id) => self@.neg_type_param_bounds.get(id),
                None => None,
            }),
    {
        match self.resolve_type_id(current_module, name) {
            Some(id) => self.neg_type_param_bounds.get(&id),
            None => None,
        }
    }

    pub fn enum_info(&self, current_module: &[String], name: &str) -> (r: Option<&EnumInfo>)
        ensures
            r.deep_view() == (match crate::resolve::type_key_broad(
                self@,
                current_module.deep_view(),
                name@,
            ) {
                Some(id) => self@.enum_env.get(id),
                None => None,
            }),
    {
        match self.resolve_type_key_broad(current_module, name) {
            Some(id) => self.enum_env.get(&id),
            None => None,
        }
    }

    pub fn struct_declaring_module(
        &self,
        current_module: &[String],
        name: &str,
    ) -> (r: Option<&Vec<String>>)
        ensures
            r.deep_view() == (match crate::resolve::type_key_broad(
                self@,
                current_module.deep_view(),
                name@,
            ) {
                Some(id) => self@.struct_decl_modules.get(id),
                None => None,
            }),
    {
        match self.resolve_type_key_broad(current_module, name) {
            Some(id) => self.struct_decl_modules.get(&id),
            None => None,
        }
    }

    pub fn enum_declaring_module(
        &self,
        current_module: &[String],
        name: &str,
    ) -> (r: Option<&Vec<String>>)
        ensures
            r.deep_view() == (match crate::resolve::type_key_broad(
                self@,
                current_module.deep_view(),
                name@,
            ) {
                Some(id) => self@.enum_decl_modules.get(id),
                None => None,
            }),
    {
        match self.resolve_type_key_broad(current_module, name) {
            Some(id) => self.enum_decl_modules.get(&id),
            None => None,
        }
    }

    /// Fields of the struct registered under `id`.
    pub fn struct_fields_by_id(&self, id: SymbolId) -> (r: Option<&Vec<FieldEntry>>)
        ensures
            r.deep_view() == self@.struct_env.get(id),
    {
        self.struct_env.get(&id)
    }

    /// Type parameters of the struct registered under `id`.
    pub fn struct_type_params_by_id(&self, id: SymbolId) -> (r: Option<&Vec<TypeVar>>)
        ensures
            r.deep_view() == self@.struct_type_params.get(id),
    {
        self.struct_type_params.get(&id)
    }

    /// Variants and type params of the enum registered under `id`.
    pub fn enum_info_by_id(&self, id: SymbolId) -> (r: Option<&EnumInfo>)
        ensures
            r.deep_view() == self@.enum_env.get(id),
    {
        self.enum_env.get(&id)
    }

    pub fn array_method_type(&self, method_name: &str) -> (r: Option<&InferType>)
        ensures
            r.deep_view() == self@.array_method_env.get(method_name@),
    {
        self.array_method_env.get(&method_name.to_owned())
    }

    pub fn array_method_receiver_kind(&self, method_name: &str) -> (r: Option<&ReceiverKind>)
        ensures
            r.deep_view() == self@.array_method_receiver_env.get(method_name@),
    {
        self.array_method_receiver_env.get(&method_name.to_owned())
    }

    pub fn array_method_scheme_for(&self, method_name: &str) -> (r: Option<&MethodScheme>)
        ensures
            r.deep_view() == self@.array_method_scheme_env.get(method_name@),
    {
        self.array_method_scheme_env.get(&method_name.to_owned())
    }

    pub fn fun_bounds_for(&self, name: &str) -> (r: Option<&Table<TypeVar, Vec<GenericBound>>>)
        ensures
            r.deep_view() == self@.fun_bounds.get(name@),
    {
        self.fun_bounds.get(&name.to_owned())
    }

    pub fn neg_fun_bounds_for(&self, name: &str) -> (r: Option<&Table<TypeVar, Vec<GenericBound>>>)
        ensures
            r.deep_view() == self@.neg_fun_bounds.get(name@),
    {
        self.neg_fun_bounds.get(&name.to_owned())
    }

    pub fn fun_record_kinds_for(&self, name: &str) -> (r: Option<&Table<TypeVar, bool>>)
        ensures
            r.deep_view() == self@.fun_record_kinds.get(name@),
    {
        self.fun_record_kinds.get(&name.to_owned())
    }

    pub fn fun_assoc_eq_constraints_for(&self, name: &str) -> (r: Option<&AssocEqConstraints>)
        ensures
            r.deep_view() == self@.fun_assoc_eq_constraints.get(name@),
    {
        self.fun_assoc_eq_constraints.get(&name.to_owned())
    }

    pub fn method_type(&self, ty_name: &str, method_name: &str) -> (r: Option<&InferType>)
        ensures
            r.deep_view() == crate::table::map_at(self@.method_env, ty_name@).get(method_name@),
    {
        match self.method_env.get(&ty_name.to_owned()) {
            Some(methods) => methods.get(&method_name.to_owned()),
            None => None,
        }
    }

    pub fn method_receiver_kind(
        &self,
        ty_name: &str,
        method_name: &str,
    ) -> (r: Option<&ReceiverKind>)
        ensures
            r.deep_view() == crate::table::map_at(self@.method_receiver_env, ty_name@).get(
                method_name@,
            ),
    {
        match self.method_receiver_env.get(&ty_name.to_owned()) {
            Some(methods) => methods.get(&method_name.to_owned()),
            None => None,
        }
    }

    pub fn method_scheme_for(&self, ty_name: &str, method_name: &str) -> (r: Option<&MethodScheme>)
        ensures
            r.deep_view() == crate::table::map_at(self@.method_scheme_env, ty_name@).get(
                method_name@,
            ),
    {
        match self.method_scheme_env.get(&ty_name.to_owned()) {
            Some(methods) => methods.get(&method_name.to_owned()),
            None => None,
        }
    }

    /// Return the exact scheme inferred for one generic method declaration.
    pub fn generic_method_scheme_for_decl(&self, method_span: &Span) -> (r: Option<&TypeScheme>)
        ensures
            r.deep_view() == self@.generic_method_schemes_by_span.get(method_span.deep_view()),
    {
        self.generic_method_schemes_by_span.get(method_span)
    }

    /// All registered schemes for `method_name` on arrays, in the order in
    /// which they were registered.
    pub fn array_method_scheme_variants_for(&self, method_name: &str) -> (r:
        &[ArrayMethodSchemeVariant])
        ensures
            r.deep_view() == crate::table::list_at(
                self@.array_method_scheme_variants,
                method_name@,
            ),
    {
        match self.array_method_scheme_variants.get(&method_name.to_owned()) {
            Some(list) => {
                let r = list.as_slice();
                proof {
                    assert(r.deep_view() =~= list.deep_view());
                }
                r
            },
            None => {
                let r: &[ArrayMethodSchemeVariant] = &[];
                proof {
                    assert(r.deep_view() =~= Seq::empty());
                }
                r
            },
        }
    }

    /// All registered schemes for `(ty_name, method_name)`, in the order in
    /// which they were registered.
    pub fn method_scheme_variants_for(&self, ty_name: &str, method_name: &str) -> (r:
        &[MethodSchemeVariant])
        ensures
            r.deep_view() == crate::table::list_at(
                crate::table::map_at(self@.method_scheme_variants, ty_name@),
                method_name@,
            ),
    {
        if let Some(methods) = self.method_scheme_variants.get(&ty_name.to_owned()) {
            if let Some(list) = methods.get(&method_name.to_owned()) {
                let r = list.as_slice();
                proof {
                    assert(r.deep_view() =~= list.deep_view());
                }
                return r;
            }
        }
        let r: &[MethodSchemeVariant] = &[];
        proof {
            assert(r.deep_view() =~= Seq::empty());
        }
        r
    }

    pub fn has_variant_named(&self, variant_name: &str) -> (b: bool)
        ensures
            b == self@.variant_declaring_enums.contains_key(variant_name@),
    {
        self.variant_declaring_enums.contains_key(&variant_name.to_owned())
    }

    /// `enum_info` for a bare declared name with no module context.
    pub fn enum_info_by_decl_name(&self, name: &str) -> (r: Option<&EnumInfo>)
        ensures
            r.deep_view() == (match self@.type_decl_ids.get(name@) {
                Some(id) => self@.enum_env.get(id),
                None => None,
            }),
    {
        match self.type_id_for_decl_name(name) {
            Some(id) => self.enum_env.get(&id),
            None => None,
        }
    }

    /// Returns true if `ty_name` has a registered `impl AspectName`. The type is
    /// resolved from `current_module`'s own scope; the aspect is matched by
    /// name.
    pub fn impl_aspect_env_has(
        &self,
        current_module: &[String],
        ty_name: &str,
        aspect_name: &str,
    ) -> (b: bool)
        ensures
            b == has_impl(self@, current_module.deep_view(), ty_name@, aspect_name@),
    {
        match self.resolve_type_position_id(current_module, ty_name) {
            Some(id) => self.impl_aspect_env.contains_key(&(id, aspect_name.to_owned())),
            None => false,
        }
    }

    /// Register the concrete associated-type bindings for `impl Aspect for
    /// Target`. Does nothing where the target is not visible.
    pub fn register_impl_assoc_types(
        &mut self,
        current_module: &[String],
        target: &str,
        aspect: &str,
        bindings: Table<String, Type>,
    )
        ensures
            final(self)@ == (match crate::resolve::resolved(
                old(self)@,
                current_module.deep_view(),
                target@,
            ) {
                Some(id) => RegistryModel {
                    impl_assoc_types: old(self)@.impl_assoc_types.insert(
                        (id, aspect@),
                        crate::table::map_at(
                            old(self)@.impl_assoc_types,
                            (id, aspect@),
                        ).union_prefer_right(bindings@),
                    ),
                    ..old(self)@
                },
                None => old(self)@,
            }),
            final(self)@ == assoc_types_registered(
                old(self)@,
                current_module.deep_view(),
                target@,
                aspect@,
                bindings@,
            ),
    {
        if let Some(target_id) = self.resolve_type_position_id(current_module, target) {
            let key = (target_id, aspect.to_owned());
            let ghost m = self.impl_assoc_types@;
            let ghost kv = (target_id, aspect@);
            let known = match self.impl_assoc_types.remove(&key) {
                Some(known) => known,
                None => Table::new(),
            };
            proof {
                assert(known@ =~= crate::table::map_at(m, kv));
            }
            let mut next = bindings;
            next.fill_from(&known);
            let ghost nv = next@;
            self.impl_assoc_types.insert(key, next);
            proof {
                assert(self.impl_assoc_types@ =~= m.insert(kv, nv));
            }
        }
    }

    /// Look up a concrete associated-type binding for a specific impl.
    pub fn impl_assoc_type(
        &self,
        current_module: &[String],
        target: &str,
        aspect: &str,
        assoc_name: &str,
    ) -> (r: Option<&Type>)
        ensures
            r.deep_view() == (match crate::resolve::resolved(
                self@,
                current_module.deep_view(),
                target@,
            ) {
                Some(id) => crate::table::map_at(
                    self@.impl_assoc_types,
                    (id, aspect@),
                ).get(assoc_name@),
                None => None,
            }),
            r.deep_view() == assoc_type(
                self@,
                current_module.deep_view(),
                target@,
                aspect@,
                assoc_name@,
            ),
    {
        match self.resolve_type_position_id(current_module, target) {
            Some(id) => match self.impl_assoc_types.get(&(id, aspect.to_owned())) {
                Some(types) => types.get(&assoc_name.to_owned()),
                None => None,
            },
            None => None,
        }
    }

    /// Whether an impl of `From` for `target` takes `source`.
    pub fn has_from_impl(&self, current_module: &[String], target: &str, source: &Type) -> (b: bool)
        ensures
            b == converts(self@, current_module.deep_view(), target@, source.term()),
    {
        let target_id = match self.resolve_type_position_id(current_module, target) {
            Some(id) => id,
            None => {
                return false;
            },
        };
        let impls = match self.impl_aspect_env.get(&(target_id, "From".to_owned())) {
            Some(impls) => impls,
            None => {
                return false;
            },
        };
        let ghost all = crate::table::list_at(self@.impl_aspect_env, (target_id, "From"@));
        assert(all == impls.deep_view());
        let mut i: usize = 0;
        while i < impls.len()
            invariant
                i <= impls.len(),
                all == impls.deep_view(),
                all == crate::table::list_at(self@.impl_aspect_env, (target_id, "From"@)),
                crate::resolve::resolved(self@, current_module.deep_view(), target@) == Some(
                    target_id,
                ),
                forall|j: int| 0 <= j < i ==> !from_source(#[trigger] all[j], source.term()),
            decreases impls.len() - i,
        {
            let args = &impls[i];
            assert(all[i as int] == args.deep_view());
            if args.len() > 0 && args[0].same_type(source) {
                assert(from_source(all[i as int], source.term()));
                return true;
            }
            i += 1;
        }
        false
    }

    /// Returns the element type registered for `target`'s impl of `Iterable`,
    /// if any: the first type argument of the first impl.
    pub fn iterable_elem_type(&self, current_module: &[String], target: &str) -> (r: Option<&Type>)
        ensures
            r.deep_view() == (match crate::resolve::resolved(
                self@,
                current_module.deep_view(),
                target@,
            ) {
                Some(id) => {
                    let impls = crate::table::list_at(
                        self@.impl_aspect_env,
                        (id, "Iterable"@),
                    );
                    if impls.len() > 0 && impls[0].len() > 0 {
                        Some(impls[0][0])
                    } else {
                        None
                    }
                },
                None => None,
            }),
            r.deep_view() == iterable_element(self@, current_module.deep_view(), target@),
    {
        match self.resolve_type_position_id(current_module, target) {
            Some(id) => match self.impl_aspect_env.get(&(id, "Iterable".to_owned())) {
                Some(impls) => {
                    if impls.len() > 0 && impls[0].len() > 0 {
                        Some(&impls[0][0])
                    } else {
                        None
                    }
                },
                None => None,
            },
            None => None,
        }
    }
}

/// Whether an impl's type arguments start with a type.
pub open spec fn from_source(args: Seq<crate::term::Term>, source: crate::term::Term) -> bool {
    args.len() > 0 && crate::term::erase(args[0]) == crate::term::erase(source)
}

/// The registry with one more impl of an aspect for the type that a name means. Where
/// the name means none, nothing changes.
pub open spec fn impl_registered(
    reg: RegistryModel,
    module: Seq<Seq<char>>,
    target: Seq<char>,
    aspect: Seq<char>,
    args: Seq<crate::term::Term>,
) -> RegistryModel {
    match crate::resolve::resolved(reg, module, target) {
        Some(id) => RegistryModel {
            impl_aspect_env: reg.impl_aspect_env.insert(
                (id, aspect),
                crate::table::list_at(reg.impl_aspect_env, (id, aspect)).push(args),
            ),
            ..reg
        },
        None => reg,
    }
}

/// The registry with one more negative impl for the type that a name means, with
/// exactly these type arguments.
pub open spec fn denial_registered(
    reg: RegistryModel,
    module: Seq<Seq<char>>,
    target: Seq<char>,
    aspect: Seq<char>,
    args: Seq<crate::term::Term>,
) -> RegistryModel {
    match crate::resolve::resolved(reg, module, target) {
        Some(id) => RegistryModel {
            neg_impl_env: reg.neg_impl_env.insert(
                (id, aspect),
                crate::table::list_at(reg.neg_impl_env, (id, aspect)).push(args),
            ),
            ..reg
        },
        None => reg,
    }
}

/// The registry with one more conditional impl for the type that a name means.
pub open spec fn conditional_registered(
    reg: RegistryModel,
    module: Seq<Seq<char>>,
    target: Seq<char>,
    aspect: Seq<char>,
    entry: EntryModel,
) -> RegistryModel {
    match crate::resolve::resolved(reg, module, target) {
        Some(id) => RegistryModel {
            conditional_impl_bounds: reg.conditional_impl_bounds.insert(
                (id, aspect),
                crate::table::list_at(reg.conditional_impl_bounds, (id, aspect)).push(entry),
            ),
            ..reg
        },
        None => reg,
    }
}

/// The registry with one more conditional negative impl for the type that a name means.
pub open spec fn conditional_denial_registered(
    reg: RegistryModel,
    module: Seq<Seq<char>>,
    target: Seq<char>,
    aspect: Seq<char>,
    entry: EntryModel,
) -> RegistryModel {
    match crate::resolve::resolved(reg, module, target) {
        Some(id) => RegistryModel {
            neg_conditional_impl_bounds: reg.neg_conditional_impl_bounds.insert(
                (id, aspect),
                crate::table::list_at(reg.neg_conditional_impl_bounds, (id, aspect)).push(entry),
            ),
            ..reg
        },
        None => reg,
    }
}

/// The registry with associated types for the impl of an aspect for the type that a name means.
pub open spec fn assoc_types_registered(
    reg: RegistryModel,
    module: Seq<Seq<char>>,
    target: Seq<char>,
    aspect: Seq<char>,
    bindings: Map<Seq<char>, crate::term::Term>,
) -> RegistryModel {
    match crate::resolve::resolved(reg, module, target) {
        Some(id) => RegistryModel {
            impl_assoc_types: reg.impl_assoc_types.insert(
                (id, aspect),
                crate::table::map_at(reg.impl_assoc_types, (id, aspect)).union_prefer_right(
                    bindings,
                ),
            ),
            ..reg
        },
        None => reg,
    }
}

/// An associated type of the impl of an aspect for the type that a name means.
pub open spec fn assoc_type(
    reg: RegistryModel,
    module: Seq<Seq<char>>,
    target: Seq<char>,
    aspect: Seq<char>,
    name: Seq<char>,
) -> Option<crate::term::Term> {
    match crate::resolve::resolved(reg, module, target) {
        Some(id) => crate::table::map_at(reg.impl_assoc_types, (id, aspect)).get(name),
        None => None,
    }
}

/// The type of what is gone through in a value of the type that a name means.
pub open spec fn iterable_element(
    reg: RegistryModel,
    module: Seq<Seq<char>>,
    target: Seq<char>,
) -> Option<crate::term::Term> {
    match crate::resolve::resolved(reg, module, target) {
        Some(id) => {
            let impls = crate::table::list_at(reg.impl_aspect_env, (id, "Iterable"@));
            if impls.len() > 0 && impls[0].len() > 0 {
                Some(impls[0][0])
            } else {
                None
            }
        },
        None => None,
    }
}

/// Whether an impl of `From` for the type that a name means takes a type.
pub open spec fn converts(
    reg: RegistryModel,
    module: Seq<Seq<char>>,
    target: Seq<char>,
    source: crate::term::Term,
) -> bool {
    match crate::resolve::resolved(reg, module, target) {
        Some(id) => {
            let impls = crate::table::list_at(reg.impl_aspect_env, (id, "From"@));
            exists|i: int| 0 <= i < impls.len() && from_source(#[trigger] impls[i], source)
        },
        None => false,
    }
}

/// Whether the type that a name means has an impl of an aspect.
pub open spec fn has_impl(
    reg: RegistryModel,
    module: Seq<Seq<char>>,
    name: Seq<char>,
    aspect: Seq<char>,
) -> bool {
    match crate::resolve::resolved(reg, module, name) {
        Some(id) => reg.impl_aspect_env.contains_key((id, aspect)),
        None => false,
    }
}

} // verus!
