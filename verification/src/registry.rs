//! The registry of type definitions.

use crate::ast::{ReceiverKind, Span, SpanModel, Visibility};
use crate::bounds::{BoundModel, GenericBound};
use crate::data::Dup;
use crate::definitions::{
    AspectEntry, AspectModel, ConditionalImplBoundEntry, EntryModel, EnumInfo, EnumModel,
    FieldEntry, FieldModel, ModuleScope, ScopeModel,
};
use crate::infer_type::InferType;
use crate::schemes::{AssocEqConstraints, SchemeModel, TypeScheme};
use crate::symbols::SymbolId;
use crate::table::{KeySet, Table};
use crate::term::{Term, TypeVar};
use crate::types::Type;
use vstd::prelude::*;

verus! {

/// A scheme with the type parameters of its owner, in the order of the
/// receiver's type arguments.
pub type MethodScheme = (TypeScheme, Vec<TypeVar>);

/// A scheme variant: the scheme, its owner's type parameters, and the aspect
/// that the impl is for, if any.
pub type MethodSchemeVariant = (TypeScheme, Vec<TypeVar>, Option<String>);

/// A scheme variant of a method of arrays.
pub type ArrayMethodSchemeVariant = (TypeScheme, Vec<TypeVar>, Option<String>);

pub type MethodSchemeModel = (SchemeModel, Seq<TypeVar>);

pub type VariantSchemeModel = (SchemeModel, Seq<TypeVar>, Option<Seq<char>>);

/// Unified store of all named type definitions.
///
/// Owns the canonical description of every struct, enum, aspect, and impl in
/// the program. Structs and enums are kept by the identity of their
/// declarations: two modules that declare types of one name never share their
/// definitions.
pub struct TypeDefinitionRegistry {
    /// Struct fields by declaration.
    pub struct_env: Table<SymbolId, Vec<FieldEntry>>,
    /// The module that declares each struct.
    pub struct_decl_modules: Table<SymbolId, Vec<String>>,
    /// The declared name of each struct or enum.
    pub type_decl_names: Table<SymbolId, String>,
    /// A declaration of each name, for callers without a module. The last one
    /// registered wins.
    pub type_decl_ids: Table<String, SymbolId>,
    /// Block-local declarations by name. Never merged across modules.
    pub local_type_decl_ids: Table<String, SymbolId>,
    /// Who can name each struct.
    pub struct_visibility: Table<SymbolId, Visibility>,
    /// Ordered type parameters of each generic struct.
    pub struct_type_params: Table<SymbolId, Vec<TypeVar>>,
    /// Ordered type-parameter names of each generic struct or enum.
    pub struct_generic_names: Table<SymbolId, Vec<String>>,
    /// Schemes of generic methods, by type and method name.
    pub method_scheme_env: Table<String, Table<String, MethodScheme>>,
    /// All schemes of methods that several conditional impls provide.
    pub method_scheme_variants: Table<String, Table<String, Vec<MethodSchemeVariant>>>,
    /// Schemes of methods of arrays.
    pub array_method_scheme_env: Table<String, MethodScheme>,
    /// All schemes of methods of arrays.
    pub array_method_scheme_variants: Table<String, Vec<ArrayMethodSchemeVariant>>,
    /// The scheme of each generic method declaration.
    pub generic_method_schemes_by_span: Table<Span, TypeScheme>,
    /// Bounds on the type parameters of each struct or enum.
    pub type_param_bounds: Table<SymbolId, Vec<Vec<GenericBound>>>,
    /// Negative bounds on type parameters.
    pub neg_type_param_bounds: Table<SymbolId, Vec<Vec<GenericBound>>>,
    /// Which type parameters stand for records.
    pub type_param_record_kinds: Table<SymbolId, Vec<bool>>,
    /// Bounds of each generic function.
    pub fun_bounds: Table<String, Table<TypeVar, Vec<GenericBound>>>,
    /// Negative bounds of each generic function.
    pub neg_fun_bounds: Table<String, Table<TypeVar, Vec<GenericBound>>>,
    /// Which type variables of a generic function stand for records.
    pub fun_record_kinds: Table<String, Table<TypeVar, bool>>,
    /// Equality constraints of each generic function.
    pub fun_assoc_eq_constraints: Table<String, AssocEqConstraints>,
    /// The declarations of each open block, innermost last.
    pub struct_scope_stack: Vec<Vec<SymbolId>>,
    /// The next identity for a block-local declaration. Counts down, while the
    /// identities of other declarations count up.
    pub next_local_type_id: u32,
    /// Method types by type and method name.
    pub method_env: Table<String, Table<String, InferType>>,
    /// How methods take their receivers.
    pub method_receiver_env: Table<String, Table<String, ReceiverKind>>,
    /// Types of methods of arrays.
    pub array_method_env: Table<String, InferType>,
    /// How methods of arrays take their receivers.
    pub array_method_receiver_env: Table<String, ReceiverKind>,
    /// Enums by declaration.
    pub enum_env: Table<SymbolId, EnumInfo>,
    /// The enums that declare a variant of each name.
    pub variant_declaring_enums: Table<String, Vec<SymbolId>>,
    /// The module that declares each enum.
    pub enum_decl_modules: Table<SymbolId, Vec<String>>,
    /// Aspects by name, one entry per declaring module.
    pub aspects: Table<String, Vec<AspectEntry>>,
    /// Aspects that are known of placeholder names.
    pub symbolic_named_aspects: Table<String, KeySet<String>>,
    /// Impls by target and aspect, with the aspect's type arguments.
    pub impl_aspect_env: Table<(SymbolId, String), Vec<Vec<Type>>>,
    /// Conditional impls by target and aspect.
    pub conditional_impl_bounds: Table<(SymbolId, String), Vec<ConditionalImplBoundEntry>>,
    /// Blanket impls by aspect.
    pub bare_impl_bounds: Table<String, Vec<ConditionalImplBoundEntry>>,
    /// Impls for arrays by aspect.
    pub array_impl_bounds: Table<String, Vec<ConditionalImplBoundEntry>>,
    /// Generic negative impls by target and aspect.
    pub neg_conditional_impl_bounds: Table<(SymbolId, String), Vec<ConditionalImplBoundEntry>>,
    /// Blanket negative impls by aspect.
    pub bare_neg_impl_bounds: Table<String, Vec<ConditionalImplBoundEntry>>,
    /// Negative impls for arrays by aspect.
    pub array_neg_impl_bounds: Table<String, Vec<ConditionalImplBoundEntry>>,
    /// Concrete negative impls by target and aspect, with the target's type
    /// arguments.
    pub neg_impl_env: Table<(SymbolId, String), Vec<Vec<Type>>>,
    /// The identity of each top-level declaration.
    pub symbols: Table<(Vec<String>, String), SymbolId>,
    /// What each module imports and exports.
    pub scopes: Table<Vec<String>, ModuleScope>,
    /// Associated types of concrete impls.
    pub impl_assoc_types: Table<(SymbolId, String), Table<String, Type>>,
}

/// What a registry knows.
pub struct RegistryModel {
    pub struct_env: Map<SymbolId, Seq<FieldModel>>,
    pub struct_decl_modules: Map<SymbolId, Seq<Seq<char>>>,
    pub type_decl_names: Map<SymbolId, Seq<char>>,
    pub type_decl_ids: Map<Seq<char>, SymbolId>,
    pub local_type_decl_ids: Map<Seq<char>, SymbolId>,
    pub struct_visibility: Map<SymbolId, Visibility>,
    pub struct_type_params: Map<SymbolId, Seq<TypeVar>>,
    pub struct_generic_names: Map<SymbolId, Seq<Seq<char>>>,
    pub method_scheme_env: Map<Seq<char>, Map<Seq<char>, MethodSchemeModel>>,
    pub method_scheme_variants: Map<Seq<char>, Map<Seq<char>, Seq<VariantSchemeModel>>>,
    pub array_method_scheme_env: Map<Seq<char>, MethodSchemeModel>,
    pub array_method_scheme_variants: Map<Seq<char>, Seq<VariantSchemeModel>>,
    pub generic_method_schemes_by_span: Map<SpanModel, SchemeModel>,
    pub type_param_bounds: Map<SymbolId, Seq<Seq<BoundModel>>>,
    pub neg_type_param_bounds: Map<SymbolId, Seq<Seq<BoundModel>>>,
    pub type_param_record_kinds: Map<SymbolId, Seq<bool>>,
    pub fun_bounds: Map<Seq<char>, Map<TypeVar, Seq<BoundModel>>>,
    pub neg_fun_bounds: Map<Seq<char>, Map<TypeVar, Seq<BoundModel>>>,
    pub fun_record_kinds: Map<Seq<char>, Map<TypeVar, bool>>,
    pub fun_assoc_eq_constraints: Map<Seq<char>, Map<TypeVar, Seq<(Seq<char>, Seq<char>, Term)>>>,
    pub struct_scope_stack: Seq<Seq<SymbolId>>,
    pub next_local_type_id: u32,
    pub method_env: Map<Seq<char>, Map<Seq<char>, Term>>,
    pub method_receiver_env: Map<Seq<char>, Map<Seq<char>, ReceiverKind>>,
    pub array_method_env: Map<Seq<char>, Term>,
    pub array_method_receiver_env: Map<Seq<char>, ReceiverKind>,
    pub enum_env: Map<SymbolId, EnumModel>,
    pub variant_declaring_enums: Map<Seq<char>, Seq<SymbolId>>,
    pub enum_decl_modules: Map<SymbolId, Seq<Seq<char>>>,
    pub aspects: Map<Seq<char>, Seq<AspectModel>>,
    pub symbolic_named_aspects: Map<Seq<char>, Set<Seq<char>>>,
    pub impl_aspect_env: Map<(SymbolId, Seq<char>), Seq<Seq<Term>>>,
    pub conditional_impl_bounds: Map<(SymbolId, Seq<char>), Seq<EntryModel>>,
    pub bare_impl_bounds: Map<Seq<char>, Seq<EntryModel>>,
    pub array_impl_bounds: Map<Seq<char>, Seq<EntryModel>>,
    pub neg_conditional_impl_bounds: Map<(SymbolId, Seq<char>), Seq<EntryModel>>,
    pub bare_neg_impl_bounds: Map<Seq<char>, Seq<EntryModel>>,
    pub array_neg_impl_bounds: Map<Seq<char>, Seq<EntryModel>>,
    pub neg_impl_env: Map<(SymbolId, Seq<char>), Seq<Seq<Term>>>,
    pub symbols: Map<(Seq<Seq<char>>, Seq<char>), SymbolId>,
    pub scopes: Map<Seq<Seq<char>>, ScopeModel>,
    pub impl_assoc_types: Map<(SymbolId, Seq<char>), Map<Seq<char>, Term>>,
}

impl DeepView for TypeDefinitionRegistry {
    type V = RegistryModel;

    open spec fn deep_view(&self) -> RegistryModel {
        RegistryModel {
            struct_env: self.struct_env.deep_view(),
            struct_decl_modules: self.struct_decl_modules.deep_view(),
            type_decl_names: self.type_decl_names.deep_view(),
            type_decl_ids: self.type_decl_ids.deep_view(),
            local_type_decl_ids: self.local_type_decl_ids.deep_view(),
            struct_visibility: self.struct_visibility.deep_view(),
            struct_type_params: self.struct_type_params.deep_view(),
            struct_generic_names: self.struct_generic_names.deep_view(),
            method_scheme_env: self.method_scheme_env.deep_view(),
            method_scheme_variants: self.method_scheme_variants.deep_view(),
            array_method_scheme_env: self.array_method_scheme_env.deep_view(),
            array_method_scheme_variants: self.array_method_scheme_variants.deep_view(),
            generic_method_schemes_by_span: self.generic_method_schemes_by_span.deep_view(),
            type_param_bounds: self.type_param_bounds.deep_view(),
            neg_type_param_bounds: self.neg_type_param_bounds.deep_view(),
            type_param_record_kinds: self.type_param_record_kinds.deep_view(),
            fun_bounds: self.fun_bounds.deep_view(),
            neg_fun_bounds: self.neg_fun_bounds.deep_view(),
            fun_record_kinds: self.fun_record_kinds.deep_view(),
            fun_assoc_eq_constraints: self.fun_assoc_eq_constraints.deep_view(),
            struct_scope_stack: self.struct_scope_stack.deep_view(),
            next_local_type_id: self.next_local_type_id.deep_view(),
            method_env: self.method_env.deep_view(),
            method_receiver_env: self.method_receiver_env.deep_view(),
            array_method_env: self.array_method_env.deep_view(),
            array_method_receiver_env: self.array_method_receiver_env.deep_view(),
            enum_env: self.enum_env.deep_view(),
            variant_declaring_enums: self.variant_declaring_enums.deep_view(),
            enum_decl_modules: self.enum_decl_modules.deep_view(),
            aspects: self.aspects.deep_view(),
            symbolic_named_aspects: self.symbolic_named_aspects.deep_view(),
            impl_aspect_env: self.impl_aspect_env.deep_view(),
            conditional_impl_bounds: self.conditional_impl_bounds.deep_view(),
            bare_impl_bounds: self.bare_impl_bounds.deep_view(),
            array_impl_bounds: self.array_impl_bounds.deep_view(),
            neg_conditional_impl_bounds: self.neg_conditional_impl_bounds.deep_view(),
            bare_neg_impl_bounds: self.bare_neg_impl_bounds.deep_view(),
            array_neg_impl_bounds: self.array_neg_impl_bounds.deep_view(),
            neg_impl_env: self.neg_impl_env.deep_view(),
            symbols: self.symbols.deep_view(),
            scopes: self.scopes.deep_view(),
            impl_assoc_types: self.impl_assoc_types.deep_view(),
        }
    }
}

impl View for TypeDefinitionRegistry {
    type V = RegistryModel;

    open spec fn view(&self) -> RegistryModel {
        self.deep_view()
    }
}

/// A registry that knows nothing.
pub open spec fn empty_registry() -> RegistryModel {
    RegistryModel {
        struct_env: Map::empty(),
        struct_decl_modules: Map::empty(),
        type_decl_names: Map::empty(),
        type_decl_ids: Map::empty(),
        local_type_decl_ids: Map::empty(),
        struct_visibility: Map::empty(),
        struct_type_params: Map::empty(),
        struct_generic_names: Map::empty(),
        method_scheme_env: Map::empty(),
        method_scheme_variants: Map::empty(),
        array_method_scheme_env: Map::empty(),
        array_method_scheme_variants: Map::empty(),
        generic_method_schemes_by_span: Map::empty(),
        type_param_bounds: Map::empty(),
        neg_type_param_bounds: Map::empty(),
        type_param_record_kinds: Map::empty(),
        fun_bounds: Map::empty(),
        neg_fun_bounds: Map::empty(),
        fun_record_kinds: Map::empty(),
        fun_assoc_eq_constraints: Map::empty(),
        struct_scope_stack: Seq::empty(),
        next_local_type_id: u32::MAX,
        method_env: Map::empty(),
        method_receiver_env: Map::empty(),
        array_method_env: Map::empty(),
        array_method_receiver_env: Map::empty(),
        enum_env: Map::empty(),
        variant_declaring_enums: Map::empty(),
        enum_decl_modules: Map::empty(),
        aspects: Map::empty(),
        symbolic_named_aspects: Map::empty(),
        impl_aspect_env: Map::empty(),
        conditional_impl_bounds: Map::empty(),
        bare_impl_bounds: Map::empty(),
        array_impl_bounds: Map::empty(),
        neg_conditional_impl_bounds: Map::empty(),
        bare_neg_impl_bounds: Map::empty(),
        array_neg_impl_bounds: Map::empty(),
        neg_impl_env: Map::empty(),
        symbols: Map::empty(),
        scopes: Map::empty(),
        impl_assoc_types: Map::empty(),
    }
}

impl Dup for TypeDefinitionRegistry {
    fn dup(&self) -> (r: Self) {
        TypeDefinitionRegistry {
            struct_env: self.struct_env.dup(),
            struct_decl_modules: self.struct_decl_modules.dup(),
            type_decl_names: self.type_decl_names.dup(),
            type_decl_ids: self.type_decl_ids.dup(),
            local_type_decl_ids: self.local_type_decl_ids.dup(),
            struct_visibility: self.struct_visibility.dup(),
            struct_type_params: self.struct_type_params.dup(),
            struct_generic_names: self.struct_generic_names.dup(),
            method_scheme_env: self.method_scheme_env.dup(),
            method_scheme_variants: self.method_scheme_variants.dup(),
            array_method_scheme_env: self.array_method_scheme_env.dup(),
            array_method_scheme_variants: self.array_method_scheme_variants.dup(),
            generic_method_schemes_by_span: self.generic_method_schemes_by_span.dup(),
            type_param_bounds: self.type_param_bounds.dup(),
            neg_type_param_bounds: self.neg_type_param_bounds.dup(),
            type_param_record_kinds: self.type_param_record_kinds.dup(),
            fun_bounds: self.fun_bounds.dup(),
            neg_fun_bounds: self.neg_fun_bounds.dup(),
            fun_record_kinds: self.fun_record_kinds.dup(),
            fun_assoc_eq_constraints: self.fun_assoc_eq_constraints.dup(),
            struct_scope_stack: self.struct_scope_stack.dup(),
            next_local_type_id: self.next_local_type_id.dup(),
            method_env: self.method_env.dup(),
            method_receiver_env: self.method_receiver_env.dup(),
            array_method_env: self.array_method_env.dup(),
            array_method_receiver_env: self.array_method_receiver_env.dup(),
            enum_env: self.enum_env.dup(),
            variant_declaring_enums: self.variant_declaring_enums.dup(),
            enum_decl_modules: self.enum_decl_modules.dup(),
            aspects: self.aspects.dup(),
            symbolic_named_aspects: self.symbolic_named_aspects.dup(),
            impl_aspect_env: self.impl_aspect_env.dup(),
            conditional_impl_bounds: self.conditional_impl_bounds.dup(),
            bare_impl_bounds: self.bare_impl_bounds.dup(),
            array_impl_bounds: self.array_impl_bounds.dup(),
            neg_conditional_impl_bounds: self.neg_conditional_impl_bounds.dup(),
            bare_neg_impl_bounds: self.bare_neg_impl_bounds.dup(),
            array_neg_impl_bounds: self.array_neg_impl_bounds.dup(),
            neg_impl_env: self.neg_impl_env.dup(),
            symbols: self.symbols.dup(),
            scopes: self.scopes.dup(),
            impl_assoc_types: self.impl_assoc_types.dup(),
        }
    }
}

impl Clone for TypeDefinitionRegistry {
    fn clone(&self) -> (r: Self)
        ensures
            r@ == self@,
    {
        self.dup()
    }
}

impl Default for TypeDefinitionRegistry {
    fn default() -> (r: Self)
        ensures
            r@ == empty_registry(),
    {
        TypeDefinitionRegistry::new()
    }
}

impl TypeDefinitionRegistry {
    pub fn new() -> (r: Self)
        ensures
            r@ == empty_registry(),
    {
        let r = TypeDefinitionRegistry {
            struct_env: Table::new(),
            struct_decl_modules: Table::new(),
            type_decl_names: Table::new(),
            type_decl_ids: Table::new(),
            local_type_decl_ids: Table::new(),
            struct_visibility: Table::new(),
            struct_type_params: Table::new(),
            struct_generic_names: Table::new(),
            method_scheme_env: Table::new(),
            method_scheme_variants: Table::new(),
            array_method_scheme_env: Table::new(),
            array_method_scheme_variants: Table::new(),
            generic_method_schemes_by_span: Table::new(),
            type_param_bounds: Table::new(),
            neg_type_param_bounds: Table::new(),
            type_param_record_kinds: Table::new(),
            fun_bounds: Table::new(),
            neg_fun_bounds: Table::new(),
            fun_record_kinds: Table::new(),
            fun_assoc_eq_constraints: Table::new(),
            struct_scope_stack: Vec::new(),
            next_local_type_id: u32::MAX,
            method_env: Table::new(),
            method_receiver_env: Table::new(),
            array_method_env: Table::new(),
            array_method_receiver_env: Table::new(),
            enum_env: Table::new(),
            variant_declaring_enums: Table::new(),
            enum_decl_modules: Table::new(),
            aspects: Table::new(),
            symbolic_named_aspects: Table::new(),
            impl_aspect_env: Table::new(),
            conditional_impl_bounds: Table::new(),
            bare_impl_bounds: Table::new(),
            array_impl_bounds: Table::new(),
            neg_conditional_impl_bounds: Table::new(),
            bare_neg_impl_bounds: Table::new(),
            array_neg_impl_bounds: Table::new(),
            neg_impl_env: Table::new(),
            symbols: Table::new(),
            scopes: Table::new(),
            impl_assoc_types: Table::new(),
        };
        proof {
            assert(r@.struct_scope_stack =~= Seq::<Seq<SymbolId>>::empty());
        }
        r
    }
}

} // verus!
