//! What the registry keeps of each definition.

use crate::ast::{
    AspectMethod, AspectMethodModel, AssocTypeDecl, AssocTypeModel, Span, SpanModel, Visibility,
};
use crate::bounds::{BoundModel, GenericBound};
use crate::data::Dup;
use crate::infer_type::InferType;
use crate::symbols::{FieldId, SymbolId, VariantId};
use crate::table::Table;
use crate::term::{Term, TypeVar};
use vstd::prelude::*;

verus! {

/// A single field entry in a struct or enum variant, carrying its declaration
/// metadata.
#[derive(Debug)]
pub struct FieldEntry {
    pub name: String,
    pub ty: InferType,
    pub span: Span,
    pub visibility: Visibility,
    /// Interned identity of this field declaration; `None` before stamping.
    pub id: Option<FieldId>,
}

pub struct FieldModel {
    pub name: Seq<char>,
    pub ty: Term,
    pub span: SpanModel,
    pub visibility: Visibility,
    pub id: Option<FieldId>,
}

impl DeepView for FieldEntry {
    type V = FieldModel;

    open spec fn deep_view(&self) -> FieldModel {
        FieldModel {
            name: self.name.deep_view(),
            ty: self.ty.deep_view(),
            span: self.span.deep_view(),
            visibility: self.visibility.deep_view(),
            id: self.id.deep_view(),
        }
    }
}

impl Dup for FieldEntry {
    fn dup(&self) -> (r: Self) {
        FieldEntry {
            name: self.name.dup(),
            ty: self.ty.dup(),
            span: self.span.dup(),
            visibility: self.visibility.dup(),
            id: self.id.dup(),
        }
    }
}

impl Clone for FieldEntry {
    fn clone(&self) -> (r: Self)
        ensures
            r.deep_view() == self.deep_view(),
    {
        self.dup()
    }
}

/// A variant of an enum.
#[derive(Debug)]
pub struct VariantInfo {
    pub name: String,
    pub fields: Vec<FieldEntry>,
    /// Interned identity of this variant; `None` before stamping.
    pub id: Option<VariantId>,
}

pub struct VariantModel {
    pub name: Seq<char>,
    pub fields: Seq<FieldModel>,
    pub id: Option<VariantId>,
}

impl DeepView for VariantInfo {
    type V = VariantModel;

    open spec fn deep_view(&self) -> VariantModel {
        VariantModel {
            name: self.name.deep_view(),
            fields: self.fields.deep_view(),
            id: self.id.deep_view(),
        }
    }
}

impl Dup for VariantInfo {
    fn dup(&self) -> (r: Self) {
        VariantInfo {
            name: self.name.dup(),
            fields: self.fields.dup(),
            id: self.id.dup(),
        }
    }
}

impl Clone for VariantInfo {
    fn clone(&self) -> (r: Self)
        ensures
            r.deep_view() == self.deep_view(),
    {
        self.dup()
    }
}

/// An enum: its type parameters and its variants.
#[derive(Debug)]
pub struct EnumInfo {
    pub type_params: Vec<TypeVar>,
    pub variants: Vec<VariantInfo>,
}

pub struct EnumModel {
    pub type_params: Seq<TypeVar>,
    pub variants: Seq<VariantModel>,
}

impl DeepView for EnumInfo {
    type V = EnumModel;

    open spec fn deep_view(&self) -> EnumModel {
        EnumModel {
            type_params: self.type_params.deep_view(),
            variants: self.variants.deep_view(),
        }
    }
}

impl Dup for EnumInfo {
    fn dup(&self) -> (r: Self) {
        EnumInfo {
            type_params: self.type_params.dup(),
            variants: self.variants.dup(),
        }
    }
}

impl Clone for EnumInfo {
    fn clone(&self) -> (r: Self)
        ensures
            r.deep_view() == self.deep_view(),
    {
        self.dup()
    }
}

/// One aspect declaration. Several modules may declare aspects of one name.
#[derive(Debug)]
pub struct AspectEntry {
    /// Module path that declared this aspect.
    pub declaring_module: Vec<String>,
    /// Ordered method names — used to verify impl blocks are complete.
    pub method_names: Vec<String>,
    /// Ordered generic parameter names declared by the aspect.
    pub generics: Vec<String>,
    /// Full declared methods.
    pub method_defs: Vec<AspectMethod>,
    /// Declared associated-type members.
    pub assoc_type_decls: Vec<AssocTypeDecl>,
}

pub struct AspectModel {
    pub declaring_module: Seq<Seq<char>>,
    pub method_names: Seq<Seq<char>>,
    pub generics: Seq<Seq<char>>,
    pub method_defs: Seq<AspectMethodModel>,
    pub assoc_type_decls: Seq<AssocTypeModel>,
}

impl DeepView for AspectEntry {
    type V = AspectModel;

    open spec fn deep_view(&self) -> AspectModel {
        AspectModel {
            declaring_module: self.declaring_module.deep_view(),
            method_names: self.method_names.deep_view(),
            generics: self.generics.deep_view(),
            method_defs: self.method_defs.deep_view(),
            assoc_type_decls: self.assoc_type_decls.deep_view(),
        }
    }
}

impl Dup for AspectEntry {
    fn dup(&self) -> (r: Self) {
        AspectEntry {
            declaring_module: self.declaring_module.dup(),
            method_names: self.method_names.dup(),
            generics: self.generics.dup(),
            method_defs: self.method_defs.dup(),
            assoc_type_decls: self.assoc_type_decls.dup(),
        }
    }
}

impl Clone for AspectEntry {
    fn clone(&self) -> (r: Self)
        ensures
            r.deep_view() == self.deep_view(),
    {
        self.dup()
    }
}

/// What an imported name stands for.
#[derive(Debug, Clone, Copy, PartialEq, Eq, Structural)]
pub enum BindingKind {
    Module,
    Item,
}

impl DeepView for BindingKind {
    type V = BindingKind;

    open spec fn deep_view(&self) -> BindingKind {
        *self
    }
}

impl Dup for BindingKind {
    fn dup(&self) -> (r: Self) {
        *self
    }
}

/// Where a glob import takes its names from. Names of the program win over
/// names of the standard library.
#[derive(Debug, Clone, Copy, PartialEq, Eq, Structural)]
pub enum GlobTier {
    User,
    Std,
}

impl DeepView for GlobTier {
    type V = GlobTier;

    open spec fn deep_view(&self) -> GlobTier {
        *self
    }
}

impl Dup for GlobTier {
    fn dup(&self) -> (r: Self) {
        *self
    }
}

/// An imported name.
#[derive(Debug)]
pub struct ImportBinding {
    pub symbol_id: SymbolId,
    /// The module that the name comes from; for a module, its own path.
    pub source_module: Vec<String>,
    /// The name in that module.
    pub source_name: String,
    pub kind: BindingKind,
}

pub struct BindingModel {
    pub symbol_id: SymbolId,
    pub source_module: Seq<Seq<char>>,
    pub source_name: Seq<char>,
    pub kind: BindingKind,
}

impl DeepView for ImportBinding {
    type V = BindingModel;

    open spec fn deep_view(&self) -> BindingModel {
        BindingModel {
            symbol_id: self.symbol_id.deep_view(),
            source_module: self.source_module.deep_view(),
            source_name: self.source_name.deep_view(),
            kind: self.kind.deep_view(),
        }
    }
}

impl Dup for ImportBinding {
    fn dup(&self) -> (r: Self) {
        ImportBinding {
            symbol_id: self.symbol_id.dup(),
            source_module: self.source_module.dup(),
            source_name: self.source_name.dup(),
            kind: self.kind.dup(),
        }
    }
}

impl Clone for ImportBinding {
    fn clone(&self) -> (r: Self)
        ensures
            r.deep_view() == self.deep_view(),
    {
        self.dup()
    }
}

/// What a module imports and exports.
pub struct ModuleScope {
    /// Names imported one by one, under their local names, in order.
    pub explicit: Vec<(String, ImportBinding)>,
    /// Modules imported as a whole, in order.
    pub globs: Vec<(GlobTier, Vec<String>)>,
    /// Names that the module passes on.
    pub re_exports: Table<String, ImportBinding>,
}

pub struct ScopeModel {
    pub explicit: Seq<(Seq<char>, BindingModel)>,
    pub globs: Seq<(GlobTier, Seq<Seq<char>>)>,
    pub re_exports: Map<Seq<char>, BindingModel>,
}

impl DeepView for ModuleScope {
    type V = ScopeModel;

    open spec fn deep_view(&self) -> ScopeModel {
        ScopeModel {
            explicit: self.explicit.deep_view(),
            globs: self.globs.deep_view(),
            re_exports: self.re_exports.deep_view(),
        }
    }
}

impl Dup for ModuleScope {
    fn dup(&self) -> (r: Self) {
        ModuleScope {
            explicit: self.explicit.dup(),
            globs: self.globs.dup(),
            re_exports: self.re_exports.dup(),
        }
    }
}

impl Clone for ModuleScope {
    fn clone(&self) -> (r: Self)
        ensures
            r.deep_view() == self.deep_view(),
    {
        self.dup()
    }
}

/// One conditional impl's per-position bound requirements: the aspects that
/// each type argument must have, and those that it must not have.
pub type ConditionalImplBoundEntry = (Vec<Vec<GenericBound>>, Vec<Vec<GenericBound>>);

/// What a conditional impl demands.
pub type EntryModel = (Seq<Seq<BoundModel>>, Seq<Seq<BoundModel>>);

} // verus!
