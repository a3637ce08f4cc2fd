//! What the inference context asks of and tells its registry, seen from the
//! module being inferred.

use crate::ast::{AspectMethod, AssocTypeDecl, ReceiverKind, Span, Visibility};
use crate::bounds::GenericBound;
use crate::context::{ContextModel, InferContext};
use crate::data::Dup;
use crate::definitions::{EnumInfo, FieldEntry};
use crate::infer_type::InferType;
use crate::registry::{MethodScheme, RegistryModel, TypeDefinitionRegistry};
use crate::schemes::{AssocEqConstraints, TypeScheme};
use crate::table::Table;
use crate::term::TypeVar;
use crate::types::Type;
use vstd::prelude::*;

verus! {

impl InferContext {
    pub fn get_struct_type_params(&self, name: &str) -> (r: Option<&Vec<TypeVar>>)
        ensures
            r.deep_view() == (match crate::resolve::type_key_broad(
                self@.registry,
                self@.module,
                name@,
            ) {
                Some(id) => self@.registry.struct_type_params.get(id),
                None => None,
            }),
    {
        self.registry.struct_type_params_for(self.current_module_path.as_slice(), name)
    }

    pub fn get_struct_fields(&self, name: &str) -> (r: Option<&Vec<FieldEntry>>)
        ensures
            r.deep_view() == (match crate::resolve::type_key_broad(
                self@.registry,
                self@.module,
                name@,
            ) {
                Some(id) => self@.registry.struct_env.get(id),
                None => None,
            }),
    {
        self.registry.struct_fields(self.current_module_path.as_slice(), name)
    }

    pub fn get_method_type(&self, ty_name: &str, method_name: &str) -> (r: Option<&InferType>)
        ensures
            r.deep_view() == crate::table::map_at(self@.registry.method_env, ty_name@).get(
                method_name@,
            ),
    {
        self.registry.method_type(ty_name, method_name)
    }

    pub fn get_array_method_type(&self, method_name: &str) -> (r: Option<&InferType>)
        ensures
            r.deep_view() == self@.registry.array_method_env.get(method_name@),
    {
        self.registry.array_method_type(method_name)
    }

    pub fn get_method_receiver_kind(
        &self,
        ty_name: &str,
        method_name: &str,
    ) -> (r: Option<&ReceiverKind>)
        ensures
            r.deep_view() == crate::table::map_at(self@.registry.method_receiver_env, ty_name@).get(
                method_name@,
            ),
    {
        self.registry.method_receiver_kind(ty_name, method_name)
    }

    pub fn get_array_method_receiver_kind(&self, method_name: &str) -> (r: Option<&ReceiverKind>)
        ensures
            r.deep_view() == self@.registry.array_method_receiver_env.get(method_name@),
    {
        self.registry.array_method_receiver_kind(method_name)
    }

    pub fn get_enum(&self, name: &str) -> (r: Option<&EnumInfo>)
        ensures
            r.deep_view() == (match crate::resolve::type_key_broad(
                self@.registry,
                self@.module,
                name@,
            ) {
                Some(id) => self@.registry.enum_env.get(id),
                None => None,
            }),
    {
        self.registry.enum_info(self.current_module_path.as_slice(), name)
    }

    /// `aspect_method_defs` scoped to `current_module`.
    pub fn aspect_method_defs(&self, name: &str) -> (r: Option<&Vec<AspectMethod>>)
        ensures
            r.deep_view() == (match crate::aspect_decls::aspect_in(
                self@.registry,
                self@.module,
                name@,
            ) {
                Some(e) => Some(e.method_defs),
                None => None,
            }),
    {
        self.registry.aspect_method_defs_in(self.current_module_path.as_slice(), name)
    }

    /// `aspect_method_defs` scoped to `current_module`.
    pub fn get_aspect_method_defs(&self, name: &str) -> (r: Option<&Vec<AspectMethod>>)
        ensures
            r.deep_view() == (match crate::aspect_decls::aspect_in(
                self@.registry,
                self@.module,
                name@,
            ) {
                Some(e) => Some(e.method_defs),
                None => None,
            }),
    {
        self.registry.aspect_method_defs_in(self.current_module_path.as_slice(), name)
    }

    /// `aspect_generics` scoped to `current_module`.
    pub fn aspect_generics(&self, name: &str) -> (r: Option<&Vec<String>>)
        ensures
            r.deep_view() == (match crate::aspect_decls::aspect_in(
                self@.registry,
                self@.module,
                name@,
            ) {
                Some(e) => Some(e.generics),
                None => None,
            }),
    {
        self.registry.aspect_generics_in(self.current_module_path.as_slice(), name)
    }

    /// `aspect_declaring_module` scoped to `current_module`.
    pub fn aspect_declaring_module(&self, name: &str) -> (r: Option<&Vec<String>>)
        ensures
            r.deep_view() == (match crate::aspect_decls::aspect_in(
                self@.registry,
                self@.module,
                name@,
            ) {
                Some(e) => Some(e.declaring_module),
                None => None,
            }),
    {
        self.registry.aspect_declaring_module_in(self.current_module_path.as_slice(), name)
    }

    /// `aspect_assoc_type_decls` scoped to `current_module`.
    pub fn aspect_assoc_type_decls(&self, aspect_name: &str) -> (r:
        Option<&Vec<AssocTypeDecl>>)
        ensures
            r.deep_view() == (match crate::aspect_decls::aspect_in(
                self@.registry,
                self@.module,
                aspect_name@,
            ) {
                Some(e) => if e.assoc_type_decls.len() > 0 {
                    Some(e.assoc_type_decls)
                } else {
                    None
                },
                None => None,
            }),
    {
        self.registry.aspect_assoc_type_decls_in(self.current_module_path.as_slice(), aspect_name)
    }

    /// Whether an impl of `From` for `target` takes `source`.
    pub fn has_from_impl(&self, target: &str, source: &Type) -> (b: bool)
        ensures
            b == crate::registering::converts(self@.registry, self@.module, target@, source.term()),
    {
        self.registry.has_from_impl(self.current_module_path.as_slice(), target, source)
    }

    /// Returns the element type registered for `target`'s impl of `Iterable`,
    /// if any: the first type argument of the first impl.
    pub fn iterable_elem_type(&self, target: &str) -> (r: Option<&Type>)
        ensures
            r.deep_view() == (match crate::resolve::resolved(
                self@.registry,
                self@.module,
                target@,
            ) {
                Some(id) => {
                    let impls = crate::table::list_at(
                        self@.registry.impl_aspect_env,
                        (id, "Iterable"@),
                    );
                    if impls.len() > 0 && impls[0].len() > 0 {
                        Some(impls[0][0])
                    } else {
                        None
                    }
                },
                None => None,
            }),
    {
        self.registry.iterable_elem_type(self.current_module_path.as_slice(), target)
    }

    pub fn struct_generic_names_for(&self, name: &str) -> (r: Option<&Vec<String>>)
        ensures
            r.deep_view() == (match crate::resolve::type_key(
                self@.registry,
                self@.module,
                name@,
            ) {
                Some(id) => self@.registry.struct_generic_names.get(id),
                None => None,
            }),
    {
        self.registry.struct_generic_names_for(self.current_module_path.as_slice(), name)
    }

    pub fn get_type_param_bounds(&self, name: &str) -> (r: Option<&Vec<Vec<GenericBound>>>)
        ensures
            r.deep_view() == (match crate::resolve::type_key(
                self@.registry,
                self@.module,
                name@,
            ) {
                Some(id) => self@.registry.type_param_bounds.get(id),
                None => None,
            }),
    {
        self.registry.type_param_bounds_for(self.current_module_path.as_slice(), name)
    }

    pub fn get_type_param_record_kinds(&self, name: &str) -> (r: Option<&Vec<bool>>)
        ensures
            r.deep_view() == (match crate::resolve::type_key(
                self@.registry,
                self@.module,
                name@,
            ) {
                Some(id) => self@.registry.type_param_record_kinds.get(id),
                None => None,
            }),
    {
        self.registry.type_param_record_kinds_for(self.current_module_path.as_slice(), name)
    }

    pub fn method_scheme_for(&self, ty_name: &str, method_name: &str) -> (r: Option<&MethodScheme>)
        ensures
            r.deep_view() == crate::table::map_at(self@.registry.method_scheme_env, ty_name@).get(
                method_name@,
            ),
    {
        self.registry.method_scheme_for(ty_name, method_name)
    }

    pub fn array_method_scheme_for(&self, method_name: &str) -> (r: Option<&MethodScheme>)
        ensures
            r.deep_view() == self@.registry.array_method_scheme_env.get(method_name@),
    {
        self.registry.array_method_scheme_for(method_name)
    }

    /// Register a struct declared inside a block body. These have no resolved
    /// symbol, so the registry mints a local id.
    pub fn register_struct_fields(
        &mut self,
        name: String,
        fields: Vec<FieldEntry>,
        visibility: Visibility,
    )
        ensures
            final(self)@ == (ContextModel { registry: crate::registering::with_local_struct(
                old(self)@.registry,
                name@,
                fields.deep_view(),
                old(self)@.module,
                visibility,
            ), ..old(self)@ }),
    {
        let module = self.current_module_path.dup();
        self.registry.register_local_struct_fields(name, fields, module, visibility);
    }

    pub fn push_struct_scope(&mut self)
        ensures
            final(self)@ == (ContextModel { registry: (RegistryModel {
                struct_scope_stack: old(self)@.registry.struct_scope_stack.push(Seq::empty()),
                ..old(self)@.registry
            }), ..old(self)@ }),
    {
        self.registry.push_struct_scope();
    }

    pub fn pop_struct_scope(&mut self)
        ensures
            final(self)@ == (ContextModel {
                registry: crate::registering::scope_closed(old(self)@.registry),
                ..old(self)@
            }),
    {
        self.registry.pop_struct_scope();
    }

    pub fn register_method(&mut self, ty_name: String, method_name: String, fun_ty: InferType)
        ensures
            final(self)@ == (ContextModel {
                registry: (RegistryModel {
                    method_env: old(self)@.registry.method_env.insert(
                        ty_name@,
                        crate::table::map_at(old(self)@.registry.method_env, ty_name@).insert(
                            method_name@,
                            fun_ty.term(),
                        ),
                    ),
                    ..old(self)@.registry
                }),
                ..old(self)@
            }),
    {
        self.registry.register_method(ty_name, method_name, fun_ty);
    }

    pub fn register_array_method(&mut self, method_name: String, fun_ty: InferType)
        ensures
            final(self)@ == (ContextModel {
                registry: (RegistryModel {
                    array_method_env: old(self)@.registry.array_method_env.insert(
                        method_name@,
                        fun_ty.term(),
                    ),
                    ..old(self)@.registry
                }),
                ..old(self)@
            }),
    {
        self.registry.register_array_method(method_name, fun_ty);
    }

    /// Register an enum declared inside a block body. These have no resolved
    /// symbol, so the registry mints a local id.
    pub fn register_enum(&mut self, name: String, info: EnumInfo)
        ensures
            final(self)@ == (ContextModel { registry: crate::registering::with_local_enum(
                old(self)@.registry,
                name@,
                info.deep_view(),
                old(self)@.module,
            ), ..old(self)@ }),
    {
        let module = self.current_module_path.dup();
        self.registry.register_local_enum(name, info, module);
    }

    /// Records the given entries for a function, unless there are none.
    pub fn register_fun_bounds(&mut self, name: String, bounds: Table<TypeVar, Vec<GenericBound>>)
        ensures
            final(self)@ == (ContextModel { registry: (if bounds@.dom() == Set::<TypeVar>::empty() {
                old(self)@.registry
            } else {
                RegistryModel {
                    fun_bounds: old(self)@.registry.fun_bounds.insert(name@, bounds@),
                    ..old(self)@.registry
                }
            }), ..old(self)@ }),
    {
        self.registry.register_fun_bounds(name, bounds);
    }

    /// Records which type variables of a function stand for records, unless
    /// none does.
    pub fn register_fun_record_kinds(&mut self, name: String, record_kinds: Table<TypeVar, bool>)
        ensures
            final(self)@ == (ContextModel { registry: (if exists|v: TypeVar| #[trigger]
                record_kinds@.contains_key(v) && record_kinds@[v] {
                RegistryModel {
                    fun_record_kinds: old(self)@.registry.fun_record_kinds.insert(
                        name@,
                        record_kinds@,
                    ),
                    ..old(self)@.registry
                }
            } else {
                old(self)@.registry
            }), ..old(self)@ }),
    {
        self.registry.register_fun_record_kinds(name, record_kinds);
    }

    /// Records the given entries for a function, unless there are none.
    pub fn register_neg_fun_bounds(
        &mut self,
        name: String,
        bounds: Table<TypeVar, Vec<GenericBound>>,
    )
        ensures
            final(self)@ == (ContextModel { registry: (if bounds@.dom() == Set::<TypeVar>::empty() {
                old(self)@.registry
            } else {
                RegistryModel {
                    neg_fun_bounds: old(self)@.registry.neg_fun_bounds.insert(name@, bounds@),
                    ..old(self)@.registry
                }
            }), ..old(self)@ }),
    {
        self.registry.register_neg_fun_bounds(name, bounds);
    }

    /// Records the given entries for a function, unless there are none.
    pub fn register_fun_assoc_eq_constraints(
        &mut self,
        name: String,
        constraints: AssocEqConstraints,
    )
        ensures
            final(self)@ == (ContextModel { registry: (if constraints@.dom() == Set::<TypeVar>::empty() {
                old(self)@.registry
            } else {
                RegistryModel {
                    fun_assoc_eq_constraints: old(self)@.registry.fun_assoc_eq_constraints.insert(
                        name@,
                        constraints@,
                    ),
                    ..old(self)@.registry
                }
            }), ..old(self)@ }),
    {
        self.registry.register_fun_assoc_eq_constraints(name, constraints);
    }

    pub fn register_method_scheme(
        &mut self,
        ty_name: String,
        method_name: String,
        scheme: TypeScheme,
        struct_tvars: Vec<TypeVar>,
    )
        ensures
            final(self)@ == (ContextModel {
                registry: (RegistryModel {
                    method_scheme_env: old(self)@.registry.method_scheme_env.insert(
                        ty_name@,
                        crate::table::map_at(
                            old(self)@.registry.method_scheme_env,
                            ty_name@,
                        ).insert(method_name@, (scheme@, struct_tvars.deep_view())),
                    ),
                    ..old(self)@.registry
                }),
                ..old(self)@
            }),
    {
        self.registry.register_method_scheme(ty_name, method_name, scheme, struct_tvars);
    }

    pub fn register_array_method_scheme(
        &mut self,
        method_name: String,
        scheme: TypeScheme,
        element_tvars: Vec<TypeVar>,
    )
        ensures
            final(self)@ == (ContextModel {
                registry: (RegistryModel {
                    array_method_scheme_env: old(self)@.registry.array_method_scheme_env.insert(
                        method_name@,
                        (scheme@, element_tvars.deep_view()),
                    ),
                    ..old(self)@.registry
                }),
                ..old(self)@
            }),
    {
        self.registry.register_array_method_scheme(method_name, scheme, element_tvars);
    }

    /// Add a variant method scheme, for methods that several impls provide.
    pub fn register_method_scheme_variant(
        &mut self,
        ty_name: String,
        method_name: String,
        scheme: TypeScheme,
        struct_tvars: Vec<TypeVar>,
        aspect_name: Option<String>,
        method_span: Span,
    )
        ensures
            final(self)@ == (ContextModel { registry: ({
                let inner = crate::table::map_at(
                    old(self)@.registry.method_scheme_variants,
                    ty_name@,
                );
                RegistryModel {
                    generic_method_schemes_by_span:
                        old(self)@.registry.generic_method_schemes_by_span.insert(
                            method_span.deep_view(),
                            scheme@,
                        ),
                    method_scheme_variants: old(self)@.registry.method_scheme_variants.insert(
                        ty_name@,
                        inner.insert(
                            method_name@,
                            crate::table::list_at(inner, method_name@).push(
                                (scheme@, struct_tvars.deep_view(), aspect_name.deep_view()),
                            ),
                        ),
                    ),
                    ..old(self)@.registry
                }
            }), ..old(self)@ }),
    {
        self.registry.register_method_scheme_variant(
            ty_name,
            method_name,
            scheme,
            struct_tvars,
            aspect_name,
            method_span,
        );
    }

    pub fn register_array_method_scheme_variant(
        &mut self,
        method_name: String,
        scheme: TypeScheme,
        element_tvars: Vec<TypeVar>,
        aspect_name: Option<String>,
        method_span: Span,
    )
        ensures
            final(self)@ == (ContextModel { registry: (RegistryModel {
                generic_method_schemes_by_span: old(self)@.registry.generic_method_schemes_by_span.insert(
                    method_span.deep_view(),
                    scheme@,
                ),
                array_method_scheme_variants: old(self)@.registry.array_method_scheme_variants.insert(
                    method_name@,
                    crate::table::list_at(
                        old(self)@.registry.array_method_scheme_variants,
                        method_name@,
                    ).push((scheme@, element_tvars.deep_view(), aspect_name.deep_view())),
                ),
                ..old(self)@.registry
            }), ..old(self)@ }),
    {
        self.registry.register_array_method_scheme_variant(
            method_name,
            scheme,
            element_tvars,
            aspect_name,
            method_span,
        );
    }

    pub fn registry(&self) -> (r: &TypeDefinitionRegistry)
        ensures
            r@ == self@.registry,
    {
        &self.registry
    }

    pub fn current_module_path(&self) -> (r: &[String])
        ensures
            r.deep_view() == self@.module,
    {
        self.current_module_path.as_slice()
    }

    /// Consume the context and return its registry.
    pub fn into_registry(self) -> (r: TypeDefinitionRegistry)
        ensures
            r@ == self@.registry,
    {
        self.registry
    }
}

} // verus!
