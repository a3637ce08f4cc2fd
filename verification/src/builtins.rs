//! What every program can use: the types, aspects and host functions of the core
//! library, under the identities that the rest of the pipeline gives them.

use crate::ast::ReceiverKind;
use crate::data::Dup;
use crate::native_keys::NativeFn;
use crate::natives::native_host_impl;
use crate::resolve::is_text;
use crate::runtime::{RuntimeModel, RuntimeRegistry, TypeEntryModel};
use crate::runtime_types::{
    runtime_method_from_decl, runtime_type_keys, MethodModel, PatternModel, RuntimeMethod,
    RuntimeSignature, RuntimeTypePattern, RuntimeTypeRef, SignatureModel,
};
use crate::symbols::{
    SymbolId, SYM_ASPECT_DISPLAY, SYM_ASPECT_FROM, SYM_ASPECT_ITERABLE, SYM_TYPE_BOOLEAN,
    SYM_TYPE_CHAR, SYM_TYPE_F32, SYM_TYPE_F64, SYM_TYPE_I16, SYM_TYPE_I32, SYM_TYPE_I64,
    SYM_TYPE_I8, SYM_TYPE_LIST, SYM_TYPE_PERHAPS, SYM_TYPE_RANGE, SYM_TYPE_RANGE_INCLUSIVE,
    SYM_TYPE_RESULT, SYM_TYPE_STRING, SYM_TYPE_U16, SYM_TYPE_U32, SYM_TYPE_U64, SYM_TYPE_U8,
};
use crate::type_expr::TypeExpr;
use crate::typed_ast::{FunBody, TypedDecl, TypedImplBlock};
use crate::values::{CallableModel, RuntimeCallable, Value, ValueHead};
use vstd::prelude::*;
use vstd::string::*;

verus! {

/// The identity of an aspect of the core library.
pub open spec fn core_aspect(name: Seq<char>) -> Option<SymbolId> {
    if name == "Display"@ {
        Some(SymbolId(SYM_ASPECT_DISPLAY))
    } else if name == "Iterable"@ {
        Some(SymbolId(SYM_ASPECT_ITERABLE))
    } else if name == "From"@ {
        Some(SymbolId(SYM_ASPECT_FROM))
    } else {
        None
    }
}

/// The identity of an aspect of the core library.
pub fn builtin_aspect_id(aspect_name: &String) -> (r: Option<SymbolId>)
    ensures
        r == core_aspect(aspect_name@),
{
    if is_text(aspect_name, "Display") {
        Some(SymbolId(SYM_ASPECT_DISPLAY))
    } else if is_text(aspect_name, "Iterable") {
        Some(SymbolId(SYM_ASPECT_ITERABLE))
    } else if is_text(aspect_name, "From") {
        Some(SymbolId(SYM_ASPECT_FROM))
    } else {
        None
    }
}

/// The identity of a type of the core library.
pub open spec fn core_type(name: Seq<char>) -> Option<SymbolId> {
    if name == "boolean"@ {
        Some(SymbolId(SYM_TYPE_BOOLEAN))
    } else if name == "String"@ {
        Some(SymbolId(SYM_TYPE_STRING))
    } else if name == "Char"@ {
        Some(SymbolId(SYM_TYPE_CHAR))
    } else if name == "i8"@ {
        Some(SymbolId(SYM_TYPE_I8))
    } else if name == "i16"@ {
        Some(SymbolId(SYM_TYPE_I16))
    } else if name == "i32"@ {
        Some(SymbolId(SYM_TYPE_I32))
    } else if name == "i64"@ {
        Some(SymbolId(SYM_TYPE_I64))
    } else if name == "u8"@ {
        Some(SymbolId(SYM_TYPE_U8))
    } else if name == "u16"@ {
        Some(SymbolId(SYM_TYPE_U16))
    } else if name == "u32"@ {
        Some(SymbolId(SYM_TYPE_U32))
    } else if name == "u64"@ {
        Some(SymbolId(SYM_TYPE_U64))
    } else if name == "f32"@ {
        Some(SymbolId(SYM_TYPE_F32))
    } else if name == "f64"@ {
        Some(SymbolId(SYM_TYPE_F64))
    } else if name == "List"@ {
        Some(SymbolId(SYM_TYPE_LIST))
    } else if name == "Perhaps"@ {
        Some(SymbolId(SYM_TYPE_PERHAPS))
    } else if name == "Result"@ {
        Some(SymbolId(SYM_TYPE_RESULT))
    } else if name == "Range"@ {
        Some(SymbolId(SYM_TYPE_RANGE))
    } else if name == "RangeInclusive"@ {
        Some(SymbolId(SYM_TYPE_RANGE_INCLUSIVE))
    } else {
        None
    }
}

/// The identity of a type of the core library.
pub fn builtin_type_id(named: &String) -> (r: Option<SymbolId>)
    ensures
        r == core_type(named@),
{
    let id: u32 = if is_text(named, "boolean") {
        SYM_TYPE_BOOLEAN
    } else if is_text(named, "String") {
        SYM_TYPE_STRING
    } else if is_text(named, "Char") {
        SYM_TYPE_CHAR
    } else if is_text(named, "i8") {
        SYM_TYPE_I8
    } else if is_text(named, "i16") {
        SYM_TYPE_I16
    } else if is_text(named, "i32") {
        SYM_TYPE_I32
    } else if is_text(named, "i64") {
        SYM_TYPE_I64
    } else if is_text(named, "u8") {
        SYM_TYPE_U8
    } else if is_text(named, "u16") {
        SYM_TYPE_U16
    } else if is_text(named, "u32") {
        SYM_TYPE_U32
    } else if is_text(named, "u64") {
        SYM_TYPE_U64
    } else if is_text(named, "f32") {
        SYM_TYPE_F32
    } else if is_text(named, "f64") {
        SYM_TYPE_F64
    } else if is_text(named, "List") {
        SYM_TYPE_LIST
    } else if is_text(named, "Perhaps") {
        SYM_TYPE_PERHAPS
    } else if is_text(named, "Result") {
        SYM_TYPE_RESULT
    } else if is_text(named, "Range") {
        SYM_TYPE_RANGE
    } else if is_text(named, "RangeInclusive") {
        SYM_TYPE_RANGE_INCLUSIVE
    } else {
        return None;
    };
    Some(SymbolId(id))
}

/// What is known after a method of a type has been registered: as a method of the
/// aspect that it implements, or as a method or a value of the type itself.
pub open spec fn method_registered(
    rt: RuntimeModel,
    id: SymbolId,
    named: Seq<char>,
    aspect: Option<Seq<char>>,
    aspect_id: Option<SymbolId>,
    aspect_args: Seq<Seq<char>>,
    name: Seq<char>,
    m: MethodModel,
) -> RuntimeModel {
    let entry = crate::runtime::type_entry(rt, id);
    crate::runtime::type_entered(
        rt,
        id,
        named,
        match aspect {
            Some(a) => TypeEntryModel {
                impls: crate::runtime::impl_extended(
                    entry.impls,
                    a,
                    aspect_id,
                    Some(aspect_args),
                    name,
                    m,
                ),
                ..entry
            },
            None => if m.receiver is None {
                TypeEntryModel { values: entry.values.insert(name, m), ..entry }
            } else {
                TypeEntryModel { methods: entry.methods.insert(name, m), ..entry }
            },
        },
    )
}

/// Registers a method of a type.
pub(crate) fn register_method(
    runtime: &mut RuntimeRegistry,
    id: SymbolId,
    named: &String,
    aspect: &Option<String>,
    aspect_id: Option<SymbolId>,
    aspect_args: Vec<String>,
    name: &String,
    m: RuntimeMethod,
)
    ensures
        final(runtime)@ == method_registered(
            old(runtime)@,
            id,
            named@,
            aspect.deep_view(),
            aspect_id,
            aspect_args.deep_view(),
            name@,
            m.deep_view(),
        ),
{
    match aspect {
        Some(a) => {
            runtime.register_aspect_method(
                id,
                named.as_str(),
                a.as_str(),
                aspect_id,
                aspect_args,
                name.as_str(),
                m,
            );
        },
        None => if m.receiver.is_none() {
            runtime.register_type_value(id, named.as_str(), name.as_str(), m);
        } else {
            runtime.register_inherent_method(id, named.as_str(), name.as_str(), m);
        },
    }
}

/// What a method is called.
pub open spec fn method_label(owner: Seq<char>, name: Seq<char>) -> Seq<char> {
    owner + "::"@ + name
}

/// What a method is called.
pub(crate) fn label_method(owner: &str, name: &String) -> (s: String)
    ensures
        s@ == method_label(owner@, name@),
{
    let mut s = owner.to_owned();
    s.append("::");
    s.append(name.as_str());
    s
}

/// The function that a host function is.
pub open spec fn native_callable(key: crate::native_keys::NativeKey) -> CallableModel {
    CallableModel::Intrinsic(crate::native_keys::native_label(key), NativeFn::Key(key))
}

/// What is known after the host functions among the methods of a type of the core
/// library, from `i` on, have been registered.
pub open spec fn core_methods_registered(
    b: TypedImplBlock,
    named: Seq<char>,
    id: SymbolId,
    i: int,
    rt: RuntimeModel,
) -> RuntimeModel
    decreases b.methods@.len() - i,
{
    if i < 0 || i >= b.methods@.len() {
        rt
    } else {
        let f = *b.methods@[i];
        match f.body {
            FunBody::Native(key) => core_methods_registered(
                b,
                named,
                id,
                i + 1,
                method_registered(
                    rt,
                    id,
                    named,
                    b.aspect_name.deep_view(),
                    match b.aspect_name {
                        Some(a) => core_aspect(a@),
                        None => None,
                    },
                    crate::runtime_types::key_texts(b.aspect_type_args.deep_view()),
                    f.name@,
                    crate::runtime_types::declared_method(
                        method_label(named, f.name@),
                        f,
                        native_callable(key),
                    ),
                ),
            ),
            _ => core_methods_registered(b, named, id, i + 1, rt),
        }
    }
}

fn register_core_methods(
    runtime: &mut RuntimeRegistry,
    b: &TypedImplBlock,
    named: &String,
    id: SymbolId,
)
    ensures
        final(runtime)@ == core_methods_registered(*b, named@, id, 0, old(runtime)@),
{
    let aspect_id = match &b.aspect_name {
        Some(a) => builtin_aspect_id(a),
        None => None,
    };
    let mut i: usize = 0;
    while i < b.methods.len()
        invariant
            i <= b.methods.len(),
            aspect_id == (match b.aspect_name {
                Some(a) => core_aspect(a@),
                None => None,
            }),
            core_methods_registered(*b, named@, id, 0, old(runtime)@) == core_methods_registered(
                *b,
                named@,
                id,
                i as int,
                runtime@,
            ),
        decreases b.methods.len() - i,
    {
        let f = &b.methods[i];
        match &f.body {
            FunBody::Native(key) => {
                let m = runtime_method_from_decl(
                    label_method(named.as_str(), &f.name),
                    f,
                    native_host_impl(*key),
                );
                register_method(
                    runtime,
                    id,
                    named,
                    &b.aspect_name,
                    aspect_id,
                    runtime_type_keys(&b.aspect_type_args),
                    &f.name,
                    m,
                );
            },
            _ => {},
        }
        i += 1;
    }
}

/// What is known after a declaration of the core library has been registered, as
/// far as it is one of host functions.
pub open spec fn core_registered(d: TypedDecl, rt: RuntimeModel) -> RuntimeModel {
    match d {
        TypedDecl::Fun(f) => match f.body {
            FunBody::Native(key) => {
                let v = crate::values::plain(ValueHead::Callable(native_callable(key)));
                match f.symbol_id {
                    Some(id) => RuntimeModel {
                        symbol_values: rt.symbol_values.insert(id, v),
                        ..rt
                    },
                    None => RuntimeModel {
                        modules: rt.modules.insert(
                            seq!["std"@, "core"@],
                            crate::table::map_at(rt.modules, seq!["std"@, "core"@]).insert(
                                f.name@,
                                v,
                            ),
                        ),
                        ..rt
                    },
                }
            },
            _ => rt,
        },
        TypedDecl::Impl(b) => match b.target_type {
            TypeExpr::Named(named, _) => match core_type(named@) {
                Some(id) => core_methods_registered(*b, named@, id, 0, rt),
                None => rt,
            },
            _ => rt,
        },
        _ => rt,
    }
}

/// What is known after declarations of the core library, from `i` on, have been
/// registered.
pub open spec fn core_all_registered(ds: Seq<TypedDecl>, i: int, rt: RuntimeModel) -> RuntimeModel
    decreases ds.len() - i,
{
    if i < 0 || i >= ds.len() {
        rt
    } else {
        core_all_registered(ds, i + 1, core_registered(ds[i], rt))
    }
}

/// Registers the host functions that the core library declares: overloaded ones
/// under their identities, the others under their names, and methods with the
/// types that they belong to.
pub fn register_core_natives_from_embedded(core: &Vec<TypedDecl>, runtime: &mut RuntimeRegistry)
    ensures
        final(runtime)@ == core_all_registered(core@, 0, old(runtime)@),
{
    let mut i: usize = 0;
    while i < core.len()
        invariant
            i <= core.len(),
            core_all_registered(core@, 0, old(runtime)@) == core_all_registered(
                core@,
                i as int,
                runtime@,
            ),
        decreases core.len() - i,
    {
        match &core[i] {
            TypedDecl::Fun(f) => match &f.body {
                FunBody::Native(key) => {
                    let v = Value::Callable(native_host_impl(*key));
                    match f.symbol_id {
                        Some(id) => {
                            runtime.register_symbol_value(id, v);
                        },
                        None => {
                            runtime.register_std_core_value(f.name.as_str(), v);
                        },
                    }
                },
                _ => {},
            },
            TypedDecl::Impl(b) => match &b.target_type {
                TypeExpr::Named(named, _) => match builtin_type_id(named) {
                    Some(id) => {
                        register_core_methods(runtime, b, named, id);
                    },
                    None => {},
                },
                _ => {},
            },
            _ => {},
        }
        i += 1;
    }
}

/// The method that gives the length of an array.
pub open spec fn array_len_method() -> MethodModel {
    MethodModel {
        label: "Array::len"@,
        receiver: Some(ReceiverKind::Value),
        signature: SignatureModel { params: Seq::empty(), ret: Some("i64"@) },
        body: CallableModel::Intrinsic("Array::len"@, NativeFn::ArrayLen),
    }
}

/// What is known after a method of arrays has been registered.
pub open spec fn array_method_entered(
    rt: RuntimeModel,
    name: Seq<char>,
    m: MethodModel,
) -> RuntimeModel {
    RuntimeModel {
        pattern_methods: rt.pattern_methods.insert(
            PatternModel::Array,
            crate::table::map_at(rt.pattern_methods, PatternModel::Array).insert(name, m),
        ),
        ..rt
    }
}

/// Registers the host functions of the core library, and the length of arrays.
pub fn register_builtins(core: &Vec<TypedDecl>, runtime: &mut RuntimeRegistry)
    ensures
        final(runtime)@ == array_method_entered(
            core_all_registered(core@, 0, old(runtime)@),
            "len"@,
            array_len_method(),
        ),
{
    register_core_natives_from_embedded(core, runtime);
    let params: Vec<RuntimeTypeRef> = Vec::new();
    let m = RuntimeMethod {
        label: "Array::len".to_owned(),
        receiver: Some(ReceiverKind::Value),
        signature: RuntimeSignature {
            params,
            ret: Some(RuntimeTypeRef::Named("i64".to_owned())),
        },
        body: RuntimeCallable::Intrinsic {
            label: "Array::len".to_owned(),
            fun: NativeFn::ArrayLen,
        },
    };
    proof {
        assert(m.deep_view().signature.params =~= Seq::empty());
    }
    runtime.register_pattern_method(RuntimeTypePattern::Array, "len", m);
}

/// What every program can use.
pub open spec fn builtin_runtime(core: Seq<TypedDecl>) -> RuntimeModel {
    array_method_entered(
        core_all_registered(core, 0, crate::runtime::empty_runtime()),
        "len"@,
        array_len_method(),
    )
}

/// A registry of what every program can use.
pub fn runtime_registry(core: &Vec<TypedDecl>) -> (r: RuntimeRegistry)
    ensures
        r@ == builtin_runtime(core@),
{
    let mut runtime = RuntimeRegistry::new();
    register_builtins(core, &mut runtime);
    runtime
}

} // verus!
