//! What a running program finds under the names of its types, methods and modules.

use crate::runtime::{AspectImplModel, RuntimeModel, WantedModel};
use crate::runtime_types::{MethodModel, PatternModel};
use crate::symbols::SymbolId;
use crate::values::{FloatKind, IntKind, ValueHead, ValueTerm};
use vstd::prelude::*;
use vstd::string::*;

verus! {

/// Whether an implementation has a method of the kind that is asked for.
pub open spec fn suits(
    imp: AspectImplModel,
    wanted: WantedModel,
    name: Seq<char>,
    m: MethodModel,
) -> bool {
    &&& imp.methods.dom().contains(name)
    &&& imp.methods[name] == m
    &&& match wanted {
        WantedModel::OfAspect(id) => imp.aspect_id == Some(id) && m.receiver is Some,
        WantedModel::WithReceiver => m.receiver is Some,
        WantedModel::WithoutReceiver => m.receiver is None,
        WantedModel::ConversionFrom(source) => imp.aspect_name == "From"@ && imp.type_args
            == seq![source],
    }
}

/// The implementation that was registered last decides, where it has what is asked for;
/// otherwise those before it do.
pub proof fn later_implementations_win(
    impls: Seq<AspectImplModel>,
    last: AspectImplModel,
    wanted: WantedModel,
    name: Seq<char>,
    m: MethodModel,
)
    ensures
        crate::runtime::from_impls(Seq::empty(), wanted, name) is None,
        suits(last, wanted, name, m) ==> crate::runtime::from_impls(impls.push(last), wanted, name)
            == Some(m),
        (forall|other: MethodModel| !suits(last, wanted, name, other))
            ==> crate::runtime::from_impls(impls.push(last), wanted, name)
            == crate::runtime::from_impls(impls, wanted, name),
{
    let all = impls.push(last);
    assert(all[all.len() - 1] == last);
    if forall|other: MethodModel| !suits(last, wanted, name, other) {
        if last.methods.dom().contains(name) {
            let other = last.methods[name];
            assert(!suits(last, wanted, name, other));
        }
        lemma_front(impls, last, wanted, name, impls.len() as int);
    }
}

proof fn lemma_front(
    impls: Seq<AspectImplModel>,
    last: AspectImplModel,
    wanted: WantedModel,
    name: Seq<char>,
    n: int,
)
    requires
        0 <= n <= impls.len(),
    ensures
        crate::runtime::latest_offered(impls.push(last), wanted, name, n)
            == crate::runtime::latest_offered(impls, wanted, name, n),
    decreases n,
{
    if n > 0 {
        assert(impls.push(last)[n - 1] == impls[n - 1]);
        lemma_front(impls, last, wanted, name, n - 1);
    }
}

/// Values of structs and enums carry the identity of their type. Other values with a named type
/// have the one that the name stands for.
pub proof fn values_have_the_type_of_their_name(rt: RuntimeModel, v: ValueTerm)
    ensures
        ({
            let id = crate::runtime::type_id_of(rt, v);
            let of = |name: Seq<char>|
                if rt.type_ids.dom().contains(name) {
                    Some(rt.type_ids[name])
                } else {
                    None::<SymbolId>
                };
            match v.head {
                ValueHead::Struct(name, Some(own), _) => id == Some(own),
                ValueHead::Enum(name, Some(own), _, _, _) => id == Some(own),
                ValueHead::Struct(name, None, _) => id == of(name),
                ValueHead::Enum(name, None, _, _, _) => id == of(name),
                ValueHead::Dyn(_, own, _, _, _) => id == Some(own),
                ValueHead::Int(IntKind::I8, _) => id == of("i8"@),
                ValueHead::Int(IntKind::I16, _) => id == of("i16"@),
                ValueHead::Int(IntKind::I32, _) => id == of("i32"@),
                ValueHead::Int(IntKind::I64, _) => id == of("i64"@),
                ValueHead::Int(IntKind::U8, _) => id == of("u8"@),
                ValueHead::Int(IntKind::U16, _) => id == of("u16"@),
                ValueHead::Int(IntKind::U32, _) => id == of("u32"@),
                ValueHead::Int(IntKind::U64, _) => id == of("u64"@),
                ValueHead::Float(FloatKind::F32, _) => id == of("f32"@),
                ValueHead::Float(FloatKind::F64, _) => id == of("f64"@),
                ValueHead::Char(_) => id == of("Char"@),
                ValueHead::Boolean(_) => id == of("boolean"@),
                ValueHead::Str(_) => id == of("String"@),
                _ => id is None,
            }
        }),
{
}

/// Whether a type has a method of its own under a name, with a receiver.
pub open spec fn has_own(
    rt: RuntimeModel,
    id: SymbolId,
    name: Seq<char>,
    m: MethodModel,
) -> bool {
    &&& rt.types.dom().contains(id)
    &&& rt.types[id].methods.dom().contains(name)
    &&& rt.types[id].methods[name] == m
    &&& m.receiver is Some
}

/// A value's method is one of its type: the type's own before one that an aspect gives. Only
/// where its type has none, the shape of the value decides.
pub proof fn methods_of_the_type_come_first(
    rt: RuntimeModel,
    v: ValueTerm,
    id: SymbolId,
    name: Seq<char>,
    m: MethodModel,
)
    requires
        crate::runtime::type_id_of(rt, v) == Some(id),
        rt.types.dom().contains(id),
    ensures
        ({
            let found = crate::runtime::method_of(rt, v, name);
            let by_aspect = crate::runtime::from_impls(
                rt.types[id].impls,
                WantedModel::WithReceiver,
                name,
            );
            let none_own = forall|other: MethodModel| !has_own(rt, id, name, other);
            &&& has_own(rt, id, name, m) ==> found == Some(m)
            &&& none_own && by_aspect is Some ==> found == by_aspect
            &&& none_own && by_aspect is None ==> found == crate::runtime::method_by_pattern(
                rt,
                v,
                name,
            )
        }),
{
    if rt.types[id].methods.dom().contains(name) {
        assert(has_own(rt, id, name, rt.types[id].methods[name]) || rt.types[id].methods[name]
            .receiver is None);
    }
}

/// The shape of a value is that of texts, of arrays, or of one primitive type.
pub proof fn shapes_are_told_apart(rt: RuntimeModel, v: ValueTerm, name: Seq<char>, m: MethodModel)
    ensures
        ({
            let found = crate::runtime::method_by_pattern(rt, v, name);
            let pattern = match v.head {
                ValueHead::Str(_) => PatternModel::Str,
                ValueHead::Array(_) => PatternModel::Array,
                ValueHead::Char(_) => PatternModel::Primitive("Char"@),
                ValueHead::Boolean(_) => PatternModel::Primitive("boolean"@),
                ValueHead::Int(IntKind::I64, _) => PatternModel::Primitive("i64"@),
                ValueHead::Int(IntKind::U64, _) => PatternModel::Primitive("u64"@),
                ValueHead::Int(kind, _) => PatternModel::Primitive(
                    crate::runtime_types::int_kind_name(kind),
                ),
                ValueHead::Float(FloatKind::F32, _) => PatternModel::Primitive("f32"@),
                _ => PatternModel::Primitive("f64"@),
            };
            let methods = rt.pattern_methods[pattern];
            let shaped = v.head is Str || v.head is Array || v.head is Char || v.head is Boolean
                || v.head is Int || v.head is Float;
            &&& !shaped ==> found is None
            &&& shaped && rt.pattern_methods.dom().contains(pattern) && methods.dom().contains(name)
                && methods[name] == m && m.receiver is Some ==> found == Some(m)
        }),
{
}

/// A function that belongs to a type is found under its name: a value of the type before what
/// aspects give it. Methods with a receiver are none.
pub proof fn functions_belong_to_their_type(
    rt: RuntimeModel,
    named: Seq<char>,
    id: SymbolId,
    name: Seq<char>,
)
    requires
        rt.type_ids.dom().contains(named),
        rt.type_ids[named] == id,
        rt.types.dom().contains(id),
    ensures
        ({
            let found = crate::runtime::type_value(rt, named, name);
            let values = rt.types[id].values;
            let by_aspect = crate::runtime::from_impls(
                rt.types[id].impls,
                WantedModel::WithoutReceiver,
                name,
            );
            let function = |m: MethodModel|
                Some(ValueTerm { head: ValueHead::Callable(m.body), args: Seq::empty() });
            &&& values.dom().contains(name) ==> found == function(values[name])
            &&& !values.dom().contains(name) && by_aspect is Some ==> found == function(
                by_aspect->Some_0,
            )
            &&& !values.dom().contains(name) && by_aspect is None ==> found is None
            &&& crate::runtime::path_value(rt, seq![named, name]) == found
        }),
{
}

/// A conversion comes from the implementation of `From` for exactly the type that is converted,
/// and otherwise from the function `from` of the target type.
pub proof fn conversions_are_those_from_the_source(
    rt: RuntimeModel,
    target: Seq<char>,
    id: SymbolId,
    source: Seq<char>,
)
    requires
        rt.type_ids.dom().contains(target),
        rt.type_ids[target] == id,
        rt.types.dom().contains(id),
    ensures
        ({
            let found = crate::runtime::conversion(rt, target, source);
            let by_aspect = crate::runtime::from_impls(
                rt.types[id].impls,
                WantedModel::ConversionFrom(source),
                "from"@,
            );
            let values = rt.types[id].values;
            let methods = rt.types[id].methods;
            &&& by_aspect is Some ==> found == by_aspect
            &&& by_aspect is None && values.dom().contains("from"@) ==> found == Some(
                values["from"@],
            )
            &&& by_aspect is None && !values.dom().contains("from"@) && methods.dom().contains(
                "from"@,
            ) && methods["from"@].receiver is None ==> found == Some(methods["from"@])
            &&& by_aspect is None && !values.dom().contains("from"@) && !methods.dom().contains(
                "from"@,
            ) ==> found is None
        }),
        !rt.type_ids.dom().contains(source) ==> crate::runtime::conversion(rt, source, target)
            is None,
{
}

/// A longer path names a module by its first two segments, and what that exports by the rest. A
/// name that is known everywhere is one that `std::core` exports.
pub proof fn paths_begin_with_their_module(
    rt: RuntimeModel,
    a: Seq<char>,
    b: Seq<char>,
    name: Seq<char>,
)
    ensures
        ({
            let module = seq![a, b];
            let exports = rt.modules[module];
            let found = crate::runtime::path_value(rt, seq![a, b, name]);
            rt.modules.dom().contains(module) && exports.dom().contains(name) ==> found == Some(
                exports[name],
            )
        }),
        ({
            let core = seq!["std"@, "core"@];
            let found = crate::runtime::core_value(rt, name);
            &&& rt.modules.dom().contains(core) && rt.modules[core].dom().contains(name) ==> found
                == Some(rt.modules[core][name])
            &&& !rt.modules.dom().contains(core) ==> found is None
        }),
        crate::runtime::path_value(rt, seq![name]) is None,
{
    let path = seq![a, b, name];
    assert(path.take(2) =~= seq![a, b]);
    assert(path.skip(2) =~= seq![name]);
    assert(seq![name][0] == name);
    assert(crate::text::joined(seq![name], "::"@) == name);
}

} // verus!
