//! What is known of functions, their parameters and their bodies.

use crate::ast::{AstBoundModel, BoundHeadModel};
use crate::bounds::BoundModel;
use crate::environment::StopModel;
use crate::error::ErrorModel;
use crate::host::{GenericCallModel, ReplyModel, TaskModel};
use crate::machine::World;
use crate::native_keys::{NativeFn, NativeKey};
use crate::natives::NativeModel;
use crate::registry::RegistryModel;
use crate::runtime::RuntimeModel;
use crate::semantics::{BodyModel, TypedBody, TypingModel};
use crate::store::{ClosureCode, StoreModel};
use crate::typed_ast::{FunBody, Param, TypedBlock, TypedDecl, TypedFunDecl};
use crate::types::Type;
use crate::values::{CallableModel, ValueHead, ValueTerm};
use vstd::prelude::*;
use vstd::string::*;

verus! {

/// A closure is copied with its value exactly if its type says that it can be used again, and it
/// changes its own state exactly if its calls do. A declared function does neither.
pub proof fn closures_are_what_their_types_say(code: ClosureCode)
    ensures
        code is Fun ==> !crate::store::copied_on_use(code) && !crate::store::mutating(code),
        code is Closure ==> {
            let c = *code->Closure_0;
            &&& crate::store::mutating(code) <==> c.call_mutation is Mutating
            &&& c.ty is None ==> !crate::store::copied_on_use(code)
            &&& c.ty matches Some(Type::Fun(_, _, _, uses, _)) ==> (crate::store::copied_on_use(code)
                <==> uses is Copy)
        },
{
}

/// The receiver of a function is its first parameter, where that is one, and no part of its
/// signature; a parameter without a type stands in it as `_`.
pub proof fn signatures_leave_out_the_receiver(ps: Seq<Param>, p: Param)
    ensures
        ({
            let all = ps.push(p);
            let before = crate::runtime_types::param_types(ps);
            let after = crate::runtime_types::param_types(all);
            &&& p.receiver is Some ==> after == before
            &&& p.receiver is None && p.type_ann is Some ==> after == before.push(
                p.type_ann->Some_0.deep_view(),
            )
            &&& p.receiver is None && p.type_ann is None ==> after.len() == before.len() + 1
                && crate::runtime_types::key_text(after[before.len() as int]) == "_"@
            &&& crate::runtime_types::param_types(Seq::empty()).len() == 0
            &&& crate::runtime_types::receiver_of(Seq::empty()) is None
            &&& crate::runtime_types::receiver_of(seq![p] + ps) == p.receiver
        }),
{
    let all = ps.push(p);
    assert(all.drop_last() =~= ps);
    assert(all.last() == p);
    let t = crate::runtime_types::param_type(p);
    if p.receiver is None && p.type_ann is None {
        assert(t.args.len() == 0);
        assert(crate::runtime_types::key_part_texts(t).len() == 0);
        assert(crate::runtime_types::key_text(t) == crate::runtime_types::key_frame(
            t.head,
            crate::runtime_types::key_part_texts(t),
        ));
    }
    assert((seq![p] + ps)[0] == p);
}

/// A body whose types are known is run as it is. A generic one is typed when it is called: the host
/// is given the function's name, its module's types, and the arguments as they are. A function
/// without a name, or without types of a module, cannot be.
pub proof fn generic_bodies_are_typed_when_called(
    code: ClosureCode,
    t: TypingModel,
    w: World,
    b: TypedBlock,
    e: ErrorModel,
)
    ensures
        ({
            let r = crate::semantics::body_typed(code, t, w);
            let body = crate::semantics::code_body(code);
            let name = crate::semantics::code_label(code);
            let ctx = crate::semantics::code_ctx(code);
            &&& body == BodyModel::Typed(b) ==> r == (TypedBody::Block(b), w)
            &&& body matches BodyModel::Generic(g) ==> {
                let task = TaskModel::Construct(
                    GenericCallModel {
                        body: g,
                        ctx: ctx->Some_0,
                        name: name->Some_0,
                        receiver: t.receiver,
                        args: t.args,
                        static_receiver: t.static_receiver,
                        static_args: t.static_args,
                        expected: t.expected,
                        span: t.span,
                    },
                );
                let (u, reply) = crate::machine::asked(w, task);
                let told = |a: Option<Result<TypedBlock, ErrorModel>>|
                    name is Some && ctx is Some && reply == Some(ReplyModel::Body(a));
                &&& name is None || ctx is None ==> r.0 is Fails && r.1 == w
                &&& name is Some && ctx is Some ==> r.1 == u
                &&& told(Some(Ok(b))) ==> r.0 == TypedBody::Block(b)
                &&& told(Some(Err(e))) ==> r.0 == TypedBody::Ends(StopModel::Error(e))
                &&& told(None) ==> r.0 is Fails
            }
        }),
{
}

/// A host function of the core library is known everywhere by its name, or by its identity where it
/// has one.
pub proof fn core_functions_are_known_everywhere(
    f: std::rc::Rc<TypedFunDecl>,
    key: NativeKey,
    rt: RuntimeModel,
)
    requires
        f.body == FunBody::Native(key),
    ensures
        ({
            let r = crate::builtins::core_registered(TypedDecl::Fun(f), rt);
            let v = ValueTerm {
                head: ValueHead::Callable(
                    CallableModel::Intrinsic(
                        crate::native_keys::native_label(key),
                        NativeFn::Key(key),
                    ),
                ),
                args: Seq::empty(),
            };
            &&& f.symbol_id is None ==> crate::runtime::core_value(r, f.name@) == Some(v)
            &&& f.symbol_id matches Some(id) ==> r.symbol_values == rt.symbol_values.insert(id, v)
                && r.modules == rt.modules
            &&& r.types == rt.types
        }),
{
}

/// Declarations of the core library are registered one after the other.
pub proof fn core_declarations_are_registered_in_order(
    ds: Seq<TypedDecl>,
    i: int,
    rt: RuntimeModel,
)
    requires
        0 <= i <= ds.len(),
    ensures
        i == ds.len() ==> crate::builtins::core_all_registered(ds, i, rt) == rt,
        i < ds.len() ==> crate::builtins::core_all_registered(ds, i, rt)
            == crate::builtins::core_all_registered(
            ds,
            i + 1,
            crate::builtins::core_registered(ds[i], rt),
        ),
{
}

/// A bound demands an aspect where it names one and is not negative.
pub proof fn positive_bounds_demand_aspects(bounds: Seq<AstBoundModel>, b: AstBoundModel)
    ensures
        ({
            let all = bounds.push(b);
            let before = crate::context_state::demanded(bounds, bounds.len());
            let after = crate::context_state::demanded(all, all.len());
            let named = crate::ast::bound_aspect(b);
            &&& named is Some && b.polarity is Positive ==> after == before.push(named->Some_0)
            &&& named is None || b.polarity is Negative ==> after == before
        }),
        ({
            let named = crate::ast::bound_aspect(b);
            &&& b.head is Row ==> named is None
            &&& b.head matches BoundHeadModel::Aspect(t) ==> (t.head matches
                crate::type_expr::ExprHead::Named(name) ==> named == Some(name))
            &&& crate::bounds::bound_of(b) == match b.head {
                BoundHeadModel::Row(row) => Some(BoundModel::Row(row)),
                BoundHeadModel::Aspect(_) => match named {
                    Some(name) => Some(BoundModel::Aspect(name)),
                    None => None,
                },
            }
        }),
{
    lemma_demanded(bounds, b, bounds.len());
}

proof fn lemma_demanded(bounds: Seq<AstBoundModel>, b: AstBoundModel, k: nat)
    requires
        k <= bounds.len(),
    ensures
        crate::context_state::demanded(bounds.push(b), k) == crate::context_state::demanded(
            bounds,
            k,
        ),
    decreases k,
{
    if k > 0 {
        lemma_demanded(bounds, b, (k - 1) as nat);
        assert(bounds.push(b)[k - 1] == bounds[k - 1]);
    }
}

/// Whether a call ends at once with an error inside the program, and changes nothing.
pub open spec fn refused(r: NativeModel) -> bool {
    &&& r is Done
    &&& r->Done_0 is Err
    &&& r->Done_0->Err_0 is Error
    &&& r->Done_0->Err_0->Error_0 is Internal
}

/// A function on texts refuses anything else as its first argument, and one on lists too.
pub proof fn wrong_arguments_are_refused(
    s: StoreModel,
    key: NativeKey,
    v: ValueTerm,
    span: crate::ast::SpanModel,
    n: nat,
)
    ensures
        ({
            let r = crate::text_laws::call(s, key, seq![v], span, n);
            let on_texts = key == NativeKey::StdCoreStringLen || key
                == NativeKey::StdCoreStringIsEmpty || key == NativeKey::StdCoreStringTrim || key
                == NativeKey::StdCoreStringContains || key == NativeKey::StdCoreStringStartsWith
                || key == NativeKey::StdCoreStringEndsWith || key
                == NativeKey::StdCoreStringIndexOf || key == NativeKey::StdCoreStringSplit || key
                == NativeKey::StdCoreStringReplace || key == NativeKey::StdCoreStringRepeat || key
                == NativeKey::StdCoreStringChars || key == NativeKey::StdCoreStringCharAt || key
                == NativeKey::StdCoreStringSubstring || key == NativeKey::StdCorePanic || key
                == NativeKey::StdEnvVar || key == NativeKey::StdFsReadToString || key
                == NativeKey::StdFsExists || key == NativeKey::StdFsRemoveFile;
            let on_lists = key == NativeKey::StdCoreListPush || key == NativeKey::StdCoreListPop
                || key == NativeKey::StdCoreListLen || key == NativeKey::StdCoreListGet || key
                == NativeKey::StdCoreListSet || key == NativeKey::StdCoreListAsSlice;
            let on_truths = key == NativeKey::StdCoreAssert || key == NativeKey::StdCoreAssertMsg;
            &&& on_texts && !(v.head is Str) ==> refused(r)
            &&& on_lists && !(v.head is Struct) ==> refused(r)
            &&& on_truths && !(v.head is Boolean) ==> refused(r)
        }),
{
}

/// A name behind `root`, `self` or `super` means the import of that name, whatever it is called
/// here, and otherwise what the name means on its own.
pub proof fn names_behind_keywords_stand_for_themselves(
    reg: RegistryModel,
    module: Seq<Seq<char>>,
    prefix: Seq<char>,
    short: Seq<char>,
)
    requires
        prefix == "root"@ || prefix == "self"@ || prefix == "super"@,
        crate::resolving_laws::simple(short),
        !reg.symbols.dom().contains((module, prefix + "::"@ + short)),
        reg.scopes.dom().contains(module),
        reg.scopes[module].globs.len() == 0,
        reg.scopes[module].explicit.len() <= 1,
        reg.scopes[module].explicit.len() == 1 ==> reg.scopes[module].explicit[0].0 != prefix
            + "::"@ + short,
    ensures
        ({
            let imports = reg.scopes[module].explicit;
            let meant = crate::resolve::resolved(reg, module, prefix + "::"@ + short);
            &&& imports.len() == 1 && imports[0].1.source_name == short ==> meant == Some(
                imports[0].1.symbol_id,
            )
            &&& imports.len() == 1 && imports[0].1.source_name != short ==> meant
                == crate::resolve::resolved(reg, module, short)
            &&& imports.len() == 0 ==> meant == crate::resolve::resolved(reg, module, short)
        }),
{
    reveal_strlit("root");
    reveal_strlit("self");
    reveal_strlit("super");
    reveal_strlit("::");
    let name = prefix + "::"@ + short;
    assert(crate::resolving_laws::simple(prefix));
    crate::resolving_laws::lemma_split(prefix, short);
    assert(seq![prefix][0] == prefix);
    assert(short.len() < name.len());
    let imports = reg.scopes[module].explicit;
    reveal_with_fuel(crate::resolve::import_named, 2);
    reveal_with_fuel(crate::resolve::import_of, 2);
    assert(crate::resolve::resolved(reg, module, name) == match crate::resolve::import_of(
        imports,
        short,
        0,
    ) {
        Some(b) => Some(b.symbol_id),
        None => crate::resolve::resolved(reg, module, short),
    });
}

} // verus!
