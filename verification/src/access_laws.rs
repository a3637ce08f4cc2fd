//! How values are reached, converted and handed to methods.

use crate::ast::SpanModel;
use crate::environment::StopModel;
use crate::error::{ErrorModel, FrameModel, RuntimeErrorCode};
use crate::machine::World;
use crate::native_keys::NativeFn;
use crate::natives::NativeModel;
use crate::runtime::RuntimeModel;
use crate::semantics::{Out, ReceiverModel, SignalModel};
use crate::store::{EnvModel, StoreModel};
use crate::symbols::SymbolId;
use crate::term::Term;
use crate::typed_ast::{TypedDecl, TypedExpr, TypedFunDecl, UnaryOp};
use crate::values::{CallableModel, CellId, ClosureId, ValueHead, ValueTerm};
use vstd::prelude::*;
use vstd::string::*;

verus! {

/// What running an expression comes to.
pub open spec fn run(e: TypedExpr, env: EnvModel, rt: RuntimeModel, w: World, n: nat) -> Out {
    crate::semantics::expr_run(e, env, rt, w, n)
}

/// What is left where a value has been found, or a reason why not.
pub open spec fn found(r: Result<ValueTerm, StopModel>, o: Out) -> Out {
    Out {
        r: match r {
            Ok(v) => Ok(SignalModel::Value(v)),
            Err(e) => Err(e),
        },
        env: o.env,
        w: o.w,
    }
}

/// A literal is its value, and changes nothing.
pub proof fn literals_are_their_value(
    e: TypedExpr,
    env: EnvModel,
    rt: RuntimeModel,
    w: World,
    n: nat,
)
    requires
        e is Literal,
        n > 0,
    ensures
        run(e, env, rt, w, n) == crate::control_laws::done(
            crate::literals::literal_term(e->Literal_0, e->Literal_1),
            env,
            w,
        ),
{
}

/// A name is what it is bound to, and nothing else happens. A name that is bound to nothing ends
/// the program.
pub proof fn names_are_what_they_are_bound_to(
    e: TypedExpr,
    env: EnvModel,
    rt: RuntimeModel,
    w: World,
    n: nat,
)
    requires
        e is Ident,
        n > 0,
    ensures
        ({
            let name = e->Ident_0@;
            let o = run(e, env, rt, w, n);
            match crate::semantics::identified(name, e->Ident_1, env, rt, w.store) {
                Some(v) => o == crate::control_laws::done(v, env, w),
                None => o == (Out {
                    r: Err(
                        StopModel::Error(
                            ErrorModel::Runtime(
                                RuntimeErrorCode::R0003,
                                "undefined variable `"@ + name + "`"@,
                                e->Ident_3.deep_view(),
                                Seq::empty(),
                            ),
                        ),
                    ),
                    env,
                    w,
                }),
            }
        }),
{
}

/// The parts of a value are reached through the references that lead to it: first the value is
/// run, then references are followed, and then the part is taken.
pub proof fn parts_are_reached_through_references(
    e: TypedExpr,
    env: EnvModel,
    rt: RuntimeModel,
    w: World,
    n: nat,
)
    requires
        n > 0,
    ensures
        ({
            let k = (n - 1) as nat;
            let out = run(e, env, rt, w, n);
            &&& e matches TypedExpr::FieldAccess { object, field, ty, span } ==> {
                let o = run(*object, env, rt, w, k);
                let x = crate::reach::peeled(
                    o.w.store,
                    crate::control_laws::value(o),
                    span.deep_view(),
                    k,
                );
                &&& !crate::control_laws::has_value(o) ==> out == o
                &&& crate::control_laws::has_value(o) && x is Ok ==> out == found(
                    crate::semantics::field_part(x->Ok_0, field@, span.deep_view()),
                    o,
                )
                &&& crate::control_laws::has_value(o) && x is Err ==> out == found(x, o)
            }
            &&& e matches TypedExpr::TupleAccess { object, index, ty, span } ==> {
                let o = run(*object, env, rt, w, k);
                let x = crate::reach::peeled(
                    o.w.store,
                    crate::control_laws::value(o),
                    span.deep_view(),
                    k,
                );
                &&& !crate::control_laws::has_value(o) ==> out == o
                &&& crate::control_laws::has_value(o) && x is Ok ==> out == found(
                    crate::semantics::tuple_part(x->Ok_0, index, span.deep_view()),
                    o,
                )
                &&& crate::control_laws::has_value(o) && x is Err ==> out == found(x, o)
            }
            &&& e matches TypedExpr::Index { object, index, ty, span } ==> {
                let o = run(*object, env, rt, w, k);
                let x = crate::reach::peeled(
                    o.w.store,
                    crate::control_laws::value(o),
                    span.deep_view(),
                    k,
                );
                let i = run(*index, o.env, rt, o.w, k);
                &&& !crate::control_laws::has_value(o) ==> out == o
                &&& crate::control_laws::has_value(o) && x is Err ==> out == found(x, o)
                &&& crate::control_laws::has_value(o) && x is Ok
                    && !crate::control_laws::has_value(i) ==> out == i
                &&& crate::control_laws::has_value(o) && x is Ok && crate::control_laws::has_value(
                    i,
                ) ==> out == found(
                    crate::semantics::array_part(
                        i.w.store,
                        x->Ok_0,
                        crate::control_laws::value(i),
                        span.deep_view(),
                    ),
                    i,
                )
            }
        }),
{
    match e {
        TypedExpr::FieldAccess { object, field, ty, span } => {
            assert(run(e, env, rt, w, n) == crate::semantics::field_run(
                *object,
                field@,
                span.deep_view(),
                env,
                rt,
                w,
                (n - 1) as nat,
            ));
        },
        TypedExpr::TupleAccess { object, index, ty, span } => {
            assert(run(e, env, rt, w, n) == crate::semantics::tuple_access_run(
                *object,
                index,
                span.deep_view(),
                env,
                rt,
                w,
                (n - 1) as nat,
            ));
        },
        TypedExpr::Index { object, index, ty, span } => {
            assert(run(e, env, rt, w, n) == crate::semantics::index_run(
                *object,
                *index,
                span.deep_view(),
                env,
                rt,
                w,
                (n - 1) as nat,
            ));
        },
        _ => {},
    }
}

/// A value that is no reference is reached as it is; a reference to a variable leads to what the
/// variable holds, and on from there.
pub proof fn references_are_followed(
    s: StoreModel,
    c: CellId,
    v: ValueTerm,
    span: SpanModel,
    n: nat,
)
    requires
        c.0 < s.cells.len(),
        s.cells[c.0 as int] == v,
        v.head is Int || v.head is Str || v.head is Tuple || v.head is Struct || v.head is Enum
            || v.head is Record || v.head is Array || v.head is Boolean || v.head is Unit
            || v.head is Callable || v.head is Char || v.head is Float,
    ensures
        crate::reach::peeled(s, v, span, n) == Ok::<ValueTerm, StopModel>(v),
        ({
            let shared = ValueTerm { head: ValueHead::Reference(c), args: Seq::empty() };
            let exclusive = ValueTerm { head: ValueHead::MutReference(c), args: Seq::empty() };
            &&& crate::reach::peeled(s, shared, span, n + 1) == Ok::<ValueTerm, StopModel>(v)
            &&& crate::reach::peeled(s, exclusive, span, n + 1) == Ok::<ValueTerm, StopModel>(v)
        }),
{
    assert(crate::reach::path_read(s, v, Seq::empty(), span, n) == Ok::<ValueTerm, StopModel>(v));
    assert(crate::reach::peeled(s, v, span, n) == Ok::<ValueTerm, StopModel>(v));
}

/// A unary operator runs its operand and applies to its value. A reference to a name leads to the
/// variable itself.
pub proof fn operands_run_before_their_operator(
    e: TypedExpr,
    env: EnvModel,
    rt: RuntimeModel,
    w: World,
    n: nat,
)
    requires
        e is UnaryOp,
        n > 0,
    ensures
        ({
            let k = (n - 1) as nat;
            let op = e->UnaryOp_0;
            let out = run(e, env, rt, w, n);
            let o = run(*e->UnaryOp_1, env, rt, w, k);
            let named = *e->UnaryOp_1;
            let mutable = op is RefMut;
            &&& op is Neg || op is Not || op is Deref ==> {
                &&& !crate::control_laws::has_value(o) ==> out == o
                &&& crate::control_laws::has_value(o) ==> out == found(
                    crate::semantics::unary_result(
                        op,
                        crate::control_laws::value(o),
                        e->UnaryOp_3.deep_view(),
                        o.w.store,
                        k,
                    ),
                    o,
                )
            }
            &&& (op is Ref || op is RefMut) && named is Ident
                ==> match crate::semantics::identified_cell(
                named->Ident_0@,
                named->Ident_1,
                env,
                rt,
            ) {
                Some(c) => out == crate::control_laws::done(
                    ValueTerm {
                        head: if mutable {
                            ValueHead::MutReference(c)
                        } else {
                            ValueHead::Reference(c)
                        },
                        args: Seq::empty(),
                    },
                    env,
                    w,
                ),
                None => out.r is Err,
            }
        }),
{
    assert(run(e, env, rt, w, n) == crate::semantics::unary_run(
        e->UnaryOp_0,
        *e->UnaryOp_1,
        e->UnaryOp_3.deep_view(),
        env,
        rt,
        w,
        (n - 1) as nat,
    ));
    assert(e->UnaryOp_0 is Ref || e->UnaryOp_0 is RefMut ==> run(e, env, rt, w, n)
        == crate::semantics::reference_run(
        e->UnaryOp_0 is RefMut,
        *e->UnaryOp_1,
        e->UnaryOp_3.deep_view(),
        env,
        rt,
        w,
        (n - 1) as nat,
    ));
}

/// A reference to a value without a place gives it a new one.
pub proof fn passing_values_get_a_place(
    e: TypedExpr,
    env: EnvModel,
    rt: RuntimeModel,
    w: World,
    n: nat,
)
    requires
        e is RefTemp,
        n > 0,
    ensures
        ({
            let o = run(*e->RefTemp_init, env, rt, w, (n - 1) as nat);
            let out = run(e, env, rt, w, n);
            let own = CellId(o.w.store.cells.len() as usize);
            &&& !crate::control_laws::has_value(o) ==> out == o
            &&& crate::control_laws::has_value(o) ==> out == crate::control_laws::done(
                ValueTerm {
                    head: if e->RefTemp_mutable {
                        ValueHead::MutReference(own)
                    } else {
                        ValueHead::Reference(own)
                    },
                    args: Seq::empty(),
                },
                o.env,
                World {
                    store: StoreModel {
                        cells: o.w.store.cells.push(crate::control_laws::value(o)),
                        ..o.w.store
                    },
                    ..o.w
                },
            )
        }),
{
    assert(run(e, env, rt, w, n) == crate::semantics::ref_temp_run(
        *e->RefTemp_init,
        e->RefTemp_mutable,
        env,
        rt,
        w,
        (n - 1) as nat,
    ));
}

/// A cast calls the conversion of its type from that of the value, where there is one, with the
/// value as its only argument. Without one the value stays as it is.
pub proof fn casts_call_conversions(
    e: TypedExpr,
    env: EnvModel,
    rt: RuntimeModel,
    w: World,
    n: nat,
)
    requires
        e is Cast,
        n > 0,
    ensures
        ({
            let k = (n - 1) as nat;
            let o = run(*e->Cast_expr, env, rt, w, k);
            let out = run(e, env, rt, w, n);
            let v = crate::control_laws::value(o);
            &&& !crate::control_laws::has_value(o) ==> out == o
            &&& crate::control_laws::has_value(o) ==> match crate::semantics::cast_conversion(
                e->Cast_target_type,
                v,
                rt,
            ) {
                None => out == o,
                Some(f) => {
                    let c = crate::semantics::value_called(
                        ValueTerm { head: ValueHead::Callable(f.body), args: Seq::empty() },
                        seq![v],
                        None,
                        None,
                        e->Cast_span.deep_view(),
                        rt,
                        o.w,
                        k,
                    );
                    out == (Out { r: c.r, env: o.env, w: c.w })
                },
            }
        }),
{
    assert(run(e, env, rt, w, n) == crate::semantics::cast_run(
        *e->Cast_expr,
        e->Cast_target_type,
        e->Cast_span.deep_view(),
        env,
        rt,
        w,
        (n - 1) as nat,
    ));
}

/// A value seen as an object of an aspect is kept in a new place, with the identity of its type
/// and of the aspect. A value whose type is not known cannot be.
pub proof fn objects_keep_their_value(
    v: ValueTerm,
    aspect_id: SymbolId,
    aspect: Seq<char>,
    type_args: Seq<Term>,
    env: EnvModel,
    rt: RuntimeModel,
    w: World,
)
    ensures
        ({
            let out = crate::semantics::seen_as(v, aspect_id, aspect, type_args, env, rt, w);
            match crate::runtime::type_id_of(rt, v) {
                Some(id) => out == crate::control_laws::done(
                    ValueTerm {
                        head: ValueHead::Dyn(
                            CellId(w.store.cells.len() as usize),
                            id,
                            aspect_id,
                            aspect,
                            type_args,
                        ),
                        args: Seq::empty(),
                    },
                    env,
                    World {
                        store: StoreModel { cells: w.store.cells.push(v), ..w.store },
                        ..w
                    },
                ),
                None => out.r is Err && out.w == w,
            }
        }),
{
}

/// An assignment runs its value first, and then assigns it.
pub proof fn values_run_before_they_are_assigned(
    e: TypedExpr,
    env: EnvModel,
    rt: RuntimeModel,
    w: World,
    n: nat,
)
    requires
        e is Assign,
        n > 0,
    ensures
        ({
            let k = (n - 1) as nat;
            let o = run(*e->Assign_value, env, rt, w, k);
            let out = run(e, env, rt, w, n);
            &&& !crate::control_laws::has_value(o) ==> out == o
            &&& crate::control_laws::has_value(o) ==> out == crate::semantics::target_assigned(
                *e->Assign_target,
                e->Assign_op,
                crate::control_laws::value(o),
                e->Assign_span.deep_view(),
                o.env,
                rt,
                o.w,
                k,
            )
        }),
{
    assert(run(e, env, rt, w, n) == crate::semantics::assign_run(
        *e->Assign_target,
        e->Assign_op,
        *e->Assign_value,
        e->Assign_span.deep_view(),
        env,
        rt,
        w,
        (n - 1) as nat,
    ));
}

/// A function that is called by its identity is the one that is known under it. Only where none
/// is, and the identity is that of a variable, what is called is run.
pub proof fn known_functions_are_called(
    callee: TypedExpr,
    id: SymbolId,
    env: EnvModel,
    rt: RuntimeModel,
    w: World,
    n: nat,
)
    ensures
        ({
            let out = crate::semantics::callee_run(callee, Some(id), env, rt, w, n);
            let unnamed = crate::semantics::callee_run(callee, None, env, rt, w, n);
            &&& rt.symbol_values.dom().contains(id) ==> out == crate::control_laws::done(
                rt.symbol_values[id],
                env,
                w,
            )
            &&& !rt.symbol_values.dom().contains(id) && id.0 < crate::symbols::OVERLOAD_SYM_START
                && rt.variables.contains(id) ==> out == run(callee, env, rt, w, n)
            &&& !rt.symbol_values.dom().contains(id) && (id.0
                >= crate::symbols::OVERLOAD_SYM_START || !rt.variables.contains(id)) ==> out.r is Err
            &&& unnamed == run(callee, env, rt, w, n)
        }),
{
}

/// A call runs what is called, then its arguments in order, and then calls it with their values.
pub proof fn arguments_run_before_the_call(
    e: TypedExpr,
    env: EnvModel,
    rt: RuntimeModel,
    w: World,
    n: nat,
)
    requires
        e is Call,
        n > 0,
    ensures
        ({
            let k = (n - 1) as nat;
            let out = run(e, env, rt, w, n);
            let o = crate::semantics::callee_run(*e->Call_callee, e->Call_callee_id, env, rt, w, k);
            let f = crate::control_laws::value(o);
            let l = crate::semantics::list_run(
                e->Call_args@,
                0,
                Seq::empty(),
                o.env,
                rt,
                o.w,
                k,
            );
            let c = crate::semantics::value_called(
                f,
                l.0->Ok_0,
                Some(crate::semantics::expr_types(e->Call_args@)),
                Some(e->Call_ty.deep_view()),
                e->Call_span.deep_view(),
                rt,
                l.2,
                k,
            );
            &&& !crate::control_laws::has_value(o) ==> out == o
            &&& crate::control_laws::has_value(o) && !(f.head is Unit) && l.0 is Err ==> out == (Out {
                r: l.0->Err_0,
                env: l.1,
                w: l.2,
            })
            &&& crate::control_laws::has_value(o) && !(f.head is Unit) && l.0 is Ok ==> out == (Out {
                r: c.r,
                env: l.1,
                w: c.w,
            })
        }),
{
    assert(run(e, env, rt, w, n) == crate::semantics::call_run(
        *e->Call_callee,
        e->Call_args@,
        e->Call_ty.deep_view(),
        e->Call_callee_id,
        e->Call_span.deep_view(),
        env,
        rt,
        w,
        (n - 1) as nat,
    ));
}

/// A method that shares its receiver works on the variable itself, behind whatever references
/// stand in it; one on a passing value works on what a reference leads to, or on the value.
pub proof fn shared_receivers_are_the_variable(
    e: TypedExpr,
    v: ValueTerm,
    view: ValueTerm,
    c: CellId,
    env: EnvModel,
    rt: RuntimeModel,
    s: StoreModel,
    n: nat,
)
    requires
        c.0 < s.cells.len(),
    ensures
        ({
            let handed = crate::semantics::receiver_handed(e, v, view, env, rt, s, n);
            let held = s.cells[c.0 as int].head;
            &&& e is Ident && crate::semantics::identified_cell(e->Ident_0@, e->Ident_1, env, rt)
                == Some(c) && (held is Struct || held is Enum || held is Int || held is Array) ==> {
                &&& handed is Some
                &&& handed->Some_0.receiver == ReceiverModel::Shared(c)
                &&& handed->Some_0.back is None
                &&& handed->Some_0.store == s
            }
            &&& e is Call && v.head == ValueHead::MutReference(c) ==> handed is Some
                && handed->Some_0.receiver == ReceiverModel::Shared(c)
            &&& e is Call && v.head is Struct ==> handed is Some && handed->Some_0.receiver
                == ReceiverModel::Value(view)
        }),
{
    if e is Ident {
        reveal_with_fuel(crate::semantics::chain_end, 2);
    }
}

/// A host function has the value that it computes, or what it makes of the host's answer.
pub proof fn host_functions_are_called(
    fun: NativeFn,
    args: Seq<ValueTerm>,
    span: SpanModel,
    w: World,
    n: nat,
)
    ensures
        ({
            let r = crate::semantics::native_called(fun, args, span, w, n);
            match crate::natives::native_started(w.store, fun, args, span, n) {
                NativeModel::Done(Ok((t, v))) => r == (
                    Ok::<ValueTerm, StopModel>(v),
                    World { store: t, ..w },
                ),
                NativeModel::Done(Err(e)) => r == (Err::<ValueTerm, StopModel>(e), w),
                NativeModel::Ask(task) => {
                    let next = w.tape[w.at as int];
                    let u = World { at: w.at + 1, ..w };
                    w.at < w.tape.len() && next.task == task && next.store == w.store ==> {
                        let told = crate::natives::native_finished(
                            w.store,
                            fun,
                            args,
                            span,
                            next.reply,
                        );
                        &&& told matches Ok((t, v)) ==> r == (
                            Ok::<ValueTerm, StopModel>(v),
                            World { store: t, ..u },
                        )
                        &&& told matches Err(e) ==> r == (Err::<ValueTerm, StopModel>(e), u)
                    }
                },
            }
        }),
{
}

/// An error carries the calls that had not returned when it came up, and no others, however many
/// calls it passes on its way out.
pub proof fn errors_carry_the_first_stack(
    code: RuntimeErrorCode,
    message: Seq<char>,
    span: SpanModel,
    inner: Seq<FrameModel>,
    outer: Seq<FrameModel>,
)
    requires
        inner.len() > 0,
    ensures
        ({
            let e = ErrorModel::Runtime(code, message, span, Seq::empty());
            let once = crate::error::stacked(e, inner);
            &&& once == ErrorModel::Runtime(code, message, span, inner)
            &&& crate::error::stacked(once, outer) == once
        }),
{
}

/// A nested function is made into a closure of its environment, which its name then holds.
pub proof fn nested_functions_capture_their_environment(
    f: TypedFunDecl,
    c: CellId,
    env: EnvModel,
    s: StoreModel,
)
    requires
        f.body is Typed,
        crate::copying::name_cell(env.scopes, f.name@) == Some(c),
        c.0 < s.cells.len(),
    ensures
        ({
            let r = crate::semantics::function_made(f, env, s);
            let own = ClosureId(s.closures.len() as usize);
            let made = r->Ok_0.closures.last();
            &&& r is Ok
            &&& r->Ok_0.cells == s.cells.update(
                c.0 as int,
                ValueTerm {
                    head: ValueHead::Callable(CallableModel::Closure(own)),
                    args: Seq::empty(),
                },
            )
            &&& r->Ok_0.closures.len() == s.closures.len() + 1
            &&& r->Ok_0.closures.drop_last() == s.closures
            &&& r->Ok_0.arrays == s.arrays
            &&& made.captured == env
            &&& !made.in_call
            &&& made.code is Fun
        }),
{
    let r = crate::semantics::function_made(f, env, s);
    assert(r->Ok_0.closures.drop_last() =~= s.closures);
}

/// A block that declares no variables has its functions ready before its first statement; one
/// that does makes each when it is first called.
pub proof fn functions_wait_for_variables(ds: Seq<TypedDecl>, i: int)
    requires
        0 <= i < ds.len(),
    ensures
        ds[i] is Let || ds[i] is Mut ==> crate::semantics::declares_variable(ds),
        (forall|k: int| 0 <= k < ds.len() ==> !(#[trigger] ds[k] is Let) && !(ds[k] is Mut))
            ==> !crate::semantics::declares_variable(ds),
{
}

/// The fields of a record and of a struct run in the order in which they are written, and are then
/// put together.
pub proof fn fields_run_in_order(
    e: TypedExpr,
    env: EnvModel,
    rt: RuntimeModel,
    w: World,
    n: nat,
)
    requires
        n > 0,
        e is RecordLiteral || e is StructLiteral,
    ensures
        ({
            let fields = if e is RecordLiteral {
                e->RecordLiteral_fields@
            } else {
                e->StructLiteral_fields@
            };
            let es = Seq::new(fields.len(), |i: int| fields[i].1);
            let names = Seq::new(fields.len(), |i: int| fields[i].0@);
            let l = crate::semantics::list_run(es, 0, Seq::empty(), env, rt, w, (n - 1) as nat);
            let made = crate::semantics::fields_from(names, l.0->Ok_0, fields.len() as int);
            let out = run(e, env, rt, w, n);
            &&& l.0 matches Err(r) ==> out == (Out { r, env: l.1, w: l.2 })
            &&& l.0 is Ok && e is RecordLiteral ==> out == crate::control_laws::done(
                crate::semantics::record_term(made),
                l.1,
                l.2,
            )
            &&& l.0 is Ok && e is StructLiteral ==> out == crate::semantics::struct_out(
                e->StructLiteral_path.deep_view(),
                e->StructLiteral_type_id,
                e->StructLiteral_variant_id,
                made,
                l.1,
                l.2,
            )
        }),
{
    let k = (n - 1) as nat;
    if e is RecordLiteral {
        let fields = e->RecordLiteral_fields@;
        assert(crate::semantics::field_exprs(fields) =~= Seq::new(
            fields.len(),
            |i: int| fields[i].1,
        ));
        assert(crate::semantics::field_names(fields) =~= Seq::new(
            fields.len(),
            |i: int| fields[i].0@,
        ));
        assert(run(e, env, rt, w, n) == crate::semantics::record_run(fields, env, rt, w, k));
    } else {
        let fields = e->StructLiteral_fields@;
        assert(crate::semantics::field_exprs(fields) =~= Seq::new(
            fields.len(),
            |i: int| fields[i].1,
        ));
        assert(crate::semantics::field_names(fields) =~= Seq::new(
            fields.len(),
            |i: int| fields[i].0@,
        ));
        assert(run(e, env, rt, w, n) == crate::semantics::struct_run(
            e->StructLiteral_path.deep_view(),
            fields,
            e->StructLiteral_type_id,
            e->StructLiteral_variant_id,
            env,
            rt,
            w,
            k,
        ));
    }
}

/// A value that is taken for what it holds, or seen as an object, runs first.
pub proof fn coerced_values_run_first(
    e: TypedExpr,
    env: EnvModel,
    rt: RuntimeModel,
    w: World,
    n: nat,
)
    requires
        n > 0,
    ensures
        ({
            let k = (n - 1) as nat;
            let out = run(e, env, rt, w, n);
            &&& e matches TypedExpr::SingletonCoerce { inner, field, ty, span } ==> {
                let o = run(*inner, env, rt, w, k);
                &&& !crate::control_laws::has_value(o) ==> out == o
                &&& crate::control_laws::has_value(o) ==> out == found(
                    crate::semantics::payload(crate::control_laws::value(o), field@),
                    o,
                )
            }
            &&& e matches TypedExpr::DynCoerce { inner, aspect_id, aspect, type_args, span } ==> {
                let o = run(*inner, env, rt, w, k);
                &&& !crate::control_laws::has_value(o) ==> out == o
                &&& crate::control_laws::has_value(o) ==> out == crate::semantics::seen_as(
                    crate::control_laws::value(o),
                    aspect_id,
                    aspect@,
                    type_args.deep_view(),
                    o.env,
                    rt,
                    o.w,
                )
            }
        }),
{
    match e {
        TypedExpr::SingletonCoerce { inner, field, ty, span } => {
            assert(run(e, env, rt, w, n) == crate::semantics::singleton_run(
                *inner,
                field@,
                env,
                rt,
                w,
                (n - 1) as nat,
            ));
        },
        TypedExpr::DynCoerce { inner, aspect_id, aspect, type_args, span } => {
            assert(run(e, env, rt, w, n) == crate::semantics::dyn_run(
                *inner,
                aspect_id,
                aspect@,
                type_args.deep_view(),
                env,
                rt,
                w,
                (n - 1) as nat,
            ));
        },
        _ => {},
    }
}

/// The type of an expression that jumps is the one without values, and that of an assignment the
/// unit type.
pub proof fn jumps_have_no_type_of_their_own(e: TypedExpr)
    ensures
        e is Return || e is Break || e is Continue ==> crate::semantics::expr_type(e).head is Never,
        e is Assign ==> crate::semantics::expr_type(e).head is Unit,
        e is Literal ==> crate::semantics::expr_type(e) == e->Literal_1.deep_view(),
        e is Call ==> crate::semantics::expr_type(e) == e->Call_ty.deep_view(),
        e is MethodCall ==> crate::semantics::expr_type(e) == e->MethodCall_ty.deep_view(),
        e is If ==> crate::semantics::expr_type(e) == e->If_ty.deep_view(),
{
}

/// An intrinsic function has the value of the host function that it is, and is recorded while it
/// runs.
pub proof fn intrinsic_functions_call_the_host(
    label: Seq<char>,
    fun: NativeFn,
    args: Seq<ValueTerm>,
    static_args: Option<Seq<Term>>,
    expected: Option<Term>,
    span: SpanModel,
    rt: RuntimeModel,
    w: World,
    n: nat,
)
    ensures
        ({
            let c = crate::semantics::callable_called(
                CallableModel::Intrinsic(label, fun),
                args,
                static_args,
                expected,
                span,
                rt,
                w,
                n,
            );
            let entered = crate::machine::profile_entered(w, label);
            let (r, u) = crate::semantics::native_called(fun, args, span, entered, n);
            &&& c.w == crate::machine::profile_left(u)
            &&& r matches Ok(v) ==> c.r == Ok::<_, StopModel>(SignalModel::Value(v))
            &&& r is Err ==> c.r is Err
        }),
{
}

} // verus!
