//! What assignments change, and how calls go.

use crate::ast::SpanModel;
use crate::environment::StopModel;
use crate::error::RuntimeErrorCode;
use crate::machine::World;
use crate::runtime::RuntimeModel;
use crate::semantics::{BodyModel, CallOut, Out, ReceiverModel, SignalModel, TypingModel};
use crate::store::{ClosureCode, EnvModel, StoreModel};
use crate::symbols::SymbolId;
use crate::term::Term;
use crate::typed_ast::{
    AssignOp,
    BindingId,
    TypedBinding,
    TypedBlock,
    TypedDecl,
    TypedFor,
    TypedForIn,
    TypedStmt,
};
use crate::values::{
    ArrayId,
    CallableModel,
    CellId,
    ClosureId,
    IntKind,
    LocalId,
    SegmentModel,
    ValueHead,
    ValueTerm,
};
use vstd::prelude::*;
use vstd::string::*;

verus! {

/// What is left where there is a value and nothing else to do.
pub open spec fn done(v: ValueTerm, env: EnvModel, w: World) -> Out {
    crate::control_laws::done(v, env, w)
}

/// The unit value.
pub open spec fn nothing() -> ValueTerm {
    crate::control_laws::nothing()
}

/// A number that can be a position.
pub open spec fn position(i: usize) -> ValueTerm {
    ValueTerm { head: ValueHead::Int(IntKind::U64, i as int), args: Seq::empty() }
}

/// An element of an array that is assigned to has the value. The other elements, the other
/// arrays and everything else stay. There is no element past the end.
pub proof fn assigned_elements_have_the_value(
    a: ArrayId,
    i: usize,
    v: ValueTerm,
    span: SpanModel,
    env: EnvModel,
    w: World,
)
    requires
        a.0 < w.store.arrays.len(),
    ensures
        ({
            let items = w.store.arrays[a.0 as int];
            let o = crate::semantics::element_assigned(
                crate::text_laws::array(a),
                position(i),
                AssignOp::Assign,
                v,
                span,
                env,
                w,
            );
            &&& i < items.len() ==> o == done(
                nothing(),
                env,
                World {
                    store: StoreModel {
                        arrays: w.store.arrays.update(a.0 as int, items.update(i as int, v)),
                        ..w.store
                    },
                    ..w
                },
            )
            &&& i >= items.len() ==> {
                &&& o.w == w && o.env == env
                &&& crate::control_laws::failing(o, RuntimeErrorCode::R0004, span)
            }
        }),
{
    assert((i as u64) as usize == i);
}

/// What is behind an exclusive or shared reference to a whole variable has the value that is
/// assigned to it, and every other variable keeps its own. Only references can be assigned
/// through.
pub proof fn assigned_referents_have_the_value(
    c: CellId,
    mutable: bool,
    v: ValueTerm,
    tspan: SpanModel,
    span: SpanModel,
    env: EnvModel,
    w: World,
    n: nat,
    other: ValueTerm,
)
    requires
        c.0 < w.store.cells.len(),
        other.head is Int || other.head is Str || other.head is Tuple || other.head is Struct
            || other.head is Unit || other.head is Array || other.head is FieldReference,
    ensures
        crate::semantics::referent_assigned(
            crate::semantics::reference_term(mutable, c),
            tspan,
            AssignOp::Assign,
            v,
            span,
            env,
            w,
            n,
        ) == done(
            nothing(),
            env,
            World {
                store: StoreModel { cells: w.store.cells.update(c.0 as int, v), ..w.store },
                ..w
            },
        ),
        crate::control_laws::failing(
            crate::semantics::referent_assigned(
                other,
                tspan,
                AssignOp::Assign,
                v,
                span,
                env,
                w,
                n,
            ),
            RuntimeErrorCode::R0003,
            tspan,
        ),
{
}

/// A field of a variable that is assigned to has the value, and so has a component of a
/// tuple. The other parts stay.
pub proof fn assigned_parts_have_the_value(
    c: CellId,
    seg: SegmentModel,
    at: int,
    v: ValueTerm,
    tspan: SpanModel,
    span: SpanModel,
    env: EnvModel,
    w: World,
    n: nat,
)
    requires
        c.0 < w.store.cells.len(),
        ({
            let whole = w.store.cells[c.0 as int];
            &&& 0 <= at < whole.args.len()
            &&& match seg {
                SegmentModel::Field(f) => {
                    &&& whole.head is Struct || whole.head is Record || whole.head is Enum
                    &&& crate::values::field_labels(whole.head) matches Some(labels) && {
                        &&& at < labels.len()
                        &&& labels[at] == f
                        &&& forall|j: int| 0 <= j < at ==> #[trigger] labels[j] != f
                    }
                },
                SegmentModel::TupleIndex(i) => whole.head is Tuple && i == at,
                SegmentModel::ArrayIndex(_) => false,
            }
        }),
    ensures
        ({
            let whole = w.store.cells[c.0 as int];
            crate::semantics::part_assigned(
                c,
                seq![seg],
                tspan,
                AssignOp::Assign,
                v,
                span,
                env,
                w,
                n,
            ) == done(
                nothing(),
                env,
                World {
                    store: StoreModel {
                        cells: w.store.cells.update(
                            c.0 as int,
                            ValueTerm { head: whole.head, args: whole.args.update(at, v) },
                        ),
                        ..w.store
                    },
                    ..w
                },
            )
        }),
{
    let whole = w.store.cells[c.0 as int];
    let path = seq![seg];
    assert(path[0] == seg);
    assert(path.skip(1) =~= Seq::empty());
    if let SegmentModel::Field(f) = seg {
        let labels = crate::values::field_labels(whole.head)->Some_0;
        lemma_first_label(labels, f, at, 0);
    }
    let child = whole.args[at];
    assert(crate::reach::part(w.store, whole, seg, tspan) == Ok::<ValueTerm, StopModel>(child));
    assert(crate::reach::path_written(w.store, child, path.skip(1), v, tspan, n) == Ok::<
        (StoreModel, ValueTerm),
        StopModel,
    >((w.store, v)));
    assert(crate::reach::path_written(w.store, whole, path, v, tspan, n) == Ok::<
        (StoreModel, ValueTerm),
        StopModel,
    >((w.store, ValueTerm { head: whole.head, args: whole.args.update(at, v) })));
}

proof fn lemma_first_label(labels: Seq<Seq<char>>, f: Seq<char>, at: int, i: int)
    requires
        0 <= i <= at < labels.len(),
        labels[at] == f,
        forall|j: int| 0 <= j < at ==> #[trigger] labels[j] != f,
    ensures
        crate::values::label_at(labels, f, i) == at,
    decreases at - i,
{
    if i < at {
        lemma_first_label(labels, f, at, i + 1);
    }
}

/// The arguments of a call are bound to the parameters in their places, each to a copy.
/// Arguments without a parameter are dropped.
pub proof fn arguments_are_bound_in_order(
    s: StoreModel,
    env: EnvModel,
    code: ClosureCode,
    args: Seq<ValueTerm>,
    shift: int,
    i: int,
)
    requires
        0 <= i <= args.len(),
        0 <= shift,
    ensures
        ({
            let r = crate::semantics::args_bound(s, env, code, args, shift, i);
            let params = crate::semantics::code_params(code);
            let ids = crate::semantics::code_param_ids(code);
            let id = if i + shift < ids.len() {
                ids[i + shift]
            } else {
                None
            };
            let one = crate::environment::variable_defined(
                s,
                env,
                id,
                params[i + shift].name@,
                args[i],
            );
            &&& i == args.len() ==> r == (true, s, env)
            &&& i < args.len() && i + shift >= params.len() ==> r == crate::semantics::args_bound(
                s,
                env,
                code,
                args,
                shift,
                i + 1,
            )
            &&& i < args.len() && i + shift < params.len() ==> match one {
                Some((t, e)) => r == crate::semantics::args_bound(
                    t,
                    e,
                    code,
                    args,
                    shift,
                    i + 1,
                ),
                None => !r.0,
            }
        }),
{
}

/// The body of code whose types are known.
pub open spec fn typed_body(code: ClosureCode, b: TypedBlock) -> bool {
    crate::semantics::code_body(code) == BodyModel::Typed(b)
}

/// A closure runs its body with its arguments, in a scope of its own on top of what it
/// captured. The call has the value that the body returns or ends with; no return leaves it.
/// The call is on the stack while the body runs, and off it again after.
pub proof fn calls_have_the_value_of_the_body(
    id: ClosureId,
    b: TypedBlock,
    args: Seq<ValueTerm>,
    static_args: Option<Seq<Term>>,
    expected: Option<Term>,
    span: SpanModel,
    rt: RuntimeModel,
    w: World,
    n: nat,
)
    requires
        id.0 < w.store.closures.len(),
        typed_body(w.store.closures[id.0 as int].code, b),
        !crate::store::mutating(w.store.closures[id.0 as int].code),
    ensures
        ({
            let made = w.store.closures[id.0 as int];
            let entered = crate::machine::frame_pushed(
                w,
                crate::semantics::frame_label(made.code),
                span,
            );
            let bound = crate::semantics::args_bound(
                entered.store,
                crate::environment::scope_opened(made.captured),
                made.code,
                args,
                0,
                0,
            );
            let o = crate::semantics::block_run(
                b,
                bound.2,
                rt,
                World { store: bound.1, ..entered },
                n,
            );
            let call = crate::semantics::callable_called(
                CallableModel::Closure(id),
                args,
                static_args,
                expected,
                span,
                rt,
                w,
                n,
            );
            bound.0 ==> {
                &&& call.w == crate::machine::frame_popped(o.w)
                &&& o.r matches Ok(SignalModel::Value(v)) ==> call.r == Ok::<_, StopModel>(
                    SignalModel::Value(v),
                )
                &&& o.r matches Ok(SignalModel::Return(v)) ==> call.r == Ok::<_, StopModel>(
                    SignalModel::Value(v),
                )
                &&& o.r is Err ==> call.r is Err
                &&& !(call.r is Ok && call.r->Ok_0 is Return)
            }
        }),
{
    let made = w.store.closures[id.0 as int];
    let entered = crate::machine::frame_pushed(w, crate::semantics::frame_label(made.code), span);
    let bound = crate::semantics::args_bound(
        entered.store,
        crate::environment::scope_opened(made.captured),
        made.code,
        args,
        0,
        0,
    );
    let t = TypingModel {
        receiver: None,
        args,
        static_receiver: None,
        static_args,
        expected,
        span,
    };
    if bound.0 {
        let u = crate::machine::stored(entered, bound.1);
        let o = crate::semantics::block_run(b, bound.2, rt, u, n);
        assert(crate::semantics::body_run(made.code, t, bound.2, rt, u, n) == (
            CallOut { r: o.r, w: o.w },
            false,
        ));
    }
}

/// A closure that changes its own state is not called while it runs.
pub proof fn changing_closures_are_not_entered_twice(
    id: ClosureId,
    args: Seq<ValueTerm>,
    static_args: Option<Seq<Term>>,
    expected: Option<Term>,
    span: SpanModel,
    rt: RuntimeModel,
    w: World,
    n: nat,
)
    requires
        id.0 < w.store.closures.len(),
        crate::store::mutating(w.store.closures[id.0 as int].code),
        w.store.closures[id.0 as int].in_call,
    ensures
        ({
            let call = crate::semantics::callable_called(
                CallableModel::Closure(id),
                args,
                static_args,
                expected,
                span,
                rt,
                w,
                n,
            );
            &&& call.w == w
            &&& call.r is Err
            &&& call.r->Err_0 is Error
            &&& call.r->Err_0->Error_0 is Runtime
            &&& call.r->Err_0->Error_0->Runtime_0 == RuntimeErrorCode::R0015
        }),
{
}

/// A method has its receiver as its first parameter: a copy of the value, or the variable
/// itself where it is shared.
pub proof fn receivers_are_the_first_parameter(
    s: StoreModel,
    env: EnvModel,
    code: ClosureCode,
    v: ValueTerm,
    c: CellId,
)
    requires
        crate::semantics::code_params(code).len() > 0,
    ensures
        ({
            let name = crate::semantics::code_params(code)[0].name@;
            let ids = crate::semantics::code_param_ids(code);
            let id = if ids.len() > 0 {
                ids[0]
            } else {
                None
            };
            let by_value = crate::semantics::receiver_bound(s, env, code, ReceiverModel::Value(v));
            let shared = crate::semantics::receiver_bound(s, env, code, ReceiverModel::Shared(c));
            &&& match crate::environment::variable_defined(s, env, id, name, v) {
                Some((t, e)) => by_value == (true, t, e),
                None => !by_value.0,
            }
            &&& shared == (
                true,
                s,
                crate::environment::variable_bound(env, id, name, c),
            )
        }),
{
}

/// Only functions can be called, directly or behind a reference.
pub proof fn only_functions_are_called(
    v: ValueTerm,
    c: CellId,
    args: Seq<ValueTerm>,
    static_args: Option<Seq<Term>>,
    expected: Option<Term>,
    span: SpanModel,
    rt: RuntimeModel,
    w: World,
    n: nat,
)
    requires
        c.0 < w.store.cells.len(),
        w.store.cells[c.0 as int] == v,
    ensures
        ({
            let call = |f: ValueTerm|
                crate::semantics::value_called(f, args, static_args, expected, span, rt, w, n);
            let direct = call(v);
            let behind = call(
                ValueTerm { head: ValueHead::Reference(c), args: Seq::empty() },
            );
            let behind_mut = call(
                ValueTerm { head: ValueHead::MutReference(c), args: Seq::empty() },
            );
            let code = direct.r->Err_0->Error_0->Runtime_0;
            &&& v.head is Callable || v.head is Unit || v.head is Int || v.head is Str
                ==> behind == direct && behind_mut == direct
            &&& v.head matches ValueHead::Callable(f) ==> direct
                == crate::semantics::callable_called(
                f,
                args,
                static_args,
                expected,
                span,
                rt,
                w,
                n,
            )
            &&& v.head is Unit ==> direct.r is Err && code == RuntimeErrorCode::R0002 && direct.w
                == w
            &&& v.head is Int || v.head is Str || v.head is Boolean || v.head is Tuple
                || v.head is Array || v.head is Struct || v.head is Enum || v.head is Record
                || v.head is Char || v.head is Float ==> direct.r is Err && code
                == RuntimeErrorCode::R0010 && direct.w == w
        }),
{
}

/// A variable is found by its identity where that is known: a local one in the frame of the
/// call, a global one in the program. Otherwise its name decides.
pub proof fn identities_come_before_names(
    name: Seq<char>,
    id: LocalId,
    sym: SymbolId,
    c: CellId,
    env: EnvModel,
    rt: RuntimeModel,
    s: StoreModel,
)
    requires
        c.0 < s.cells.len(),
    ensures
        ({
            let local = crate::semantics::identified(name, Some(BindingId::Local(id)), env, rt, s);
            let global = crate::semantics::identified(
                name,
                Some(BindingId::Global(sym)),
                env,
                rt,
                s,
            );
            let unknown = crate::semantics::identified(name, None, env, rt, s);
            let v = s.cells[c.0 as int];
            &&& crate::assoc::entry(env.frame, id) == Some(c) ==> local == Some(v)
            &&& crate::assoc::entry(env.frame, id) is None ==> local == unknown
            &&& rt.globals.dom().contains(sym) && rt.globals[sym] == c ==> global == Some(v)
            &&& crate::copying::name_cell(env.scopes, name) == Some(c) ==> unknown == Some(v)
        }),
{
}

/// A path of several segments that means nothing else is a variant of an enum without
/// fields: the last segment of the one before.
pub proof fn unknown_paths_are_variants(
    path: Seq<Seq<char>>,
    span: SpanModel,
    env: EnvModel,
    rt: RuntimeModel,
    w: World,
)
    requires
        path.len() >= 2,
        crate::runtime::path_value(rt, path) is None,
        crate::copying::name_cell(env.scopes, crate::text::joined(path, "::"@)) is None,
    ensures
        ({
            let o = crate::semantics::path_out(path, span, env, rt, w);
            let v = crate::control_laws::value(o);
            &&& o == done(v, env, w)
            &&& v.head is Enum
            &&& v.head->Enum_0 == path[path.len() - 2]
            &&& v.head->Enum_2 == path[path.len() - 1]
            &&& v.args.len() == 0
        }),
{
}

/// A literal of two segments makes a variant of an enum, and any other one a struct, with the
/// fields that it lists. A record is made in the same way, without a name.
pub proof fn literals_make_structs_and_variants(
    path: Seq<Seq<char>>,
    type_id: Option<SymbolId>,
    fields: Seq<(Seq<char>, ValueTerm)>,
    env: EnvModel,
    w: World,
)
    requires
        path.len() > 0,
    ensures
        ({
            let o = crate::semantics::struct_out(path, type_id, None, fields, env, w);
            let v = crate::control_laws::value(o);
            let names = Seq::new(fields.len(), |i: int| fields[i].0);
            let vs = Seq::new(fields.len(), |i: int| fields[i].1);
            &&& o == done(v, env, w)
            &&& v.args == vs
            &&& path.len() == 2 ==> {
                &&& v.head is Enum
                &&& v.head->Enum_0 == path[0]
                &&& v.head->Enum_1 == type_id
                &&& v.head->Enum_2 == path[1]
                &&& v.head->Enum_4 == names
            }
            &&& path.len() != 2 ==> {
                &&& v.head is Struct
                &&& v.head->Struct_0 == path[path.len() - 1]
                &&& v.head->Struct_1 == type_id
                &&& v.head->Struct_2 == names
            }
            &&& crate::semantics::record_term(fields) == (ValueTerm {
                head: ValueHead::Record(names),
                args: vs,
            })
        }),
{
    let names = Seq::new(fields.len(), |i: int| fields[i].0);
    let vs = Seq::new(fields.len(), |i: int| fields[i].1);
    assert(crate::semantics::names_of(fields) =~= names);
    assert(crate::semantics::values_of(fields) =~= vs);
}

proof fn lemma_put_at_end(
    list: Seq<(Seq<char>, ValueTerm)>,
    name: Seq<char>,
    v: ValueTerm,
    i: int,
)
    requires
        0 <= i <= list.len(),
        forall|j: int| 0 <= j < list.len() ==> (#[trigger] list[j]).0 != name,
    ensures
        crate::assoc::put_from(list, name, v, i) == list.push((name, v)),
    decreases list.len() - i,
{
    if i < list.len() {
        lemma_put_at_end(list, name, v, i + 1);
    }
}

/// Fields of different names have the values that stand beside the names, in order.
pub proof fn fields_stand_beside_their_names(
    names: Seq<Seq<char>>,
    vs: Seq<ValueTerm>,
    k: int,
)
    requires
        0 <= k <= names.len(),
        names.len() == vs.len(),
        forall|i: int, j: int| 0 <= i < j < names.len() ==> names[i] != names[j],
    ensures
        crate::semantics::fields_from(names, vs, k) == Seq::new(
            k as nat,
            |i: int| (names[i], vs[i]),
        ),
    decreases k,
{
    let all = Seq::new(k as nat, |i: int| (names[i], vs[i]));
    if k > 0 {
        fields_stand_beside_their_names(names, vs, k - 1);
        let before = Seq::new((k - 1) as nat, |i: int| (names[i], vs[i]));
        lemma_put_at_end(before, names[k - 1], vs[k - 1], 0);
        assert(before.push((names[k - 1], vs[k - 1])) =~= all);
        assert(crate::semantics::fields_from(names, vs, k) == crate::assoc::put(
            crate::semantics::fields_from(names, vs, k - 1),
            names[k - 1],
            vs[k - 1],
        ));
    } else {
        assert(crate::semantics::fields_from(names, vs, k) =~= all);
    }
}

/// A declaration of a variable runs its value, and then binds the name to a copy of it.
/// Without a value it binds nothing.
pub proof fn declarations_bind_their_value(
    d: TypedBinding,
    mutable: bool,
    env: EnvModel,
    rt: RuntimeModel,
    w: World,
    n: nat,
)
    ensures
        ({
            let decl = if mutable {
                TypedDecl::Mut(d)
            } else {
                TypedDecl::Let(d)
            };
            let o = crate::semantics::decl_run(decl, env, rt, w, n);
            let c = crate::semantics::expr_run(*d.value, env, rt, w, n);
            let v = crate::control_laws::value(c);
            &&& !crate::control_laws::has_value(c) ==> o == c
            &&& crate::control_laws::has_value(c)
                ==> match crate::environment::variable_defined(
                c.w.store,
                c.env,
                d.local_id,
                d.name@,
                v,
            ) {
                Some((s, e)) => o == done(nothing(), e, World { store: s, ..c.w }),
                None => o.r is Err,
            }
        }),
{
    let b = crate::semantics::binding_run(d, env, rt, w, n);
}

/// A statement gives no value: that of its expression is dropped. Anything else that the
/// expression comes to, the statement comes to as well.
pub proof fn statements_drop_their_value(
    s: TypedStmt,
    env: EnvModel,
    rt: RuntimeModel,
    w: World,
    n: nat,
)
    requires
        s is Expr,
    ensures
        ({
            let o = crate::semantics::decl_run(TypedDecl::Stmt(s), env, rt, w, n);
            let c = crate::semantics::expr_run(*s->Expr_0, env, rt, w, n);
            &&& crate::control_laws::has_value(c) ==> o == done(nothing(), c.env, c.w)
            &&& !crate::control_laws::has_value(c) ==> o == c
        }),
{
    let x = crate::semantics::stmt_run(s, env, rt, w, n);
}

/// A `for` loop begins in a scope of its own, which holds its variable and ends with it.
pub proof fn for_loops_have_a_scope(
    f: TypedFor,
    env: EnvModel,
    rt: RuntimeModel,
    w: World,
    n: nat,
)
    ensures
        ({
            let inner = crate::environment::scope_opened(env);
            let begun = crate::semantics::for_init_run(f.init, inner, rt, w, n);
            let o = crate::semantics::for_run(f, env, rt, w, n);
            let rounds = crate::semantics::for_rounds(f, begun.env, rt, begun.w, n);
            &&& f.init is None ==> begun == done(nothing(), inner, w)
            &&& !crate::control_laws::has_value(begun) ==> o == begun
            &&& crate::control_laws::has_value(begun) && rounds.0 ==> o.r == rounds.1.r && o.w
                == rounds.1.w && o.env == crate::environment::scope_ended(rounds.1.env)
            &&& crate::control_laws::has_value(begun) && !rounds.0 ==> o == rounds.1
        }),
{
}

/// A value that is gone through by its `next` method gives what the method gives, round by
/// round, until that is nothing.
pub proof fn next_is_asked_until_there_is_none(
    f: TypedForIn,
    next: CallableModel,
    cell: CellId,
    item: ValueTerm,
    env: EnvModel,
    rt: RuntimeModel,
    w: World,
    n: nat,
)
    requires
        n > 0,
    ensures
        ({
            let k = (n - 1) as nat;
            let c = crate::semantics::method_called(
                next,
                ReceiverModel::Shared(cell),
                Seq::empty(),
                None,
                None,
                None,
                f.span.deep_view(),
                rt,
                w,
                k,
            );
            let given = c.r->Ok_0->Value_0;
            let o = crate::semantics::iteration_run(f, next, cell, env, rt, w, n);
            let (more, r) = crate::semantics::round_run(f, item, env, rt, c.w, k);
            let valued = c.r is Ok && c.r->Ok_0 is Value;
            &&& valued && crate::text_laws::is_none(given) ==> o == done(nothing(), env, c.w)
            &&& valued && crate::text_laws::is_some(given, item) && more ==> o
                == crate::semantics::iteration_run(f, next, cell, r.env, rt, r.w, k)
            &&& valued && crate::text_laws::is_some(given, item) && !more ==> o == r
            &&& c.r is Err ==> o == (Out { r: Err(c.r->Err_0), env, w: c.w })
        }),
{
    reveal_strlit("Some");
    reveal_strlit("None");
    assert("Some"@[0] != "None"@[0]);
    let labels = seq!["value"@];
    assert(labels[0] == "value"@);
    assert(crate::values::label_at(labels, "value"@, 0) == 0);
    assert(seq![item][0] == item);
}

/// A value that is written back to a field of a struct, or to a field of one of its fields, is
/// the value of that field afterwards.
pub proof fn written_fields_are_read(
    v: ValueTerm,
    path: Seq<Seq<char>>,
    i: int,
    x: ValueTerm,
)
    requires
        0 <= i < path.len(),
        crate::semantics::chain_value(v, path, i) is Some,
        well_formed(v),
    ensures
        ({
            let r = crate::semantics::chain_written(v, path, i, x);
            &&& r is Some
            &&& crate::semantics::chain_value(r->Some_0, path, i) == Some(x)
        }),
    decreases path.len() - i,
{
    let labels = crate::values::field_labels(v.head)->0;
    let at = crate::values::label_at(labels, path[i], 0);
    assert(at < labels.len());
    lemma_label_bounds(labels, path[i], 0);
    let child = v.args[at];
    assert(crate::values::field_of(v, path[i]) == Some(child));
    let y = if i == path.len() - 1 {
        x
    } else {
        assert(crate::semantics::chain_value(child, path, i + 1) is Some);
        assert(well_formed(child));
        written_fields_are_read(child, path, i + 1, x);
        crate::semantics::chain_written(child, path, i + 1, x)->Some_0
    };
    let r = ValueTerm { head: v.head, args: v.args.update(at, y) };
    assert(crate::semantics::chain_written(v, path, i, x) == Some(r));
    assert(crate::values::field_of(r, path[i]) == Some(y));
    assert(crate::semantics::chain_value(r, path, i) == crate::semantics::chain_value(
        y,
        path,
        i + 1,
    ));
}

proof fn lemma_label_bounds(labels: Seq<Seq<char>>, name: Seq<char>, i: int)
    requires
        0 <= i <= labels.len(),
    ensures
        i <= crate::values::label_at(labels, name, i) <= labels.len(),
    decreases labels.len() - i,
{
    if i < labels.len() && labels[i] != name {
        lemma_label_bounds(labels, name, i + 1);
    }
}

/// Whether a value, and every component of it, has a component for each of its labels.
pub open spec fn well_formed(v: ValueTerm) -> bool
    decreases v,
{
    &&& crate::values::field_labels(v.head) matches Some(labels) ==> labels.len() == v.args.len()
    &&& forall|i: int| 0 <= i < v.args.len() ==> well_formed(#[trigger] v.args[i])
}

} // verus!
