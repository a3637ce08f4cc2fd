//! How what an expression comes to depends on what its parts come to.

use crate::environment::StopModel;
use crate::error::{ErrorModel, RuntimeErrorCode};
use crate::machine::World;
use crate::operators::ComputedModel;
use crate::runtime::RuntimeModel;
use crate::semantics::{Out, SignalModel};
use crate::store::{EnvModel, StoreModel};
use crate::typed_ast::{
    BinOp,
    TypedBlock,
    TypedExpr,
    TypedFor,
    TypedForIn,
    TypedMatchArm,
    TypedWhile,
    UnaryOp,
};
use crate::values::{ArrayId, CellId, IntKind, ValueHead, ValueTerm};
use vstd::prelude::*;
use vstd::string::*;

verus! {

/// What running an expression comes to.
pub open spec fn run(e: TypedExpr, env: EnvModel, rt: RuntimeModel, w: World, n: nat) -> Out {
    crate::semantics::expr_run(e, env, rt, w, n)
}

/// Whether a part of a program has a value.
pub open spec fn has_value(o: Out) -> bool {
    o.r is Ok && o.r->Ok_0 is Value
}

/// The value that a part of a program has.
pub open spec fn value(o: Out) -> ValueTerm {
    o.r->Ok_0->Value_0
}

/// What is left where there is a value and nothing else to do.
pub open spec fn done(v: ValueTerm, env: EnvModel, w: World) -> Out {
    Out { r: Ok(SignalModel::Value(v)), env, w }
}

pub open spec fn nothing() -> ValueTerm {
    ValueTerm { head: ValueHead::Unit, args: Seq::empty() }
}

/// An end with an error of the program.
pub open spec fn failing(o: Out, code: RuntimeErrorCode, span: crate::ast::SpanModel) -> bool {
    &&& o.r is Err
    &&& o.r->Err_0 is Error
    &&& o.r->Err_0->Error_0 is Runtime
    &&& o.r->Err_0->Error_0->Runtime_0 == code
    &&& o.r->Err_0->Error_0->Runtime_2 == span
}

/// A branch is taken by the truth of the condition: the first where it holds, the other one,
/// or nothing where there is none, where it does not. Where the condition has no value,
/// neither is.
pub proof fn conditions_choose_the_branch(
    e: TypedExpr,
    env: EnvModel,
    rt: RuntimeModel,
    w: World,
    n: nat,
)
    requires
        e is If,
        n > 0,
    ensures
        ({
            let k = (n - 1) as nat;
            let c = run(*e->If_condition, env, rt, w, k);
            let o = run(e, env, rt, w, n);
            &&& has_value(c) && value(c).head == ValueHead::Boolean(true) ==> o
                == crate::semantics::block_run(*e->If_then_branch, c.env, rt, c.w, k)
            &&& has_value(c) && value(c).head == ValueHead::Boolean(false)
                ==> match e->If_else_branch {
                Some(b) => o == crate::semantics::block_run(*b, c.env, rt, c.w, k),
                None => o == done(nothing(), c.env, c.w),
            }
            &&& !has_value(c) ==> o == c
        }),
{
    assert(run(e, env, rt, w, n) == crate::semantics::if_run(
        *e->If_condition,
        *e->If_then_branch,
        e->If_else_branch,
        env,
        rt,
        w,
        (n - 1) as nat,
    ));
}

/// `&&` and `||` are decided by the left side where it is false or true, and then the right
/// side does not run; otherwise they are what the right side is.
pub proof fn the_left_side_may_decide(
    e: TypedExpr,
    env: EnvModel,
    rt: RuntimeModel,
    w: World,
    n: nat,
)
    requires
        e is BinOp,
        n > 0,
    ensures
        ({
            let k = (n - 1) as nat;
            let l = run(*e->BinOp_0, env, rt, w, k);
            let right = run(*e->BinOp_2, l.env, rt, l.w, k);
            let o = run(e, env, rt, w, n);
            let no = value(l).head == ValueHead::Boolean(false);
            let yes = value(l).head == ValueHead::Boolean(true);
            &&& has_value(l) && e->BinOp_1 is And && no ==> o == done(
                ValueTerm { head: ValueHead::Boolean(false), args: Seq::empty() },
                l.env,
                l.w,
            )
            &&& has_value(l) && e->BinOp_1 is And && yes ==> o == right
            &&& has_value(l) && e->BinOp_1 is Or && yes ==> o == done(
                ValueTerm { head: ValueHead::Boolean(true), args: Seq::empty() },
                l.env,
                l.w,
            )
            &&& has_value(l) && e->BinOp_1 is Or && no ==> o == right
            &&& !has_value(l) ==> o == l
        }),
{
    assert(run(e, env, rt, w, n) == crate::semantics::binop_run(
        *e->BinOp_0,
        e->BinOp_1,
        *e->BinOp_2,
        e->BinOp_4.deep_view(),
        env,
        rt,
        w,
        (n - 1) as nat,
    ));
}

/// Other operators run the left side, then the right side, and are what the operator makes
/// of the two values.
pub proof fn both_sides_run_in_order(
    e: TypedExpr,
    env: EnvModel,
    rt: RuntimeModel,
    w: World,
    n: nat,
)
    requires
        e is BinOp,
        !(e->BinOp_1 is And),
        !(e->BinOp_1 is Or),
        n > 0,
    ensures
        ({
            let k = (n - 1) as nat;
            let l = run(*e->BinOp_0, env, rt, w, k);
            let r = run(*e->BinOp_2, l.env, rt, l.w, k);
            let o = run(e, env, rt, w, n);
            let made = crate::operators::binop_result(
                e->BinOp_1,
                value(l),
                value(r),
                e->BinOp_4.deep_view(),
            );
            &&& has_value(l) && !has_value(r) ==> o == r
            &&& has_value(l) && has_value(r) && crate::operators::computable(
                e->BinOp_1,
                value(l),
                value(r),
            ) ==> {
                &&& made matches Ok(ComputedModel::Value(v)) ==> o == done(v, r.env, r.w)
                &&& made matches Err(x) ==> o == (Out {
                    r: Err(StopModel::Error(x)),
                    env: r.env,
                    w: r.w,
                })
            }
        }),
{
    assert(run(e, env, rt, w, n) == crate::semantics::binop_run(
        *e->BinOp_0,
        e->BinOp_1,
        *e->BinOp_2,
        e->BinOp_4.deep_view(),
        env,
        rt,
        w,
        (n - 1) as nat,
    ));
}

/// The body of a loop.
pub open spec fn loop_body(e: TypedExpr) -> TypedBlock {
    *e->Loop_body
}

/// A loop goes on until its body breaks, and has the value that it breaks with. Only a return
/// or an error ends it otherwise.
pub proof fn loops_go_on_until_they_break(
    e: TypedExpr,
    env: EnvModel,
    rt: RuntimeModel,
    w: World,
    n: nat,
)
    requires
        e is Loop,
        n > 1,
    ensures
        ({
            let o = run(e, env, rt, w, n);
            let b = crate::semantics::block_run(*e->Loop_body, env, rt, w, (n - 2) as nat);
            &&& b.r matches Ok(SignalModel::Break(v)) ==> o == done(v, b.env, b.w)
            &&& has_value(b) || b.r == Ok::<_, StopModel>(SignalModel::Continue) ==> o == run(
                e,
                b.env,
                rt,
                b.w,
                (n - 1) as nat,
            )
            &&& b.r is Err || (b.r is Ok && b.r->Ok_0 is Return) ==> o == b
        }),
{
    let k = (n - 1) as nat;
    let b = crate::semantics::block_run(loop_body(e), env, rt, w, (n - 2) as nat);
    assert(run(e, env, rt, w, n) == crate::semantics::loop_run(*e->Loop_body, env, rt, w, k));
    assert(run(e, b.env, rt, b.w, k) == crate::semantics::loop_run(
        *e->Loop_body,
        b.env,
        rt,
        b.w,
        (n - 2) as nat,
    ));
}

/// A `while` loop runs its body as long as its condition holds, each time anew. A break ends
/// it, and so does a condition that does not hold: then it has no value of its own.
#[verifier::rlimit(60)]
pub proof fn while_loops_ask_their_condition(
    x: TypedWhile,
    env: EnvModel,
    rt: RuntimeModel,
    w: World,
    n: nat,
)
    requires
        n > 0,
    ensures
        ({
            let k = (n - 1) as nat;
            let o = crate::semantics::while_run(x, env, rt, w, n);
            let c = run(*x.condition, env, rt, w, k);
            let b = crate::semantics::block_run(*x.body, c.env, rt, c.w, k);
            let yes = has_value(c) && value(c).head == ValueHead::Boolean(true);
            &&& has_value(c) && value(c).head == ValueHead::Boolean(false) ==> o == done(
                nothing(),
                c.env,
                c.w,
            )
            &&& yes && (has_value(b) || b.r == Ok::<_, StopModel>(SignalModel::Continue)) ==> o
                == crate::semantics::while_run(x, b.env, rt, b.w, k)
            &&& yes && b.r is Ok && b.r->Ok_0 is Break ==> o == done(nothing(), b.env, b.w)
            &&& yes && (b.r is Err || (b.r is Ok && b.r->Ok_0 is Return)) ==> o == b
            &&& !has_value(c) ==> o == c
        }),
{
}

/// Whether a part of a program lets what follows it run: it has a value or continues.
pub open spec fn goes_on(o: Out) -> bool {
    has_value(o) || o.r == Ok::<_, StopModel>(SignalModel::Continue)
}

/// A `for` loop runs its body as long as its condition holds, or for ever without one. After
/// each round, also one that continued, it takes its step. A break ends it.
#[verifier::rlimit(60)]
pub proof fn for_loops_step_after_each_round(
    f: TypedFor,
    env: EnvModel,
    rt: RuntimeModel,
    w: World,
    n: nat,
)
    requires
        n > 0,
    ensures
        ({
            let k = (n - 1) as nat;
            let rounds = crate::semantics::for_rounds(f, env, rt, w, n);
            let asked = f.condition is Some;
            let c = run(*f.condition->Some_0, env, rt, w, k);
            let (e1, w1) = if asked {
                (c.env, c.w)
            } else {
                (env, w)
            };
            let holds = !asked || (has_value(c) && value(c).head == ValueHead::Boolean(true));
            let b = crate::semantics::block_run(*f.body, e1, rt, w1, k);
            let s = run(*f.step->Some_0, b.env, rt, b.w, k);
            &&& asked && has_value(c) && value(c).head == ValueHead::Boolean(false) ==> rounds.1
                == done(nothing(), c.env, c.w)
            &&& holds && b.r is Ok && b.r->Ok_0 is Break ==> rounds.1 == done(
                nothing(),
                b.env,
                b.w,
            )
            &&& holds && b.r is Ok && b.r->Ok_0 is Return ==> rounds.1 == b
            &&& holds && b.r is Err ==> rounds.1 == b
            &&& holds && goes_on(b) && f.step is None ==> rounds
                == crate::semantics::for_rounds(f, b.env, rt, b.w, k)
            &&& holds && goes_on(b) && f.step is Some && s.r is Ok ==> rounds
                == crate::semantics::for_rounds(f, s.env, rt, s.w, k)
            &&& holds && goes_on(b) && f.step is Some && s.r is Err ==> rounds.1 == s
        }),
{
}

/// Going through an array is going through its elements from the first to the last: the
/// first round takes the first one, and the rest follows unless that round ended the loop.
pub proof fn elements_are_gone_through_in_order(
    f: TypedForIn,
    items: Seq<ValueTerm>,
    i: int,
    env: EnvModel,
    rt: RuntimeModel,
    w: World,
    n: nat,
)
    requires
        0 <= i <= items.len(),
    ensures
        ({
            let o = crate::semantics::items_run(f, items, i, env, rt, w, n);
            let (more, r) = crate::semantics::round_run(f, items[i], env, rt, w, n);
            &&& i == items.len() ==> o == done(nothing(), env, w)
            &&& i < items.len() && more ==> o == crate::semantics::items_run(
                f,
                items,
                i + 1,
                r.env,
                rt,
                r.w,
                n,
            )
            &&& i < items.len() && !more ==> o == r
        }),
{
}

/// Whether a value is a range between two numbers.
pub open spec fn is_range(v: ValueTerm, name: Seq<char>, from: int, to: int) -> bool {
    &&& v.head is Struct
    &&& v.head->Struct_0 == name
    &&& v.head->Struct_2 == seq!["start"@, "end"@]
    &&& v.args == seq![crate::text_laws::number(from), crate::text_laws::number(to)]
}

proof fn lemma_range(v: ValueTerm, name: Seq<char>, from: int, to: int)
    requires
        is_range(v, name, from, to),
    ensures
        crate::semantics::range_bound(v, "start"@) == Ok::<int, StopModel>(from),
        crate::semantics::range_bound(v, "end"@) == Ok::<int, StopModel>(to),
{
    reveal_strlit("start");
    reveal_strlit("end");
    assert("start"@[0] != "end"@[0]);
    let labels = seq!["start"@, "end"@];
    assert(labels[0] == "start"@ && labels[1] == "end"@);
    reveal_with_fuel(crate::values::label_at, 3);
    assert(crate::values::label_at(labels, "start"@, 0) == 0);
    assert(crate::values::label_at(labels, "end"@, 0) == 1);
}

/// Going through an array goes through its elements, and going through a range through the
/// numbers from its start: up to its end, or up to and with its end where the range says so.
/// Nothing else but a value with a `next` method can be gone through.
#[verifier::rlimit(60)]
pub proof fn loops_go_through_arrays_and_ranges(
    f: TypedForIn,
    v: ValueTerm,
    from: int,
    to: int,
    env: EnvModel,
    rt: RuntimeModel,
    w: World,
    n: nat,
)
    requires
        n > 0,
    ensures
        ({
            let k = (n - 1) as nat;
            let o = crate::semantics::for_in_run(f, v, env, rt, w, n);
            let (more, r) = crate::semantics::round_run(
                f,
                crate::text_laws::number(from),
                env,
                rt,
                w,
                k,
            );
            &&& v.head matches ValueHead::Array(a) ==> a.0 < w.store.arrays.len() ==> o
                == crate::semantics::items_run(f, w.store.arrays[a.0 as int], 0, env, rt, w, k)
            &&& is_range(v, "Range"@, from, to) ==> {
                &&& from >= to ==> o == done(nothing(), env, w)
                &&& from < to && !more ==> o == r
                &&& from < to && more ==> o == crate::semantics::range_run(
                    f,
                    from + 1,
                    to,
                    r.env,
                    rt,
                    r.w,
                    k,
                )
            }
            &&& is_range(v, "RangeInclusive"@, from, to) ==> {
                &&& from > to ==> o == done(nothing(), env, w)
                &&& from <= to && !more ==> o == r
                &&& from <= to && more ==> o == crate::semantics::range_run(
                    f,
                    from + 1,
                    to + 1,
                    r.env,
                    rt,
                    r.w,
                    k,
                )
            }
            &&& v.head is Int || v.head is Str || v.head is Boolean || v.head is Unit
                || v.head is Char || v.head is Tuple || v.head is Record || v.head is Enum
                ==> failing(o, RuntimeErrorCode::R0011, f.span.deep_view())
        }),
{
    reveal_strlit("Range");
    reveal_strlit("RangeInclusive");
    assert("Range"@.len() != "RangeInclusive"@.len());
    if is_range(v, "Range"@, from, to) {
        lemma_range(v, "Range"@, from, to);
    }
    if is_range(v, "RangeInclusive"@, from, to) {
        lemma_range(v, "RangeInclusive"@, from, to);
    }
    let k = (n - 1) as nat;
    let a = crate::semantics::range_run(f, from, to, env, rt, w, k);
    let b = crate::semantics::range_run(f, from, to + 1, env, rt, w, k);
}

/// Going through the rest of a range takes its first number, where there is one, and then
/// the rest of that.
pub proof fn numbers_are_gone_through_in_order(
    f: TypedForIn,
    from: int,
    to: int,
    env: EnvModel,
    rt: RuntimeModel,
    w: World,
    n: nat,
)
    ensures
        ({
            let o = crate::semantics::range_run(f, from, to, env, rt, w, n);
            let (more, r) = crate::semantics::round_run(
                f,
                crate::text_laws::number(from),
                env,
                rt,
                w,
                n,
            );
            &&& from >= to ==> o == done(nothing(), env, w)
            &&& from < to && more ==> o == crate::semantics::range_run(
                f,
                from + 1,
                to,
                r.env,
                rt,
                r.w,
                n,
            )
            &&& from < to && !more ==> o == r
        }),
{
}

/// One round of a loop binds the item to the name in a scope of its own, which ends with the
/// round. It ends the loop exactly if the body breaks, returns or fails.
pub proof fn rounds_bind_their_item(
    f: TypedForIn,
    item: ValueTerm,
    env: EnvModel,
    rt: RuntimeModel,
    w: World,
    n: nat,
)
    requires
        crate::environment::variable_defined(
            w.store,
            crate::environment::scope_opened(env),
            f.binding_id,
            f.binding@,
            item,
        ) is Some,
    ensures
        ({
            let (s, e) = crate::environment::variable_defined(
                w.store,
                crate::environment::scope_opened(env),
                f.binding_id,
                f.binding@,
                item,
            )->Some_0;
            let b = crate::semantics::block_run(*f.body, e, rt, World { store: s, ..w }, n);
            let (more, o) = crate::semantics::round_run(f, item, env, rt, w, n);
            let closed = crate::environment::scope_ended(b.env);
            &&& more <==> goes_on(b)
            &&& more ==> o.env == closed && o.w == b.w
            &&& b.r is Err ==> o == b
            &&& b.r matches Ok(SignalModel::Return(v)) ==> o == (Out {
                r: Ok(SignalModel::Return(v)),
                env: closed,
                w: b.w,
            })
            &&& b.r is Ok && b.r->Ok_0 is Break ==> o == done(nothing(), closed, b.w)
        }),
{
}

/// `return`, `break` and `continue` leave with the value that they name, or the unit value,
/// and change nothing else.
pub proof fn jumps_carry_their_value(
    e: TypedExpr,
    env: EnvModel,
    rt: RuntimeModel,
    w: World,
    n: nat,
)
    requires
        n > 0,
    ensures
        ({
            let k = (n - 1) as nat;
            let o = run(e, env, rt, w, n);
            &&& e matches TypedExpr::Return(Some(x), _) ==> {
                let c = run(*x, env, rt, w, k);
                &&& has_value(c) ==> o == (Out { r: Ok(SignalModel::Return(value(c))), ..c })
                &&& !has_value(c) ==> o == c
            }
            &&& e matches TypedExpr::Return(None, _) ==> o == (Out {
                r: Ok(SignalModel::Return(nothing())),
                env,
                w,
            })
            &&& e matches TypedExpr::Break(Some(x), _) ==> {
                let c = run(*x, env, rt, w, k);
                &&& has_value(c) ==> o == (Out { r: Ok(SignalModel::Break(value(c))), ..c })
                &&& !has_value(c) ==> o == c
            }
            &&& e matches TypedExpr::Break(None, _) ==> o == (Out {
                r: Ok(SignalModel::Break(nothing())),
                env,
                w,
            })
            &&& e is Continue ==> o == (Out { r: Ok(SignalModel::Continue), env, w })
        }),
{
    let k = (n - 1) as nat;
    match e {
        TypedExpr::Return(x, _) => {
            assert(run(e, env, rt, w, n) == crate::semantics::return_run(x, env, rt, w, k));
        },
        TypedExpr::Break(x, _) => {
            assert(run(e, env, rt, w, n) == crate::semantics::break_run(x, env, rt, w, k));
        },
        _ => {},
    }
}

/// A match runs the first arm whose pattern fits and whose guard, if there is one, holds. The
/// arms before it do not run. Where there is none, the program ends.
pub proof fn the_first_fitting_arm_runs(
    arms: Seq<TypedMatchArm>,
    i: int,
    v: ValueTerm,
    span: crate::ast::SpanModel,
    env: EnvModel,
    rt: RuntimeModel,
    w: World,
    n: nat,
)
    requires
        0 <= i <= arms.len(),
    ensures
        ({
            let o = crate::semantics::arms_run(arms, i, v, span, env, rt, w, n);
            let m = crate::pattern::matched(w.store, arms[i].pattern, v, Seq::empty());
            let u = World { store: m.store, ..w };
            let g = crate::semantics::guard_run(arms[i].guard, m.bindings, env, rt, u, n);
            &&& i == arms.len() ==> failing(o, RuntimeErrorCode::R0006, span)
            &&& i < arms.len() && !m.fits ==> o == crate::semantics::arms_run(
                arms,
                i + 1,
                v,
                span,
                env,
                rt,
                u,
                n,
            )
            &&& i < arms.len() && m.fits && arms[i].guard is None ==> o
                == crate::semantics::arm_run(*arms[i].body, m.bindings, env, rt, u, n)
            &&& i < arms.len() && m.fits && g.0 == Ok::<bool, Result<SignalModel, StopModel>>(true)
                ==> o == crate::semantics::arm_run(*arms[i].body, m.bindings, g.1, rt, g.2, n)
            &&& i < arms.len() && m.fits && g.0 == Ok::<bool, Result<SignalModel, StopModel>>(
                false,
            ) ==> o == crate::semantics::arms_run(arms, i + 1, v, span, g.1, rt, g.2, n)
        }),
{
    if i < arms.len() {
        let m = crate::pattern::matched(w.store, arms[i].pattern, v, Seq::empty());
        let u = World { store: m.store, ..w };
        let g = crate::semantics::guard_run(arms[i].guard, m.bindings, env, rt, u, n);
        assert(u == crate::machine::stored(w, m.store));
    }
}

/// The expressions of a list run from the first to the last, and the list holds their values
/// in that order. The first one without a value ends it.
pub proof fn lists_run_in_order(
    es: Seq<std::rc::Rc<TypedExpr>>,
    i: int,
    before: Seq<ValueTerm>,
    env: EnvModel,
    rt: RuntimeModel,
    w: World,
    n: nat,
)
    requires
        0 <= i <= es.len(),
    ensures
        ({
            let r = crate::semantics::list_run(es, i, before, env, rt, w, n);
            let o = run(*es[i], env, rt, w, n);
            &&& i == es.len() ==> r.0 == Ok::<_, Result<SignalModel, StopModel>>(before) && r.1
                == env && r.2 == w
            &&& i < es.len() && has_value(o) ==> r == crate::semantics::list_run(
                es,
                i + 1,
                before.push(value(o)),
                o.env,
                rt,
                o.w,
                n,
            )
            &&& i < es.len() && !has_value(o) ==> r.0 == Err::<Seq<ValueTerm>, _>(o.r) && r.1
                == o.env && r.2 == o.w
        }),
{
}

/// Tuples and arrays hold the values of their expressions, in order: a tuple in itself, an
/// array in a new place of the store.
pub proof fn tuples_and_arrays_hold_their_values(
    e: TypedExpr,
    env: EnvModel,
    rt: RuntimeModel,
    w: World,
    n: nat,
)
    requires
        n > 0,
        e is Tuple || e is Array,
    ensures
        ({
            let es = if e is Tuple {
                e->Tuple_0@
            } else {
                e->Array_0@
            };
            let l = crate::semantics::list_run(es, 0, Seq::empty(), env, rt, w, (n - 1) as nat);
            let o = run(e, env, rt, w, n);
            &&& l.0 matches Err(r) ==> o == (Out { r, env: l.1, w: l.2 })
            &&& l.0 matches Ok(vs) ==> {
                &&& e is Tuple ==> o == done(
                    ValueTerm { head: ValueHead::Tuple, args: vs },
                    l.1,
                    l.2,
                )
                &&& e is Array ==> o == done(
                    crate::text_laws::array(ArrayId(l.2.store.arrays.len() as usize)),
                    l.1,
                    World {
                        store: StoreModel {
                            arrays: l.2.store.arrays.push(vs),
                            ..l.2.store
                        },
                        ..l.2
                    },
                )
            }
        }),
{
    let k = (n - 1) as nat;
    if e is Tuple {
        assert(run(e, env, rt, w, n) == crate::semantics::tuple_run(e->Tuple_0@, env, rt, w, k));
    } else {
        assert(run(e, env, rt, w, n) == crate::semantics::array_run(e->Array_0@, env, rt, w, k));
    }
}

/// An array of repeated elements runs its element once, and holds as many of it as it says.
pub proof fn repeated_elements_are_alike(
    e: TypedExpr,
    env: EnvModel,
    rt: RuntimeModel,
    w: World,
    n: nat,
)
    requires
        n > 0,
        e is RepeatArray,
    ensures
        ({
            let c = run(*e->RepeatArray_0, env, rt, w, (n - 1) as nat);
            let o = run(e, env, rt, w, n);
            let items = o.w.store.arrays.last();
            &&& !has_value(c) ==> o == c
            &&& has_value(c) ==> {
                &&& value(o) == crate::text_laws::array(
                    ArrayId(c.w.store.arrays.len() as usize),
                )
                &&& has_value(o)
                &&& o.env == c.env
                &&& o.w.store.arrays.drop_last() == c.w.store.arrays
                &&& o.w.store.arrays.len() == c.w.store.arrays.len() + 1
                &&& items.len() == e->RepeatArray_1
                &&& forall|i: int| 0 <= i < items.len() ==> #[trigger] items[i] == value(c)
            }
        }),
{
    let k = (n - 1) as nat;
    let o = run(e, env, rt, w, n);
    assert(o == crate::semantics::repeat_run(
        *e->RepeatArray_0,
        e->RepeatArray_1,
        env,
        rt,
        w,
        k,
    ));
    assert(has_value(run(*e->RepeatArray_0, env, rt, w, k)) ==> o.w.store.arrays.drop_last()
        =~= run(*e->RepeatArray_0, env, rt, w, k).w.store.arrays);
}

/// A component of a tuple is got by its position, which counts from zero, and an element of
/// an array too. Past the end there is none, and the program ends.
pub proof fn parts_are_got_by_position(
    s: StoreModel,
    v: ValueTerm,
    i: usize,
    span: crate::ast::SpanModel,
)
    requires
        v.head is Array ==> v.head->Array_0.0 < s.arrays.len(),
    ensures
        ({
            let at = crate::semantics::tuple_part(v, i, span);
            &&& v.head is Tuple && i < v.args.len() ==> at == Ok::<_, StopModel>(v.args[i as int])
            &&& v.head is Tuple && i >= v.args.len() ==> {
                &&& at is Err
                &&& at->Err_0 == StopModel::Error(
                    ErrorModel::Runtime(
                        RuntimeErrorCode::R0005,
                        "tuple index "@ + crate::text::decimal(i as nat) + " out of bounds"@,
                        span,
                        Seq::empty(),
                    ),
                )
            }
        }),
        ({
            let items = s.arrays[v.head->Array_0.0 as int];
            let idx = ValueTerm {
                head: ValueHead::Int(IntKind::U64, i as int),
                args: Seq::empty(),
            };
            let at = crate::semantics::array_part(s, v, idx, span);
            &&& v.head is Array && i < items.len() ==> at == Ok::<_, StopModel>(items[i as int])
            &&& v.head is Array && i >= items.len() ==> {
                &&& at is Err
                &&& at->Err_0 == StopModel::Error(
                    ErrorModel::Runtime(
                        RuntimeErrorCode::R0004,
                        "index "@ + crate::text::decimal(i as nat) + " out of bounds (len "@
                            + crate::text::decimal(items.len()) + ")"@,
                        span,
                        Seq::empty(),
                    ),
                )
            }
        }),
{
    assert((i as u64) as usize == i);
}

/// A field is got by its name: it is the component that stands under the name. Without one
/// the program ends.
pub proof fn fields_are_got_by_name(
    v: ValueTerm,
    labels: Seq<Seq<char>>,
    i: int,
    span: crate::ast::SpanModel,
    other: Seq<char>,
)
    requires
        crate::values::field_labels(v.head) == Some(labels),
        0 <= i < labels.len(),
        forall|j: int| 0 <= j < labels.len() && j != i ==> labels[j] != #[trigger] labels[i],
        !labels.contains(other),
    ensures
        crate::semantics::field_part(v, labels[i], span) == Ok::<_, StopModel>(v.args[i]),
        crate::semantics::field_part(v, other, span) == Err::<ValueTerm, _>(
            StopModel::Error(
                ErrorModel::Runtime(
                    RuntimeErrorCode::R0008,
                    "no field `"@ + other + "` on value"@,
                    span,
                    Seq::empty(),
                ),
            ),
        ),
        crate::semantics::payload(v, labels[i]) == if v.head is Enum {
            Ok::<ValueTerm, StopModel>(v.args[i])
        } else {
            crate::semantics::payload(v, other)
        },
        crate::semantics::payload(v, other) is Err,
{
    lemma_labels(labels, labels[i], 0);
    lemma_labels(labels, other, 0);
    let k = crate::values::label_at(labels, labels[i], 0);
    assert(k < labels.len()) by {
        if k == labels.len() {
            assert(labels[i] == labels[i]);
        }
    }
    if k != i {
        assert(labels[k] != labels[i]);
    }
}

proof fn lemma_labels(labels: Seq<Seq<char>>, name: Seq<char>, i: int)
    requires
        0 <= i <= labels.len(),
    ensures
        ({
            let k = crate::values::label_at(labels, name, i);
            &&& i <= k <= labels.len()
            &&& k < labels.len() ==> labels[k] == name
            &&& forall|j: int| i <= j < k ==> #[trigger] labels[j] != name
        }),
    decreases labels.len() - i,
{
    if i < labels.len() && labels[i] != name {
        lemma_labels(labels, name, i + 1);
    }
}

/// A reference to a variable leads back to what the variable holds.
pub proof fn references_lead_back(
    s: StoreModel,
    mutable: bool,
    c: CellId,
    span: crate::ast::SpanModel,
    n: nat,
)
    requires
        c.0 < s.cells.len(),
    ensures
        crate::semantics::unary_result(
            UnaryOp::Deref,
            crate::semantics::reference_term(mutable, c),
            span,
            s,
            n,
        ) == Ok::<ValueTerm, StopModel>(s.cells[c.0 as int]),
        crate::semantics::reference_term(mutable, c).head == if mutable {
            ValueHead::MutReference(c)
        } else {
            ValueHead::Reference(c)
        },
{
}

/// A reference that is taken through another one leads to the same place. A shared one can be
/// taken through either kind, an exclusive one only through an exclusive one.
pub proof fn references_are_taken_again(
    v: ValueTerm,
    span: crate::ast::SpanModel,
    env: EnvModel,
    w: World,
)
    ensures
        ({
            let shared = crate::semantics::reborrowed(false, v, span, env, w);
            let exclusive = crate::semantics::reborrowed(true, v, span, env, w);
            let plain = |h: ValueHead| ValueTerm { head: h, args: Seq::empty() };
            &&& v.head is Reference ==> shared == done(v, env, w) && failing(
                exclusive,
                RuntimeErrorCode::R0003,
                span,
            )
            &&& v.head is FieldReference ==> shared == done(v, env, w) && failing(
                exclusive,
                RuntimeErrorCode::R0003,
                span,
            )
            &&& v.head matches ValueHead::MutReference(c) ==> shared == done(
                plain(ValueHead::Reference(c)),
                env,
                w,
            ) && exclusive == done(v, env, w)
            &&& v.head matches ValueHead::MutFieldReference(c, path) ==> shared == done(
                plain(ValueHead::FieldReference(c, path)),
                env,
                w,
            ) && exclusive == done(v, env, w)
        }),
{
}

/// The body of a block runs in a scope of its own: its statements in order, then what stands
/// at its end, whose value is the block's, or the unit value.
pub proof fn blocks_have_the_value_at_their_end(
    b: TypedBlock,
    env: EnvModel,
    rt: RuntimeModel,
    w: World,
    n: nat,
)
    requires
        b.stmts@.len() == 0,
    ensures
        ({
            let o = crate::semantics::block_run(b, env, rt, w, n);
            let inner = EnvModel {
                scopes: env.scopes.push(Seq::empty()),
                pending: env.pending.push(Seq::empty()),
                ..env
            };
            &&& b.tail is None ==> o == done(nothing(), env, w)
            &&& b.tail matches Some(e) ==> {
                let t = run(*e, inner, rt, w, n);
                o.r == t.r && o.w == t.w && o.env == crate::environment::scope_ended(t.env)
            }
        }),
{
    let inner = crate::environment::scope_opened(env);
    assert(crate::semantics::hoisted(b.stmts@, inner, w.store) == (
        Ok::<(), StopModel>(()),
        inner,
        w.store,
    ));
    assert(crate::semantics::decls_run(b.stmts@, 0, inner, rt, w, n) == crate::semantics::unit(
        inner,
        w,
    ));
    assert(inner.scopes.drop_last() =~= env.scopes);
    assert(inner.pending.drop_last() =~= env.pending);
    assert(crate::machine::stored(w, w.store) == w);
}

/// The statements of a block run one after the other. The first that fails or jumps is the
/// last.
pub proof fn statements_run_in_order(
    ds: Seq<crate::typed_ast::TypedDecl>,
    i: int,
    env: EnvModel,
    rt: RuntimeModel,
    w: World,
    n: nat,
)
    requires
        0 <= i <= ds.len(),
    ensures
        ({
            let o = crate::semantics::decls_run(ds, i, env, rt, w, n);
            let d = crate::semantics::decl_run(ds[i], env, rt, w, n);
            &&& i == ds.len() ==> o == done(nothing(), env, w)
            &&& i < ds.len() && has_value(d) ==> o == crate::semantics::decls_run(
                ds,
                i + 1,
                d.env,
                rt,
                d.w,
                n,
            )
            &&& i < ds.len() && !has_value(d) ==> o == d
        }),
{
}

} // verus!
