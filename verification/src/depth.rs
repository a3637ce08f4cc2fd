//! How deep references, arrays and calls may nest does not change what is found at
//! their end, once it is found; and nothing that has been made goes away.

use crate::ast::SpanModel;
use crate::environment::StopModel;
use crate::machine::World;
use crate::native_keys::{NativeFn, NativeKey};
use crate::profiler::ProfilerModel;
use crate::store::{ClosureCode, ClosureModel, EnvModel, StoreModel};
use crate::typed_ast::{CaptureSpec, TypedDecl, TypedPattern, UnaryOp};
use crate::values::{CellId, LocalId, SegmentModel, ValueHead, ValueTerm};
use std::rc::Rc;
use vstd::prelude::*;

verus! {

/// Whether something has come to an end, and was not cut off.
pub open spec fn ended<T>(r: Result<T, StopModel>) -> bool {
    match r {
        Err(StopModel::Endless) => false,
        _ => true,
    }
}

/// Whether a store has at least as many cells, arrays and closures as another.
pub open spec fn grown(a: StoreModel, b: StoreModel) -> bool {
    &&& a.cells.len() <= b.cells.len()
    &&& a.arrays.len() <= b.arrays.len()
    &&& a.closures.len() <= b.closures.len()
}

/// The functions that a profile takes to be running, the innermost last.
pub open spec fn running_functions(p: Option<ProfilerModel>) -> Seq<Seq<char>> {
    match p {
        Some(p) => Seq::new(p.active.len(), |i: int| p.active[i].function),
        None => Seq::empty(),
    }
}

/// Whether what was there before a part of a program has run is still there
/// after it: what the host has answered and what has been made. Where the part
/// has not stopped, all calls that began in it have returned.
pub open spec fn kept(w: World, returned: bool, v: World) -> bool {
    &&& v.tape == w.tape
    &&& w.at <= v.at
    &&& grown(w.store, v.store)
    &&& v.profiler is Some == w.profiler is Some
    &&& returned ==> v.stack == w.stack && running_functions(v.profiler) == running_functions(
        w.profiler,
    )
}

/// What references lead to.
pub proof fn lemma_peeled(s: StoreModel, v: ValueTerm, span: SpanModel, n: nat, more: nat)
    requires
        n <= more,
    ensures
        ended(crate::reach::peeled(s, v, span, n)) ==> crate::reach::peeled(s, v, span, more)
            == crate::reach::peeled(s, v, span, n),
    decreases n, 0nat,
{
    match crate::reach::target(v.head) {
        None => {},
        Some((c, path)) => if n > 0 {
            let k = (n - 1) as nat;
            let l = (more - 1) as nat;
            lemma_path_read(s, crate::store::cell_at(s, c), path, span, k, l);
            match crate::reach::path_read(s, crate::store::cell_at(s, c), path, span, k) {
                Ok(x) => lemma_peeled(s, x, span, k, l),
                Err(_) => {},
            }
        },
    }
}

/// What a path leads to.
pub proof fn lemma_path_read(
    s: StoreModel,
    v: ValueTerm,
    path: Seq<SegmentModel>,
    span: SpanModel,
    n: nat,
    more: nat,
)
    requires
        n <= more,
    ensures
        ended(crate::reach::path_read(s, v, path, span, n)) ==> crate::reach::path_read(
            s,
            v,
            path,
            span,
            more,
        ) == crate::reach::path_read(s, v, path, span, n),
    decreases n, path.len() + 1,
{
    if path.len() > 0 {
        lemma_peeled(s, v, span, n, more);
        match crate::reach::peeled(s, v, span, n) {
            Ok(x) => match crate::reach::part(s, x, path[0], span) {
                Ok(y) => lemma_path_read(s, y, path.skip(1), span, n, more),
                Err(_) => {},
            },
            Err(_) => {},
        }
    }
}

/// What is written at the end of a path.
pub proof fn lemma_path_written(
    s: StoreModel,
    v: ValueTerm,
    path: Seq<SegmentModel>,
    new: ValueTerm,
    span: SpanModel,
    n: nat,
    more: nat,
)
    requires
        n <= more,
    ensures
        ended(crate::reach::path_written(s, v, path, new, span, n))
            ==> crate::reach::path_written(s, v, path, new, span, more)
            == crate::reach::path_written(s, v, path, new, span, n),
        crate::reach::path_written(s, v, path, new, span, n) matches Ok((t, _)) ==> grown(s, t),
    decreases n, path.len(),
{
    if path.len() > 0 {
        match v.head {
            ValueHead::MutReference(c) => if n > 0 {
                lemma_path_written(
                    s,
                    crate::store::cell_at(s, c),
                    path,
                    new,
                    span,
                    (n - 1) as nat,
                    (more - 1) as nat,
                );
            },
            ValueHead::MutFieldReference(c, first) => if n > 0 {
                lemma_path_written(
                    s,
                    crate::store::cell_at(s, c),
                    first + path,
                    new,
                    span,
                    (n - 1) as nat,
                    (more - 1) as nat,
                );
            },
            _ => match crate::reach::part(s, v, path[0], span) {
                Ok(child) => lemma_path_written(s, child, path.skip(1), new, span, n, more),
                Err(_) => {},
            },
        }
    }
}

/// The end of a chain of references.
pub proof fn lemma_chain_end(s: StoreModel, c: CellId, n: nat, more: nat)
    requires
        n <= more,
    ensures
        crate::semantics::chain_end(s, c, n) is Some ==> crate::semantics::chain_end(s, c, more)
            == crate::semantics::chain_end(s, c, n),
    decreases n,
{
    match crate::reach::direct_cell(crate::store::cell_at(s, c).head) {
        Some(d) => if n > 0 {
            lemma_chain_end(s, d, (n - 1) as nat, (more - 1) as nat);
        },
        None => {},
    }
}

/// How a value is written.
pub proof fn lemma_shown(s: StoreModel, v: ValueTerm, n: nat, more: nat)
    requires
        n <= more,
    ensures
        crate::display::shown(s, v, n) is Some ==> crate::display::shown(s, v, more)
            == crate::display::shown(s, v, n),
    decreases n, v, 0int,
{
    let all = v.args.len() as int;
    match v.head {
        ValueHead::Tuple => lemma_items_shown(s, v.args, all, n, more),
        ValueHead::Array(a) => if n > 0 {
            let items = crate::store::array_at(s, a);
            lemma_items_shown(s, items, items.len() as int, (n - 1) as nat, (more - 1) as nat);
        },
        ValueHead::Record(labels) => lemma_fields_shown(
            s,
            v.args,
            labels,
            crate::display::ordered(labels, labels.len()),
            all,
            n,
            more,
        ),
        ValueHead::Struct(_, _, labels) => lemma_fields_shown(
            s,
            v.args,
            labels,
            crate::display::ordered(labels, labels.len()),
            all,
            n,
            more,
        ),
        ValueHead::Enum(_, _, _, _, labels) => {
            lemma_fields_shown(
                s,
                v.args,
                labels,
                crate::display::ordered(labels, labels.len()),
                all,
                n,
                more,
            );
            lemma_part_shown(
                s,
                v.args,
                crate::values::label_at(labels, "value"@, 0),
                n,
                more,
            );
            lemma_part_shown(
                s,
                v.args,
                crate::values::label_at(labels, "error"@, 0),
                n,
                more,
            );
        },
        ValueHead::Reference(c) => if n > 0 {
            lemma_shown(s, crate::store::cell_at(s, c), (n - 1) as nat, (more - 1) as nat);
        },
        ValueHead::MutReference(c) => if n > 0 {
            lemma_shown(s, crate::store::cell_at(s, c), (n - 1) as nat, (more - 1) as nat);
        },
        ValueHead::Dyn(c, _, _, _, _) => if n > 0 {
            lemma_shown(s, crate::store::cell_at(s, c), (n - 1) as nat, (more - 1) as nat);
        },
        _ => {},
    }
}

proof fn lemma_part_shown(s: StoreModel, items: Seq<ValueTerm>, at: int, n: nat, more: nat)
    requires
        n <= more,
    ensures
        crate::display::part_shown(s, items, at, n) is Some ==> crate::display::part_shown(
            s,
            items,
            at,
            more,
        ) == crate::display::part_shown(s, items, at, n),
    decreases n, items, 0int,
{
    if 0 <= at < items.len() {
        lemma_shown(s, items[at], n, more);
    }
}

proof fn lemma_items_shown(s: StoreModel, items: Seq<ValueTerm>, k: int, n: nat, more: nat)
    requires
        n <= more,
    ensures
        crate::display::items_shown(s, items, k, n) is Some ==> crate::display::items_shown(
            s,
            items,
            k,
            more,
        ) == crate::display::items_shown(s, items, k, n),
    decreases n, items, k,
{
    if 0 < k <= items.len() {
        lemma_items_shown(s, items, k - 1, n, more);
        lemma_shown(s, items[k - 1], n, more);
    }
}

proof fn lemma_fields_shown(
    s: StoreModel,
    items: Seq<ValueTerm>,
    labels: Seq<Seq<char>>,
    order: Seq<int>,
    k: int,
    n: nat,
    more: nat,
)
    requires
        n <= more,
    ensures
        crate::display::fields_shown(s, items, labels, order, k, n) is Some
            ==> crate::display::fields_shown(s, items, labels, order, k, more)
            == crate::display::fields_shown(s, items, labels, order, k, n),
    decreases n, items, k,
{
    if 0 < k <= items.len() {
        let at = order[k - 1];
        if 0 <= at < items.len() {
            lemma_fields_shown(s, items, labels, order, k - 1, n, more);
            lemma_shown(s, items[at], n, more);
        }
    }
}

/// Whether a call of a host function leaves all that has been made.
spec fn step_grown(s: StoreModel, step: crate::natives::NativeModel) -> bool {
    step matches crate::natives::NativeModel::Done(Ok((t, _))) ==> grown(s, t)
}

proof fn lemma_list_native(
    s: StoreModel,
    key: NativeKey,
    args: Seq<ValueTerm>,
    span: SpanModel,
    n: nat,
    more: nat,
)
    requires
        n <= more,
    ensures
        crate::natives::list_native(s, key, args, span, n) != crate::natives::NativeModel::Done(
            Err(StopModel::Endless),
        ) ==> crate::natives::list_native(s, key, args, span, more)
            == crate::natives::list_native(s, key, args, span, n),
        step_grown(s, crate::natives::list_native(s, key, args, span, n)),
{
    match crate::natives::arg(args, 0) {
        Some(v) => lemma_shown(s, v, n, more),
        None => {},
    }
}

/// How a call of a host function begins.
pub proof fn lemma_native_started(
    s: StoreModel,
    fun: NativeFn,
    args: Seq<ValueTerm>,
    span: SpanModel,
    n: nat,
    more: nat,
)
    requires
        n <= more,
    ensures
        crate::natives::native_started(s, fun, args, span, n) != crate::natives::NativeModel::Done(
            Err(StopModel::Endless),
        ) ==> crate::natives::native_started(s, fun, args, span, more)
            == crate::natives::native_started(s, fun, args, span, n),
        crate::natives::native_started(s, fun, args, span, n) matches
            crate::natives::NativeModel::Done(Ok((t, _))) ==> grown(s, t),
{
    match fun {
        NativeFn::ArrayLen => {},
        NativeFn::Key(key) => {
            lemma_list_native(s, key, args, span, n, more);
            assert(step_grown(s, crate::natives::conversion_native(s, key, args, span, n)));
            assert(step_grown(s, crate::natives::text_native(s, key, args, span, n)));
        },
    }
}

/// A call of a host function.
pub proof fn lemma_native_called(
    fun: NativeFn,
    args: Seq<ValueTerm>,
    span: SpanModel,
    w: World,
    n: nat,
    more: nat,
)
    requires
        n <= more,
    ensures
        ended(crate::semantics::native_called(fun, args, span, w, n).0)
            ==> crate::semantics::native_called(fun, args, span, w, more)
            == crate::semantics::native_called(fun, args, span, w, n),
        kept(w, true, crate::semantics::native_called(fun, args, span, w, n).1),
{
    lemma_native_started(w.store, fun, args, span, n, more);
}

/// A profile into which a call is entered and then left again.
pub proof fn lemma_profile(w: World, function: Seq<char>, v: World)
    requires
        kept(crate::machine::profile_entered(w, function), true, v),
    ensures
        kept(w, true, crate::machine::profile_left(v)),
{
    match (w.profiler, v.profiler) {
        (Some(p), Some(q)) => {
            let entered = crate::machine::profile_entered(w, function);
            let names = running_functions(w.profiler);
            assert(running_functions(entered.profiler) =~= names.push(function));
            let left = crate::machine::profile_left(v);
            assert(running_functions(v.profiler).len() == names.len() + 1);
            assert forall|i: int| 0 <= i < names.len() implies #[trigger] running_functions(
                left.profiler,
            )[i] == names[i] by {
                assert(names.push(function)[i] == names[i]);
                assert(running_functions(v.profiler)[i] == names.push(function)[i]);
                assert(q.active[i].function == running_functions(v.profiler)[i]);
            }
            assert(running_functions(left.profiler) =~= names);
        },
        _ => {},
    }
}

/// A call of an intrinsic.
pub proof fn lemma_intrinsic_called(
    label: Seq<char>,
    fun: NativeFn,
    args: Seq<ValueTerm>,
    span: SpanModel,
    w: World,
    n: nat,
    more: nat,
)
    requires
        n <= more,
    ensures
        ended(crate::semantics::intrinsic_called(label, fun, args, span, w, n).r)
            ==> crate::semantics::intrinsic_called(label, fun, args, span, w, more)
            == crate::semantics::intrinsic_called(label, fun, args, span, w, n),
        kept(w, true, crate::semantics::intrinsic_called(label, fun, args, span, w, n).w),
{
    let v = crate::machine::profile_entered(w, label);
    lemma_native_called(fun, args, span, v, n, more);
    lemma_profile(w, label, crate::semantics::native_called(fun, args, span, v, n).1);
}

/// A call that begins and returns.
pub proof fn lemma_frame(w: World, function: Seq<char>, span: SpanModel, returned: bool, v: World)
    requires
        kept(crate::machine::frame_pushed(w, function, span), returned, v),
    ensures
        kept(w, false, v),
        kept(w, returned, crate::machine::frame_popped(v)),
{
    let entered = crate::machine::profile_entered(w, function);
    let pushed = crate::machine::frame_pushed(w, function, span);
    if returned {
        let u = World { stack: entered.stack, ..v };
        lemma_profile(w, function, u);
        assert(crate::environment::popped(v.stack) =~= w.stack);
    }
}

/// What a unary operator gives.
pub proof fn lemma_unary_result(
    op: UnaryOp,
    v: ValueTerm,
    span: SpanModel,
    s: StoreModel,
    n: nat,
    more: nat,
)
    requires
        n <= more,
    ensures
        ended(crate::semantics::unary_result(op, v, span, s, n))
            ==> crate::semantics::unary_result(op, v, span, s, more)
            == crate::semantics::unary_result(op, v, span, s, n),
{
    match v.head {
        ValueHead::FieldReference(c, path) => lemma_path_read(
            s,
            crate::store::cell_at(s, c),
            path,
            span,
            n,
            more,
        ),
        ValueHead::MutFieldReference(c, path) => lemma_path_read(
            s,
            crate::store::cell_at(s, c),
            path,
            span,
            n,
            more,
        ),
        _ => {},
    }
}

/// What is called.
pub proof fn lemma_call_target(v: ValueTerm, span: SpanModel, s: StoreModel, n: nat, more: nat)
    requires
        n <= more,
    ensures
        ended(crate::semantics::call_target(v, span, s, n)) ==> crate::semantics::call_target(
            v,
            span,
            s,
            more,
        ) == crate::semantics::call_target(v, span, s, n),
{
    lemma_unary_result(UnaryOp::Deref, v, span, s, n, more);
}

/// What is made of a value when it is copied leaves what there is.
pub proof fn lemma_copied(s: StoreModel, v: ValueTerm, n: nat)
    ensures
        crate::copying::copied(s, v, n) matches Some((t, _)) ==> crate::copying::extends(s, t),
    decreases n, 0int, v, 0int,
{
    crate::copying::lemma_extends_self(s);
    match v.head {
        ValueHead::Array(a) => if n > 0 {
            let items = crate::store::array_at(s, a);
            lemma_list_copied(s, items, (n - 1) as nat, 0, Seq::empty());
            match crate::copying::list_copied(s, items, (n - 1) as nat, 0, Seq::empty()) {
                Some((t, made)) => {
                    lemma_made(t, v, made, arbitrary());
                    crate::copying::lemma_extends_on(s, t, crate::store::array_made(t, made).0);
                },
                None => {},
            }
        },
        ValueHead::Callable(crate::values::CallableModel::Closure(c)) => {
            match crate::store::closure_at(s, c) {
                Some(closure) => if n > 0 {
                    let k = (n - 1) as nat;
                    lemma_env_copied(s, closure.captured, k);
                    match crate::copying::closure_env_copied(s, closure, k) {
                        Some((t, captured)) => {
                            let made = ClosureModel {
                                code: closure.code,
                                captured,
                                in_call: false,
                            };
                            lemma_made(t, v, Seq::empty(), made);
                            crate::copying::lemma_extends_on(
                                s,
                                t,
                                crate::store::closure_made(t, made).0,
                            );
                        },
                        None => {},
                    }
                },
                None => {},
            }
        },
        _ => lemma_list_copied(s, v.args, n, 0, Seq::empty()),
    }
}

pub proof fn lemma_made(s: StoreModel, v: ValueTerm, items: Seq<ValueTerm>, c: ClosureModel)
    ensures
        crate::copying::extends(s, crate::store::cell_made(s, v).0),
        crate::copying::extends(s, crate::store::array_made(s, items).0),
        crate::copying::extends(s, crate::store::closure_made(s, c).0),
{
    crate::copying::lemma_extends_made(s, v, items, c);
}

pub proof fn lemma_list_copied(
    s: StoreModel,
    items: Seq<ValueTerm>,
    n: nat,
    i: int,
    done: Seq<ValueTerm>,
)
    ensures
        crate::copying::list_copied(s, items, n, i, done) matches Some((t, _))
            ==> crate::copying::extends(s, t),
    decreases n, 0int, items, items.len() - i,
{
    crate::copying::lemma_extends_self(s);
    if 0 <= i < items.len() {
        lemma_copied(s, items[i], n);
        match crate::copying::copied(s, items[i], n) {
            Some((t, x)) => {
                lemma_list_copied(t, items, n, i + 1, done.push(x));
                match crate::copying::list_copied(t, items, n, i + 1, done.push(x)) {
                    Some((u, _)) => crate::copying::lemma_extends_on(s, t, u),
                    None => {},
                }
            },
            None => {},
        }
    }
}

pub proof fn lemma_scope_copied(
    s: StoreModel,
    scope: Seq<(Seq<char>, CellId)>,
    n: nat,
    i: int,
    done: Seq<(Seq<char>, CellId)>,
)
    ensures
        crate::copying::scope_copied(s, scope, n, i, done) matches Some((t, _))
            ==> crate::copying::extends(s, t),
    decreases n, 1int, scope, scope.len() - i,
{
    crate::copying::lemma_extends_self(s);
    if 0 <= i < scope.len() {
        let v = crate::store::cell_at(s, scope[i].1);
        lemma_copied(s, v, n);
        match crate::copying::copied(s, v, n) {
            Some((t, x)) => {
                lemma_made(t, x, Seq::empty(), arbitrary());
                let (u, c) = crate::store::cell_made(t, x);
                crate::copying::lemma_extends_on(s, t, u);
                let next = done.push((scope[i].0, c));
                lemma_scope_copied(u, scope, n, i + 1, next);
                match crate::copying::scope_copied(u, scope, n, i + 1, next) {
                    Some((r, _)) => crate::copying::lemma_extends_on(s, u, r),
                    None => {},
                }
            },
            None => {},
        }
    }
}

pub proof fn lemma_scopes_copied(
    s: StoreModel,
    scopes: Seq<Seq<(Seq<char>, CellId)>>,
    n: nat,
    i: int,
    done: Seq<Seq<(Seq<char>, CellId)>>,
)
    ensures
        crate::copying::scopes_copied(s, scopes, n, i, done) matches Some((t, _))
            ==> crate::copying::extends(s, t),
    decreases n, 2int, scopes, scopes.len() - i,
{
    crate::copying::lemma_extends_self(s);
    if 0 <= i < scopes.len() {
        lemma_scope_copied(s, scopes[i], n, 0, Seq::empty());
        match crate::copying::scope_copied(s, scopes[i], n, 0, Seq::empty()) {
            Some((t, scope)) => {
                lemma_scopes_copied(t, scopes, n, i + 1, done.push(scope));
                match crate::copying::scopes_copied(t, scopes, n, i + 1, done.push(scope)) {
                    Some((u, _)) => crate::copying::lemma_extends_on(s, t, u),
                    None => {},
                }
            },
            None => {},
        }
    }
}

pub proof fn lemma_env_copied(s: StoreModel, env: EnvModel, n: nat)
    ensures
        crate::copying::env_copied(s, env, n) matches Some((t, _)) ==> crate::copying::extends(
            s,
            t,
        ),
    decreases n, 3int, env, 0int,
{
    lemma_scopes_copied(s, env.scopes, n, 0, Seq::empty());
}

/// Copying a value changes nothing that there was.
pub proof fn lemma_value_copied(s: StoreModel, v: ValueTerm)
    ensures
        crate::copying::value_copied(s, v) matches Some((t, _)) ==> crate::copying::extends(s, t),
{
    lemma_copied(s, v, crate::copying::depth_bound(s));
}

/// Copying an environment changes nothing that there was.
pub proof fn lemma_environment_copied(s: StoreModel, env: EnvModel)
    ensures
        crate::copying::environment_copied(s, env) matches Some((t, _))
            ==> crate::copying::extends(s, t),
{
    lemma_env_copied(s, env, crate::copying::depth_bound(s));
}

/// Defining a variable changes nothing that there was.
pub proof fn lemma_variable_defined(
    s: StoreModel,
    env: EnvModel,
    id: Option<LocalId>,
    name: Seq<char>,
    v: ValueTerm,
)
    ensures
        crate::environment::variable_defined(s, env, id, name, v) matches Some((t, _))
            ==> crate::copying::extends(s, t),
{
    lemma_value_copied(s, v);
    match crate::copying::value_copied(s, v) {
        Some((t, x)) => {
            lemma_made(t, x, Seq::empty(), arbitrary());
            crate::copying::lemma_extends_on(s, t, crate::store::cell_made(t, x).0);
        },
        None => {},
    }
}

proof fn lemma_captured_from(
    s: StoreModel,
    env: EnvModel,
    captures: Seq<CaptureSpec>,
    ids: Seq<Option<LocalId>>,
    span: SpanModel,
    k: nat,
)
    ensures
        crate::environment::captured_from(s, env, captures, ids, span, k) matches Ok((t, _))
            ==> grown(s, t),
    decreases k,
{
    if k > 0 {
        let prev = (k - 1) as nat;
        lemma_captured_from(s, env, captures, ids, span, prev);
        match crate::environment::captured_from(s, env, captures, ids, span, prev) {
            Ok((t, made)) => {
                let id = crate::copying::id_at(ids, k - 1);
                let name = crate::copying::capture_name(captures[k - 1]);
                match crate::copying::variable_cell(env, id, name) {
                    Some(cell) => lemma_variable_defined(
                        t,
                        made,
                        id,
                        name,
                        crate::store::cell_at(t, cell),
                    ),
                    None => {},
                }
            },
            Err(_) => {},
        }
    }
}

/// Making a closure leaves what there is.
pub proof fn lemma_closure_captured(
    s: StoreModel,
    env: EnvModel,
    captures: Seq<CaptureSpec>,
    ids: Seq<Option<LocalId>>,
    span: SpanModel,
)
    ensures
        crate::environment::closure_captured(s, env, captures, ids, span) matches Ok((t, _))
            ==> grown(s, t),
{
    lemma_environment_copied(s, env);
    lemma_captured_from(s, env, captures, ids, span, captures.len());
}

/// Binding arguments leaves what there is.
pub proof fn lemma_args_bound(
    s: StoreModel,
    env: EnvModel,
    code: ClosureCode,
    args: Seq<ValueTerm>,
    shift: int,
    i: int,
)
    ensures
        grown(s, crate::semantics::args_bound(s, env, code, args, shift, i).1),
    decreases args.len() - i,
{
    if 0 <= i < args.len() {
        if 0 <= i + shift < crate::semantics::code_params(code).len() {
            let id = crate::copying::id_at(crate::semantics::code_param_ids(code), i + shift);
            let name = crate::semantics::code_params(code)[i + shift].name@;
            lemma_variable_defined(s, env, id, name, args[i]);
            match crate::environment::variable_defined(s, env, id, name, args[i]) {
                Some((t, e)) => lemma_args_bound(t, e, code, args, shift, i + 1),
                None => {},
            }
        } else {
            lemma_args_bound(s, env, code, args, shift, i + 1);
        }
    }
}

/// Binding variables leaves what there is.
pub proof fn lemma_bindings_bound(
    s: StoreModel,
    env: EnvModel,
    bs: Seq<(Seq<char>, Option<LocalId>, ValueTerm)>,
    i: int,
)
    ensures
        grown(s, crate::semantics::bindings_bound(s, env, bs, i).1),
    decreases bs.len() - i,
{
    if 0 <= i < bs.len() {
        lemma_variable_defined(s, env, bs[i].1, bs[i].0, bs[i].2);
        match crate::environment::variable_defined(s, env, bs[i].1, bs[i].0, bs[i].2) {
            Some((t, e)) => lemma_bindings_bound(t, e, bs, i + 1),
            None => {},
        }
    }
}

/// A match leaves what there is.
pub proof fn lemma_matched(
    s: StoreModel,
    p: TypedPattern,
    v: ValueTerm,
    bindings: Seq<(Seq<char>, Option<LocalId>, ValueTerm)>,
)
    ensures
        grown(s, crate::pattern::matched(s, p, v, bindings).store),
    decreases p, 0int,
{
    match p {
        TypedPattern::Tuple(ps, _) => lemma_all_matched(s, ps@, v.args, bindings, 0),
        TypedPattern::Array { elems, rest, span } => match v.head {
            ValueHead::Array(a) => lemma_all_matched(
                s,
                elems@,
                crate::store::array_at(s, a),
                bindings,
                0,
            ),
            _ => {},
        },
        TypedPattern::EnumVariant { path, variant_id, fields, rest, span } => lemma_fields_bound(
            s,
            crate::pattern::pattern_fields(fields@),
            v,
            bindings,
            0,
        ),
        TypedPattern::Struct { name, type_id, fields, rest, span } => lemma_fields_bound(
            s,
            crate::pattern::pattern_fields(fields@),
            v,
            bindings,
            0,
        ),
        TypedPattern::Record { fields, rest, span } => lemma_fields_bound(
            s,
            crate::pattern::record_fields(fields@),
            v,
            bindings,
            0,
        ),
        _ => {},
    }
}

proof fn lemma_all_matched(
    s: StoreModel,
    ps: Seq<TypedPattern>,
    vs: Seq<ValueTerm>,
    bindings: Seq<(Seq<char>, Option<LocalId>, ValueTerm)>,
    i: int,
)
    ensures
        grown(s, crate::pattern::all_matched(s, ps, vs, bindings, i).store),
    decreases ps, ps.len() - i,
{
    if 0 <= i < ps.len() {
        lemma_matched(s, ps[i], vs[i], bindings);
        let r = crate::pattern::matched(s, ps[i], vs[i], bindings);
        lemma_all_matched(r.store, ps, vs, r.bindings, i + 1);
    }
}

proof fn lemma_fields_bound(
    s: StoreModel,
    fields: Seq<(Seq<char>, Option<LocalId>)>,
    v: ValueTerm,
    bindings: Seq<(Seq<char>, Option<LocalId>, ValueTerm)>,
    i: int,
)
    ensures
        crate::pattern::fields_bound(s, fields, v, bindings, i).store == s,
    decreases fields.len() - i,
{
    if 0 <= i < fields.len() {
        match crate::values::field_of(v, fields[i].0) {
            Some(x) => lemma_fields_bound(
                s,
                fields,
                v,
                bindings.push((fields[i].0, fields[i].1, x)),
                i + 1,
            ),
            None => {},
        }
    }
}

/// The functions of a block leave what there is.
pub proof fn lemma_hoisted(ds: Seq<TypedDecl>, env: EnvModel, s: StoreModel)
    ensures
        grown(s, crate::semantics::hoisted(ds, env, s).2),
{
    lemma_places_made(ds, 0, env, s);
    let (t, e) = crate::semantics::places_made(ds, 0, env, s);
    lemma_functions_made(ds, 0, e, t);
}

proof fn lemma_places_made(ds: Seq<TypedDecl>, i: int, env: EnvModel, s: StoreModel)
    ensures
        grown(s, crate::semantics::places_made(ds, i, env, s).0),
    decreases ds.len() - i,
{
    if 0 <= i < ds.len() {
        match ds[i] {
            TypedDecl::Fun(f) => {
                let (t, c) = crate::store::cell_made(s, crate::values::unit_term());
                let e = crate::environment::variable_bound(env, f.local_id, f.name@, c);
                lemma_places_made(ds, i + 1, e, t);
            },
            _ => lemma_places_made(ds, i + 1, env, s),
        }
    }
}

/// What is behind a shared pointer.
pub open spec fn whole<T>(r: Rc<T>) -> T {
    *r
}

proof fn lemma_functions_made(ds: Seq<TypedDecl>, i: int, env: EnvModel, s: StoreModel)
    ensures
        grown(s, crate::semantics::functions_made(ds, i, env, s).1),
    decreases ds.len() - i,
{
    if 0 <= i < ds.len() {
        match ds[i] {
            TypedDecl::Fun(f) => match crate::semantics::function_made(whole(f), env, s) {
                Ok(t) => lemma_functions_made(ds, i + 1, env, t),
                Err(_) => {},
            },
            _ => lemma_functions_made(ds, i + 1, env, s),
        }
    }
}

} // verus!
