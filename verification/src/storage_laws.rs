//! What holds of variables, scopes, captures, copies and places.

use crate::ast::SpanModel;
use crate::environment::StopModel;
use crate::machine::World;
use crate::profiler::ProfilerModel;
use crate::runtime::RuntimeModel;
use crate::store::{EnvModel, StoreModel};
use crate::typed_ast::{AssignOp, BindingId, CaptureSpec, TypedFunDecl, TypedPattern};
use crate::values::{CellId, LocalId, SegmentModel, ValueTerm};
use vstd::prelude::*;

verus! {

/// A variable that has been bound is found by its name and by its identity, and
/// other variables are found as before.
pub proof fn bound_variables_are_found(
    env: EnvModel,
    id: Option<LocalId>,
    name: Seq<char>,
    c: CellId,
    other_id: LocalId,
    other: Seq<char>,
)
    requires
        env.scopes.len() > 0,
    ensures
        ({
            let e = crate::environment::variable_bound(env, id, name, c);
            &&& crate::copying::name_cell(e.scopes, name) == Some(c)
            &&& crate::copying::variable_cell(e, id, name) == Some(c)
            &&& other != name ==> crate::copying::name_cell(e.scopes, other)
                == crate::copying::name_cell(env.scopes, other)
            &&& id != Some(other_id) ==> crate::assoc::entry(e.frame, other_id)
                == crate::assoc::entry(env.frame, other_id)
        }),
{
    let e = crate::environment::variable_bound(env, id, name, c);
    crate::assoc::lemma_put_entry(env.scopes.last(), name, c, other, 0);
    match id {
        Some(i) => crate::assoc::lemma_put_entry(env.frame, i, c, other_id, 0),
        None => {},
    }
    assert(e.scopes.drop_last() =~= env.scopes.drop_last());
}

/// A variable that has been defined has a new cell with a copy of its value, and
/// nothing that was there before has changed.
pub proof fn defined_variables_have_their_own_cells(
    s: StoreModel,
    env: EnvModel,
    id: Option<LocalId>,
    name: Seq<char>,
    v: ValueTerm,
)
    requires
        env.scopes.len() > 0,
        crate::environment::variable_defined(s, env, id, name, v) is Some,
        crate::environment::variable_defined(
            s,
            env,
            id,
            name,
            v,
        )->Some_0.0.cells.len() <= usize::MAX,
    ensures
        ({
            let (t, e) = crate::environment::variable_defined(s, env, id, name, v)->0;
            &&& crate::copying::extends(s, t)
            &&& crate::copying::name_cell(e.scopes, name) matches Some(c)
            &&& s.cells.len() <= c.0 < t.cells.len()
            &&& crate::store::cell_at(t, c) == crate::copying::value_copied(s, v)->Some_0.1
        }),
{
    crate::depth::lemma_variable_defined(s, env, id, name, v);
    crate::depth::lemma_value_copied(s, v);
    let (t, x) = crate::copying::value_copied(s, v)->0;
    let c = crate::store::cell_made(t, x).1;
    bound_variables_are_found(env, id, name, c, LocalId(0), name);
}

/// The names of a scope end with the scope.
pub proof fn names_end_with_their_scope(
    env: EnvModel,
    id: Option<LocalId>,
    name: Seq<char>,
    c: CellId,
)
    ensures
        crate::environment::scope_ended(crate::environment::scope_opened(env)) == env,
        crate::environment::scope_ended(
            crate::environment::variable_bound(
                crate::environment::scope_opened(env),
                id,
                name,
                c,
            ),
        ).scopes == env.scopes,
{
    let opened = crate::environment::scope_opened(env);
    assert(opened.scopes.drop_last() =~= env.scopes);
    assert(opened.pending.drop_last() =~= env.pending);
    let bound = crate::environment::variable_bound(opened, id, name, c);
    assert(bound.scopes.drop_last() =~= env.scopes);
}

proof fn lemma_put_new<A, B>(list: Seq<(A, B)>, key: A, value: B, i: int)
    requires
        0 <= i <= list.len(),
        crate::assoc::entry_from(list, key, i) is None,
    ensures
        crate::assoc::put_from(list, key, value, i) == list.push((key, value)),
        crate::assoc::dropped_from(list.push((key, value)), key, i) == list,
    decreases list.len() - i,
{
    if i < list.len() {
        lemma_put_new(list, key, value, i + 1);
        assert(list.push((key, value))[i] == list[i]);
    } else {
        assert(list.push((key, value)).remove(i) =~= list);
    }
}

/// A nested function that waits to be made is found by its identity, and once it
/// has been taken everything is as it was before.
pub proof fn waiting_functions_are_taken_once(
    pending: Seq<Seq<(LocalId, TypedFunDecl)>>,
    id: LocalId,
    f: TypedFunDecl,
)
    requires
        pending.len() > 0,
        crate::environment::waiting(pending, id) is None,
    ensures
        ({
            let later = pending.drop_last().push(crate::assoc::put(pending.last(), id, f));
            &&& crate::environment::waiting(later, id) == Some(f)
            &&& crate::environment::no_longer_waiting(later, id) == pending
        }),
{
    let later = pending.drop_last().push(crate::assoc::put(pending.last(), id, f));
    lemma_put_new(pending.last(), id, f, 0);
    crate::assoc::lemma_put_entry(pending.last(), id, f, id, 0);
    assert(later.drop_last() =~= pending.drop_last());
    assert(later.drop_last().push(pending.last()) =~= pending);
}

proof fn lemma_captured_from(
    s: StoreModel,
    env: EnvModel,
    captures: Seq<CaptureSpec>,
    ids: Seq<Option<LocalId>>,
    span: SpanModel,
    k: nat,
)
    ensures
        crate::environment::captured_from(s, env, captures, ids, span, k) matches Ok((t, made))
            ==> made.scopes.len() == 1 && crate::copying::extends(s, t),
    decreases k,
{
    crate::copying::lemma_extends_self(s);
    if k > 0 {
        let prev = (k - 1) as nat;
        lemma_captured_from(s, env, captures, ids, span, prev);
        match crate::environment::captured_from(s, env, captures, ids, span, prev) {
            Ok((t, made)) => {
                let id = crate::copying::id_at(ids, k - 1);
                let name = crate::copying::capture_name(captures[k - 1]);
                match crate::copying::variable_cell(env, id, name) {
                    Some(cell) => {
                        let v = crate::store::cell_at(t, cell);
                        crate::depth::lemma_variable_defined(t, made, id, name, v);
                        match crate::environment::variable_defined(t, made, id, name, v) {
                            Some((u, _)) => crate::copying::lemma_extends_on(s, t, u),
                            None => {},
                        }
                    },
                    None => {},
                }
            },
            Err(_) => {},
        }
    }
}

/// A capture by reference is the variable itself: the closure and what surrounds
/// it share one cell.
pub proof fn reference_captures_are_shared(
    s: StoreModel,
    env: EnvModel,
    captures: Seq<CaptureSpec>,
    ids: Seq<Option<LocalId>>,
    span: SpanModel,
    k: nat,
)
    requires
        k < captures.len(),
        crate::copying::by_reference(captures[k as int]),
        crate::environment::captured_from(s, env, captures, ids, span, k + 1) is Ok,
    ensures
        ({
            let (t, made) = crate::environment::captured_from(
                s,
                env,
                captures,
                ids,
                span,
                k + 1,
            )->Ok_0;
            let name = crate::copying::capture_name(captures[k as int]);
            let id = crate::copying::id_at(ids, k as int);
            &&& crate::copying::variable_cell(env, id, name) is Some
            &&& crate::copying::variable_cell(made, id, name) == crate::copying::variable_cell(
                env,
                id,
                name,
            )
        }),
{
    lemma_captured_from(s, env, captures, ids, span, k);
    let (t, made) = crate::environment::captured_from(s, env, captures, ids, span, k)->Ok_0;
    let name = crate::copying::capture_name(captures[k as int]);
    let id = crate::copying::id_at(ids, k as int);
    let c = crate::copying::variable_cell(env, id, name)->0;
    bound_variables_are_found(made, id, name, c, LocalId(0), name);
}

/// A capture by value is a new cell with a copy, and the variable keeps its own.
pub proof fn value_captures_are_separate(
    s: StoreModel,
    env: EnvModel,
    captures: Seq<CaptureSpec>,
    ids: Seq<Option<LocalId>>,
    span: SpanModel,
    k: nat,
)
    requires
        k < captures.len(),
        !crate::copying::by_reference(captures[k as int]),
        crate::environment::captured_from(s, env, captures, ids, span, k + 1) is Ok,
        crate::environment::captured_from(
            s,
            env,
            captures,
            ids,
            span,
            k + 1,
        )->Ok_0.0.cells.len() <= usize::MAX,
    ensures
        ({
            let (t, made) = crate::environment::captured_from(
                s,
                env,
                captures,
                ids,
                span,
                k + 1,
            )->Ok_0;
            let name = crate::copying::capture_name(captures[k as int]);
            let id = crate::copying::id_at(ids, k as int);
            &&& crate::copying::extends(s, t)
            &&& crate::copying::variable_cell(made, id, name) matches Some(c)
            &&& s.cells.len() <= c.0 < t.cells.len()
        }),
{
    lemma_captured_from(s, env, captures, ids, span, k);
    lemma_captured_from(s, env, captures, ids, span, k + 1);
    let (t, made) = crate::environment::captured_from(s, env, captures, ids, span, k)->Ok_0;
    let name = crate::copying::capture_name(captures[k as int]);
    let id = crate::copying::id_at(ids, k as int);
    let v = crate::store::cell_at(t, crate::copying::variable_cell(env, id, name)->0);
    defined_variables_have_their_own_cells(t, made, id, name, v);
    let (u, x) = crate::copying::value_copied(t, v)->0;
    let c = crate::store::cell_made(u, x).1;
    bound_variables_are_found(made, id, name, c, LocalId(0), name);
}

proof fn lemma_scope_copied(
    s: StoreModel,
    scope: Seq<(Seq<char>, CellId)>,
    n: nat,
    i: int,
    done: Seq<(Seq<char>, CellId)>,
    least: nat,
)
    requires
        least <= s.cells.len(),
        0 <= i <= scope.len(),
        done.len() == i,
        forall|j: int| 0 <= j < i ==> (#[trigger] done[j]).0 == scope[j].0 && least <= done[j].1.0,
        crate::copying::scope_copied(s, scope, n, i, done) is Some,
        crate::copying::scope_copied(s, scope, n, i, done)->Some_0.0.cells.len() <= usize::MAX,
    ensures
        ({
            let copy = crate::copying::scope_copied(s, scope, n, i, done)->Some_0.1;
            &&& copy.len() == scope.len()
            &&& forall|j: int|
                0 <= j < scope.len() ==> (#[trigger] copy[j]).0 == scope[j].0 && least
                    <= copy[j].1.0
        }),
    decreases scope.len() - i,
{
    crate::depth::lemma_scope_copied(s, scope, n, i, done);
    if i < scope.len() {
        let v = crate::store::cell_at(s, scope[i].1);
        crate::depth::lemma_copied(s, v, n);
        let (t, x) = crate::copying::copied(s, v, n)->0;
        let (u, c) = crate::store::cell_made(t, x);
        crate::depth::lemma_scope_copied(u, scope, n, i + 1, done.push((scope[i].0, c)));
        lemma_scope_copied(u, scope, n, i + 1, done.push((scope[i].0, c)), least);
    }
}

/// Whether an environment has the names of another one, in the same scopes, but
/// none of its cells: all come after the first `least` ones.
pub open spec fn apart(
    scopes: Seq<Seq<(Seq<char>, CellId)>>,
    copy: Seq<Seq<(Seq<char>, CellId)>>,
    least: nat,
) -> bool {
    &&& copy.len() == scopes.len()
    &&& forall|i: int|
        0 <= i < scopes.len() ==> scope_apart(#[trigger] scopes[i], copy[i], least)
}

/// The same of one scope.
pub open spec fn scope_apart(
    scope: Seq<(Seq<char>, CellId)>,
    copy: Seq<(Seq<char>, CellId)>,
    least: nat,
) -> bool {
    &&& copy.len() == scope.len()
    &&& forall|j: int|
        0 <= j < scope.len() ==> (#[trigger] copy[j]).0 == scope[j].0 && least <= copy[j].1.0
}

proof fn lemma_scopes_copied(
    s: StoreModel,
    scopes: Seq<Seq<(Seq<char>, CellId)>>,
    n: nat,
    i: int,
    done: Seq<Seq<(Seq<char>, CellId)>>,
    least: nat,
)
    requires
        least <= s.cells.len(),
        0 <= i <= scopes.len(),
        apart(scopes.take(i), done, least),
        crate::copying::scopes_copied(s, scopes, n, i, done) is Some,
        crate::copying::scopes_copied(s, scopes, n, i, done)->Some_0.0.cells.len() <= usize::MAX,
    ensures
        apart(scopes, crate::copying::scopes_copied(s, scopes, n, i, done)->Some_0.1, least),
    decreases scopes.len() - i,
{
    if i < scopes.len() {
        crate::depth::lemma_scope_copied(s, scopes[i], n, 0, Seq::empty());
        let (t, scope) = crate::copying::scope_copied(s, scopes[i], n, 0, Seq::empty())->0;
        crate::depth::lemma_scopes_copied(t, scopes, n, i + 1, done.push(scope));
        lemma_scope_copied(s, scopes[i], n, 0, Seq::empty(), least);
        assert forall|j: int| 0 <= j < i + 1 implies scope_apart(
            #[trigger] scopes.take(i + 1)[j],
            done.push(scope)[j],
            least,
        ) by {
            if j < i {
                assert(scopes.take(i)[j] == scopes[j]);
            }
        }
        lemma_scopes_copied(t, scopes, n, i + 1, done.push(scope), least);
    } else {
        assert(scopes.take(i) =~= scopes);
    }
}

/// A copy of an environment has the same names in the same scopes. Each has a cell
/// of its own, and is found by its name only.
pub proof fn copied_environments_are_apart(s: StoreModel, env: EnvModel)
    requires
        crate::copying::environment_copied(s, env) is Some,
        crate::copying::environment_copied(s, env)->Some_0.0.cells.len() <= usize::MAX,
    ensures
        ({
            let (t, copy) = crate::copying::environment_copied(s, env)->0;
            &&& crate::copying::extends(s, t)
            &&& apart(env.scopes, copy.scopes, s.cells.len())
            &&& copy.frame.len() == 0
            &&& copy.pending == env.pending
        }),
{
    crate::depth::lemma_environment_copied(s, env);
    lemma_scopes_copied(
        s,
        env.scopes,
        crate::copying::depth_bound(s),
        0,
        Seq::empty(),
        s.cells.len(),
    );
}

/// Whether a path leads from a value to a part of it without following references.
pub open spec fn leads_straight(
    s: StoreModel,
    v: ValueTerm,
    path: Seq<SegmentModel>,
    span: SpanModel,
) -> bool
    decreases path.len(),
{
    path.len() == 0 || (crate::reach::target(v.head) is None && match crate::reach::part(
        s,
        v,
        path[0],
        span,
    ) {
        Ok(x) => leads_straight(s, x, path.skip(1), span),
        Err(_) => true,
    })
}

/// How many arrays a path leads into.
pub open spec fn array_steps(path: Seq<SegmentModel>) -> nat
    decreases path.len(),
{
    if path.len() == 0 {
        0
    } else {
        array_steps(path.skip(1)) + if path[0] is ArrayIndex {
            1nat
        } else {
            0
        }
    }
}

/// Whether a value has as many components as labels, in all its parts.
pub open spec fn well_labelled(v: ValueTerm) -> bool
    decreases v,
{
    &&& crate::values::field_labels(v.head) matches Some(labels) ==> labels.len() == v.args.len()
    &&& forall|i: int| 0 <= i < v.args.len() ==> well_labelled(#[trigger] v.args[i])
}

/// A part other than an element of an array is read where it was written, whatever
/// is stored.
proof fn lemma_written_in_place(
    s: StoreModel,
    u: StoreModel,
    v: ValueTerm,
    path: Seq<SegmentModel>,
    new: ValueTerm,
    span: SpanModel,
    n: nat,
)
    requires
        leads_straight(s, v, path, span),
        array_steps(path) == 0,
        well_labelled(v),
        crate::reach::path_written(s, v, path, new, span, n) is Ok,
    ensures
        ({
            let (t, y) = crate::reach::path_written(s, v, path, new, span, n)->Ok_0;
            t == s && crate::reach::path_read(u, y, path, span, n) == Ok::<ValueTerm, StopModel>(
                new,
            )
        }),
    decreases path.len(),
{
    if path.len() > 0 {
        let child = crate::reach::part(s, v, path[0], span)->Ok_0;
        lemma_part(s, v, path[0], span);
        lemma_written_in_place(s, u, child, path.skip(1), new, span, n);
        let (t, x) = crate::reach::path_written(s, child, path.skip(1), new, span, n)->Ok_0;
        let y = crate::reach::part_replaced(s, t, v, path[0], x).1;
        assert(crate::reach::peeled(u, y, span, n) == Ok::<ValueTerm, StopModel>(y));
        assert(crate::reach::part(u, y, path[0], span) == Ok::<ValueTerm, StopModel>(x));
    }
}

/// Where a part of a well-labelled value is.
proof fn lemma_part(s: StoreModel, v: ValueTerm, seg: SegmentModel, span: SpanModel)
    requires
        well_labelled(v),
        !(seg is ArrayIndex),
        crate::reach::part(s, v, seg, span) is Ok,
    ensures
        0 <= crate::reach::part_position(v, seg) < v.args.len(),
        crate::reach::part(s, v, seg, span)->Ok_0 == v.args[crate::reach::part_position(v, seg)],
        well_labelled(crate::reach::part(s, v, seg, span)->Ok_0),
{
    match seg {
        SegmentModel::Field(f) => match crate::values::field_labels(v.head) {
            Some(labels) => crate::values::lemma_label_at(labels, f, 0),
            None => {},
        },
        _ => {},
    }
}

/// What is written to a place is read from it. The path follows no references and
/// leads into one array at most.
pub proof fn written_parts_are_read(
    s: StoreModel,
    v: ValueTerm,
    path: Seq<SegmentModel>,
    new: ValueTerm,
    span: SpanModel,
    n: nat,
)
    requires
        leads_straight(s, v, path, span),
        array_steps(path) <= 1,
        well_labelled(v),
        forall|a: int, i: int|
            0 <= a < s.arrays.len() && 0 <= i < s.arrays[a].len() ==> well_labelled(
                #[trigger] s.arrays[a][i],
            ),
        crate::reach::path_written(s, v, path, new, span, n) is Ok,
    ensures
        ({
            let (t, y) = crate::reach::path_written(s, v, path, new, span, n)->Ok_0;
            crate::reach::path_read(t, y, path, span, n) == Ok::<ValueTerm, StopModel>(new)
        }),
    decreases path.len(),
{
    if path.len() > 0 {
        let (t, y) = crate::reach::path_written(s, v, path, new, span, n)->Ok_0;
        let child = crate::reach::part(s, v, path[0], span)->Ok_0;
        let (u, x) = crate::reach::path_written(s, child, path.skip(1), new, span, n)->Ok_0;
        if path[0] is ArrayIndex {
            lemma_written_in_place(s, t, child, path.skip(1), new, span, n);
            assert(crate::reach::peeled(t, y, span, n) == Ok::<ValueTerm, StopModel>(y));
            assert(crate::reach::part(t, y, path[0], span) == Ok::<ValueTerm, StopModel>(x));
        } else {
            lemma_part(s, v, path[0], span);
            written_parts_are_read(s, child, path.skip(1), new, span, n);
            assert(crate::reach::peeled(t, y, span, n) == Ok::<ValueTerm, StopModel>(y));
            assert(crate::reach::part(t, y, path[0], span) == Ok::<ValueTerm, StopModel>(x));
        }
    }
}

/// A variable that has been assigned to has a copy of the value.
pub proof fn assigned_variables_are_read(
    name: Seq<char>,
    binding: Option<BindingId>,
    ident_span: SpanModel,
    rhs: ValueTerm,
    span: SpanModel,
    env: EnvModel,
    rt: RuntimeModel,
    w: World,
    c: CellId,
)
    requires
        crate::semantics::identified_cell(name, binding, env, rt) == Some(c),
        match binding {
            Some(BindingId::Global(sym)) => rt.globals.get(sym) == Some(c),
            _ => crate::copying::name_cell(env.scopes, name) == Some(c),
        },
        c.0 < w.store.cells.len(),
        crate::copying::value_copied(w.store, rhs) is Some,
    ensures
        ({
            let o = crate::semantics::variable_assigned(
                name,
                binding,
                ident_span,
                AssignOp::Assign,
                rhs,
                span,
                env,
                rt,
                w,
            );
            &&& o.r is Ok
            &&& crate::semantics::identified(name, binding, env, rt, o.w.store) == Some(
                crate::copying::value_copied(w.store, rhs)->Some_0.1,
            )
        }),
{
    crate::depth::lemma_value_copied(w.store, rhs);
}

/// A call that has been entered into a profile and left is counted once more, for
/// the function and for the function that called it, with the time that it took;
/// other functions keep their records, and the calls that run are those from
/// before.
pub proof fn calls_are_recorded(
    p: ProfilerModel,
    f: Seq<char>,
    started: u64,
    ended: u64,
    other: Seq<char>,
)
    ensures
        ({
            let q = crate::profiler::call_left(
                crate::profiler::call_entered(p, f, started),
                ended,
            );
            let edge = (crate::profiler::running(p), f);
            let elapsed = crate::profiler::floored(ended, started);
            &&& crate::profiler::recorded(q, f).calls == crate::profiler::capped(
                crate::profiler::recorded(p, f).calls,
                1,
            )
            &&& crate::profiler::recorded(q, f).inclusive_ns == crate::profiler::capped(
                crate::profiler::recorded(p, f).inclusive_ns,
                elapsed,
            )
            &&& crate::profiler::recorded_edge(q, edge).calls == crate::profiler::capped(
                crate::profiler::recorded_edge(p, edge).calls,
                1,
            )
            &&& other != f ==> crate::profiler::recorded(q, other) == crate::profiler::recorded(
                p,
                other,
            )
            &&& crate::depth::running_functions(Some(q)) == crate::depth::running_functions(
                Some(p),
            )
        }),
{
    let entered = crate::profiler::call_entered(p, f, started);
    let q = crate::profiler::call_left(entered, ended);
    assert(entered.active.drop_last() =~= p.active);
    assert(crate::depth::running_functions(Some(q)) =~= crate::depth::running_functions(Some(p)));
}

/// Following references comes to an end at a value that is none.
pub proof fn references_lead_to_values(s: StoreModel, v: ValueTerm, span: SpanModel, n: nat)
    ensures
        crate::reach::peeled(s, v, span, n) matches Ok(x) ==> crate::reach::target(x.head) is None,
    decreases n,
{
    if n > 0 {
        if let Some((c, path)) = crate::reach::target(v.head) {
            let k = (n - 1) as nat;
            if let Ok(x) = crate::reach::path_read(s, crate::store::cell_at(s, c), path, span, k) {
                references_lead_to_values(s, x, span, k);
            }
        }
    }
}

/// Where both the pattern and the value know which variant they are of, that
/// decides, and no name does: variants of the same name in unrelated enums are told
/// apart.
pub proof fn variants_are_told_apart(
    s: StoreModel,
    pattern: TypedPattern,
    v: ValueTerm,
    bindings: Seq<(Seq<char>, Option<LocalId>, ValueTerm)>,
)
    requires
        pattern is EnumVariant,
        v.head is Enum,
        pattern->EnumVariant_variant_id is Some,
        v.head->Enum_3 is Some,
    ensures
        pattern->EnumVariant_variant_id != v.head->Enum_3 ==> !crate::pattern::matched(
            s,
            pattern,
            v,
            bindings,
        ).fits,
        pattern->EnumVariant_variant_id == v.head->Enum_3 && pattern->EnumVariant_fields@.len()
            == 0 ==> crate::pattern::matched(s, pattern, v, bindings).fits,
{
    assert(pattern->EnumVariant_fields@.len() == 0 ==> crate::pattern::pattern_fields(
        pattern->EnumVariant_fields@,
    ).len() == 0);
}

} // verus!
