//! Copies of values and environments that share nothing that can be changed.

use crate::assoc::{find, set_entry};
use crate::data::{Dup, Same};
use crate::store::{
    ClosureCode, ClosureModel, ClosureValue, EnvModel, Environment, Store, StoreModel,
};
use crate::typed_ast::CaptureSpec;
use crate::types::{Type, UseMultiplicity};
use crate::values::{CallableModel, CellId, LocalId, RuntimeCallable, Value, ValueHead, ValueTerm};
use vstd::prelude::*;
use vstd::string::*;

verus! {

/// The cell of a name in the innermost scope that has it.
pub open spec fn name_cell(scopes: Seq<Seq<(Seq<char>, CellId)>>, name: Seq<char>) -> Option<CellId>
    decreases scopes.len(),
{
    if scopes.len() == 0 {
        None
    } else if crate::assoc::entry(scopes.last(), name) is Some {
        crate::assoc::entry(scopes.last(), name)
    } else {
        name_cell(scopes.drop_last(), name)
    }
}

/// Scopes in which a name has another cell, in the innermost scope that has the
/// name.
pub open spec fn name_moved(
    scopes: Seq<Seq<(Seq<char>, CellId)>>,
    name: Seq<char>,
    cell: CellId,
) -> Seq<Seq<(Seq<char>, CellId)>>
    decreases scopes.len(),
{
    if scopes.len() == 0 {
        scopes
    } else if crate::assoc::entry(scopes.last(), name) is Some {
        scopes.drop_last().push(crate::assoc::put(scopes.last(), name, cell))
    } else {
        name_moved(scopes.drop_last(), name, cell).push(scopes.last())
    }
}

/// The name that is captured.
pub open spec fn capture_name(c: CaptureSpec) -> Seq<char> {
    match c {
        CaptureSpec::Owned { name, span: _ } => name@,
        CaptureSpec::Clone { name, span: _ } => name@,
        CaptureSpec::SharedRef { name, span: _ } => name@,
        CaptureSpec::MutRef { name, span: _ } => name@,
    }
}

/// Whether the variable itself is captured, and not its value.
pub open spec fn by_reference(c: CaptureSpec) -> bool {
    match c {
        CaptureSpec::Owned { name: _, span: _ } => false,
        CaptureSpec::Clone { name: _, span: _ } => false,
        CaptureSpec::SharedRef { name: _, span: _ } => true,
        CaptureSpec::MutRef { name: _, span: _ } => true,
    }
}

/// The identity at a position, if there is one.
pub open spec fn id_at(ids: Seq<Option<LocalId>>, i: int) -> Option<LocalId> {
    if 0 <= i < ids.len() {
        ids[i]
    } else {
        None
    }
}

/// The cell of a variable: by its identity, or else by its name.
pub open spec fn variable_cell(
    env: EnvModel,
    id: Option<LocalId>,
    name: Seq<char>,
) -> Option<CellId> {
    match id {
        Some(i) => match crate::assoc::entry(env.frame, i) {
            Some(c) => Some(c),
            None => name_cell(env.scopes, name),
        },
        None => name_cell(env.scopes, name),
    }
}

/// A copied environment after the first `k` captures have been put right: those
/// by reference share the cell with the environment that was copied, and all are
/// found by their identities.
pub open spec fn captures_restored(
    env: EnvModel,
    copy: EnvModel,
    captures: Seq<CaptureSpec>,
    ids: Seq<Option<LocalId>>,
    k: nat,
) -> EnvModel
    decreases k,
{
    if k == 0 {
        copy
    } else {
        let prev = captures_restored(env, copy, captures, ids, (k - 1) as nat);
        let c = captures[k - 1];
        let id = id_at(ids, k - 1);
        let name = capture_name(c);
        let source = if by_reference(c) {
            variable_cell(env, id, name)
        } else {
            None
        };
        let moved = match source {
            Some(cell) => EnvModel { scopes: name_moved(prev.scopes, name, cell), ..prev },
            None => prev,
        };
        match (id, name_cell(moved.scopes, name)) {
            (Some(i), Some(cell)) => EnvModel {
                frame: crate::assoc::put(moved.frame, i, cell),
                ..moved
            },
            _ => moved,
        }
    }
}

/// The store after a value has been copied, and the copy, if things nest no
/// deeper than `n`. Arrays, and closures that are copied on use, are made anew.
pub open spec fn copied(s: StoreModel, v: ValueTerm, n: nat) -> Option<(StoreModel, ValueTerm)>
    decreases n, 0int, v, 0int,
{
    match v.head {
        ValueHead::Array(a) => if n == 0 {
            None
        } else {
            match list_copied(s, crate::store::array_at(s, a), (n - 1) as nat, 0, Seq::empty()) {
                Some((t, items)) => {
                    let (u, b) = crate::store::array_made(t, items);
                    Some((u, crate::values::plain(ValueHead::Array(b))))
                },
                None => None,
            }
        },
        ValueHead::Callable(CallableModel::Closure(c)) => match crate::store::closure_at(s, c) {
            Some(closure) => if !crate::store::copied_on_use(closure.code) {
                Some((s, v))
            } else if n == 0 {
                None
            } else {
                match closure_env_copied(s, closure, (n - 1) as nat) {
                    Some((t, captured)) => {
                        let (u, d) = crate::store::closure_made(
                            t,
                            ClosureModel { code: closure.code, captured, in_call: false },
                        );
                        Some(
                            (
                                u,
                                crate::values::plain(
                                    ValueHead::Callable(CallableModel::Closure(d)),
                                ),
                            ),
                        )
                    },
                    None => None,
                }
            },
            None => Some((s, v)),
        },
        _ => match list_copied(s, v.args, n, 0, Seq::empty()) {
            Some((t, args)) => Some((t, ValueTerm { head: v.head, args })),
            None => None,
        },
    }
}

/// The store after the values from `i` on have been copied, and all copies.
pub open spec fn list_copied(
    s: StoreModel,
    items: Seq<ValueTerm>,
    n: nat,
    i: int,
    done: Seq<ValueTerm>,
) -> Option<(StoreModel, Seq<ValueTerm>)>
    decreases n, 0int, items, items.len() - i,
{
    if i < 0 || i >= items.len() {
        Some((s, done))
    } else {
        match copied(s, items[i], n) {
            Some((t, x)) => list_copied(t, items, n, i + 1, done.push(x)),
            None => None,
        }
    }
}

/// The store after the variables of a scope, from `i` on, have been copied, and
/// the scope with all the new cells.
pub open spec fn scope_copied(
    s: StoreModel,
    scope: Seq<(Seq<char>, CellId)>,
    n: nat,
    i: int,
    done: Seq<(Seq<char>, CellId)>,
) -> Option<(StoreModel, Seq<(Seq<char>, CellId)>)>
    decreases n, 1int, scope, scope.len() - i,
{
    if i < 0 || i >= scope.len() {
        Some((s, done))
    } else {
        match copied(s, crate::store::cell_at(s, scope[i].1), n) {
            Some((t, x)) => {
                let (u, c) = crate::store::cell_made(t, x);
                scope_copied(u, scope, n, i + 1, done.push((scope[i].0, c)))
            },
            None => None,
        }
    }
}

/// The store after the variables of the scopes from `i` on have been copied, and
/// all the scopes.
pub open spec fn scopes_copied(
    s: StoreModel,
    scopes: Seq<Seq<(Seq<char>, CellId)>>,
    n: nat,
    i: int,
    done: Seq<Seq<(Seq<char>, CellId)>>,
) -> Option<(StoreModel, Seq<Seq<(Seq<char>, CellId)>>)>
    decreases n, 2int, scopes, scopes.len() - i,
{
    if i < 0 || i >= scopes.len() {
        Some((s, done))
    } else {
        match scope_copied(s, scopes[i], n, 0, Seq::empty()) {
            Some((t, scope)) => scopes_copied(t, scopes, n, i + 1, done.push(scope)),
            None => None,
        }
    }
}

/// The store after an environment has been copied, and the copy: every variable
/// has a cell of its own, found by name only.
pub open spec fn env_copied(s: StoreModel, env: EnvModel, n: nat) -> Option<(StoreModel, EnvModel)>
    decreases n, 3int, env, 0int,
{
    match scopes_copied(s, env.scopes, n, 0, Seq::empty()) {
        Some((t, scopes)) => Some((t, EnvModel { scopes, frame: Seq::empty(), ..env })),
        None => None,
    }
}

/// The store after the environment of a closure has been copied, and the copy.
pub open spec fn closure_env_copied(s: StoreModel, closure: ClosureModel, n: nat) -> Option<
    (StoreModel, EnvModel),
>
    decreases n, 4int, closure, 0int,
{
    match env_copied(s, closure.captured, n) {
        Some((t, copy)) => Some(
            (
                t,
                captures_restored(
                    closure.captured,
                    copy,
                    crate::store::captures_of(closure.code),
                    crate::store::capture_ids_of(closure.code),
                    crate::store::captures_of(closure.code).len(),
                ),
            ),
        ),
        None => None,
    }
}

/// How deep values can nest: through arrays and closures, deeper than there are
/// any only where something contains itself.
pub open spec fn depth_bound(s: StoreModel) -> nat {
    s.arrays.len() + s.closures.len() + 1
}

/// The store after a value has been copied, and the copy, unless the value
/// contains itself.
pub open spec fn value_copied(s: StoreModel, v: ValueTerm) -> Option<(StoreModel, ValueTerm)> {
    copied(s, v, depth_bound(s))
}

/// Whether a store has all that another has, and perhaps more.
pub open spec fn extends(a: StoreModel, b: StoreModel) -> bool {
    &&& a.cells.len() <= b.cells.len()
    &&& a.arrays.len() <= b.arrays.len()
    &&& a.closures.len() <= b.closures.len()
    &&& b.cells.take(a.cells.len() as int) == a.cells
    &&& b.arrays.take(a.arrays.len() as int) == a.arrays
    &&& b.closures.take(a.closures.len() as int) == a.closures
}

pub proof fn lemma_extends_self(a: StoreModel)
    ensures
        extends(a, a),
{
    assert(a.cells.take(a.cells.len() as int) =~= a.cells);
    assert(a.arrays.take(a.arrays.len() as int) =~= a.arrays);
    assert(a.closures.take(a.closures.len() as int) =~= a.closures);
}

pub proof fn lemma_extends_on(a: StoreModel, b: StoreModel, c: StoreModel)
    requires
        extends(a, b),
        extends(b, c),
    ensures
        extends(a, c),
{
    assert(c.cells.take(a.cells.len() as int) =~= b.cells.take(a.cells.len() as int));
    assert(c.arrays.take(a.arrays.len() as int) =~= b.arrays.take(a.arrays.len() as int));
    assert(c.closures.take(a.closures.len() as int) =~= b.closures.take(a.closures.len() as int));
}

pub proof fn lemma_extends_made(s: StoreModel, v: ValueTerm, items: Seq<ValueTerm>, c: ClosureModel)
    ensures
        extends(s, crate::store::cell_made(s, v).0),
        extends(s, crate::store::array_made(s, items).0),
        extends(s, crate::store::closure_made(s, c).0),
{
    lemma_extends_self(s);
    assert(s.cells.push(v).take(s.cells.len() as int) =~= s.cells);
    assert(s.arrays.push(items).take(s.arrays.len() as int) =~= s.arrays);
    assert(s.closures.push(c).take(s.closures.len() as int) =~= s.closures);
}

fn copies_when_used(code: &ClosureCode) -> (b: bool)
    ensures
        b == crate::store::copied_on_use(*code),
{
    match code {
        ClosureCode::Closure(c, _) => match &c.ty {
            Some(Type::Fun(_, _, _, us, _)) => match us {
                UseMultiplicity::Copy => true,
                _ => false,
            },
            _ => false,
        },
        ClosureCode::Fun(_, _) => false,
    }
}

fn copy_value(store: &mut Store, v: &Value, limit: u128) -> (r: Option<Value>)
    ensures
        extends(old(store)@, final(store)@),
        match copied(old(store)@, v@, limit as nat) {
            Some((t, x)) => final(store)@ == t && r.deep_view() == Some(x),
            None => r is None,
        },
    decreases limit, 0int, v@,
{
    let ghost s = store@;
    proof {
        lemma_extends_self(s);
    }
    match v {
        Value::Array(a) => {
            if limit == 0 {
                return None;
            }
            let items = store.array(*a);
            let ghost list = items.deep_view();
            assert(list.len() == items@.len());
            let mut out: Vec<Value> = Vec::new();
            assert(out.deep_view() =~= Seq::<ValueTerm>::empty());
            let mut i: usize = 0;
            while i < items.len()
                invariant
                    i <= items.len(),
                    limit > 0,
                    list == items.deep_view(),
                    list.len() == items@.len(),
                    list == crate::store::array_at(s, *a),
                    *v == Value::Array(*a),
                    s == old(store)@,
                    extends(s, store@),
                    list_copied(s, list, (limit - 1) as nat, 0, Seq::empty()) == list_copied(
                        store@,
                        list,
                        (limit - 1) as nat,
                        i as int,
                        out.deep_view(),
                    ),
                decreases items.len() - i,
            {
                let ghost before = store@;
                let ghost prev = out.deep_view();
                assert(prev.len() == out@.len());
                assert(list[i as int] == items@[i as int]@);
                match copy_value(store, &items[i], limit - 1) {
                    Some(x) => {
                        out.push(x);
                        assert(out.deep_view() =~= prev.push(x@));
                    },
                    None => {
                        proof {
                            lemma_extends_on(s, before, store@);
                        }
                        return None;
                    },
                }
                proof {
                    lemma_extends_on(s, before, store@);
                }
                i += 1;
            }
            let ghost before = store@;
            let b = store.make_array(out);
            proof {
                lemma_extends_made(
                    before,
                    arbitrary(),
                    out.deep_view(),
                    arbitrary(),
                );
                lemma_extends_on(s, before, store@);
            }
            Some(Value::Array(b))
        },
        Value::Callable(RuntimeCallable::Closure(c)) => {
            let (code, captured) = match store.closure(*c) {
                Some(closure) => {
                    if !copies_when_used(&closure.code) {
                        return Some(Value::Callable(RuntimeCallable::Closure(*c)));
                    }
                    (closure.code.again(), closure.captured.dup())
                },
                None => {
                    return Some(Value::Callable(RuntimeCallable::Closure(*c)));
                },
            };
            if limit == 0 {
                return None;
            }
            match copy_closure_env(store, &code, &captured, limit - 1) {
                Some(env) => {
                    let ghost before = store@;
                    let made = ClosureValue { code, captured: env, in_call: false };
                    let ghost model = made.deep_view();
                    let d = store.make_closure(made);
                    proof {
                        lemma_extends_made(before, arbitrary(), arbitrary(), model);
                        lemma_extends_on(s, before, store@);
                    }
                    Some(Value::Callable(RuntimeCallable::Closure(d)))
                },
                None => None,
            }
        },
        _ => {
            let n: usize = v.arity();
            let mut out: Vec<Value> = Vec::new();
            assert(out.deep_view() =~= Seq::<ValueTerm>::empty());
            let mut i: usize = 0;
            while i < n
                invariant
                    i <= n,
                    n == v@.args.len(),
                    !(v@.head is Array),
                    !(v@.head matches ValueHead::Callable(CallableModel::Closure(_))),
                    s == old(store)@,
                    extends(s, store@),
                    out@.len() == i,
                    list_copied(s, v@.args, limit as nat, 0, Seq::empty()) == list_copied(
                        store@,
                        v@.args,
                        limit as nat,
                        i as int,
                        out.deep_view(),
                    ),
                decreases n - i,
            {
                let ghost before = store@;
                let ghost prev = out.deep_view();
                assert(prev.len() == out@.len());
                match copy_value(store, v.child(i), limit) {
                    Some(x) => {
                        out.push(x);
                        assert(out.deep_view() =~= prev.push(x@));
                    },
                    None => {
                        proof {
                            lemma_extends_on(s, before, store@);
                        }
                        return None;
                    },
                }
                proof {
                    lemma_extends_on(s, before, store@);
                }
                i += 1;
            }
            assert(out.deep_view() =~= crate::values::value_terms(out@));
            Some(v.rebuild(out))
        },
    }
}

fn copy_scope(store: &mut Store, scope: &Vec<(String, CellId)>, limit: u128) -> (r: Option<
    Vec<(String, CellId)>,
>)
    ensures
        extends(old(store)@, final(store)@),
        match scope_copied(old(store)@, scope.deep_view(), limit as nat, 0, Seq::empty()) {
            Some((t, x)) => final(store)@ == t && r.deep_view() == Some(x),
            None => r is None,
        },
    decreases limit, 1int, old(store)@,
{
    let ghost s = store@;
    let ghost list = scope.deep_view();
    let mut out: Vec<(String, CellId)> = Vec::new();
    proof {
        lemma_extends_self(s);
        assert(out.deep_view() =~= Seq::<(Seq<char>, CellId)>::empty());
    }
    let mut i: usize = 0;
    while i < scope.len()
        invariant
            i <= scope.len(),
            list == scope.deep_view(),
            list.len() == scope@.len(),
            s == old(store)@,
            extends(s, store@),
            scope_copied(s, list, limit as nat, 0, Seq::empty()) == scope_copied(
                store@,
                list,
                limit as nat,
                i as int,
                out.deep_view(),
            ),
        decreases scope.len() - i,
    {
        let ghost before = store@;
        let ghost prev = out.deep_view();
        assert(prev.len() == out@.len());
        assert(list[i as int] == scope@[i as int].deep_view());
        let value = store.cell(scope[i].1);
        match copy_value(store, &value, limit) {
            Some(x) => {
                let ghost middle = store@;
                let c = store.make_cell(x);
                proof {
                    lemma_extends_made(middle, x@, arbitrary(), arbitrary());
                    lemma_extends_on(before, middle, store@);
                    lemma_extends_on(s, before, store@);
                }
                out.push((scope[i].0.clone(), c));
                assert(out.deep_view() =~= prev.push((list[i as int].0, c)));
            },
            None => {
                proof {
                    lemma_extends_on(s, before, store@);
                }
                return None;
            },
        }
        i += 1;
    }
    Some(out)
}

fn copy_env(store: &mut Store, env: &Environment, limit: u128) -> (r: Option<Environment>)
    ensures
        extends(old(store)@, final(store)@),
        match env_copied(old(store)@, env@, limit as nat) {
            Some((t, x)) => final(store)@ == t && r.deep_view() == Some(x),
            None => r is None,
        },
    decreases limit, 2int, old(store)@,
{
    let ghost s = store@;
    let ghost list = env@.scopes;
    let mut out: Vec<Vec<(String, CellId)>> = Vec::new();
    proof {
        lemma_extends_self(s);
        assert(out.deep_view() =~= Seq::<Seq<(Seq<char>, CellId)>>::empty());
    }
    let mut i: usize = 0;
    while i < env.scopes.len()
        invariant
            i <= env.scopes.len(),
            list == env.scopes.deep_view(),
            list == env@.scopes,
            list.len() == env.scopes@.len(),
            s == old(store)@,
            extends(s, store@),
            scopes_copied(s, list, limit as nat, 0, Seq::empty()) == scopes_copied(
                store@,
                list,
                limit as nat,
                i as int,
                out.deep_view(),
            ),
        decreases env.scopes.len() - i,
    {
        let ghost before = store@;
        let ghost prev = out.deep_view();
        assert(prev.len() == out@.len());
        assert(list[i as int] == env.scopes@[i as int].deep_view());
        match copy_scope(store, &env.scopes[i], limit) {
            Some(x) => {
                out.push(x);
                assert(out.deep_view() =~= prev.push(x.deep_view()));
            },
            None => {
                proof {
                    lemma_extends_on(s, before, store@);
                }
                return None;
            },
        }
        proof {
            lemma_extends_on(s, before, store@);
        }
        i += 1;
    }
    let copy = Environment {
        scopes: out,
        frame: Vec::new(),
        pending_funs: env.pending_funs.dup(),
        type_ctx: env.type_ctx,
    };
    assert(copy@.frame =~= Seq::<(LocalId, CellId)>::empty());
    Some(copy)
}

fn copy_closure_env(
    store: &mut Store,
    code: &ClosureCode,
    captured: &Environment,
    limit: u128,
) -> (r: Option<Environment>)
    ensures
        extends(old(store)@, final(store)@),
        match closure_env_copied(
            old(store)@,
            ClosureModel { code: *code, captured: captured@, in_call: false },
            limit as nat,
        ) {
            Some((t, x)) => final(store)@ == t && r.deep_view() == Some(x),
            None => r is None,
        },
    decreases limit, 3int, old(store)@,
{
    match copy_env(store, captured, limit) {
        Some(copy) => match code {
            ClosureCode::Closure(c, _) => Some(
                restore_captures(captured, copy, &c.captures, &c.capture_ids),
            ),
            ClosureCode::Fun(_, _) => Some(copy),
        },
        None => None,
    }
}

/// The cell of a name in the innermost scope that has it.
pub fn find_name(scopes: &Vec<Vec<(String, CellId)>>, name: &String) -> (r: Option<CellId>)
    ensures
        r == name_cell(scopes.deep_view(), name@),
{
    let ghost all = scopes.deep_view();
    let mut i: usize = scopes.len();
    assert(all.take(i as int) =~= all);
    while i > 0
        invariant
            i <= scopes.len(),
            all == scopes.deep_view(),
            all.len() == scopes@.len(),
            name_cell(all, name@) == name_cell(all.take(i as int), name@),
        decreases i,
    {
        let ghost head = all.take(i as int);
        i -= 1;
        assert(head.last() == scopes@[i as int].deep_view());
        assert(head.drop_last() =~= all.take(i as int));
        if let Some(c) = find(&scopes[i], name) {
            return Some(*c);
        }
    }
    None
}

/// Gives a name another cell in the innermost scope that has the name.
fn move_name(scopes: &mut Vec<Vec<(String, CellId)>>, name: &String, cell: CellId)
    ensures
        final(scopes).deep_view() == name_moved(old(scopes).deep_view(), name@, cell),
    decreases old(scopes)@.len(),
{
    let ghost all = scopes.deep_view();
    assert(all.len() == scopes@.len());
    if scopes.len() == 0 {
        return ;
    }
    let mut top = scopes.pop().unwrap();
    assert(all.last() == top.deep_view());
    assert(scopes.deep_view() =~= all.drop_last());
    if find(&top, name).is_some() {
        set_entry(&mut top, name.clone(), cell);
    } else {
        move_name(scopes, name, cell);
    }
    let ghost rest = scopes.deep_view();
    assert(rest.len() == scopes@.len());
    scopes.push(top);
    assert(scopes.deep_view() =~= rest.push(top.deep_view()));
}

fn name_of(c: &CaptureSpec) -> (s: &String)
    ensures
        s@ == capture_name(*c),
{
    match c {
        CaptureSpec::Owned { name, span: _ } => name,
        CaptureSpec::Clone { name, span: _ } => name,
        CaptureSpec::SharedRef { name, span: _ } => name,
        CaptureSpec::MutRef { name, span: _ } => name,
    }
}

fn refers(c: &CaptureSpec) -> (b: bool)
    ensures
        b == by_reference(*c),
{
    match c {
        CaptureSpec::Owned { name: _, span: _ } | CaptureSpec::Clone { name: _, span: _ } => false,
        CaptureSpec::SharedRef { name: _, span: _ } | CaptureSpec::MutRef {
            name: _,
            span: _,
        } => true,
    }
}

fn nth_id(ids: &Vec<Option<LocalId>>, i: usize) -> (r: Option<LocalId>)
    ensures
        r == id_at(ids@, i as int),
{
    if i < ids.len() {
        ids[i]
    } else {
        None
    }
}

fn restore_captures(
    env: &Environment,
    copy: Environment,
    captures: &Vec<CaptureSpec>,
    ids: &Vec<Option<LocalId>>,
) -> (r: Environment)
    ensures
        r@ == captures_restored(env@, copy@, captures@, ids@, captures@.len()),
{
    let mut out = copy;
    let mut i: usize = 0;
    while i < captures.len()
        invariant
            i <= captures.len(),
            out@ == captures_restored(env@, copy@, captures@, ids@, i as nat),
        decreases captures.len() - i,
    {
        let c = &captures[i];
        let id = nth_id(ids, i);
        let name = name_of(c);
        if refers(c) {
            if let Some(cell) = env.variable(id, name) {
                move_name(&mut out.scopes, name, cell);
            }
        }
        if let Some(local) = id {
            if let Some(cell) = find_name(&out.scopes, name) {
                set_entry(&mut out.frame, local, cell);
            }
        }
        i += 1;
    }
    out
}

impl Environment {
    /// The cell of a variable: by its identity, or else by its name.
    pub fn variable(&self, id: Option<LocalId>, name: &String) -> (r: Option<CellId>)
        ensures
            r == variable_cell(self@, id, name@),
    {
        if let Some(local) = id {
            if let Some(c) = find(&self.frame, &local) {
                return Some(*c);
            }
        }
        find_name(&self.scopes, name)
    }
}

/// Takes back all that a store has beyond what it had.
pub(crate) fn take_back(
    store: &mut Store,
    cells: usize,
    arrays: usize,
    closures: usize,
    Ghost(before): Ghost<StoreModel>,
)
    requires
        extends(before, old(store)@),
        cells == before.cells.len(),
        arrays == before.arrays.len(),
        closures == before.closures.len(),
    ensures
        final(store)@ == before,
{
    let ghost s = store@;
    store.cells.truncate(cells);
    store.arrays.truncate(arrays);
    store.closures.truncate(closures);
    assert(store@.cells =~= s.cells.take(cells as int));
    assert(store@.arrays =~= s.arrays.take(arrays as int));
    assert(store@.closures =~= s.closures.take(closures as int));
}

/// How deep values can nest.
fn depth_limit(store: &Store) -> (n: u128)
    ensures
        n == depth_bound(store@),
{
    assert(store@.arrays.len() == store.arrays@.len());
    assert(store@.closures.len() == store.closures@.len());
    store.arrays.len() as u128 + store.closures.len() as u128 + 1
}

/// Deep-clone a value so that arrays get independent copies.
/// Tuples, structs and enums are recursed into so that nested arrays are also
/// copied. Nothing comes back, and nothing has happened, where the value
/// contains itself: copying it would never end.
pub fn deep_clone_value(store: &mut Store, v: &Value) -> (r: Option<Value>)
    ensures
        match value_copied(old(store)@, v@) {
            Some((t, x)) => final(store)@ == t && r.deep_view() == Some(x),
            None => final(store)@ == old(store)@ && r is None,
        },
        extends(old(store)@, final(store)@),
{
    let ghost before = store@;
    proof {
        lemma_extends_self(before);
    }
    let cells: usize = store.cells.len();
    let arrays: usize = store.arrays.len();
    let closures: usize = store.closures.len();
    let limit: u128 = depth_limit(store);
    assert(before.cells.len() == store.cells@.len());
    assert(before.arrays.len() == store.arrays@.len());
    assert(before.closures.len() == store.closures@.len());
    let r = copy_value(store, v, limit);
    if r.is_none() {
        take_back(store, cells, arrays, closures, Ghost(before));
    }
    r
}

/// The store after an environment has been copied, and the copy, unless something
/// in it contains itself.
pub open spec fn environment_copied(
    s: StoreModel,
    env: EnvModel,
) -> Option<(StoreModel, EnvModel)> {
    env_copied(s, env, depth_bound(s))
}

/// The store after the environment of a closure has been copied, and the copy,
/// unless something in it contains itself.
pub open spec fn captures_copied(
    s: StoreModel,
    env: EnvModel,
    captures: Seq<CaptureSpec>,
    ids: Seq<Option<LocalId>>,
) -> Option<(StoreModel, EnvModel)> {
    match environment_copied(s, env) {
        Some((t, copy)) => Some(
            (t, captures_restored(env, copy, captures, ids, captures.len())),
        ),
        None => None,
    }
}

impl Environment {
    /// A copy in which every variable has a cell of its own. Variables are found
    /// by name only: the identities would have to be put right by the caller.
    pub fn capture_clone(&self, store: &mut Store) -> (r: Option<Environment>)
        ensures
            match environment_copied(old(store)@, self@) {
                Some((t, x)) => final(store)@ == t && r.deep_view() == Some(x),
                None => final(store)@ == old(store)@ && r is None,
            },
    {
        let ghost before = store@;
        let cells: usize = store.cells.len();
        let arrays: usize = store.arrays.len();
        let closures: usize = store.closures.len();
        let limit: u128 = depth_limit(store);
        assert(before.cells.len() == store.cells@.len());
        assert(before.arrays.len() == store.arrays@.len());
        assert(before.closures.len() == store.closures@.len());
        let r = copy_env(store, self, limit);
        if r.is_none() {
            take_back(store, cells, arrays, closures, Ghost(before));
        }
        r
    }

    /// Copy a closure environment. Captures by value are independent in the copy;
    /// captures by reference keep the cell that they borrowed.
    pub fn capture_closure_copy(
        &self,
        store: &mut Store,
        captures: &Vec<CaptureSpec>,
        capture_ids: &Vec<Option<LocalId>>,
    ) -> (r: Option<Environment>)
        ensures
            match captures_copied(old(store)@, self@, captures@, capture_ids@) {
                Some((t, x)) => final(store)@ == t && r.deep_view() == Some(x),
                None => final(store)@ == old(store)@ && r is None,
            },
    {
        match self.capture_clone(store) {
            Some(copy) => Some(restore_captures(self, copy, captures, capture_ids)),
            None => None,
        }
    }
}

} // verus!
