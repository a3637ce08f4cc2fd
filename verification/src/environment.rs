//! Where names are stored while a program runs.

use crate::assoc::{find, set_entry, take_entry};
use crate::ast::{Span, SpanModel};
use crate::copying::{deep_clone_value, find_name, take_back};
use crate::data::Dup;
use crate::error::{ErrorModel, MetelError, RuntimeErrorCode};
use crate::store::{EnvModel, Environment, Store, StoreModel};
use crate::typed_ast::{CaptureSpec, TypedFunDecl};
use crate::values::{CellId, LocalId, Value, ValueTerm};
use std::rc::Rc;
use vstd::prelude::*;
use vstd::string::*;

verus! {

/// An environment without any names.
pub open spec fn empty_env() -> EnvModel {
    EnvModel {
        scopes: seq![Seq::empty()],
        frame: Seq::empty(),
        pending: seq![Seq::empty()],
        type_ctx: None,
    }
}

/// The environment after a scope has been opened.
pub open spec fn scope_opened(env: EnvModel) -> EnvModel {
    EnvModel {
        scopes: env.scopes.push(Seq::empty()),
        pending: env.pending.push(Seq::empty()),
        ..env
    }
}

/// A stack without its top.
pub open spec fn popped<T>(s: Seq<T>) -> Seq<T> {
    if s.len() == 0 {
        s
    } else {
        s.drop_last()
    }
}

/// The environment after a scope has been closed.
pub open spec fn scope_ended(env: EnvModel) -> EnvModel {
    EnvModel { scopes: popped(env.scopes), pending: popped(env.pending), ..env }
}

/// The environment after a name has been given a cell in the innermost scope.
pub open spec fn name_bound(env: EnvModel, name: Seq<char>, c: CellId) -> EnvModel {
    EnvModel {
        scopes: env.scopes.drop_last().push(crate::assoc::put(env.scopes.last(), name, c)),
        ..env
    }
}

/// The environment after a variable has been given a cell, under its name and
/// under its identity where that is known.
pub open spec fn variable_bound(
    env: EnvModel,
    id: Option<LocalId>,
    name: Seq<char>,
    c: CellId,
) -> EnvModel {
    let named = name_bound(env, name, c);
    match id {
        Some(i) => EnvModel { frame: crate::assoc::put(env.frame, i, c), ..named },
        None => named,
    }
}

/// The environment and the store after a variable has been defined, unless its
/// value contains itself.
pub open spec fn variable_defined(
    s: StoreModel,
    env: EnvModel,
    id: Option<LocalId>,
    name: Seq<char>,
    v: ValueTerm,
) -> Option<(StoreModel, EnvModel)> {
    match crate::copying::value_copied(s, v) {
        Some((t, x)) => {
            let (u, c) = crate::store::cell_made(t, x);
            Some((u, variable_bound(env, id, name, c)))
        },
        None => None,
    }
}

/// The nested function that waits under an identity, in the innermost scope that
/// has one.
pub open spec fn waiting(pending: Seq<Seq<(LocalId, TypedFunDecl)>>, id: LocalId) -> Option<
    TypedFunDecl,
>
    decreases pending.len(),
{
    if pending.len() == 0 {
        None
    } else if crate::assoc::entry(pending.last(), id) is Some {
        crate::assoc::entry(pending.last(), id)
    } else {
        waiting(pending.drop_last(), id)
    }
}

/// What still waits after the function under an identity has been taken.
pub open spec fn no_longer_waiting(pending: Seq<Seq<(LocalId, TypedFunDecl)>>, id: LocalId) -> Seq<
    Seq<(LocalId, TypedFunDecl)>,
>
    decreases pending.len(),
{
    if pending.len() == 0 {
        pending
    } else if crate::assoc::entry(pending.last(), id) is Some {
        pending.drop_last().push(crate::assoc::dropped_from(pending.last(), id, 0))
    } else {
        no_longer_waiting(pending.drop_last(), id).push(pending.last())
    }
}

/// Where no function waits under an identity, none is taken.
pub proof fn lemma_none_waiting(pending: Seq<Seq<(LocalId, TypedFunDecl)>>, id: LocalId)
    ensures
        waiting(pending, id) is None ==> no_longer_waiting(pending, id) == pending,
    decreases pending.len(),
{
    if pending.len() > 0 {
        lemma_none_waiting(pending.drop_last(), id);
        assert(pending.drop_last().push(pending.last()) =~= pending);
    }
}

/// Why something does not come to a result: an error, a program that would never
/// end, or one that asks for what has no meaning (the remainder of the least
/// number by minus one, a jump out of a place where only a value can stand).
#[derive(Debug)]
pub enum Stop {
    Error(MetelError),
    Endless,
    Undefined,
}

pub enum StopModel {
    Error(ErrorModel),
    Endless,
    Undefined,
}

impl DeepView for Stop {
    type V = StopModel;

    open spec fn deep_view(&self) -> StopModel {
        match self {
            Stop::Error(e) => StopModel::Error(e@),
            Stop::Endless => StopModel::Endless,
            Stop::Undefined => StopModel::Undefined,
        }
    }
}

/// The error for a name that means nothing.
pub open spec fn undefined_variable(name: Seq<char>, span: SpanModel) -> ErrorModel {
    ErrorModel::Runtime(
        RuntimeErrorCode::R0003,
        "undefined variable `"@ + name + "`"@,
        span,
        Seq::empty(),
    )
}

/// The error for a name that means nothing.
pub fn undefined_error(name: &String, span: &Span) -> (e: MetelError)
    ensures
        e@ == undefined_variable(name@, span.deep_view()),
{
    let mut s = "undefined variable `".to_owned();
    s.append(name.as_str());
    s.append("`");
    MetelError::panic(RuntimeErrorCode::R0003, s, span)
}

/// The store and the environment of a closure after the first `k` captures.
pub open spec fn captured_from(
    s: StoreModel,
    env: EnvModel,
    captures: Seq<CaptureSpec>,
    ids: Seq<Option<LocalId>>,
    span: SpanModel,
    k: nat,
) -> Result<(StoreModel, EnvModel), StopModel>
    decreases k,
{
    if k == 0 {
        Ok((s, EnvModel { pending: env.pending, type_ctx: env.type_ctx, ..empty_env() }))
    } else {
        match captured_from(s, env, captures, ids, span, (k - 1) as nat) {
            Err(e) => Err(e),
            Ok((t, made)) => {
                let c = captures[k - 1];
                let id = crate::copying::id_at(ids, k - 1);
                let name = crate::copying::capture_name(c);
                match crate::copying::variable_cell(env, id, name) {
                    None => Err(StopModel::Error(undefined_variable(name, span))),
                    Some(cell) => if crate::copying::by_reference(c) {
                        Ok((t, variable_bound(made, id, name, cell)))
                    } else {
                        match variable_defined(
                            t,
                            made,
                            id,
                            name,
                            crate::store::cell_at(t, cell),
                        ) {
                            Some(r) => Ok(r),
                            None => Err(StopModel::Endless),
                        }
                    },
                }
            },
        }
    }
}

/// The store and the environment of a closure that has been made. Without
/// captures listed it captures a copy of everything.
pub open spec fn closure_captured(
    s: StoreModel,
    env: EnvModel,
    captures: Seq<CaptureSpec>,
    ids: Seq<Option<LocalId>>,
    span: SpanModel,
) -> Result<(StoreModel, EnvModel), StopModel> {
    if captures.len() == 0 {
        match crate::copying::environment_copied(s, env) {
            Some(r) => Ok(r),
            None => Err(StopModel::Endless),
        }
    } else {
        captured_from(s, env, captures, ids, span, captures.len())
    }
}

fn put_in_top(scopes: &mut Vec<Vec<(String, CellId)>>, name: String, c: CellId)
    requires
        old(scopes)@.len() > 0,
    ensures
        final(scopes).deep_view() == old(scopes).deep_view().drop_last().push(
            crate::assoc::put(old(scopes).deep_view().last(), name@, c),
        ),
{
    let ghost all = scopes.deep_view();
    assert(all.len() == scopes@.len());
    let mut top = scopes.pop().unwrap();
    assert(all.last() == top.deep_view());
    assert(scopes.deep_view() =~= all.drop_last());
    set_entry(&mut top, name, c);
    let ghost rest = scopes.deep_view();
    scopes.push(top);
    assert(scopes.deep_view() =~= rest.push(top.deep_view()));
}

fn take_waiting(pending: &mut Vec<Vec<(LocalId, Rc<TypedFunDecl>)>>, id: LocalId) -> (r: Option<
    Rc<TypedFunDecl>,
>)
    ensures
        r.deep_view() == waiting(old(pending).deep_view(), id),
        final(pending).deep_view() == no_longer_waiting(old(pending).deep_view(), id),
    decreases old(pending)@.len(),
{
    let ghost all = pending.deep_view();
    assert(all.len() == pending@.len());
    if pending.len() == 0 {
        return None;
    }
    let mut top = pending.pop().unwrap();
    assert(all.last() == top.deep_view());
    assert(pending.deep_view() =~= all.drop_last());
    let r = if find(&top, &id).is_some() {
        take_entry(&mut top, &id)
    } else {
        take_waiting(pending, id)
    };
    let ghost rest = pending.deep_view();
    assert(rest.len() == pending@.len());
    pending.push(top);
    assert(pending.deep_view() =~= rest.push(top.deep_view()));
    r
}

impl Environment {
    pub fn new() -> (e: Self)
        ensures
            e@ == empty_env(),
    {
        let mut scopes: Vec<Vec<(String, CellId)>> = Vec::new();
        scopes.push(Vec::new());
        let mut pending_funs: Vec<Vec<(LocalId, Rc<TypedFunDecl>)>> = Vec::new();
        pending_funs.push(Vec::new());
        let e = Environment { scopes, frame: Vec::new(), pending_funs, type_ctx: None };
        proof {
            assert(scopes@[0].deep_view() =~= Seq::<(Seq<char>, CellId)>::empty());
            assert(pending_funs@[0].deep_view() =~= Seq::<(LocalId, TypedFunDecl)>::empty());
            assert(e@.scopes =~= empty_env().scopes);
            assert(e@.pending =~= empty_env().pending);
            assert(e@.frame =~= empty_env().frame);
        }
        e
    }

    pub fn push_scope(&mut self)
        ensures
            final(self)@ == scope_opened(old(self)@),
    {
        let ghost before = self@;
        let scope: Vec<(String, CellId)> = Vec::new();
        let none: Vec<(LocalId, Rc<TypedFunDecl>)> = Vec::new();
        proof {
            assert(before.scopes.len() == self.scopes@.len());
            assert(before.pending.len() == self.pending_funs@.len());
            assert(scope.deep_view() =~= Seq::<(Seq<char>, CellId)>::empty());
            assert(none.deep_view() =~= Seq::<(LocalId, TypedFunDecl)>::empty());
        }
        self.scopes.push(scope);
        self.pending_funs.push(none);
        assert(self@.scopes =~= before.scopes.push(Seq::empty()));
        assert(self@.pending =~= before.pending.push(Seq::empty()));
    }

    pub fn pop_scope(&mut self)
        ensures
            final(self)@ == scope_ended(old(self)@),
    {
        let ghost before = self@;
        proof {
            assert(before.scopes.len() == self.scopes@.len());
            assert(before.pending.len() == self.pending_funs@.len());
        }
        let _ = self.scopes.pop();
        let _ = self.pending_funs.pop();
        assert(self@.scopes =~= popped(before.scopes));
        assert(self@.pending =~= popped(before.pending));
    }

    /// Record that the nested function with identity `id` has a placeholder but no
    /// closure yet.
    pub fn register_pending_fun(&mut self, id: LocalId, f: Rc<TypedFunDecl>)
        requires
            old(self)@.pending.len() > 0,
        ensures
            final(self)@ == (EnvModel {
                pending: old(self)@.pending.drop_last().push(
                    crate::assoc::put(old(self)@.pending.last(), id, *f),
                ),
                ..old(self)@
            }),
    {
        let ghost all = self@.pending;
        assert(all.len() == self.pending_funs@.len());
        let mut top = self.pending_funs.pop().unwrap();
        assert(all.last() == top.deep_view());
        assert(self.pending_funs.deep_view() =~= all.drop_last());
        set_entry(&mut top, id, f);
        let ghost rest = self.pending_funs.deep_view();
        self.pending_funs.push(top);
        assert(self@.pending =~= rest.push(top.deep_view()));
    }

    /// Remove and return a pending function by its identity (innermost scope
    /// first), so that it is built at most once.
    pub fn take_pending_fun(&mut self, id: LocalId) -> (r: Option<Rc<TypedFunDecl>>)
        ensures
            r.deep_view() == waiting(old(self)@.pending, id),
            final(self)@ == (EnvModel {
                pending: no_longer_waiting(old(self)@.pending, id),
                ..old(self)@
            }),
    {
        take_waiting(&mut self.pending_funs, id)
    }

    /// Define a new binding in the current scope. Arrays are copied so that each
    /// binding has an independent one. Where the value contains itself nothing
    /// happens, and the answer is `false`.
    pub fn define(&mut self, store: &mut Store, name: &str, value: Value) -> (b: bool)
        requires
            old(self)@.scopes.len() > 0,
        ensures
            match variable_defined(old(store)@, old(self)@, None, name@, value@) {
                Some((t, e)) => b && final(store)@ == t && final(self)@ == e,
                None => !b && final(store)@ == old(store)@ && final(self)@ == old(self)@,
            },
            crate::copying::extends(old(store)@, final(store)@),
    {
        self.define_binding(store, None, name, value)
    }

    /// Bind a name to a cell in the current scope.
    pub fn define_rc(&mut self, name: &str, cell: CellId)
        requires
            old(self)@.scopes.len() > 0,
        ensures
            final(self)@ == name_bound(old(self)@, name@, cell),
    {
        assert(self@.scopes.len() == self.scopes@.len());
        put_in_top(&mut self.scopes, name.to_owned(), cell);
    }

    /// [`Environment::define`], also recording the binding under its identity.
    pub fn define_binding(
        &mut self,
        store: &mut Store,
        id: Option<LocalId>,
        name: &str,
        value: Value,
    ) -> (b: bool)
        requires
            old(self)@.scopes.len() > 0,
        ensures
            match variable_defined(old(store)@, old(self)@, id, name@, value@) {
                Some((t, e)) => b && final(store)@ == t && final(self)@ == e,
                None => !b && final(store)@ == old(store)@ && final(self)@ == old(self)@,
            },
            crate::copying::extends(old(store)@, final(store)@),
    {
        match deep_clone_value(store, &value) {
            Some(copy) => {
                let ghost middle = store@;
                let cell = store.make_cell(copy);
                proof {
                    crate::copying::lemma_extends_made(
                        middle,
                        copy@,
                        arbitrary(),
                        arbitrary(),
                    );
                    crate::copying::lemma_extends_on(old(store)@, middle, store@);
                }
                self.define_binding_rc(id, name, cell);
                true
            },
            None => false,
        }
    }

    /// [`Environment::define_rc`], also recording the cell under the binding's
    /// identity.
    pub fn define_binding_rc(&mut self, id: Option<LocalId>, name: &str, cell: CellId)
        requires
            old(self)@.scopes.len() > 0,
        ensures
            final(self)@ == variable_bound(old(self)@, id, name@, cell),
    {
        if let Some(local) = id {
            set_entry(&mut self.frame, local, cell);
        }
        self.define_rc(name, cell);
    }

    /// Look up a binding by its identity.
    pub fn get_local(&self, store: &Store, id: LocalId) -> (r: Option<Value>)
        ensures
            r.deep_view() == (match crate::assoc::entry(self@.frame, id) {
                Some(c) => Some(crate::store::cell_at(store@, c)),
                None => None,
            }),
    {
        match self.get_local_rc(id) {
            Some(c) => Some(store.cell(c)),
            None => None,
        }
    }

    /// Look up a binding, searching from innermost to outermost scope.
    pub fn get(&self, store: &Store, name: &str) -> (r: Option<Value>)
        ensures
            r.deep_view() == (match crate::copying::name_cell(self@.scopes, name@) {
                Some(c) => Some(crate::store::cell_at(store@, c)),
                None => None,
            }),
    {
        match self.get_rc(name) {
            Some(c) => Some(store.cell(c)),
            None => None,
        }
    }

    /// Assign to an existing binding anywhere in the scope chain, and say whether
    /// there is one. Arrays are copied so that each binding has an independent
    /// one. There is no answer, and nothing happens, where the value contains
    /// itself.
    pub fn set(&self, store: &mut Store, name: &str, value: Value) -> (r: Option<bool>)
        ensures
            match crate::copying::name_cell(self@.scopes, name@) {
                None => r == Some(false) && final(store)@ == old(store)@,
                Some(c) => match crate::copying::value_copied(old(store)@, value@) {
                    Some((t, x)) => r == Some(true) && final(store)@ == crate::store::cell_set(
                        t,
                        c,
                        x,
                    ),
                    None => r is None && final(store)@ == old(store)@,
                },
            },
    {
        match self.get_rc(name) {
            None => Some(false),
            Some(c) => match deep_clone_value(store, &value) {
                Some(copy) => {
                    store.set_cell(c, copy);
                    Some(true)
                },
                None => None,
            },
        }
    }

    /// The cell of a binding.
    pub fn get_rc(&self, name: &str) -> (r: Option<CellId>)
        ensures
            r == crate::copying::name_cell(self@.scopes, name@),
    {
        find_name(&self.scopes, &name.to_owned())
    }

    /// The cell of a binding by its identity.
    pub fn get_local_rc(&self, id: LocalId) -> (r: Option<CellId>)
        ensures
            r == crate::assoc::entry(self@.frame, id),
    {
        match find(&self.frame, &id) {
            Some(c) => Some(*c),
            None => None,
        }
    }

    /// Captures the bindings named by a closure's capture list. Each is installed
    /// under its identity as well as by name, on one cell.
    pub fn capture_closure(
        &self,
        store: &mut Store,
        captures: &Vec<CaptureSpec>,
        capture_ids: &Vec<Option<LocalId>>,
        span: &Span,
    ) -> (r: Result<Environment, Stop>)
        ensures
            match closure_captured(
                old(store)@,
                self@,
                captures@,
                capture_ids@,
                span.deep_view(),
            ) {
                Ok((t, e)) => final(store)@ == t && (r matches Ok(made) && made@ == e),
                Err(stop) => final(store)@ == old(store)@ && (r matches Err(x) && x.deep_view()
                    == stop),
            },
    {
        if captures.len() == 0 {
            return match self.capture_clone(store) {
                Some(e) => Ok(e),
                None => Err(Stop::Endless),
            };
        }
        let ghost s = store@;
        let cells: usize = store.cells.len();
        let arrays: usize = store.arrays.len();
        let closures: usize = store.closures.len();
        proof {
            assert(s.cells.len() == store.cells@.len());
            assert(s.arrays.len() == store.arrays@.len());
            assert(s.closures.len() == store.closures@.len());
            crate::copying::lemma_extends_self(s);
        }
        let mut made = Environment::new();
        made.pending_funs = self.pending_funs.dup();
        made.type_ctx = self.type_ctx;
        let mut i: usize = 0;
        while i < captures.len()
            invariant
                i <= captures.len(),
                s == old(store)@,
                cells == s.cells.len(),
                arrays == s.arrays.len(),
                closures == s.closures.len(),
                crate::copying::extends(s, store@),
                captures@.len() > 0,
                made@.scopes.len() > 0,
                captured_from(s, self@, captures@, capture_ids@, span.deep_view(), i as nat)
                    == Ok::<(StoreModel, EnvModel), StopModel>((store@, made@)),
            decreases captures.len() - i,
        {
            let c = &captures[i];
            let id = if i < capture_ids.len() {
                capture_ids[i]
            } else {
                None
            };
            let (name, refers) = match c {
                CaptureSpec::Owned { name, span: _ } | CaptureSpec::Clone { name, span: _ } => (
                    name,
                    false,
                ),
                CaptureSpec::SharedRef { name, span: _ } | CaptureSpec::MutRef {
                    name,
                    span: _,
                } => (
                    name,
                    true,
                ),
            };
            match self.variable(id, name) {
                None => {
                    proof {
                        lemma_capture_fails(
                            s,
                            self@,
                            captures@,
                            capture_ids@,
                            span.deep_view(),
                            (i + 1) as nat,
                            captures@.len(),
                        );
                    }
                    take_back(store, cells, arrays, closures, Ghost(s));
                    return Err(Stop::Error(undefined_error(name, span)));
                },
                Some(cell) => {
                    if refers {
                        made.define_binding_rc(id, name.as_str(), cell);
                    } else {
                        let ghost before = store@;
                        let value = store.cell(cell);
                        if !made.define_binding(store, id, name.as_str(), value) {
                            proof {
                                lemma_capture_fails(
                                    s,
                                    self@,
                                    captures@,
                                    capture_ids@,
                                    span.deep_view(),
                                    (i + 1) as nat,
                                    captures@.len(),
                                );
                            }
                            take_back(store, cells, arrays, closures, Ghost(s));
                            return Err(Stop::Endless);
                        }
                        proof {
                            crate::copying::lemma_extends_on(s, before, store@);
                        }
                    }
                },
            }
            i += 1;
        }
        Ok(made)
    }
}

proof fn lemma_capture_fails(
    s: StoreModel,
    env: EnvModel,
    captures: Seq<CaptureSpec>,
    ids: Seq<Option<LocalId>>,
    span: SpanModel,
    k: nat,
    n: nat,
)
    requires
        k <= n,
        captured_from(s, env, captures, ids, span, k) is Err,
    ensures
        captured_from(s, env, captures, ids, span, n) == captured_from(
            s,
            env,
            captures,
            ids,
            span,
            k,
        ),
    decreases n - k,
{
    if k < n {
        lemma_capture_fails(s, env, captures, ids, span, k, (n - 1) as nat);
    }
}

impl Default for Environment {
    fn default() -> (e: Self)
        ensures
            e@ == empty_env(),
    {
        Environment::new()
    }
}

} // verus!
