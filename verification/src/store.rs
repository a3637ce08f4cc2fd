//! Storage: cells, arrays and closures, and where names are stored.

use crate::data::{Dup, Same};
use crate::sharing::share;
use crate::typed_ast::{CaptureSpec, TypedClosure, TypedFunDecl};
use crate::types::{CallMutation, Type, UseMultiplicity};
use crate::values::{ArrayId, CellId, ClosureId, LocalId, Value, ValueTerm};
use std::rc::Rc;
use vstd::prelude::*;
use vstd::string::*;

verus! {

impl DeepView for TypedFunDecl {
    type V = TypedFunDecl;

    open spec fn deep_view(&self) -> TypedFunDecl {
        *self
    }
}

/// The names in scope: a stack of scopes, and the cells of bindings by their
/// identities.
pub struct Environment {
    pub scopes: Vec<Vec<(String, CellId)>>,
    /// Cells by the identity of the binding. An identity stands for a place in the
    /// program, so shadowing and nesting need no stack here.
    pub frame: Vec<(LocalId, CellId)>,
    /// Nested functions that have a placeholder but no closure yet, per scope.
    pub pending_funs: Vec<Vec<(LocalId, Rc<TypedFunDecl>)>>,
    /// The module whose types generic bodies are typed with.
    pub type_ctx: Option<usize>,
}

/// What an environment holds.
pub struct EnvModel {
    pub scopes: Seq<Seq<(Seq<char>, CellId)>>,
    pub frame: Seq<(LocalId, CellId)>,
    pub pending: Seq<Seq<(LocalId, TypedFunDecl)>>,
    pub type_ctx: Option<usize>,
}

impl DeepView for Environment {
    type V = EnvModel;

    open spec fn deep_view(&self) -> EnvModel {
        EnvModel {
            scopes: self.scopes.deep_view(),
            frame: self.frame.deep_view(),
            pending: self.pending_funs.deep_view(),
            type_ctx: self.type_ctx,
        }
    }
}

impl View for Environment {
    type V = EnvModel;

    open spec fn view(&self) -> EnvModel {
        self.deep_view()
    }
}

impl Dup for Rc<TypedFunDecl> {
    fn dup(&self) -> (r: Self) {
        share(self)
    }
}

impl Dup for Environment {
    fn dup(&self) -> (r: Self) {
        Environment {
            scopes: self.scopes.dup(),
            frame: self.frame.dup(),
            pending_funs: self.pending_funs.dup(),
            type_ctx: self.type_ctx,
        }
    }
}

/// What a closure was made from: a closure expression or a function, with the
/// module whose types a generic body is typed with.
pub enum ClosureCode {
    Closure(Rc<TypedClosure>, Option<usize>),
    Fun(Rc<TypedFunDecl>, Option<usize>),
}

/// A closure: its code, and the environment that it captured.
pub struct ClosureValue {
    pub code: ClosureCode,
    pub captured: Environment,
    /// Whether a call of a closure that changes its own state is under way.
    pub in_call: bool,
}

pub struct ClosureModel {
    pub code: ClosureCode,
    pub captured: EnvModel,
    pub in_call: bool,
}

impl DeepView for ClosureValue {
    type V = ClosureModel;

    open spec fn deep_view(&self) -> ClosureModel {
        ClosureModel {
            code: self.code,
            captured: self.captured.deep_view(),
            in_call: self.in_call,
        }
    }
}

impl ClosureCode {
    /// The same code.
    pub fn again(&self) -> (r: ClosureCode)
        ensures
            r == *self,
    {
        match self {
            ClosureCode::Closure(c, ctx) => ClosureCode::Closure(share(c), *ctx),
            ClosureCode::Fun(f, ctx) => ClosureCode::Fun(share(f), *ctx),
        }
    }
}

/// The variables that code captures.
pub open spec fn captures_of(code: ClosureCode) -> Seq<CaptureSpec> {
    match code {
        ClosureCode::Closure(c, _) => c.captures@,
        ClosureCode::Fun(_, _) => Seq::empty(),
    }
}

/// The identities of the captured variables, as far as they are known.
pub open spec fn capture_ids_of(code: ClosureCode) -> Seq<Option<LocalId>> {
    match code {
        ClosureCode::Closure(c, _) => c.capture_ids@,
        ClosureCode::Fun(_, _) => Seq::empty(),
    }
}

/// Whether a closure made from code is copied when its value is.
pub open spec fn copied_on_use(code: ClosureCode) -> bool {
    match code {
        ClosureCode::Closure(c, _) => match c.ty {
            Some(Type::Fun(_, _, _, us, _)) => us == UseMultiplicity::Copy,
            _ => false,
        },
        ClosureCode::Fun(_, _) => false,
    }
}

/// Whether calls of a closure made from code change its own state.
pub open spec fn mutating(code: ClosureCode) -> bool {
    match code {
        ClosureCode::Closure(c, _) => c.call_mutation == CallMutation::Mutating,
        ClosureCode::Fun(_, _) => false,
    }
}

/// All that programs store.
pub struct Store {
    pub cells: Vec<Value>,
    pub arrays: Vec<Vec<Value>>,
    pub closures: Vec<ClosureValue>,
}

pub struct StoreModel {
    pub cells: Seq<ValueTerm>,
    pub arrays: Seq<Seq<ValueTerm>>,
    pub closures: Seq<ClosureModel>,
}

impl View for Store {
    type V = StoreModel;

    open spec fn view(&self) -> StoreModel {
        StoreModel {
            cells: self.cells.deep_view(),
            arrays: self.arrays.deep_view(),
            closures: self.closures.deep_view(),
        }
    }
}

/// What is in a cell. Cells that were never made hold the unit value.
pub open spec fn cell_at(s: StoreModel, c: CellId) -> ValueTerm {
    if c.0 < s.cells.len() {
        s.cells[c.0 as int]
    } else {
        crate::values::unit_term()
    }
}

/// The elements of an array. Arrays that were never made are empty.
pub open spec fn array_at(s: StoreModel, a: ArrayId) -> Seq<ValueTerm> {
    if a.0 < s.arrays.len() {
        s.arrays[a.0 as int]
    } else {
        Seq::empty()
    }
}

/// A closure, if it has been made.
pub open spec fn closure_at(s: StoreModel, c: ClosureId) -> Option<ClosureModel> {
    if c.0 < s.closures.len() {
        Some(s.closures[c.0 as int])
    } else {
        None
    }
}

/// The store after a cell has been made, and the cell.
pub open spec fn cell_made(s: StoreModel, v: ValueTerm) -> (StoreModel, CellId) {
    (StoreModel { cells: s.cells.push(v), ..s }, CellId(s.cells.len() as usize))
}

/// The store after an array has been made, and the array.
pub open spec fn array_made(s: StoreModel, items: Seq<ValueTerm>) -> (StoreModel, ArrayId) {
    (StoreModel { arrays: s.arrays.push(items), ..s }, ArrayId(s.arrays.len() as usize))
}

/// The store after a closure has been made, and the closure.
pub open spec fn closure_made(s: StoreModel, c: ClosureModel) -> (StoreModel, ClosureId) {
    (StoreModel { closures: s.closures.push(c), ..s }, ClosureId(s.closures.len() as usize))
}

/// The store after something has been put into a cell.
pub open spec fn cell_set(s: StoreModel, c: CellId, v: ValueTerm) -> StoreModel {
    if c.0 < s.cells.len() {
        StoreModel { cells: s.cells.update(c.0 as int, v), ..s }
    } else {
        s
    }
}

/// The store after the elements of an array have been replaced.
pub open spec fn array_set(s: StoreModel, a: ArrayId, items: Seq<ValueTerm>) -> StoreModel {
    if a.0 < s.arrays.len() {
        StoreModel { arrays: s.arrays.update(a.0 as int, items), ..s }
    } else {
        s
    }
}

/// The store after a closure has been marked as being called or not.
pub open spec fn call_marked(s: StoreModel, c: ClosureId, in_call: bool) -> StoreModel {
    if c.0 < s.closures.len() {
        StoreModel {
            closures: s.closures.update(
                c.0 as int,
                ClosureModel { in_call, ..s.closures[c.0 as int] },
            ),
            ..s
        }
    } else {
        s
    }
}

impl Store {
    pub fn new() -> (s: Self)
        ensures
            s@ == (StoreModel {
                cells: Seq::empty(),
                arrays: Seq::empty(),
                closures: Seq::empty(),
            }),
    {
        let s = Store { cells: Vec::new(), arrays: Vec::new(), closures: Vec::new() };
        assert(s@.cells =~= Seq::empty());
        assert(s@.arrays =~= Seq::empty());
        assert(s@.closures =~= Seq::empty());
        s
    }

    /// A copy of what is in a cell.
    pub fn cell(&self, c: CellId) -> (v: Value)
        ensures
            v@ == cell_at(self@, c),
    {
        if c.0 < self.cells.len() {
            self.cells[c.0].dup()
        } else {
            Value::Unit
        }
    }

    /// A copy of the elements of an array.
    pub fn array(&self, a: ArrayId) -> (items: Vec<Value>)
        ensures
            items.deep_view() == array_at(self@, a),
    {
        if a.0 < self.arrays.len() {
            self.arrays[a.0].dup()
        } else {
            let items: Vec<Value> = Vec::new();
            assert(items.deep_view() =~= Seq::<ValueTerm>::empty());
            items
        }
    }

    /// The number of elements of an array.
    pub fn array_len(&self, a: ArrayId) -> (n: usize)
        ensures
            n == array_at(self@, a).len(),
    {
        if a.0 < self.arrays.len() {
            assert(self@.arrays[a.0 as int].len() == self.arrays@[a.0 as int]@.len());
            self.arrays[a.0].len()
        } else {
            0
        }
    }

    /// A copy of an element of an array.
    pub fn element(&self, a: ArrayId, i: usize) -> (v: Value)
        requires
            i < array_at(self@, a).len(),
        ensures
            v@ == array_at(self@, a)[i as int],
    {
        assert(self@.arrays[a.0 as int].len() == self.arrays@[a.0 as int]@.len());
        self.arrays[a.0][i].dup()
    }

    /// A closure, if it has been made.
    pub fn closure(&self, c: ClosureId) -> (r: Option<&ClosureValue>)
        ensures
            r.deep_view() == closure_at(self@, c),
    {
        if c.0 < self.closures.len() {
            Some(&self.closures[c.0])
        } else {
            None
        }
    }

    pub fn make_cell(&mut self, v: Value) -> (c: CellId)
        ensures
            (final(self)@, c) == cell_made(old(self)@, v@),
    {
        let ghost before = self@;
        assert(before.cells.len() == self.cells@.len());
        let id: usize = self.cells.len();
        self.cells.push(v);
        assert(self@.cells =~= before.cells.push(v@));
        CellId(id)
    }

    pub fn make_array(&mut self, items: Vec<Value>) -> (a: ArrayId)
        ensures
            (final(self)@, a) == array_made(old(self)@, items.deep_view()),
    {
        let ghost before = self@;
        assert(before.arrays.len() == self.arrays@.len());
        let id: usize = self.arrays.len();
        self.arrays.push(items);
        assert(self@.arrays =~= before.arrays.push(items.deep_view()));
        ArrayId(id)
    }

    pub fn make_closure(&mut self, c: ClosureValue) -> (id: ClosureId)
        ensures
            (final(self)@, id) == closure_made(old(self)@, c.deep_view()),
    {
        let ghost before = self@;
        assert(before.closures.len() == self.closures@.len());
        let id: usize = self.closures.len();
        self.closures.push(c);
        assert(self@.closures =~= before.closures.push(c.deep_view()));
        ClosureId(id)
    }

    /// Puts something into a cell.
    pub fn set_cell(&mut self, c: CellId, v: Value)
        ensures
            final(self)@ == cell_set(old(self)@, c, v@),
    {
        let ghost before = self@;
        if c.0 < self.cells.len() {
            self.cells.set(c.0, v);
            assert(self@.cells =~= before.cells.update(c.0 as int, v@));
        }
    }

    /// Replaces the elements of an array.
    pub fn set_array(&mut self, a: ArrayId, items: Vec<Value>)
        ensures
            final(self)@ == array_set(old(self)@, a, items.deep_view()),
    {
        let ghost before = self@;
        if a.0 < self.arrays.len() {
            self.arrays.set(a.0, items);
            assert(self@.arrays =~= before.arrays.update(a.0 as int, items.deep_view()));
        }
    }

    /// Replaces an element of an array.
    pub fn set_element(&mut self, a: ArrayId, i: usize, v: Value)
        requires
            i < array_at(old(self)@, a).len(),
        ensures
            final(self)@ == array_set(
                old(self)@,
                a,
                array_at(old(self)@, a).update(i as int, v@),
            ),
    {
        let mut items = self.array(a);
        let ghost before = items.deep_view();
        assert(before.len() == items@.len());
        items.set(i, v);
        assert(items.deep_view() =~= before.update(i as int, v@));
        self.set_array(a, items);
    }

    /// Marks a closure as being called or not.
    pub fn mark_call(&mut self, c: ClosureId, in_call: bool)
        ensures
            final(self)@ == call_marked(old(self)@, c, in_call),
    {
        let ghost before = self@;
        if c.0 < self.closures.len() {
            let code = self.closures[c.0].code.again();
            let captured = self.closures[c.0].captured.dup();
            self.closures.set(c.0, ClosureValue { code, captured, in_call });
            assert(self@.closures =~= before.closures.update(
                c.0 as int,
                ClosureModel { in_call, ..before.closures[c.0 as int] },
            ));
        }
    }
}

} // verus!
