//! Values that programs compute with.

use crate::data::{Dup, Same};
use crate::native_keys::NativeFn;
use crate::symbols::{SymbolId, VariantId};
use crate::term::Term;
use crate::types::{relabel, Type};
use vstd::prelude::*;
use vstd::string::*;

verus! {

/// A storage cell.
#[derive(Debug, Clone, Copy, PartialEq, Eq, Structural)]
pub struct CellId(pub usize);

impl DeepView for CellId {
    type V = CellId;

    open spec fn deep_view(&self) -> CellId {
        *self
    }
}

impl Same for CellId {
    fn same(&self, other: &Self) -> (b: bool) {
        self.0 == other.0
    }
}

impl Dup for CellId {
    fn dup(&self) -> (r: Self) {
        *self
    }
}

/// The elements of an array, which several values may share.
#[derive(Debug, Clone, Copy, PartialEq, Eq, Structural)]
pub struct ArrayId(pub usize);

impl DeepView for ArrayId {
    type V = ArrayId;

    open spec fn deep_view(&self) -> ArrayId {
        *self
    }
}

impl Same for ArrayId {
    fn same(&self, other: &Self) -> (b: bool) {
        self.0 == other.0
    }
}

impl Dup for ArrayId {
    fn dup(&self) -> (r: Self) {
        *self
    }
}

/// A closure.
#[derive(Debug, Clone, Copy, PartialEq, Eq, Structural)]
pub struct ClosureId(pub usize);

impl DeepView for ClosureId {
    type V = ClosureId;

    open spec fn deep_view(&self) -> ClosureId {
        *self
    }
}

impl Same for ClosureId {
    fn same(&self, other: &Self) -> (b: bool) {
        self.0 == other.0
    }
}

impl Dup for ClosureId {
    fn dup(&self) -> (r: Self) {
        *self
    }
}

/// The identity of a local binding: where it stands in the program.
#[derive(Debug, Clone, Copy, PartialEq, Eq, Structural)]
pub struct LocalId(pub u64);

impl DeepView for LocalId {
    type V = LocalId;

    open spec fn deep_view(&self) -> LocalId {
        *self
    }
}

impl Same for LocalId {
    fn same(&self, other: &Self) -> (b: bool) {
        self.0 == other.0
    }
}

impl Dup for LocalId {
    fn dup(&self) -> (r: Self) {
        *self
    }
}

/// The integer types.
#[derive(Debug, Clone, Copy, PartialEq, Eq, Structural)]
pub enum IntKind {
    I8,
    I16,
    I32,
    I64,
    U8,
    U16,
    U32,
    U64,
}

/// The floating-point types.
#[derive(Debug, Clone, Copy, PartialEq, Eq, Structural)]
pub enum FloatKind {
    F32,
    F64,
}

/// One step of a path into a value.
#[derive(Debug)]
pub enum PathSegment {
    Field(String),
    TupleIndex(usize),
    ArrayIndex(usize),
}

pub enum SegmentModel {
    Field(Seq<char>),
    TupleIndex(usize),
    ArrayIndex(usize),
}

impl DeepView for PathSegment {
    type V = SegmentModel;

    open spec fn deep_view(&self) -> SegmentModel {
        match self {
            PathSegment::Field(f) => SegmentModel::Field(f@),
            PathSegment::TupleIndex(i) => SegmentModel::TupleIndex(*i),
            PathSegment::ArrayIndex(i) => SegmentModel::ArrayIndex(*i),
        }
    }
}

impl Dup for PathSegment {
    fn dup(&self) -> (r: Self) {
        match self {
            PathSegment::Field(f) => PathSegment::Field(f.clone()),
            PathSegment::TupleIndex(i) => PathSegment::TupleIndex(*i),
            PathSegment::ArrayIndex(i) => PathSegment::ArrayIndex(*i),
        }
    }
}

/// What can be called: a closure, or a function that the host implements.
#[derive(Debug)]
pub enum RuntimeCallable {
    Closure(ClosureId),
    Intrinsic { label: String, fun: NativeFn },
}

pub enum CallableModel {
    Closure(ClosureId),
    Intrinsic(Seq<char>, NativeFn),
}

impl DeepView for RuntimeCallable {
    type V = CallableModel;

    open spec fn deep_view(&self) -> CallableModel {
        match self {
            RuntimeCallable::Closure(c) => CallableModel::Closure(*c),
            RuntimeCallable::Intrinsic { label, fun } => CallableModel::Intrinsic(label@, *fun),
        }
    }
}

impl Dup for RuntimeCallable {
    fn dup(&self) -> (r: Self) {
        match self {
            RuntimeCallable::Closure(c) => RuntimeCallable::Closure(*c),
            RuntimeCallable::Intrinsic { label, fun } => RuntimeCallable::Intrinsic {
                label: label.clone(),
                fun: *fun,
            },
        }
    }
}

/// A value. Floating-point numbers are held as their bits.
#[derive(Debug)]
pub enum Value {
    I64(i64),
    I8(i8),
    I16(i16),
    I32(i32),
    U8(u8),
    U16(u16),
    U32(u32),
    U64(u64),
    F64(u64),
    F32(u32),
    Char(char),
    Boolean(bool),
    Str(String),
    Unit,
    Tuple(Vec<Value>),
    Array(ArrayId),
    Record { fields: Vec<(String, Value)> },
    /// `type_id` is the identity of the struct's declaration, where it is known.
    Struct { name: String, type_id: Option<SymbolId>, fields: Vec<(String, Value)> },
    /// `type_id` and `variant_id` are the identities of the enum's declaration and
    /// of the variant, where they are known.
    Enum {
        name: String,
        type_id: Option<SymbolId>,
        variant: String,
        variant_id: Option<VariantId>,
        fields: Vec<(String, Value)>,
    },
    Callable(RuntimeCallable),
    /// Read-only pointer to a cell.
    Reference(CellId),
    /// Writable pointer to a cell.
    MutReference(CellId),
    /// Read-only pointer to a part of what is in a cell.
    FieldReference { root: CellId, path: Vec<PathSegment> },
    /// Writable pointer to a part of what is in a cell.
    MutFieldReference { root: CellId, path: Vec<PathSegment> },
    /// A `dyn Aspect` value: the value in its cell, the identity of its own type,
    /// and the aspect that it is seen as.
    DynAspect {
        data: CellId,
        type_id: SymbolId,
        aspect_id: SymbolId,
        aspect_name: String,
        type_args: Vec<Type>,
    },
}

/// What a value is, apart from its components.
pub enum ValueHead {
    Int(IntKind, int),
    Float(FloatKind, nat),
    Char(char),
    Boolean(bool),
    Str(Seq<char>),
    Unit,
    Tuple,
    Array(ArrayId),
    Record(Seq<Seq<char>>),
    Struct(Seq<char>, Option<SymbolId>, Seq<Seq<char>>),
    Enum(Seq<char>, Option<SymbolId>, Seq<char>, Option<VariantId>, Seq<Seq<char>>),
    Callable(CallableModel),
    Reference(CellId),
    MutReference(CellId),
    FieldReference(CellId, Seq<SegmentModel>),
    MutFieldReference(CellId, Seq<SegmentModel>),
    Dyn(CellId, SymbolId, SymbolId, Seq<char>, Seq<Term>),
}

/// A value with its components: the elements of a tuple, and the values of the
/// fields that the head names.
pub struct ValueTerm {
    pub head: ValueHead,
    pub args: Seq<ValueTerm>,
}

/// A value without components.
pub open spec fn plain(head: ValueHead) -> ValueTerm {
    ValueTerm { head, args: Seq::empty() }
}

/// The integer values.
pub open spec fn int_term(kind: IntKind, n: int) -> ValueTerm {
    plain(ValueHead::Int(kind, n))
}

pub open spec fn bool_term(b: bool) -> ValueTerm {
    plain(ValueHead::Boolean(b))
}

pub open spec fn str_term(s: Seq<char>) -> ValueTerm {
    plain(ValueHead::Str(s))
}

pub open spec fn unit_term() -> ValueTerm {
    plain(ValueHead::Unit)
}

impl Value {
    /// The term that a value denotes.
    pub open spec fn term(self) -> ValueTerm
        decreases self,
    {
        match self {
            Value::I64(n) => int_term(IntKind::I64, n as int),
            Value::I8(n) => int_term(IntKind::I8, n as int),
            Value::I16(n) => int_term(IntKind::I16, n as int),
            Value::I32(n) => int_term(IntKind::I32, n as int),
            Value::U8(n) => int_term(IntKind::U8, n as int),
            Value::U16(n) => int_term(IntKind::U16, n as int),
            Value::U32(n) => int_term(IntKind::U32, n as int),
            Value::U64(n) => int_term(IntKind::U64, n as int),
            Value::F64(bits) => plain(ValueHead::Float(FloatKind::F64, bits as nat)),
            Value::F32(bits) => plain(ValueHead::Float(FloatKind::F32, bits as nat)),
            Value::Char(c) => plain(ValueHead::Char(c)),
            Value::Boolean(b) => bool_term(b),
            Value::Str(s) => str_term(s@),
            Value::Unit => unit_term(),
            Value::Tuple(items) => ValueTerm {
                head: ValueHead::Tuple,
                args: Seq::new(
                    items@.len(),
                    |i: int|
                        if 0 <= i < items@.len() {
                            items@[i].term()
                        } else {
                            arbitrary()
                        },
                ),
            },
            Value::Array(id) => plain(ValueHead::Array(id)),
            Value::Record { fields } => ValueTerm {
                head: ValueHead::Record(crate::types::labels_of(fields@)),
                args: Seq::new(
                    fields@.len(),
                    |i: int|
                        if 0 <= i < fields@.len() {
                            fields@[i].1.term()
                        } else {
                            arbitrary()
                        },
                ),
            },
            Value::Struct { name, type_id, fields } => ValueTerm {
                head: ValueHead::Struct(name@, type_id, crate::types::labels_of(fields@)),
                args: Seq::new(
                    fields@.len(),
                    |i: int|
                        if 0 <= i < fields@.len() {
                            fields@[i].1.term()
                        } else {
                            arbitrary()
                        },
                ),
            },
            Value::Enum { name, type_id, variant, variant_id, fields } => ValueTerm {
                head: ValueHead::Enum(
                    name@,
                    type_id,
                    variant@,
                    variant_id,
                    crate::types::labels_of(fields@),
                ),
                args: Seq::new(
                    fields@.len(),
                    |i: int|
                        if 0 <= i < fields@.len() {
                            fields@[i].1.term()
                        } else {
                            arbitrary()
                        },
                ),
            },
            Value::Callable(c) => plain(ValueHead::Callable(c.deep_view())),
            Value::Reference(c) => plain(ValueHead::Reference(c)),
            Value::MutReference(c) => plain(ValueHead::MutReference(c)),
            Value::FieldReference { root, path } => plain(
                ValueHead::FieldReference(root, path.deep_view()),
            ),
            Value::MutFieldReference { root, path } => plain(
                ValueHead::MutFieldReference(root, path.deep_view()),
            ),
            Value::DynAspect { data, type_id, aspect_id, aspect_name, type_args } => plain(
                ValueHead::Dyn(data, type_id, aspect_id, aspect_name@, type_args.deep_view()),
            ),
        }
    }
}

/// The terms that a list of values denotes.
pub open spec fn value_terms(vs: Seq<Value>) -> Seq<ValueTerm> {
    Seq::new(vs.len(), |i: int| vs[i].term())
}

impl DeepView for Value {
    type V = ValueTerm;

    open spec fn deep_view(&self) -> ValueTerm {
        self.term()
    }
}

impl View for Value {
    type V = ValueTerm;

    open spec fn view(&self) -> ValueTerm {
        self.term()
    }
}

impl Value {
    /// The number of components.
    pub fn arity(&self) -> (n: usize)
        ensures
            n == self@.args.len(),
    {
        match self {
            Value::Tuple(items) => items.len(),
            Value::Record { fields } => fields.len(),
            Value::Struct { name: _, type_id: _, fields } => fields.len(),
            Value::Enum { name: _, type_id: _, variant: _, variant_id: _, fields } => fields.len(),
            _ => 0,
        }
    }

    /// The component at a position.
    pub fn child(&self, i: usize) -> (c: &Value)
        requires
            i < self@.args.len(),
        ensures
            c@ == self@.args[i as int],
    {
        match self {
            Value::Tuple(items) => &items[i],
            Value::Record { fields } => &fields[i].1,
            Value::Struct { name: _, type_id: _, fields } => &fields[i].1,
            Value::Enum { name: _, type_id: _, variant: _, variant_id: _, fields } => &fields[i].1,
            _ => self,
        }
    }

    /// A value with the head of this one and the given components.
    pub fn rebuild(&self, items: Vec<Value>) -> (r: Value)
        requires
            items@.len() == self@.args.len(),
        ensures
            r@ == (ValueTerm { head: self@.head, args: value_terms(items@) }),
    {
        let ghost all = items@;
        let r = match self {
            Value::I64(n) => Value::I64(*n),
            Value::I8(n) => Value::I8(*n),
            Value::I16(n) => Value::I16(*n),
            Value::I32(n) => Value::I32(*n),
            Value::U8(n) => Value::U8(*n),
            Value::U16(n) => Value::U16(*n),
            Value::U32(n) => Value::U32(*n),
            Value::U64(n) => Value::U64(*n),
            Value::F64(n) => Value::F64(*n),
            Value::F32(n) => Value::F32(*n),
            Value::Char(n) => Value::Char(*n),
            Value::Boolean(n) => Value::Boolean(*n),
            Value::Str(s) => Value::Str(s.clone()),
            Value::Unit => Value::Unit,
            Value::Tuple(_) => Value::Tuple(items),
            Value::Array(id) => Value::Array(*id),
            Value::Record { fields } => Value::Record { fields: relabel(fields, items) },
            Value::Struct { name, type_id, fields } => Value::Struct {
                name: name.clone(),
                type_id: *type_id,
                fields: relabel(fields, items),
            },
            Value::Enum { name, type_id, variant, variant_id, fields } => Value::Enum {
                name: name.clone(),
                type_id: *type_id,
                variant: variant.clone(),
                variant_id: *variant_id,
                fields: relabel(fields, items),
            },
            Value::Callable(c) => Value::Callable(c.dup()),
            Value::Reference(c) => Value::Reference(*c),
            Value::MutReference(c) => Value::MutReference(*c),
            Value::FieldReference { root, path } => Value::FieldReference {
                root: *root,
                path: path.dup(),
            },
            Value::MutFieldReference { root, path } => Value::MutFieldReference {
                root: *root,
                path: path.dup(),
            },
            Value::DynAspect { data, type_id, aspect_id, aspect_name, type_args } => Value::DynAspect {
                data: *data,
                type_id: *type_id,
                aspect_id: *aspect_id,
                aspect_name: aspect_name.clone(),
                type_args: type_args.dup(),
            },
        };
        proof {
            assert(r@.args =~= value_terms(all));
        }
        r
    }
}

impl Dup for Value {
    fn dup(&self) -> (r: Self)
        decreases self@,
    {
        let mut items: Vec<Value> = Vec::new();
        let n: usize = self.arity();
        let mut i: usize = 0;
        while i < n
            invariant
                i <= n,
                n == self@.args.len(),
                items@.len() == i,
                forall|j: int| 0 <= j < i ==> (#[trigger] items@[j])@ == self@.args[j],
            decreases n - i,
        {
            let c = self.child(i);
            items.push(c.dup());
            i += 1;
        }
        proof {
            assert(value_terms(items@) =~= self@.args);
        }
        self.rebuild(items)
    }
}

impl Clone for Value {
    fn clone(&self) -> (r: Self)
        ensures
            r@ == self@,
    {
        self.dup()
    }
}

/// The labels of a value's fields, where it has fields.
pub open spec fn field_labels(h: ValueHead) -> Option<Seq<Seq<char>>> {
    match h {
        ValueHead::Record(labels) => Some(labels),
        ValueHead::Struct(_, _, labels) => Some(labels),
        ValueHead::Enum(_, _, _, _, labels) => Some(labels),
        _ => None,
    }
}

/// The position of the first label, from `i` on, that is a name, or the length.
pub open spec fn label_at(labels: Seq<Seq<char>>, name: Seq<char>, i: int) -> int
    decreases labels.len() - i,
{
    if i < 0 || i >= labels.len() {
        labels.len() as int
    } else if labels[i] == name {
        i
    } else {
        label_at(labels, name, i + 1)
    }
}

/// A position that is found has the name.
pub proof fn lemma_label_at(labels: Seq<Seq<char>>, name: Seq<char>, i: int)
    requires
        0 <= i <= labels.len(),
    ensures
        i <= label_at(labels, name, i) <= labels.len(),
        label_at(labels, name, i) < labels.len() ==> labels[label_at(labels, name, i)] == name,
    decreases labels.len() - i,
{
    if i < labels.len() && labels[i] != name {
        lemma_label_at(labels, name, i + 1);
    }
}

/// The value of a field, where a value has fields and one of that name.
pub open spec fn field_of(v: ValueTerm, name: Seq<char>) -> Option<ValueTerm> {
    match field_labels(v.head) {
        Some(labels) => {
            let i = label_at(labels, name, 0);
            if i < labels.len() {
                Some(v.args[i])
            } else {
                None
            }
        },
        None => None,
    }
}

/// The position of a field.
pub fn field_position<T>(fields: &Vec<(String, T)>, name: &str) -> (r: Option<usize>)
    ensures
        match r {
            Some(i) => i < fields@.len() && i == label_at(
                crate::types::labels_of(fields@),
                name@,
                0,
            ),
            None => label_at(crate::types::labels_of(fields@), name@, 0) == fields@.len(),
        },
{
    let key = name.to_owned();
    let mut i: usize = 0;
    while i < fields.len()
        invariant
            i <= fields.len(),
            key@ == name@,
            label_at(crate::types::labels_of(fields@), name@, 0) == label_at(
                crate::types::labels_of(fields@),
                name@,
                i as int,
            ),
        decreases fields.len() - i,
    {
        if fields[i].0 == key {
            return Some(i);
        }
        i += 1;
    }
    None
}

impl Value {
    /// The fields, where the value has fields.
    pub fn fields(&self) -> (r: Option<&Vec<(String, Value)>>)
        ensures
            match r {
                Some(fs) => field_labels(self@.head) == Some(crate::types::labels_of(fs@))
                    && self@.args.len() == fs@.len() && forall|i: int|
                    0 <= i < fs@.len() ==> (#[trigger] fs@[i]).1@ == self@.args[i],
                None => field_labels(self@.head) is None,
            },
    {
        match self {
            Value::Record { fields } => Some(fields),
            Value::Struct { name: _, type_id: _, fields } => Some(fields),
            Value::Enum { name: _, type_id: _, variant: _, variant_id: _, fields } => Some(fields),
            _ => None,
        }
    }

    /// The value of a field.
    pub fn field(&self, name: &str) -> (r: Option<&Value>)
        ensures
            r.deep_view() == field_of(self@, name@),
    {
        match self.fields() {
            Some(fs) => match field_position(fs, name) {
                Some(i) => Some(&fs[i].1),
                None => None,
            },
            None => None,
        }
    }
}

} // verus!
