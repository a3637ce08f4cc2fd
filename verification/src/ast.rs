//! The parts of the syntax tree that type definitions keep.

use crate::data::{Dup, Same};
use crate::type_expr::{ExprHead, ExprTerm, TypeExpr};
use vstd::prelude::*;

verus! {

/// A place in a source file.
#[derive(Debug)]
pub struct Span {
    pub start: usize,
    pub end: usize,
    pub filename: String,
    pub line: usize,
    pub col: usize,
}

/// What a span says.
pub struct SpanModel {
    pub start: usize,
    pub end: usize,
    pub filename: Seq<char>,
    pub line: usize,
    pub col: usize,
}

impl DeepView for Span {
    type V = SpanModel;

    open spec fn deep_view(&self) -> SpanModel {
        SpanModel {
            start: self.start,
            end: self.end,
            filename: self.filename@,
            line: self.line,
            col: self.col,
        }
    }
}

impl Span {
    /// A span whose line and column are not known.
    pub fn new(start: usize, end: usize, filename: &str) -> (s: Self)
        ensures
            s.deep_view() == (SpanModel { start, end, filename: filename@, line: 0, col: 0 }),
    {
        Span { start, end, filename: filename.to_owned(), line: 0, col: 0 }
    }
}

impl Same for Span {
    fn same(&self, other: &Self) -> (b: bool) {
        self.start == other.start && self.end == other.end && self.filename == other.filename
            && self.line == other.line && self.col == other.col
    }
}

impl Dup for Span {
    fn dup(&self) -> (r: Self) {
        Span {
            start: self.start,
            end: self.end,
            filename: self.filename.clone(),
            line: self.line,
            col: self.col,
        }
    }
}

impl Clone for Span {
    fn clone(&self) -> (r: Self)
        ensures
            r.deep_view() == self.deep_view(),
    {
        self.dup()
    }
}

/// Whether a declaration can be reached from other modules.
#[derive(Debug, Clone, Copy, PartialEq, Eq, Structural)]
pub enum Visibility {
    Public,
    Private,
}

impl DeepView for Visibility {
    type V = Visibility;

    open spec fn deep_view(&self) -> Visibility {
        *self
    }
}

impl Dup for Visibility {
    fn dup(&self) -> (r: Self) {
        *self
    }
}

/// How a method takes its receiver.
#[derive(Debug, Clone, Copy, PartialEq, Eq, Structural)]
pub enum ReceiverKind {
    Value,
    Ref,
    RefMut,
}

impl DeepView for ReceiverKind {
    type V = ReceiverKind;

    open spec fn deep_view(&self) -> ReceiverKind {
        *self
    }
}

impl Dup for ReceiverKind {
    fn dup(&self) -> (r: Self) {
        *self
    }
}

/// Whether a bound demands an aspect or forbids it.
#[derive(Debug, Clone, Copy, PartialEq, Eq, Structural)]
pub enum Polarity {
    Positive,
    Negative,
}

impl DeepView for Polarity {
    type V = Polarity;

    open spec fn deep_view(&self) -> Polarity {
        *self
    }
}

impl Dup for Polarity {
    fn dup(&self) -> (r: Self) {
        *self
    }
}

/// A field of a row bound, with its type where one is written.
#[derive(Debug)]
pub struct RowBoundField {
    pub label: String,
    pub ty: Option<TypeExpr>,
}

/// A bound on the fields of a record: `{ x: i64, y, .. }`.
#[derive(Debug)]
pub struct RowBound {
    pub fields: Vec<RowBoundField>,
    pub open: bool,
}

/// What a bound is about.
#[derive(Debug)]
pub enum BoundHead {
    Aspect(TypeExpr),
    Row(RowBound),
}

/// A bound on a type parameter.
#[derive(Debug)]
pub struct Bound {
    pub head: BoundHead,
    pub polarity: Polarity,
}

/// What a row says: its fields, and whether there may be others.
pub struct RowModel {
    pub fields: Seq<(Seq<char>, Option<ExprTerm>)>,
    pub open: bool,
}

pub enum BoundHeadModel {
    Aspect(ExprTerm),
    Row(RowModel),
}

pub struct AstBoundModel {
    pub head: BoundHeadModel,
    pub polarity: Polarity,
}

impl DeepView for RowBoundField {
    type V = (Seq<char>, Option<ExprTerm>);

    open spec fn deep_view(&self) -> (Seq<char>, Option<ExprTerm>) {
        (self.label@, self.ty.deep_view())
    }
}

impl Dup for RowBoundField {
    fn dup(&self) -> (r: Self) {
        RowBoundField { label: self.label.clone(), ty: self.ty.dup() }
    }
}

impl DeepView for RowBound {
    type V = RowModel;

    open spec fn deep_view(&self) -> RowModel {
        RowModel { fields: self.fields.deep_view(), open: self.open }
    }
}

impl Dup for RowBound {
    fn dup(&self) -> (r: Self) {
        RowBound { fields: self.fields.dup(), open: self.open }
    }
}

impl DeepView for Bound {
    type V = AstBoundModel;

    open spec fn deep_view(&self) -> AstBoundModel {
        AstBoundModel {
            head: match self.head {
                BoundHead::Aspect(t) => BoundHeadModel::Aspect(t.term()),
                BoundHead::Row(r) => BoundHeadModel::Row(r.deep_view()),
            },
            polarity: self.polarity,
        }
    }
}

impl Dup for Bound {
    fn dup(&self) -> (r: Self) {
        Bound {
            head: match &self.head {
                BoundHead::Aspect(t) => BoundHead::Aspect(t.dup()),
                BoundHead::Row(r) => BoundHead::Row(r.dup()),
            },
            polarity: self.polarity,
        }
    }
}

/// The aspect that a bound names, if it names one.
pub open spec fn bound_aspect(b: AstBoundModel) -> Option<Seq<char>> {
    match b.head {
        BoundHeadModel::Aspect(t) => match t.head {
            ExprHead::Named(name) => Some(name),
            _ => None,
        },
        BoundHeadModel::Row(_) => None,
    }
}

impl Bound {
    /// The row, where this is a row bound.
    pub fn row_bound(&self) -> (r: Option<&RowBound>)
        ensures
            match r {
                Some(row) => self.deep_view().head == BoundHeadModel::Row(row.deep_view()),
                None => self.deep_view().head is Aspect,
            },
    {
        match &self.head {
            BoundHead::Aspect(_) => None,
            BoundHead::Row(row) => Some(row),
        }
    }

    /// The aspect's name, where this bound names an aspect.
    pub fn aspect_name(&self) -> (r: Option<&String>)
        ensures
            r.deep_view() == bound_aspect(self.deep_view()),
    {
        match &self.head {
            BoundHead::Aspect(TypeExpr::Named(name, _)) => Some(name),
            _ => None,
        }
    }
}

/// A method that an aspect declares.
#[derive(Debug)]
pub struct AspectMethod {
    pub name: String,
    pub has_default: bool,
}

pub struct AspectMethodModel {
    pub name: Seq<char>,
    pub has_default: bool,
}

impl DeepView for AspectMethod {
    type V = AspectMethodModel;

    open spec fn deep_view(&self) -> AspectMethodModel {
        AspectMethodModel { name: self.name@, has_default: self.has_default }
    }
}

impl Dup for AspectMethod {
    fn dup(&self) -> (r: Self) {
        AspectMethod { name: self.name.clone(), has_default: self.has_default }
    }
}

/// An associated type that an aspect declares, with its bounds.
#[derive(Debug)]
pub struct AssocTypeDecl {
    pub name: String,
    pub bounds: Vec<Bound>,
}

pub struct AssocTypeModel {
    pub name: Seq<char>,
    pub bounds: Seq<AstBoundModel>,
}

impl DeepView for AssocTypeDecl {
    type V = AssocTypeModel;

    open spec fn deep_view(&self) -> AssocTypeModel {
        AssocTypeModel { name: self.name@, bounds: self.bounds.deep_view() }
    }
}

impl Dup for AssocTypeDecl {
    fn dup(&self) -> (r: Self) {
        AssocTypeDecl { name: self.name.clone(), bounds: self.bounds.dup() }
    }
}

} // verus!
