//! Programs after type checking.
//!
//! Expressions, blocks and functions are shared: what runs holds on to the parts
//! of the program that it still has to run.

use crate::ast::{ReceiverKind, Span};
use crate::native_keys::NativeKey;
use crate::symbols::{FieldId, SymbolId, VariantId};
use crate::type_expr::TypeExpr;
use crate::types::{CallMutation, Type};
use crate::values::{FloatKind, IntKind, LocalId};
use std::rc::Rc;
use vstd::prelude::*;

verus! {

/// What an identifier is bound to: a local binding, or a declaration.
#[derive(Debug, Clone, Copy, PartialEq, Eq, Structural)]
pub enum BindingId {
    Local(LocalId),
    Global(SymbolId),
}

#[derive(Debug, Clone, Copy, PartialEq, Eq, Structural)]
pub enum BinOp {
    Add,
    Sub,
    Mul,
    Div,
    Rem,
    Eq,
    Ne,
    Lt,
    Le,
    Gt,
    Ge,
    And,
    Or,
    Range,
    RangeInclusive,
}

#[derive(Debug, Clone, Copy, PartialEq, Eq, Structural)]
pub enum UnaryOp {
    Neg,
    Not,
    Ref,
    RefMut,
    Deref,
}

#[derive(Debug, Clone, Copy, PartialEq, Eq, Structural)]
pub enum AssignOp {
    Assign,
    AddAssign,
    SubAssign,
    MulAssign,
    DivAssign,
    RemAssign,
}

/// A literal. Of a floating-point number the literal holds the bits in both
/// floating-point types.
#[derive(Debug)]
pub enum Literal {
    Int(i64),
    Float { double: u64, single: u32 },
    SizedInt { value: i128, kind: IntKind },
    SizedFloat { double: u64, single: u32, kind: FloatKind },
    Char(char),
    Boolean(bool),
    Str(String),
    Unit,
}

/// How a closure captures a variable.
#[derive(Debug)]
pub enum CaptureSpec {
    Owned { name: String, span: Span },
    Clone { name: String, span: Span },
    SharedRef { name: String, span: Span },
    MutRef { name: String, span: Span },
}

/// A parameter; `receiver` is set for `self`.
#[derive(Debug)]
pub struct Param {
    pub name: String,
    pub type_ann: Option<TypeExpr>,
    pub receiver: Option<ReceiverKind>,
}

/// A function body that is typed anew for the types of each call. The number
/// says which one it is.
#[derive(Debug, Clone, Copy, PartialEq, Eq, Structural)]
pub struct GenericBody(pub usize);

#[derive(Debug)]
pub enum FunBody {
    Typed(Rc<TypedBlock>),
    Generic(GenericBody),
    Native(NativeKey),
}

/// How the method of a call is found: by the aspect that provides it, or by the
/// type of the receiver.
#[derive(Debug, Clone, Copy, PartialEq, Eq, Structural)]
pub enum MethodDispatch {
    Aspect { aspect_id: SymbolId },
    Inherent,
    Dynamic,
}

#[derive(Debug)]
pub enum TypedExpr {
    Literal(Literal, Type, Span),
    Ident(String, Option<BindingId>, Type, Span),
    Path(Vec<String>, Type, Span),
    Tuple(Vec<Rc<TypedExpr>>, Type, Span),
    Array(Vec<Rc<TypedExpr>>, Type, Span),
    RecordLiteral { fields: Vec<(String, Rc<TypedExpr>)>, ty: Type, span: Span },
    RepeatArray(Rc<TypedExpr>, u64, Type, Span),
    BinOp(Rc<TypedExpr>, BinOp, Rc<TypedExpr>, Type, Span),
    /// A reference to a value that has no place of its own.
    RefTemp { init: Rc<TypedExpr>, mutable: bool, ty: Type, span: Span },
    UnaryOp(UnaryOp, Rc<TypedExpr>, Type, Span),
    Cast { expr: Rc<TypedExpr>, target_type: TypeExpr, ty: Type, span: Span },
    TupleAccess { object: Rc<TypedExpr>, index: usize, ty: Type, span: Span },
    Index { object: Rc<TypedExpr>, index: Rc<TypedExpr>, ty: Type, span: Span },
    If {
        condition: Rc<TypedExpr>,
        then_branch: Rc<TypedBlock>,
        else_branch: Option<Rc<TypedBlock>>,
        ty: Type,
        span: Span,
    },
    Loop { body: Rc<TypedBlock>, ty: Type, span: Span },
    Match(Rc<TypedMatch>),
    /// An enum with one inhabited variant, taken as what that holds.
    SingletonCoerce { inner: Rc<TypedExpr>, field: String, ty: Type, span: Span },
    /// A value seen as `dyn Aspect`.
    DynCoerce {
        inner: Rc<TypedExpr>,
        aspect_id: SymbolId,
        aspect: String,
        type_args: Vec<Type>,
        span: Span,
    },
    Return(Option<Rc<TypedExpr>>, Span),
    Break(Option<Rc<TypedExpr>>, Span),
    Continue(Span),
    Assign { target: Rc<TypedPlace>, op: AssignOp, value: Rc<TypedExpr>, span: Span },
    StructLiteral {
        path: Vec<String>,
        fields: Vec<(String, Rc<TypedExpr>)>,
        type_id: Option<SymbolId>,
        variant_id: Option<VariantId>,
        ty: Type,
        span: Span,
    },
    FieldAccess { object: Rc<TypedExpr>, field: String, ty: Type, span: Span },
    MethodCall {
        receiver: Rc<TypedExpr>,
        method: String,
        args: Vec<Rc<TypedExpr>>,
        ty: Type,
        dispatch: MethodDispatch,
        span: Span,
    },
    Call {
        callee: Rc<TypedExpr>,
        args: Vec<Rc<TypedExpr>>,
        ty: Type,
        callee_id: Option<SymbolId>,
        span: Span,
    },
    Closure(Rc<TypedClosure>),
}

/// A closure expression.
#[derive(Debug)]
pub struct TypedClosure {
    pub name: Option<String>,
    pub captures: Vec<CaptureSpec>,
    pub capture_ids: Vec<Option<LocalId>>,
    pub call_mutation: CallMutation,
    pub params: Vec<Param>,
    pub param_ids: Vec<Option<LocalId>>,
    pub body: ClosureBody,
    /// The type of the closure, where its body is typed.
    pub ty: Option<Type>,
    pub span: Span,
}

/// The body of a closure: typed, or generic.
#[derive(Debug)]
pub enum ClosureBody {
    Typed(Rc<TypedBlock>),
    Untyped(GenericBody),
}

#[derive(Debug)]
pub struct TypedMatch {
    pub scrutinee: Rc<TypedExpr>,
    pub arms: Vec<TypedMatchArm>,
    pub ty: Type,
    pub span: Span,
}

#[derive(Debug)]
pub struct TypedMatchArm {
    pub pattern: TypedPattern,
    pub guard: Option<Rc<TypedExpr>>,
    pub body: Rc<TypedBlock>,
}

#[derive(Debug)]
pub enum TypedPattern {
    Wildcard(Span),
    Literal(Literal, Span),
    Binding(String, Option<LocalId>, Span),
    Tuple(Vec<TypedPattern>, Span),
    EnumVariant {
        path: Vec<String>,
        variant_id: Option<VariantId>,
        fields: Vec<(String, Option<FieldId>, Option<LocalId>)>,
        rest: bool,
        span: Span,
    },
    Struct {
        name: String,
        type_id: Option<SymbolId>,
        fields: Vec<(String, Option<FieldId>, Option<LocalId>)>,
        rest: bool,
        span: Span,
    },
    Record { fields: Vec<(String, Option<LocalId>)>, rest: bool, span: Span },
    Array { elems: Vec<TypedPattern>, rest: Option<(String, Option<LocalId>)>, span: Span },
}

/// What can be assigned to.
#[derive(Debug)]
pub enum TypedPlace {
    Ident(String, Option<BindingId>, Span),
    Deref { object: Rc<TypedExpr>, span: Span },
    Index { object: Rc<TypedPlace>, index: Rc<TypedExpr>, span: Span },
    Field { object: Rc<TypedPlace>, field: String, span: Span },
    Tuple { object: Rc<TypedPlace>, index: usize, span: Span },
}

#[derive(Debug)]
pub struct TypedBlock {
    pub stmts: Vec<TypedDecl>,
    pub tail: Option<Rc<TypedExpr>>,
}

/// A declaration of a variable.
#[derive(Debug)]
pub struct TypedBinding {
    pub name: String,
    pub value: Rc<TypedExpr>,
    pub def_id: Option<SymbolId>,
    pub local_id: Option<LocalId>,
}

#[derive(Debug)]
pub struct TypedFunDecl {
    pub name: String,
    pub params: Vec<Param>,
    pub param_ids: Vec<Option<LocalId>>,
    pub return_type: Option<TypeExpr>,
    pub body: FunBody,
    /// The identity of an overloaded definition.
    pub symbol_id: Option<SymbolId>,
    pub def_id: Option<SymbolId>,
    pub local_id: Option<LocalId>,
}

#[derive(Debug)]
pub struct TypedImplBlock {
    pub target_type: TypeExpr,
    pub target_type_id: Option<SymbolId>,
    pub aspect_name: Option<String>,
    pub aspect_id: Option<SymbolId>,
    pub aspect_type_args: Vec<TypeExpr>,
    pub methods: Vec<Rc<TypedFunDecl>>,
}

#[derive(Debug)]
pub enum TypedDecl {
    Let(TypedBinding),
    Mut(TypedBinding),
    Fun(Rc<TypedFunDecl>),
    Stmt(TypedStmt),
    /// Type-level declarations do nothing when a program runs.
    Struct,
    Enum,
    Aspect,
    Impl(Rc<TypedImplBlock>),
}

#[derive(Debug)]
pub enum TypedStmt {
    Expr(Rc<TypedExpr>),
    While(Rc<TypedWhile>),
    For(Rc<TypedFor>),
    ForIn(Rc<TypedForIn>),
}

#[derive(Debug)]
pub struct TypedWhile {
    pub condition: Rc<TypedExpr>,
    pub body: Rc<TypedBlock>,
}

#[derive(Debug)]
pub enum TypedForInit {
    Let(TypedBinding),
    Mut(TypedBinding),
    Expr(Rc<TypedExpr>),
}

#[derive(Debug)]
pub struct TypedFor {
    pub init: Option<TypedForInit>,
    pub condition: Option<Rc<TypedExpr>>,
    pub step: Option<Rc<TypedExpr>>,
    pub body: Rc<TypedBlock>,
}

#[derive(Debug)]
pub struct TypedForIn {
    pub binding: String,
    pub binding_id: Option<LocalId>,
    pub iterable: Rc<TypedExpr>,
    pub body: Rc<TypedBlock>,
    pub span: Span,
}

} // verus!
