//! Errors that the type checker and the evaluator report.

use crate::ast::{Span, SpanModel};
use crate::data::Dup;
use vstd::prelude::*;

verus! {

#[derive(Debug, Clone, Copy, PartialEq, Eq, Structural)]
pub enum TypeErrorCode {
    T0001,
    T0003,
    T0005,
    T0006,
    T0011,
    T0018,
}

#[derive(Debug, Clone, Copy, PartialEq, Eq, Structural)]
pub enum RuntimeErrorCode {
    R0001,
    R0002,
    R0003,
    R0004,
    R0005,
    R0006,
    R0007,
    R0008,
    R0009,
    R0010,
    R0011,
    R0012,
    R0013,
    R0014,
    R0015,
}

/// A call that had not returned: the function, and where it was called.
#[derive(Debug)]
pub struct FrameInfo {
    pub fn_name: String,
    pub call_site: Span,
}

pub struct FrameModel {
    pub fn_name: Seq<char>,
    pub call_site: SpanModel,
}

impl DeepView for FrameInfo {
    type V = FrameModel;

    open spec fn deep_view(&self) -> FrameModel {
        FrameModel { fn_name: self.fn_name@, call_site: self.call_site.deep_view() }
    }
}

impl Dup for FrameInfo {
    fn dup(&self) -> (r: Self) {
        FrameInfo { fn_name: self.fn_name.clone(), call_site: self.call_site.dup() }
    }
}

/// An error, with the place in the source that it is about.
#[derive(Debug)]
pub enum MetelError {
    /// A failure that no source text accounts for.
    Internal { message: String },
    /// A program that does not type-check.
    TypeError { code: TypeErrorCode, message: String, span: Span },
    /// A program that fails while it runs, with the calls that led there.
    RuntimePanic { code: RuntimeErrorCode, message: String, span: Span, stack: Vec<FrameInfo> },
}

/// What an error says.
pub enum ErrorModel {
    Internal(Seq<char>),
    Type(TypeErrorCode, Seq<char>, SpanModel),
    Runtime(RuntimeErrorCode, Seq<char>, SpanModel, Seq<FrameModel>),
}

impl DeepView for MetelError {
    type V = ErrorModel;

    open spec fn deep_view(&self) -> ErrorModel {
        match self {
            MetelError::Internal { message } => ErrorModel::Internal(message@),
            MetelError::TypeError { code, message, span } => ErrorModel::Type(
                *code,
                message@,
                span.deep_view(),
            ),
            MetelError::RuntimePanic { code, message, span, stack } => ErrorModel::Runtime(
                *code,
                message@,
                span.deep_view(),
                stack.deep_view(),
            ),
        }
    }
}

impl View for MetelError {
    type V = ErrorModel;

    open spec fn view(&self) -> ErrorModel {
        self.deep_view()
    }
}

impl MetelError {
    pub fn internal(message: String) -> (e: Self)
        ensures
            e@ == ErrorModel::Internal(message@),
    {
        MetelError::Internal { message }
    }

    pub fn type_error(code: TypeErrorCode, message: String, span: &Span) -> (e: Self)
        ensures
            e@ == ErrorModel::Type(code, message@, span.deep_view()),
    {
        MetelError::TypeError { code, message, span: span.dup() }
    }

    pub fn panic(code: RuntimeErrorCode, message: String, span: &Span) -> (e: Self)
        ensures
            e@ == ErrorModel::Runtime(code, message@, span.deep_view(), Seq::empty()),
    {
        let e = MetelError::RuntimePanic { code, message, span: span.dup(), stack: Vec::new() };
        proof {
            assert(e@->Runtime_3 =~= Seq::<FrameModel>::empty());
        }
        e
    }

    /// The error with the calls that led to it, unless they are known already.
    pub fn with_stack(self, stack: Vec<FrameInfo>) -> (e: Self)
        ensures
            e@ == stacked(self@, stack.deep_view()),
    {
        match self {
            MetelError::RuntimePanic { code, message, span, stack: known } => {
                assert(known.deep_view().len() == known@.len());
                if known.len() == 0 {
                    MetelError::RuntimePanic { code, message, span, stack }
                } else {
                    MetelError::RuntimePanic { code, message, span, stack: known }
                }
            },
            other => other,
        }
    }
}

/// An error with the calls that led to it, unless they are known already.
pub open spec fn stacked(e: ErrorModel, stack: Seq<FrameModel>) -> ErrorModel {
    match e {
        ErrorModel::Runtime(code, message, span, known) => if known.len() == 0 {
            ErrorModel::Runtime(code, message, span, stack)
        } else {
            e
        },
        _ => e,
    }
}

} // verus!
