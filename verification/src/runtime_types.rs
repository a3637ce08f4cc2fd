//! Types as running programs see them: by name.

use crate::ast::ReceiverKind;
use crate::data::{Dup, Same};
use crate::text::{decimal_string, join};
use crate::type_expr::{ExprHead, ExprTerm, TypeExpr};
use crate::typed_ast::{Param, TypedFunDecl};
use crate::values::{CallableModel, FloatKind, IntKind, RuntimeCallable, Value, ValueHead, ValueTerm};
use vstd::prelude::*;
use vstd::string::*;

verus! {

/// The key of a type, from the head of its annotation and the keys of the
/// components.
pub open spec fn key_frame(head: ExprHead, parts: Seq<Seq<char>>) -> Seq<char> {
    match head {
        ExprHead::Unit => "()"@,
        ExprHead::SizedArray(n) => "["@ + parts[0] + "; "@ + crate::text::decimal(n as nat) + "]"@,
        ExprHead::RecordProjection(path, fields) => crate::text::joined(path, "::"@) + " .{ "@
            + crate::text::joined(fields, ", "@) + " }"@,
        _ => crate::type_expr::expr_frame(head, parts),
    }
}

/// The key of the type that an annotation stands for.
pub open spec fn key_text(t: ExprTerm) -> Seq<char>
    decreases t, 1int,
{
    key_frame(t.head, key_part_texts(t))
}

/// The keys of the components of an annotation.
pub open spec fn key_part_texts(t: ExprTerm) -> Seq<Seq<char>>
    decreases t, 0int,
{
    Seq::new(
        t.args.len(),
        |i: int|
            if 0 <= i < t.args.len() {
                key_text(t.args[i])
            } else {
                arbitrary()
            },
    )
}

/// The keys of the types that annotations stand for.
pub open spec fn key_texts(ts: Seq<ExprTerm>) -> Seq<Seq<char>> {
    Seq::new(ts.len(), |i: int| key_text(ts[i]))
}

/// The key of the type that an annotation stands for.
pub fn runtime_type_key(ty: &TypeExpr) -> (s: String)
    ensures
        s@ == key_text(ty.deep_view()),
    decreases ty.term(),
{
    let ghost want = key_part_texts(ty.term());
    let mut parts: Vec<String> = Vec::new();
    let n: u128 = ty.arity();
    let mut i: u128 = 0;
    while i < n
        invariant
            i <= n,
            n == ty.term().args.len(),
            parts@.len() == i,
            want == key_part_texts(ty.term()),
            forall|j: int| 0 <= j < i ==> (#[trigger] parts@[j])@ == want[j],
        decreases n - i,
    {
        let c = ty.child(i);
        parts.push(runtime_type_key(c));
        i += 1;
    }
    proof {
        assert(parts.deep_view() =~= want);
    }
    match ty {
        TypeExpr::Unit => "()".to_owned(),
        TypeExpr::SizedArray(_, size) => {
            let mut s = "[".to_owned();
            s.append(parts[0].as_str());
            s.append("; ");
            s.append(decimal_string(*size as u128).as_str());
            s.append("]");
            s
        },
        TypeExpr::RecordProjection { path, fields } => {
            let mut s = join(path, "::");
            s.append(" .{ ");
            s.append(join(fields, ", ").as_str());
            s.append(" }");
            s
        },
        _ => ty.spell(parts),
    }
}

/// The keys of several types.
pub fn runtime_type_keys(tys: &Vec<TypeExpr>) -> (r: Vec<String>)
    ensures
        r.deep_view() == key_texts(tys.deep_view()),
{
    let mut out: Vec<String> = Vec::new();
    let mut i: usize = 0;
    while i < tys.len()
        invariant
            i <= tys.len(),
            out@.len() == i,
            forall|j: int| 0 <= j < i ==> (#[trigger] out@[j])@ == key_text(tys@[j].deep_view()),
        decreases tys.len() - i,
    {
        out.push(runtime_type_key(&tys[i]));
        i += 1;
    }
    proof {
        assert(out.deep_view() =~= key_texts(tys.deep_view()));
    }
    out
}

/// A type in a signature.
#[derive(Debug)]
pub enum RuntimeTypeRef {
    Named(String),
}

impl DeepView for RuntimeTypeRef {
    type V = Seq<char>;

    open spec fn deep_view(&self) -> Seq<char> {
        match self {
            RuntimeTypeRef::Named(name) => name@,
        }
    }
}

impl Same for RuntimeTypeRef {
    fn same(&self, other: &Self) -> (b: bool) {
        match (self, other) {
            (RuntimeTypeRef::Named(a), RuntimeTypeRef::Named(b)) => a.same(b),
        }
    }
}

impl Dup for RuntimeTypeRef {
    fn dup(&self) -> (r: Self) {
        match self {
            RuntimeTypeRef::Named(name) => RuntimeTypeRef::Named(name.clone()),
        }
    }
}

/// The types whose methods are found by the shape of the value.
#[derive(Debug)]
pub enum RuntimeTypePattern {
    Str,
    Array,
    Primitive(String),
}

pub enum PatternModel {
    Str,
    Array,
    Primitive(Seq<char>),
}

impl DeepView for RuntimeTypePattern {
    type V = PatternModel;

    open spec fn deep_view(&self) -> PatternModel {
        match self {
            RuntimeTypePattern::Str => PatternModel::Str,
            RuntimeTypePattern::Array => PatternModel::Array,
            RuntimeTypePattern::Primitive(name) => PatternModel::Primitive(name@),
        }
    }
}

impl Same for RuntimeTypePattern {
    fn same(&self, other: &Self) -> (b: bool) {
        match (self, other) {
            (RuntimeTypePattern::Str, RuntimeTypePattern::Str) => true,
            (RuntimeTypePattern::Array, RuntimeTypePattern::Array) => true,
            (RuntimeTypePattern::Primitive(a), RuntimeTypePattern::Primitive(b)) => a.same(b),
            _ => false,
        }
    }
}

impl Dup for RuntimeTypePattern {
    fn dup(&self) -> (r: Self) {
        match self {
            RuntimeTypePattern::Str => RuntimeTypePattern::Str,
            RuntimeTypePattern::Array => RuntimeTypePattern::Array,
            RuntimeTypePattern::Primitive(name) => RuntimeTypePattern::Primitive(name.clone()),
        }
    }
}

/// The parameters of a function, the receiver left out, and its result.
#[derive(Debug)]
pub struct RuntimeSignature {
    pub params: Vec<RuntimeTypeRef>,
    pub ret: Option<RuntimeTypeRef>,
}

pub struct SignatureModel {
    pub params: Seq<Seq<char>>,
    pub ret: Option<Seq<char>>,
}

impl DeepView for RuntimeSignature {
    type V = SignatureModel;

    open spec fn deep_view(&self) -> SignatureModel {
        SignatureModel { params: self.params.deep_view(), ret: self.ret.deep_view() }
    }
}

impl Dup for RuntimeSignature {
    fn dup(&self) -> (r: Self) {
        RuntimeSignature { params: self.params.dup(), ret: self.ret.dup() }
    }
}

impl Default for RuntimeSignature {
    fn default() -> (r: Self)
        ensures
            r.deep_view() == (SignatureModel { params: Seq::empty(), ret: None }),
    {
        let r = RuntimeSignature { params: Vec::new(), ret: None };
        assert(r.deep_view().params =~= Seq::empty());
        r
    }
}

/// A method of a type: how it takes its receiver, and what it runs.
#[derive(Debug)]
pub struct RuntimeMethod {
    pub label: String,
    pub receiver: Option<ReceiverKind>,
    pub signature: RuntimeSignature,
    pub body: RuntimeCallable,
}

pub struct MethodModel {
    pub label: Seq<char>,
    pub receiver: Option<ReceiverKind>,
    pub signature: SignatureModel,
    pub body: CallableModel,
}

impl DeepView for RuntimeMethod {
    type V = MethodModel;

    open spec fn deep_view(&self) -> MethodModel {
        MethodModel {
            label: self.label@,
            receiver: self.receiver,
            signature: self.signature.deep_view(),
            body: self.body.deep_view(),
        }
    }
}

impl Dup for RuntimeMethod {
    fn dup(&self) -> (r: Self) {
        RuntimeMethod {
            label: self.label.clone(),
            receiver: self.receiver,
            signature: self.signature.dup(),
            body: self.body.dup(),
        }
    }
}

/// The name of an integer type.
pub open spec fn int_kind_name(kind: IntKind) -> Seq<char> {
    match kind {
        IntKind::I8 => "i8"@,
        IntKind::I16 => "i16"@,
        IntKind::I32 => "i32"@,
        IntKind::I64 => "i64"@,
        IntKind::U8 => "u8"@,
        IntKind::U16 => "u16"@,
        IntKind::U32 => "u32"@,
        IntKind::U64 => "u64"@,
    }
}

/// The name of a floating-point type.
pub open spec fn float_kind_name(kind: FloatKind) -> Seq<char> {
    match kind {
        FloatKind::F32 => "f32"@,
        FloatKind::F64 => "f64"@,
    }
}

/// The name of the type of a value, where the type has a name.
pub open spec fn named_type_of(v: ValueTerm) -> Option<Seq<char>> {
    match v.head {
        ValueHead::Struct(name, _, _) => Some(name),
        ValueHead::Enum(name, _, _, _, _) => Some(name),
        ValueHead::Int(kind, _) => Some(int_kind_name(kind)),
        ValueHead::Float(kind, _) => Some(float_kind_name(kind)),
        ValueHead::Char(_) => Some("Char"@),
        ValueHead::Boolean(_) => Some("boolean"@),
        ValueHead::Str(_) => Some("String"@),
        _ => None,
    }
}

/// The name of the type of a value, where the type has a name.
pub fn runtime_type_name(value: &Value) -> (r: Option<&str>)
    ensures
        r.deep_view() == named_type_of(value@),
{
    match value {
        Value::Struct { name, type_id: _, fields: _ } => Some(name.as_str()),
        Value::Enum { name, type_id: _, variant: _, variant_id: _, fields: _ } => Some(
            name.as_str(),
        ),
        Value::I64(_) => Some("i64"),
        Value::I8(_) => Some("i8"),
        Value::I16(_) => Some("i16"),
        Value::I32(_) => Some("i32"),
        Value::U8(_) => Some("u8"),
        Value::U16(_) => Some("u16"),
        Value::U32(_) => Some("u32"),
        Value::U64(_) => Some("u64"),
        Value::F64(_) => Some("f64"),
        Value::F32(_) => Some("f32"),
        Value::Char(_) => Some("Char"),
        Value::Boolean(_) => Some("boolean"),
        Value::Str(_) => Some("String"),
        _ => None,
    }
}

/// The pattern that a value's methods are found by, where there is one.
pub open spec fn pattern_of(v: ValueTerm) -> Option<PatternModel> {
    match v.head {
        ValueHead::Str(_) => Some(PatternModel::Str),
        ValueHead::Array(_) => Some(PatternModel::Array),
        ValueHead::Int(_, _) | ValueHead::Float(_, _) | ValueHead::Char(_) | ValueHead::Boolean(
            _,
        ) => Some(PatternModel::Primitive(named_type_of(v)->0)),
        _ => None,
    }
}

/// The pattern that a value's methods are found by, where there is one.
pub fn runtime_type_pattern(value: &Value) -> (r: Option<RuntimeTypePattern>)
    ensures
        r.deep_view() == pattern_of(value@),
{
    match value {
        Value::Str(_) => Some(RuntimeTypePattern::Str),
        Value::Array(_) => Some(RuntimeTypePattern::Array),
        Value::I64(_) | Value::I8(_) | Value::I16(_) | Value::I32(_) | Value::U8(_) | Value::U16(_)
        | Value::U32(_) | Value::U64(_) | Value::F64(_) | Value::F32(_) | Value::Char(_)
        | Value::Boolean(_) => match runtime_type_name(value) {
            Some(name) => Some(RuntimeTypePattern::Primitive(name.to_owned())),
            None => None,
        },
        _ => None,
    }
}

/// A type in a signature, from its annotation.
pub fn runtime_type_ref(ty: &TypeExpr) -> (r: RuntimeTypeRef)
    ensures
        r.deep_view() == key_text(ty.deep_view()),
{
    RuntimeTypeRef::Named(runtime_type_key(ty))
}

/// A result as it stands in a signature.
pub open spec fn result_key(ret: Option<ExprTerm>) -> Option<Seq<char>> {
    match ret {
        Some(ty) => Some(key_text(ty)),
        None => None,
    }
}

/// A signature, from the annotations of the parameters and of the result.
pub fn runtime_signature(params: &Vec<TypeExpr>, ret: &Option<TypeExpr>) -> (r: RuntimeSignature)
    ensures
        r.deep_view() == (SignatureModel {
            params: key_texts(params.deep_view()),
            ret: result_key(ret.deep_view()),
        }),
{
    let mut refs: Vec<RuntimeTypeRef> = Vec::new();
    let mut i: usize = 0;
    while i < params.len()
        invariant
            i <= params.len(),
            refs@.len() == i,
            forall|j: int|
                0 <= j < i ==> (#[trigger] refs@[j]).deep_view() == key_text(
                    params@[j].deep_view(),
                ),
        decreases params.len() - i,
    {
        refs.push(runtime_type_ref(&params[i]));
        i += 1;
    }
    let r = RuntimeSignature {
        params: refs,
        ret: match ret {
            Some(ty) => Some(runtime_type_ref(ty)),
            None => None,
        },
    };
    proof {
        assert(r.deep_view().params =~= key_texts(params.deep_view()));
    }
    r
}

/// The type that a parameter is written with; `_` where it has none.
pub open spec fn param_type(p: Param) -> ExprTerm {
    match p.type_ann {
        Some(ty) => ty.deep_view(),
        None => ExprTerm { head: ExprHead::Named("_"@), args: Seq::empty() },
    }
}

/// The types of the parameters, the receiver left out.
pub open spec fn param_types(ps: Seq<Param>) -> Seq<ExprTerm>
    decreases ps.len(),
{
    if ps.len() == 0 {
        Seq::empty()
    } else if ps.last().receiver is Some {
        param_types(ps.drop_last())
    } else {
        param_types(ps.drop_last()).push(param_type(ps.last()))
    }
}

/// How a function takes a receiver, if it does.
pub open spec fn receiver_of(ps: Seq<Param>) -> Option<ReceiverKind> {
    if ps.len() == 0 {
        None
    } else {
        ps[0].receiver
    }
}

/// The method that a declared function becomes.
pub open spec fn declared_method(
    label: Seq<char>,
    f: TypedFunDecl,
    body: CallableModel,
) -> MethodModel {
    MethodModel {
        label,
        receiver: receiver_of(f.params@),
        signature: SignatureModel {
            params: key_texts(param_types(f.params@)),
            ret: result_key(f.return_type.deep_view()),
        },
        body,
    }
}

/// The method that a declared function becomes.
pub fn runtime_method_from_decl(label: String, method: &TypedFunDecl, body: RuntimeCallable) -> (r:
    RuntimeMethod)
    ensures
        r.deep_view() == declared_method(label@, *method, body.deep_view()),
{
    let receiver = if method.params.len() > 0 {
        method.params[0].receiver
    } else {
        None
    };
    let mut params: Vec<TypeExpr> = Vec::new();
    let mut i: usize = 0;
    proof {
        assert(params.deep_view() =~= param_types(method.params@.take(0)));
    }
    while i < method.params.len()
        invariant
            i <= method.params.len(),
            params.deep_view() == param_types(method.params@.take(i as int)),
        decreases method.params.len() - i,
    {
        let p = &method.params[i];
        proof {
            assert(method.params@.take(i + 1).drop_last() =~= method.params@.take(i as int));
        }
        if p.receiver.is_none() {
            let ty = match &p.type_ann {
                Some(ty) => ty.dup(),
                None => {
                    let any = TypeExpr::Named("_".to_owned(), Vec::new());
                    assert(any.deep_view().args =~= Seq::empty());
                    any
                },
            };
            let ghost prev = params.deep_view();
            assert(prev.len() == params@.len());
            params.push(ty);
            assert(params.deep_view() =~= prev.push(ty.deep_view()));
        }
        i += 1;
    }
    proof {
        assert(method.params@.take(i as int) =~= method.params@);
    }
    let signature = runtime_signature(&params, &method.return_type);
    RuntimeMethod { label, receiver, signature, body }
}

} // verus!
