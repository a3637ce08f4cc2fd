//! Operators on values.

use crate::ast::{Span, SpanModel};
use crate::error::{ErrorModel, MetelError, RuntimeErrorCode};
use crate::inspect::inspect;
use crate::symbols::{SymbolId, SYM_TYPE_RANGE, SYM_TYPE_RANGE_INCLUSIVE};
use crate::typed_ast::{AssignOp, BinOp};
use crate::values::{FloatKind, IntKind, Value, ValueHead, ValueTerm};
use vstd::prelude::*;
use vstd::string::*;

verus! {

/// The least number of an integer type.
pub open spec fn least(kind: IntKind) -> int {
    match kind {
        IntKind::I8 => -0x80,
        IntKind::I16 => -0x8000,
        IntKind::I32 => -0x8000_0000,
        IntKind::I64 => -0x8000_0000_0000_0000,
        _ => 0,
    }
}

/// The greatest number of an integer type.
pub open spec fn greatest(kind: IntKind) -> int {
    match kind {
        IntKind::I8 => 0x7f,
        IntKind::I16 => 0x7fff,
        IntKind::I32 => 0x7fff_ffff,
        IntKind::I64 => 0x7fff_ffff_ffff_ffff,
        IntKind::U8 => 0xff,
        IntKind::U16 => 0xffff,
        IntKind::U32 => 0xffff_ffff,
        IntKind::U64 => 0xffff_ffff_ffff_ffff,
    }
}

/// Whether a number is one of an integer type.
pub open spec fn in_range(kind: IntKind, n: int) -> bool {
    least(kind) <= n <= greatest(kind)
}

fn least_of(kind: IntKind) -> (n: i128)
    ensures
        n == least(kind),
{
    match kind {
        IntKind::I8 => -0x80,
        IntKind::I16 => -0x8000,
        IntKind::I32 => -0x8000_0000,
        IntKind::I64 => -0x8000_0000_0000_0000,
        _ => 0,
    }
}

fn greatest_of(kind: IntKind) -> (n: i128)
    ensures
        n == greatest(kind),
{
    match kind {
        IntKind::I8 => 0x7f,
        IntKind::I16 => 0x7fff,
        IntKind::I32 => 0x7fff_ffff,
        IntKind::I64 => 0x7fff_ffff_ffff_ffff,
        IntKind::U8 => 0xff,
        IntKind::U16 => 0xffff,
        IntKind::U32 => 0xffff_ffff,
        IntKind::U64 => 0xffff_ffff_ffff_ffff,
    }
}

/// Whether a number is one of an integer type.
pub fn fits(kind: IntKind, n: i128) -> (b: bool)
    ensures
        b == in_range(kind, n as int),
{
    least_of(kind) <= n && n <= greatest_of(kind)
}

/// The value of an integer type that a number of that type is.
pub fn int_value(kind: IntKind, n: i128) -> (v: Value)
    requires
        in_range(kind, n as int),
    ensures
        v@ == crate::values::int_term(kind, n as int),
{
    match kind {
        IntKind::I8 => Value::I8(n as i8),
        IntKind::I16 => Value::I16(n as i16),
        IntKind::I32 => Value::I32(n as i32),
        IntKind::I64 => Value::I64(n as i64),
        IntKind::U8 => Value::U8(n as u8),
        IntKind::U16 => Value::U16(n as u16),
        IntKind::U32 => Value::U32(n as u32),
        IntKind::U64 => Value::U64(n as u64),
    }
}

/// The type and number of an integer value.
pub fn as_int(v: &Value) -> (r: Option<(IntKind, i128)>)
    ensures
        match r {
            Some((kind, n)) => v@.head == ValueHead::Int(kind, n as int) && v@
                == crate::values::int_term(kind, n as int) && in_range(kind, n as int),
            None => !(v@.head is Int),
        },
{
    match v {
        Value::I8(n) => Some((IntKind::I8, *n as i128)),
        Value::I16(n) => Some((IntKind::I16, *n as i128)),
        Value::I32(n) => Some((IntKind::I32, *n as i128)),
        Value::I64(n) => Some((IntKind::I64, *n as i128)),
        Value::U8(n) => Some((IntKind::U8, *n as i128)),
        Value::U16(n) => Some((IntKind::U16, *n as i128)),
        Value::U32(n) => Some((IntKind::U32, *n as i128)),
        Value::U64(n) => Some((IntKind::U64, *n as i128)),
        _ => None,
    }
}

/// Whether an integer type has no negative numbers.
pub open spec fn unsigned(kind: IntKind) -> bool {
    kind is U8 || kind is U16 || kind is U32 || kind is U64
}

/// What an integer type is called where an operation on it fails.
pub open spec fn failing_name(kind: IntKind) -> Seq<char> {
    match kind {
        IntKind::I8 => "i8"@,
        IntKind::I16 => "i16"@,
        IntKind::I32 => "i32"@,
        IntKind::I64 => "integer"@,
        IntKind::U8 => "u8"@,
        IntKind::U16 => "u16"@,
        IntKind::U32 => "u32"@,
        IntKind::U64 => "u64"@,
    }
}

fn failing_string(kind: IntKind) -> (s: &'static str)
    ensures
        s@ == failing_name(kind),
{
    match kind {
        IntKind::I8 => "i8",
        IntKind::I16 => "i16",
        IntKind::I32 => "i32",
        IntKind::I64 => "integer",
        IntKind::U8 => "u8",
        IntKind::U16 => "u16",
        IntKind::U32 => "u32",
        IntKind::U64 => "u64",
    }
}

/// The distance from zero.
pub open spec fn magnitude(n: int) -> nat {
    if n < 0 {
        (-n) as nat
    } else {
        n as nat
    }
}

/// The quotient, rounded towards zero.
pub open spec fn quotient(a: int, b: int) -> int {
    let q = (magnitude(a) / magnitude(b)) as int;
    if (a < 0) == (b < 0) {
        q
    } else {
        -q
    }
}

/// What is left over by the quotient; it has the sign of the dividend.
pub open spec fn remainder(a: int, b: int) -> int {
    let r = (magnitude(a) % magnitude(b)) as int;
    if a < 0 {
        -r
    } else {
        r
    }
}

/// An error of arithmetic.
pub open spec fn arithmetic_error(message: Seq<char>, span: SpanModel) -> ErrorModel {
    ErrorModel::Runtime(RuntimeErrorCode::R0007, message, span, Seq::empty())
}

/// A number of an integer type, or the error that it is none.
pub open spec fn checked(kind: IntKind, n: int, word: Seq<char>, span: SpanModel) -> Result<
    ValueTerm,
    ErrorModel,
> {
    if in_range(kind, n) {
        Ok(crate::values::int_term(kind, n))
    } else {
        Err(arithmetic_error(failing_name(kind) + word, span))
    }
}

/// The result of an operator on two numbers of one integer type.
pub open spec fn int_result(op: BinOp, kind: IntKind, a: int, b: int, span: SpanModel) -> Option<
    Result<ValueTerm, ErrorModel>,
> {
    match op {
        BinOp::Add => Some(checked(kind, a + b, " overflow"@, span)),
        BinOp::Sub => Some(
            checked(
                kind,
                a - b,
                if unsigned(kind) {
                    " underflow"@
                } else {
                    " overflow"@
                },
                span,
            ),
        ),
        BinOp::Mul => Some(checked(kind, a * b, " overflow"@, span)),
        BinOp::Div => Some(
            if b == 0 {
                Err(arithmetic_error("division by zero"@, span))
            } else {
                checked(kind, quotient(a, b), " overflow"@, span)
            },
        ),
        BinOp::Rem => Some(
            if b == 0 {
                Err(arithmetic_error("remainder by zero"@, span))
            } else {
                Ok(crate::values::int_term(kind, remainder(a, b)))
            },
        ),
        BinOp::Range => if kind == IntKind::I64 {
            Some(Ok(range_term("Range"@, SymbolId(SYM_TYPE_RANGE), a, b)))
        } else {
            None
        },
        BinOp::RangeInclusive => if kind == IntKind::I64 {
            Some(
                Ok(range_term("RangeInclusive"@, SymbolId(SYM_TYPE_RANGE_INCLUSIVE), a, b)),
            )
        } else {
            None
        },
        _ => match compared(op, a, b) {
            Some(r) => Some(Ok(crate::values::bool_term(r))),
            None => None,
        },
    }
}

/// The answer of a comparison of two numbers.
pub open spec fn compared(op: BinOp, a: int, b: int) -> Option<bool> {
    match op {
        BinOp::Eq => Some(a == b),
        BinOp::Ne => Some(a != b),
        BinOp::Lt => Some(a < b),
        BinOp::Le => Some(a <= b),
        BinOp::Gt => Some(a > b),
        BinOp::Ge => Some(a >= b),
        _ => None,
    }
}

/// A range of numbers, which loops understand.
pub open spec fn range_term(name: Seq<char>, id: SymbolId, a: int, b: int) -> ValueTerm {
    ValueTerm {
        head: ValueHead::Struct(name, Some(id), seq!["start"@, "end"@]),
        args: seq![
            crate::values::int_term(IntKind::I64, a),
            crate::values::int_term(IntKind::I64, b),
        ],
    }
}

/// The weight of the sign bit of a floating-point type.
pub open spec fn sign_weight(kind: FloatKind) -> nat {
    match kind {
        FloatKind::F32 => 0x8000_0000,
        FloatKind::F64 => 0x8000_0000_0000_0000,
    }
}

/// The bits of infinity.
pub open spec fn infinity(kind: FloatKind) -> nat {
    match kind {
        FloatKind::F32 => 0x7f80_0000,
        FloatKind::F64 => 0x7ff0_0000_0000_0000,
    }
}

/// The bits of a floating-point number without the sign.
pub open spec fn unsigned_bits(kind: FloatKind, bits: nat) -> nat {
    if bits >= sign_weight(kind) {
        (bits - sign_weight(kind)) as nat
    } else {
        bits
    }
}

/// Whether bits stand for no number.
pub open spec fn not_a_number(kind: FloatKind, bits: nat) -> bool {
    unsigned_bits(kind, bits) > infinity(kind)
}

/// A number that orders floating-point numbers: the bits without the sign grow
/// with the distance from zero.
pub open spec fn float_rank(kind: FloatKind, bits: nat) -> int {
    if bits >= sign_weight(kind) {
        -(unsigned_bits(kind, bits) as int)
    } else {
        bits as int
    }
}

/// The answer of a comparison of two floating-point numbers. What is no number
/// is neither equal to anything nor before or after it.
pub open spec fn float_compared(op: BinOp, kind: FloatKind, a: nat, b: nat) -> Option<bool> {
    if not_a_number(kind, a) || not_a_number(kind, b) {
        match compared(op, 0, 0) {
            Some(_) => Some(op == BinOp::Ne),
            None => None,
        }
    } else {
        compared(op, float_rank(kind, a), float_rank(kind, b))
    }
}

/// The bits of the number with the other sign.
pub open spec fn float_negated(kind: FloatKind, bits: nat) -> nat {
    if bits >= sign_weight(kind) {
        (bits - sign_weight(kind)) as nat
    } else {
        bits + sign_weight(kind)
    }
}

/// Arithmetic on two floating-point numbers, which are given by their bits.
#[derive(Debug, Clone, Copy)]
pub struct FloatTask {
    pub op: BinOp,
    pub kind: FloatKind,
    pub left: u64,
    pub right: u64,
}

/// What an operator computes: a value, or a task for floating-point arithmetic.
#[derive(Debug)]
pub enum Computed {
    Value(Value),
    Float(FloatTask),
}

pub enum ComputedModel {
    Value(ValueTerm),
    Float(FloatTask),
}

impl DeepView for Computed {
    type V = ComputedModel;

    open spec fn deep_view(&self) -> ComputedModel {
        match self {
            Computed::Value(v) => ComputedModel::Value(v@),
            Computed::Float(t) => ComputedModel::Float(*t),
        }
    }
}

/// Whether an operator is arithmetic.
pub open spec fn arithmetic(op: BinOp) -> bool {
    op is Add || op is Sub || op is Mul || op is Div || op is Rem
}

/// The result of an operator on two values, if it has one.
pub open spec fn operated(op: BinOp, a: ValueTerm, b: ValueTerm, span: SpanModel) -> Option<
    Result<ComputedModel, ErrorModel>,
> {
    match (a.head, b.head) {
        (ValueHead::Int(k, x), ValueHead::Int(l, y)) => if k == l {
            match int_result(op, k, x, y, span) {
                Some(Ok(v)) => Some(Ok(ComputedModel::Value(v))),
                Some(Err(e)) => Some(Err(e)),
                None => None,
            }
        } else {
            None
        },
        (ValueHead::Float(k, x), ValueHead::Float(l, y)) => if k != l {
            None
        } else if arithmetic(op) {
            Some(
                Ok(
                    ComputedModel::Float(
                        FloatTask { op, kind: k, left: x as u64, right: y as u64 },
                    ),
                ),
            )
        } else {
            boolean_result(float_compared(op, k, x, y))
        },
        (ValueHead::Str(x), ValueHead::Str(y)) => match op {
            BinOp::Add => Some(Ok(ComputedModel::Value(crate::values::str_term(x + y)))),
            BinOp::Eq => boolean_result(Some(x == y)),
            BinOp::Ne => boolean_result(Some(x != y)),
            _ => None,
        },
        (ValueHead::Boolean(x), ValueHead::Boolean(y)) => match op {
            BinOp::Eq => boolean_result(Some(x == y)),
            BinOp::Ne => boolean_result(Some(x != y)),
            _ => None,
        },
        (ValueHead::Char(x), ValueHead::Char(y)) => boolean_result(
            compared(op, x as int, y as int),
        ),
        _ => None,
    }
}

/// The result that an answer is.
pub open spec fn boolean_result(r: Option<bool>) -> Option<Result<ComputedModel, ErrorModel>> {
    match r {
        Some(b) => Some(Ok(ComputedModel::Value(crate::values::bool_term(b)))),
        None => None,
    }
}

/// What is said where an operator does not apply to its operands. How these look is
/// what `inspect` gives.
pub open spec fn unsupported_operands(a: ValueTerm, b: ValueTerm) -> ErrorModel {
    ErrorModel::Internal(
        "binop: unsupported operand types ("@ + crate::inspect::inspected(a) + ", "@
            + crate::inspect::inspected(b) + ") (typechecker should have caught this)"@,
    )
}

/// The result of an operator on two values.
pub open spec fn binop_result(op: BinOp, a: ValueTerm, b: ValueTerm, span: SpanModel) -> Result<
    ComputedModel,
    ErrorModel,
> {
    match operated(op, a, b, span) {
        Some(r) => r,
        None => Err(unsupported_operands(a, b)),
    }
}

/// Whether an operator can be computed: the least number of a signed type has no
/// remainder by minus one.
pub open spec fn computable(op: BinOp, a: ValueTerm, b: ValueTerm) -> bool {
    match (op, a.head, b.head) {
        (BinOp::Rem, ValueHead::Int(k, x), ValueHead::Int(l, y)) => !(k == l && !unsigned(k) && x
            == least(k) && y == -1),
        _ => true,
    }
}

/// What a result of an operator says.
pub open spec fn computed_model(r: Result<Computed, MetelError>) -> Result<
    ComputedModel,
    ErrorModel,
> {
    match r {
        Ok(c) => Ok(c.deep_view()),
        Err(e) => Err(e@),
    }
}

fn failure(message: &str, span: &Span) -> (e: MetelError)
    ensures
        e@ == arithmetic_error(message@, span.deep_view()),
{
    MetelError::panic(RuntimeErrorCode::R0007, message.to_owned(), span)
}

/// A number of an integer type, or the error that it is none.
fn checked_value(
    kind: IntKind,
    n: Option<i128>,
    word: &str,
    span: &Span,
    Ghost(exact): Ghost<int>,
) -> (r:
    Result<Computed, MetelError>)
    requires
        match n {
            Some(x) => x == exact,
            None => !in_range(kind, exact),
        },
    ensures
        match checked(kind, exact, word@, span.deep_view()) {
            Ok(v) => computed_model(r) == Ok::<ComputedModel, ErrorModel>(ComputedModel::Value(v)),
            Err(e) => computed_model(r) == Err::<ComputedModel, ErrorModel>(e),
        },
{
    match n {
        Some(x) => {
            if fits(kind, x) {
                return Ok(Computed::Value(int_value(kind, x)));
            }
        },
        None => {},
    }
    let mut s = failing_string(kind).to_owned();
    s.append(word);
    Err(MetelError::panic(RuntimeErrorCode::R0007, s, span))
}

fn distance(n: i128) -> (m: u128)
    requires
        n > i128::MIN,
    ensures
        m == magnitude(n as int),
{
    if n < 0 {
        (-n) as u128
    } else {
        n as u128
    }
}

fn is_unsigned(kind: IntKind) -> (b: bool)
    ensures
        b == unsigned(kind),
{
    match kind {
        IntKind::U8 | IntKind::U16 | IntKind::U32 | IntKind::U64 => true,
        _ => false,
    }
}

fn compare_ints(op: BinOp, a: i128, b: i128) -> (r: Option<bool>)
    ensures
        r == compared(op, a as int, b as int),
{
    match op {
        BinOp::Eq => Some(a == b),
        BinOp::Ne => Some(a != b),
        BinOp::Lt => Some(a < b),
        BinOp::Le => Some(a <= b),
        BinOp::Gt => Some(a > b),
        BinOp::Ge => Some(a >= b),
        _ => None,
    }
}

fn range_value(name: &str, id: u32, a: i128, b: i128) -> (v: Value)
    requires
        in_range(IntKind::I64, a as int),
        in_range(IntKind::I64, b as int),
    ensures
        v@ == range_term(name@, SymbolId(id), a as int, b as int),
{
    let mut fields: Vec<(String, Value)> = Vec::new();
    fields.push(("start".to_owned(), Value::I64(a as i64)));
    fields.push(("end".to_owned(), Value::I64(b as i64)));
    assert(fields@[0].1@ == crate::values::int_term(IntKind::I64, a as int));
    assert(fields@[1].1@ == crate::values::int_term(IntKind::I64, b as int));
    let v = Value::Struct { name: name.to_owned(), type_id: Some(SymbolId(id)), fields };
    proof {
        let want = range_term(name@, SymbolId(id), a as int, b as int);
        assert(crate::types::labels_of(fields@) =~= seq!["start"@, "end"@]);
        assert(v@.args =~= want.args);
    }
    v
}

fn mismatched(a: &Value, b: &Value) -> (e: MetelError)
    ensures
        e@ == unsupported_operands(a@, b@),
{
    let mut s = "binop: unsupported operand types (".to_owned();
    s.append(inspect(a).as_str());
    s.append(", ");
    s.append(inspect(b).as_str());
    s.append(") (typechecker should have caught this)");
    MetelError::internal(s)
}

/// What a result of an operator says, where it has one.
spec fn operated_model(r: Option<Result<Computed, MetelError>>) -> Option<
    Result<ComputedModel, ErrorModel>,
> {
    match r {
        Some(r) => Some(computed_model(r)),
        None => None,
    }
}

fn int_binop(op: BinOp, kind: IntKind, a: i128, b: i128, span: &Span) -> (r: Option<
    Result<Computed, MetelError>,
>)
    requires
        in_range(kind, a as int),
        in_range(kind, b as int),
        !(op is Rem && !unsigned(kind) && a == least(kind) && b == -1),
    ensures
        operated_model(r) == (match int_result(op, kind, a as int, b as int, span.deep_view()) {
            Some(Ok(v)) => Some(Ok(ComputedModel::Value(v))),
            Some(Err(e)) => Some(Err(e)),
            None => None,
        }),
{
    match op {
        BinOp::Add => Some(checked_value(kind, Some(a + b), " overflow", span, Ghost(a + b))),
        BinOp::Sub => {
            let word = if is_unsigned(kind) {
                " underflow"
            } else {
                " overflow"
            };
            Some(checked_value(kind, Some(a - b), word, span, Ghost(a - b)))
        },
        BinOp::Mul => {
            let product = a.checked_mul(b);
            Some(checked_value(kind, product, " overflow", span, Ghost(a * b)))
        },
        BinOp::Div => {
            if b == 0 {
                return Some(Err(failure("division by zero", span)));
            }
            let q: u128 = distance(a) / distance(b);
            assert(q <= distance_bound()) by {
                assert(magnitude(a as int) <= distance_bound());
                assert(magnitude(a as int) / magnitude(b as int) <= magnitude(a as int))
                    by (nonlinear_arith)
                    requires
                        magnitude(b as int) > 0,
                ;
            }
            let n: i128 = if (a < 0) == (b < 0) {
                q as i128
            } else {
                -(q as i128)
            };
            let ghost exact = quotient(a as int, b as int);
            Some(checked_value(kind, Some(n), " overflow", span, Ghost(exact)))
        },
        BinOp::Rem => {
            if b == 0 {
                return Some(Err(failure("remainder by zero", span)));
            }
            let m: u128 = distance(a) % distance(b);
            assert(m <= magnitude(a as int) && m < magnitude(b as int)) by (nonlinear_arith)
                requires
                    magnitude(b as int) > 0,
                    m == magnitude(a as int) % magnitude(b as int),
            ;
            let n: i128 = if a < 0 {
                -(m as i128)
            } else {
                m as i128
            };
            assert(in_range(kind, n as int));
            Some(Ok(Computed::Value(int_value(kind, n))))
        },
        BinOp::Range => match kind {
            IntKind::I64 => Some(
                Ok(Computed::Value(range_value("Range", SYM_TYPE_RANGE, a, b))),
            ),
            _ => None,
        },
        BinOp::RangeInclusive => match kind {
            IntKind::I64 => Some(
                Ok(
                    Computed::Value(
                        range_value("RangeInclusive", SYM_TYPE_RANGE_INCLUSIVE, a, b),
                    ),
                ),
            ),
            _ => None,
        },
        _ => match compare_ints(op, a, b) {
            Some(r) => Some(Ok(Computed::Value(Value::Boolean(r)))),
            None => None,
        },
    }
}

/// No integer is further from zero than this.
spec fn distance_bound() -> int {
    0xffff_ffff_ffff_ffff
}

/// The result that an answer is.
fn answered(r: Option<bool>) -> (o: Option<Result<Computed, MetelError>>)
    ensures
        operated_model(o) == boolean_result(r),
{
    match r {
        Some(x) => Some(Ok(Computed::Value(Value::Boolean(x)))),
        None => None,
    }
}

fn float_binop(op: BinOp, kind: FloatKind, a: u64, b: u64) -> (r: Option<
    Result<Computed, MetelError>,
>)
    requires
        kind == FloatKind::F32 ==> a <= u32::MAX && b <= u32::MAX,
    ensures
        operated_model(r) == (if arithmetic(op) {
            Some(Ok(ComputedModel::Float(FloatTask { op, kind, left: a, right: b })))
        } else {
            boolean_result(float_compared(op, kind, a as nat, b as nat))
        }),
{
    match op {
        BinOp::Add | BinOp::Sub | BinOp::Mul | BinOp::Div | BinOp::Rem => Some(
            Ok(Computed::Float(FloatTask { op, kind, left: a, right: b })),
        ),
        _ => answered(compare_floats(op, kind, a, b)),
    }
}

/// Compares two floating-point numbers by their bits.
pub fn compare_floats(op: BinOp, kind: FloatKind, a: u64, b: u64) -> (r: Option<bool>)
    ensures
        r == float_compared(op, kind, a as nat, b as nat),
{
    let sign: u64 = match kind {
        FloatKind::F32 => 0x8000_0000,
        FloatKind::F64 => 0x8000_0000_0000_0000,
    };
    let inf: u64 = match kind {
        FloatKind::F32 => 0x7f80_0000,
        FloatKind::F64 => 0x7ff0_0000_0000_0000,
    };
    let pa: u64 = if a >= sign {
        a - sign
    } else {
        a
    };
    let pb: u64 = if b >= sign {
        b - sign
    } else {
        b
    };
    if pa > inf || pb > inf {
        return match op {
            BinOp::Ne => Some(true),
            BinOp::Eq | BinOp::Lt | BinOp::Le | BinOp::Gt | BinOp::Ge => Some(false),
            _ => None,
        };
    }
    let ra: i128 = if a >= sign {
        -(pa as i128)
    } else {
        a as i128
    };
    let rb: i128 = if b >= sign {
        -(pb as i128)
    } else {
        b as i128
    };
    compare_ints(op, ra, rb)
}

/// The result of an operator on two values, if it has one.
fn operate(op: BinOp, lv: &Value, rv: &Value, span: &Span) -> (r: Option<
    Result<Computed, MetelError>,
>)
    requires
        computable(op, lv@, rv@),
    ensures
        operated_model(r) == operated(op, lv@, rv@, span.deep_view()),
{
    if let Some((k, a)) = as_int(lv) {
        return match as_int(rv) {
            Some((l, b)) => {
                if k == l {
                    int_binop(op, k, a, b, span)
                } else {
                    None
                }
            },
            None => None,
        };
    }
    match (lv, rv) {
        (Value::F64(a), Value::F64(b)) => float_binop(op, FloatKind::F64, *a, *b),
        (Value::F32(a), Value::F32(b)) => float_binop(op, FloatKind::F32, *a as u64, *b as u64),
        (Value::Str(a), Value::Str(b)) => match op {
            BinOp::Add => {
                let mut s = a.clone();
                s.append(b.as_str());
                Some(Ok(Computed::Value(Value::Str(s))))
            },
            BinOp::Eq => answered(Some(*a == *b)),
            BinOp::Ne => answered(Some(!(*a == *b))),
            _ => None,
        },
        (Value::Boolean(a), Value::Boolean(b)) => match op {
            BinOp::Eq => answered(Some(*a == *b)),
            BinOp::Ne => answered(Some(*a != *b)),
            _ => None,
        },
        (Value::Char(a), Value::Char(b)) => answered(
            compare_ints(op, *a as u32 as i128, *b as u32 as i128),
        ),
        _ => None,
    }
}

/// Evaluates an operator. Arithmetic on floating-point numbers is left as a
/// task.
pub fn eval_binop(op: BinOp, lv: Value, rv: Value, span: &Span) -> (r: Result<Computed, MetelError>)
    requires
        computable(op, lv@, rv@),
    ensures
        computed_model(r) == binop_result(op, lv@, rv@, span.deep_view()),
{
    match operate(op, &lv, &rv, span) {
        Some(r) => r,
        None => Err(mismatched(&lv, &rv)),
    }
}

/// The operator that a compound assignment applies.
pub open spec fn assigned_op(op: AssignOp) -> Option<BinOp> {
    match op {
        AssignOp::Assign => None,
        AssignOp::AddAssign => Some(BinOp::Add),
        AssignOp::SubAssign => Some(BinOp::Sub),
        AssignOp::MulAssign => Some(BinOp::Mul),
        AssignOp::DivAssign => Some(BinOp::Div),
        AssignOp::RemAssign => Some(BinOp::Rem),
    }
}

/// The operator that a compound assignment applies.
pub fn assign_binop(op: AssignOp) -> (r: Option<BinOp>)
    ensures
        r == assigned_op(op),
{
    match op {
        AssignOp::Assign => None,
        AssignOp::AddAssign => Some(BinOp::Add),
        AssignOp::SubAssign => Some(BinOp::Sub),
        AssignOp::MulAssign => Some(BinOp::Mul),
        AssignOp::DivAssign => Some(BinOp::Div),
        AssignOp::RemAssign => Some(BinOp::Rem),
    }
}

/// Applies the operator of a compound assignment to the current value.
pub fn apply_assign_op(op: AssignOp, cur: Value, rhs: Value, span: &Span) -> (r: Result<
    Computed,
    MetelError,
>)
    requires
        assigned_op(op) matches Some(b) && computable(b, cur@, rhs@),
    ensures
        computed_model(r) == binop_result(assigned_op(op)->Some_0, cur@, rhs@, span.deep_view()),
{
    match assign_binop(op) {
        Some(b) => eval_binop(b, cur, rhs, span),
        None => Err(mismatched(&cur, &rhs)),
    }
}

} // verus!
