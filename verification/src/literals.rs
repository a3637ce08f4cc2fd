//! The values of literals.

use crate::operators::{compare_floats, int_value};
use crate::typed_ast::{BinOp, Literal};
use crate::types::Type;
use crate::values::{FloatKind, IntKind, Value, ValueHead, ValueTerm};
use vstd::prelude::*;

verus! {

/// The number of an integer type that a number becomes when only as many bits
/// are kept as the type has.
pub open spec fn wrapped(kind: IntKind, n: int) -> int {
    let least = crate::operators::least(kind);
    let count = crate::operators::greatest(kind) - least + 1;
    (n - least) % count + least
}

/// The number that a number becomes when it is cut to an integer type.
pub fn wrap(kind: IntKind, n: i128) -> (r: i128)
    ensures
        r == wrapped(kind, n as int),
        crate::operators::in_range(kind, r as int),
{
    let (least, count): (i128, i128) = match kind {
        IntKind::I8 => (-0x80, 0x100),
        IntKind::I16 => (-0x8000, 0x1_0000),
        IntKind::I32 => (-0x8000_0000, 0x1_0000_0000),
        IntKind::I64 => (-0x8000_0000_0000_0000, 0x1_0000_0000_0000_0000),
        IntKind::U8 => (0, 0x100),
        IntKind::U16 => (0, 0x1_0000),
        IntKind::U32 => (0, 0x1_0000_0000),
        IntKind::U64 => (0, 0x1_0000_0000_0000_0000),
    };
    let rest: i128 = modulo(n, count);
    let shifted: i128 = modulo(rest - least, count);
    proof {
        assert((n - least) % (count as int) == (rest - least) % (count as int)) by {
            vstd::arithmetic::div_mod::lemma_sub_mod_noop(n as int, least as int, count as int);
            vstd::arithmetic::div_mod::lemma_sub_mod_noop(rest as int, least as int, count as int);
            vstd::arithmetic::div_mod::lemma_small_mod(rest as nat, count as nat);
        }
    }
    shifted + least
}

/// What is left after whole multiples of a positive number have been taken away.
fn modulo(n: i128, count: i128) -> (r: i128)
    requires
        0 < count,
    ensures
        r == (n as int) % (count as int),
        0 <= r < count,
{
    proof {
        vstd::arithmetic::div_mod::lemma_mod_bound(n as int, count as int);
    }
    if n >= 0 {
        ((n as u128) % (count as u128)) as i128
    } else {
        let below: u128 = (-(n + 1)) as u128;
        let rest: i128 = (below % (count as u128)) as i128;
        proof {
            let c = count as int;
            let b = below as int;
            let q = b / c;
            vstd::arithmetic::div_mod::lemma_fundamental_div_mod(b, c);
            vstd::arithmetic::div_mod::lemma_mod_bound(b, c);
            assert(n as int == -b - 1);
            assert(n as int == (-q - 1) * c + (c - 1 - rest)) by (nonlinear_arith)
                requires
                    n as int == -b - 1,
                    b == c * q + rest,
            ;
            vstd::arithmetic::div_mod::lemma_fundamental_div_mod_converse(
                n as int,
                c,
                -q - 1,
                c - 1 - rest,
            );
        }
        count - 1 - rest
    }
}

/// The integer type that a literal without a suffix has: the one that its type
/// says, or else the default.
pub open spec fn literal_int_kind(ty: Type) -> IntKind {
    match ty {
        Type::I8 => IntKind::I8,
        Type::I16 => IntKind::I16,
        Type::I32 => IntKind::I32,
        Type::U8 => IntKind::U8,
        Type::U16 => IntKind::U16,
        Type::U32 => IntKind::U32,
        Type::U64 => IntKind::U64,
        _ => IntKind::I64,
    }
}

/// A floating-point value, from its bits in both types.
pub open spec fn float_term(kind: FloatKind, double: u64, single: u32) -> ValueTerm {
    match kind {
        FloatKind::F64 => crate::values::plain(ValueHead::Float(FloatKind::F64, double as nat)),
        FloatKind::F32 => crate::values::plain(ValueHead::Float(FloatKind::F32, single as nat)),
    }
}

/// The value of a literal of a type.
pub open spec fn literal_term(lit: Literal, ty: Type) -> ValueTerm {
    match lit {
        Literal::Int(n) => {
            let kind = literal_int_kind(ty);
            crate::values::int_term(kind, wrapped(kind, n as int))
        },
        Literal::Float { double, single } => float_term(
            if ty is F32 {
                FloatKind::F32
            } else {
                FloatKind::F64
            },
            double,
            single,
        ),
        Literal::SizedInt { value, kind } => crate::values::int_term(
            kind,
            wrapped(kind, value as int),
        ),
        Literal::SizedFloat { double, single, kind } => float_term(kind, double, single),
        Literal::Char(c) => crate::values::plain(ValueHead::Char(c)),
        Literal::Boolean(b) => crate::values::bool_term(b),
        Literal::Str(s) => crate::values::str_term(s@),
        Literal::Unit => crate::values::unit_term(),
    }
}

/// The value that a number becomes when it is cut to an integer type.
pub fn cut(kind: IntKind, n: i128) -> (v: Value)
    ensures
        v@ == crate::values::int_term(kind, wrapped(kind, n as int)),
{
    let r: i128 = wrap(kind, n);
    int_value(kind, r)
}

/// The value of a literal of a type.
pub fn literal_value(lit: &Literal, ty: &Type) -> (v: Value)
    ensures
        v@ == literal_term(*lit, *ty),
{
    match lit {
        Literal::Int(n) => {
            let kind = match ty {
                Type::I8 => IntKind::I8,
                Type::I16 => IntKind::I16,
                Type::I32 => IntKind::I32,
                Type::U8 => IntKind::U8,
                Type::U16 => IntKind::U16,
                Type::U32 => IntKind::U32,
                Type::U64 => IntKind::U64,
                _ => IntKind::I64,
            };
            cut(kind, *n as i128)
        },
        Literal::Float { double, single } => match ty {
            Type::F32 => Value::F32(*single),
            _ => Value::F64(*double),
        },
        Literal::SizedInt { value, kind } => cut(*kind, *value),
        Literal::SizedFloat { double, single, kind } => match kind {
            FloatKind::F64 => Value::F64(*double),
            FloatKind::F32 => Value::F32(*single),
        },
        Literal::Char(c) => Value::Char(*c),
        Literal::Boolean(b) => Value::Boolean(*b),
        Literal::Str(s) => Value::Str(s.clone()),
        Literal::Unit => Value::Unit,
    }
}

/// Whether two floating-point numbers are equal.
pub open spec fn float_equal(kind: FloatKind, a: nat, b: nat) -> bool {
    crate::operators::float_compared(BinOp::Eq, kind, a, b) == Some(true)
}

/// Whether a value is the one that a literal pattern asks for. A literal without
/// a suffix asks for the default type.
pub open spec fn literal_matches(lit: Literal, v: ValueTerm) -> bool {
    match (lit, v.head) {
        (Literal::Int(a), ValueHead::Int(kind, b)) => kind is I64 && a == b,
        (Literal::Float { double, single }, ValueHead::Float(kind, b)) => kind is F64
            && float_equal(kind, double as nat, b),
        (Literal::Char(a), ValueHead::Char(b)) => a == b,
        (Literal::Boolean(a), ValueHead::Boolean(b)) => a == b,
        (Literal::Str(a), ValueHead::Str(b)) => a@ == b,
        (Literal::Unit, ValueHead::Unit) => true,
        (Literal::SizedInt { value, kind }, ValueHead::Int(k, b)) => kind == k && b == wrapped(
            kind,
            value as int,
        ),
        (Literal::SizedFloat { double, single, kind }, ValueHead::Float(k, b)) => kind == k
            && float_equal(
            kind,
            match kind {
                FloatKind::F64 => double as nat,
                FloatKind::F32 => single as nat,
            },
            b,
        ),
        _ => false,
    }
}

fn equal_floats(kind: FloatKind, a: u64, b: u64) -> (r: bool)
    ensures
        r == float_equal(kind, a as nat, b as nat),
{
    match compare_floats(BinOp::Eq, kind, a, b) {
        Some(r) => r,
        None => false,
    }
}

/// Whether a value is the one that a literal pattern asks for.
pub fn match_literal(lit: &Literal, v: &Value) -> (b: bool)
    ensures
        b == literal_matches(*lit, v@),
{
    match (lit, v) {
        (Literal::Int(a), Value::I64(b)) => *a == *b,
        (Literal::Float { double, single: _ }, Value::F64(b)) => equal_floats(
            FloatKind::F64,
            *double,
            *b,
        ),
        (Literal::Char(a), Value::Char(b)) => *a == *b,
        (Literal::Boolean(a), Value::Boolean(b)) => *a == *b,
        (Literal::Str(a), Value::Str(b)) => *a == *b,
        (Literal::Unit, Value::Unit) => true,
        (Literal::SizedInt { value, kind }, _) => {
            let r: i128 = wrap(*kind, *value);
            match (kind, v) {
                (IntKind::I8, Value::I8(b)) => *b as i128 == r,
                (IntKind::I16, Value::I16(b)) => *b as i128 == r,
                (IntKind::I32, Value::I32(b)) => *b as i128 == r,
                (IntKind::I64, Value::I64(b)) => *b as i128 == r,
                (IntKind::U8, Value::U8(b)) => *b as i128 == r,
                (IntKind::U16, Value::U16(b)) => *b as i128 == r,
                (IntKind::U32, Value::U32(b)) => *b as i128 == r,
                (IntKind::U64, Value::U64(b)) => *b as i128 == r,
                _ => false,
            }
        },
        (Literal::SizedFloat { double, single, kind }, _) => match (kind, v) {
            (FloatKind::F64, Value::F64(b)) => equal_floats(FloatKind::F64, *double, *b),
            (FloatKind::F32, Value::F32(b)) => equal_floats(
                FloatKind::F32,
                *single as u64,
                *b as u64,
            ),
            _ => false,
        },
        _ => false,
    }
}

} // verus!
