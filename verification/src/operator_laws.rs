//! What the operators of the language promise, of all values that they apply to.

use crate::ast::SpanModel;
use crate::error::{ErrorModel, RuntimeErrorCode};
use crate::machine::World;
use crate::operators::{ComputedModel, FloatTask};
use crate::store::StoreModel;
use crate::typed_ast::{AssignOp, BinOp, Literal, UnaryOp};
use crate::types::Type;
use crate::values::{FloatKind, IntKind, ValueHead, ValueTerm};
use vstd::prelude::*;

verus! {

/// A value without components.
pub open spec fn single(head: ValueHead) -> ValueTerm {
    ValueTerm { head, args: Seq::empty() }
}

/// A number of an integer type.
pub open spec fn number(kind: IntKind, n: int) -> ValueTerm {
    single(ValueHead::Int(kind, n))
}

/// A floating-point number, by its bits.
pub open spec fn float(kind: FloatKind, bits: nat) -> ValueTerm {
    single(ValueHead::Float(kind, bits))
}

/// The truth of a comparison, where it has one.
pub open spec fn truth(op: BinOp, a: ValueTerm, b: ValueTerm, span: SpanModel) -> Option<bool> {
    match crate::operators::binop_result(op, a, b, span) {
        Ok(ComputedModel::Value(v)) => match v.head {
            ValueHead::Boolean(t) => if v.args.len() == 0 {
                Some(t)
            } else {
                None
            },
            _ => None,
        },
        _ => None,
    }
}

/// Whether the six comparisons of two values go together: each has an answer, equality
/// and order are the other way round in their opposites, and at most means before or
/// equal.
pub open spec fn comparisons_agree(a: ValueTerm, b: ValueTerm, span: SpanModel) -> bool {
    &&& truth(BinOp::Lt, a, b, span) is Some
    &&& truth(BinOp::Eq, a, b, span) is Some
    &&& truth(BinOp::Le, a, b, span) == Some(
        truth(BinOp::Lt, a, b, span) == Some(true) || truth(BinOp::Eq, a, b, span) == Some(true),
    )
    &&& truth(BinOp::Ge, a, b, span) == truth(BinOp::Le, b, a, span)
    &&& truth(BinOp::Gt, a, b, span) == truth(BinOp::Lt, b, a, span)
    &&& truth(BinOp::Ne, a, b, span) == Some(truth(BinOp::Eq, a, b, span) != Some(true))
    &&& truth(BinOp::Eq, a, b, span) == truth(BinOp::Eq, b, a, span)
    &&& !(truth(BinOp::Lt, a, b, span) == Some(true) && truth(BinOp::Lt, b, a, span) == Some(true))
}

/// Numbers of one integer type are compared by their size: the comparisons go together,
/// one of two numbers is not greater, and one is less than another exactly if something
/// positive has to be added to it.
pub proof fn integers_are_ordered(kind: IntKind, a: int, b: int, span: SpanModel)
    ensures
        comparisons_agree(number(kind, a), number(kind, b), span),
        truth(BinOp::Gt, number(kind, a), number(kind, b), span) == Some(
            truth(BinOp::Le, number(kind, a), number(kind, b), span) == Some(false),
        ),
        truth(BinOp::Eq, number(kind, a), number(kind, b), span) == Some(b - a == 0),
        truth(BinOp::Lt, number(kind, a), number(kind, b), span) == Some(b - a > 0),
{
}

/// Characters are compared by their numbers.
pub proof fn characters_are_ordered(a: char, b: char, span: SpanModel)
    ensures
        comparisons_agree(single(ValueHead::Char(a)), single(ValueHead::Char(b)), span),
        truth(BinOp::Gt, single(ValueHead::Char(a)), single(ValueHead::Char(b)), span) == Some(
            truth(BinOp::Le, single(ValueHead::Char(a)), single(ValueHead::Char(b)), span)
                == Some(false),
        ),
        truth(BinOp::Eq, single(ValueHead::Char(a)), single(ValueHead::Char(b)), span) == Some(
            a == b,
        ),
        truth(BinOp::Lt, single(ValueHead::Char(a)), single(ValueHead::Char(b)), span) == Some(
            (b as int) - (a as int) > 0,
        ),
{
}

/// Texts and truth values are equal exactly if they are the same. They have no order.
pub proof fn texts_and_truths_are_equal_or_not(
    x: Seq<char>,
    y: Seq<char>,
    p: bool,
    q: bool,
    op: BinOp,
    span: SpanModel,
)
    ensures
        ({
            let a = single(ValueHead::Str(x));
            let b = single(ValueHead::Str(y));
            &&& truth(BinOp::Eq, a, b, span) == Some(x == y)
            &&& truth(BinOp::Ne, a, b, span) == Some(x != y)
            &&& op is Lt || op is Le || op is Gt || op is Ge ==> crate::operators::binop_result(
                op,
                a,
                b,
                span,
            ) is Err
        }),
        ({
            let a = single(ValueHead::Boolean(p));
            let b = single(ValueHead::Boolean(q));
            &&& truth(BinOp::Eq, a, b, span) == Some(p == q)
            &&& truth(BinOp::Ne, a, b, span) == Some(p != q)
            &&& !(op is Eq || op is Ne) ==> crate::operators::binop_result(op, a, b, span) is Err
        }),
{
}

/// Adding texts puts the second one after the first. Texts have no other arithmetic.
pub proof fn texts_are_added_one_after_the_other(
    x: Seq<char>,
    y: Seq<char>,
    op: BinOp,
    span: SpanModel,
)
    ensures
        ({
            let a = single(ValueHead::Str(x));
            let b = single(ValueHead::Str(y));
            &&& crate::operators::binop_result(BinOp::Add, a, b, span) matches Ok(
                ComputedModel::Value(v),
            ) && v.args.len() == 0 && (v.head matches ValueHead::Str(sum) && sum.len() == x.len()
                + y.len() && sum.take(x.len() as int) == x && sum.skip(x.len() as int) == y)
            &&& op is Sub || op is Mul || op is Div || op is Rem || op is Range
                || op is RangeInclusive ==> crate::operators::binop_result(op, a, b, span) is Err
        }),
{
    assert((x + y).take(x.len() as int) =~= x);
    assert((x + y).skip(x.len() as int) =~= y);
}

/// The bounds of each integer type.
pub open spec fn bounds(kind: IntKind) -> (int, int) {
    match kind {
        IntKind::I8 => (-128, 127),
        IntKind::I16 => (-32768, 32767),
        IntKind::I32 => (-2147483648, 2147483647),
        IntKind::I64 => (-9223372036854775808, 9223372036854775807),
        IntKind::U8 => (0, 255),
        IntKind::U16 => (0, 65535),
        IntKind::U32 => (0, 4294967295),
        IntKind::U64 => (0, 18446744073709551615),
    }
}

/// Whether a number is within the bounds of an integer type.
pub open spec fn within(kind: IntKind, n: int) -> bool {
    bounds(kind).0 <= n <= bounds(kind).1
}

/// The number of an integer type that an operation gives, where it gives one.
pub open spec fn reached(
    op: BinOp,
    kind: IntKind,
    a: int,
    b: int,
    span: SpanModel,
) -> Option<int> {
    match crate::operators::binop_result(op, number(kind, a), number(kind, b), span) {
        Ok(ComputedModel::Value(v)) => match v.head {
            ValueHead::Int(k, n) => if k == kind && v.args.len() == 0 {
                Some(n)
            } else {
                None
            },
            _ => None,
        },
        _ => None,
    }
}

/// Whether an operation fails as arithmetic, with a message and at a place.
pub open spec fn arithmetic_fails(
    op: BinOp,
    kind: IntKind,
    a: int,
    b: int,
    message: Seq<char>,
    span: SpanModel,
) -> bool {
    crate::operators::binop_result(op, number(kind, a), number(kind, b), span) == Err::<
        ComputedModel,
        ErrorModel,
    >(ErrorModel::Runtime(RuntimeErrorCode::R0007, message, span, Seq::empty()))
}

/// Addition and subtraction of integers undo each other, give a number of the same type,
/// and fail exactly where the number is outside the bounds of the type.
pub proof fn addition_and_subtraction_undo_each_other(
    kind: IntKind,
    a: int,
    b: int,
    span: SpanModel,
)
    requires
        within(kind, a),
        within(kind, b),
    ensures
        reached(BinOp::Add, kind, a, b, span) is Some <==> within(kind, a + b),
        reached(BinOp::Sub, kind, a, b, span) is Some <==> within(kind, a - b),
        reached(BinOp::Add, kind, a, b, span) matches Some(n) ==> n - b == a && reached(
            BinOp::Sub,
            kind,
            n,
            b,
            span,
        ) == Some(a) && reached(BinOp::Add, kind, b, a, span) == Some(n),
        reached(BinOp::Sub, kind, a, b, span) matches Some(n) ==> n + b == a && reached(
            BinOp::Add,
            kind,
            n,
            b,
            span,
        ) == Some(a),
        reached(BinOp::Add, kind, a, 0, span) == Some(a),
{
}

/// Multiplication of integers is repeated addition: one more of a factor adds the other
/// one once more. It fails exactly where the product is outside the bounds of the type.
pub proof fn multiplication_is_repeated_addition(kind: IntKind, a: int, b: int, span: SpanModel)
    requires
        within(kind, a),
        within(kind, b),
    ensures
        reached(BinOp::Mul, kind, a, 0, span) == Some(0int),
        reached(BinOp::Mul, kind, a, 1, span) == Some(a),
        reached(BinOp::Mul, kind, a, b, span) == reached(BinOp::Mul, kind, b, a, span),
        reached(BinOp::Mul, kind, a, b, span) is Some <==> within(kind, a * b),
        reached(BinOp::Mul, kind, a, b, span) matches Some(n) ==> (reached(
            BinOp::Mul,
            kind,
            a,
            b + 1,
            span,
        ) matches Some(m) ==> m - n == a),
{
    assert(a * b == b * a) by (nonlinear_arith);
    assert(a * (b + 1) == a * b + a) by (nonlinear_arith);
    assert(a * 1 == a) by (nonlinear_arith);
    assert(a * 0 == 0) by (nonlinear_arith);
}

/// Division of integers drops what is left over, which the remainder gives: the quotient
/// times the divisor and the remainder make up the dividend, the remainder is smaller
/// than the divisor and has the sign of the dividend. There is neither by zero, and no
/// quotient where it is outside the bounds of the type.
pub proof fn quotient_and_remainder_make_up_the_dividend(
    kind: IntKind,
    a: int,
    b: int,
    span: SpanModel,
)
    requires
        within(kind, a),
        within(kind, b),
        b != 0,
        !(b == -1 && a == bounds(kind).0),
    ensures
        reached(BinOp::Div, kind, a, b, span) is Some,
        reached(BinOp::Rem, kind, a, b, span) is Some,
        ({
            let q = reached(BinOp::Div, kind, a, b, span)->Some_0;
            let r = reached(BinOp::Rem, kind, a, b, span)->Some_0;
            &&& q * b + r == a
            &&& a >= 0 ==> 0 <= r
            &&& a <= 0 ==> r <= 0
            &&& b > 0 ==> -b < r < b
            &&& b < 0 ==> b < r < -b
        }),
{
    let x = crate::operators::magnitude(a) as int;
    let y = crate::operators::magnitude(b) as int;
    vstd::arithmetic::div_mod::lemma_fundamental_div_mod(x, y);
    vstd::arithmetic::div_mod::lemma_mod_bound(x, y);
    let q = crate::operators::quotient(a, b);
    let r = crate::operators::remainder(a, b);
    let p = x / y;
    let m = x % y;
    assert(0 <= p <= x) by (nonlinear_arith)
        requires
            x == y * p + m,
            0 <= m < y,
            x >= 0,
    ;
    assert(y > 1 ==> p < x || x == 0) by (nonlinear_arith)
        requires
            x == y * p + m,
            0 <= m < y,
            x >= 0,
    ;
    assert(q * b + r == a) by (nonlinear_arith)
        requires
            x == y * p + m,
            a < 0 ==> x == -a,
            a >= 0 ==> x == a,
            b < 0 ==> y == -b,
            b >= 0 ==> y == b,
            q == (if (a < 0) == (b < 0) {
                p
            } else {
                -p
            }),
            r == (if a < 0 {
                -m
            } else {
                m
            }),
    ;
    assert(y == 1 ==> p == x) by (nonlinear_arith)
        requires
            x == y * p + m,
            0 <= m < y,
    ;
    assert(within(kind, q));
}

/// Arithmetic on integers that cannot be done is an error of arithmetic, which names the
/// type and what went wrong.
pub proof fn arithmetic_that_cannot_be_done_is_an_error(
    kind: IntKind,
    a: int,
    b: int,
    span: SpanModel,
)
    ensures
        ({
            let name = match kind {
                IntKind::I8 => "i8"@,
                IntKind::I16 => "i16"@,
                IntKind::I32 => "i32"@,
                IntKind::I64 => "integer"@,
                IntKind::U8 => "u8"@,
                IntKind::U16 => "u16"@,
                IntKind::U32 => "u32"@,
                IntKind::U64 => "u64"@,
            };
            let low = if kind is U8 || kind is U16 || kind is U32 || kind is U64 {
                " underflow"@
            } else {
                " overflow"@
            };
            &&& !within(kind, a + b) ==> arithmetic_fails(
                BinOp::Add,
                kind,
                a,
                b,
                name + " overflow"@,
                span,
            )
            &&& !within(kind, a - b) ==> arithmetic_fails(BinOp::Sub, kind, a, b, name + low, span)
            &&& !within(kind, a * b) ==> arithmetic_fails(
                BinOp::Mul,
                kind,
                a,
                b,
                name + " overflow"@,
                span,
            )
            &&& arithmetic_fails(BinOp::Div, kind, a, 0, "division by zero"@, span)
            &&& arithmetic_fails(BinOp::Rem, kind, a, 0, "remainder by zero"@, span)
            &&& bounds(kind).0 < 0 ==> arithmetic_fails(
                BinOp::Div,
                kind,
                bounds(kind).0,
                -1,
                name + " overflow"@,
                span,
            )
        }),
{
    let m = bounds(kind).0;
    if m < 0 {
        assert((-m) as nat / 1 == (-m) as nat);
        assert(crate::operators::quotient(m, -1) == -m);
    }
}

/// Integers of different types do not mix, and no operator takes values of two kinds.
pub proof fn operands_are_of_one_kind(
    op: BinOp,
    k: IntKind,
    l: IntKind,
    x: int,
    y: int,
    b: ValueTerm,
    span: SpanModel,
)
    ensures
        k != l ==> crate::operators::binop_result(op, number(k, x), number(l, y), span) is Err,
        !(b.head is Int) ==> crate::operators::binop_result(op, number(k, x), b, span) is Err
            && crate::operators::binop_result(op, b, number(k, x), span) is Err,
        crate::operators::binop_result(op, single(ValueHead::Unit), b, span) is Err,
        crate::operators::binop_result(op, b, single(ValueHead::Unit), span) is Err,
{
}

/// What has parts or is shared has no operators: neither tuples, records, structs and
/// variants, nor arrays, functions, pointers and erased values.
pub proof fn other_values_have_no_operators(
    op: BinOp,
    a: ValueTerm,
    b: ValueTerm,
    span: SpanModel,
)
    requires
        !(a.head is Int || a.head is Float || a.head is Str || a.head is Boolean
            || a.head is Char),
    ensures
        crate::operators::binop_result(op, a, b, span) is Err,
        crate::operators::binop_result(op, b, a, span) is Err,
{
}

/// Two numbers of the default integer type make a range, from the first to the second.
/// Both kinds of range are told apart by name and identity, and no other integers make
/// one.
pub proof fn ranges_go_from_the_first_to_the_second(
    kind: IntKind,
    a: int,
    b: int,
    span: SpanModel,
)
    ensures
        kind is I64 ==> ({
            let half = crate::operators::binop_result(
                BinOp::Range,
                number(kind, a),
                number(kind, b),
                span,
            );
            let full = crate::operators::binop_result(
                BinOp::RangeInclusive,
                number(kind, a),
                number(kind, b),
                span,
            );
            &&& half matches Ok(ComputedModel::Value(v)) && crate::values::field_of(v, "start"@)
                == Some(number(kind, a)) && crate::values::field_of(v, "end"@) == Some(
                number(kind, b),
            ) && v.args.len() == 2 && (v.head matches ValueHead::Struct(name, _, _) && name
                == "Range"@)
            &&& full matches Ok(ComputedModel::Value(v)) && crate::values::field_of(v, "start"@)
                == Some(number(kind, a)) && crate::values::field_of(v, "end"@) == Some(
                number(kind, b),
            ) && v.args.len() == 2 && (v.head matches ValueHead::Struct(name, _, _) && name
                == "RangeInclusive"@)
        }),
        !(kind is I64) ==> crate::operators::binop_result(
            BinOp::Range,
            number(kind, a),
            number(kind, b),
            span,
        ) is Err && crate::operators::binop_result(
            BinOp::RangeInclusive,
            number(kind, a),
            number(kind, b),
            span,
        ) is Err,
{
    reveal_strlit("start");
    reveal_strlit("end");
    let labels = seq!["start"@, "end"@];
    assert("start"@.len() != "end"@.len());
    reveal_with_fuel(crate::values::label_at, 3);
    assert(crate::values::label_at(labels, "start"@, 0) == 0);
    assert(crate::values::label_at(labels, "end"@, 0) == 1);
}

/// Arithmetic on floating-point numbers of one type is handed on as it is: the operator,
/// the type and the numbers, in that order. Of two types there is none.
pub proof fn float_arithmetic_is_handed_on(
    op: BinOp,
    k: FloatKind,
    l: FloatKind,
    x: u64,
    y: u64,
    span: SpanModel,
)
    requires
        op is Add || op is Sub || op is Mul || op is Div || op is Rem,
    ensures
        crate::operators::binop_result(op, float(k, x as nat), float(k, y as nat), span) == Ok::<
            ComputedModel,
            ErrorModel,
        >(ComputedModel::Float(FloatTask { op, kind: k, left: x, right: y })),
        k != l ==> crate::operators::binop_result(
            op,
            float(k, x as nat),
            float(l, y as nat),
            span,
        ) is Err,
{
}

/// The bits of the sign, and the bits of infinity.
pub open spec fn float_marks(kind: FloatKind) -> (nat, nat) {
    match kind {
        FloatKind::F32 => (2147483648, 2139095040),
        FloatKind::F64 => (9223372036854775808, 9218868437227405312),
    }
}

/// Whether bits are those of a number, and of a positive one or zero.
pub open spec fn positive_number(kind: FloatKind, bits: nat) -> bool {
    bits <= float_marks(kind).1
}

/// Whether bits are those of a negative number or of negative zero.
pub open spec fn negative_number(kind: FloatKind, bits: nat) -> bool {
    float_marks(kind).0 <= bits <= float_marks(kind).0 + float_marks(kind).1
}

/// Floating-point numbers are compared by their size: positive ones as their bits, which
/// grow with them, negative ones the other way round, and negative ones are less than
/// positive ones. The two zeros are equal.
pub proof fn floats_are_ordered(kind: FloatKind, a: nat, b: nat, span: SpanModel)
    requires
        positive_number(kind, a) || negative_number(kind, a),
        positive_number(kind, b) || negative_number(kind, b),
    ensures
        comparisons_agree(float(kind, a), float(kind, b), span),
        positive_number(kind, a) && positive_number(kind, b) ==> truth(
            BinOp::Lt,
            float(kind, a),
            float(kind, b),
            span,
        ) == Some(a < b) && truth(BinOp::Eq, float(kind, a), float(kind, b), span) == Some(a == b),
        negative_number(kind, a) && negative_number(kind, b) ==> truth(
            BinOp::Lt,
            float(kind, a),
            float(kind, b),
            span,
        ) == Some(b < a) && truth(BinOp::Eq, float(kind, a), float(kind, b), span) == Some(a == b),
        negative_number(kind, a) && positive_number(kind, b) ==> truth(
            BinOp::Le,
            float(kind, a),
            float(kind, b),
            span,
        ) == Some(true) && truth(BinOp::Eq, float(kind, a), float(kind, b), span) == Some(
            a == float_marks(kind).0 && b == 0,
        ),
{
}

/// What is no number is neither equal to anything, itself included, nor before or after
/// it: it is only different.
pub proof fn what_is_no_number_compares_to_nothing(
    kind: FloatKind,
    a: nat,
    b: nat,
    span: SpanModel,
)
    requires
        a <= 2 * float_marks(kind).0,
        b <= 2 * float_marks(kind).0,
        !(positive_number(kind, a) || negative_number(kind, a)),
    ensures
        forall|op: BinOp|
            op is Eq || op is Lt || op is Le || op is Gt || op is Ge ==> #[trigger] truth(
                op,
                float(kind, a),
                float(kind, b),
                span,
            ) == Some(false) && truth(op, float(kind, b), float(kind, a), span) == Some(false),
        truth(BinOp::Ne, float(kind, a), float(kind, b), span) == Some(true),
        truth(BinOp::Ne, float(kind, b), float(kind, a), span) == Some(true),
{
    assert forall|op: BinOp|
        op is Eq || op is Lt || op is Le || op is Gt || op is Ge implies #[trigger] truth(
        op,
        float(kind, a),
        float(kind, b),
        span,
    ) == Some(false) && truth(op, float(kind, b), float(kind, a), span) == Some(false) by {}
}

/// Only one thing cannot be computed at all: the remainder of the least number of a
/// signed type by minus one.
pub proof fn only_one_remainder_is_undefined(op: BinOp, a: ValueTerm, b: ValueTerm)
    ensures
        crate::operators::computable(op, a, b) <==> !(op is Rem && (a.head matches ValueHead::Int(
            k,
            x,
        ) && (b.head matches ValueHead::Int(l, y) && k == l && bounds(k).0 < 0 && x
            == bounds(k).0 && y == -1))),
{
}

/// An assignment with an operator assigns what the operator gives for the value so far
/// and the one on the right, in that order; a plain one assigns the one on the right.
pub proof fn compound_assignments_apply_their_operator(
    cur: ValueTerm,
    rhs: ValueTerm,
    span: SpanModel,
    w: World,
)
    ensures
        crate::semantics::new_value(AssignOp::Assign, cur, rhs, span, w) == (Ok::<
            ValueTerm,
            crate::environment::StopModel,
        >(rhs), w),
        crate::semantics::new_value(AssignOp::AddAssign, cur, rhs, span, w)
            == crate::semantics::computed(BinOp::Add, cur, rhs, span, w),
        crate::semantics::new_value(AssignOp::SubAssign, cur, rhs, span, w)
            == crate::semantics::computed(BinOp::Sub, cur, rhs, span, w),
        crate::semantics::new_value(AssignOp::MulAssign, cur, rhs, span, w)
            == crate::semantics::computed(BinOp::Mul, cur, rhs, span, w),
        crate::semantics::new_value(AssignOp::DivAssign, cur, rhs, span, w)
            == crate::semantics::computed(BinOp::Div, cur, rhs, span, w),
        crate::semantics::new_value(AssignOp::RemAssign, cur, rhs, span, w)
            == crate::semantics::computed(BinOp::Rem, cur, rhs, span, w),
{
}

/// Negating a number of a signed type takes it from zero, and only the least number
/// stays as it is; numbers without a sign cannot be negated. Negating twice gives the
/// number back. The same of floating-point numbers: only their sign changes.
pub proof fn negation_takes_from_zero(
    kind: IntKind,
    a: int,
    f: FloatKind,
    bits: nat,
    span: SpanModel,
    s: StoreModel,
    n: nat,
)
    requires
        within(kind, a),
        bits < 2 * float_marks(f).0,
    ensures
        ({
            let r = crate::semantics::unary_result(UnaryOp::Neg, number(kind, a), span, s, n);
            &&& bounds(kind).0 < 0 && a != bounds(kind).0 ==> (r matches Ok(v)
                && v.args.len() == 0 && (v.head matches ValueHead::Int(k, m) && k == kind && m + a
                == 0))
            &&& bounds(kind).0 < 0 && a == bounds(kind).0 ==> r == Ok::<
                ValueTerm,
                crate::environment::StopModel,
            >(number(kind, a))
            &&& bounds(kind).0 == 0 ==> r is Err
        }),
        ({
            let r = crate::semantics::unary_result(UnaryOp::Neg, float(f, bits), span, s, n);
            &&& r matches Ok(v) && v.args.len() == 0 && (v.head matches ValueHead::Float(k, m) && k
                == f && (m - bits == float_marks(f).0 || bits - m == float_marks(f).0))
            &&& crate::semantics::unary_result(UnaryOp::Neg, r->Ok_0, span, s, n) == Ok::<
                ValueTerm,
                crate::environment::StopModel,
            >(float(f, bits))
        }),
{
    let least = crate::operators::least(kind);
    let count = crate::operators::greatest(kind) - least + 1;
    if bounds(kind).0 < 0 {
        if a != bounds(kind).0 {
            vstd::arithmetic::div_mod::lemma_small_mod((-a - least) as nat, count as nat);
        } else {
            assert(-a - least == count);
            vstd::arithmetic::div_mod::lemma_mod_self_0(count);
        }
    }
}

/// Not turns each truth value into the other one. Nothing else can be negated so.
pub proof fn not_turns_truth_round(
    b: bool,
    v: ValueTerm,
    span: SpanModel,
    s: StoreModel,
    n: nat,
)
    ensures
        ({
            let r = crate::semantics::unary_result(
                UnaryOp::Not,
                single(ValueHead::Boolean(b)),
                span,
                s,
                n,
            );
            r matches Ok(x) && x.args.len() == 0 && (x.head matches ValueHead::Boolean(c) && c != b)
        }),
        !(v.head is Boolean) ==> crate::semantics::unary_result(
            UnaryOp::Not,
            v,
            span,
            s,
            n,
        ) is Err,
        !(v.head is Int || v.head is Float) ==> crate::semantics::unary_result(
            UnaryOp::Neg,
            v,
            span,
            s,
            n,
        ) is Err,
{
}

/// The integer type that a resolved type is, where it is one.
pub open spec fn kind_of_type(ty: Type) -> Option<IntKind> {
    match ty {
        Type::I8 => Some(IntKind::I8),
        Type::I16 => Some(IntKind::I16),
        Type::I32 => Some(IntKind::I32),
        Type::I64 => Some(IntKind::I64),
        Type::U8 => Some(IntKind::U8),
        Type::U16 => Some(IntKind::U16),
        Type::U32 => Some(IntKind::U32),
        Type::U64 => Some(IntKind::U64),
        _ => None,
    }
}

/// A number that fits an integer type is that number when it is cut to it. Any other one
/// becomes a number of the type that differs from it by whole ranges of the type.
pub proof fn cut_numbers_differ_by_whole_ranges(kind: IntKind, n: int)
    ensures
        ({
            let r = crate::literals::wrapped(kind, n);
            let range = bounds(kind).1 - bounds(kind).0 + 1;
            &&& within(kind, r)
            &&& within(kind, n) ==> r == n
            &&& (n - r) % range == 0
        }),
{
    let least = bounds(kind).0;
    let range = bounds(kind).1 - least + 1;
    let r = crate::literals::wrapped(kind, n);
    vstd::arithmetic::div_mod::lemma_mod_bound(n - least, range);
    vstd::arithmetic::div_mod::lemma_fundamental_div_mod(n - least, range);
    let q = (n - least) / range;
    assert(n - r == range * q);
    vstd::arithmetic::div_mod::lemma_mod_multiples_basic(q, range);
    assert(range * q == q * range) by (nonlinear_arith);
    if within(kind, n) {
        vstd::arithmetic::div_mod::lemma_small_mod((n - least) as nat, range as nat);
    }
}

/// A literal without a suffix has the type that is asked of it, or else the default one;
/// its value is the number that is written, as far as the type can hold it.
pub proof fn literals_are_what_is_written(
    lit: Literal,
    ty: Type,
    n: i64,
    wide: i128,
    kind: IntKind,
    c: char,
    b: bool,
    double: u64,
    single_bits: u32,
)
    ensures
        ({
            let k = match kind_of_type(ty) {
                Some(k) => k,
                None => IntKind::I64,
            };
            within(k, n as int) ==> crate::literals::literal_term(Literal::Int(n), ty) == number(
                k,
                n as int,
            )
        }),
        within(kind, wide as int) ==> crate::literals::literal_term(
            Literal::SizedInt { value: wide, kind },
            ty,
        ) == number(kind, wide as int),
        crate::literals::literal_term(Literal::Char(c), ty) == single(ValueHead::Char(c)),
        crate::literals::literal_term(Literal::Boolean(b), ty) == single(ValueHead::Boolean(b)),
        crate::literals::literal_term(Literal::Unit, ty) == single(ValueHead::Unit),
        lit matches Literal::Str(t) ==> crate::literals::literal_term(lit, ty) == single(
            ValueHead::Str(t@),
        ),
        crate::literals::literal_term(Literal::Float { double, single: single_bits }, ty) == (
        if ty is F32 {
            float(FloatKind::F32, single_bits as nat)
        } else {
            float(FloatKind::F64, double as nat)
        }),
        crate::literals::literal_term(
            Literal::SizedFloat { double, single: single_bits, kind: FloatKind::F32 },
            ty,
        ) == float(FloatKind::F32, single_bits as nat),
        crate::literals::literal_term(
            Literal::SizedFloat { double, single: single_bits, kind: FloatKind::F64 },
            ty,
        ) == float(FloatKind::F64, double as nat),
{
    let k = match kind_of_type(ty) {
        Some(k) => k,
        None => IntKind::I64,
    };
    cut_numbers_differ_by_whole_ranges(k, n as int);
    cut_numbers_differ_by_whole_ranges(kind, wide as int);
}

/// A literal pattern asks for exactly the value that the literal has: an integer without
/// a suffix for one of the default type, and one with a suffix for one of its type.
pub proof fn literal_patterns_ask_for_their_value(
    lit: Literal,
    v: ValueTerm,
)
    requires
        v.args.len() == 0,
        lit is Int || lit is SizedInt || lit is Char || lit is Boolean || lit is Str || lit is Unit,
        lit matches Literal::SizedInt { value, kind } ==> within(kind, value as int),
    ensures
        crate::literals::literal_matches(lit, v) <==> v == crate::literals::literal_term(
            lit,
            Type::I64,
        ),
{
    match lit {
        Literal::Int(n) => {
            cut_numbers_differ_by_whole_ranges(IntKind::I64, n as int);
        },
        Literal::SizedInt { value, kind } => {
            cut_numbers_differ_by_whole_ranges(kind, value as int);
        },
        _ => {},
    }
    assert(v.args =~= Seq::empty());
}

/// A floating-point literal pattern asks for a number that is equal to the literal.
pub proof fn float_patterns_ask_for_equal_numbers(
    double: u64,
    single_bits: u32,
    kind: FloatKind,
    k: FloatKind,
    bits: nat,
    span: SpanModel,
)
    ensures
        crate::literals::literal_matches(
            Literal::Float { double, single: single_bits },
            float(k, bits),
        ) <==> k is F64 && truth(BinOp::Eq, float(k, double as nat), float(k, bits), span) == Some(
            true,
        ),
        crate::literals::literal_matches(
            Literal::SizedFloat { double, single: single_bits, kind },
            float(k, bits),
        ) <==> k == kind && truth(
            BinOp::Eq,
            float(
                k,
                if k is F64 {
                    double as nat
                } else {
                    single_bits as nat
                },
            ),
            float(k, bits),
            span,
        ) == Some(true),
{
}

} // verus!
