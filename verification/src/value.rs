//! The runtime numeric model: exact rationals.
//!
//! Every runtime value is a fraction of two 128-bit integers with a
//! positive denominator, so division never truncates and decimal
//! literals are represented exactly.  Every operation is checked: a
//! result that cannot be represented yields `NumericOverflow` instead of
//! wrapping, and dividing by zero yields `DivisionByZero`.  Equality and
//! ordering compare cross products; the logical operators test against
//! zero and always evaluate both operands; the bitwise operators
//! truncate their operands toward zero to 64-bit integers first and
//! promote the result back to a fraction.

use vstd::prelude::*;
use crate::ast::{ASTBinaryOperatorKind, ASTUnaryOperatorKind};

verus! {

/// A runtime number: the fraction `num / den`, with `den > 0`.
#[derive(Debug, Clone, Copy, PartialEq, Eq, Structural)]
pub struct Value {
    pub num: i128,
    pub den: i128,
}

/// The ways evaluation can fail.
#[derive(Debug, Clone, Copy, PartialEq, Eq, Structural)]
pub enum EvalError {
    DivisionByZero,
    NumericOverflow,
    UndefinedVariable,
    UndefinedFunction,
    ArityMismatch,
    MissingValue,
    RecursionLimit,
}

/// A well-formed value has a positive denominator.
pub open spec fn value_wf(v: Value) -> bool {
    v.den > 0
}

/// Whether a mathematical integer fits in 128 bits.
pub open spec fn in_i128(x: int) -> bool {
    i128::MIN <= x <= i128::MAX
}

/// The whole number `i` as a value.
pub open spec fn spec_int_value(i: i64) -> Value {
    Value { num: i as i128, den: 1 }
}

impl Value {
    /// The whole number `i`.
    pub fn from_integer(i: i64) -> (r: Value)
        ensures
            r == spec_int_value(i),
            value_wf(r),
    {
        Value { num: i as i128, den: 1 }
    }

    /// Whether this value is zero.
    pub fn is_zero(&self) -> (r: bool)
        requires
            value_wf(*self),
        ensures
            r == (self.num == 0),
    {
        self.num == 0
    }
}

/// Truncation toward zero of `num / den` for `den > 0`, as machine
/// division gives it.
pub open spec fn spec_trunc(v: Value) -> int {
    let x = v.num as int;
    let d = v.den as int;
    if x == 0 {
        0
    } else if x > 0 {
        x / d
    } else {
        ((x * -1) / d) * -1
    }
}

/// A boolean as the value one or zero.
pub open spec fn spec_bool_value(b: bool) -> Value {
    if b {
        Value { num: 1, den: 1 }
    } else {
        Value { num: 0, den: 1 }
    }
}

fn bool_value(b: bool) -> (r: Value)
    ensures
        r == spec_bool_value(b),
        value_wf(r),
{
    if b {
        Value { num: 1, den: 1 }
    } else {
        Value { num: 0, den: 1 }
    }
}

/// Addition: `(a.num * b.den + b.num * a.den) / (a.den * b.den)`,
/// overflow-checked.
pub open spec fn spec_add_values(a: Value, b: Value) -> Result<Value, EvalError> {
    let n1 = a.num * b.den;
    let n2 = b.num * a.den;
    let d = a.den * b.den;
    if in_i128(n1) && in_i128(n2) && in_i128(n1 + n2) && in_i128(d) {
        Ok(Value { num: (n1 + n2) as i128, den: d as i128 })
    } else {
        Err(EvalError::NumericOverflow)
    }
}

/// Subtraction, as addition with the negated numerator product.
pub open spec fn spec_sub_values(a: Value, b: Value) -> Result<Value, EvalError> {
    let n1 = a.num * b.den;
    let n2 = b.num * a.den;
    let d = a.den * b.den;
    if in_i128(n1) && in_i128(n2) && in_i128(n1 - n2) && in_i128(d) {
        Ok(Value { num: (n1 - n2) as i128, den: d as i128 })
    } else {
        Err(EvalError::NumericOverflow)
    }
}

/// Multiplication of the numerators and of the denominators.
pub open spec fn spec_mul_values(a: Value, b: Value) -> Result<Value, EvalError> {
    let n = a.num * b.num;
    let d = a.den * b.den;
    if in_i128(n) && in_i128(d) {
        Ok(Value { num: n as i128, den: d as i128 })
    } else {
        Err(EvalError::NumericOverflow)
    }
}

/// Exact division: multiplication by the flipped divisor, with the sign
/// moved into the numerator.
pub open spec fn spec_div_values(a: Value, b: Value) -> Result<Value, EvalError> {
    if b.num == 0 {
        Err(EvalError::DivisionByZero)
    } else {
        let n = a.num * b.den;
        let d = a.den * b.num;
        if in_i128(n) && in_i128(d) {
            if d < 0 {
                if in_i128(-n) && in_i128(-d) {
                    Ok(Value { num: (-n) as i128, den: (-d) as i128 })
                } else {
                    Err(EvalError::NumericOverflow)
                }
            } else {
                Ok(Value { num: n as i128, den: d as i128 })
            }
        } else {
            Err(EvalError::NumericOverflow)
        }
    }
}

/// Comparison by cross products; `den > 0` on both sides keeps the
/// direction.
pub open spec fn spec_cmp_lt(a: Value, b: Value) -> Result<bool, EvalError> {
    let n1 = a.num * b.den;
    let n2 = b.num * a.den;
    if in_i128(n1) && in_i128(n2) {
        Ok(n1 < n2)
    } else {
        Err(EvalError::NumericOverflow)
    }
}

/// Equality by cross products.
pub open spec fn spec_cmp_eq(a: Value, b: Value) -> Result<bool, EvalError> {
    let n1 = a.num * b.den;
    let n2 = b.num * a.den;
    if in_i128(n1) && in_i128(n2) {
        Ok(n1 == n2)
    } else {
        Err(EvalError::NumericOverflow)
    }
}

/// Truncation to a 64-bit integer for the bitwise operators.
pub open spec fn spec_trunc64(v: Value) -> Result<i64, EvalError> {
    let t = spec_trunc(v);
    if i64::MIN <= t <= i64::MAX {
        Ok(t as i64)
    } else {
        Err(EvalError::NumericOverflow)
    }
}

/// What a binary operator yields on two values.
pub open spec fn spec_apply_binary(
    op: ASTBinaryOperatorKind,
    a: Value,
    b: Value,
) -> Result<Value, EvalError> {
    match op {
        ASTBinaryOperatorKind::Plus => spec_add_values(a, b),
        ASTBinaryOperatorKind::Minus => spec_sub_values(a, b),
        ASTBinaryOperatorKind::Multiply => spec_mul_values(a, b),
        ASTBinaryOperatorKind::Divide => spec_div_values(a, b),
        ASTBinaryOperatorKind::EqualTo => match spec_cmp_eq(a, b) {
            Ok(x) => Ok(spec_bool_value(x)),
            Err(e) => Err(e),
        },
        ASTBinaryOperatorKind::NotEqualTo => match spec_cmp_eq(a, b) {
            Ok(x) => Ok(spec_bool_value(!x)),
            Err(e) => Err(e),
        },
        ASTBinaryOperatorKind::LogicAND => Ok(spec_bool_value(a.num != 0 && b.num != 0)),
        ASTBinaryOperatorKind::LogicOR => Ok(spec_bool_value(a.num != 0 || b.num != 0)),
        ASTBinaryOperatorKind::GreaterThan => match spec_cmp_lt(b, a) {
            Ok(x) => Ok(spec_bool_value(x)),
            Err(e) => Err(e),
        },
        ASTBinaryOperatorKind::GreaterThanOrEqual => match spec_cmp_lt(a, b) {
            Ok(x) => Ok(spec_bool_value(!x)),
            Err(e) => Err(e),
        },
        ASTBinaryOperatorKind::LessThan => match spec_cmp_lt(a, b) {
            Ok(x) => Ok(spec_bool_value(x)),
            Err(e) => Err(e),
        },
        ASTBinaryOperatorKind::LessThanOrEqual => match spec_cmp_lt(b, a) {
            Ok(x) => Ok(spec_bool_value(!x)),
            Err(e) => Err(e),
        },
        ASTBinaryOperatorKind::BitwiseOR => match (spec_trunc64(a), spec_trunc64(b)) {
            (Ok(x), Ok(y)) => Ok(Value { num: (x | y) as i128, den: 1 }),
            (Err(e), _) => Err(e),
            (_, Err(e)) => Err(e),
        },
        ASTBinaryOperatorKind::BitwiseAND => match (spec_trunc64(a), spec_trunc64(b)) {
            (Ok(x), Ok(y)) => Ok(Value { num: (x & y) as i128, den: 1 }),
            (Err(e), _) => Err(e),
            (_, Err(e)) => Err(e),
        },
        ASTBinaryOperatorKind::BitwiseXOR => match (spec_trunc64(a), spec_trunc64(b)) {
            (Ok(x), Ok(y)) => Ok(Value { num: (x ^ y) as i128, den: 1 }),
            (Err(e), _) => Err(e),
            (_, Err(e)) => Err(e),
        },
    }
}

/// What a unary operator yields on a value.
pub open spec fn spec_apply_unary(op: ASTUnaryOperatorKind, a: Value) -> Result<Value, EvalError> {
    match op {
        ASTUnaryOperatorKind::Minus => {
            if in_i128(-(a.num as int)) {
                Ok(Value { num: (-(a.num as int)) as i128, den: a.den })
            } else {
                Err(EvalError::NumericOverflow)
            }
        },
        ASTUnaryOperatorKind::BitwiseNOT => match spec_trunc64(a) {
            Ok(t) => Ok(Value { num: (-(t as int) - 1) as i128, den: 1 }),
            Err(e) => Err(e),
        },
        ASTUnaryOperatorKind::LogicNot => Ok(spec_bool_value(a.num == 0)),
    }
}

/// Truncates toward zero; total because the denominator is positive.
fn trunc_exec(v: Value) -> (r: i128)
    requires
        value_wf(v),
    ensures
        r == spec_trunc(v),
{
    match v.num.checked_div(v.den) {
        Some(q) => q,
        None => 0,
    }
}

fn trunc64_exec(v: Value) -> (r: Result<i64, EvalError>)
    requires
        value_wf(v),
    ensures
        r == spec_trunc64(v),
{
    let t = trunc_exec(v);
    if t >= i64::MIN as i128 && t <= i64::MAX as i128 {
        Ok(t as i64)
    } else {
        Err(EvalError::NumericOverflow)
    }
}

/// Applies a binary operator, exactly as `spec_apply_binary` gives it.
pub fn apply_binary(op: ASTBinaryOperatorKind, a: Value, b: Value) -> (r: Result<Value, EvalError>)
    requires
        value_wf(a),
        value_wf(b),
    ensures
        r == spec_apply_binary(op, a, b),
        r matches Ok(v) ==> value_wf(v),
    {
    proof {
        assert(a.den * b.den > 0) by (nonlinear_arith)
            requires
                a.den > 0,
                b.den > 0,
        ;
    }
    match op {
        ASTBinaryOperatorKind::Plus => {
            match (a.num.checked_mul(b.den), b.num.checked_mul(a.den), a.den.checked_mul(b.den)) {
                (Some(n1), Some(n2), Some(d)) => match n1.checked_add(n2) {
                    Some(n) => Ok(Value { num: n, den: d }),
                    None => Err(EvalError::NumericOverflow),
                },
                _ => Err(EvalError::NumericOverflow),
            }
        },
        ASTBinaryOperatorKind::Minus => {
            match (a.num.checked_mul(b.den), b.num.checked_mul(a.den), a.den.checked_mul(b.den)) {
                (Some(n1), Some(n2), Some(d)) => match n1.checked_sub(n2) {
                    Some(n) => Ok(Value { num: n, den: d }),
                    None => Err(EvalError::NumericOverflow),
                },
                _ => Err(EvalError::NumericOverflow),
            }
        },
        ASTBinaryOperatorKind::Multiply => {
            match (a.num.checked_mul(b.num), a.den.checked_mul(b.den)) {
                (Some(n), Some(d)) => Ok(Value { num: n, den: d }),
                _ => Err(EvalError::NumericOverflow),
            }
        },
        ASTBinaryOperatorKind::Divide => {
            if b.num == 0 {
                Err(EvalError::DivisionByZero)
            } else {
                match (a.num.checked_mul(b.den), a.den.checked_mul(b.num)) {
                    (Some(n), Some(d)) => {
                        if d < 0 {
                            match ((0i128).checked_sub(n), (0i128).checked_sub(d)) {
                                (Some(nn), Some(nd)) => {
                                    proof {
                                        assert(a.den * b.num < 0 ==> b.num < 0)
                                            by (nonlinear_arith)
                                            requires
                                                a.den > 0,
                                        ;
                                    }
                                    Ok(Value { num: nn, den: nd })
                                },
                                _ => Err(EvalError::NumericOverflow),
                            }
                        } else {
                            proof {
                                assert(a.den * b.num != 0) by (nonlinear_arith)
                                    requires
                                        a.den > 0,
                                        b.num != 0,
                                ;
                            }
                            Ok(Value { num: n, den: d })
                        }
                    },
                    _ => Err(EvalError::NumericOverflow),
                }
            }
        },
        ASTBinaryOperatorKind::EqualTo => {
            match (a.num.checked_mul(b.den), b.num.checked_mul(a.den)) {
                (Some(n1), Some(n2)) => Ok(bool_value(n1 == n2)),
                _ => Err(EvalError::NumericOverflow),
            }
        },
        ASTBinaryOperatorKind::NotEqualTo => {
            match (a.num.checked_mul(b.den), b.num.checked_mul(a.den)) {
                (Some(n1), Some(n2)) => Ok(bool_value(!(n1 == n2))),
                _ => Err(EvalError::NumericOverflow),
            }
        },
        ASTBinaryOperatorKind::LogicAND => Ok(bool_value(a.num != 0 && b.num != 0)),
        ASTBinaryOperatorKind::LogicOR => Ok(bool_value(a.num != 0 || b.num != 0)),
        ASTBinaryOperatorKind::GreaterThan => {
            match (b.num.checked_mul(a.den), a.num.checked_mul(b.den)) {
                (Some(n1), Some(n2)) => Ok(bool_value(n1 < n2)),
                _ => Err(EvalError::NumericOverflow),
            }
        },
        ASTBinaryOperatorKind::GreaterThanOrEqual => {
            match (a.num.checked_mul(b.den), b.num.checked_mul(a.den)) {
                (Some(n1), Some(n2)) => Ok(bool_value(!(n1 < n2))),
                _ => Err(EvalError::NumericOverflow),
            }
        },
        ASTBinaryOperatorKind::LessThan => {
            match (a.num.checked_mul(b.den), b.num.checked_mul(a.den)) {
                (Some(n1), Some(n2)) => Ok(bool_value(n1 < n2)),
                _ => Err(EvalError::NumericOverflow),
            }
        },
        ASTBinaryOperatorKind::LessThanOrEqual => {
            match (b.num.checked_mul(a.den), a.num.checked_mul(b.den)) {
                (Some(n1), Some(n2)) => Ok(bool_value(!(n1 < n2))),
                _ => Err(EvalError::NumericOverflow),
            }
        },
        ASTBinaryOperatorKind::BitwiseOR => {
            match (trunc64_exec(a), trunc64_exec(b)) {
                (Ok(x), Ok(y)) => Ok(Value { num: (x | y) as i128, den: 1 }),
                (Err(e), _) => Err(e),
                (_, Err(e)) => Err(e),
            }
        },
        ASTBinaryOperatorKind::BitwiseAND => {
            match (trunc64_exec(a), trunc64_exec(b)) {
                (Ok(x), Ok(y)) => Ok(Value { num: (x & y) as i128, den: 1 }),
                (Err(e), _) => Err(e),
                (_, Err(e)) => Err(e),
            }
        },
        ASTBinaryOperatorKind::BitwiseXOR => {
            match (trunc64_exec(a), trunc64_exec(b)) {
                (Ok(x), Ok(y)) => Ok(Value { num: (x ^ y) as i128, den: 1 }),
                (Err(e), _) => Err(e),
                (_, Err(e)) => Err(e),
            }
        },
    }
}

/// Applies a unary operator, exactly as `spec_apply_unary` gives it.
pub fn apply_unary(op: ASTUnaryOperatorKind, a: Value) -> (r: Result<Value, EvalError>)
    requires
        value_wf(a),
    ensures
        r == spec_apply_unary(op, a),
        r matches Ok(v) ==> value_wf(v),
{
    match op {
        ASTUnaryOperatorKind::Minus => {
            match (0i128).checked_sub(a.num) {
                Some(n) => Ok(Value { num: n, den: a.den }),
                None => Err(EvalError::NumericOverflow),
            }
        },
        ASTUnaryOperatorKind::BitwiseNOT => {
            match trunc64_exec(a) {
                Ok(t) => {
                    let wide: i128 = t as i128;
                    Ok(Value { num: -wide - 1, den: 1 })
                },
                Err(e) => Err(e),
            }
        },
        ASTUnaryOperatorKind::LogicNot => Ok(bool_value(a.num == 0)),
    }
}

/// The value of a floating literal `whole + frac / denom`; the sign is
/// normalised into the numerator, and a denominator that wrapped to zero
/// during lexing is an overflow.
pub open spec fn spec_float_value(whole: i64, frac: i64, denom: i64) -> Result<Value, EvalError> {
    if denom == 0 {
        Err(EvalError::NumericOverflow)
    } else {
        let n = whole * denom + frac;
        if denom < 0 {
            Ok(Value { num: (-n) as i128, den: (-(denom as int)) as i128 })
        } else {
            Ok(Value { num: n as i128, den: denom as i128 })
        }
    }
}

/// Builds the value of a floating literal, exactly as
/// `spec_float_value` gives it.
pub fn float_value(whole: i64, frac: i64, denom: i64) -> (r: Result<Value, EvalError>)
    ensures
        r == spec_float_value(whole, frac, denom),
        r matches Ok(v) ==> value_wf(v),
{
    if denom == 0 {
        Err(EvalError::NumericOverflow)
    } else {
        let w: i128 = whole as i128;
        let d: i128 = denom as i128;
        let f: i128 = frac as i128;
        proof {
            assert(in_i128(whole * denom) && in_i128(whole * denom + frac)
                && in_i128(-(whole * denom + frac))) by (nonlinear_arith)
                requires
                    i64::MIN <= whole <= i64::MAX,
                    i64::MIN <= denom <= i64::MAX,
                    i64::MIN <= frac <= i64::MAX,
            ;
        }
        let n = w * d + f;
        if denom < 0 {
            Ok(Value { num: -n, den: -d })
        } else {
            Ok(Value { num: n, den: d })
        }
    }
}

} // verus!
