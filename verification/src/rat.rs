//! Exact rational values with a fixed-width representation.
//!
//! A `Rat` is a fraction of two `i64` with a positive denominator. The
//! arithmetic used during task evaluation is exact; an operation whose
//! result does not fit the representation, or a division by zero, yields
//! `Value::NonFinite`, which then absorbs every further operation.

use vstd::prelude::*;
use crate::ops::Operator;

verus! {

/// An exact fraction `num / den` with `den > 0`.
#[derive(Clone, Copy, PartialEq, Eq, Structural, Debug)]
pub struct Rat {
    pub num: i64,
    pub den: i64,
}

impl Rat {
    /// Well-formedness: the denominator is positive.
    pub open spec fn wf(self) -> bool {
        self.den > 0
    }
}

/// The result of an arithmetic step: an exact rational, or the absorbing
/// non-finite marker produced by division by zero or representation overflow.
#[derive(Clone, Copy, PartialEq, Eq, Structural, Debug)]
pub enum Value {
    Finite(Rat),
    NonFinite,
}

impl Value {
    pub open spec fn wf(self) -> bool {
        match self {
            Value::Finite(r) => r.wf(),
            Value::NonFinite => true,
        }
    }
}

/// Whether a mathematical integer fits the `i64` representation.
pub open spec fn fits_i64(x: int) -> bool {
    i64::MIN <= x <= i64::MAX
}

/// Exact sum of two fractions, or `NonFinite` when a component of the
/// unreduced result leaves the `i64` range.
pub open spec fn add_spec(a: Rat, b: Rat) -> Value {
    let n = a.num * b.den + b.num * a.den;
    let d = a.den * b.den;
    if fits_i64(n) && fits_i64(d) {
        Value::Finite(Rat { num: n as i64, den: d as i64 })
    } else {
        Value::NonFinite
    }
}

/// Exact difference of two fractions, or `NonFinite` on overflow.
pub open spec fn sub_spec(a: Rat, b: Rat) -> Value {
    let n = a.num * b.den - b.num * a.den;
    let d = a.den * b.den;
    if fits_i64(n) && fits_i64(d) {
        Value::Finite(Rat { num: n as i64, den: d as i64 })
    } else {
        Value::NonFinite
    }
}

/// Exact product of two fractions, or `NonFinite` on overflow.
pub open spec fn mul_spec(a: Rat, b: Rat) -> Value {
    let n = a.num * b.num;
    let d = a.den * b.den;
    if fits_i64(n) && fits_i64(d) {
        Value::Finite(Rat { num: n as i64, den: d as i64 })
    } else {
        Value::NonFinite
    }
}

/// Exact quotient of two fractions. Division by zero and overflow both
/// yield `NonFinite`; the sign is normalized into the numerator.
pub open spec fn div_spec(a: Rat, b: Rat) -> Value {
    if b.num == 0 {
        Value::NonFinite
    } else {
        let n0 = a.num * b.den;
        let d0 = a.den * b.num;
        let n = if d0 < 0 { -n0 } else { n0 };
        let d = if d0 < 0 { -d0 } else { d0 };
        if fits_i64(n) && fits_i64(d) {
            Value::Finite(Rat { num: n as i64, den: d as i64 })
        } else {
            Value::NonFinite
        }
    }
}

/// One reduction step: apply `op` to two values. `NonFinite` absorbs.
pub open spec fn apply_op_spec(op: Operator, a: Value, b: Value) -> Value {
    match (a, b) {
        (Value::Finite(x), Value::Finite(y)) => match op {
            Operator::Addition => add_spec(x, y),
            Operator::Subtraction => sub_spec(x, y),
            Operator::Multiplication => mul_spec(x, y),
            Operator::Division => div_spec(x, y),
        },
        _ => Value::NonFinite,
    }
}

proof fn lemma_prod_bound(x: int, y: int)
    requires
        -0x8000_0000_0000_0000 <= x <= 0x8000_0000_0000_0000,
        -0x8000_0000_0000_0000 <= y <= 0x8000_0000_0000_0000,
    ensures
        -0x4000_0000_0000_0000_0000_0000_0000_0000 <= x * y
            <= 0x4000_0000_0000_0000_0000_0000_0000_0000,
{
    assert(-0x4000_0000_0000_0000_0000_0000_0000_0000 <= x * y
        <= 0x4000_0000_0000_0000_0000_0000_0000_0000) by (nonlinear_arith)
        requires
            -0x8000_0000_0000_0000 <= x <= 0x8000_0000_0000_0000,
            -0x8000_0000_0000_0000 <= y <= 0x8000_0000_0000_0000,
    ;
}

proof fn lemma_prod_den_bound(x: int, y: int)
    requires
        -0x8000_0000_0000_0000 <= x <= 0x7FFF_FFFF_FFFF_FFFF,
        1 <= y <= 0x7FFF_FFFF_FFFF_FFFF,
    ensures
        -0x3FFF_FFFF_FFFF_FFFF_8000_0000_0000_0000 <= x * y
            <= 0x3FFF_FFFF_FFFF_FFFF_8000_0000_0000_0000,
{
    assert(-0x3FFF_FFFF_FFFF_FFFF_8000_0000_0000_0000 <= x * y
        <= 0x3FFF_FFFF_FFFF_FFFF_8000_0000_0000_0000) by (nonlinear_arith)
        requires
            -0x8000_0000_0000_0000 <= x <= 0x7FFF_FFFF_FFFF_FFFF,
            1 <= y <= 0x7FFF_FFFF_FFFF_FFFF,
    ;
}

/// Exact sum of two well-formed fractions.
pub fn add_rat(a: Rat, b: Rat) -> (r: Value)
    requires
        a.wf(),
        b.wf(),
    ensures
        r == add_spec(a, b),
        r.wf(),
{
    proof {
        lemma_prod_den_bound(a.num as int, b.den as int);
        lemma_prod_den_bound(b.num as int, a.den as int);
        lemma_prod_den_bound(a.den as int, b.den as int);
    }
    let n: i128 = (a.num as i128) * (b.den as i128) + (b.num as i128) * (a.den as i128);
    let d: i128 = (a.den as i128) * (b.den as i128);
    if (i64::MIN as i128) <= n && n <= (i64::MAX as i128) && d <= (i64::MAX as i128) {
        proof {
            assert(d >= 1) by (nonlinear_arith)
                requires
                    d == (a.den as int) * (b.den as int),
                    a.den >= 1,
                    b.den >= 1,
            ;
        }
        Value::Finite(Rat { num: n as i64, den: d as i64 })
    } else {
        Value::NonFinite
    }
}

/// Exact difference of two well-formed fractions.
pub fn sub_rat(a: Rat, b: Rat) -> (r: Value)
    requires
        a.wf(),
        b.wf(),
    ensures
        r == sub_spec(a, b),
        r.wf(),
{
    proof {
        lemma_prod_den_bound(a.num as int, b.den as int);
        lemma_prod_den_bound(b.num as int, a.den as int);
        lemma_prod_den_bound(a.den as int, b.den as int);
    }
    let n: i128 = (a.num as i128) * (b.den as i128) - (b.num as i128) * (a.den as i128);
    let d: i128 = (a.den as i128) * (b.den as i128);
    if (i64::MIN as i128) <= n && n <= (i64::MAX as i128) && d <= (i64::MAX as i128) {
        proof {
            assert(d >= 1) by (nonlinear_arith)
                requires
                    d == (a.den as int) * (b.den as int),
                    a.den >= 1,
                    b.den >= 1,
            ;
        }
        Value::Finite(Rat { num: n as i64, den: d as i64 })
    } else {
        Value::NonFinite
    }
}

/// Exact product of two well-formed fractions.
pub fn mul_rat(a: Rat, b: Rat) -> (r: Value)
    requires
        a.wf(),
        b.wf(),
    ensures
        r == mul_spec(a, b),
        r.wf(),
{
    proof {
        lemma_prod_bound(a.num as int, b.num as int);
        lemma_prod_bound(a.den as int, b.den as int);
    }
    let n: i128 = (a.num as i128) * (b.num as i128);
    let d: i128 = (a.den as i128) * (b.den as i128);
    if (i64::MIN as i128) <= n && n <= (i64::MAX as i128) && d <= (i64::MAX as i128) {
        proof {
            assert(d >= 1) by (nonlinear_arith)
                requires
                    d == (a.den as int) * (b.den as int),
                    a.den >= 1,
                    b.den >= 1,
            ;
        }
        Value::Finite(Rat { num: n as i64, den: d as i64 })
    } else {
        Value::NonFinite
    }
}

/// Exact quotient of two well-formed fractions; `NonFinite` when the
/// divisor is zero.
pub fn div_rat(a: Rat, b: Rat) -> (r: Value)
    requires
        a.wf(),
        b.wf(),
    ensures
        r == div_spec(a, b),
        r.wf(),
{
    if b.num == 0 {
        return Value::NonFinite;
    }
    proof {
        lemma_prod_bound(a.num as int, b.den as int);
        lemma_prod_bound(a.den as int, b.num as int);
    }
    let n0: i128 = (a.num as i128) * (b.den as i128);
    let d0: i128 = (a.den as i128) * (b.num as i128);
    let n: i128 = if d0 < 0 { -n0 } else { n0 };
    let d: i128 = if d0 < 0 { -d0 } else { d0 };
    if (i64::MIN as i128) <= n && n <= (i64::MAX as i128) && d <= (i64::MAX as i128) {
        proof {
            assert(d != 0) by (nonlinear_arith)
                requires
                    d0 == (a.den as int) * (b.num as int),
                    a.den >= 1,
                    b.num != 0,
                    d == (if d0 < 0 { -(d0 as int) } else { d0 as int }),
            ;
        }
        Value::Finite(Rat { num: n as i64, den: d as i64 })
    } else {
        Value::NonFinite
    }
}

/// One reduction step on values; `NonFinite` absorbs.
pub fn apply_op(op: Operator, a: Value, b: Value) -> (r: Value)
    requires
        a.wf(),
        b.wf(),
    ensures
        r == apply_op_spec(op, a, b),
        r.wf(),
{
    match (a, b) {
        (Value::Finite(x), Value::Finite(y)) => match op {
            Operator::Addition => add_rat(x, y),
            Operator::Subtraction => sub_rat(x, y),
            Operator::Multiplication => mul_rat(x, y),
            Operator::Division => div_rat(x, y),
        },
        _ => Value::NonFinite,
    }
}

} // verus!
