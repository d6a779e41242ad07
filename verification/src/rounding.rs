//! Rounding to a fixed number of decimal digits, half away from zero.
//!
//! A value is rounded by scaling it with a power of ten, moving it to the
//! nearest integer — with exact halves moving away from zero — and keeping
//! that integer over the same power of ten as the denominator. The rule is
//! independent of any built-in rounding primitive.

use vstd::prelude::*;
use vstd::arithmetic::div_mod::{
    lemma_fundamental_div_mod, lemma_fundamental_div_mod_converse_div,
    lemma_mod_division_less_than_divisor,
};
use crate::rat::{Rat, Value, fits_i64};

verus! {

/// Ten to the power `d`.
pub open spec fn pow10_spec(d: nat) -> nat
    decreases d,
{
    if d == 0 {
        1
    } else {
        10 * pow10_spec((d - 1) as nat)
    }
}

pub proof fn lemma_pow10_pos(d: nat)
    ensures
        pow10_spec(d) >= 1,
    decreases d,
{
    if d > 0 {
        lemma_pow10_pos((d - 1) as nat);
    }
}

pub proof fn lemma_pow10_mono(a: nat, b: nat)
    requires
        a <= b,
    ensures
        pow10_spec(a) <= pow10_spec(b),
    decreases b,
{
    if a < b {
        lemma_pow10_mono(a, (b - 1) as nat);
    }
}

/// Largest scale the `i64`-backed representation supports: `10^18` still
/// fits, `10^19` does not.
pub proof fn lemma_pow10_18(d: nat)
    requires
        d <= 18,
    ensures
        pow10_spec(d) <= 1_000_000_000_000_000_000,
{
    lemma_pow10_mono(d, 18);
    reveal_with_fuel(pow10_spec, 20);
    assert(pow10_spec(18) == 1_000_000_000_000_000_000);
}

/// Ten to the power `points`, as an `i64`.
pub fn pow10(points: u8) -> (p: i64)
    requires
        points <= 18,
    ensures
        p == pow10_spec(points as nat),
        1 <= p <= 1_000_000_000_000_000_000,
    decreases points,
{
    proof {
        lemma_pow10_pos(points as nat);
        lemma_pow10_18(points as nat);
    }
    if points == 0 {
        1
    } else {
        proof {
            lemma_pow10_pos((points - 1) as nat);
            lemma_pow10_18((points - 1) as nat);
            lemma_pow10_mono((points - 1) as nat, 17);
            reveal_with_fuel(pow10_spec, 20);
            assert(pow10_spec(17) == 100_000_000_000_000_000);
        }
        10 * pow10(points - 1)
    }
}

/// The integer nearest the rational `t / q` (with `q > 0`), an exact half
/// moving away from zero.
pub open spec fn round_half_spec(t: int, q: int) -> int {
    if t >= 0 {
        (2 * t + q) / (2 * q)
    } else {
        -((2 * (-t) + q) / (2 * q))
    }
}

/// The rounded value is within half of `t / q`: the scaled distance
/// `2 * (t - k * q)` stays within `[-q, q]`, and the endpoint that an exact
/// half reaches is the one whose integer is larger in magnitude.
pub proof fn lemma_round_half_bracket(t: int, q: int)
    requires
        q > 0,
    ensures
        t >= 0 ==> -q <= 2 * (t - round_half_spec(t, q) * q) < q,
        t < 0 ==> -q < 2 * (t - round_half_spec(t, q) * q) <= q,
{
    if t >= 0 {
        let m = 2 * t + q;
        let dd = 2 * q;
        let k = m / dd;
        lemma_fundamental_div_mod(m, dd);
        lemma_mod_division_less_than_divisor(m, dd);
        assert(2 * (t - k * q) == m % dd - q) by (nonlinear_arith)
            requires
                m == 2 * t + q,
                dd == 2 * q,
                m == dd * k + m % dd,
        ;
    } else {
        let u = -t;
        let m = 2 * u + q;
        let dd = 2 * q;
        let k = m / dd;
        lemma_fundamental_div_mod(m, dd);
        lemma_mod_division_less_than_divisor(m, dd);
        assert(2 * (t - (-k) * q) == q - m % dd) by (nonlinear_arith)
            requires
                u == -t,
                m == 2 * u + q,
                dd == 2 * q,
                m == dd * k + m % dd,
        ;
    }
}

/// A value that is already a whole multiple of `q` rounds to itself.
pub proof fn lemma_round_half_exact(k: int, q: int)
    requires
        q > 0,
    ensures
        round_half_spec(k * q, q) == k,
{
    if k >= 0 {
        assert(2 * (k * q) + q == k * (2 * q) + q) by (nonlinear_arith);
        lemma_fundamental_div_mod_converse_div(2 * (k * q) + q, 2 * q, k, q);
    } else {
        assert(k * q < 0) by (nonlinear_arith)
            requires
                k < 0,
                q > 0,
        ;
        assert(2 * (-(k * q)) + q == (-k) * (2 * q) + q) by (nonlinear_arith);
        lemma_fundamental_div_mod_converse_div(2 * (-(k * q)) + q, 2 * q, -k, q);
    }
}

/// An exact half rounds away from zero, on both sides of zero.
pub proof fn lemma_round_half_tie_away(m: int)
    requires
        m >= 0,
    ensures
        round_half_spec(2 * m + 1, 2) == m + 1,
        round_half_spec(-(2 * m + 1), 2) == -(m + 1),
{
    assert(2 * (2 * m + 1) + 2 == (m + 1) * 4) by (nonlinear_arith);
    lemma_fundamental_div_mod_converse_div(2 * (2 * m + 1) + 2, 4, m + 1, 0);
}

/// `round_half_spec`, executed on magnitudes so that the machine division
/// (which truncates toward zero) and the mathematical one (which floors)
/// agree.
pub fn round_half(t: i128, q: i128) -> (k: i128)
    requires
        1 <= q <= 0x2000_0000_0000_0000_0000_0000_0000_0000,
        -0x2000_0000_0000_0000_0000_0000_0000_0000 <= t
            <= 0x2000_0000_0000_0000_0000_0000_0000_0000,
    ensures
        k == round_half_spec(t as int, q as int),
{
    let neg = t < 0;
    let a: u128 = if neg {
        (-t) as u128
    } else {
        t as u128
    };
    let kq: u128 = (2 * a + (q as u128)) / (2 * (q as u128));
    proof {
        let m = 2 * (a as int) + q;
        let dd = 2 * (q as int);
        lemma_fundamental_div_mod(m, dd);
        lemma_mod_division_less_than_divisor(m, dd);
        assert((m / dd) * dd <= m) by (nonlinear_arith)
            requires
                m == dd * (m / dd) + m % dd,
                m % dd >= 0,
        ;
        assert(m / dd <= m) by (nonlinear_arith)
            requires
                (m / dd) * dd <= m,
                dd >= 2,
                m / dd >= 0,
        ;
    }
    let k = kq as i128;
    if neg {
        -k
    } else {
        k
    }
}

/// Round a fraction to `d` decimal digits, half away from zero. The result
/// keeps `10^d` as its denominator; it is `NonFinite` when the rounded
/// numerator leaves the `i64` range.
pub open spec fn round_spec(v: Rat, d: nat) -> Value {
    let p = pow10_spec(d) as int;
    let k = round_half_spec(v.num * p, v.den as int);
    if fits_i64(k) && fits_i64(p) {
        Value::Finite(Rat { num: k as i64, den: p as i64 })
    } else {
        Value::NonFinite
    }
}

/// Round a well-formed fraction to `points` decimal digits, half away from
/// zero.
pub fn round(v: Rat, points: u8) -> (r: Value)
    requires
        v.wf(),
        points <= 18,
    ensures
        r == round_spec(v, points as nat),
        r.wf(),
{
    let p = pow10(points);
    proof {
        assert(-0x2000_0000_0000_0000_0000_0000_0000_0000 <= (v.num as int) * (p as int)
            <= 0x2000_0000_0000_0000_0000_0000_0000_0000) by (nonlinear_arith)
            requires
                -0x8000_0000_0000_0000 <= v.num <= 0x7FFF_FFFF_FFFF_FFFF,
                1 <= p <= 1_000_000_000_000_000_000,
        ;
    }
    let t: i128 = (v.num as i128) * (p as i128);
    let k = round_half(t, v.den as i128);
    if (i64::MIN as i128) <= k && k <= (i64::MAX as i128) {
        Value::Finite(Rat { num: k as i64, den: p })
    } else {
        Value::NonFinite
    }
}

/// Rounding lifted to values: `NonFinite` stays `NonFinite`.
pub open spec fn round_value_spec(v: Value, d: nat) -> Value {
    match v {
        Value::Finite(r) => round_spec(r, d),
        Value::NonFinite => Value::NonFinite,
    }
}

pub fn round_value(v: Value, points: u8) -> (r: Value)
    requires
        v.wf(),
        points <= 18,
    ensures
        r == round_value_spec(v, points as nat),
        r.wf(),
{
    match v {
        Value::Finite(x) => round(x, points),
        Value::NonFinite => Value::NonFinite,
    }
}

/// A tie at the rounding precision moves away from zero: the value
/// `(2m+1) / (2 * 10^d)` lies exactly halfway between `m` and `m+1` tenths
/// to the `d`, and rounds to the neighbour of larger magnitude, on both
/// sides of zero.
pub proof fn lemma_round_tie_away(m: int, d: nat)
    requires
        0 <= m,
        2 * m + 1 <= i64::MAX,
        d <= 18,
    ensures
        ({
            let p = pow10_spec(d) as int;
            round_spec(Rat { num: (2 * m + 1) as i64, den: (2 * p) as i64 }, d) == Value::Finite(
                Rat { num: (m + 1) as i64, den: p as i64 },
            )
        }),
        ({
            let p = pow10_spec(d) as int;
            round_spec(Rat { num: (-(2 * m + 1)) as i64, den: (2 * p) as i64 }, d)
                == Value::Finite(Rat { num: (-(m + 1)) as i64, den: p as i64 })
        }),
{
    lemma_pow10_pos(d);
    lemma_pow10_18(d);
    let p = pow10_spec(d) as int;
    let t = (2 * m + 1) * p;
    let q = 2 * p;
    assert(t >= 0) by (nonlinear_arith)
        requires
            m >= 0,
            p >= 1,
            t == (2 * m + 1) * p,
    ;
    assert(2 * t + q == (m + 1) * (2 * q) + 0) by (nonlinear_arith)
        requires
            t == (2 * m + 1) * p,
            q == 2 * p,
    ;
    lemma_fundamental_div_mod_converse_div(2 * t + q, 2 * q, m + 1, 0);
    assert(round_half_spec(t, q) == m + 1);
    assert(t >= 1) by (nonlinear_arith)
        requires
            m >= 0,
            p >= 1,
            t == (2 * m + 1) * p,
    ;
    assert((-(2 * m + 1)) * p == -t) by (nonlinear_arith)
        requires
            t == (2 * m + 1) * p,
    ;
    assert(round_half_spec(-t, q) == -(m + 1));
}

/// Rounding is idempotent: rounding an already-rounded value at the same
/// number of digits changes nothing.
pub proof fn lemma_round_idempotent(v: Rat, d: nat)
    requires
        v.wf(),
        d <= 18,
    ensures
        round_value_spec(round_spec(v, d), d) == round_spec(v, d),
{
    lemma_pow10_pos(d);
    lemma_pow10_18(d);
    let p = pow10_spec(d) as int;
    let k = round_half_spec(v.num * p, v.den as int);
    if fits_i64(k) && fits_i64(p) {
        let r = Rat { num: k as i64, den: p as i64 };
        lemma_round_half_exact(k, p);
        assert(round_spec(r, d) == Value::Finite(r));
    }
}

} // verus!
