//! Division that cuts off toward zero, and what relates it to division that
//! rounds down.

use vstd::prelude::*;
use vstd::arithmetic::div_mod::{
    lemma_add_mod_noop, lemma_fundamental_div_mod, lemma_fundamental_div_mod_converse,
    lemma_mod_bound,
};

verus! {

/// The quotient of `a` by a positive `b`, with its fraction cut off: rounded
/// toward zero, not down.
pub open spec fn truncated_quotient(a: int, b: int) -> int
    recommends
        b > 0,
{
    if a >= 0 {
        a / b
    } else {
        -((-a) / b)
    }
}

/// The `i64` nearest to `x`.
pub open spec fn saturated_i64(x: int) -> int {
    if x > i64::MAX {
        i64::MAX as int
    } else if x < i64::MIN {
        i64::MIN as int
    } else {
        x
    }
}

/// The remainder of `a` by a positive `m` that is never negative.
pub fn floor_mod(a: i128, m: i128) -> (r: i128)
    requires
        m > 0,
    ensures
        r == a % m,
        0 <= r < m,
{
    let t = a % m;
    proof {
        lemma_mod_bound(a as int, m as int);
        if a < 0 {
            let k = (-a) / (m as int);
            let r0 = (-a) % (m as int);
            lemma_fundamental_div_mod(-a, m as int);
            lemma_mod_bound(-a, m as int);
            if r0 == 0 {
                assert(a == (-k) * m + 0) by (nonlinear_arith)
                    requires
                        -a == m * k + r0,
                        r0 == 0,
                ;
                lemma_fundamental_div_mod_converse(a as int, m as int, -k, 0);
            } else {
                assert(a == (-k - 1) * m + (m - r0)) by (nonlinear_arith)
                    requires
                        -a == m * k + r0,
                ;
                lemma_fundamental_div_mod_converse(a as int, m as int, -k - 1, m - r0);
            }
        }
    }
    if t < 0 {
        t + m
    } else {
        t
    }
}

/// A whole multiple of `b` has the multiplier as its truncated quotient by `b`.
pub proof fn lemma_truncated_quotient_of_multiple(n: int, b: int)
    requires
        b > 0,
    ensures
        truncated_quotient(n * b, b) == n,
{
    if n >= 0 {
        assert(n * b >= 0) by (nonlinear_arith)
            requires
                n >= 0,
                b > 0,
        ;
        lemma_fundamental_div_mod_converse(n * b, b, n, 0);
    } else {
        assert(n * b < 0) by (nonlinear_arith)
            requires
                n < 0,
                b > 0,
        ;
        assert(-(n * b) == (-n) * b) by (nonlinear_arith);
        lemma_fundamental_div_mod_converse(-(n * b), b, -n, 0);
    }
}

/// From zero on, adding the divisor adds one to the truncated quotient.
pub proof fn lemma_truncated_quotient_step(x: int, b: int)
    requires
        b > 0,
        x >= 0,
    ensures
        truncated_quotient(x + b, b) == truncated_quotient(x, b) + 1,
{
    let q = x / b;
    let r = x % b;
    lemma_fundamental_div_mod(x, b);
    lemma_mod_bound(x, b);
    assert(x + b == (q + 1) * b + r) by (nonlinear_arith)
        requires
            x == b * q + r,
    ;
    lemma_fundamental_div_mod_converse(x + b, b, q + 1, r);
}

/// The truncated quotient is within the fraction it cut off of the true one:
/// times the divisor it is less than the divisor from the dividend, and never
/// farther from zero.
pub proof fn lemma_truncated_quotient_bounds(a: int, b: int)
    requires
        b > 0,
    ensures
        a >= 0 ==> 0 <= a - truncated_quotient(a, b) * b < b,
        a <= 0 ==> 0 <= truncated_quotient(a, b) * b - a < b,
{
    if a >= 0 {
        lemma_fundamental_div_mod(a, b);
        lemma_mod_bound(a, b);
        assert((a / b) * b == b * (a / b)) by (nonlinear_arith);
    } else {
        lemma_fundamental_div_mod(-a, b);
        lemma_mod_bound(-a, b);
        assert((-((-a) / b)) * b == -(b * ((-a) / b))) by (nonlinear_arith);
    }
}

/// Where `x` stands in a run of seven `unit`s decides its truncated quotient
/// by `unit`, up to whole sevens: it is the place rounded down, and one more
/// where `x` is negative and no whole multiple of `unit`.
pub proof fn lemma_truncated_quotient_in_sevens(x: int, unit: int)
    requires
        unit > 0,
    ensures
        0 <= (x % (7 * unit)) / unit < 7,
        truncated_quotient(x, unit) % 7 == (if x < 0 && (x % (7 * unit)) % unit != 0 {
            ((x % (7 * unit)) / unit + 1) % 7
        } else {
            (x % (7 * unit)) / unit
        }),
{
    let run = 7 * unit;
    let q = x / run;
    let place = x % run;
    lemma_fundamental_div_mod(x, run);
    lemma_mod_bound(x, run);
    let down = place / unit;
    let rest = place % unit;
    lemma_fundamental_div_mod(place, unit);
    lemma_mod_bound(place, unit);
    assert(0 <= down < 7) by (nonlinear_arith)
        requires
            place == unit * down + rest,
            0 <= rest < unit,
            0 <= place < 7 * unit,
            unit > 0,
    ;
    let whole = 7 * q + down;
    assert(x == whole * unit + rest) by (nonlinear_arith)
        requires
            x == run * q + place,
            run == 7 * unit,
            place == unit * down + rest,
            whole == 7 * q + down,
    ;
    assert(whole % 7 == down);
    if x >= 0 {
        lemma_fundamental_div_mod_converse(x, unit, whole, rest);
    } else if rest == 0 {
        assert(-x == (-whole) * unit + 0) by (nonlinear_arith)
            requires
                x == whole * unit + rest,
                rest == 0,
        ;
        lemma_fundamental_div_mod_converse(-x, unit, -whole, 0);
    } else {
        assert(-x == (-whole - 1) * unit + (unit - rest)) by (nonlinear_arith)
            requires
                x == whole * unit + rest,
        ;
        lemma_fundamental_div_mod_converse(-x, unit, -whole - 1, unit - rest);
        assert((whole + 1) % 7 == (down + 1) % 7);
    }
}

/// The remainder of a sum is the remainder of the sum of the remainders, which
/// is that sum or the divisor less.
pub proof fn lemma_mod_of_sum(a: int, b: int, m: int)
    requires
        m > 0,
    ensures
        (a + b) % m == (if a % m + b % m >= m {
            a % m + b % m - m
        } else {
            a % m + b % m
        }),
{
    let s = a % m + b % m;
    lemma_mod_bound(a, m);
    lemma_mod_bound(b, m);
    lemma_add_mod_noop(a, b, m);
    if s >= m {
        assert(s == 1 * m + (s - m)) by (nonlinear_arith);
        lemma_fundamental_div_mod_converse(s, m, 1, s - m);
    } else {
        assert(s == 0 * m + s) by (nonlinear_arith);
        lemma_fundamental_div_mod_converse(s, m, 0, s);
    }
}

} // verus!
