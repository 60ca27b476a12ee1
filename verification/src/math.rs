//! Exact integer arithmetic helpers for the fixed-point engine.
//!
//! Every physical quantity in this crate is carried as a signed integer
//! counting multiples of `1 / SCALE` of the underlying unit, so all
//! arithmetic below is exact integer arithmetic: floor rounding for the
//! sampling and radiation chain, truncation toward zero where a quotient
//! must negate exactly under sign change.

use vstd::prelude::*;

verus! {

use vstd::arithmetic::div_mod::lemma_fundamental_div_mod;
use vstd::arithmetic::div_mod::lemma_fundamental_div_mod_converse;

/// Number of fixed-point steps per physical unit.
pub const SCALE: i64 = 1_000_000;

/// Floor division of `a` by a positive `b`, on mathematical integers.
pub open spec fn floor_div(a: int, b: int) -> int {
    a / b
}

/// Fixed-point multiplication: the product of two fixed-point numbers,
/// scaled back down and floored.
pub open spec fn fx_mul(a: int, b: int) -> int {
    floor_div(a * b, SCALE as int)
}

/// Division of `a` by a positive `b` truncating toward zero, on
/// mathematical integers: negating the dividend negates the quotient.
pub open spec fn trunc_div(a: int, b: int) -> int {
    if a >= 0 {
        a / b
    } else {
        -((-a) / b)
    }
}

/// Truncating division negates exactly under negation of its dividend, and
/// is zero exactly on dividends smaller than the divisor.
pub proof fn lemma_trunc_div_antisymmetric(a: int, b: int)
    requires
        b >= 1,
    ensures
        trunc_div(-a, b) == -trunc_div(a, b),
        trunc_div(0, b) == 0,
{
    vstd::arithmetic::div_mod::lemma_div_of0(b);
}

/// A dividend within `bound * b` of zero has a truncated quotient within
/// `bound` of zero, for a positive divisor `b`.
pub proof fn lemma_trunc_div_magnitude(a: int, b: int, bound: int)
    requires
        b >= 1,
        0 <= bound,
        -(bound * b) <= a <= bound * b,
    ensures
        -bound <= trunc_div(a, b) <= bound,
{
    if a >= 0 {
        lemma_div_magnitude(a, b, bound);
    } else {
        lemma_div_magnitude(-a, b, bound);
    }
}

/// Floor division for machine integers, rounding toward negative infinity
/// (unlike Rust's `/`, which truncates toward zero).
pub fn div_floor_i128(a: i128, b: i128) -> (r: i128)
    requires
        b > 0,
        a > i128::MIN,
    ensures
        r == floor_div(a as int, b as int),
{
    if a >= 0 {
        let q: u128 = (a as u128) / (b as u128);
        let rm: u128 = (a as u128) % (b as u128);
        proof {
            lemma_fundamental_div_mod(a as int, b as int);
            assert(a as int == (q as int) * (b as int) + (rm as int)) by (nonlinear_arith)
                requires
                    a as int == (b as int) * ((a as int) / (b as int)) + (a as int) % (b as int),
                    q as int == (a as int) / (b as int),
                    rm as int == (a as int) % (b as int);
            lemma_fundamental_div_mod_converse(a as int, b as int, q as int, rm as int);
        }
        q as i128
    } else {
        let m: u128 = (-a) as u128;
        let q0: u128 = m / (b as u128);
        let rm: u128 = m % (b as u128);
        proof {
            let mi = m as int;
            let bi = b as int;
            let q0i = q0 as int;
            let rmi = rm as int;
            assert(mi == bi * q0i + rmi && 0 <= rmi < bi) by {
                lemma_fundamental_div_mod(mi, bi);
            }
            if rmi == 0 {
                assert(a as int == (-q0i) * bi + 0) by (nonlinear_arith)
                    requires
                        mi == bi * q0i + rmi,
                        rmi == 0,
                        a as int == -mi;
                lemma_fundamental_div_mod_converse(a as int, bi, -q0i, 0);
            } else {
                assert(a as int == (-q0i - 1) * bi + (bi - rmi)) by (nonlinear_arith)
                    requires
                        mi == bi * q0i + rmi,
                        a as int == -mi;
                lemma_fundamental_div_mod_converse(a as int, bi, -q0i - 1, bi - rmi);
            }
        }
        if rm == 0 {
            -(q0 as i128)
        } else {
            -(q0 as i128) - 1
        }
    }
}

/// Division for machine integers truncating toward zero, for a positive
/// divisor: negating the dividend negates the quotient exactly.
pub fn div_trunc_i128(a: i128, b: i128) -> (r: i128)
    requires
        b > 0,
        a > i128::MIN,
    ensures
        r == trunc_div(a as int, b as int),
{
    if a >= 0 {
        div_floor_i128(a, b)
    } else {
        -div_floor_i128(-a, b)
    }
}

/// `|a * b| <= m * n` whenever `|a| <= m` and `|b| <= n`.
pub proof fn lemma_mul_bounds(a: int, b: int, m: int, n: int) by (nonlinear_arith)
    requires
        -m <= a <= m,
        -n <= b <= n,
        0 <= m,
        0 <= n,
    ensures
        -(m * n) <= a * b <= m * n,
{
}

/// Floor division by a positive divisor moves the dividend toward zero:
/// the quotient stays between the dividend and zero.
pub proof fn lemma_div_in_range(num: int, den: int)
    requires
        den >= 1,
    ensures
        num >= 0 ==> 0 <= floor_div(num, den) <= num,
        num < 0 ==> num <= floor_div(num, den) <= 0,
{
    lemma_fundamental_div_mod(num, den);
    vstd::arithmetic::div_mod::lemma_mod_bound(num, den);
    let q = num / den;
    let r = num % den;
    assert(num >= 0 ==> 0 <= q <= num) by (nonlinear_arith)
        requires
            num == den * q + r,
            0 <= r < den,
            1 <= den;
    assert(num < 0 ==> num <= q <= 0) by (nonlinear_arith)
        requires
            num == den * q + r,
            0 <= r < den,
            1 <= den;
}

/// A dividend within `bound * d` of zero has a quotient within `bound` of
/// zero, for a positive divisor `d`.
pub proof fn lemma_div_magnitude(p: int, d: int, bound: int)
    requires
        d >= 1,
        0 <= bound,
        -(bound * d) <= p <= bound * d,
    ensures
        -bound <= floor_div(p, d) <= bound,
{
    vstd::arithmetic::div_mod::lemma_div_is_ordered(-(bound * d), p, d);
    vstd::arithmetic::div_mod::lemma_div_is_ordered(p, bound * d, d);
    vstd::arithmetic::div_mod::lemma_div_multiples_vanish(bound, d);
    vstd::arithmetic::div_mod::lemma_div_multiples_vanish(-bound, d);
    assert(bound * d == d * bound && -(bound * d) == d * -bound) by (nonlinear_arith);
}

/// `floor(a * b / d)` for a positive divisor, computed without overflow
/// through 128-bit intermediates.
pub fn mul_div_floor(a: i64, b: i64, d: i64) -> (r: i64)
    requires
        d > 0,
        i64::MIN <= floor_div(a as int * b as int, d as int) <= i64::MAX,
    ensures
        r == floor_div(a as int * b as int, d as int),
{
    proof {
        assert(-0x4000_0000_0000_0000_0000_0000_0000_0000
            <= (a as int) * (b as int)
            <= 0x4000_0000_0000_0000_0000_0000_0000_0000) by (nonlinear_arith)
            requires
                i64::MIN <= a <= i64::MAX,
                i64::MIN <= b <= i64::MAX;
    }
    let p: i128 = (a as i128) * (b as i128);
    let q = div_floor_i128(p, d as i128);
    q as i64
}

/// Euclidean remainder of `a` modulo a positive `b`: always in `[0, b)`
/// (unlike Rust's `%`, which keeps the dividend's sign).
pub fn mod_euclid(a: i64, b: i64) -> (r: i64)
    requires
        1 <= b <= 4_611_686_018_427_387_904,
        -4_611_686_018_427_387_904 <= a <= 4_611_686_018_427_387_904,
    ensures
        r == a as int % b as int,
        0 <= r < b,
{
    proof {
        lemma_div_in_range(a as int, b as int);
    }
    let q = mul_div_floor(a, 1, b);
    proof {
        lemma_fundamental_div_mod(a as int, b as int);
        vstd::arithmetic::div_mod::lemma_mod_bound(a as int, b as int);
        assert((b as int) * (q as int) == (q as int) * (b as int)) by (nonlinear_arith);
    }
    a - q * b
}

} // verus!
