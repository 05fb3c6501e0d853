//! The fixed-point scale and the basic exact operations on scaled values:
//! scaled multiplication, reduction of an angle into one turn, and the
//! degree-to-radian conversion.

use vstd::prelude::*;

verus! {

use vstd::arithmetic::div_mod::lemma_div_multiples_vanish;
use vstd::arithmetic::div_mod::lemma_fundamental_div_mod;
use vstd::arithmetic::div_mod::lemma_fundamental_div_mod_converse;
use vstd::arithmetic::div_mod::lemma_multiply_divide_le;
use vstd::math::abs;

/// One unit, in fixed-point representation: every scaled quantity holds
/// its value times this constant.
pub const FP_ONE: i64 = 1_000_000;

/// A quarter turn (pi/2) in microradians, rounded to the nearest integer.
pub const HALF_PI_FP: i64 = 1_570_796;

/// Half of a quarter turn (pi/4) in microradians; the threshold below which
/// the polynomial approximations of sine and cosine are evaluated directly.
pub const QUARTER_PI_FP: i64 = 785_398;

/// Half a turn (pi) in microradians. Defined as twice `HALF_PI_FP` so that
/// quadrant reduction is exact.
pub const PI_FP: i64 = 3_141_592;

/// One full turn (2 pi) in microradians, four times `HALF_PI_FP`.
pub const TWO_PI_FP: i64 = 6_283_184;

/// Half a turn in microdegrees, the denominator of the degree-to-radian
/// conversion.
pub const HALF_TURN_MICRODEG: i64 = 180_000_000;

/// The product of two scaled values, rescaled by `FP_ONE` with the
/// quotient rounded toward zero.
pub open spec fn mul_fp_spec(a: int, b: int) -> int {
    let p = a * b;
    if p >= 0 {
        p / (FP_ONE as int)
    } else {
        -((-p) / (FP_ONE as int))
    }
}

/// An arbitrary angle in microradians reduced into `[0, TWO_PI_FP)`.
pub open spec fn norm_angle_spec(x: int) -> int {
    x % (TWO_PI_FP as int)
}

/// Microdegrees converted to microradians, rounded toward negative
/// infinity.
pub open spec fn microdeg_to_microrad_spec(d: int) -> int {
    (d * (PI_FP as int)) / (HALF_TURN_MICRODEG as int)
}

/// Multiplies two scaled values and rescales the product, rounding toward
/// zero. The second factor is restricted to one unit in magnitude, so the
/// result never exceeds the first factor in magnitude.
pub fn mul_fp(a: i64, b: i64) -> (r: i64)
    requires
        i64::MIN < a,
        -FP_ONE <= b <= FP_ONE,
    ensures
        r as int == mul_fp_spec(a as int, b as int),
        abs(r as int) <= abs(a as int),
{
    proof {
        assert(-(abs(a as int) * FP_ONE) <= (a as int) * (b as int)
            <= abs(a as int) * FP_ONE) by (nonlinear_arith)
            requires
                -(abs(a as int) as int) <= a as int <= abs(a as int) as int,
                -(FP_ONE as int) <= b as int <= FP_ONE as int,
        ;
    }
    let p: i128 = (a as i128) * (b as i128);
    if p >= 0 {
        let q: u128 = (p as u128) / 1_000_000;
        proof {
            lemma_multiply_divide_le(p as int, FP_ONE as int, abs(a as int) as int);
        }
        q as i64
    } else {
        let n: u128 = (-p) as u128;
        let q: u128 = n / 1_000_000;
        proof {
            lemma_multiply_divide_le(n as int, FP_ONE as int, abs(a as int) as int);
        }
        -(q as i64)
    }
}

/// Scaled multiplication by one unit returns the first factor unchanged.
pub proof fn lemma_mul_fp_one(a: int)
    ensures
        mul_fp_spec(a, FP_ONE as int) == a,
{
    let fp = FP_ONE as int;
    if a >= 0 {
        lemma_div_multiples_vanish(a, fp);
        assert(a * fp == fp * a) by (nonlinear_arith);
    } else {
        lemma_div_multiples_vanish(-a, fp);
        assert(-(a * fp) == fp * (-a)) by (nonlinear_arith);
    }
}

/// Scaled multiplication by minus one unit negates the first factor.
pub proof fn lemma_mul_fp_neg_one(a: int)
    ensures
        mul_fp_spec(a, -(FP_ONE as int)) == -a,
{
    let fp = FP_ONE as int;
    if a > 0 {
        lemma_div_multiples_vanish(a, fp);
        assert(-(a * (-fp)) == fp * a) by (nonlinear_arith);
    } else {
        lemma_div_multiples_vanish(-a, fp);
        assert(a * (-fp) == fp * (-a)) by (nonlinear_arith);
    }
}

/// Scaled multiplication with a zero factor is zero.
pub proof fn lemma_mul_fp_zero(a: int)
    ensures
        mul_fp_spec(a, 0) == 0,
        mul_fp_spec(0, a) == 0,
{
    assert(a * 0 == 0) by (nonlinear_arith);
    assert(0 * a == 0) by (nonlinear_arith);
}

/// Reduces an angle in microradians into `[0, TWO_PI_FP)`.
pub fn norm_angle(x: i64) -> (r: i64)
    ensures
        r as int == norm_angle_spec(x as int),
        0 <= r < TWO_PI_FP,
{
    let t: u64 = 6_283_184;
    if x >= 0 {
        ((x as u64) % t) as i64
    } else {
        let n: u128 = (-(x as i128)) as u128;
        let m: u64 = (n % (t as u128)) as u64;
        proof {
            let ti = TWO_PI_FP as int;
            let q = (n as int) / ti;
            lemma_fundamental_div_mod(n as int, ti);
            if m == 0 {
                assert(x as int == (-q) * ti + 0) by (nonlinear_arith)
                    requires
                        x as int == -(n as int),
                        n as int == ti * q + 0,
                ;
                lemma_fundamental_div_mod_converse(x as int, ti, -q, 0);
            } else {
                assert(x as int == (-q - 1) * ti + (ti - m as int)) by (nonlinear_arith)
                    requires
                        x as int == -(n as int),
                        n as int == ti * q + m as int,
                ;
                lemma_fundamental_div_mod_converse(x as int, ti, -q - 1, ti - m as int);
            }
        }
        if m == 0 {
            0
        } else {
            TWO_PI_FP - (m as i64)
        }
    }
}

/// Converts microdegrees to microradians, rounding toward negative
/// infinity. The scale shrinks the value, so every input is accepted.
pub fn microdeg_to_microrad(d: i64) -> (r: i64)
    ensures
        r as int == microdeg_to_microrad_spec(d as int),
        abs(r as int) <= abs(d as int) + 1,
{
    let pi_u: u128 = 3_141_592;
    let ht_u: u128 = 180_000_000;
    proof {
        assert(abs(d as int) * (PI_FP as int) <= abs(d as int) * (HALF_TURN_MICRODEG as int))
            by (nonlinear_arith);
    }
    if d >= 0 {
        let n: u128 = (d as u128) * pi_u;
        let q: u128 = n / ht_u;
        proof {
            lemma_multiply_divide_le(n as int, HALF_TURN_MICRODEG as int, d as int);
        }
        q as i64
    } else {
        let n: u128 = ((-(d as i128)) as u128) * pi_u;
        let q: u128 = n / ht_u;
        let m: u128 = n % ht_u;
        proof {
            let ht = HALF_TURN_MICRODEG as int;
            let p = (d as int) * (PI_FP as int);
            lemma_fundamental_div_mod(n as int, ht);
            lemma_multiply_divide_le(n as int, ht, -(d as int));
            if m == 0 {
                assert(p == (-(q as int)) * ht + 0) by (nonlinear_arith)
                    requires
                        p == -(n as int),
                        n as int == ht * (q as int) + 0,
                ;
                lemma_fundamental_div_mod_converse(p, ht, -(q as int), 0);
            } else {
                assert(p == (-(q as int) - 1) * ht + (ht - m as int)) by (nonlinear_arith)
                    requires
                        p == -(n as int),
                        n as int == ht * (q as int) + m as int,
                ;
                lemma_fundamental_div_mod_converse(p, ht, -(q as int) - 1, ht - m as int);
            }
        }
        if m == 0 {
            -(q as i64)
        } else {
            -(q as i64) - 1
        }
    }
}

} // verus!
