//! Fixed-point sine and cosine on `[0, TWO_PI_FP)`.
//!
//! The angle is reduced to a quadrant and a remainder below `HALF_PI_FP`;
//! within a quadrant the remainder is folded onto `[0, QUARTER_PI_FP]`,
//! where truncated Taylor polynomials are evaluated in integer arithmetic.
//! The folding makes the values at the quadrant boundaries exact: cosine is
//! exactly `FP_ONE`, `0`, `-FP_ONE`, `0` at `0`, `HALF_PI_FP`, `PI_FP`,
//! `3 * HALF_PI_FP`, and likewise for sine.

use vstd::prelude::*;

verus! {

use crate::fixed::FP_ONE;
use crate::fixed::HALF_PI_FP;
use crate::fixed::QUARTER_PI_FP;
use crate::fixed::TWO_PI_FP;
use vstd::arithmetic::div_mod::lemma_div_is_ordered;
use vstd::arithmetic::div_mod::lemma_div_is_ordered_by_denominator;
use vstd::arithmetic::div_mod::lemma_fundamental_div_mod;
use vstd::arithmetic::div_mod::lemma_multiply_divide_le;
use vstd::arithmetic::div_mod::lemma_multiply_divide_lt;

/// The truncated Taylor series of sine, evaluated in fixed point:
/// `x - x^3/6 + x^5/120 - x^7/5040`, each power rescaled by `FP_ONE`.
pub open spec fn sin_poly_spec(x: int) -> int {
    let fp = FP_ONE as int;
    let x2 = (x * x) / fp;
    let p3 = (x * x2) / fp;
    let p5 = (p3 * x2) / fp;
    let p7 = (p5 * x2) / fp;
    x - p3 / 6 + p5 / 120 - p7 / 5040
}

/// The truncated Taylor series of cosine, evaluated in fixed point:
/// `1 - x^2/2 + x^4/24 - x^6/720 + x^8/40320`, each power rescaled by
/// `FP_ONE`.
pub open spec fn cos_poly_spec(x: int) -> int {
    let fp = FP_ONE as int;
    let x2 = (x * x) / fp;
    let p4 = (x2 * x2) / fp;
    let p6 = (p4 * x2) / fp;
    let p8 = (p6 * x2) / fp;
    fp - x2 / 2 + p4 / 24 - p6 / 720 + p8 / 40320
}

/// Sine on a quarter turn `[0, HALF_PI_FP)`, folded onto the Taylor
/// polynomials through `sin(u) == cos(HALF_PI_FP - u)`.
pub open spec fn quarter_sin_spec(u: int) -> int {
    if u <= QUARTER_PI_FP {
        sin_poly_spec(u)
    } else {
        cos_poly_spec(HALF_PI_FP - u)
    }
}

/// Cosine on a quarter turn `[0, HALF_PI_FP)`, folded onto the Taylor
/// polynomials through `cos(u) == sin(HALF_PI_FP - u)`.
pub open spec fn quarter_cos_spec(u: int) -> int {
    if u <= QUARTER_PI_FP {
        cos_poly_spec(u)
    } else {
        sin_poly_spec(HALF_PI_FP - u)
    }
}

/// Cosine of an angle in `[0, TWO_PI_FP)`, by quadrant reduction.
pub open spec fn cos_spec(v: int) -> int {
    let q = v / (HALF_PI_FP as int);
    let u = v % (HALF_PI_FP as int);
    if q == 0 {
        quarter_cos_spec(u)
    } else if q == 1 {
        -quarter_sin_spec(u)
    } else if q == 2 {
        -quarter_cos_spec(u)
    } else {
        quarter_sin_spec(u)
    }
}

/// Sine of an angle in `[0, TWO_PI_FP)`, by quadrant reduction.
pub open spec fn sin_spec(v: int) -> int {
    let q = v / (HALF_PI_FP as int);
    let u = v % (HALF_PI_FP as int);
    if q == 0 {
        quarter_sin_spec(u)
    } else if q == 1 {
        quarter_cos_spec(u)
    } else if q == 2 {
        -quarter_sin_spec(u)
    } else {
        -quarter_cos_spec(u)
    }
}

fn sin_poly(x: u64) -> (r: u64)
    requires
        x <= 785_398,
    ensures
        r as int == sin_poly_spec(x as int),
        r <= 790_000,
{
    let fp: u64 = 1_000_000;
    proof {
        assert((x as int) * (x as int) <= 785_398 * 785_398) by (nonlinear_arith)
            requires
                0 <= x as int <= 785_398,
        ;
    }
    let x2: u64 = (x * x) / fp;
    proof {
        lemma_div_is_ordered((x as int) * (x as int), 785_398int * 785_398, fp as int);
        assert(x2 <= 616_850);
        assert((x as int) * (x2 as int) <= 785_398 * 616_850) by (nonlinear_arith)
            requires
                0 <= x as int <= 785_398,
                0 <= x2 as int <= 616_850,
        ;
        assert((x as int) * (x2 as int) <= (fp as int) * (x as int)) by (nonlinear_arith)
            requires
                0 <= x2 as int <= 616_850,
                0 <= x as int,
                fp == 1_000_000,
        ;
    }
    let p3: u64 = (x * x2) / fp;
    proof {
        lemma_multiply_divide_le((x as int) * (x2 as int), fp as int, x as int);
        lemma_div_is_ordered((x as int) * (x2 as int), 785_398int * 616_850, fp as int);
        assert(p3 <= x);
        assert(p3 <= 484_472);
        assert((p3 as int) * (x2 as int) <= (fp as int) * (p3 as int)) by (nonlinear_arith)
            requires
                0 <= x2 as int <= 616_850,
                0 <= p3 as int,
                fp == 1_000_000,
        ;
        assert((p3 as int) * (x2 as int) <= 484_472 * 616_850) by (nonlinear_arith)
            requires
                0 <= x2 as int <= 616_850,
                0 <= p3 as int <= 484_472,
        ;
    }
    let p5: u64 = (p3 * x2) / fp;
    proof {
        lemma_multiply_divide_le((p3 as int) * (x2 as int), fp as int, p3 as int);
        lemma_div_is_ordered((p3 as int) * (x2 as int), 484_472int * 616_850, fp as int);
        assert(p5 <= p3);
        assert(p5 <= 298_846);
        assert((p5 as int) * (x2 as int) <= (fp as int) * (p5 as int)) by (nonlinear_arith)
            requires
                0 <= x2 as int <= 616_850,
                0 <= p5 as int,
                fp == 1_000_000,
        ;
    }
    let p7: u64 = (p5 * x2) / fp;
    proof {
        lemma_multiply_divide_le((p5 as int) * (x2 as int), fp as int, p5 as int);
        assert(p7 <= p5);
    }
    let t3: u64 = p3 / 6;
    let t5: u64 = p5 / 120;
    let t7: u64 = p7 / 5040;
    proof {
        lemma_fundamental_div_mod(p3 as int, 6);
        lemma_fundamental_div_mod(p5 as int, 120);
        lemma_div_is_ordered(p7 as int, p5 as int, 5040);
        lemma_div_is_ordered_by_denominator(p5 as int, 120, 5040);
        lemma_div_is_ordered(p5 as int, 298_846int, 120);
        assert(t7 <= t5);
        assert(t3 <= p3);
        assert(t5 <= 2_490);
    }
    (x - t3 + t5) - t7
}

fn cos_poly(x: u64) -> (r: u64)
    requires
        x <= 785_398,
    ensures
        r as int == cos_poly_spec(x as int),
        r <= 1_000_000,
{
    let fp: u64 = 1_000_000;
    proof {
        assert((x as int) * (x as int) <= 785_398 * 785_398) by (nonlinear_arith)
            requires
                0 <= x as int <= 785_398,
        ;
    }
    let x2: u64 = (x * x) / fp;
    proof {
        lemma_div_is_ordered((x as int) * (x as int), 785_398int * 785_398, fp as int);
        assert(x2 <= 616_850);
        assert((x2 as int) * (x2 as int) <= (fp as int) * (x2 as int)) by (nonlinear_arith)
            requires
                0 <= x2 as int <= 616_850,
                fp == 1_000_000,
        ;
    }
    let p4: u64 = (x2 * x2) / fp;
    proof {
        lemma_multiply_divide_le((x2 as int) * (x2 as int), fp as int, x2 as int);
        assert(p4 <= x2);
        assert((p4 as int) * (x2 as int) <= (fp as int) * (p4 as int)) by (nonlinear_arith)
            requires
                0 <= x2 as int <= 616_850,
                0 <= p4 as int,
                fp == 1_000_000,
        ;
    }
    let p6: u64 = (p4 * x2) / fp;
    proof {
        lemma_multiply_divide_le((p4 as int) * (x2 as int), fp as int, p4 as int);
        assert(p6 <= p4);
        assert((p6 as int) * (x2 as int) <= (fp as int) * (p6 as int)) by (nonlinear_arith)
            requires
                0 <= x2 as int <= 616_850,
                0 <= p6 as int,
                fp == 1_000_000,
        ;
    }
    let p8: u64 = (p6 * x2) / fp;
    proof {
        lemma_multiply_divide_le((p6 as int) * (x2 as int), fp as int, p6 as int);
        assert(p8 <= p6);
    }
    let t2: u64 = x2 / 2;
    let t4: u64 = p4 / 24;
    let t6: u64 = p6 / 720;
    let t8: u64 = p8 / 40320;
    proof {
        lemma_fundamental_div_mod(x2 as int, 2);
        lemma_fundamental_div_mod(p4 as int, 24);
        lemma_fundamental_div_mod(p8 as int, 40320);
        lemma_div_is_ordered(p6 as int, p4 as int, 720);
        lemma_div_is_ordered_by_denominator(p4 as int, 24, 720);
        // The positive terms never outweigh `t2`: from `24 * t4 <= x2`,
        // `40320 * t8 <= x2` and `x2 <= 2 * t2 + 1` it follows linearly
        // that `t4 + t8 <= t2`.
        assert(24 * t4 <= x2);
        assert(40320 * t8 <= x2);
        assert(x2 <= 2 * t2 + 1);
        assert(t4 + t8 <= t2);
        assert(t6 <= p4 / 720);
        assert(p4 / 720 <= t4);
    }
    ((fp - t2 + t4) - t6) + t8
}

fn quarter_sin(u: u64) -> (r: u64)
    requires
        u < 1_570_796,
    ensures
        r as int == quarter_sin_spec(u as int),
        r <= 1_000_000,
{
    if u <= 785_398 {
        sin_poly(u)
    } else {
        cos_poly(1_570_796 - u)
    }
}

fn quarter_cos(u: u64) -> (r: u64)
    requires
        u < 1_570_796,
    ensures
        r as int == quarter_cos_spec(u as int),
        r <= 1_000_000,
{
    if u <= 785_398 {
        cos_poly(u)
    } else {
        sin_poly(1_570_796 - u)
    }
}

/// Fixed-point cosine of an angle already reduced into `[0, TWO_PI_FP)`.
pub fn cos_fp(v: i64) -> (r: i64)
    requires
        0 <= v < TWO_PI_FP,
    ensures
        r as int == cos_spec(v as int),
        -FP_ONE <= r <= FP_ONE,
{
    let vu: u64 = v as u64;
    let q: u64 = vu / 1_570_796;
    let u: u64 = vu % 1_570_796;
    proof {
        lemma_multiply_divide_lt(vu as int, 1_570_796, 4);
    }
    if q == 0 {
        quarter_cos(u) as i64
    } else if q == 1 {
        -(quarter_sin(u) as i64)
    } else if q == 2 {
        -(quarter_cos(u) as i64)
    } else {
        quarter_sin(u) as i64
    }
}

/// Fixed-point sine of an angle already reduced into `[0, TWO_PI_FP)`.
pub fn sin_fp(v: i64) -> (r: i64)
    requires
        0 <= v < TWO_PI_FP,
    ensures
        r as int == sin_spec(v as int),
        -FP_ONE <= r <= FP_ONE,
{
    let vu: u64 = v as u64;
    let q: u64 = vu / 1_570_796;
    let u: u64 = vu % 1_570_796;
    proof {
        lemma_multiply_divide_lt(vu as int, 1_570_796, 4);
    }
    if q == 0 {
        quarter_sin(u) as i64
    } else if q == 1 {
        quarter_cos(u) as i64
    } else if q == 2 {
        -(quarter_sin(u) as i64)
    } else {
        -(quarter_cos(u) as i64)
    }
}

} // verus!
