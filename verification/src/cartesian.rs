//! Conversion of validated orbital elements to inertial-frame Cartesian
//! positions, and sampling of one revolution of true anomaly.
//!
//! The orbital radius is `a (1 - e^2) / (1 + e cos nu)` in fixed point; the
//! perifocal position `(r cos nu, r sin nu, 0)` is rotated into the
//! inertial frame by the 3-1-3 sequence: about z by the argument of
//! periapsis, about x by the inclination, about z by the longitude of the
//! ascending node.

use vstd::prelude::*;

verus! {

use crate::elements::KeplerianElements;
use crate::elements::OrbitError;
use crate::elements::MAX_SEMI_MAJOR_AXIS;
use crate::fixed::mul_fp;
use crate::fixed::mul_fp_spec;
use crate::fixed::FP_ONE;
use crate::fixed::TWO_PI_FP;
use crate::trig::cos_fp;
use crate::trig::cos_spec;
use crate::trig::sin_fp;
use crate::trig::sin_spec;
use vstd::arithmetic::div_mod::lemma_div_denominator;
use vstd::arithmetic::div_mod::lemma_div_is_ordered_by_denominator;
use vstd::arithmetic::div_mod::lemma_div_multiples_vanish;
use vstd::arithmetic::div_mod::lemma_div_pos_is_pos;
use vstd::arithmetic::div_mod::lemma_multiply_divide_le;
use vstd::arithmetic::div_mod::lemma_multiply_divide_lt;

/// An inertial-frame position, each coordinate in millimeters.
#[derive(Clone, Copy, Debug, PartialEq, Eq, Structural)]
pub struct Vec3 {
    pub x: i64,
    pub y: i64,
    pub z: i64,
}

impl Vec3 {
    /// The coordinates as unbounded integers, for contracts.
    pub open spec fn coords(self) -> (int, int, int) {
        (self.x as int, self.y as int, self.z as int)
    }
}

/// The orbital radius at a true anomaly whose fixed-point cosine is `c`:
/// `a (1 - e^2) / (1 + e c)`, scales carried through so that the result is
/// again a length in millimeters.
pub open spec fn radius_spec(a: int, e: int, c: int) -> int {
    let fp = FP_ONE as int;
    (a * (fp * fp - e * e)) / (fp * fp + e * c)
}

/// The inertial-frame position of the body described by `el`, as exact
/// fixed-point integers: the perifocal position at the stored true anomaly,
/// rotated by the 3-1-3 sequence.
pub open spec fn position_spec(el: KeplerianElements) -> (int, int, int) {
    let c_nu = cos_spec(el.true_anomaly as int);
    let s_nu = sin_spec(el.true_anomaly as int);
    let r = radius_spec(el.semi_major_axis as int, el.eccentricity as int, c_nu);
    let x_pf = mul_fp_spec(r, c_nu);
    let y_pf = mul_fp_spec(r, s_nu);
    let c_ap = cos_spec(el.argument_of_periapsis as int);
    let s_ap = sin_spec(el.argument_of_periapsis as int);
    let c_in = cos_spec(el.inclination as int);
    let s_in = sin_spec(el.inclination as int);
    let c_an = cos_spec(el.longitude_of_ascending_node as int);
    let s_an = sin_spec(el.longitude_of_ascending_node as int);
    // Rotation about z by the argument of periapsis; the perifocal z is 0.
    let x1 = mul_fp_spec(x_pf, c_ap) - mul_fp_spec(y_pf, s_ap);
    let y1 = mul_fp_spec(x_pf, s_ap) + mul_fp_spec(y_pf, c_ap);
    // Rotation about x by the inclination, applied to (x1, y1, 0).
    let y2 = mul_fp_spec(y1, c_in);
    let z2 = mul_fp_spec(y1, s_in);
    // Rotation about z by the longitude of the ascending node.
    let x3 = mul_fp_spec(x1, c_an) - mul_fp_spec(y2, s_an);
    let y3 = mul_fp_spec(x1, s_an) + mul_fp_spec(y2, c_an);
    (x3, y3, z2)
}

/// The `k`-th of `n` true-anomaly samples, evenly spaced over one turn:
/// `2 pi k / n` in microradians, rounded down.
pub open spec fn sample_anomaly_spec(k: int, n: int) -> int {
    ((TWO_PI_FP as int) * k) / n
}

/// `el` with its true anomaly replaced.
pub open spec fn with_true_anomaly(el: KeplerianElements, v: int) -> KeplerianElements {
    KeplerianElements { true_anomaly: v as i64, ..el }
}

/// The positions of `n` evenly spaced samples of one revolution of true
/// anomaly, starting at 0 and excluding the full turn.
pub open spec fn trace_spec(el: KeplerianElements, n: nat) -> Seq<(int, int, int)> {
    Seq::new(n, |k: int| position_spec(with_true_anomaly(el, sample_anomaly_spec(k, n as int))))
}

/// The radius denominator is positive and the radius itself lies within
/// twice the semi-major axis, for any cosine value of at most one unit.
pub proof fn lemma_radius_bounds(a: int, e: int, c: int)
    requires
        0 < a <= MAX_SEMI_MAJOR_AXIS,
        0 <= e < FP_ONE,
        -FP_ONE <= c <= FP_ONE,
    ensures
        (FP_ONE as int) * (FP_ONE as int) + e * c >= (FP_ONE as int) * ((FP_ONE as int) - e),
        (FP_ONE as int) * ((FP_ONE as int) - e) >= FP_ONE as int,
        0 <= radius_spec(a, e, c) <= 2 * a,
        0 <= a * ((FP_ONE as int) * (FP_ONE as int) - e * e),
{
    let fp = FP_ONE as int;
    let n = a * (fp * fp - e * e);
    let d = fp * fp + e * c;
    assert(e * c >= -(e * fp) && e * e <= (fp - 1) * fp && n >= 0 && n == (a * (fp + e)) * (fp
        - e) && n == ((fp - e) * (a * (fp + e))) && a * (fp + e) <= fp * (2 * a))
        by (nonlinear_arith)
        requires
            0 < a,
            0 <= e < fp,
            -fp <= c <= fp,
            fp == FP_ONE as int,
            n == a * (fp * fp - e * e),
    ;
    assert(d >= fp * (fp - e) >= fp);
    lemma_div_pos_is_pos(n, d);
    lemma_div_is_ordered_by_denominator(n, fp * (fp - e), d);
    lemma_div_denominator(n, fp - e, fp);
    lemma_div_multiples_vanish(a * (fp + e), fp - e);
    assert(n / (fp - e) == a * (fp + e));
    assert((fp - e) * fp == fp * (fp - e)) by (nonlinear_arith);
    assert(n / (fp * (fp - e)) == (a * (fp + e)) / fp);
    lemma_multiply_divide_le(a * (fp + e), fp, 2 * a);
    assert(radius_spec(a, e, c) == n / d);
    assert(n / d <= n / (fp * (fp - e)));
}

/// Computes the orbital radius in millimeters, given the fixed-point
/// cosine of the true anomaly.
fn radius_fp(a: i64, e: i64, c: i64) -> (r: i64)
    requires
        0 < a <= MAX_SEMI_MAJOR_AXIS,
        0 <= e < FP_ONE,
        -FP_ONE <= c <= FP_ONE,
    ensures
        r as int == radius_spec(a as int, e as int, c as int),
        0 <= r <= 2 * (a as int),
{
    proof {
        lemma_radius_bounds(a as int, e as int, c as int);
        assert((a as int) * ((FP_ONE as int) * (FP_ONE as int) - (e as int) * (e as int))
            <= 100_000_000_000_000_000int * 1_000_000_000_000) by (nonlinear_arith)
            requires
                0 < a as int <= 100_000_000_000_000_000int,
                0 <= (e as int) * (e as int),
        ;
        assert(0 <= (e as int) * (e as int) <= 1_000_000_000_000
            && -1_000_000_000_000 <= (e as int) * (c as int) <= 1_000_000_000_000)
            by (nonlinear_arith)
            requires
                0 <= e as int <= 1_000_000,
                -1_000_000 <= c as int <= 1_000_000,
        ;
    }
    let fp2: i128 = 1_000_000_000_000;
    let e128: i128 = e as i128;
    let num: i128 = (a as i128) * (fp2 - e128 * e128);
    let den: i128 = fp2 + e128 * (c as i128);
    let q: u128 = (num as u128) / (den as u128);
    q as i64
}

impl KeplerianElements {
    /// The position at the stored true anomaly, as exact fixed-point
    /// integers; callers have already checked the gravitational parameter.
    fn position_core(&self) -> (p: Vec3)
        requires
            self.wf(),
        ensures
            p.coords() == position_spec(*self),
    {
        let c_nu: i64 = cos_fp(self.true_anomaly);
        let s_nu: i64 = sin_fp(self.true_anomaly);
        let r: i64 = radius_fp(self.semi_major_axis, self.eccentricity, c_nu);
        let x_pf: i64 = mul_fp(r, c_nu);
        let y_pf: i64 = mul_fp(r, s_nu);
        let c_ap: i64 = cos_fp(self.argument_of_periapsis);
        let s_ap: i64 = sin_fp(self.argument_of_periapsis);
        let c_in: i64 = cos_fp(self.inclination);
        let s_in: i64 = sin_fp(self.inclination);
        let c_an: i64 = cos_fp(self.longitude_of_ascending_node);
        let s_an: i64 = sin_fp(self.longitude_of_ascending_node);
        let x1: i64 = mul_fp(x_pf, c_ap) - mul_fp(y_pf, s_ap);
        let y1: i64 = mul_fp(x_pf, s_ap) + mul_fp(y_pf, c_ap);
        let y2: i64 = mul_fp(y1, c_in);
        let z2: i64 = mul_fp(y1, s_in);
        let x3: i64 = mul_fp(x1, c_an) - mul_fp(y2, s_an);
        let y3: i64 = mul_fp(x1, s_an) + mul_fp(y2, c_an);
        Vec3 { x: x3, y: y3, z: z2 }
    }

    /// The inertial-frame position at the stored true anomaly.
    ///
    /// The gravitational parameter (in millionths of km^3/s^2) does not
    /// move the purely geometric position, but a non-positive value is a
    /// physically meaningless request and is rejected.
    pub fn position(&self, grav_param: i64) -> (res: Result<Vec3, OrbitError>)
        requires
            self.wf(),
        ensures
            grav_param <= 0 ==> res == Err::<Vec3, OrbitError>(
                OrbitError::InvalidGravitationalParameter,
            ),
            grav_param > 0 ==> (res matches Ok(p) && p.coords() == position_spec(*self)),
    {
        if grav_param <= 0 {
            return Err(OrbitError::InvalidGravitationalParameter);
        }
        Ok(self.position_core())
    }

    /// The positions of `n` true-anomaly samples evenly spaced over one
    /// revolution, `2 pi k / n` for `k` in `0 .. n`; the stored true
    /// anomaly is ignored. `n == 0` yields an empty sequence. A
    /// non-positive gravitational parameter aborts the whole trace; a
    /// successful trace always holds exactly `n` points.
    pub fn trace(&self, grav_param: i64, n: usize) -> (res: Result<Vec<Vec3>, OrbitError>)
        requires
            self.wf(),
        ensures
            grav_param <= 0 ==> res == Err::<Vec<Vec3>, OrbitError>(
                OrbitError::InvalidGravitationalParameter,
            ),
            grav_param > 0 ==> (res matches Ok(points) && points@.len() == n && forall|k: int|
                0 <= k < n ==> (#[trigger] points@[k]).coords() == trace_spec(*self, n as nat)[k]),
    {
        if grav_param <= 0 {
            return Err(OrbitError::InvalidGravitationalParameter);
        }
        let mut points: Vec<Vec3> = Vec::new();
        let mut k: usize = 0;
        while k < n
            invariant
                self.wf(),
                k <= n,
                points@.len() == k,
                forall|j: int|
                    0 <= j < k ==> (#[trigger] points@[j]).coords() == trace_spec(
                        *self,
                        n as nat,
                    )[j],
            decreases n - k,
        {
            let nu_wide: u128 = (6_283_184u128 * (k as u128)) / (n as u128);
            proof {
                let t = TWO_PI_FP as int;
                assert(t * (k as int) < (n as int) * t) by (nonlinear_arith)
                    requires
                        0 <= k as int,
                        (k as int) < (n as int),
                        t == TWO_PI_FP as int,
                ;
                lemma_multiply_divide_lt(t * (k as int), n as int, t);
                lemma_div_pos_is_pos(t * (k as int), n as int);
            }
            let nu: i64 = nu_wide as i64;
            let el = KeplerianElements { true_anomaly: nu, ..*self };
            let p = el.position_core();
            points.push(p);
            k = k + 1;
        }
        Ok(points)
    }
}

} // verus!
