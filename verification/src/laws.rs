//! Geometric laws of the element-to-Cartesian conversion, proved once over
//! the spec functions that the executable contracts use.

use vstd::prelude::*;

verus! {

use crate::cartesian::position_spec;
use crate::cartesian::radius_spec;
use crate::cartesian::sample_anomaly_spec;
use crate::cartesian::trace_spec;
use crate::cartesian::with_true_anomaly;
use crate::cartesian::Vec3;
use crate::elements::KeplerianElements;
use crate::elements::MAX_SEMI_MAJOR_AXIS;
use crate::fixed::lemma_mul_fp_neg_one;
use crate::fixed::lemma_mul_fp_one;
use crate::fixed::lemma_mul_fp_zero;
use crate::fixed::mul_fp_spec;
use crate::fixed::FP_ONE;
use crate::fixed::PI_FP;
use crate::trig::cos_spec;
use crate::trig::sin_spec;
use vstd::arithmetic::div_mod::lemma_div_denominator;
use vstd::arithmetic::div_mod::lemma_div_multiples_vanish;

/// The periapsis distance `a (1 - e)`, in the fixed-point scale:
/// `a (FP_ONE - e) / FP_ONE`.
pub open spec fn periapsis_spec(a: int, e: int) -> int {
    (a * ((FP_ONE as int) - e)) / (FP_ONE as int)
}

/// The apoapsis distance `a (1 + e)`, in the fixed-point scale:
/// `a (FP_ONE + e) / FP_ONE`.
pub open spec fn apoapsis_spec(a: int, e: int) -> int {
    (a * ((FP_ONE as int) + e)) / (FP_ONE as int)
}

/// The orbital radius of a configuration: the radius formula applied to
/// the stored elements at the stored true anomaly.
pub open spec fn radius_of(el: KeplerianElements) -> int {
    radius_spec(
        el.semi_major_axis as int,
        el.eccentricity as int,
        cos_spec(el.true_anomaly as int),
    )
}

/// The fixed-point cosine and sine are exact at the quadrant boundaries.
pub proof fn lemma_trig_axes()
    ensures
        cos_spec(0) == FP_ONE as int,
        sin_spec(0) == 0,
        cos_spec((PI_FP / 2) as int) == 0,
        sin_spec((PI_FP / 2) as int) == FP_ONE as int,
        cos_spec(PI_FP as int) == -(FP_ONE as int),
        sin_spec(PI_FP as int) == 0,
        cos_spec((3 * (PI_FP / 2)) as int) == 0,
        sin_spec((3 * (PI_FP / 2)) as int) == -(FP_ONE as int),
{
}

/// At a true anomaly of zero, the orbital radius is exactly the periapsis
/// distance `a (1 - e)`, whatever the remaining valid elements are.
pub proof fn lemma_radius_at_periapsis(el: KeplerianElements)
    requires
        el.wf(),
        el.true_anomaly == 0,
    ensures
        radius_of(el) == periapsis_spec(el.semi_major_axis as int, el.eccentricity as int),
{
    lemma_radius_factors(el.semi_major_axis as int, el.eccentricity as int);
}

/// At a true anomaly of half a turn, the orbital radius is exactly the
/// apoapsis distance `a (1 + e)`, whatever the remaining valid elements
/// are.
pub proof fn lemma_radius_at_apoapsis(el: KeplerianElements)
    requires
        el.wf(),
        el.true_anomaly == PI_FP,
    ensures
        radius_of(el) == apoapsis_spec(el.semi_major_axis as int, el.eccentricity as int),
{
    lemma_radius_factors(el.semi_major_axis as int, el.eccentricity as int);
}

/// On a circular orbit the radius is the semi-major axis itself, for every
/// cosine value and hence for every true anomaly.
pub proof fn lemma_circular_radius_constant(a: int)
    requires
        0 < a,
    ensures
        forall|c: int| #[trigger] radius_spec(a, 0, c) == a,
{
    let fp = FP_ONE as int;
    assert forall|c: int| #[trigger] radius_spec(a, 0, c) == a by {
        lemma_div_multiples_vanish(a, fp * fp);
        assert(a * (fp * fp - 0 * 0) == (fp * fp) * a) by (nonlinear_arith);
        assert(fp * fp + 0 * c == fp * fp) by (nonlinear_arith);
    }
}

/// Tracing is deterministic: any two position sequences that satisfy the
/// tracer's contract for the same elements and sample count are equal,
/// element for element and as a whole.
pub proof fn lemma_trace_deterministic(
    el: KeplerianElements,
    n: nat,
    s1: Seq<Vec3>,
    s2: Seq<Vec3>,
)
    requires
        s1.len() == n,
        s2.len() == n,
        forall|k: int| 0 <= k < n ==> (#[trigger] s1[k]).coords() == trace_spec(el, n)[k],
        forall|k: int| 0 <= k < n ==> (#[trigger] s2[k]).coords() == trace_spec(el, n)[k],
    ensures
        s1 == s2,
{
    assert forall|k: int| 0 <= k < n implies s1[k] == s2[k] by {
        assert(s1[k].coords() == s2[k].coords());
    }
    assert(s1 =~= s2);
}

/// With the two nodal angles at zero and the body at periapsis, the
/// position points along the inertial x axis with magnitude exactly the
/// periapsis distance, for every valid inclination.
pub proof fn lemma_position_at_periapsis(el: KeplerianElements)
    requires
        el.wf(),
        el.true_anomaly == 0,
        el.argument_of_periapsis == 0,
        el.longitude_of_ascending_node == 0,
    ensures
        position_spec(el) == (
            periapsis_spec(el.semi_major_axis as int, el.eccentricity as int),
            0int,
            0int,
        ),
{
    let r = radius_spec(el.semi_major_axis as int, el.eccentricity as int, cos_spec(0));
    lemma_trig_axes();
    lemma_radius_at_periapsis(el);
    lemma_mul_fp_one(r);
    lemma_mul_fp_zero(r);
    lemma_mul_fp_zero(cos_spec(el.inclination as int));
    lemma_mul_fp_zero(sin_spec(el.inclination as int));
}

/// With the two nodal angles at zero and the body at apoapsis, the
/// position points along the negative inertial x axis with magnitude
/// exactly the apoapsis distance, for every valid inclination.
pub proof fn lemma_position_at_apoapsis(el: KeplerianElements)
    requires
        el.wf(),
        el.true_anomaly == PI_FP,
        el.argument_of_periapsis == 0,
        el.longitude_of_ascending_node == 0,
    ensures
        position_spec(el) == (
            -apoapsis_spec(el.semi_major_axis as int, el.eccentricity as int),
            0int,
            0int,
        ),
{
    let r = radius_spec(
        el.semi_major_axis as int,
        el.eccentricity as int,
        cos_spec(PI_FP as int),
    );
    lemma_trig_axes();
    lemma_radius_at_apoapsis(el);
    lemma_mul_fp_neg_one(r);
    lemma_mul_fp_zero(r);
    lemma_mul_fp_one(-r);
    lemma_mul_fp_zero(-r);
    lemma_mul_fp_zero(cos_spec(el.inclination as int));
    lemma_mul_fp_zero(sin_spec(el.inclination as int));
}

/// With the inclination and both nodal angles at zero, the orbit lies in
/// the inertial x-y plane: the position is the perifocal position itself.
pub proof fn lemma_flat_position(el: KeplerianElements)
    requires
        el.wf(),
        el.inclination == 0,
        el.argument_of_periapsis == 0,
        el.longitude_of_ascending_node == 0,
    ensures
        position_spec(el) == (
            mul_fp_spec(radius_of(el), cos_spec(el.true_anomaly as int)),
            mul_fp_spec(radius_of(el), sin_spec(el.true_anomaly as int)),
            0int,
        ),
{
    lemma_trig_axes();
    let c_nu = cos_spec(el.true_anomaly as int);
    let s_nu = sin_spec(el.true_anomaly as int);
    let r = radius_of(el);
    let x_pf = mul_fp_spec(r, c_nu);
    let y_pf = mul_fp_spec(r, s_nu);
    lemma_mul_fp_one(x_pf);
    lemma_mul_fp_zero(x_pf);
    lemma_mul_fp_one(y_pf);
    lemma_mul_fp_zero(y_pf);
}

/// Four evenly spaced samples of a circular orbit in the reference plane
/// sit on the inertial axes, a quarter turn apart, each at radius equal to
/// the semi-major axis.
pub proof fn lemma_circular_trace_quadrants(el: KeplerianElements)
    requires
        el.wf(),
        el.eccentricity == 0,
        el.inclination == 0,
        el.argument_of_periapsis == 0,
        el.longitude_of_ascending_node == 0,
    ensures
        trace_spec(el, 4).len() == 4,
        trace_spec(el, 4)[0] == (el.semi_major_axis as int, 0int, 0int),
        trace_spec(el, 4)[1] == (0int, el.semi_major_axis as int, 0int),
        trace_spec(el, 4)[2] == (-(el.semi_major_axis as int), 0int, 0int),
        trace_spec(el, 4)[3] == (0int, -(el.semi_major_axis as int), 0int),
{
    let a = el.semi_major_axis as int;
    lemma_trig_axes();
    lemma_circular_radius_constant(a);
    lemma_mul_fp_one(a);
    lemma_mul_fp_neg_one(a);
    lemma_mul_fp_zero(a);
    lemma_mul_fp_zero(-a);
    assert(sample_anomaly_spec(0, 4) == 0);
    assert(sample_anomaly_spec(1, 4) == PI_FP / 2);
    assert(sample_anomaly_spec(2, 4) == PI_FP as int);
    assert(sample_anomaly_spec(3, 4) == 3 * (PI_FP / 2));
    lemma_flat_position(with_true_anomaly(el, sample_anomaly_spec(0, 4)));
    lemma_flat_position(with_true_anomaly(el, sample_anomaly_spec(1, 4)));
    lemma_flat_position(with_true_anomaly(el, sample_anomaly_spec(2, 4)));
    lemma_flat_position(with_true_anomaly(el, sample_anomaly_spec(3, 4)));
}

/// Shared factorization: against the exact cosines at periapsis and
/// apoapsis the radius fraction cancels to `a (1 -+ e) / FP_ONE`.
proof fn lemma_radius_factors(a: int, e: int)
    requires
        0 < a <= MAX_SEMI_MAJOR_AXIS,
        0 <= e < FP_ONE,
    ensures
        radius_spec(a, e, FP_ONE as int) == periapsis_spec(a, e),
        radius_spec(a, e, -(FP_ONE as int)) == apoapsis_spec(a, e),
{
    let fp = FP_ONE as int;
    let n = a * (fp * fp - e * e);
    assert(n == (fp + e) * (a * (fp - e)) && n == (fp - e) * (a * (fp + e)) && 0 <= a * (fp
        - e) && 0 <= a * (fp + e) && 0 <= n) by (nonlinear_arith)
        requires
            0 < a,
            0 <= e < fp,
            n == a * (fp * fp - e * e),
    ;
    // Periapsis: the denominator is fp * (fp + e).
    assert(fp * fp + e * fp == (fp + e) * fp) by (nonlinear_arith);
    lemma_div_denominator(n, fp + e, fp);
    lemma_div_multiples_vanish(a * (fp - e), fp + e);
    assert(radius_spec(a, e, fp) == (n / (fp + e)) / fp);
    assert(n / (fp + e) == a * (fp - e));
    // Apoapsis: the denominator is fp * (fp - e).
    assert(fp * fp + e * (-fp) == (fp - e) * fp) by (nonlinear_arith);
    lemma_div_denominator(n, fp - e, fp);
    lemma_div_multiples_vanish(a * (fp + e), fp - e);
    assert(radius_spec(a, e, -fp) == (n / (fp - e)) / fp);
    assert(n / (fp - e) == a * (fp + e));
}

} // verus!
