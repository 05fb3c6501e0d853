use keplerian::cartesian::Vec3;
use keplerian::elements::Angle;
use keplerian::elements::KeplerianElements;
use keplerian::elements::Length;
use keplerian::elements::OrbitError;
use keplerian::fixed::FP_ONE;
use keplerian::fixed::HALF_PI_FP;
use keplerian::fixed::PI_FP;
use keplerian::fixed::TWO_PI_FP;
use keplerian::trig::cos_fp;
use keplerian::trig::sin_fp;

const MU_EARTH: i64 = 398_600_441_800;

fn zero_angle() -> Angle {
    Angle::from_microradians(0)
}

fn leo(eccentricity: i64) -> KeplerianElements {
    KeplerianElements::new(
        Length::from_kilometers(7000),
        eccentricity,
        zero_angle(),
        zero_angle(),
        zero_angle(),
        zero_angle(),
    )
    .unwrap()
}

fn magnitude_km(p: &Vec3) -> f64 {
    let x = p.x as f64;
    let y = p.y as f64;
    let z = p.z as f64;
    (x * x + y * y + z * z).sqrt() * 1e-6
}

#[test]
fn periapsis_scenario() {
    // a = 7000 km, e = 0.01, i = 98 deg, node, periapsis and anomaly zero:
    // the position points along x with the periapsis distance a (1 - e).
    let el = KeplerianElements::new(
        Length::from_kilometers(7000),
        10_000,
        Angle::from_microdegrees(98_000_000),
        zero_angle(),
        zero_angle(),
        zero_angle(),
    )
    .unwrap();
    let p = el.position(MU_EARTH).unwrap();
    assert_eq!(p, Vec3 { x: 6_930_000_000, y: 0, z: 0 });
    assert!((magnitude_km(&p) - 6930.0).abs() < 1e-9);
}

#[test]
fn apoapsis_scenario() {
    // At a true anomaly of half a turn the radius is a (1 + e).
    let el = KeplerianElements::new(
        Length::from_kilometers(7000),
        10_000,
        zero_angle(),
        zero_angle(),
        zero_angle(),
        Angle::from_microradians(PI_FP),
    )
    .unwrap();
    let p = el.position(MU_EARTH).unwrap();
    assert_eq!(p, Vec3 { x: -7_070_000_000, y: 0, z: 0 });
}

#[test]
fn circular_trace_four_points() {
    // Four samples of a circular orbit sit on the axes, a quarter turn
    // apart, each at radius 7000 km exactly.
    let el = leo(0);
    let points = el.trace(MU_EARTH, 4).unwrap();
    let a: i64 = 7_000_000_000;
    assert_eq!(
        points,
        vec![
            Vec3 { x: a, y: 0, z: 0 },
            Vec3 { x: 0, y: a, z: 0 },
            Vec3 { x: -a, y: 0, z: 0 },
            Vec3 { x: 0, y: -a, z: 0 },
        ]
    );
}

#[test]
fn trace_returns_exactly_n_points() {
    let el = leo(10_000);
    assert_eq!(el.trace(MU_EARTH, 0).unwrap().len(), 0);
    assert_eq!(el.trace(MU_EARTH, 7).unwrap().len(), 7);
    assert_eq!(el.trace(MU_EARTH, 100).unwrap().len(), 100);
}

#[test]
fn trace_is_deterministic() {
    let el = KeplerianElements::new(
        Length::from_kilometers(7000),
        300_000,
        Angle::from_microdegrees(45_000_000),
        Angle::from_microdegrees(60_000_000),
        Angle::from_microdegrees(30_000_000),
        zero_angle(),
    )
    .unwrap();
    let first = el.trace(MU_EARTH, 33).unwrap();
    let second = el.trace(MU_EARTH, 33).unwrap();
    assert_eq!(first, second);
}

#[test]
fn eccentricity_rejected() {
    let res = KeplerianElements::new(
        Length::from_kilometers(7000),
        FP_ONE,
        zero_angle(),
        zero_angle(),
        zero_angle(),
        zero_angle(),
    );
    assert_eq!(res, Err(OrbitError::InvalidEccentricity));
    let res = KeplerianElements::new(
        Length::from_kilometers(7000),
        -100_000,
        zero_angle(),
        zero_angle(),
        zero_angle(),
        zero_angle(),
    );
    assert_eq!(res, Err(OrbitError::InvalidEccentricity));
}

#[test]
fn semi_major_axis_rejected() {
    let res = KeplerianElements::new(
        Length::from_kilometers(0),
        10_000,
        zero_angle(),
        zero_angle(),
        zero_angle(),
        zero_angle(),
    );
    assert_eq!(res, Err(OrbitError::InvalidSemiMajorAxis));
    let res = KeplerianElements::new(
        Length::from_kilometers(-7000),
        10_000,
        zero_angle(),
        zero_angle(),
        zero_angle(),
        zero_angle(),
    );
    assert_eq!(res, Err(OrbitError::InvalidSemiMajorAxis));
}

#[test]
fn inclination_rejected() {
    let res = KeplerianElements::new(
        Length::from_kilometers(7000),
        10_000,
        Angle::from_microradians(-1),
        zero_angle(),
        zero_angle(),
        zero_angle(),
    );
    assert_eq!(res, Err(OrbitError::InvalidInclination));
    let res = KeplerianElements::new(
        Length::from_kilometers(7000),
        10_000,
        Angle::from_microradians(PI_FP + 1),
        zero_angle(),
        zero_angle(),
        zero_angle(),
    );
    assert_eq!(res, Err(OrbitError::InvalidInclination));
}

#[test]
fn gravitational_parameter_rejected() {
    let el = leo(10_000);
    assert_eq!(el.position(0), Err(OrbitError::InvalidGravitationalParameter));
    assert_eq!(el.position(-5), Err(OrbitError::InvalidGravitationalParameter));
    assert_eq!(el.trace(0, 4), Err(OrbitError::InvalidGravitationalParameter));
    assert_eq!(el.trace(-5, 4), Err(OrbitError::InvalidGravitationalParameter));
}

#[test]
fn free_angles_normalized() {
    let el = KeplerianElements::new(
        Length::from_kilometers(7000),
        10_000,
        zero_angle(),
        Angle::from_microradians(TWO_PI_FP + 123),
        Angle::from_microradians(-HALF_PI_FP),
        Angle::from_microradians(3 * TWO_PI_FP),
    )
    .unwrap();
    assert_eq!(el.longitude_of_ascending_node, 123);
    assert_eq!(el.argument_of_periapsis, 3 * HALF_PI_FP);
    assert_eq!(el.true_anomaly, 0);
}

#[test]
fn circular_orbit_radius_constant() {
    // On a circular orbit every sampled position sits at radius a.
    let el = leo(0);
    let points = el.trace(MU_EARTH, 12).unwrap();
    assert_eq!(points.len(), 12);
    for p in &points {
        assert!((magnitude_km(p) - 7000.0).abs() / 7000.0 < 1e-4);
    }
}

#[test]
fn sampled_radius_matches_conic_equation() {
    // |position| tracks a (1 - e^2) / (1 + e cos nu) across a full
    // revolution of an inclined, rotated ellipse.
    let el = KeplerianElements::new(
        Length::from_kilometers(7000),
        300_000,
        Angle::from_microdegrees(45_000_000),
        Angle::from_microdegrees(60_000_000),
        Angle::from_microdegrees(30_000_000),
        zero_angle(),
    )
    .unwrap();
    let n: usize = 8;
    let points = el.trace(MU_EARTH, n).unwrap();
    for (k, p) in points.iter().enumerate() {
        let nu = ((TWO_PI_FP as u128 * k as u128) / n as u128) as f64 * 1e-6;
        let expected = 7000.0 * (1.0 - 0.3 * 0.3) / (1.0 + 0.3 * nu.cos());
        assert!((magnitude_km(p) - expected).abs() / expected < 1e-4);
    }
}

#[test]
fn degree_conversion_is_exact_on_axes() {
    assert_eq!(Angle::from_microdegrees(180_000_000).microradians, PI_FP);
    assert_eq!(Angle::from_microdegrees(90_000_000).microradians, HALF_PI_FP);
    assert_eq!(Angle::from_microdegrees(-90_000_000).microradians, -HALF_PI_FP);
    assert_eq!(Angle::from_microdegrees(360_000_000).microradians, TWO_PI_FP);
    assert_eq!(Angle::from_microdegrees(98_000_000).microradians, 1_710_422);
}

#[test]
fn trig_exact_at_quadrant_boundaries() {
    assert_eq!(cos_fp(0), FP_ONE);
    assert_eq!(sin_fp(0), 0);
    assert_eq!(cos_fp(HALF_PI_FP), 0);
    assert_eq!(sin_fp(HALF_PI_FP), FP_ONE);
    assert_eq!(cos_fp(PI_FP), -FP_ONE);
    assert_eq!(sin_fp(PI_FP), 0);
    assert_eq!(cos_fp(3 * HALF_PI_FP), 0);
    assert_eq!(sin_fp(3 * HALF_PI_FP), -FP_ONE);
}

#[test]
fn trig_tracks_the_real_functions() {
    let mut v: i64 = 0;
    while v < TWO_PI_FP {
        let c = cos_fp(v) as f64 * 1e-6;
        let s = sin_fp(v) as f64 * 1e-6;
        let vr = v as f64 * 1e-6;
        assert!((c - vr.cos()).abs() < 1e-4);
        assert!((s - vr.sin()).abs() < 1e-4);
        v += 12_345;
    }
    assert_eq!(cos_fp(1_000_000), 540_303);
}
