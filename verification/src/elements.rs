//! Validated Keplerian orbital elements.
//!
//! The constructor is the only validation point: a `KeplerianElements`
//! value, once built, always satisfies `KeplerianElements::wf`, and no
//! downstream code re-checks it.

use vstd::prelude::*;

verus! {

use crate::fixed::microdeg_to_microrad;
use crate::fixed::microdeg_to_microrad_spec;
use crate::fixed::norm_angle;
use crate::fixed::norm_angle_spec;
use crate::fixed::FP_ONE;
use crate::fixed::PI_FP;
use crate::fixed::TWO_PI_FP;

/// The largest accepted semi-major axis, in millimeters (ten to the
/// eleventh kilometers). The cap keeps every intermediate product of the
/// Cartesian conversion inside a machine word.
pub const MAX_SEMI_MAJOR_AXIS: i64 = 100_000_000_000_000_000;

/// The largest length accepted by `Length::from_kilometers`, in
/// kilometers: any larger value would overflow the millimeter scale.
pub const MAX_KILOMETERS: i64 = 9_000_000_000_000;

/// Why a set of raw scalars was rejected.
#[derive(Clone, Copy, Debug, PartialEq, Eq, Structural)]
pub enum OrbitError {
    /// The semi-major axis is not strictly positive, or too large to
    /// represent.
    InvalidSemiMajorAxis,
    /// The eccentricity lies outside `[0, 1)`.
    InvalidEccentricity,
    /// The inclination lies outside `[0, pi]`.
    InvalidInclination,
    /// The gravitational parameter is not strictly positive.
    InvalidGravitationalParameter,
}

/// An angle, tagged with its unit at the call site and normalized to
/// microradians on construction.
#[derive(Clone, Copy, Debug, PartialEq, Eq, Structural)]
pub struct Angle {
    pub microradians: i64,
}

impl Angle {
    /// Wraps a value already measured in microradians.
    pub fn from_microradians(value: i64) -> (a: Angle)
        ensures
            a.microradians == value,
    {
        Angle { microradians: value }
    }

    /// Converts a value measured in microdegrees.
    pub fn from_microdegrees(value: i64) -> (a: Angle)
        ensures
            a.microradians as int == microdeg_to_microrad_spec(value as int),
    {
        Angle { microradians: microdeg_to_microrad(value) }
    }
}

/// A length, tagged with its unit at the call site and normalized to
/// millimeters (a millionth of a kilometer) on construction.
#[derive(Clone, Copy, Debug, PartialEq, Eq, Structural)]
pub struct Length {
    pub millimeters: i64,
}

impl Length {
    /// Wraps a value already measured in millimeters.
    pub fn from_millimeters(value: i64) -> (l: Length)
        ensures
            l.millimeters == value,
    {
        Length { millimeters: value }
    }

    /// Converts a value measured in kilometers.
    pub fn from_kilometers(value: i64) -> (l: Length)
        requires
            -MAX_KILOMETERS <= value <= MAX_KILOMETERS,
        ensures
            l.millimeters == value * 1_000_000,
    {
        Length { millimeters: value * 1_000_000 }
    }
}

/// A validated, immutable set of classical orbital elements. Lengths are
/// in millimeters, angles in microradians, eccentricity in millionths.
#[derive(Clone, Copy, Debug, PartialEq, Eq, Structural)]
pub struct KeplerianElements {
    pub semi_major_axis: i64,
    pub eccentricity: i64,
    pub inclination: i64,
    pub longitude_of_ascending_node: i64,
    pub argument_of_periapsis: i64,
    pub true_anomaly: i64,
}

impl KeplerianElements {
    /// Physical admissibility: a strictly positive (and representable)
    /// semi-major axis, an elliptical eccentricity, an inclination within
    /// `[0, pi]`, and the three free angles reduced into one turn.
    pub open spec fn wf(self) -> bool {
        &&& 0 < self.semi_major_axis <= MAX_SEMI_MAJOR_AXIS
        &&& 0 <= self.eccentricity < FP_ONE
        &&& 0 <= self.inclination <= PI_FP
        &&& 0 <= self.longitude_of_ascending_node < TWO_PI_FP
        &&& 0 <= self.argument_of_periapsis < TWO_PI_FP
        &&& 0 <= self.true_anomaly < TWO_PI_FP
    }

    /// Validates the six raw scalars and builds the element record.
    ///
    /// The checks run in a fixed order and each failure carries its own
    /// error: the semi-major axis must be strictly positive (and at most
    /// `MAX_SEMI_MAJOR_AXIS`), the eccentricity must lie in `[0, 1)`, the
    /// inclination in `[0, pi]`. The remaining three angles are never
    /// rejected: they are reduced into `[0, 2 pi)`.
    pub fn new(
        semi_major_axis: Length,
        eccentricity: i64,
        inclination: Angle,
        longitude_of_ascending_node: Angle,
        argument_of_periapsis: Angle,
        true_anomaly: Angle,
    ) -> (res: Result<KeplerianElements, OrbitError>)
        ensures
            !(0 < semi_major_axis.millimeters <= MAX_SEMI_MAJOR_AXIS)
                ==> res == Err::<KeplerianElements, OrbitError>(OrbitError::InvalidSemiMajorAxis),
            0 < semi_major_axis.millimeters <= MAX_SEMI_MAJOR_AXIS
                && !(0 <= eccentricity < FP_ONE)
                ==> res == Err::<KeplerianElements, OrbitError>(OrbitError::InvalidEccentricity),
            0 < semi_major_axis.millimeters <= MAX_SEMI_MAJOR_AXIS
                && 0 <= eccentricity < FP_ONE
                && !(0 <= inclination.microradians <= PI_FP)
                ==> res == Err::<KeplerianElements, OrbitError>(OrbitError::InvalidInclination),
            0 < semi_major_axis.millimeters <= MAX_SEMI_MAJOR_AXIS
                && 0 <= eccentricity < FP_ONE
                && 0 <= inclination.microradians <= PI_FP
                ==> (res matches Ok(el) && el == (KeplerianElements {
                    semi_major_axis: semi_major_axis.millimeters,
                    eccentricity,
                    inclination: inclination.microradians,
                    longitude_of_ascending_node: (norm_angle_spec(
                        longitude_of_ascending_node.microradians as int,
                    )) as i64,
                    argument_of_periapsis: (norm_angle_spec(
                        argument_of_periapsis.microradians as int,
                    )) as i64,
                    true_anomaly: (norm_angle_spec(true_anomaly.microradians as int)) as i64,
                })),
            res matches Ok(el) ==> el.wf(),
    {
        if semi_major_axis.millimeters <= 0 || semi_major_axis.millimeters > MAX_SEMI_MAJOR_AXIS {
            return Err(OrbitError::InvalidSemiMajorAxis);
        }
        if eccentricity < 0 || eccentricity >= FP_ONE {
            return Err(OrbitError::InvalidEccentricity);
        }
        if inclination.microradians < 0 || inclination.microradians > PI_FP {
            return Err(OrbitError::InvalidInclination);
        }
        Ok(KeplerianElements {
            semi_major_axis: semi_major_axis.millimeters,
            eccentricity,
            inclination: inclination.microradians,
            longitude_of_ascending_node: norm_angle(longitude_of_ascending_node.microradians),
            argument_of_periapsis: norm_angle(argument_of_periapsis.microradians),
            true_anomaly: norm_angle(true_anomaly.microradians),
        })
    }
}

} // verus!
