//! Conversion of classical (Keplerian) orbital elements into Cartesian
//! position vectors, and sampling of that conversion across one revolution
//! of true anomaly.
//!
//! All quantities are exact fixed-point integers scaled by one million
//! (`fixed::FP_ONE`): lengths in millimeters (a millionth of a kilometer),
//! angles in microradians, eccentricity in millionths. Keeping the whole
//! pipeline in integers makes every computation deterministic and lets each
//! step carry an exact contract.

pub mod cartesian;
pub mod elements;
pub mod fixed;
pub mod laws;
pub mod trig;
