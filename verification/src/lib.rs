//! A deterministic N-body orbital simulator built on configurable-precision
//! fixed-point arithmetic.
//!
//! The numeric core avoids floating point entirely: every quantity is a
//! scaled 64-bit integer, multiplications and divisions widen to 128 bits,
//! and overflow is trapped rather than wrapped.  Conversions to and from
//! IEEE-754 doubles operate on the raw bit patterns, so they are exact and
//! bit-reproducible.
use vstd::prelude::*;

mod fixed_point;
mod orbit;
mod planets;
mod quaternion;
mod vec3d;

pub use fixed_point::FixedPoint;
pub use fixed_point::FloatConversionError;
pub use fixed_point::SolarFp;
pub use fixed_point::StepFp;
pub use fixed_point::UnitFp;
pub use orbit::EnergySample;
pub use orbit::PositionSample;
pub use orbit::STEPS;
pub use orbit::SimulationError;
pub use orbit::SimulationReport;
pub use orbit::System;
pub use orbit::TIME_STEP_BITS;
pub use orbit::calculate_accel;
pub use orbit::checked_calculate_accel;
pub use planets::Body;
pub use planets::Gravity;
pub use planets::N_BODIES;
pub use planets::catalogue_body;
pub use planets::initial_bodies;
pub use quaternion::Quaternion;
pub use quaternion::QuaternionError;
pub use vec3d::PrintType;
pub use vec3d::SolarVec3D;
pub use vec3d::StepVec3D;
pub use vec3d::UnitVec3D;
pub use vec3d::Vec3D;

verus! {

} // verus!
