//! Linear rescaling of a value from one interval onto another, on integers.
//!
//! The simulation that uses it (launch angles, time samples, projectile
//! paths) works in floating point and lives in the program around this
//! library.

pub mod range;

pub use range::normalize;
