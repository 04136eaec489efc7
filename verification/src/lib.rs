//! Exact three-point plane registration for displacement-sensor rigs.
//!
//! Three sensors at fixed XY positions report heights. The three points they
//! define span a plane; comparing the plane of a sample with the plane of a
//! calibrated baseline tells how the sensed body has moved.
//!
//! All quantities are fixed-point integers in one caller-chosen unit (the
//! same unit for X, Y, Z and the heights), of a magnitude up to
//! [`plane::COORD_LIMIT`]. Every operation in this crate is exact on these
//! integers: plane construction, the plane normal, degeneracy, averaging
//! with a stated rounding, and the motion between two planes. A motion
//! without rotation is given as its translation. A rotation is given by its
//! exact description, an axis and a cosine that are not normalised; its
//! numerical evaluation is left to the caller.
//!
//! - [`vector`]: points, vectors and their products
//! - [`measurement`]: readings, data rows and the mean of readings
//! - [`plane`]: the plane through three points
//! - [`isometry`]: the motion between two planes
//! - [`tracking`]: from calibration and samples to poses
//! - [`args`]: the input files of a run
//! - [`error`]: why an input is refused

pub mod args;
pub mod error;
pub mod isometry;
pub mod measurement;
pub mod plane;
pub mod tracking;
pub mod vector;
