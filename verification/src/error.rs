//! The ways in which an input is refused.

use vstd::prelude::*;

verus! {

/// Why an operation of this crate refused its input.
#[derive(Clone, Copy, Debug, PartialEq, Eq, Structural)]
pub enum Error {
    /// The three points of a plane lie on one line, so it has no normal.
    DegenerateFrame,
    /// No calibration reading was supplied.
    EmptyCalibration,
    /// The data row at this index does not consist of exactly three numbers.
    MalformedRow(usize),
    /// No valid data row is left.
    NoValidData,
    /// A plane layout holds this many values instead of six.
    MalformedLayout(usize),
    /// A coordinate or height lies outside `-COORD_LIMIT ..= COORD_LIMIT`.
    OutOfRange,
    /// The normals of two planes point in opposite directions, so that the
    /// axis of the rotation between them is undefined.
    OpposedNormals,
    /// A rotated point has no exact coordinates: the rotation is to be
    /// applied numerically.
    RotationNotExact,
}

} // verus!
