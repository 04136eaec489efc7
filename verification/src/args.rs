//! The two input files of a run and their default names.

use vstd::prelude::*;

verus! {

/// The file of calibration readings that is read when none is named.
pub const DEFAULT_CALIBRATION: &'static str = "calibration.csv";

/// The file of samples that is read when none is named.
pub const DEFAULT_DATA: &'static str = "data.csv";

/// The calibration file and the data file of a run, in this order: each is
/// the one that was named on the command line, or else its default.
pub fn parse_args(calibration: Option<String>, data: Option<String>) -> (r: (String, String))
    ensures
        r.0@ == match calibration {
            Some(name) => name@,
            None => DEFAULT_CALIBRATION@,
        },
        r.1@ == match data {
            Some(name) => name@,
            None => DEFAULT_DATA@,
        },
{
    let calibration = match calibration {
        Some(name) => name,
        None => DEFAULT_CALIBRATION.to_owned(),
    };
    let data = match data {
        Some(name) => name,
        None => DEFAULT_DATA.to_owned(),
    };
    (calibration, data)
}

} // verus!
