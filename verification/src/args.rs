//! The configuration surface of a conversion run.

use vstd::prelude::*;

verus! {

/// A conversion run's configuration: the activity files to convert, the
/// directory holding the terrain data, whether elevation is joined onto the
/// points at all, and whether existing values (a point's elevation, an
/// already-converted file) are overwritten.
pub struct Cli {
    pub files: Vec<String>,
    pub elev_data_dir: String,
    pub add_elevation: bool,
    pub overwrite: bool,
}

} // verus!
