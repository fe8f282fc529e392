//! Backing file names for terrain tiles.
//!
//! Each one-degree cell is stored in a raster file named after the cell's
//! south-west corner, so the name is derived deterministically from the tile
//! key alone.

use vstd::prelude::*;

use crate::tile::TileKey;

verus! {

/// The decimal digit character for a value from 0 to 9.
pub open spec fn digit_char(d: int) -> char {
    if d == 0 {
        '0'
    } else if d == 1 {
        '1'
    } else if d == 2 {
        '2'
    } else if d == 3 {
        '3'
    } else if d == 4 {
        '4'
    } else if d == 5 {
        '5'
    } else if d == 6 {
        '6'
    } else if d == 7 {
        '7'
    } else if d == 8 {
        '8'
    } else {
        '9'
    }
}

/// The backing file name of a cell's tile: the latitude hemisphere letter
/// with the two-digit zero-padded degree magnitude, the longitude hemisphere
/// letter with three digits, and the raster extension — `N47E016.hgt`,
/// `S01W001.hgt`.
pub open spec fn tile_file_name_spec(lat: int, lon: int) -> Seq<char> {
    let alat = if lat >= 0 {
        lat
    } else {
        -lat
    };
    let alon = if lon >= 0 {
        lon
    } else {
        -lon
    };
    seq![
        if lat >= 0 {
            'N'
        } else {
            'S'
        },
        digit_char(alat / 10),
        digit_char(alat % 10),
        if lon >= 0 {
            'E'
        } else {
            'W'
        },
        digit_char(alon / 100),
        digit_char((alon / 10) % 10),
        digit_char(alon % 10),
        '.',
        'h',
        'g',
        't',
    ]
}

/// Relies on the raster reader's tile naming (srtm_reader::Coord's file-name
/// derivation): hemisphere letter plus the zero-padded whole-degree
/// magnitude for each axis, then `.hgt`.
#[verifier::external_body]
pub(crate) fn tile_file_name(lat: i8, lon: i16) -> (r: String)
    requires
        -90 <= lat <= 89,
        -180 <= lon <= 179,
    ensures
        r@ == tile_file_name_spec(lat as int, lon as int),
{
    srtm_reader::Coord::from((lat, lon)).get_filename()
}

/// The backing file name for each needed tile key, in order.
pub fn needed_tile_files(keys: &Vec<TileKey>) -> (r: Vec<String>)
    requires
        forall|t: int|
            0 <= t < keys@.len() ==> -90 <= #[trigger] keys@[t].lat <= 89 && -180 <= keys@[t].lon
                <= 179,
    ensures
        r@.len() == keys@.len(),
        forall|t: int|
            0 <= t < keys@.len() ==> (#[trigger] r@[t])@ == tile_file_name_spec(
                keys@[t].lat as int,
                keys@[t].lon as int,
            ),
{
    let mut r: Vec<String> = Vec::new();
    let n = keys.len();
    let mut i: usize = 0;
    while i < n
        invariant
            n == keys@.len(),
            i <= n,
            r@.len() == i,
            forall|t: int|
                0 <= t < keys@.len() ==> -90 <= #[trigger] keys@[t].lat <= 89 && -180
                    <= keys@[t].lon <= 179,
            forall|t: int|
                0 <= t < i ==> (#[trigger] r@[t])@ == tile_file_name_spec(
                    keys@[t].lat as int,
                    keys@[t].lon as int,
                ),
        decreases n - i,
    {
        let name = tile_file_name(keys[i].lat, keys[i].lon);
        r.push(name);
        i = i + 1;
    }
    r
}

} // verus!
