//! Tile-cell addressing and the in-memory terrain grid.
//!
//! A tile covers one degree by one degree. Its key is the pair of the
//! south-west corner's whole-degree coordinates, obtained by flooring a
//! point's coordinates toward negative infinity (truncation toward zero
//! would misclassify the southern and western hemispheres near cell edges).
//!
//! All angle arithmetic is exact: a coordinate `sc` in semicircles is
//! `sc * 45 / 2^29` degrees, so the degree floor is the Euclidean quotient
//! of `sc * 45` by `2^29`, and the position inside the cell is the
//! Euclidean remainder, a fraction of a degree with denominator `2^29`.

use vstd::prelude::*;
use vstd::arithmetic::div_mod::{
    lemma_fundamental_div_mod, lemma_mod_division_less_than_divisor,
};
use vstd::arithmetic::mul::lemma_mul_inequality;

use crate::point::TrackPoint;

verus! {

/// The whole-degree cell coordinate of a semicircle value: the degree value
/// floored toward negative infinity. (`/` on `int` is Euclidean, which is the
/// floor for this positive divisor.)
pub open spec fn degree_floor(sc: int) -> int {
    (sc * 45) / 0x2000_0000
}

/// The position inside the one-degree cell, as a fraction of a degree with
/// denominator `2^29`: `cell_frac(sc) / 2^29` degrees above the cell's
/// southern (or east of its western) edge.
pub open spec fn cell_frac(sc: int) -> int {
    (sc * 45) % 0x2000_0000
}

/// The degree floor lies in `[lo, hi)` whenever the scaled coordinate does.
pub proof fn lemma_degree_floor_range(sc: int, lo: int, hi: int)
    requires
        lo * 0x2000_0000 <= sc * 45 < hi * 0x2000_0000,
    ensures
        lo <= degree_floor(sc) < hi,
{
    let n = sc * 45;
    let d = 0x2000_0000int;
    lemma_fundamental_div_mod(n, d);
    lemma_mod_division_less_than_divisor(n, d);
}

/// The tile-key derivation is consistent with floor semantics: the cell with
/// key `k` contains exactly the coordinates from `k` degrees (inclusive) up
/// to `k + 1` degrees (exclusive); in particular a coordinate strictly south
/// or west of zero belongs to a negative cell.
pub proof fn lemma_degree_floor_is_floor(sc: int)
    ensures
        degree_floor(sc) * 0x2000_0000 <= sc * 45 < (degree_floor(sc) + 1) * 0x2000_0000,
        sc * 45 == degree_floor(sc) * 0x2000_0000 + cell_frac(sc),
        0 <= cell_frac(sc) < 0x2000_0000,
        sc < 0 ==> degree_floor(sc) < 0,
{
    let n = sc * 45;
    let d = 0x2000_0000int;
    lemma_fundamental_div_mod(n, d);
    lemma_mod_division_less_than_divisor(n, d);
}

/// The degree floor of any 32-bit semicircle value, with its range.
pub fn degree_floor_sc(sc: i32) -> (r: i32)
    ensures
        r as int == degree_floor(sc as int),
        -180 <= r < 180,
{
    let n: i64 = (sc as i64) * 45;
    proof {
        lemma_degree_floor_range(sc as int, -180, 180);
    }
    match n.checked_div_euclid(0x2000_0000) {
        Some(q) => q as i32,
        None => {
            proof {
                assert(false);
            }
            0
        },
    }
}

/// The position of a 32-bit semicircle value inside its one-degree cell.
pub fn cell_frac_sc(sc: i32) -> (m: u32)
    ensures
        m as int == cell_frac(sc as int),
{
    let n: i64 = (sc as i64) * 45;
    proof {
        lemma_mod_division_less_than_divisor(n as int, 0x2000_0000int);
    }
    match n.checked_rem_euclid(0x2000_0000) {
        Some(m) => m as u32,
        None => {
            proof {
                assert(false);
            }
            0
        },
    }
}

/// Identifies a one-degree-by-one-degree terrain cell by its south-west
/// corner's whole-degree latitude and longitude.
#[derive(Clone, Copy, Debug, PartialEq, Eq, Structural, Hash)]
pub struct TileKey {
    pub lat: i8,
    pub lon: i16,
}

/// Packs a cell coordinate pair into one integer. Injective as long as the
/// longitude part stays within `(-500, 500)`, which every degree floor does.
pub open spec fn key_code_of(lat: int, lon: int) -> int {
    lat * 1000 + lon
}

impl TileKey {
    /// The packed form of this key.
    pub open spec fn code(self) -> int {
        key_code_of(self.lat as int, self.lon as int)
    }
}

/// Packed cell codes collide only for distinct cells with far-fetched
/// longitude parts; degree floors always stay within `[-180, 180)`.
pub proof fn lemma_key_code_injective(lat1: int, lon1: int, lat2: int, lon2: int)
    requires
        -500 < lon1 < 500,
        -500 < lon2 < 500,
        key_code_of(lat1, lon1) == key_code_of(lat2, lon2),
    ensures
        lat1 == lat2,
        lon1 == lon2,
{
}

/// The cell key of a point's latitude degree floor.
pub open spec fn key_lat(p: TrackPoint) -> int {
    degree_floor(p.latitude as int)
}

/// The cell key of a point's longitude degree floor.
pub open spec fn key_lon(p: TrackPoint) -> int {
    degree_floor(p.longitude as int)
}

/// The packed code of the cell containing a point.
pub open spec fn point_code(p: TrackPoint) -> int {
    key_code_of(key_lat(p), key_lon(p))
}

/// The tile key of a point whose latitude is in range.
pub fn tile_key_of(p: &TrackPoint) -> (k: TileKey)
    requires
        crate::point::valid_latitude(p.latitude as int),
    ensures
        k.lat as int == key_lat(*p),
        k.lon as int == key_lon(*p),
        k.code() == point_code(*p),
{
    proof {
        lemma_degree_floor_range(p.latitude as int, -90, 90);
    }
    let klat = degree_floor_sc(p.latitude);
    let klon = degree_floor_sc(p.longitude);
    TileKey { lat: klat as i8, lon: klon as i16 }
}

/// The packed code of the cell containing any point, latitude in range or not.
pub fn point_code_of(p: &TrackPoint) -> (c: i64)
    ensures
        c as int == point_code(*p),
{
    let klat = degree_floor_sc(p.latitude);
    let klon = degree_floor_sc(p.longitude);
    (klat as i64) * 1000 + (klon as i64)
}

/// An in-memory terrain grid for exactly one cell.
///
/// `extent` samples span each axis; sample `(row, col)` of the grid sits at
/// `data[row * extent + col]`, row 0 along the cell's northern edge and
/// column 0 along its western edge, as the raster file format lays it out.
#[derive(Debug)]
pub struct Tile {
    pub latitude: i8,
    pub longitude: i16,
    pub extent: usize,
    pub data: Vec<i16>,
}

/// A grid value that means "no sample here" (void data in the raster source).
pub open spec fn is_void_sample(v: i16) -> bool {
    v == -9999 || v == i16::MIN
}

/// The grid row sampled for a latitude `cell_frac` of `m_lat`: the nearest
/// sample row at or north of the coordinate, row 0 being the northern edge.
pub open spec fn sample_row(m_lat: int, extent: int) -> int {
    ((0x2000_0000 - m_lat) * (extent - 1)) / 0x2000_0000
}

/// The grid column sampled for a longitude `cell_frac` of `m_lon`: the
/// nearest sample column at or west of the coordinate.
pub open spec fn sample_col(m_lon: int, extent: int) -> int {
    (m_lon * (extent - 1)) / 0x2000_0000
}

/// What sampling a tile at a coordinate returns: the grid value at the
/// coordinate's row and column, or nothing where the grid holds a void value.
pub open spec fn tile_sample(t: Tile, lat_sc: int, lon_sc: int) -> Option<i16> {
    let e = t.extent as int;
    let idx = sample_row(cell_frac(lat_sc), e) * e + sample_col(cell_frac(lon_sc), e);
    let v = t.data@[idx];
    if is_void_sample(v) {
        None
    } else {
        Some(v)
    }
}

impl Tile {
    /// A tile is well formed when its grid is square with at least one sample
    /// per axis and its anchor is a real cell corner.
    pub open spec fn wf(self) -> bool {
        &&& 1 <= self.extent
        &&& self.data@.len() == self.extent * self.extent
        &&& -90 <= self.latitude <= 89
        &&& -180 <= self.longitude <= 179
    }

    /// The packed code of the cell this tile covers.
    pub open spec fn code(self) -> int {
        key_code_of(self.latitude as int, self.longitude as int)
    }

    /// Builds a tile after checking well-formedness, so that unverified
    /// loaders cannot hand the library a malformed grid.
    pub fn from_grid(latitude: i8, longitude: i16, extent: usize, data: Vec<i16>) -> (r: Option<
        Tile,
    >)
        ensures
            match r {
                Some(t) => {
                    &&& t.latitude == latitude
                    &&& t.longitude == longitude
                    &&& t.extent == extent
                    &&& t.data@ == data@
                    &&& t.wf()
                },
                None => !(Tile { latitude, longitude, extent, data }).wf(),
            },
    {
        let n: usize = data.len();
        let square = extent.checked_mul(extent);
        let len_ok = match square {
            Some(s) => s == n,
            None => false,
        };
        if extent >= 1 && len_ok && -90 <= latitude && latitude <= 89 && -180 <= longitude
            && longitude <= 179 {
            Some(Tile { latitude, longitude, extent, data })
        } else {
            None
        }
    }

    /// The elevation sample covering the exact coordinate, or nothing where
    /// the grid holds a void value there.
    pub fn sample(&self, lat_sc: i32, lon_sc: i32) -> (r: Option<i16>)
        requires
            self.wf(),
        ensures
            r == tile_sample(*self, lat_sc as int, lon_sc as int),
    {
        let e: u64 = (self.extent - 1) as u64;
        let n: usize = self.data.len();
        proof {
            lemma_extent_small(self.extent as int, n as int);
        }
        let m_lat: u64 = cell_frac_sc(lat_sc) as u64;
        let m_lon: u64 = cell_frac_sc(lon_sc) as u64;
        proof {
            lemma_mod_division_less_than_divisor(lat_sc as int * 45, 0x2000_0000int);
            lemma_mod_division_less_than_divisor(lon_sc as int * 45, 0x2000_0000int);
            lemma_subcell_index_in_range(m_lat as int, m_lon as int, self.extent as int);
        }
        let row: u64 = ((0x2000_0000u64 - m_lat) * e) / 0x2000_0000u64;
        let col: u64 = (m_lon * e) / 0x2000_0000u64;
        let idx: usize = (row * (self.extent as u64) + col) as usize;
        let v = self.data[idx];
        if v == -9999 || v == i16::MIN {
            None
        } else {
            Some(v)
        }
    }
}

/// A square grid that fits in memory has a small extent.
proof fn lemma_extent_small(extent: int, len: int)
    requires
        1 <= extent,
        len == extent * extent,
        len <= u64::MAX,
    ensures
        extent < 0x1_0000_0000,
{
    if extent >= 0x1_0000_0000 {
        lemma_mul_inequality(0x1_0000_0000, extent, extent);
        assert(0x1_0000_0000 * extent >= 0x1_0000_0000 * 0x1_0000_0000) by {
            lemma_mul_inequality(0x1_0000_0000, extent, 0x1_0000_0000);
        }
        assert(false);
    }
}

/// The sampled row and column stay inside the grid, so the flat index stays
/// inside the data vector.
proof fn lemma_subcell_index_in_range(m_lat: int, m_lon: int, extent: int)
    requires
        1 <= extent,
        0 <= m_lat < 0x2000_0000,
        0 <= m_lon < 0x2000_0000,
    ensures
        0 <= sample_row(m_lat, extent) <= extent - 1,
        0 <= sample_col(m_lon, extent) <= extent - 1,
        0 <= sample_row(m_lat, extent) * extent + sample_col(m_lon, extent) < extent * extent,
{
    let d = 0x2000_0000int;
    let e = extent - 1;
    let row = sample_row(m_lat, extent);
    let col = sample_col(m_lon, extent);
    lemma_mul_inequality(0x2000_0000 - m_lat, 0x2000_0000, e);
    lemma_mul_inequality(m_lon, 0x2000_0000, e);
    assert(d * e == e * d) by {
        vstd::arithmetic::mul::lemma_mul_is_commutative(d, e);
    }
    assert((d * e) / d == e) by {
        vstd::arithmetic::div_mod::lemma_div_multiples_vanish(e, d);
    }
    assert(row <= e) by {
        vstd::arithmetic::div_mod::lemma_div_is_ordered((d - m_lat) * e, d * e, d);
    }
    assert(col <= e) by {
        vstd::arithmetic::div_mod::lemma_div_is_ordered(m_lon * e, d * e, d);
    }
    assert(0 <= row) by {
        vstd::arithmetic::div_mod::lemma_div_pos_is_pos((d - m_lat) * e, d);
        vstd::arithmetic::mul::lemma_mul_nonnegative(d - m_lat, e);
    }
    assert(0 <= col) by {
        vstd::arithmetic::div_mod::lemma_div_pos_is_pos(m_lon * e, d);
        vstd::arithmetic::mul::lemma_mul_nonnegative(m_lon, e);
    }
    assert(row * extent <= e * extent) by {
        lemma_mul_inequality(row, e, extent);
    }
    assert(e * extent + extent == extent * extent) by {
        vstd::arithmetic::mul::lemma_mul_is_distributive_add_other_way(extent, e, 1);
    }
}

} // verus!
