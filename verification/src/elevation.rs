//! Elevation enrichment: the tile need set, the tile index, and the join of
//! points to elevation samples.
//!
//! The index is built once per run from each tile's own embedded cell corner
//! and is read-only afterwards, so the join may run in parallel across
//! points. A point whose covering tile is absent is left unchanged by the
//! best-effort join; a strict variant instead refuses the whole operation
//! and names a missing tile key.

use vstd::prelude::*;
use std::collections::HashMap;
use rayon::iter::{IntoParallelRefMutIterator, ParallelIterator};

use crate::point::{is_00, is_no_fix, is_valid, is_valid_point, TrackPoint};
use crate::tile::{
    degree_floor_sc, key_code_of, key_lat, key_lon, lemma_key_code_injective, point_code,
    point_code_of, tile_key_of, tile_sample, Tile, TileKey,
};

verus! {

broadcast use vstd::std_specs::hash::group_hash_axioms;

/// The set of packed cell codes that a sequence of points needs covered:
/// one per distinct cell that contains a valid point.
pub open spec fn needed_codes(points: Seq<TrackPoint>) -> Set<int> {
    Set::new(
        |c: int|
            exists|i: int|
                0 <= i < points.len() && is_valid_point(#[trigger] points[i]) && point_code(
                    points[i],
                ) == c,
    )
}

/// Collects the deduplicated tile keys needed to cover all valid points.
/// The result lists, in first-appearance order and each exactly once, the
/// cell of every valid point; invalid points contribute nothing.
pub fn needed_tile_coords(wps: &Vec<TrackPoint>) -> (r: Vec<TileKey>)
    ensures
        forall|s: int, t: int| 0 <= s < t < r@.len() ==> r@[s].code() != r@[t].code(),
        forall|t: int|
            0 <= t < r@.len() ==> -90 <= #[trigger] r@[t].lat <= 89 && -180 <= r@[t].lon <= 179,
        forall|t: int| 0 <= t < r@.len() ==> #[trigger] is_needed_key(r@[t], wps@),
        forall|j: int|
            0 <= j < wps@.len() && is_valid_point(wps@[j]) ==> #[trigger] cell_covered(
                wps@[j],
                r@,
            ),
{
    let mut r: Vec<TileKey> = Vec::new();
    let ghost mut wit: Seq<int> = Seq::empty();
    let ghost mut cov: Seq<int> = Seq::empty();
    let n = wps.len();
    let mut i: usize = 0;
    while i < n
        invariant
            n == wps@.len(),
            i <= n,
            wit.len() == r@.len(),
            cov.len() == i as int,
            forall|s: int, t: int| 0 <= s < t < r@.len() ==> r@[s].code() != r@[t].code(),
            forall|t: int|
                0 <= t < r@.len() ==> -90 <= #[trigger] r@[t].lat <= 89 && -180 <= r@[t].lon
                    <= 179,
            forall|t: int|
                0 <= t < r@.len() ==> 0 <= #[trigger] wit[t] < i && is_valid_point(wps@[wit[t]])
                    && key_lat(wps@[wit[t]]) == r@[t].lat as int && key_lon(wps@[wit[t]])
                    == r@[t].lon as int,
            forall|j: int|
                0 <= j < i && is_valid_point(wps@[j]) ==> 0 <= #[trigger] cov[j] < r@.len()
                    && r@[cov[j]].code() == point_code(wps@[j]),
        decreases n - i,
    {
        if is_valid(&wps[i]) {
            let k = tile_key_of(&wps[i]);
            proof {
                crate::tile::lemma_degree_floor_range(wps@[i as int].latitude as int, -90, 90);
                crate::tile::lemma_degree_floor_range(wps@[i as int].longitude as int, -180, 180);
            }
            let mut found = false;
            let mut fidx: usize = 0;
            let m = r.len();
            let mut t: usize = 0;
            while t < m
                invariant
                    m == r@.len(),
                    t <= m,
                    found ==> fidx < m && r@[fidx as int] == k,
                    !found ==> forall|u: int| 0 <= u < t ==> r@[u] != k,
                decreases m - t,
            {
                if !found && r[t] == k {
                    found = true;
                    fidx = t;
                }
                t = t + 1;
            }
            if found {
                proof {
                    cov = cov.push(fidx as int);
                }
            } else {
                proof {
                    assert forall|u: int| 0 <= u < r@.len() implies r@[u].code() != k.code() by {
                        if r@[u].code() == k.code() {
                            lemma_key_code_injective(
                                r@[u].lat as int,
                                r@[u].lon as int,
                                k.lat as int,
                                k.lon as int,
                            );
                        }
                    }
                }
                r.push(k);
                proof {
                    wit = wit.push(i as int);
                    cov = cov.push(r@.len() - 1);
                    assert(r@[r@.len() - 1] == k);
                }
            }
        } else {
            proof {
                cov = cov.push(0);
            }
        }
        i = i + 1;
    }
    proof {
        assert forall|t: int| 0 <= t < r@.len() implies #[trigger] is_needed_key(
            r@[t],
            wps@,
        ) by {
            let j = wit[t];
            assert(0 <= j < wps@.len() && is_valid_point(wps@[j]) && key_lat(wps@[j])
                == r@[t].lat as int && key_lon(wps@[j]) == r@[t].lon as int);
        }
        assert forall|j: int| 0 <= j < wps@.len() && is_valid_point(wps@[j])
            implies #[trigger] cell_covered(wps@[j], r@) by {
            let t = cov[j];
            assert(0 <= t < r@.len() && (r@[t]).code() == point_code(wps@[j]));
        }
    }
    r
}

/// A key that some valid point of the track actually needs: its fields are
/// the degree floors of that point's coordinates.
pub open spec fn is_needed_key(k: TileKey, wps: Seq<TrackPoint>) -> bool {
    exists|j: int|
        0 <= j < wps.len() && is_valid_point(#[trigger] wps[j]) && key_lat(wps[j]) == k.lat as int
            && key_lon(wps[j]) == k.lon as int
}

/// Some key of the list addresses the cell containing this point.
pub open spec fn cell_covered(p: TrackPoint, r: Seq<TileKey>) -> bool {
    exists|t: int| 0 <= t < r.len() && (#[trigger] r[t]).code() == point_code(p)
}

/// An in-memory mapping from packed cell code to its loaded tile, built once
/// per run and read-only afterwards.
pub struct TileIndex {
    pub map: HashMap<i64, Tile>,
}

impl View for TileIndex {
    type V = Map<i64, Tile>;

    open spec fn view(&self) -> Map<i64, Tile> {
        self.map@
    }
}

impl TileIndex {
    /// Every stored tile is well formed and sits under its own cell code.
    pub open spec fn wf(self) -> bool {
        forall|c: i64|
            self.map@.contains_key(c) ==> (#[trigger] self.map@[c]).wf() && self.map@[c].code()
                == c as int
    }
}

/// Indexes tiles by their own embedded cell corner (not by whatever key they
/// were requested under). Keys are unique; of several tiles for one cell,
/// one of them is kept.
pub fn index_tiles(tiles: Vec<Tile>) -> (r: TileIndex)
    requires
        forall|j: int| 0 <= j < tiles@.len() ==> (#[trigger] tiles@[j]).wf(),
    ensures
        r.wf(),
        forall|j: int|
            0 <= j < tiles@.len() ==> r@.contains_key(((#[trigger] tiles@[j]).code()) as i64),
        forall|c: i64|
            r@.contains_key(c) ==> exists|j: int|
                0 <= j < tiles@.len() && #[trigger] tiles@[j] == r@[c],
{
    let ghost orig = tiles@;
    let mut tiles = tiles;
    let mut map: HashMap<i64, Tile> = HashMap::new();
    while tiles.len() > 0
        invariant
            tiles@ == orig.take(tiles@.len() as int),
            tiles@.len() <= orig.len(),
            forall|j: int| 0 <= j < orig.len() ==> (#[trigger] orig[j]).wf(),
            forall|c: i64|
                map@.contains_key(c) ==> (#[trigger] map@[c]).wf() && map@[c].code() == c as int,
            forall|j: int|
                tiles@.len() <= j < orig.len() ==> map@.contains_key(
                    ((#[trigger] orig[j]).code()) as i64,
                ),
            forall|c: i64|
                map@.contains_key(c) ==> exists|j: int|
                    tiles@.len() <= j < orig.len() && #[trigger] orig[j] == map@[c],
        decreases tiles@.len(),
    {
        match tiles.pop() {
            Some(t) => {
                proof {
                    assert(orig.take(tiles@.len() as int + 1).drop_last() =~= orig.take(
                        tiles@.len() as int,
                    ));
                }
                let code: i64 = (t.latitude as i64) * 1000 + (t.longitude as i64);
                map.insert(code, t);
            },
            None => {
                proof {
                    assert(false);
                }
            },
        }
    }
    TileIndex { map }
}

/// Whether the join touches a point at all: the no-fix sentinel is skipped,
/// and an existing elevation is only replaced when overwriting is requested.
pub open spec fn join_touches(p: TrackPoint, overwrite: bool) -> bool {
    !is_no_fix(p) && (overwrite || p.elevation is None)
}

/// What the join makes of one point. A touched point whose covering tile is
/// indexed takes the tile's sample at its exact coordinate — no sample there
/// (void data) clears the elevation; a missing tile, or an untouched point,
/// leaves the point unchanged.
pub open spec fn joined_point(p: TrackPoint, m: Map<i64, Tile>, overwrite: bool) -> TrackPoint {
    if join_touches(p, overwrite) && m.contains_key(point_code(p) as i64) {
        match tile_sample(m[point_code(p) as i64], p.latitude as int, p.longitude as int) {
            Some(s) => TrackPoint { elevation: Some((s * 1000) as i64), ..p },
            None => TrackPoint { elevation: None, ..p },
        }
    } else {
        p
    }
}

/// The join applied to every point of a track, order preserved.
pub open spec fn joined_track(s: Seq<TrackPoint>, m: Map<i64, Tile>, overwrite: bool) -> Seq<
    TrackPoint,
> {
    s.map_values(|p: TrackPoint| joined_point(p, m, overwrite))
}

/// Joins one point to its elevation sample under the overwrite policy.
pub fn join_point(wp: &mut TrackPoint, index: &TileIndex, overwrite: bool)
    requires
        index.wf(),
    ensures
        *final(wp) == joined_point(*old(wp), index@, overwrite),
{
    let touched = !is_00(wp) && (overwrite || wp.elevation.is_none());
    if !touched {
        return ;
    }
    let code = point_code_of(wp);
    match index.map.get(&code) {
        Some(t) => {
            let s = t.sample(wp.latitude, wp.longitude);
            wp.elevation = match s {
                Some(v) => Some((v as i64) * 1000),
                None => None,
            };
        },
        None => {},
    }
}

/// Adds elevation to every point, best effort: a point whose covering tile
/// is not indexed is left unchanged, never an error. Points are independent,
/// so the work runs in parallel across them.
pub fn add_elev_unchecked(points: &mut Vec<TrackPoint>, index: &TileIndex, overwrite: bool)
    requires
        index.wf(),
    ensures
        final(points)@ == joined_track(old(points)@, index@, overwrite),
{
    par_join_points(points, index, overwrite);
}

/// Relies on rayon's parallel mutable iteration: `par_iter_mut().for_each(f)`
/// applies `f` to each element of the vector exactly once, elements pairwise
/// independent; `f` here only calls the verified `join_point`.
#[verifier::external_body]
fn par_join_points(points: &mut Vec<TrackPoint>, index: &TileIndex, overwrite: bool)
    requires
        index.wf(),
    ensures
        final(points)@ == joined_track(old(points)@, index@, overwrite),
{
    points.par_iter_mut().for_each(|wp| join_point(wp, index, overwrite));
}

/// A tile key that the strict join needed and the index lacked.
#[derive(Clone, Copy, Debug, PartialEq, Eq, Structural)]
pub struct MissingTile {
    pub lat: i32,
    pub lon: i32,
}

/// Does the index hold a tile for every point the join would touch?
pub open spec fn fully_covered(s: Seq<TrackPoint>, m: Map<i64, Tile>, overwrite: bool) -> bool {
    forall|i: int|
        0 <= i < s.len() && join_touches(#[trigger] s[i], overwrite) ==> m.contains_key(
            point_code(s[i]) as i64,
        )
}

/// The strict join: succeeds, joining every point, exactly when the index
/// covers every point the join touches; otherwise changes nothing and names
/// a missing tile key.
pub fn add_elev_strict(points: &mut Vec<TrackPoint>, index: &TileIndex, overwrite: bool) -> (r:
    Result<(), MissingTile>)
    requires
        index.wf(),
    ensures
        match r {
            Ok(()) => {
                &&& fully_covered(old(points)@, index@, overwrite)
                &&& final(points)@ == joined_track(old(points)@, index@, overwrite)
            },
            Err(k) => {
                &&& !fully_covered(old(points)@, index@, overwrite)
                &&& final(points)@ == old(points)@
                &&& exists|i: int|
                    0 <= i < old(points)@.len() && join_touches(
                        #[trigger] old(points)@[i],
                        overwrite,
                    ) && point_code(old(points)@[i]) == key_code_of(k.lat as int, k.lon as int)
                        && !index@.contains_key(point_code(old(points)@[i]) as i64)
            },
        },
{
    let n = points.len();
    let mut i: usize = 0;
    while i < n
        invariant
            index.wf(),
            n == points@.len(),
            i <= n,
            forall|j: int|
                0 <= j < i && join_touches(#[trigger] points@[j], overwrite)
                    ==> index@.contains_key(point_code(points@[j]) as i64),
        decreases n - i,
    {
        let wp = &points[i];
        let touched = !is_00(wp) && (overwrite || wp.elevation.is_none());
        if touched {
            let code = point_code_of(wp);
            if !index.map.contains_key(&code) {
                let lat = degree_floor_sc(wp.latitude);
                let lon = degree_floor_sc(wp.longitude);
                return Err(MissingTile { lat, lon });
            }
        }
        i = i + 1;
    }
    par_join_points(points, index, overwrite);
    Ok(())
}

/// After a join, a point with no elevation whose covering tile is indexed
/// and holds a sample at its coordinate carries exactly that sample.
pub proof fn lemma_join_fills_missing(
    p: TrackPoint,
    m: Map<i64, Tile>,
    overwrite: bool,
    s: i16,
)
    requires
        !is_no_fix(p),
        p.elevation is None,
        m.contains_key(point_code(p) as i64),
        tile_sample(m[point_code(p) as i64], p.latitude as int, p.longitude as int) == Some(s),
    ensures
        joined_point(p, m, overwrite).elevation == Some((s * 1000) as i64),
{
}

/// The join mutates a point's elevation only: coordinates, timestamp and
/// speed come through unchanged, whatever the index and the policy.
pub proof fn lemma_join_changes_only_elevation(p: TrackPoint, m: Map<i64, Tile>, overwrite: bool)
    ensures
        joined_point(p, m, overwrite).latitude == p.latitude,
        joined_point(p, m, overwrite).longitude == p.longitude,
        joined_point(p, m, overwrite).time == p.time,
        joined_point(p, m, overwrite).speed == p.speed,
{
}

/// With overwriting off, a point that already has an elevation is left
/// entirely unchanged by the join.
pub proof fn lemma_join_respects_existing(p: TrackPoint, m: Map<i64, Tile>)
    requires
        p.elevation is Some,
    ensures
        joined_point(p, m, false) == p,
{
}

/// Joining one point twice with the same index and overwriting on gives the
/// same point as joining it once.
pub proof fn lemma_join_idempotent_point(p: TrackPoint, m: Map<i64, Tile>)
    ensures
        joined_point(joined_point(p, m, true), m, true) == joined_point(p, m, true),
{
}

/// Joining a track twice with the same index and overwriting on gives the
/// same track as joining it once.
pub proof fn lemma_join_idempotent(s: Seq<TrackPoint>, m: Map<i64, Tile>)
    ensures
        joined_track(joined_track(s, m, true), m, true) == joined_track(s, m, true),
{
    let once = joined_track(s, m, true);
    assert forall|i: int| 0 <= i < once.len() implies #[trigger] joined_track(once, m, true)[i]
        == once[i] by {
        lemma_join_idempotent_point(s[i], m);
    }
    assert(joined_track(once, m, true) =~= once);
}

/// Two valid points inside the same one-degree cell need exactly one tile.
pub proof fn lemma_need_set_dedup(p1: TrackPoint, p2: TrackPoint)
    requires
        is_valid_point(p1),
        is_valid_point(p2),
        key_lat(p1) == key_lat(p2),
        key_lon(p1) == key_lon(p2),
    ensures
        needed_codes(seq![p1, p2]) == set![point_code(p1)],
{
    let s = seq![p1, p2];
    assert(s[0] == p1);
    assert(needed_codes(s).contains(point_code(p1)));
    assert forall|c: int| needed_codes(s).contains(c) implies c == point_code(p1) by {
        let i = choose|i: int|
            0 <= i < s.len() && is_valid_point(#[trigger] s[i]) && point_code(s[i]) == c;
        assert(i == 0 || i == 1);
    }
    assert(needed_codes(s) =~= set![point_code(p1)]);
}

} // verus!
