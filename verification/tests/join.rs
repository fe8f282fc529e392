//! The elevation join: need set, index, best-effort and strict joins.

use fit2gpx::elevation::{
    add_elev_strict, add_elev_unchecked, index_tiles, needed_tile_coords, MissingTile, TileIndex,
};
use fit2gpx::point::{validate, TrackPoint};
use fit2gpx::tile::{Tile, TileKey};

// (47.5, 16.5), (47.9, 16.5) and (48.5, 16.5) degrees, in semicircles.
const LAT_47_5: i32 = 566_697_073;
const LAT_47_9: i32 = 571_469_259;
const LAT_48_5: i32 = 578_627_538;
const LON_16_5: i32 = 196_852_667;
const LAT_100: i32 = 1_193_046_471;

fn point_at(lat_sc: i32, lon_sc: i32, elevation: Option<i64>) -> TrackPoint {
    TrackPoint { latitude: lat_sc, longitude: lon_sc, elevation, time: None, speed: None }
}

fn tile_47_16(sample: i16) -> Tile {
    Tile::from_grid(47, 16, 2, vec![sample, 20, 30, 40]).unwrap()
}

fn index_47_16(sample: i16) -> TileIndex {
    index_tiles(vec![tile_47_16(sample)])
}

#[test]
fn need_set_deduplicates_same_cell() {
    // Two points inside the same one-degree cell produce exactly one entry.
    let wps = vec![
        point_at(LAT_47_5, LON_16_5, None),
        point_at(LAT_47_9, LON_16_5, None),
    ];
    let keys = needed_tile_coords(&wps);
    assert_eq!(keys, vec![TileKey { lat: 47, lon: 16 }]);
}

#[test]
fn need_set_lists_each_cell_once() {
    let wps = vec![
        point_at(LAT_47_5, LON_16_5, None),
        point_at(LAT_48_5, LON_16_5, None),
        point_at(LAT_47_9, LON_16_5, None),
    ];
    let keys = needed_tile_coords(&wps);
    assert_eq!(
        keys,
        vec![TileKey { lat: 47, lon: 16 }, TileKey { lat: 48, lon: 16 }]
    );
}

#[test]
fn need_set_skips_invalid_and_no_fix_points() {
    let wps = vec![
        point_at(0, 0, None),
        point_at(LAT_100, LON_16_5, None),
    ];
    assert!(needed_tile_coords(&wps).is_empty());
}

#[test]
fn out_of_range_point_is_dropped_before_any_join() {
    // A point outside the valid coordinate range is excluded entirely by the
    // validator and never reaches the join step.
    let wps = vec![
        point_at(LAT_100, i32::MAX, None),
        point_at(LAT_47_5, LON_16_5, None),
    ];
    let kept = validate(wps);
    assert_eq!(kept, vec![point_at(LAT_47_5, LON_16_5, None)]);
}

#[test]
fn index_is_keyed_by_the_tile_own_corner() {
    let index = index_tiles(vec![
        tile_47_16(7),
        Tile::from_grid(48, 16, 2, vec![9, 9, 9, 9]).unwrap(),
    ]);
    assert!(index.map.contains_key(&47_016));
    assert!(index.map.contains_key(&48_016));
    assert!(!index.map.contains_key(&49_016));
    assert_eq!(index.map.len(), 2);
}

#[test]
fn join_fills_missing_elevation_from_tile_sample() {
    // A point with no elevation and a covering tile with a real sample gets
    // exactly that sample.
    let index = index_47_16(12);
    let mut points = vec![point_at(LAT_47_5, LON_16_5, None)];
    add_elev_unchecked(&mut points, &index, false);
    assert_eq!(points[0].elevation, Some(12_000));
}

#[test]
fn join_without_overwrite_keeps_existing_elevation() {
    let index = index_47_16(12);
    let mut points = vec![point_at(LAT_47_5, LON_16_5, Some(5_500))];
    add_elev_unchecked(&mut points, &index, false);
    assert_eq!(points[0].elevation, Some(5_500));
}

#[test]
fn join_with_overwrite_replaces_existing_elevation() {
    let index = index_47_16(12);
    let mut points = vec![point_at(LAT_47_5, LON_16_5, Some(5_500))];
    add_elev_unchecked(&mut points, &index, true);
    assert_eq!(points[0].elevation, Some(12_000));
}

#[test]
fn join_clears_elevation_on_void_sample() {
    let index = index_47_16(-9999);
    let mut points = vec![point_at(LAT_47_5, LON_16_5, Some(5_500))];
    add_elev_unchecked(&mut points, &index, true);
    assert_eq!(points[0].elevation, None);
}

#[test]
fn join_leaves_point_alone_when_tile_missing() {
    let index = index_47_16(12);
    let mut points = vec![point_at(LAT_48_5, LON_16_5, None)];
    add_elev_unchecked(&mut points, &index, true);
    assert_eq!(points[0].elevation, None);
}

#[test]
fn join_skips_no_fix_sentinel() {
    let index = index_tiles(vec![Tile::from_grid(0, 0, 2, vec![3, 3, 3, 3]).unwrap()]);
    let mut points = vec![point_at(0, 0, None)];
    add_elev_unchecked(&mut points, &index, true);
    assert_eq!(points[0].elevation, None);
}

#[test]
fn join_twice_with_overwrite_equals_join_once() {
    // Idempotence: a second join with the same index and overwrite on changes
    // nothing further.
    let mk_points = || {
        vec![
            point_at(LAT_47_5, LON_16_5, None),
            point_at(LAT_47_9, LON_16_5, Some(1_000)),
            point_at(LAT_48_5, LON_16_5, Some(2_000)),
            point_at(0, 0, None),
        ]
    };
    let mut once = mk_points();
    add_elev_unchecked(&mut once, &index_47_16(12), true);
    let mut twice = mk_points();
    add_elev_unchecked(&mut twice, &index_47_16(12), true);
    add_elev_unchecked(&mut twice, &index_47_16(12), true);
    assert_eq!(once, twice);
}

#[test]
fn end_to_end_partial_coverage() {
    // Three points, two inside cell (47, 16) and one inside (48, 16): the
    // need set holds exactly those two keys; with only the (47, 16) tile
    // loaded, the two points in it get sampled elevation and the third is
    // left untouched.
    let points = vec![
        point_at(LAT_47_5, LON_16_5, None),
        point_at(LAT_47_9, LON_16_5, None),
        point_at(LAT_48_5, LON_16_5, None),
    ];
    let keys = needed_tile_coords(&points);
    assert_eq!(
        keys,
        vec![TileKey { lat: 47, lon: 16 }, TileKey { lat: 48, lon: 16 }]
    );
    let index = index_tiles(vec![tile_47_16(7)]);
    let mut points = points;
    add_elev_unchecked(&mut points, &index, false);
    assert_eq!(points[0].elevation, Some(7_000));
    assert_eq!(points[1].elevation, Some(7_000));
    assert_eq!(points[2].elevation, None);
}

#[test]
fn strict_join_names_the_missing_tile() {
    let index = index_47_16(7);
    let mut points = vec![
        point_at(LAT_47_5, LON_16_5, None),
        point_at(LAT_48_5, LON_16_5, None),
    ];
    let r = add_elev_strict(&mut points, &index, false);
    assert_eq!(r, Err(MissingTile { lat: 48, lon: 16 }));
    // Nothing was changed.
    assert_eq!(points[0].elevation, None);
    assert_eq!(points[1].elevation, None);
}

#[test]
fn strict_join_succeeds_under_full_coverage() {
    let index = index_47_16(7);
    let mut points = vec![
        point_at(LAT_47_5, LON_16_5, None),
        point_at(LAT_47_9, LON_16_5, None),
    ];
    let r = add_elev_strict(&mut points, &index, false);
    assert_eq!(r, Ok(()));
    assert_eq!(points[0].elevation, Some(7_000));
    assert_eq!(points[1].elevation, Some(7_000));
}

#[test]
fn strict_join_ignores_untouched_points() {
    // With overwrite off, a point that already has an elevation needs no
    // tile, so a gap under it does not fail the strict join.
    let index = index_47_16(7);
    let mut points = vec![
        point_at(LAT_47_5, LON_16_5, None),
        point_at(LAT_48_5, LON_16_5, Some(4_000)),
    ];
    let r = add_elev_strict(&mut points, &index, false);
    assert_eq!(r, Ok(()));
    assert_eq!(points[0].elevation, Some(7_000));
    assert_eq!(points[1].elevation, Some(4_000));
}
