//! Batches of files and empty-input edge cases.

use fit2gpx::elevation::{add_elev_unchecked, index_tiles, needed_tile_coords};
use fit2gpx::point::{validate, TrackPoint};
use fit2gpx::record::RawRecord;
use fit2gpx::tile::TileKey;
use fit2gpx::Fit;

fn point_at(lat_sc: i32, lon_sc: i32) -> TrackPoint {
    TrackPoint { latitude: lat_sc, longitude: lon_sc, elevation: None, time: None, speed: None }
}

fn record_at(lat_sc: i32, lon_sc: i32) -> RawRecord {
    RawRecord {
        timestamp: None,
        position_lat: Some(lat_sc),
        position_long: Some(lon_sc),
        altitude: None,
        enhanced_altitude: None,
        speed: None,
        enhanced_speed: None,
    }
}

#[test]
fn empty_inputs_give_empty_outputs() {
    assert!(validate(Vec::new()).is_empty());
    assert!(needed_tile_coords(&Vec::new()).is_empty());
    let index = index_tiles(Vec::new());
    assert!(index.map.is_empty());
    let mut points: Vec<TrackPoint> = Vec::new();
    add_elev_unchecked(&mut points, &index, true);
    assert!(points.is_empty());
    let fit = Fit::from_records(String::from("e.fit"), &Vec::new());
    assert!(fit.track_segment.points.is_empty());
    assert!(Fit::all_points(&Vec::new()).is_empty());
}

#[test]
fn all_points_concatenates_in_order() {
    let a = Fit::from_records(
        String::from("a.fit"),
        &vec![record_at(566_697_073, 196_852_667), record_at(571_469_259, 196_852_667)],
    );
    let b = Fit::from_records(String::from("b.fit"), &vec![record_at(578_627_538, 196_852_667)]);
    let all = Fit::all_points(&vec![a, b]);
    assert_eq!(
        all,
        vec![
            point_at(566_697_073, 196_852_667),
            point_at(571_469_259, 196_852_667),
            point_at(578_627_538, 196_852_667),
        ]
    );
}

#[test]
fn batch_need_set_spans_all_files() {
    let a = Fit::from_records(String::from("a.fit"), &vec![record_at(566_697_073, 196_852_667)]);
    let b = Fit::from_records(
        String::from("b.fit"),
        &vec![record_at(571_469_259, 196_852_667), record_at(578_627_538, 196_852_667)],
    );
    let keys = needed_tile_coords(&Fit::all_points(&vec![a, b]));
    assert_eq!(
        keys,
        vec![TileKey { lat: 47, lon: 16 }, TileKey { lat: 48, lon: 16 }]
    );
}
