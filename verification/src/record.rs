//! Mapping one raw activity record to a normalized track point.
//!
//! A raw record carries the source format's native encodings: coordinates in
//! semicircles, altitude in fifths of a metre offset by 500 m, speed in the
//! format's raw unit, and a timestamp counted from the format's own epoch.
//! The mapper is a pure transform to the library's units; validity filtering
//! is a separate step.

use vstd::prelude::*;

use crate::point::TrackPoint;

verus! {

/// The activity format's epoch, as a UNIX timestamp: raw timestamps count
/// seconds from the last day of 1989, not from the UNIX epoch.
pub const FIT_EPOCH_UNIX_S: i64 = 631065600;

/// The typed fields of one raw track record, under the source format's fixed
/// field numbering for record messages: latitude and longitude in
/// semicircles, altitude both in its plain and its higher-resolution
/// ("enhanced") encoding, speed likewise, and the record timestamp.
#[derive(Clone, Copy, Debug)]
pub struct RawRecord {
    pub timestamp: Option<u32>,
    pub position_lat: Option<i32>,
    pub position_long: Option<i32>,
    pub altitude: Option<u16>,
    pub enhanced_altitude: Option<u32>,
    pub speed: Option<u16>,
    pub enhanced_speed: Option<u32>,
}

/// The track point a raw record maps to.
///
/// A missing coordinate becomes 0, which validation later treats as the
/// "no fix" sentinel. The enhanced altitude is preferred over the plain one;
/// a raw altitude `a` means `a/5 - 500` metres, that is `a*200 - 500000`
/// millimetres; missing altitude yields no elevation, not zero. The enhanced
/// speed is preferred over the plain one and the raw value is kept unscaled.
/// A raw timestamp is moved from the activity-format epoch to the UNIX epoch;
/// a missing timestamp yields no timestamp.
pub open spec fn mapped_point(r: RawRecord) -> TrackPoint {
    TrackPoint {
        latitude: match r.position_lat {
            Some(v) => v,
            None => 0,
        },
        longitude: match r.position_long {
            Some(v) => v,
            None => 0,
        },
        elevation: match raw_altitude(r) {
            Some(a) => Some((a * 200 - 500000) as i64),
            None => None,
        },
        time: match r.timestamp {
            Some(t) => Some((t + FIT_EPOCH_UNIX_S) as i64),
            None => None,
        },
        speed: raw_speed(r),
    }
}

/// The altitude encoding a record provides, the enhanced one preferred.
pub open spec fn raw_altitude(r: RawRecord) -> Option<int> {
    match r.enhanced_altitude {
        Some(e) => Some(e as int),
        None => match r.altitude {
            Some(a) => Some(a as int),
            None => None,
        },
    }
}

/// The speed encoding a record provides, the enhanced one preferred.
pub open spec fn raw_speed(r: RawRecord) -> Option<u32> {
    match r.enhanced_speed {
        Some(e) => Some(e),
        None => match r.speed {
            Some(s) => Some(s as u32),
            None => None,
        },
    }
}

/// Converts one raw activity record into a normalized track point.
pub fn map_record(rec: &RawRecord) -> (p: TrackPoint)
    ensures
        p == mapped_point(*rec),
{
    let latitude = match rec.position_lat {
        Some(v) => v,
        None => 0,
    };
    let longitude = match rec.position_long {
        Some(v) => v,
        None => 0,
    };
    let raw_alt: Option<u32> = match rec.enhanced_altitude {
        Some(e) => Some(e),
        None => match rec.altitude {
            Some(a) => Some(a as u32),
            None => None,
        },
    };
    let elevation: Option<i64> = match raw_alt {
        Some(a) => Some((a as i64) * 200 - 500000),
        None => None,
    };
    let time: Option<i64> = match rec.timestamp {
        Some(t) => Some((t as i64) + FIT_EPOCH_UNIX_S),
        None => None,
    };
    let speed: Option<u32> = match rec.enhanced_speed {
        Some(e) => Some(e),
        None => match rec.speed {
            Some(s) => Some(s as u32),
            None => None,
        },
    };
    TrackPoint { latitude, longitude, elevation, time, speed }
}

} // verus!
