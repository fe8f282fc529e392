//! The track read from one activity file.

use vstd::prelude::*;

use crate::elevation::{
    add_elev_strict, fully_covered, join_touches, joined_track, MissingTile, TileIndex,
};
use crate::point::{is_valid, is_valid_point, lemma_filter_take_step, TrackPoint};
use crate::record::{map_record, mapped_point, RawRecord};
use crate::tile::{key_code_of, point_code};

verus! {

/// The ordered points of one track segment; the join mutates points in
/// place, never reorders or drops them.
pub struct TrackSegment {
    pub points: Vec<TrackPoint>,
}

/// One activity: where it came from, and the working set of track points
/// read from it.
pub struct Fit {
    pub file_name: String,
    pub track_segment: TrackSegment,
}

impl Fit {
    /// The same track under another file name.
    pub fn with_filename(self, fname: String) -> (r: Fit)
        ensures
            r.file_name == fname,
            r.track_segment == self.track_segment,
    {
        Fit { file_name: fname, ..self }
    }

    /// Builds the working track from one file's raw records: each record is
    /// mapped to a normalized point, and validation then drops the no-fix
    /// sentinel and out-of-range points, order preserved.
    pub fn from_records(file_name: String, records: &Vec<RawRecord>) -> (r: Fit)
        ensures
            r.file_name == file_name,
            r.track_segment.points@ == records@.map_values(
                |rr: RawRecord| mapped_point(rr),
            ).filter(|p: TrackPoint| is_valid_point(p)),
    {
        let ghost mapped = records@.map_values(|rr: RawRecord| mapped_point(rr));
        let ghost pred = |p: TrackPoint| is_valid_point(p);
        let mut points: Vec<TrackPoint> = Vec::new();
        let n = records.len();
        let mut i: usize = 0;
        while i < n
            invariant
                n == records@.len(),
                i <= n,
                mapped == records@.map_values(|rr: RawRecord| mapped_point(rr)),
                pred == (|p: TrackPoint| is_valid_point(p)),
                mapped.len() == n,
                points@ == mapped.take(i as int).filter(pred),
            decreases n - i,
        {
            proof {
                lemma_filter_take_step(mapped, pred, i as int);
            }
            let p = map_record(&records[i]);
            if is_valid(&p) {
                points.push(p);
            }
            i = i + 1;
        }
        proof {
            assert(mapped.take(n as int) =~= mapped);
        }
        Fit { file_name, track_segment: TrackSegment { points } }
    }

    /// The points of every track of a batch, concatenated in order: the
    /// sequence the batch-wide tile need set is computed over.
    pub fn all_points(fits: &Vec<Fit>) -> (r: Vec<TrackPoint>)
        ensures
            r@ == fits@.map_values(|f: Fit| f.track_segment.points@).flatten(),
    {
        let ghost segs = fits@.map_values(|f: Fit| f.track_segment.points@);
        let mut r: Vec<TrackPoint> = Vec::new();
        let n = fits.len();
        let mut i: usize = 0;
        while i < n
            invariant
                n == fits@.len(),
                i <= n,
                segs == fits@.map_values(|f: Fit| f.track_segment.points@),
                segs.len() == n,
                r@ == segs.take(i as int).flatten(),
            decreases n - i,
        {
            let points = &fits[i].track_segment.points;
            let m = points.len();
            let mut j: usize = 0;
            while j < m
                invariant
                    n == fits@.len(),
                    i < n,
                    segs == fits@.map_values(|f: Fit| f.track_segment.points@),
                    m == fits@[i as int].track_segment.points@.len(),
                    j <= m,
                    r@ == segs.take(i as int).flatten() + fits@[i as int].track_segment.points@.take(
                        j as int,
                    ),
                decreases m - j,
            {
                r.push(fits[i].track_segment.points[j]);
                proof {
                    let pts = fits@[i as int].track_segment.points@;
                    assert(pts.take(j as int + 1) =~= pts.take(j as int).push(pts[j as int]));
                    assert(r@ =~= segs.take(i as int).flatten() + pts.take(j as int + 1));
                }
                j = j + 1;
            }
            proof {
                let pts = fits@[i as int].track_segment.points@;
                assert(pts.take(m as int) =~= pts);
                assert(segs.take(i as int + 1) =~= segs.take(i as int).push(segs[i as int]));
                segs.take(i as int).lemma_flatten_push(segs[i as int]);
                assert(r@ =~= segs.take(i as int + 1).flatten());
            }
            i = i + 1;
        }
        proof {
            assert(segs.take(n as int) =~= segs);
        }
        r
    }

    /// The strict join on this track: succeeds, joining every point, exactly
    /// when the index holds a tile for every point the join touches;
    /// otherwise changes nothing and names a missing tile key.
    pub fn add_elev_loaded(&mut self, index: &TileIndex, overwrite: bool) -> (r: Result<
        (),
        MissingTile,
    >)
        requires
            index.wf(),
        ensures
            final(self).file_name == old(self).file_name,
            match r {
                Ok(()) => {
                    &&& fully_covered(old(self).track_segment.points@, index@, overwrite)
                    &&& final(self).track_segment.points@ == joined_track(
                        old(self).track_segment.points@,
                        index@,
                        overwrite,
                    )
                },
                Err(k) => {
                    &&& !fully_covered(old(self).track_segment.points@, index@, overwrite)
                    &&& final(self).track_segment.points@ == old(self).track_segment.points@
                    &&& exists|i: int|
                        0 <= i < old(self).track_segment.points@.len() && join_touches(
                            #[trigger] old(self).track_segment.points@[i],
                            overwrite,
                        ) && point_code(old(self).track_segment.points@[i]) == key_code_of(
                            k.lat as int,
                            k.lon as int,
                        ) && !index@.contains_key(point_code(old(self).track_segment.points@[i]) as i64)
                },
            },
    {
        add_elev_strict(&mut self.track_segment.points, index, overwrite)
    }
}

} // verus!
