//! Track points and the validity policy that admits them into a track.

use vstd::prelude::*;

verus! {

/// One sampled position along an activity.
///
/// `latitude` and `longitude` are in semicircles, the source format's angular
/// unit: `degrees = semicircles * 180 / 2^31`. A point with both coordinates
/// exactly zero is the "no fix" sentinel, not a real location at the origin.
/// `elevation` is in millimetres, `time` in UNIX seconds, `speed` in the
/// source format's raw unit (millimetres per second), kept unscaled.
#[derive(Clone, Copy, Debug, PartialEq, Eq)]
pub struct TrackPoint {
    pub latitude: i32,
    pub longitude: i32,
    pub elevation: Option<i64>,
    pub time: Option<i64>,
    pub speed: Option<u32>,
}

/// The "no fix" sentinel: both coordinates exactly zero.
pub open spec fn is_no_fix(p: TrackPoint) -> bool {
    p.latitude == 0 && p.longitude == 0
}

/// Latitude must lie in [-90, 90) degrees, that is [-2^30, 2^30) semicircles.
/// Longitude in [-180, 180) degrees covers every 32-bit semicircle value, so
/// it needs no separate test.
pub open spec fn valid_latitude(sc: int) -> bool {
    -0x4000_0000 <= sc < 0x4000_0000
}

/// A point that validation keeps: a real fix whose coordinate lies in range.
pub open spec fn is_valid_point(p: TrackPoint) -> bool {
    !is_no_fix(p) && valid_latitude(p.latitude as int)
}

/// Is this point the "no fix" sentinel (0; 0)?
pub fn is_00(wp: &TrackPoint) -> (r: bool)
    ensures
        r == is_no_fix(*wp),
{
    wp.latitude == 0 && wp.longitude == 0
}

/// Does validation keep this point?
pub fn is_valid(wp: &TrackPoint) -> (r: bool)
    ensures
        r == is_valid_point(*wp),
{
    !(wp.latitude == 0 && wp.longitude == 0) && -0x4000_0000 <= wp.latitude && wp.latitude
        < 0x4000_0000
}

/// Filters a sequence of points, keeping exactly the valid ones in order.
pub fn validate(points: Vec<TrackPoint>) -> (r: Vec<TrackPoint>)
    ensures
        r@ == points@.filter(|p: TrackPoint| is_valid_point(p)),
{
    let ghost pred = |p: TrackPoint| is_valid_point(p);
    let mut r: Vec<TrackPoint> = Vec::new();
    let n = points.len();
    let mut i: usize = 0;
    while i < n
        invariant
            n == points@.len(),
            i <= n,
            pred == (|p: TrackPoint| is_valid_point(p)),
            r@ == points@.take(i as int).filter(pred),
        decreases n - i,
    {
        proof {
            lemma_filter_take_step(points@, pred, i as int);
        }
        if is_valid(&points[i]) {
            r.push(points[i]);
        }
        i = i + 1;
    }
    proof {
        assert(points@.take(n as int) =~= points@);
    }
    r
}

/// Extending a prefix by one element extends its filtered form by that
/// element exactly when the predicate holds of it.
pub(crate) proof fn lemma_filter_take_step<A>(s: Seq<A>, pred: spec_fn(A) -> bool, i: int)
    requires
        0 <= i < s.len(),
    ensures
        s.take(i + 1).filter(pred) == if pred(s[i]) {
            s.take(i).filter(pred).push(s[i])
        } else {
            s.take(i).filter(pred)
        },
{
    reveal(Seq::filter);
    assert(s.take(i + 1).drop_last() =~= s.take(i));
    assert(s.take(i + 1).last() == s[i]);
}

} // verus!
