//! Coordinates, waypoints, and the distance bound the heuristic rests on.
//!
//! Coordinates are WGS84 degrees scaled to microdegrees and held in `i64`.
//! Distances and edge lengths are millimeters held in `u64`. The routing
//! heuristic needs a distance that (a) never exceeds the length of any edge
//! joining two points and (b) obeys the triangle inequality, so that it is an
//! admissible lower bound on remaining path cost. `dist_lb` is such a
//! distance: a weighted Chebyshev metric that under-approximates the great
//! circle everywhere the graph's well-formedness ties edge lengths to it.

use vstd::prelude::*;

verus! {

/// Largest legal latitude, in microdegrees (90 degrees).
pub const LAT_LIMIT: i64 = 90_000_000;

/// Largest legal longitude, in microdegrees (180 degrees).
pub const LON_LIMIT: i64 = 180_000_000;

/// Millimeters spanned by one microdegree of latitude, rounded down.
pub const MM_PER_MICRODEG_LAT: u64 = 111;

/// Millimeters per microdegree of longitude: a deliberate under-estimate
/// (the true span shrinks with the cosine of the latitude), chosen so the
/// east-west term of `dist_lb` stays below the true span — and so edge
/// lengths can satisfy their well-formedness bound — everywhere south of
/// roughly 63 degrees of latitude.
pub const MM_PER_MICRODEG_LON: u64 = 50;

/// A coordinate pair lies on the globe.
pub open spec fn valid_coord(lng: int, lat: int) -> bool {
    &&& -(LON_LIMIT as int) <= lng <= LON_LIMIT as int
    &&& -(LAT_LIMIT as int) <= lat <= LAT_LIMIT as int
}

/// Absolute difference of two integers.
pub open spec fn abs_diff(a: int, b: int) -> int {
    if a >= b {
        a - b
    } else {
        b - a
    }
}

/// The heuristic's distance: millimeters, never more than the great-circle
/// distance between the two points (given the constants above), and a metric.
pub open spec fn spec_dist_lb(lng1: int, lat1: int, lng2: int, lat2: int) -> int {
    let ns = MM_PER_MICRODEG_LAT * abs_diff(lat1, lat2);
    let ew = MM_PER_MICRODEG_LON * abs_diff(lng1, lng2);
    if ns >= ew {
        ns
    } else {
        ew
    }
}

/// Computes `spec_dist_lb` on machine integers.
pub fn dist_lb(lng1: i64, lat1: i64, lng2: i64, lat2: i64) -> (d: u64)
    requires
        valid_coord(lng1 as int, lat1 as int),
        valid_coord(lng2 as int, lat2 as int),
    ensures
        d == spec_dist_lb(lng1 as int, lat1 as int, lng2 as int, lat2 as int),
{
    let dlat: u64 = if lat1 >= lat2 {
        (lat1 - lat2) as u64
    } else {
        (lat2 - lat1) as u64
    };
    let dlng: u64 = if lng1 >= lng2 {
        (lng1 - lng2) as u64
    } else {
        (lng2 - lng1) as u64
    };
    let ns: u64 = MM_PER_MICRODEG_LAT * dlat;
    let ew: u64 = MM_PER_MICRODEG_LON * dlng;
    if ns >= ew {
        ns
    } else {
        ew
    }
}

/// The distance from a point to itself is zero, and it is never negative.
pub proof fn lemma_dist_lb_nonneg(lng1: int, lat1: int, lng2: int, lat2: int)
    ensures
        spec_dist_lb(lng1, lat1, lng2, lat2) >= 0,
        spec_dist_lb(lng1, lat1, lng1, lat1) == 0,
{
}

/// The distance is symmetric in its two points.
pub proof fn lemma_dist_lb_symmetric(lng1: int, lat1: int, lng2: int, lat2: int)
    ensures
        spec_dist_lb(lng1, lat1, lng2, lat2) == spec_dist_lb(lng2, lat2, lng1, lat1),
{
}

/// The triangle inequality: going through a third point is never shorter.
pub proof fn lemma_dist_lb_triangle(
    lng1: int,
    lat1: int,
    lng2: int,
    lat2: int,
    lng3: int,
    lat3: int,
)
    ensures
        spec_dist_lb(lng1, lat1, lng3, lat3) <= spec_dist_lb(lng1, lat1, lng2, lat2)
            + spec_dist_lb(lng2, lat2, lng3, lat3),
{
}

/// One unit of a route: the coordinate and node reached by one edge
/// traversal, the way the edge belongs to, and the edge's length in
/// millimeters (the increment since the previous waypoint).
#[derive(Clone, Copy, Debug, PartialEq, Eq, Structural)]
pub struct Point {
    pub lng: i64,
    pub lat: i64,
    pub way_id: i64,
    pub node_id: i64,
    pub length: u64,
}

} // verus!
