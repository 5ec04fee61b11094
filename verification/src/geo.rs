//! Geographic points in fixed-point micro-degrees, and the exact planar
//! error measures used by the open-window compression algorithms.

use vstd::prelude::*;

verus! {

/// A geographic point: `x` is the longitude and `y` the latitude, both in
/// micro-degrees.
#[derive(Clone, Copy, Debug, PartialEq, Eq, Structural)]
pub struct Coordinate {
    pub x: i64,
    pub y: i64,
}

impl Coordinate {
    /// A coordinate lies on the globe: longitude within 180 degrees and
    /// latitude within 90 degrees of zero.
    pub open spec fn wf(self) -> bool {
        &&& -180_000_000 <= self.x <= 180_000_000
        &&& -90_000_000 <= self.y <= 90_000_000
    }

    pub fn from_tuple(tup: (i64, i64)) -> (r: Coordinate)
        ensures
            r.x == tup.0,
            r.y == tup.1,
    {
        Coordinate { x: tup.0, y: tup.1 }
    }
}

/// Squared planar distance between two points, in squared micro-degrees.
pub open spec fn dist_sq(a: Coordinate, b: Coordinate) -> int {
    (b.x - a.x) * (b.x - a.x) + (b.y - a.y) * (b.y - a.y)
}

/// Dot product of `m - s` with `e - s`, the numerator of the projection
/// parameter of `m` onto the segment from `s` to `e`.
pub open spec fn seg_dot(s: Coordinate, e: Coordinate, m: Coordinate) -> int {
    (m.x - s.x) * (e.x - s.x) + (m.y - s.y) * (e.y - s.y)
}

/// Whether the squared planar distance from `m` to the segment from `s` to
/// `e` exceeds `eps_sq` (squared micro-degrees): the distance to the
/// orthogonal projection of `m` onto the segment when that projection
/// falls inside it, and to the nearer endpoint otherwise.  In the interior
/// case the squared distance is the exact rational
/// `(|m - s|^2 |e - s|^2 - ((m - s).(e - s))^2) / |e - s|^2`, so the
/// comparison is made against `eps_sq |e - s|^2` and never divides.
pub open spec fn seg_dist_sq_exceeds(s: Coordinate, e: Coordinate, m: Coordinate, eps_sq: int) -> bool {
    let len2 = dist_sq(s, e);
    let dot = seg_dot(s, e, m);
    if len2 == 0 {
        dist_sq(s, m) > eps_sq
    } else if dot <= 0 {
        dist_sq(s, m) > eps_sq
    } else if dot >= len2 {
        dist_sq(e, m) > eps_sq
    } else {
        dist_sq(s, m) * len2 - dot * dot > eps_sq * len2
    }
}

/// The integer time ratio used by time-ratio open-window compression: the
/// quotient of the elapsed times (evaluated only on forward spans, where
/// it is the floored ratio), or one when the span is empty.
pub open spec fn time_ratio(ts_s: int, ts_m: int, ts_e: int) -> int {
    if ts_e - ts_s != 0 {
        (ts_m - ts_s) / (ts_e - ts_s)
    } else {
        1
    }
}

/// The point the segment from `s` to `e` is sampled at by the integer time
/// ratio: `s + r (e - s)` componentwise.
pub open spec fn sed_proj(s: Coordinate, e: Coordinate, r: int) -> (int, int) {
    (s.x + (e.x - s.x) * r, s.y + (e.y - s.y) * r)
}

/// Squared synchronized Euclidean distance of the midpoint `m` at time
/// `ts_m` against the segment from `(s, ts_s)` to `(e, ts_e)`.
pub open spec fn sed_err_sq(s: Coordinate, ts_s: int, m: Coordinate, ts_m: int, e: Coordinate, ts_e: int) -> int {
    let r = time_ratio(ts_s, ts_m, ts_e);
    let (px, py) = sed_proj(s, e, r);
    (px - m.x) * (px - m.x) + (py - m.y) * (py - m.y)
}

} // verus!
