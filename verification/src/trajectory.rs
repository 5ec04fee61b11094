//! Per-object trajectory state: parallel columns of equal length holding one
//! row per retained sample, plus the four on-line compression algorithms.

use vstd::prelude::*;
use crate::geo::{Coordinate, dist_sq, seg_dist_sq_exceeds, sed_err_sq, seg_dot};
use crate::{MAX_SPEED, SPEED_SENTINEL, BEARING_SENTINEL, OPW_EPSILON_SQ, OPW_TR_EPSILON_SQ, UNIFORM_S, DEAD_REC_EPSILON, MAX_GEO_DIST};

verus! {

/// Relation between a row and the row that directly follows it, also
/// required at the junction when a delta trajectory is appended:
/// timestamps strictly increase, and the trip counter bumps by exactly one
/// on a stopped-to-moving transition and is unchanged otherwise.
pub open spec fn row_step(
    stopped0: i8, ts0: i32, trip0: i32,
    stopped1: i8, ts1: i32, trip1: i32,
) -> bool {
    &&& ts0 < ts1
    &&& if stopped0 == 1 && stopped1 != 1 {
            trip1 == trip0 + 1
        } else {
            trip1 == trip0
        }
}

/// The sliding history of one moving object, stored column-wise.  All
/// columns have the same length; row `i` is the object's `i`-th retained
/// sample.
#[derive(Debug)]
pub struct Trajectory {
    pub oid: i32,
    pub max_size: usize,
    pub coordinates: Vec<Coordinate>,
    pub timestamps: Vec<i32>,
    pub speed: Vec<i64>,
    pub bearing: Vec<i64>,
    pub stopped: Vec<i8>,
    pub trips: Vec<i32>,
    pub pois: Vec<i32>,
    pub flocks: Vec<Vec<i32>>,
}

impl Trajectory {
    /// Number of rows.
    pub open spec fn len_spec(self) -> nat {
        self.timestamps@.len()
    }

    /// All eight columns are equally long.
    pub open spec fn rows_aligned(self) -> bool {
        &&& self.coordinates@.len() == self.timestamps@.len()
        &&& self.speed@.len() == self.timestamps@.len()
        &&& self.bearing@.len() == self.timestamps@.len()
        &&& self.stopped@.len() == self.timestamps@.len()
        &&& self.trips@.len() == self.timestamps@.len()
        &&& self.pois@.len() == self.timestamps@.len()
        &&& self.flocks@.len() == self.timestamps@.len()
    }

    /// Constraints on a single row: the coordinate is on the globe, the
    /// speed sits between the seed sentinel and the outlier cutoff, the
    /// bearing is a valid angle, the stopped flag is a sentinel or a
    /// boolean, only a stopped row carries a point of interest, and the
    /// trip counter is non-negative.
    pub open spec fn row_ok(self, i: int) -> bool {
        &&& self.coordinates@[i].wf()
        &&& SPEED_SENTINEL <= self.speed@[i] <= MAX_SPEED
        &&& -180_000_000 <= self.bearing@[i] <= 180_000_000
        &&& (self.stopped@[i] == -1 || self.stopped@[i] == 0 || self.stopped@[i] == 1)
        &&& self.stopped@[i] != 1 ==> self.pois@[i] == -1
        &&& self.pois@[i] >= -1
        &&& self.trips@[i] >= 0
    }

    /// `row_step` between rows `i` and `i + 1`.
    pub open spec fn step_ok(self, i: int) -> bool {
        row_step(
            self.stopped@[i], self.timestamps@[i], self.trips@[i],
            self.stopped@[i + 1], self.timestamps@[i + 1], self.trips@[i + 1],
        )
    }

    /// Well-formedness: aligned columns, every row valid, and every
    /// adjacent pair of rows related by `row_step`.
    pub open spec fn wf(self) -> bool {
        &&& self.rows_aligned()
        &&& forall|i: int| 0 <= i < self.len_spec() ==> self.row_ok(i)
        &&& forall|i: int| 0 <= i && i + 1 < self.len_spec() ==> self.step_ok(i)
    }

    /// A delta trajectory may be appended when the junction pair is itself
    /// related by `row_step` (vacuously when either side is empty).
    pub open spec fn joins(self, delta: Trajectory) -> bool {
        self.len_spec() == 0 || delta.len_spec() == 0 || {
            let n = self.len_spec() - 1;
            row_step(
                self.stopped@[n], self.timestamps@[n], self.trips@[n],
                delta.stopped@[0], delta.timestamps@[0], delta.trips@[0],
            )
        }
    }

    pub open spec fn last_ts(self) -> i32 {
        self.timestamps@[self.len_spec() - 1]
    }

    pub open spec fn last_coord(self) -> Coordinate {
        self.coordinates@[self.len_spec() - 1]
    }

    pub open spec fn last_speed(self) -> i64 {
        self.speed@[self.len_spec() - 1]
    }

    pub open spec fn last_bearing(self) -> i64 {
        self.bearing@[self.len_spec() - 1]
    }

    pub open spec fn last_stopped(self) -> i8 {
        self.stopped@[self.len_spec() - 1]
    }

    pub open spec fn last_trip(self) -> i32 {
        self.trips@[self.len_spec() - 1]
    }

    pub open spec fn last_poi(self) -> i32 {
        self.pois@[self.len_spec() - 1]
    }

    /// A fresh trajectory holding only the seed row for its object:
    /// sentinel kinematics, trip zero, no point of interest, no flock.
    pub fn new(oid: i32, max_size: usize, coord: Coordinate, timestamp: i32) -> (r: Trajectory)
        requires
            coord.wf(),
        ensures
            r.wf(),
            r.oid == oid,
            r.max_size == max_size,
            r.coordinates@ == seq![coord],
            r.timestamps@ == seq![timestamp],
            r.speed@ == seq![SPEED_SENTINEL],
            r.bearing@ == seq![BEARING_SENTINEL],
            r.stopped@ == seq![-1i8],
            r.trips@ == seq![0i32],
            r.pois@ == seq![-1i32],
            r.flocks@.len() == 1,
            r.flocks@[0]@ == Seq::<i32>::empty(),
    {
        let mut coordinates: Vec<Coordinate> = Vec::new();
        coordinates.push(coord);
        let mut timestamps: Vec<i32> = Vec::new();
        timestamps.push(timestamp);
        let mut speed: Vec<i64> = Vec::new();
        speed.push(SPEED_SENTINEL);
        let mut bearing: Vec<i64> = Vec::new();
        bearing.push(BEARING_SENTINEL);
        let mut stopped: Vec<i8> = Vec::new();
        stopped.push(-1);
        let mut trips: Vec<i32> = Vec::new();
        trips.push(0);
        let mut pois: Vec<i32> = Vec::new();
        pois.push(-1);
        let mut flocks: Vec<Vec<i32>> = Vec::new();
        flocks.push(Vec::new());
        let r = Trajectory { oid, max_size, coordinates, timestamps, speed, bearing, stopped, trips, pois, flocks };
        assert(r.coordinates@ =~= seq![coord]);
        assert(r.timestamps@ =~= seq![timestamp]);
        assert(r.speed@ =~= seq![SPEED_SENTINEL]);
        assert(r.bearing@ =~= seq![BEARING_SENTINEL]);
        assert(r.stopped@ =~= seq![-1i8]);
        assert(r.trips@ =~= seq![0i32]);
        assert(r.pois@ =~= seq![-1i32]);
        r
    }

    /// A trajectory with no rows at all, used as the empty delta.
    pub fn new_empty(oid: i32, max_size: usize) -> (r: Trajectory)
        ensures
            r.wf(),
            r.oid == oid,
            r.max_size == max_size,
            r.len_spec() == 0,
            r.coordinates@ == Seq::<Coordinate>::empty(),
            r.timestamps@ == Seq::<i32>::empty(),
            r.speed@ == Seq::<i64>::empty(),
            r.bearing@ == Seq::<i64>::empty(),
            r.stopped@ == Seq::<i8>::empty(),
            r.trips@ == Seq::<i32>::empty(),
            r.pois@ == Seq::<i32>::empty(),
            r.flocks@ == Seq::<Vec<i32>>::empty(),
    {
        let r = Trajectory {
            oid,
            max_size,
            coordinates: Vec::new(),
            timestamps: Vec::new(),
            speed: Vec::new(),
            bearing: Vec::new(),
            stopped: Vec::new(),
            trips: Vec::new(),
            pois: Vec::new(),
            flocks: Vec::new(),
        };
        assert(r.coordinates@ =~= Seq::<Coordinate>::empty());
        assert(r.timestamps@ =~= Seq::<i32>::empty());
        assert(r.speed@ =~= Seq::<i64>::empty());
        assert(r.bearing@ =~= Seq::<i64>::empty());
        assert(r.stopped@ =~= Seq::<i8>::empty());
        assert(r.trips@ =~= Seq::<i32>::empty());
        assert(r.pois@ =~= Seq::<i32>::empty());
        assert(r.flocks@ =~= Seq::<Vec<i32>>::empty());
        r
    }

    /// Push one row onto every column, ignoring the size cap.
    pub fn insert_unbounded(
        &mut self,
        coord: Coordinate,
        ts: i32,
        sp: i64,
        br: i64,
        poi_id: i32,
        trip_id: i32,
        stopped: i8,
        flock: Vec<i32>,
    )
        ensures
            final(self).oid == old(self).oid,
            final(self).max_size == old(self).max_size,
            final(self).coordinates@ == old(self).coordinates@.push(coord),
            final(self).timestamps@ == old(self).timestamps@.push(ts),
            final(self).speed@ == old(self).speed@.push(sp),
            final(self).bearing@ == old(self).bearing@.push(br),
            final(self).stopped@ == old(self).stopped@.push(stopped),
            final(self).trips@ == old(self).trips@.push(trip_id),
            final(self).pois@ == old(self).pois@.push(poi_id),
            final(self).flocks@ == old(self).flocks@.push(flock),
    {
        self.speed.push(sp);
        self.bearing.push(br);
        self.coordinates.push(coord);
        self.timestamps.push(ts);
        self.pois.push(poi_id);
        self.stopped.push(stopped);
        self.trips.push(trip_id);
        self.flocks.push(flock);
    }

    /// Drop the first `n` rows of every column.
    pub fn drop_first_n(&mut self, n: usize)
        requires
            old(self).rows_aligned(),
            n <= old(self).len_spec(),
        ensures
            final(self).oid == old(self).oid,
            final(self).max_size == old(self).max_size,
            final(self).coordinates@ == old(self).coordinates@.skip(n as int),
            final(self).timestamps@ == old(self).timestamps@.skip(n as int),
            final(self).speed@ == old(self).speed@.skip(n as int),
            final(self).bearing@ == old(self).bearing@.skip(n as int),
            final(self).stopped@ == old(self).stopped@.skip(n as int),
            final(self).trips@ == old(self).trips@.skip(n as int),
            final(self).pois@ == old(self).pois@.skip(n as int),
            final(self).flocks@ == old(self).flocks@.skip(n as int),
            old(self).wf() ==> final(self).wf(),
    {
        self.speed = self.speed.split_off(n);
        self.bearing = self.bearing.split_off(n);
        self.coordinates = self.coordinates.split_off(n);
        self.timestamps = self.timestamps.split_off(n);
        self.stopped = self.stopped.split_off(n);
        self.trips = self.trips.split_off(n);
        self.pois = self.pois.split_off(n);
        self.flocks = self.flocks.split_off(n);
        proof {
            assert(self.timestamps@ =~= old(self).timestamps@.skip(n as int));
            assert(self.coordinates@ =~= old(self).coordinates@.skip(n as int));
            assert(self.speed@ =~= old(self).speed@.skip(n as int));
            assert(self.bearing@ =~= old(self).bearing@.skip(n as int));
            assert(self.stopped@ =~= old(self).stopped@.skip(n as int));
            assert(self.trips@ =~= old(self).trips@.skip(n as int));
            assert(self.pois@ =~= old(self).pois@.skip(n as int));
            assert(self.flocks@ =~= old(self).flocks@.skip(n as int));
            if old(self).wf() {
                assert forall|i: int| 0 <= i < self.len_spec() implies self.row_ok(i) by {
                    assert(old(self).row_ok(i + n));
                }
                assert forall|i: int| 0 <= i && i + 1 < self.len_spec() implies self.step_ok(i) by {
                    assert(old(self).step_ok(i + n));
                }
            }
        }
    }

    /// How many rows spill over the cap when `total` rows would be held.
    pub open spec fn cap_overflow(total: nat, max_size: nat) -> int {
        if total > max_size {
            total - max_size
        } else {
            0
        }
    }

    /// Append a delta trajectory row by row, then drop the oldest rows if
    /// the cap is exceeded, so that at most `max_size` rows remain.
    pub fn extend(&mut self, trajectory: Trajectory)
        requires
            old(self).wf(),
            trajectory.wf(),
            old(self).joins(trajectory),
        ensures
            final(self).wf(),
            final(self).oid == old(self).oid,
            final(self).max_size == old(self).max_size,
            ({
                let k = Self::cap_overflow(
                    old(self).len_spec() + trajectory.len_spec(),
                    old(self).max_size as nat,
                );
                &&& final(self).coordinates@ == (old(self).coordinates@ + trajectory.coordinates@).skip(k)
                &&& final(self).timestamps@ == (old(self).timestamps@ + trajectory.timestamps@).skip(k)
                &&& final(self).speed@ == (old(self).speed@ + trajectory.speed@).skip(k)
                &&& final(self).bearing@ == (old(self).bearing@ + trajectory.bearing@).skip(k)
                &&& final(self).stopped@ == (old(self).stopped@ + trajectory.stopped@).skip(k)
                &&& final(self).trips@ == (old(self).trips@ + trajectory.trips@).skip(k)
                &&& final(self).pois@ == (old(self).pois@ + trajectory.pois@).skip(k)
                &&& final(self).flocks@ == (old(self).flocks@ + trajectory.flocks@).skip(k)
            }),
    {
        let mut trajectory = trajectory;
        let ghost b = trajectory;
        self.speed.append(&mut trajectory.speed);
        self.bearing.append(&mut trajectory.bearing);
        self.coordinates.append(&mut trajectory.coordinates);
        self.timestamps.append(&mut trajectory.timestamps);
        self.pois.append(&mut trajectory.pois);
        self.stopped.append(&mut trajectory.stopped);
        self.trips.append(&mut trajectory.trips);
        self.flocks.append(&mut trajectory.flocks);

        proof {
            let a = *old(self);
            assert forall|i: int| 0 <= i < self.len_spec() implies self.row_ok(i) by {
                if i < a.len_spec() {
                    assert(a.row_ok(i));
                } else {
                    assert(b.row_ok(i - a.len_spec()));
                }
            }
            assert forall|i: int| 0 <= i && i + 1 < self.len_spec() implies self.step_ok(i) by {
                if i + 1 < a.len_spec() {
                    assert(a.step_ok(i));
                } else if i + 1 == a.len_spec() {
                    assert(a.joins(b));
                } else {
                    assert(b.step_ok(i - a.len_spec()));
                }
            }
        }

        let size = self.speed.len();
        if size > self.max_size {
            let n = size - self.max_size;
            self.drop_first_n(n);
        }
    }

    /// Speed, in micro-knots, of a move that covers `dist`
    /// micro-nautical-miles between the last retained timestamp and
    /// `timestamp`.
    pub fn calculate_speed(&self, dist: i64, timestamp: i32) -> (r: i64)
        requires
            self.len_spec() > 0,
            timestamp > self.last_ts(),
            0 <= dist <= MAX_GEO_DIST,
        ensures
            r == dist * 3600 / (timestamp - self.last_ts()),
            0 <= r <= dist * 3600,
    {
        let n = self.timestamps.len();
        let last = self.timestamps[n - 1];
        let dt = (timestamp as i64) - (last as i64);
        (dist * 3600) / dt
    }

    /// The synthetic samples a new record at `timestamp` expands to on the
    /// uniform grid of period `rate`: one sample every `rate` seconds after
    /// the last retained timestamp, paired with the dead-reckoned
    /// coordinates supplied in `coords`.  The terminal real point is not
    /// included.
    pub fn resample(&self, rate: i32, timestamp: i32, coords: &Vec<Coordinate>) -> (r: Vec<(Coordinate, i32)>)
        requires
            self.len_spec() > 0,
            rate > 0,
            timestamp >= self.last_ts(),
            coords@.len() == (timestamp - self.last_ts()) / (rate as int),
        ensures
            r@.len() == coords@.len(),
            forall|i: int| 0 <= i < r@.len() ==>
                (#[trigger] r@[i]).0 == coords@[i] && r@[i].1 == self.last_ts() + rate * (i + 1),
            forall|i: int| 0 <= i && i + 1 < r@.len() ==> #[trigger] r@[i + 1].1 - r@[i].1 == rate,
    {
        let n = self.timestamps.len();
        let last = self.timestamps[n - 1];
        let k = coords.len();
        proof {
            vstd::arithmetic::div_mod::lemma_fundamental_div_mod(timestamp - self.last_ts(), rate as int);
            vstd::arithmetic::div_mod::lemma_mod_bound(timestamp - self.last_ts(), rate as int);
            assert(k as int <= rate * (k as int)) by (nonlinear_arith)
                requires rate >= 1, k >= 0;
        }
        let mut r: Vec<(Coordinate, i32)> = Vec::new();
        let mut i: usize = 0;
        while i < k
            invariant
                0 <= i <= k,
                k == coords@.len(),
                self.len_spec() > 0,
                last == self.last_ts(),
                rate > 0,
                timestamp >= last,
                rate * (k as int) <= timestamp - last,
                k as int <= timestamp - last,
                r@.len() == i,
                forall|j: int| 0 <= j < i ==>
                    (#[trigger] r@[j]).0 == coords@[j] && r@[j].1 == last + rate * (j + 1),
            decreases k - i,
        {
            proof {
                lemma_mul_range(rate as int, i + 1, k as int);
            }
            let ts_wide = (last as i64) + (rate as i64) * ((i as i64) + 1);
            let ts_i = ts_wide as i32;
            r.push((coords[i], ts_i));
            i = i + 1;
        }
        proof {
            assert forall|i: int| 0 <= i && i + 1 < r@.len() implies #[trigger] r@[i + 1].1 - r@[i].1 == rate by {
                assert(rate * (i + 2) - rate * (i + 1) == rate) by (nonlinear_arith);
            }
        }
        r
    }

    /// Whether the buffered row `j` deviates from the chord between the
    /// first buffered point and the candidate point `coord` by more than
    /// the open-window tolerance.
    pub open spec fn opw_exceeds_at(self, coord: Coordinate, j: int) -> bool {
        seg_dist_sq_exceeds(self.coordinates@[0], coord, self.coordinates@[j], OPW_EPSILON_SQ as int)
    }

    /// The contract of `OPW`: `r` is the first buffered index deviating
    /// beyond the open-window tolerance, or nothing when no index does.
    pub open spec fn opw_result_ok(self, coord: Coordinate, r: Option<usize>) -> bool {
        match r {
            Some(k) => {
                &&& 1 <= k < self.len_spec()
                &&& self.opw_exceeds_at(coord, k as int)
                &&& forall|j: int| 1 <= j < k ==> !self.opw_exceeds_at(coord, j)
            },
            None => forall|j: int| 1 <= j < self.len_spec() ==> !self.opw_exceeds_at(coord, j),
        }
    }

    /// Open-window compression, distance only: on candidate point `coord`,
    /// return the first buffered index whose perpendicular deviation from
    /// the chord exceeds the tolerance, if any.
    #[allow(non_snake_case)]
    pub fn OPW(&self, coord: &Coordinate, _timestamp: i32) -> (r: Option<usize>)
        requires
            self.wf(),
            coord.wf(),
        ensures
            self.opw_result_ok(*coord, r),
    {
        let n = self.coordinates.len();
        if n < 2 {
            return None;
        }
        let s = self.coordinates[0];
        proof {
            assert(self.row_ok(0));
        }
        let dx = coord.x - s.x;
        let dy = coord.y - s.y;
        proof {
            lemma_abs_mul_bound(dx as int, dx as int, 360_000_000, 360_000_000);
            lemma_abs_mul_bound(dy as int, dy as int, 360_000_000, 360_000_000);
        }
        let len2 = dx * dx + dy * dy;
        let mut j: usize = 1;
        while j < n
            invariant
                1 <= j <= n,
                n == self.len_spec(),
                self.wf(),
                coord.wf(),
                s == self.coordinates@[0],
                dx == coord.x - s.x,
                dy == coord.y - s.y,
                len2 == dist_sq(s, *coord),
                -260_000_000_000_000_000 <= len2 <= 260_000_000_000_000_000,
                forall|q: int| 1 <= q < j ==> !self.opw_exceeds_at(*coord, q),
            decreases n - j,
        {
            let m = self.coordinates[j];
            proof {
                assert(self.row_ok(0));
                assert(self.row_ok(j as int));
            }
            let mx = m.x - s.x;
            let my = m.y - s.y;
            proof {
                lemma_abs_mul_bound(mx as int, mx as int, 360_000_000, 360_000_000);
                lemma_abs_mul_bound(my as int, my as int, 360_000_000, 360_000_000);
                lemma_abs_mul_bound(mx as int, dx as int, 360_000_000, 360_000_000);
                lemma_abs_mul_bound(my as int, dy as int, 360_000_000, 360_000_000);
            }
            let m2 = mx * mx + my * my;
            let dot = mx * dx + my * dy;
            let exceeds: bool = if len2 == 0 || dot <= 0 {
                m2 > OPW_EPSILON_SQ
            } else if dot >= len2 {
                let ex = m.x - coord.x;
                let ey = m.y - coord.y;
                proof {
                    lemma_abs_mul_bound(ex as int, ex as int, 720_000_000, 720_000_000);
                    lemma_abs_mul_bound(ey as int, ey as int, 720_000_000, 720_000_000);
                }
                ex * ex + ey * ey > OPW_EPSILON_SQ
            } else {
                proof {
                    lemma_abs_mul_bound(m2 as int, len2 as int, 260_000_000_000_000_000, 260_000_000_000_000_000);
                    lemma_abs_mul_bound(dot as int, dot as int, 260_000_000_000_000_000, 260_000_000_000_000_000);
                    lemma_abs_mul_bound(OPW_EPSILON_SQ as int, len2 as int, 250_000, 260_000_000_000_000_000);
                }
                (m2 as i128) * (len2 as i128) - (dot as i128) * (dot as i128)
                    > (OPW_EPSILON_SQ as i128) * (len2 as i128)
            };
            proof {
                assert(m2 == dist_sq(s, m));
                assert(dot == seg_dot(s, *coord, m));
                assert(exceeds == self.opw_exceeds_at(*coord, j as int));
            }
            if exceeds {
                return Some(j);
            }
            j = j + 1;
        }
        None
    }

    /// Whether the buffered row `j` deviates from the time-synchronized
    /// interpolation between the first buffered point and the candidate
    /// `(coord, timestamp)` by more than the time-ratio tolerance.
    pub open spec fn opw_tr_exceeds_at(self, coord: Coordinate, timestamp: i32, j: int) -> bool {
        sed_err_sq(
            self.coordinates@[0], self.timestamps@[0] as int,
            self.coordinates@[j], self.timestamps@[j] as int,
            coord, timestamp as int,
        ) > OPW_TR_EPSILON_SQ
    }

    /// The contract of `OPW_TR`, in the shape of `opw_result_ok`.
    pub open spec fn opw_tr_result_ok(self, coord: Coordinate, timestamp: i32, r: Option<usize>) -> bool {
        match r {
            Some(k) => {
                &&& 1 <= k < self.len_spec()
                &&& self.opw_tr_exceeds_at(coord, timestamp, k as int)
                &&& forall|j: int| 1 <= j < k ==> !self.opw_tr_exceeds_at(coord, timestamp, j)
            },
            None => forall|j: int| 1 <= j < self.len_spec() ==> !self.opw_tr_exceeds_at(coord, timestamp, j),
        }
    }

    /// Open-window compression with time-ratio synchronized Euclidean
    /// distance: return the first buffered index whose deviation from the
    /// time-synchronized interpolant exceeds the tolerance, if any.  The
    /// time ratio is a truncated integer quotient, taken as one when the
    /// time span is empty.
    #[allow(non_snake_case)]
    pub fn OPW_TR(&self, coord: &Coordinate, timestamp: i32) -> (r: Option<usize>)
        requires
            self.wf(),
            coord.wf(),
            self.len_spec() > 0 ==> timestamp >= self.last_ts(),
        ensures
            self.opw_tr_result_ok(*coord, timestamp, r),
    {
        let n = self.coordinates.len();
        if n < 2 {
            return None;
        }
        let s = self.coordinates[0];
        let t0 = self.timestamps[0];
        let mut j: usize = 1;
        while j < n
            invariant
                1 <= j <= n,
                n == self.len_spec(),
                self.wf(),
                coord.wf(),
                n >= 2,
                timestamp >= self.last_ts(),
                s == self.coordinates@[0],
                t0 == self.timestamps@[0],
                forall|q: int| 1 <= q < j ==> !self.opw_tr_exceeds_at(*coord, timestamp, q),
            decreases n - j,
        {
            let m = self.coordinates[j];
            let tm = self.timestamps[j];
            proof {
                assert(self.row_ok(0));
                assert(self.row_ok(j as int));
                lemma_ts_monotone(*self, 0, j as int);
                lemma_ts_monotone(*self, j as int, n as int - 1);
            }
            let num = (tm as i64) - (t0 as i64);
            let den = (timestamp as i64) - (t0 as i64);
            let ratio: i64 = if den != 0 { num / den } else { 1 };
            proof {
                if den != 0 {
                    vstd::arithmetic::div_mod::lemma_fundamental_div_mod(num as int, den as int);
                    vstd::arithmetic::div_mod::lemma_mod_bound(num as int, den as int);
                    assert(num <= den);
                    vstd::arithmetic::div_mod::lemma_div_is_ordered(num as int, den as int, den as int);
                    assert(den / den == 1) by {
                        vstd::arithmetic::div_mod::lemma_div_by_self(den as int);
                    }
                    vstd::arithmetic::div_mod::lemma_div_pos_is_pos(num as int, den as int);
                }
                assert(0 <= ratio <= 1);
                lemma_abs_mul_bound((coord.x - s.x) as int, ratio as int, 360_000_000, 1);
                lemma_abs_mul_bound((coord.y - s.y) as int, ratio as int, 360_000_000, 1);
            }
            let xv = s.x + (coord.x - s.x) * ratio;
            let yv = s.y + (coord.y - s.y) * ratio;
            let ex = xv - m.x;
            let ey = yv - m.y;
            proof {
                lemma_abs_mul_bound(ex as int, ex as int, 900_000_000, 900_000_000);
                lemma_abs_mul_bound(ey as int, ey as int, 900_000_000, 900_000_000);
            }
            let err_sq = ex * ex + ey * ey;
            if err_sq > OPW_TR_EPSILON_SQ {
                return Some(j);
            }
            j = j + 1;
        }
        None
    }

    /// Whether a freshly computed speed and bearing deviate from the last
    /// retained row's by more than the dead-reckoning tolerance.
    pub open spec fn dead_rec_triggers(self, speed_now: i64, bearing_now: i64) -> bool {
        abs_val(speed_now - self.last_speed()) > DEAD_REC_EPSILON
            || abs_val(bearing_now - self.last_bearing()) > DEAD_REC_EPSILON
    }

    /// Dead-reckoning compression: flush at the last buffered index when
    /// the kinematics changed by more than the tolerance, in their native
    /// units, since the last retained row.
    pub fn dead_reckoning(&self, speed_now: i64, bearing_now: i64) -> (r: Option<usize>)
        requires
            self.wf(),
            self.len_spec() > 0,
            0 <= speed_now <= MAX_SPEED,
            -180_000_000 <= bearing_now <= 180_000_000,
        ensures
            r == if self.dead_rec_triggers(speed_now, bearing_now) {
                Some((self.len_spec() - 1) as usize)
            } else {
                None::<usize>
            },
    {
        let n = self.timestamps.len();
        proof {
            assert(self.row_ok(n as int - 1));
        }
        let last_sp = self.speed[n - 1];
        let last_br = self.bearing[n - 1];
        let dsp = if speed_now >= last_sp { speed_now - last_sp } else { last_sp - speed_now };
        let dbr = if bearing_now >= last_br { bearing_now - last_br } else { last_br - bearing_now };
        if dsp > DEAD_REC_EPSILON || dbr > DEAD_REC_EPSILON {
            Some(n - 1)
        } else {
            None
        }
    }

    /// Uniform compression: flush at the last buffered index whenever the
    /// buffered length is a multiple of the uniform period.
    pub fn uniform(&self) -> (r: Option<usize>)
        requires
            self.len_spec() > 0,
        ensures
            r == if self.len_spec() % (UNIFORM_S as nat) == 0 {
                Some((self.len_spec() - 1) as usize)
            } else {
                None::<usize>
            },
    {
        let n = self.timestamps.len();
        if n % UNIFORM_S == 0 {
            Some(n - 1)
        } else {
            None
        }
    }
}

/// Absolute value of an integer.
pub open spec fn abs_val(x: int) -> int {
    if x < 0 { -x } else { x }
}

/// Product of values bounded in magnitude is bounded by the product of the
/// bounds.
pub proof fn lemma_abs_mul_bound(x: int, y: int, bx: int, by_val: int)
    requires
        -bx <= x <= bx,
        -by_val <= y <= by_val,
        0 <= bx,
        0 <= by_val,
    ensures
        -(bx * by_val) <= x * y <= bx * by_val,
{
    assert(-(bx * by_val) <= x * y <= bx * by_val) by (nonlinear_arith)
        requires
            -bx <= x <= bx,
            -by_val <= y <= by_val,
            0 <= bx,
            0 <= by_val,
    ;
}

/// A well-formed trajectory's timestamps strictly increase: the timestamp
/// at a lower index is below the timestamp at any higher one.
pub proof fn lemma_ts_monotone(t: Trajectory, i: int, j: int)
    requires
        t.wf(),
        0 <= i <= j < t.len_spec(),
    ensures
        t.timestamps@[i] <= t.timestamps@[j],
        i < j ==> t.timestamps@[i] < t.timestamps@[j],
    decreases j - i,
{
    if i < j {
        assert(t.step_ok(j - 1));
        lemma_ts_monotone(t, i, j - 1);
    }
}

/// A well-formed trajectory's trip counters never decrease.
pub proof fn lemma_trip_monotone(t: Trajectory, i: int, j: int)
    requires
        t.wf(),
        0 <= i <= j < t.len_spec(),
    ensures
        t.trips@[i] <= t.trips@[j],
    decreases j - i,
{
    if i < j {
        assert(t.step_ok(j - 1));
        lemma_trip_monotone(t, i, j - 1);
    }
}

/// The invariants every well-formed trajectory enjoys, stated over its
/// columns: all parallel columns are equal-length; timestamps strictly
/// increase after the seed row; trip counters are monotone non-decreasing
/// and bump by exactly one on each stopped-to-moving transition; the
/// stopped flag is always the seed sentinel, zero or one; and a row that
/// is not stopped never carries a point of interest.
pub proof fn lemma_trajectory_invariants(t: Trajectory)
    requires
        t.wf(),
    ensures
        t.coordinates@.len() == t.len_spec(),
        t.speed@.len() == t.len_spec(),
        t.bearing@.len() == t.len_spec(),
        t.stopped@.len() == t.len_spec(),
        t.trips@.len() == t.len_spec(),
        t.pois@.len() == t.len_spec(),
        t.flocks@.len() == t.len_spec(),
        forall|i: int, j: int| 0 <= i < j < t.len_spec() ==>
            t.timestamps@[i] < t.timestamps@[j],
        forall|i: int, j: int| 0 <= i <= j < t.len_spec() ==>
            t.trips@[i] <= t.trips@[j],
        forall|i: int| 0 <= i && i + 1 < t.len_spec() &&
            (#[trigger] t.stopped@[i]) == 1 && t.stopped@[i + 1] != 1 ==>
                t.trips@[i + 1] == t.trips@[i] + 1,
        forall|i: int| 0 <= i < t.len_spec() ==>
            (#[trigger] t.stopped@[i]) == -1 || t.stopped@[i] == 0 || t.stopped@[i] == 1,
        forall|i: int| 0 <= i < t.len_spec() && t.stopped@[i] != 1 ==>
            (#[trigger] t.pois@[i]) == -1,
{
    assert forall|i: int, j: int| 0 <= i < j < t.len_spec()
        implies t.timestamps@[i] < t.timestamps@[j] by {
        lemma_ts_monotone(t, i, j);
    }
    assert forall|i: int, j: int| 0 <= i <= j < t.len_spec()
        implies t.trips@[i] <= t.trips@[j] by {
        lemma_trip_monotone(t, i, j);
    }
    assert forall|i: int| 0 <= i && i + 1 < t.len_spec() &&
        (#[trigger] t.stopped@[i]) == 1 && t.stopped@[i + 1] != 1
        implies t.trips@[i + 1] == t.trips@[i] + 1 by {
        assert(t.step_ok(i));
    }
    assert forall|i: int| 0 <= i < t.len_spec()
        implies ((#[trigger] t.stopped@[i]) == -1 || t.stopped@[i] == 0 || t.stopped@[i] == 1)
            && (t.stopped@[i] != 1 ==> t.pois@[i] == -1) by {
        assert(t.row_ok(i));
    }
}

/// In a loop over the resampling grid, the sample offset stays within the
/// span covered by the whole grid.
proof fn lemma_mul_range(rate: int, i: int, k: int)
    requires
        rate > 0,
        1 <= i <= k,
    ensures
        rate * 1 <= rate * i <= rate * k,
{
    vstd::arithmetic::mul::lemma_mul_inequality(1, i, rate);
    vstd::arithmetic::mul::lemma_mul_inequality(i, k, rate);
    assert(rate * 1 == 1 * rate);
    assert(rate * i == i * rate) by (nonlinear_arith);
    assert(rate * k == k * rate) by (nonlinear_arith);
}

} // verus!
