//! The per-record pipeline functions.  Each consumes one incoming record
//! together with the current state of its collection and produces a delta
//! trajectory (possibly empty) for the collection to merge, and, for the
//! compression pipeline, an optional flush index.
//!
//! The great-circle distance and initial bearing of the move from the last
//! retained row to the record cannot be computed here (they are
//! trigonometric); the caller supplies them, already scaled to
//! micro-nautical-miles and micro-degrees, and every decision taken from
//! them is specified exactly.

use vstd::prelude::*;
use crate::geo::Coordinate;
use crate::trajectory::Trajectory;
use crate::collection::TrajCollection;
use crate::pois::{Pois, min_at_first};
use crate::{MAX_SPEED, RATE, STOP_SPEED_THR, DISTANCE_TO_POI_THR, HISTORY_SIZE, SPEED_SENTINEL, BEARING_SENTINEL, MAX_GEO_DIST, UNIFORM_S};

verus! {

/// One incoming telemetry sample: object identifier, timestamp in seconds,
/// and position in micro-degrees.
#[derive(Clone, Copy, Debug, PartialEq, Eq, Structural)]
pub struct Record {
    pub oid: i32,
    pub t: i32,
    pub lon: i64,
    pub lat: i64,
}

impl Record {
    pub open spec fn coord_spec(self) -> Coordinate {
        Coordinate { x: self.lon, y: self.lat }
    }

    pub open spec fn wf(self) -> bool {
        self.coord_spec().wf()
    }

    pub fn coord(&self) -> (r: Coordinate)
        ensures
            r == self.coord_spec(),
    {
        Coordinate { x: self.lon, y: self.lat }
    }
}

/// The externally computed kinematics of the move from the last retained
/// row of a trajectory to the incoming record: the great-circle distance
/// covered, in micro-nautical-miles, and the initial bearing, in
/// micro-degrees.
#[derive(Clone, Copy, Debug)]
pub struct Kinematics {
    pub dist: i64,
    pub bearing: i64,
}

impl Kinematics {
    /// A distance between Earth points and a bearing within half a turn.
    pub open spec fn wf(self) -> bool {
        &&& 0 <= self.dist <= MAX_GEO_DIST
        &&& -180_000_000 <= self.bearing <= 180_000_000
    }
}

/// Which on-line compression algorithm the compression pipeline dispatches
/// to.
#[derive(Clone, Copy, Debug, PartialEq, Eq, Structural)]
pub enum CompressionAlgo {
    Opw,
    OpwTr,
    Uniform,
    DeadReckoning,
}

/// Speed, in micro-knots, of a move covering `dist` micro-nautical-miles
/// from time `last_t` to time `t`.
pub open spec fn speed_of(dist: i64, t: i32, last_t: i32) -> int {
    dist * 3600 / (t - last_t)
}

/// The stopped flag derived from a speed in micro-knots.
pub open spec fn stopped_flag(speed: int) -> i8 {
    if speed < STOP_SPEED_THR { 1 } else { 0 }
}

/// The trip counter of a new row: it bumps by one exactly on a
/// stopped-to-moving transition.
pub open spec fn trip_of(last_stopped: i8, stopped: i8, last_trip: i32) -> int {
    if last_stopped == 1 && stopped != 1 {
        last_trip + 1
    } else {
        last_trip as int
    }
}

/// The point-of-interest annotation of a new row whose stopped flag is
/// `stp`, following the last retained row of `t`: a row that stays stopped
/// inherits without re-querying; a row that newly stops takes the nearest
/// point within the threshold, given the distances `poi_dists` to each
/// point in index order; a moving row carries none.
pub open spec fn poi_clause(t: Trajectory, stp: i8, poi_dists: Seq<i64>, poi: i32) -> bool {
    if stp == 1 && t.last_stopped() == 1 {
        poi == t.last_poi()
    } else if stp == 1 {
        &&& (poi == -1 <==> forall|j: int| 0 <= j < poi_dists.len() ==> #[trigger] poi_dists[j] >= DISTANCE_TO_POI_THR)
        &&& (poi != -1 ==> 0 <= poi < poi_dists.len() && min_at_first(poi_dists, poi as int)
                && poi_dists[poi as int] < DISTANCE_TO_POI_THR)
    } else {
        poi == -1
    }
}

/// A delta holding exactly the seed row for an object first heard from in
/// `record`: sentinel kinematics, trip zero, no point of interest, no
/// flock.
pub open spec fn is_seed_delta(record: Record, r: Trajectory) -> bool {
    &&& r.oid == record.oid
    &&& r.max_size == HISTORY_SIZE
    &&& r.len_spec() == 1
    &&& r.coordinates@[0] == record.coord_spec()
    &&& r.timestamps@[0] == record.t
    &&& r.speed@[0] == SPEED_SENTINEL
    &&& r.bearing@[0] == BEARING_SENTINEL
    &&& r.stopped@[0] == -1
    &&& r.trips@[0] == 0
    &&& r.pois@[0] == -1
    &&& r.flocks@[0]@ == Seq::<i32>::empty()
}

/// The single annotated row that cleaning and compression emit for a
/// retained record: the record's position and time, the supplied
/// kinematics, and the stopped, trip and point-of-interest annotations
/// derived from the last retained row of `t`.
pub open spec fn is_annotated_row(t: Trajectory, record: Record, kin: Kinematics, poi_dists: Seq<i64>, r: Trajectory) -> bool {
    let spd = speed_of(kin.dist, record.t, t.last_ts());
    let stp = stopped_flag(spd);
    &&& r.len_spec() == 1
    &&& r.coordinates@[0] == record.coord_spec()
    &&& r.timestamps@[0] == record.t
    &&& r.speed@[0] == spd
    &&& r.bearing@[0] == kin.bearing
    &&& r.stopped@[0] == stp
    &&& r.trips@[0] == trip_of(t.last_stopped(), stp, t.last_trip())
    &&& poi_clause(t, stp, poi_dists, r.pois@[0])
    &&& r.flocks@[0]@ == Seq::<i32>::empty()
}

/// Whether processing `record` against `coll` will query the
/// point-of-interest set: the record is retained, its speed is within
/// bounds, it counts as stopped, and the previous row was not stopped.
pub open spec fn will_query_poi(record: Record, coll: TrajCollection, kin: Option<Kinematics>) -> bool {
    &&& coll.contains_oid(record.oid)
    &&& record.t != coll.traj_of(record.oid).last_ts()
    &&& kin is Some
    &&& {
        let t = coll.traj_of(record.oid);
        let spd = speed_of(kin->Some_0.dist, record.t, t.last_ts());
        &&& spd <= MAX_SPEED
        &&& stopped_flag(spd) == 1
        &&& t.last_stopped() != 1
    }
}

/// The preconditions shared by the three pipelines: a record on the globe
/// presented in timestamp order, kinematics supplied exactly when the
/// object was seen before and time moved on, and headroom on the trip
/// counter.
pub open spec fn pipeline_pre_base(record: Record, coll: TrajCollection, kin: Option<Kinematics>) -> bool {
    &&& record.wf()
    &&& coll.wf()
    &&& coll.contains_oid(record.oid) ==> record.t >= coll.traj_of(record.oid).last_ts()
    &&& coll.contains_oid(record.oid) ==> coll.traj_of(record.oid).last_trip() < i32::MAX
    &&& (coll.contains_oid(record.oid) && record.t != coll.traj_of(record.oid).last_ts())
            <==> kin is Some
    &&& kin is Some ==> kin->Some_0.wf()
}

/// The preconditions of cleaning and compression: the shared base, one
/// distance per point of interest, and a non-empty point-of-interest set
/// whenever it will be queried.
pub open spec fn pipeline_pre(record: Record, coll: TrajCollection, pois: Pois, kin: Option<Kinematics>, poi_dists: Seq<i64>) -> bool {
    &&& pipeline_pre_base(record, coll, kin)
    &&& poi_dists.len() == pois.pois@.len()
    &&& pois.pois@.len() <= i32::MAX
    &&& will_query_poi(record, coll, kin) ==> pois.pois@.len() > 0
}

/// The cleaning pipeline: seed an unseen object, drop a duplicate
/// timestamp or an outlier speed, and otherwise emit one annotated row.
pub fn cleaned(record: &Record, traj_coll: &TrajCollection, pois: &Pois, kin: &Option<Kinematics>, poi_dists: &Vec<i64>) -> (r: Trajectory)
    requires
        pipeline_pre(*record, *traj_coll, *pois, *kin, poi_dists@),
    ensures
        r.wf(),
        r.oid == record.oid,
        r.max_size == HISTORY_SIZE,
        !traj_coll.contains_oid(record.oid) ==> is_seed_delta(*record, r),
        traj_coll.contains_oid(record.oid) ==> ({
            let t = traj_coll.traj_of(record.oid);
            let spd = speed_of(kin->Some_0.dist, record.t, t.last_ts());
            &&& t.joins(r)
            &&& record.t == t.last_ts() ==> r.len_spec() == 0
            &&& (record.t != t.last_ts() && spd > MAX_SPEED) ==> r.len_spec() == 0
            &&& (record.t != t.last_ts() && spd <= MAX_SPEED) ==>
                    is_annotated_row(t, *record, kin->Some_0, poi_dists@, r)
        }),
{
    let i = match traj_coll.find(record.oid) {
        None => {
            return Trajectory::new(record.oid, HISTORY_SIZE, record.coord(), record.t);
        },
        Some(i) => i,
    };
    let t = &traj_coll.objects[i];
    let nt = t.timestamps.len();
    proof {
        assert(t.wf());
        assert(t.len_spec() > 0);
        assert(t.row_ok(nt - 1));
    }
    let new_traj = Trajectory::new_empty(record.oid, HISTORY_SIZE);
    if record.t == t.timestamps[nt - 1] {
        return new_traj;
    }
    let kin_v = match kin {
        Some(k) => *k,
        None => vstd::pervasive::unreached(),
    };
    let speed_now = t.calculate_speed(kin_v.dist, record.t);
    if speed_now > MAX_SPEED {
        return new_traj;
    }
    let mut new_traj = new_traj;
    push_annotated_row(&mut new_traj, t, record, &kin_v, pois, poi_dists);
    new_traj
}

/// Compute the annotations of a retained record against the last row of
/// `t` and push the resulting single row onto the (empty) delta.
fn push_annotated_row(new_traj: &mut Trajectory, t: &Trajectory, record: &Record, kin: &Kinematics, pois: &Pois, poi_dists: &Vec<i64>)
    requires
        old(new_traj).rows_aligned(),
        old(new_traj).len_spec() == 0,
        old(new_traj).oid == record.oid,
        old(new_traj).max_size == HISTORY_SIZE,
        t.wf(),
        t.len_spec() > 0,
        t.last_trip() < i32::MAX,
        record.wf(),
        record.t > t.last_ts(),
        kin.wf(),
        speed_of(kin.dist, record.t, t.last_ts()) <= MAX_SPEED,
        poi_dists@.len() == pois.pois@.len(),
        pois.pois@.len() <= i32::MAX,
        (stopped_flag(speed_of(kin.dist, record.t, t.last_ts())) == 1 && t.last_stopped() != 1)
            ==> pois.pois@.len() > 0,
    ensures
        final(new_traj).wf(),
        final(new_traj).oid == record.oid,
        final(new_traj).max_size == HISTORY_SIZE,
        is_annotated_row(*t, *record, *kin, poi_dists@, *final(new_traj)),
        t.joins(*final(new_traj)),
{
    let nt = t.timestamps.len();
    proof {
        assert(t.row_ok(nt - 1));
    }
    let speed_now = t.calculate_speed(kin.dist, record.t);
    let is_stopped: i8 = if speed_now < STOP_SPEED_THR { 1 } else { 0 };
    let last_stopped = t.stopped[nt - 1];
    let poi_id: i32 = if is_stopped == 1 && last_stopped == 1 {
        t.pois[nt - 1]
    } else if is_stopped == 1 {
        pois.nearest(poi_dists, DISTANCE_TO_POI_THR)
    } else {
        -1
    };
    let trip_id: i32 = if last_stopped == 1 && is_stopped != 1 {
        t.trips[nt - 1] + 1
    } else {
        t.trips[nt - 1]
    };
    new_traj.insert_unbounded(
        record.coord(),
        record.t,
        speed_now,
        kin.bearing,
        poi_id,
        trip_id,
        is_stopped,
        Vec::new(),
    );
    proof {
        assert(new_traj.len_spec() == 1);
        assert(new_traj.coordinates@[0] == record.coord_spec());
        assert(new_traj.timestamps@[0] == record.t);
        assert(new_traj.speed@[0] == speed_now);
        assert(new_traj.bearing@[0] == kin.bearing);
        assert(new_traj.stopped@[0] == is_stopped);
        assert(new_traj.trips@[0] == trip_id);
        assert(new_traj.pois@[0] == poi_id);
        assert(new_traj.flocks@[0]@ == Seq::<i32>::empty());
        assert(is_stopped == stopped_flag(speed_of(kin.dist, record.t, t.last_ts())));
        assert(new_traj.row_ok(0));
        assert(new_traj.wf());
    }
}

/// The compression pipeline: the same preface as cleaning, then a dispatch
/// on the configured algorithm that may name a flush index; the annotated
/// row is emitted alongside it.
pub fn compressed(record: &Record, traj_coll: &TrajCollection, pois: &Pois, kin: &Option<Kinematics>, poi_dists: &Vec<i64>, algo: CompressionAlgo) -> (r: (Trajectory, Option<usize>))
    requires
        pipeline_pre(*record, *traj_coll, *pois, *kin, poi_dists@),
    ensures
        r.0.wf(),
        r.0.oid == record.oid,
        r.0.max_size == HISTORY_SIZE,
        !traj_coll.contains_oid(record.oid) ==> is_seed_delta(*record, r.0) && r.1 is None,
        traj_coll.contains_oid(record.oid) ==> ({
            let t = traj_coll.traj_of(record.oid);
            let spd = speed_of(kin->Some_0.dist, record.t, t.last_ts());
            &&& t.joins(r.0)
            &&& record.t == t.last_ts() ==> r.0.len_spec() == 0 && r.1 is None
            &&& (record.t != t.last_ts() && spd > MAX_SPEED) ==> r.0.len_spec() == 0 && r.1 is None
            &&& (record.t != t.last_ts() && spd <= MAX_SPEED) ==> ({
                &&& is_annotated_row(t, *record, kin->Some_0, poi_dists@, r.0)
                &&& compress_flush_ok(t, *record, kin->Some_0, algo, r.1)
                &&& match r.1 {
                        Some(k) => k < t.len_spec(),
                        None => true,
                    }
            })
        }),
{
    let i = match traj_coll.find(record.oid) {
        None => {
            return (Trajectory::new(record.oid, HISTORY_SIZE, record.coord(), record.t), None);
        },
        Some(i) => i,
    };
    let t = &traj_coll.objects[i];
    let nt = t.timestamps.len();
    proof {
        assert(t.wf());
        assert(t.len_spec() > 0);
        assert(t.row_ok(nt - 1));
    }
    let new_traj = Trajectory::new_empty(record.oid, HISTORY_SIZE);
    if record.t == t.timestamps[nt - 1] {
        return (new_traj, None);
    }
    let kin_v = match kin {
        Some(k) => *k,
        None => vstd::pervasive::unreached(),
    };
    let speed_now = t.calculate_speed(kin_v.dist, record.t);
    if speed_now > MAX_SPEED {
        return (new_traj, None);
    }
    let coord = record.coord();
    let return_id: Option<usize> = match algo {
        CompressionAlgo::Opw => t.OPW(&coord, record.t),
        CompressionAlgo::OpwTr => t.OPW_TR(&coord, record.t),
        CompressionAlgo::Uniform => t.uniform(),
        CompressionAlgo::DeadReckoning => t.dead_reckoning(speed_now, kin_v.bearing),
    };
    let mut new_traj = new_traj;
    push_annotated_row(&mut new_traj, t, record, &kin_v, pois, poi_dists);
    (new_traj, return_id)
}

/// How many synthetic samples a record at `record.t` expands to against
/// the last retained timestamp of `t`.
pub open spec fn resample_count(record: Record, t: Trajectory) -> int {
    (record.t - t.last_ts()) / (RATE as int)
}

/// Whether the resampling pipeline emits rows for `record`: the object was
/// seen before, at least one full grid period has elapsed, and the speed
/// is within bounds.
pub open spec fn resample_emits(record: Record, coll: TrajCollection, kin: Option<Kinematics>) -> bool {
    &&& coll.contains_oid(record.oid)
    &&& record.t - coll.traj_of(record.oid).last_ts() >= RATE
    &&& kin is Some
    &&& speed_of(kin->Some_0.dist, record.t, coll.traj_of(record.oid).last_ts()) <= MAX_SPEED
}

/// Whether the resampling pipeline's synthetic rows will query the
/// point-of-interest set: they are emitted, they count as stopped, and
/// the previous retained row was not stopped.
pub open spec fn resample_queries_poi(record: Record, coll: TrajCollection, kin: Option<Kinematics>) -> bool {
    &&& resample_emits(record, coll, kin)
    &&& stopped_flag(speed_of(kin->Some_0.dist, record.t, coll.traj_of(record.oid).last_ts())) == 1
    &&& coll.traj_of(record.oid).last_stopped() != 1
}

/// The resampling pipeline: seed an unseen object; emit nothing for a
/// record less than one grid period after the last retained row or moving
/// at an outlier speed; otherwise emit one annotated row per grid point,
/// dead-reckoned by the caller into `coords`, each carrying the flock
/// computed at its synthetic timestamp.
///
/// `poi_dists[i]` holds the distance from the `i`-th synthetic point to
/// each point of interest; `flock_dists[i]` holds the distance from the
/// record position to each object's position dead-reckoned forward to the
/// `i`-th synthetic timestamp (micro-nautical-miles throughout).
pub fn resampled(record: &Record, traj_coll: &TrajCollection, pois: &Pois, kin: &Option<Kinematics>,
                 coords: &Vec<Coordinate>, poi_dists: &Vec<Vec<i64>>, flock_dists: &Vec<Vec<i64>>) -> (r: Trajectory)
    requires
        pipeline_pre_base(*record, *traj_coll, *kin),
        pois.pois@.len() <= i32::MAX,
        resample_queries_poi(*record, *traj_coll, *kin) ==> pois.pois@.len() > 0,
        resample_emits(*record, *traj_coll, *kin) ==> ({
            let t = traj_coll.traj_of(record.oid);
            let k = resample_count(*record, t);
            &&& coords@.len() == k
            &&& forall|i: int| 0 <= i < k ==> (#[trigger] coords@[i]).wf()
            &&& poi_dists@.len() == k
            &&& forall|i: int| 0 <= i < k ==> (#[trigger] poi_dists@[i])@.len() == pois.pois@.len()
            &&& flock_dists@.len() == k
            &&& forall|i: int| 0 <= i < k ==> (#[trigger] flock_dists@[i])@.len() == traj_coll.objects@.len()
        }),
    ensures
        r.wf(),
        r.oid == record.oid,
        r.max_size == HISTORY_SIZE,
        !traj_coll.contains_oid(record.oid) ==> is_seed_delta(*record, r),
        traj_coll.contains_oid(record.oid) ==> ({
            let t = traj_coll.traj_of(record.oid);
            let spd = speed_of(kin->Some_0.dist, record.t, t.last_ts());
            let stp = stopped_flag(spd);
            let k = resample_count(*record, t);
            &&& t.joins(r)
            &&& record.t - t.last_ts() < RATE ==> r.len_spec() == 0
            &&& (record.t - t.last_ts() >= RATE && spd > MAX_SPEED) ==> r.len_spec() == 0
            &&& (record.t - t.last_ts() >= RATE && spd <= MAX_SPEED) ==> ({
                &&& r.len_spec() == k
                &&& forall|i: int| 0 <= i < k ==> (#[trigger] r.coordinates@[i]) == coords@[i]
                &&& forall|i: int| 0 <= i < k ==> (#[trigger] r.timestamps@[i]) == t.last_ts() + RATE * (i + 1)
                &&& forall|i: int| 0 <= i < k ==> (#[trigger] r.speed@[i]) == spd
                &&& forall|i: int| 0 <= i < k ==> (#[trigger] r.bearing@[i]) == kin->Some_0.bearing
                &&& forall|i: int| 0 <= i < k ==> (#[trigger] r.stopped@[i]) == stp
                &&& forall|i: int| 0 <= i < k ==> (#[trigger] r.trips@[i]) == trip_of(t.last_stopped(), stp, t.last_trip())
                &&& forall|i: int| 0 <= i < k ==> poi_clause(t, stp, poi_dists@[i]@, (#[trigger] r.pois@[i]))
                &&& forall|i: int| 0 <= i < k ==> (#[trigger] r.flocks@[i])@ == (if spd > STOP_SPEED_THR {
                        traj_coll.flock_list(kin->Some_0.bearing, r.timestamps@[i], record.oid, flock_dists@[i]@, traj_coll.objects@.len() as int)
                    } else {
                        Seq::<i32>::empty()
                    })
            })
        }),
{
    let i = match traj_coll.find(record.oid) {
        None => {
            return Trajectory::new(record.oid, HISTORY_SIZE, record.coord(), record.t);
        },
        Some(i) => i,
    };
    let t = &traj_coll.objects[i];
    let nt = t.timestamps.len();
    proof {
        assert(t.wf());
        assert(t.len_spec() > 0);
        assert(t.row_ok(nt - 1));
    }
    let new_traj = Trajectory::new_empty(record.oid, HISTORY_SIZE);
    let last = t.timestamps[nt - 1];
    let span = (record.t as i64) - (last as i64);
    if span < RATE as i64 {
        return new_traj;
    }
    let kin_v = match kin {
        Some(k) => *k,
        None => vstd::pervasive::unreached(),
    };
    let speed_now = t.calculate_speed(kin_v.dist, record.t);
    if speed_now > MAX_SPEED {
        return new_traj;
    }
    proof {
        vstd::arithmetic::div_mod::lemma_div_pos_is_pos(record.t - t.last_ts(), RATE as int);
    }
    let pairs = t.resample(RATE, record.t, coords);
    let k = pairs.len();
    let is_stopped: i8 = if speed_now < STOP_SPEED_THR { 1 } else { 0 };
    let last_stopped = t.stopped[nt - 1];
    let last_poi = t.pois[nt - 1];
    let trip_id: i32 = if last_stopped == 1 && is_stopped != 1 {
        t.trips[nt - 1] + 1
    } else {
        t.trips[nt - 1]
    };
    let mut new_traj = new_traj;
    let mut idx: usize = 0;
    while idx < k
        invariant
            0 <= idx <= k,
            k == resample_count(*record, *t),
            traj_coll.wf(),
            (i as int) < traj_coll.objects@.len(),
            t == traj_coll.objects@[i as int],
            t.wf(),
            t.len_spec() > 0,
            t == traj_coll.traj_of(record.oid),
            traj_coll.contains_oid(record.oid),
            record.wf(),
            kin_v.wf(),
            record.t - t.last_ts() >= RATE,
            speed_now == speed_of(kin_v.dist, record.t, t.last_ts()),
            0 <= speed_now <= MAX_SPEED,
            is_stopped == stopped_flag(speed_now as int),
            last_stopped == t.last_stopped(),
            last_poi == t.last_poi(),
            last_poi >= -1,
            trip_id == trip_of(t.last_stopped(), is_stopped, t.last_trip()),
            0 <= trip_id,
            pairs@.len() == k,
            coords@.len() == k,
            forall|q: int| 0 <= q < k ==> (#[trigger] coords@[q]).wf(),
            poi_dists@.len() == k,
            forall|q: int| 0 <= q < k ==> (#[trigger] poi_dists@[q])@.len() == pois.pois@.len(),
            pois.pois@.len() <= i32::MAX,
            (is_stopped == 1 && last_stopped != 1) ==> pois.pois@.len() > 0,
            flock_dists@.len() == k,
            forall|q: int| 0 <= q < k ==> (#[trigger] flock_dists@[q])@.len() == traj_coll.objects@.len(),
            forall|q: int| 0 <= q < k ==>
                (#[trigger] pairs@[q]).0 == coords@[q] && pairs@[q].1 == t.last_ts() + RATE * (q + 1),
            new_traj.oid == record.oid,
            new_traj.max_size == HISTORY_SIZE,
            new_traj.rows_aligned(),
            new_traj.len_spec() == idx,
            forall|q: int| 0 <= q < idx ==> (#[trigger] new_traj.coordinates@[q]) == coords@[q],
            forall|q: int| 0 <= q < idx ==> (#[trigger] new_traj.timestamps@[q]) == t.last_ts() + RATE * (q + 1),
            forall|q: int| 0 <= q < idx ==> (#[trigger] new_traj.speed@[q]) == speed_now,
            forall|q: int| 0 <= q < idx ==> (#[trigger] new_traj.bearing@[q]) == kin_v.bearing,
            forall|q: int| 0 <= q < idx ==> (#[trigger] new_traj.stopped@[q]) == is_stopped,
            forall|q: int| 0 <= q < idx ==> (#[trigger] new_traj.trips@[q]) == trip_id,
            forall|q: int| 0 <= q < idx ==> poi_clause(*t, is_stopped, poi_dists@[q]@, (#[trigger] new_traj.pois@[q])),
            forall|q: int| 0 <= q < idx ==> (#[trigger] new_traj.pois@[q]) >= -1,
            forall|q: int| 0 <= q < idx ==> (#[trigger] new_traj.flocks@[q])@ == (if speed_now > STOP_SPEED_THR {
                    traj_coll.flock_list(kin_v.bearing, new_traj.timestamps@[q], record.oid, flock_dists@[q]@, traj_coll.objects@.len() as int)
                } else {
                    Seq::<i32>::empty()
                }),
        decreases k - idx,
    {
        let pair = pairs[idx];
        let ts_i = pair.1;
        let poi_id: i32 = if is_stopped == 1 && last_stopped == 1 {
            last_poi
        } else if is_stopped == 1 {
            pois.nearest(&poi_dists[idx], DISTANCE_TO_POI_THR)
        } else {
            -1
        };
        let flock = traj_coll.flocks(speed_now, kin_v.bearing, ts_i, record.oid, &flock_dists[idx]);
        let ghost flock_view = flock@;
        new_traj.insert_unbounded(pair.0, ts_i, speed_now, kin_v.bearing, poi_id, trip_id, is_stopped, flock);
        proof {
            let q = idx as int;
            assert(pair == pairs@[q]);
            assert(ts_i == t.last_ts() + RATE * (q + 1));
            assert(poi_clause(*t, is_stopped, poi_dists@[q]@, new_traj.pois@[q]));
            assert(new_traj.flocks@[q]@ == flock_view);
        }
        idx = idx + 1;
    }
    proof {
        assert forall|q: int| 0 <= q < new_traj.len_spec() implies new_traj.row_ok(q) by {
            assert(new_traj.coordinates@[q] == coords@[q]);
            assert(new_traj.pois@[q] >= -1);
        }
        assert forall|q: int| 0 <= q && q + 1 < new_traj.len_spec() implies new_traj.step_ok(q) by {
            assert(new_traj.stopped@[q] == is_stopped);
            assert(new_traj.stopped@[q + 1] == is_stopped);
            assert(new_traj.trips@[q] == trip_id);
            assert(new_traj.trips@[q + 1] == trip_id);
            assert(new_traj.timestamps@[q] == t.last_ts() + RATE * (q + 1));
            assert(new_traj.timestamps@[q + 1] == t.last_ts() + RATE * (q + 2));
            assert(RATE * (q + 2) - RATE * (q + 1) == RATE) by (nonlinear_arith);
        }
        if new_traj.len_spec() > 0 {
            assert(new_traj.timestamps@[0] == t.last_ts() + RATE * 1);
            assert(new_traj.stopped@[0] == is_stopped);
            assert(new_traj.trips@[0] == trip_id);
        }
    }
    new_traj
}

/// A step through one pipeline touched only the entry for `record.oid`:
/// every other trajectory is untouched, an already known object keeps its
/// identity and cap, and a previously unseen object was appended at the
/// end as a fresh seed.
pub open spec fn step_frame(pre: TrajCollection, post: TrajCollection, record: Record) -> bool {
    if pre.contains_oid(record.oid) {
        let i = pre.index_of(record.oid);
        &&& post.objects@.len() == pre.objects@.len()
        &&& forall|q: int| 0 <= q < pre.objects@.len() && q != i ==>
                post.objects@[q] == pre.objects@[q]
        &&& post.objects@[i].oid == pre.objects@[i].oid
        &&& post.objects@[i].max_size == pre.objects@[i].max_size
    } else {
        &&& post.objects@.len() == pre.objects@.len() + 1
        &&& forall|q: int| 0 <= q < pre.objects@.len() ==>
                post.objects@[q] == pre.objects@[q]
        &&& is_seed_delta(record, post.objects@[pre.objects@.len() as int])
    }
}

/// The entry for `record.oid` is unchanged in every column.
pub open spec fn entry_unchanged(t: Trajectory, u: Trajectory) -> bool {
    &&& u.coordinates@ == t.coordinates@
    &&& u.timestamps@ == t.timestamps@
    &&& u.speed@ == t.speed@
    &&& u.bearing@ == t.bearing@
    &&& u.stopped@ == t.stopped@
    &&& u.trips@ == t.trips@
    &&& u.pois@ == t.pois@
    &&& u.flocks@ == t.flocks@
}

/// The entry for `record.oid` gained exactly the annotated row for the
/// record on top of its previous rows.
pub open spec fn entry_gained_row(t: Trajectory, u: Trajectory, record: Record, kin: Kinematics, poi_dists: Seq<i64>) -> bool {
    let spd = speed_of(kin.dist, record.t, t.last_ts());
    let stp = stopped_flag(spd);
    &&& u.coordinates@ == t.coordinates@.push(record.coord_spec())
    &&& u.timestamps@ == t.timestamps@.push(record.t)
    &&& u.speed@ == t.speed@.push(spd as i64)
    &&& u.bearing@ == t.bearing@.push(kin.bearing)
    &&& u.stopped@ == t.stopped@.push(stp)
    &&& u.trips@ == t.trips@.push(trip_of(t.last_stopped(), stp, t.last_trip()) as i32)
    &&& u.pois@.drop_last() == t.pois@
    &&& u.pois@.len() == t.pois@.len() + 1
    &&& poi_clause(t, stp, poi_dists, u.pois@.last())
    &&& u.flocks@.drop_last() == t.flocks@
    &&& u.flocks@.len() == t.flocks@.len() + 1
    &&& u.flocks@.last()@ == Seq::<i32>::empty()
}

/// One record through the cleaning pipeline and into its collection.
/// This is where the engine's invariants are closed: the delta the
/// pipeline emits is proved to satisfy every demand of the merge, so the
/// collection stays well-formed on every step.  The history cap is
/// effectively unbounded, so short of a history already at the machine
/// limit the merged row sits whole on top of the previous ones.
pub fn clean_step(traj_coll: &mut TrajCollection, record: &Record, pois: &Pois, kin: &Option<Kinematics>, poi_dists: &Vec<i64>)
    requires
        pipeline_pre(*record, *old(traj_coll), *pois, *kin, poi_dists@),
        old(traj_coll).caps_ok(),
    ensures
        final(traj_coll).wf(),
        final(traj_coll).caps_ok(),
        final(traj_coll).contains_oid(record.oid),
        step_frame(*old(traj_coll), *final(traj_coll), *record),
        old(traj_coll).contains_oid(record.oid) ==> ({
            let i = old(traj_coll).index_of(record.oid);
            let t = old(traj_coll).objects@[i];
            let u = final(traj_coll).objects@[i];
            let spd = speed_of(kin->Some_0.dist, record.t, t.last_ts());
            &&& (record.t == t.last_ts() || spd > MAX_SPEED) ==> entry_unchanged(t, u)
            &&& (record.t != t.last_ts() && spd <= MAX_SPEED && t.len_spec() < usize::MAX) ==>
                    entry_gained_row(t, u, *record, kin->Some_0, poi_dists@)
        }),
{
    let ghost pre = *traj_coll;
    materialize_len(traj_coll, record.oid);
    let delta = cleaned(record, traj_coll, pois, kin, poi_dists);
    proof {
        lemma_merge_pre(*traj_coll, delta, None);
    }
    traj_coll.extend_flush(delta, None);
    proof {
        lemma_caps_after_merge(pre, *traj_coll, delta);
        lemma_one_row_merge(pre, *traj_coll, delta, *record);
        if pre.contains_oid(record.oid) {
            let i = pre.index_of(record.oid);
            let t = pre.objects@[i];
            let u = traj_coll.objects@[i];
            let kv = (*kin)->Some_0;
            let spd = speed_of(kv.dist, record.t, t.last_ts());
            if record.t != t.last_ts() && spd <= MAX_SPEED && t.len_spec() < usize::MAX {
                assert(delta.len_spec() == 1);
                assert(delta.speed@[0] == spd as i64);
                assert(u.pois@ == t.pois@.push(delta.pois@[0]));
                assert(u.pois@.drop_last() =~= t.pois@);
                assert(u.flocks@.drop_last() =~= t.flocks@);
                assert(u.flocks@.last() == delta.flocks@[0]);
                assert(entry_gained_row(t, u, *record, kv, poi_dists@));
            }
        }
    }
}

/// Read the retained length of the entry for `oid`, if any, so that its
/// specification-level length is known to fit the machine word.
fn materialize_len(traj_coll: &TrajCollection, oid: i32)
    requires
        traj_coll.wf(),
    ensures
        traj_coll.contains_oid(oid) ==> traj_coll.traj_of(oid).len_spec() <= usize::MAX,
{
    if let Some(i) = traj_coll.find(oid) {
        let n = traj_coll.objects[i].timestamps.len();
        proof {
            assert(traj_coll.traj_of(oid).len_spec() == n);
        }
    }
}

/// Composing a one-row (or empty) delta with the merge: when nothing was
/// emitted the owned entry is unchanged, and when one row was emitted and
/// the history is below the machine limit, the entry gained exactly that
/// row.
proof fn lemma_one_row_merge(pre: TrajCollection, post: TrajCollection, delta: Trajectory, record: Record)
    requires
        pre.wf(),
        pre.caps_ok(),
        delta.rows_aligned(),
        delta.len_spec() <= 1,
        pre.contains_oid(record.oid) ==> delta.oid == record.oid
            && pre.traj_of(record.oid).len_spec() <= usize::MAX,
        pre.contains_oid(record.oid) ==> ({
            let i = pre.index_of(record.oid);
            let t = pre.objects@[i];
            let k = Trajectory::cap_overflow(t.len_spec() + delta.len_spec(), t.max_size as nat);
            let u = post.objects@[i];
            &&& u.coordinates@ == (t.coordinates@ + delta.coordinates@).skip(k).skip(0)
            &&& u.timestamps@ == (t.timestamps@ + delta.timestamps@).skip(k).skip(0)
            &&& u.speed@ == (t.speed@ + delta.speed@).skip(k).skip(0)
            &&& u.bearing@ == (t.bearing@ + delta.bearing@).skip(k).skip(0)
            &&& u.stopped@ == (t.stopped@ + delta.stopped@).skip(k).skip(0)
            &&& u.trips@ == (t.trips@ + delta.trips@).skip(k).skip(0)
            &&& u.pois@ == (t.pois@ + delta.pois@).skip(k).skip(0)
            &&& u.flocks@ == (t.flocks@ + delta.flocks@).skip(k).skip(0)
        }),
    ensures
        pre.contains_oid(record.oid) ==> ({
            let i = pre.index_of(record.oid);
            let t = pre.objects@[i];
            let u = post.objects@[i];
            &&& delta.len_spec() == 0 ==> entry_unchanged(t, u)
            &&& (delta.len_spec() == 1 && t.len_spec() < usize::MAX) ==> ({
                &&& u.coordinates@ == t.coordinates@.push(delta.coordinates@[0])
                &&& u.timestamps@ == t.timestamps@.push(delta.timestamps@[0])
                &&& u.speed@ == t.speed@.push(delta.speed@[0])
                &&& u.bearing@ == t.bearing@.push(delta.bearing@[0])
                &&& u.stopped@ == t.stopped@.push(delta.stopped@[0])
                &&& u.trips@ == t.trips@.push(delta.trips@[0])
                &&& u.pois@ == t.pois@.push(delta.pois@[0])
                &&& u.flocks@ == t.flocks@.push(delta.flocks@[0])
            })
        }),
{
    if pre.contains_oid(record.oid) {
        let i = pre.index_of(record.oid);
        let t = pre.objects@[i];
        let u = post.objects@[i];
        assert(t.max_size == crate::HISTORY_SIZE);
        let k = Trajectory::cap_overflow(t.len_spec() + delta.len_spec(), t.max_size as nat);
        if delta.len_spec() == 0 {
            assert(k == 0);
            assert(u.coordinates@ =~= t.coordinates@);
            assert(u.timestamps@ =~= t.timestamps@);
            assert(u.speed@ =~= t.speed@);
            assert(u.bearing@ =~= t.bearing@);
            assert(u.stopped@ =~= t.stopped@);
            assert(u.trips@ =~= t.trips@);
            assert(u.pois@ =~= t.pois@);
            assert(u.flocks@ =~= t.flocks@);
        } else if t.len_spec() < usize::MAX {
            assert(k == 0);
            assert(u.coordinates@ =~= t.coordinates@.push(delta.coordinates@[0]));
            assert(u.timestamps@ =~= t.timestamps@.push(delta.timestamps@[0]));
            assert(u.speed@ =~= t.speed@.push(delta.speed@[0]));
            assert(u.bearing@ =~= t.bearing@.push(delta.bearing@[0]));
            assert(u.stopped@ =~= t.stopped@.push(delta.stopped@[0]));
            assert(u.trips@ =~= t.trips@.push(delta.trips@[0]));
            assert(u.pois@ =~= t.pois@.push(delta.pois@[0]));
            assert(u.flocks@ =~= t.flocks@.push(delta.flocks@[0]));
        }
    }
}

/// One record through the resampling pipeline and into its collection.
pub fn resample_step(traj_coll: &mut TrajCollection, record: &Record, pois: &Pois, kin: &Option<Kinematics>,
                     coords: &Vec<Coordinate>, poi_dists: &Vec<Vec<i64>>, flock_dists: &Vec<Vec<i64>>)
    requires
        pipeline_pre_base(*record, *old(traj_coll), *kin),
        pois.pois@.len() <= i32::MAX,
        resample_queries_poi(*record, *old(traj_coll), *kin) ==> pois.pois@.len() > 0,
        old(traj_coll).caps_ok(),
        resample_emits(*record, *old(traj_coll), *kin) ==> ({
            let t = old(traj_coll).traj_of(record.oid);
            let k = resample_count(*record, t);
            &&& coords@.len() == k
            &&& forall|i: int| 0 <= i < k ==> (#[trigger] coords@[i]).wf()
            &&& poi_dists@.len() == k
            &&& forall|i: int| 0 <= i < k ==> (#[trigger] poi_dists@[i])@.len() == pois.pois@.len()
            &&& flock_dists@.len() == k
            &&& forall|i: int| 0 <= i < k ==> (#[trigger] flock_dists@[i])@.len() == old(traj_coll).objects@.len()
        }),
    ensures
        final(traj_coll).wf(),
        final(traj_coll).caps_ok(),
        final(traj_coll).contains_oid(record.oid),
        step_frame(*old(traj_coll), *final(traj_coll), *record),
        old(traj_coll).contains_oid(record.oid) ==> ({
            let i = old(traj_coll).index_of(record.oid);
            let t = old(traj_coll).objects@[i];
            let u = final(traj_coll).objects@[i];
            let spd = speed_of(kin->Some_0.dist, record.t, t.last_ts());
            let stp = stopped_flag(spd);
            let kr = resample_count(*record, t);
            let n0 = t.len_spec() as int;
            &&& !resample_emits(*record, *old(traj_coll), *kin) ==> entry_unchanged(t, u)
            &&& (resample_emits(*record, *old(traj_coll), *kin) && t.len_spec() + kr <= usize::MAX) ==> ({
                &&& u.len_spec() == t.len_spec() + kr
                &&& u.coordinates@.subrange(0, n0) == t.coordinates@
                &&& u.timestamps@.subrange(0, n0) == t.timestamps@
                &&& u.speed@.subrange(0, n0) == t.speed@
                &&& u.bearing@.subrange(0, n0) == t.bearing@
                &&& u.stopped@.subrange(0, n0) == t.stopped@
                &&& u.trips@.subrange(0, n0) == t.trips@
                &&& u.pois@.subrange(0, n0) == t.pois@
                &&& u.flocks@.subrange(0, n0) == t.flocks@
                &&& forall|q: int| 0 <= q < kr ==> (#[trigger] u.coordinates@[n0 + q]) == coords@[q]
                &&& forall|q: int| 0 <= q < kr ==> (#[trigger] u.timestamps@[n0 + q]) == t.last_ts() + RATE * (q + 1)
                &&& forall|q: int| 0 <= q < kr ==> (#[trigger] u.speed@[n0 + q]) == spd
                &&& forall|q: int| 0 <= q < kr ==> (#[trigger] u.bearing@[n0 + q]) == kin->Some_0.bearing
                &&& forall|q: int| 0 <= q < kr ==> (#[trigger] u.stopped@[n0 + q]) == stp
                &&& forall|q: int| 0 <= q < kr ==> (#[trigger] u.trips@[n0 + q]) == trip_of(t.last_stopped(), stp, t.last_trip())
                &&& forall|q: int| 0 <= q < kr ==> poi_clause(t, stp, poi_dists@[q]@, (#[trigger] u.pois@[n0 + q]))
                &&& forall|q: int| 0 <= q < kr ==> (#[trigger] u.flocks@[n0 + q])@ == (if spd > STOP_SPEED_THR {
                        old(traj_coll).flock_list(kin->Some_0.bearing, u.timestamps@[n0 + q], record.oid, flock_dists@[q]@, old(traj_coll).objects@.len() as int)
                    } else {
                        Seq::<i32>::empty()
                    })
            })
        }),
{
    let ghost pre = *traj_coll;
    materialize_len(traj_coll, record.oid);
    let delta = resampled(record, traj_coll, pois, kin, coords, poi_dists, flock_dists);
    proof {
        lemma_merge_pre(*traj_coll, delta, None);
    }
    traj_coll.extend_flush(delta, None);
    proof {
        lemma_caps_after_merge(pre, *traj_coll, delta);
        if pre.contains_oid(record.oid) {
            let i = pre.index_of(record.oid);
            let t = pre.objects@[i];
            let u = traj_coll.objects@[i];
            let kv = (*kin)->Some_0;
            let spd = speed_of(kv.dist, record.t, t.last_ts());
            let kr = resample_count(*record, t);
            let n0 = t.len_spec() as int;
            let k = Trajectory::cap_overflow(t.len_spec() + delta.len_spec(), t.max_size as nat);
            if !resample_emits(*record, pre, *kin) {
                assert(delta.len_spec() == 0);
                assert(k == 0);
                assert(entry_unchanged(t, u)) by {
                    assert(u.coordinates@ =~= t.coordinates@);
                    assert(u.timestamps@ =~= t.timestamps@);
                    assert(u.speed@ =~= t.speed@);
                    assert(u.bearing@ =~= t.bearing@);
                    assert(u.stopped@ =~= t.stopped@);
                    assert(u.trips@ =~= t.trips@);
                    assert(u.pois@ =~= t.pois@);
                    assert(u.flocks@ =~= t.flocks@);
                }
            } else if t.len_spec() + kr <= usize::MAX {
                assert(delta.len_spec() == kr);
                assert(k == 0);
                assert(u.coordinates@ =~= t.coordinates@ + delta.coordinates@);
                assert(u.timestamps@ =~= t.timestamps@ + delta.timestamps@);
                assert(u.speed@ =~= t.speed@ + delta.speed@);
                assert(u.bearing@ =~= t.bearing@ + delta.bearing@);
                assert(u.stopped@ =~= t.stopped@ + delta.stopped@);
                assert(u.trips@ =~= t.trips@ + delta.trips@);
                assert(u.pois@ =~= t.pois@ + delta.pois@);
                assert(u.flocks@ =~= t.flocks@ + delta.flocks@);
                assert(u.coordinates@.subrange(0, n0) =~= t.coordinates@);
                assert(u.timestamps@.subrange(0, n0) =~= t.timestamps@);
                assert(u.speed@.subrange(0, n0) =~= t.speed@);
                assert(u.bearing@.subrange(0, n0) =~= t.bearing@);
                assert(u.stopped@.subrange(0, n0) =~= t.stopped@);
                assert(u.trips@.subrange(0, n0) =~= t.trips@);
                assert(u.pois@.subrange(0, n0) =~= t.pois@);
                assert(u.flocks@.subrange(0, n0) =~= t.flocks@);
                assert forall|q: int| 0 <= q < kr
                    implies (#[trigger] u.coordinates@[n0 + q]) == coords@[q]
                        && (#[trigger] u.timestamps@[n0 + q]) == t.last_ts() + RATE * (q + 1)
                        && (#[trigger] u.speed@[n0 + q]) == spd
                        && (#[trigger] u.bearing@[n0 + q]) == kv.bearing
                        && (#[trigger] u.stopped@[n0 + q]) == stopped_flag(spd)
                        && (#[trigger] u.trips@[n0 + q]) == trip_of(t.last_stopped(), stopped_flag(spd), t.last_trip())
                        && poi_clause(t, stopped_flag(spd), poi_dists@[q]@, (#[trigger] u.pois@[n0 + q]))
                        && (#[trigger] u.flocks@[n0 + q])@ == (if spd > STOP_SPEED_THR {
                                pre.flock_list(kv.bearing, u.timestamps@[n0 + q], record.oid, flock_dists@[q]@, pre.objects@.len() as int)
                            } else {
                                Seq::<i32>::empty()
                            }) by {
                    assert(u.coordinates@[n0 + q] == delta.coordinates@[q]);
                    assert(u.timestamps@[n0 + q] == delta.timestamps@[q]);
                    assert(u.speed@[n0 + q] == delta.speed@[q]);
                    assert(u.bearing@[n0 + q] == delta.bearing@[q]);
                    assert(u.stopped@[n0 + q] == delta.stopped@[q]);
                    assert(u.trips@[n0 + q] == delta.trips@[q]);
                    assert(u.pois@[n0 + q] == delta.pois@[q]);
                    assert(u.flocks@[n0 + q] == delta.flocks@[q]);
                }
            }
        }
    }
}

/// The flush index the configured compression algorithm names for a
/// retained record against the owned trajectory `t`, as the algorithms'
/// own contracts state it.
pub open spec fn compress_flush_ok(t: Trajectory, record: Record, kin: Kinematics, algo: CompressionAlgo, flush: Option<usize>) -> bool {
    let spd = speed_of(kin.dist, record.t, t.last_ts());
    match algo {
        CompressionAlgo::Opw => t.opw_result_ok(record.coord_spec(), flush),
        CompressionAlgo::OpwTr => t.opw_tr_result_ok(record.coord_spec(), record.t, flush),
        CompressionAlgo::Uniform => flush == if t.len_spec() % (UNIFORM_S as nat) == 0 {
            Some((t.len_spec() - 1) as usize)
        } else {
            None::<usize>
        },
        CompressionAlgo::DeadReckoning => flush == if t.dead_rec_triggers(spd as i64, kin.bearing) {
            Some((t.len_spec() - 1) as usize)
        } else {
            None::<usize>
        },
    }
}

/// One record through the compression pipeline and into its collection:
/// the delta is merged first, then the flush index the algorithm named is
/// applied, dropping that many leading rows.  Returns the applied flush
/// index.
pub fn compress_step(traj_coll: &mut TrajCollection, record: &Record, pois: &Pois, kin: &Option<Kinematics>, poi_dists: &Vec<i64>, algo: CompressionAlgo) -> (flush: Option<usize>)
    requires
        pipeline_pre(*record, *old(traj_coll), *pois, *kin, poi_dists@),
        old(traj_coll).caps_ok(),
    ensures
        final(traj_coll).wf(),
        final(traj_coll).caps_ok(),
        final(traj_coll).contains_oid(record.oid),
        step_frame(*old(traj_coll), *final(traj_coll), *record),
        !old(traj_coll).contains_oid(record.oid) ==> flush is None,
        old(traj_coll).contains_oid(record.oid) ==> ({
            let i = old(traj_coll).index_of(record.oid);
            let t = old(traj_coll).objects@[i];
            let u = final(traj_coll).objects@[i];
            let spd = speed_of(kin->Some_0.dist, record.t, t.last_ts());
            let f = match flush {
                Some(n) => n as int,
                None => 0,
            };
            &&& (record.t == t.last_ts() || spd > MAX_SPEED) ==> entry_unchanged(t, u) && flush is None
            &&& (record.t != t.last_ts() && spd <= MAX_SPEED) ==> ({
                &&& compress_flush_ok(t, *record, kin->Some_0, algo, flush)
                &&& (flush matches Some(n) ==> n < t.len_spec())
                &&& t.len_spec() < usize::MAX ==> ({
                    let spd_i = spd as i64;
                    let stp = stopped_flag(spd);
                    &&& u.coordinates@ == t.coordinates@.push(record.coord_spec()).skip(f)
                    &&& u.timestamps@ == t.timestamps@.push(record.t).skip(f)
                    &&& u.speed@ == t.speed@.push(spd_i).skip(f)
                    &&& u.bearing@ == t.bearing@.push(kin->Some_0.bearing).skip(f)
                    &&& u.stopped@ == t.stopped@.push(stp).skip(f)
                    &&& u.trips@ == t.trips@.push(trip_of(t.last_stopped(), stp, t.last_trip()) as i32).skip(f)
                    &&& u.pois@.len() == t.pois@.len() + 1 - f
                    &&& u.pois@ == (t.pois@ + seq![u.pois@.last()]).skip(f)
                    &&& poi_clause(t, stp, poi_dists@, u.pois@.last())
                    &&& u.flocks@.len() == t.flocks@.len() + 1 - f
                    &&& u.flocks@.last()@ == Seq::<i32>::empty()
                    &&& forall|q: int| 0 <= q && q + 1 < u.flocks@.len() ==>
                            (#[trigger] u.flocks@[q]) == t.flocks@[q + f]
                })
            })
        }),
{
    let ghost pre = *traj_coll;
    materialize_len(traj_coll, record.oid);
    let (delta, flush_id) = compressed(record, traj_coll, pois, kin, poi_dists, algo);
    proof {
        lemma_merge_pre(*traj_coll, delta, flush_id);
    }
    traj_coll.extend_flush(delta, flush_id);
    proof {
        lemma_caps_after_merge(pre, *traj_coll, delta);
        if pre.contains_oid(record.oid) {
            let i = pre.index_of(record.oid);
            let t = pre.objects@[i];
            let u = traj_coll.objects@[i];
            let kv = (*kin)->Some_0;
            let spd = speed_of(kv.dist, record.t, t.last_ts());
            let k = Trajectory::cap_overflow(t.len_spec() + delta.len_spec(), t.max_size as nat);
            let f = match flush_id {
                Some(n) => n as int,
                None => 0,
            };
            if record.t == t.last_ts() || spd > MAX_SPEED {
                assert(k == 0);
                assert(entry_unchanged(t, u)) by {
                    assert(u.coordinates@ =~= t.coordinates@);
                    assert(u.timestamps@ =~= t.timestamps@);
                    assert(u.speed@ =~= t.speed@);
                    assert(u.bearing@ =~= t.bearing@);
                    assert(u.stopped@ =~= t.stopped@);
                    assert(u.trips@ =~= t.trips@);
                    assert(u.pois@ =~= t.pois@);
                    assert(u.flocks@ =~= t.flocks@);
                }
            } else if t.len_spec() < usize::MAX {
                assert(k == 0);
                assert(delta.len_spec() == 1);
                assert(t.coordinates@ + delta.coordinates@ =~= t.coordinates@.push(record.coord_spec()));
                assert(t.timestamps@ + delta.timestamps@ =~= t.timestamps@.push(record.t));
                assert(t.speed@ + delta.speed@ =~= t.speed@.push(spd as i64));
                assert(t.bearing@ + delta.bearing@ =~= t.bearing@.push(kv.bearing));
                assert(t.stopped@ + delta.stopped@ =~= t.stopped@.push(stopped_flag(spd)));
                assert(t.trips@ + delta.trips@ =~= t.trips@.push(trip_of(t.last_stopped(), stopped_flag(spd), t.last_trip()) as i32));
                assert(u.pois@.last() == delta.pois@[0]);
                assert(t.pois@ + delta.pois@ =~= t.pois@ + seq![u.pois@.last()]);
                assert(u.flocks@.last() == delta.flocks@[0]);
                assert forall|q: int| 0 <= q && q + 1 < u.flocks@.len()
                    implies (#[trigger] u.flocks@[q]) == t.flocks@[q + f] by {
                    assert(u.flocks@[q] == (t.flocks@ + delta.flocks@)[q + f]);
                }
            }
        }
    }
    flush_id
}

/// The preconditions of `extend_flush` follow from what the pipelines
/// ensure of their deltas: a seed delta for an unseen object is non-empty,
/// an appended delta joins the owned trajectory, and a flush index from a
/// compression algorithm always lies strictly inside what remains after
/// the merge.
proof fn lemma_merge_pre(coll: TrajCollection, delta: Trajectory, flush: Option<usize>)
    requires
        coll.wf(),
        coll.caps_ok(),
        delta.wf(),
        !coll.contains_oid(delta.oid) ==> delta.len_spec() > 0,
        coll.contains_oid(delta.oid) ==> coll.traj_of(delta.oid).joins(delta),
        flush is Some ==> coll.contains_oid(delta.oid)
            && (flush->Some_0 as int) < coll.traj_of(delta.oid).len_spec()
            && coll.traj_of(delta.oid).len_spec() <= usize::MAX,
    ensures
        coll.contains_oid(delta.oid) ==> ({
            let t = coll.traj_of(delta.oid);
            let after = t.len_spec() + delta.len_spec()
                - Trajectory::cap_overflow(t.len_spec() + delta.len_spec(), t.max_size as nat);
            &&& after >= 1
            &&& match flush {
                    Some(n) => n < after,
                    None => true,
                }
        }),
{
    if coll.contains_oid(delta.oid) {
        let t = coll.traj_of(delta.oid);
        let i = coll.index_of(delta.oid);
        assert(t == coll.objects@[i]);
        assert(t.max_size == crate::HISTORY_SIZE);
        assert(t.len_spec() >= 1);
    }
}

/// Merging a delta never changes any trajectory's history cap, so a
/// collection whose caps are all the default keeps them.
proof fn lemma_caps_after_merge(pre: TrajCollection, post: TrajCollection, delta: Trajectory)
    requires
        pre.wf(),
        pre.caps_ok(),
        delta.max_size == crate::HISTORY_SIZE,
        !pre.contains_oid(delta.oid) ==> post.objects@ == pre.objects@.push(delta),
        pre.contains_oid(delta.oid) ==> ({
            let i = pre.index_of(delta.oid);
            &&& post.objects@.len() == pre.objects@.len()
            &&& forall|q: int| 0 <= q < pre.objects@.len() && q != i ==>
                    post.objects@[q] == pre.objects@[q]
            &&& post.objects@[i].max_size == pre.objects@[i].max_size
        }),
    ensures
        post.caps_ok(),
{
    assert forall|q: int| 0 <= q < post.objects@.len()
        implies (#[trigger] post.objects@[q]).max_size == crate::HISTORY_SIZE by {
        if pre.contains_oid(delta.oid) {
            let i = pre.index_of(delta.oid);
            if q != i {
                assert(pre.objects@[q].max_size == crate::HISTORY_SIZE);
            } else {
                assert(pre.objects@[i].max_size == crate::HISTORY_SIZE);
            }
        } else {
            if q < pre.objects@.len() {
                assert(pre.objects@[q].max_size == crate::HISTORY_SIZE);
            }
        }
    }
}

} // verus!
