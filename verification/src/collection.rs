//! The collection that owns one trajectory per live object, routes deltas
//! into it, and answers the cross-object queries: flock detection and the
//! sliding window handed to the predictor.

use vstd::prelude::*;
use crate::geo::Coordinate;
use crate::trajectory::{Trajectory, abs_val};
use crate::{STOP_SPEED_THR, FLOCKS_MAX_DT_THRESHOLD, FLOCKS_MAX_BEARING_THRESHOLD, FLOCKS_DISTANCE_THRESHOLD, PRED_WINDOW};

verus! {

/// All live trajectories, one per object identifier.  Order is the order
/// in which objects were first heard from; identifiers are unique.
#[derive(Debug)]
pub struct TrajCollection {
    pub objects: Vec<Trajectory>,
}

impl TrajCollection {
    /// Every owned trajectory is well-formed and non-empty, and no two
    /// share an object identifier.
    pub open spec fn wf(self) -> bool {
        &&& forall|i: int| 0 <= i < self.objects@.len() ==> (#[trigger] self.objects@[i]).wf()
        &&& forall|i: int| 0 <= i < self.objects@.len() ==> (#[trigger] self.objects@[i]).len_spec() > 0
        &&& forall|i: int, j: int| 0 <= i < j < self.objects@.len() ==>
                self.objects@[i].oid != self.objects@[j].oid
    }

    /// Every owned trajectory keeps the default history cap.
    pub open spec fn caps_ok(self) -> bool {
        forall|i: int| 0 <= i < self.objects@.len() ==>
            (#[trigger] self.objects@[i]).max_size == crate::HISTORY_SIZE
    }

    pub open spec fn contains_oid(self, oid: i32) -> bool {
        exists|i: int| 0 <= i < self.objects@.len() && (#[trigger] self.objects@[i]).oid == oid
    }

    pub open spec fn index_of(self, oid: i32) -> int {
        choose|i: int| 0 <= i < self.objects@.len() && (#[trigger] self.objects@[i]).oid == oid
    }

    /// The trajectory owned for `oid`; meaningful only when `contains_oid`.
    pub open spec fn traj_of(self, oid: i32) -> Trajectory {
        self.objects@[self.index_of(oid)]
    }

    pub fn new() -> (r: TrajCollection)
        ensures
            r.wf(),
            r.objects@.len() == 0,
    {
        TrajCollection { objects: Vec::new() }
    }

    /// Position of the trajectory owned for `oid`, if any.
    pub fn find(&self, oid: i32) -> (r: Option<usize>)
        requires
            self.wf(),
        ensures
            match r {
                Some(i) => {
                    &&& i < self.objects@.len()
                    &&& self.objects@[i as int].oid == oid
                    &&& self.contains_oid(oid)
                    &&& i == self.index_of(oid)
                },
                None => !self.contains_oid(oid),
            },
    {
        let n = self.objects.len();
        let mut j: usize = 0;
        while j < n
            invariant
                0 <= j <= n,
                n == self.objects@.len(),
                self.wf(),
                forall|q: int| 0 <= q < j ==> (#[trigger] self.objects@[q]).oid != oid,
            decreases n - j,
        {
            if self.objects[j].oid == oid {
                proof {
                    assert(self.objects@[j as int].oid == oid);
                    let w = self.index_of(oid);
                    if w != j {
                        assert(self.objects@[w].oid == oid);
                    }
                }
                return Some(j);
            }
            j = j + 1;
        }
        None
    }

    /// Merge a delta trajectory: insert it whole for an unseen object, or
    /// append it to the owned trajectory and, when a flush index is given,
    /// drop that many leading rows afterwards.
    pub fn extend_flush(&mut self, trajectory: Trajectory, n_opt: Option<usize>)
        requires
            old(self).wf(),
            trajectory.wf(),
            !old(self).contains_oid(trajectory.oid) ==> trajectory.len_spec() > 0,
            old(self).contains_oid(trajectory.oid) ==> ({
                let t = old(self).traj_of(trajectory.oid);
                let after = t.len_spec() + trajectory.len_spec()
                    - Trajectory::cap_overflow(t.len_spec() + trajectory.len_spec(), t.max_size as nat);
                &&& t.joins(trajectory)
                &&& after >= 1
                &&& match n_opt {
                        Some(n) => n < after,
                        None => true,
                    }
            }),
        ensures
            final(self).wf(),
            final(self).contains_oid(trajectory.oid),
            !old(self).contains_oid(trajectory.oid) ==>
                final(self).objects@ == old(self).objects@.push(trajectory),
            old(self).contains_oid(trajectory.oid) ==> ({
                let i = old(self).index_of(trajectory.oid);
                let t = old(self).objects@[i];
                let k = Trajectory::cap_overflow(t.len_spec() + trajectory.len_spec(), t.max_size as nat);
                let f = match n_opt {
                    Some(n) => n as int,
                    None => 0,
                };
                let u = final(self).objects@[i];
                &&& final(self).objects@.len() == old(self).objects@.len()
                &&& forall|q: int| 0 <= q < old(self).objects@.len() && q != i ==>
                        final(self).objects@[q] == old(self).objects@[q]
                &&& u.oid == t.oid
                &&& u.max_size == t.max_size
                &&& u.coordinates@ == (t.coordinates@ + trajectory.coordinates@).skip(k).skip(f)
                &&& u.timestamps@ == (t.timestamps@ + trajectory.timestamps@).skip(k).skip(f)
                &&& u.speed@ == (t.speed@ + trajectory.speed@).skip(k).skip(f)
                &&& u.bearing@ == (t.bearing@ + trajectory.bearing@).skip(k).skip(f)
                &&& u.stopped@ == (t.stopped@ + trajectory.stopped@).skip(k).skip(f)
                &&& u.trips@ == (t.trips@ + trajectory.trips@).skip(k).skip(f)
                &&& u.pois@ == (t.pois@ + trajectory.pois@).skip(k).skip(f)
                &&& u.flocks@ == (t.flocks@ + trajectory.flocks@).skip(k).skip(f)
            }),
    {
        let ghost pre = *self;
        match self.find(trajectory.oid) {
            None => {
                self.objects.push(trajectory);
                proof {
                    assert(self.objects@[self.objects@.len() - 1].oid == trajectory.oid);
                    assert forall|i: int| 0 <= i < self.objects@.len()
                        implies (#[trigger] self.objects@[i]).wf() && self.objects@[i].len_spec() > 0 by {
                        if i < pre.objects@.len() {
                            assert(pre.objects@[i].wf());
                            assert(pre.objects@[i].len_spec() > 0);
                        }
                    }
                }
            },
            Some(i) => {
                let mut t = self.objects.remove(i);
                let ghost told = t;
                t.extend(trajectory);
                match n_opt {
                    Some(n) => {
                        t.drop_first_n(n);
                    },
                    None => {},
                }
                self.objects.insert(i, t);
                proof {
                    assert(self.objects@ =~= pre.objects@.update(i as int, t));
                    assert(self.objects@[i as int].oid == trajectory.oid);
                    assert forall|q: int| 0 <= q < self.objects@.len()
                        implies (#[trigger] self.objects@[q]).wf() && self.objects@[q].len_spec() > 0 by {
                        if q != i {
                            assert(pre.objects@[q].wf());
                            assert(pre.objects@[q].len_spec() > 0);
                        } else {
                            assert(self.objects@[q] == t);
                            assert(t.wf());
                            let lens = told.len_spec() + trajectory.len_spec();
                            let k = Trajectory::cap_overflow(lens, told.max_size as nat);
                            assert(t.timestamps@.len() > 0);
                        }
                    }
                    assert forall|q: int, w: int| 0 <= q < w < self.objects@.len()
                        implies self.objects@[q].oid != self.objects@[w].oid by {
                        assert(pre.objects@[q].oid != pre.objects@[w].oid);
                    }
                }
            },
        }
    }

    /// Whether the object at position `j` co-moves with a probe at bearing
    /// `bearing` and time `timestamp`: it is someone else, it is not
    /// stopped, it was heard from recently enough, its last bearing is
    /// within the heading tolerance (absolute difference, no circular
    /// wrap), and its dead-reckoned position lies within the flock
    /// distance.
    pub open spec fn flock_member(self, bearing: i64, timestamp: i32, my_oid: i32, est_dist: Seq<i64>, j: int) -> bool {
        let t = self.objects@[j];
        &&& t.oid != my_oid
        &&& t.last_stopped() != 1
        &&& timestamp - t.last_ts() <= FLOCKS_MAX_DT_THRESHOLD
        &&& abs_val(bearing - t.last_bearing()) <= FLOCKS_MAX_BEARING_THRESHOLD
        &&& est_dist[j] < FLOCKS_DISTANCE_THRESHOLD
    }

    /// The object identifiers among the first `j` positions that satisfy
    /// `flock_member`, in position order.
    pub open spec fn flock_list(self, bearing: i64, timestamp: i32, my_oid: i32, est_dist: Seq<i64>, j: int) -> Seq<i32>
        decreases j,
    {
        if j <= 0 {
            Seq::empty()
        } else {
            let prefix = self.flock_list(bearing, timestamp, my_oid, est_dist, j - 1);
            if self.flock_member(bearing, timestamp, my_oid, est_dist, j - 1) {
                prefix.push(self.objects@[j - 1].oid)
            } else {
                prefix
            }
        }
    }

    /// An object identifier appears in the flock list over the first `n`
    /// positions exactly when some position below `n` carries that
    /// identifier and satisfies `flock_member`: co-movers are listed, a
    /// stopped, distant, stale or own entry never is.
    pub proof fn lemma_flock_list_membership(self, bearing: i64, timestamp: i32, my_oid: i32, est_dist: Seq<i64>, n: int, oid: i32)
        requires
            0 <= n <= self.objects@.len(),
        ensures
            self.flock_list(bearing, timestamp, my_oid, est_dist, n).contains(oid)
                <==> exists|j: int| 0 <= j < n && (#[trigger] self.objects@[j]).oid == oid
                        && self.flock_member(bearing, timestamp, my_oid, est_dist, j),
        decreases n,
    {
        if n > 0 {
            self.lemma_flock_list_membership(bearing, timestamp, my_oid, est_dist, n - 1, oid);
            let p = self.flock_list(bearing, timestamp, my_oid, est_dist, n - 1);
            let l = self.flock_list(bearing, timestamp, my_oid, est_dist, n);
            if self.flock_member(bearing, timestamp, my_oid, est_dist, n - 1) {
                assert(l == p.push(self.objects@[n - 1].oid));
                if l.contains(oid) {
                    let w = choose|w: int| 0 <= w < l.len() && l[w] == oid;
                    if w < p.len() {
                        assert(p[w] == oid);
                        assert(p.contains(oid));
                    } else {
                        assert(self.objects@[n - 1].oid == oid);
                    }
                }
                if p.contains(oid) {
                    let w = choose|w: int| 0 <= w < p.len() && p[w] == oid;
                    assert(l[w] == oid);
                    assert(l.contains(oid));
                }
                if self.objects@[n - 1].oid == oid {
                    assert(l[l.len() - 1] == oid);
                    assert(l.contains(oid));
                }
            } else {
                assert(l == p);
            }
        }
    }

    /// Identifiers of the objects currently flocking with a probe moving
    /// at `speed` micro-knots on bearing `bearing` at time `timestamp`.
    /// `est_dist[j]` is the great-circle distance, in micro-nautical-miles,
    /// from the probe position to object `j`'s position dead-reckoned
    /// forward to `timestamp`.  A stationary probe flocks with nobody.
    pub fn flocks(&self, speed: i64, bearing: i64, timestamp: i32, my_oid: i32, est_dist: &Vec<i64>) -> (r: Vec<i32>)
        requires
            self.wf(),
            est_dist@.len() == self.objects@.len(),
            -180_000_000 <= bearing <= 180_000_000,
        ensures
            speed > STOP_SPEED_THR ==>
                r@ == self.flock_list(bearing, timestamp, my_oid, est_dist@, self.objects@.len() as int),
            speed <= STOP_SPEED_THR ==> r@ == Seq::<i32>::empty(),
    {
        let mut flocked_oids: Vec<i32> = Vec::new();
        if speed > STOP_SPEED_THR {
            let n = self.objects.len();
            let mut j: usize = 0;
            while j < n
                invariant
                    0 <= j <= n,
                    n == self.objects@.len(),
                    self.wf(),
                    est_dist@.len() == n,
                    -180_000_000 <= bearing <= 180_000_000,
                    flocked_oids@ == self.flock_list(bearing, timestamp, my_oid, est_dist@, j as int),
                decreases n - j,
            {
                let t = &self.objects[j];
                proof {
                    assert(t.wf());
                    assert(t.len_spec() > 0);
                    assert(t.row_ok(t.len_spec() - 1));
                }
                let nt = t.timestamps.len();
                let member: bool = if t.oid == my_oid || t.stopped[nt - 1] == 1 {
                    false
                } else {
                    let dt = (timestamp as i64) - (t.timestamps[nt - 1] as i64);
                    let lb = t.bearing[nt - 1];
                    let db = if bearing >= lb { bearing - lb } else { lb - bearing };
                    if dt > FLOCKS_MAX_DT_THRESHOLD || db > FLOCKS_MAX_BEARING_THRESHOLD {
                        false
                    } else {
                        est_dist[j] < FLOCKS_DISTANCE_THRESHOLD
                    }
                };
                proof {
                    assert(member == self.flock_member(bearing, timestamp, my_oid, est_dist@, j as int));
                }
                if member {
                    flocked_oids.push(t.oid);
                }
                j = j + 1;
            }
        }
        flocked_oids
    }

    /// The sliding window the predictor consumes: the last `PRED_WINDOW`
    /// coordinates and timestamps of the object's trajectory, or nothing
    /// when the object is unknown or its history is still shorter than the
    /// window.
    pub fn prediction_window(&self, oid: i32) -> (r: Option<(Vec<Coordinate>, Vec<i32>)>)
        requires
            self.wf(),
        ensures
            match r {
                None => !self.contains_oid(oid) || self.traj_of(oid).len_spec() < PRED_WINDOW,
                Some(w) => {
                    let t = self.traj_of(oid);
                    let n = t.len_spec() as int;
                    &&& self.contains_oid(oid)
                    &&& t.len_spec() >= PRED_WINDOW
                    &&& w.0@ == t.coordinates@.skip(n - PRED_WINDOW as int)
                    &&& w.1@ == t.timestamps@.skip(n - PRED_WINDOW as int)
                },
            },
    {
        let i = match self.find(oid) {
            None => {
                return None;
            },
            Some(i) => i,
        };
        let t = &self.objects[i];
        let n = t.coordinates.len();
        if n < PRED_WINDOW {
            return None;
        }
        let mut coords: Vec<Coordinate> = Vec::new();
        let mut stamps: Vec<i32> = Vec::new();
        let mut j: usize = n - PRED_WINDOW;
        while j < n
            invariant
                n - PRED_WINDOW <= j <= n,
                n == t.coordinates@.len(),
                t == self.objects@[i as int],
                t.rows_aligned(),
                n >= PRED_WINDOW,
                coords@ == t.coordinates@.subrange(n - PRED_WINDOW as int, j as int),
                stamps@ == t.timestamps@.subrange(n - PRED_WINDOW as int, j as int),
            decreases n - j,
        {
            coords.push(t.coordinates[j]);
            stamps.push(t.timestamps[j]);
            proof {
                assert(coords@ =~= t.coordinates@.subrange(n - PRED_WINDOW as int, j + 1));
                assert(stamps@ =~= t.timestamps@.subrange(n - PRED_WINDOW as int, j + 1));
            }
            j = j + 1;
        }
        proof {
            assert(coords@ =~= t.coordinates@.skip(n - PRED_WINDOW as int));
            assert(stamps@ =~= t.timestamps@.skip(n - PRED_WINDOW as int));
        }
        Some((coords, stamps))
    }
}

} // verus!
