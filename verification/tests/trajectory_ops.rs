use trajstream::geo::Coordinate;
use trajstream::trajectory::Trajectory;

fn seed(oid: i32, max_size: usize, x: i64, y: i64, t: i32) -> Trajectory {
    Trajectory::new(oid, max_size, Coordinate { x, y }, t)
}

#[test]
fn from_tuple_keeps_components() {
    let c = Coordinate::from_tuple((12_345_678, -87_654_321));
    assert_eq!(c.x, 12_345_678);
    assert_eq!(c.y, -87_654_321);
}

#[test]
fn seed_row_carries_sentinels() {
    let t = seed(7, usize::MAX, 1_000_000, 2_000_000, 42);
    assert_eq!(t.oid, 7);
    assert_eq!(t.timestamps, vec![42]);
    assert_eq!(t.speed, vec![-1_000_000]);
    assert_eq!(t.bearing, vec![-1_000_000]);
    assert_eq!(t.stopped, vec![-1]);
    assert_eq!(t.trips, vec![0]);
    assert_eq!(t.pois, vec![-1]);
    assert_eq!(t.flocks, vec![Vec::<i32>::new()]);
}

#[test]
fn extend_appends_and_caps_history() {
    let mut t = seed(1, 3, 0, 0, 0);
    let mut delta = Trajectory::new_empty(1, 3);
    delta.insert_unbounded(Coordinate { x: 10, y: 10 }, 10, 100, 200, -1, 0, 0, vec![]);
    delta.insert_unbounded(Coordinate { x: 20, y: 20 }, 20, 100, 200, -1, 0, 0, vec![]);
    delta.insert_unbounded(Coordinate { x: 30, y: 30 }, 30, 100, 200, -1, 0, 0, vec![]);
    t.extend(delta);
    // four rows were held against a cap of three: the seed row is dropped
    assert_eq!(t.timestamps, vec![10, 20, 30]);
    assert_eq!(t.coordinates.len(), 3);
    assert_eq!(t.speed.len(), 3);
    assert_eq!(t.trips.len(), 3);
}

#[test]
fn drop_first_n_drops_prefix_of_every_column() {
    let mut t = seed(1, usize::MAX, 0, 0, 0);
    let mut delta = Trajectory::new_empty(1, usize::MAX);
    delta.insert_unbounded(Coordinate { x: 10, y: 10 }, 10, 100, 200, -1, 0, 0, vec![5]);
    delta.insert_unbounded(Coordinate { x: 20, y: 20 }, 20, 100, 200, -1, 0, 0, vec![]);
    t.extend(delta);
    t.drop_first_n(2);
    assert_eq!(t.timestamps, vec![20]);
    assert_eq!(t.coordinates.len(), 1);
    assert_eq!(t.flocks, vec![Vec::<i32>::new()]);
}

#[test]
fn calculate_speed_exact_value() {
    let t = seed(1, usize::MAX, 0, 0, 0);
    // one nautical mile in one hour is one knot
    assert_eq!(t.calculate_speed(1_000_000, 3600), 1_000_000);
    // two nautical miles in 100 seconds: 2e6 * 3600 / 100 = 72 knots
    assert_eq!(t.calculate_speed(2_000_000, 100), 72_000_000);
}

#[test]
fn resample_grid_length_and_spacing() {
    let t = seed(1, usize::MAX, 0, 0, 0);
    let coords = vec![
        Coordinate { x: 1, y: 1 },
        Coordinate { x: 2, y: 2 },
        Coordinate { x: 3, y: 3 },
    ];
    let out = t.resample(10, 35, &coords);
    assert_eq!(out.len(), 3);
    assert_eq!(out[0].1, 10);
    assert_eq!(out[1].1, 20);
    assert_eq!(out[2].1, 30);
    assert_eq!(out[1].1 - out[0].1, 10);
    assert_eq!(out[2].1 - out[1].1, 10);
    assert_eq!(out[0].0, Coordinate { x: 1, y: 1 });
    assert_eq!(out[2].0, Coordinate { x: 3, y: 3 });
}

#[test]
fn uniform_flushes_on_multiples_of_five() {
    let mut t = seed(1, usize::MAX, 0, 0, 0);
    let mut delta = Trajectory::new_empty(1, usize::MAX);
    for i in 1..5i32 {
        delta.insert_unbounded(Coordinate { x: 0, y: 0 }, 10 * i, 100, 200, -1, 0, 0, vec![]);
    }
    t.extend(delta);
    assert_eq!(t.timestamps.len(), 5);
    assert_eq!(t.uniform(), Some(4));
    t.drop_first_n(1);
    assert_eq!(t.uniform(), None);
}

#[test]
fn dead_reckoning_triggers_on_kinematics_change() {
    let mut t = seed(1, usize::MAX, 0, 0, 0);
    let mut delta = Trajectory::new_empty(1, usize::MAX);
    delta.insert_unbounded(Coordinate { x: 10, y: 10 }, 10, 1_000_000, 90_000_000, -1, 0, 0, vec![]);
    t.extend(delta);
    // within one ten-thousandth of a knot and of a degree: no flush
    assert_eq!(t.dead_reckoning(1_000_100, 90_000_100), None);
    // speed off by more than the tolerance
    assert_eq!(t.dead_reckoning(1_000_101, 90_000_000), Some(1));
    // bearing off by more than the tolerance
    assert_eq!(t.dead_reckoning(1_000_000, 89_999_899), Some(1));
}

#[test]
fn opw_flags_first_deviating_midpoint() {
    let mut t = seed(1, usize::MAX, 0, 0, 0);
    let mut delta = Trajectory::new_empty(1, usize::MAX);
    // on the chord from (0,0) to (20000,0): no deviation
    delta.insert_unbounded(Coordinate { x: 5_000, y: 0 }, 10, 100, 200, -1, 0, 0, vec![]);
    // 1000 micro-degrees off the chord: above the 500 tolerance
    delta.insert_unbounded(Coordinate { x: 10_000, y: 1_000 }, 20, 100, 200, -1, 0, 0, vec![]);
    t.extend(delta);
    let p = Coordinate { x: 20_000, y: 0 };
    assert_eq!(t.OPW(&p, 30), Some(2));
    // 400 micro-degrees off the chord: inside the tolerance
    let mut t2 = seed(1, usize::MAX, 0, 0, 0);
    let mut delta2 = Trajectory::new_empty(1, usize::MAX);
    delta2.insert_unbounded(Coordinate { x: 10_000, y: 400 }, 10, 100, 200, -1, 0, 0, vec![]);
    t2.extend(delta2);
    assert_eq!(t2.OPW(&p, 30), None);
}

#[test]
fn opw_reports_the_first_of_several_offenders() {
    let mut t = seed(1, usize::MAX, 0, 0, 0);
    let mut delta = Trajectory::new_empty(1, usize::MAX);
    delta.insert_unbounded(Coordinate { x: 5_000, y: 2_000 }, 10, 100, 200, -1, 0, 0, vec![]);
    delta.insert_unbounded(Coordinate { x: 10_000, y: 9_000 }, 20, 100, 200, -1, 0, 0, vec![]);
    t.extend(delta);
    let p = Coordinate { x: 20_000, y: 0 };
    assert_eq!(t.OPW(&p, 30), Some(1));
}

#[test]
fn opw_tolerance_boundary_is_strict() {
    // an offset of exactly five ten-thousandths of a degree does not
    // exceed the tolerance; one micro-degree more does
    let p = Coordinate { x: 20_000, y: 0 };
    let mut at = seed(1, usize::MAX, 0, 0, 0);
    let mut delta = Trajectory::new_empty(1, usize::MAX);
    delta.insert_unbounded(Coordinate { x: 10_000, y: 500 }, 10, 100, 200, -1, 0, 0, vec![]);
    at.extend(delta);
    assert_eq!(at.OPW(&p, 30), None);
    let mut over = seed(1, usize::MAX, 0, 0, 0);
    let mut delta = Trajectory::new_empty(1, usize::MAX);
    delta.insert_unbounded(Coordinate { x: 10_000, y: 501 }, 10, 100, 200, -1, 0, 0, vec![]);
    over.extend(delta);
    assert_eq!(over.OPW(&p, 30), Some(1));
}

#[test]
fn opw_vs_opw_tr_divergence_on_temporal_misalignment() {
    // the midpoint lies exactly on the chord, so the distance-only scan
    // accepts it, but it sits early in time: the integer time ratio is
    // zero, the synchronized projection is the chord's start, and the
    // synchronized error is the full offset of the midpoint
    let mut t = seed(1, usize::MAX, 0, 0, 0);
    let mut delta = Trajectory::new_empty(1, usize::MAX);
    delta.insert_unbounded(Coordinate { x: 10_000, y: 0 }, 10, 100, 200, -1, 0, 0, vec![]);
    t.extend(delta);
    let p = Coordinate { x: 20_000, y: 0 };
    assert_eq!(t.OPW(&p, 100), None);
    assert_eq!(t.OPW_TR(&p, 100), Some(1));
}

#[test]
fn opw_tr_accepts_when_ratio_reaches_endpoint() {
    // the midpoint shares the candidate's timestamp, the ratio is one,
    // the projection is the candidate itself, and the midpoint lies on it
    let mut t = seed(1, usize::MAX, 0, 0, 0);
    let mut delta = Trajectory::new_empty(1, usize::MAX);
    delta.insert_unbounded(Coordinate { x: 20_000, y: 0 }, 100, 100, 200, -1, 0, 0, vec![]);
    t.extend(delta);
    let p = Coordinate { x: 20_000, y: 0 };
    assert_eq!(t.OPW_TR(&p, 100), None);
}
