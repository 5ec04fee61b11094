use trajstream::geo::Coordinate;
use trajstream::collection::TrajCollection;
use trajstream::pois::Pois;
use trajstream::pipelines::{Record, Kinematics, CompressionAlgo, cleaned, compressed, resampled, clean_step, compress_step, resample_step};

fn rec(oid: i32, t: i32, lon: i64, lat: i64) -> Record {
    Record { oid, t, lon, lat }
}

fn no_pois() -> Pois {
    Pois::new(vec![Coordinate { x: 0, y: 0 }])
}

/// Seed a one-object collection through the cleaning pipeline.
fn seeded(record: Record) -> TrajCollection {
    let mut coll = TrajCollection::new();
    let pois = no_pois();
    clean_step(&mut coll, &record, &pois, &None, &vec![0]);
    coll
}

#[test]
fn unseen_oid_emits_seed() {
    let coll = TrajCollection::new();
    let pois = no_pois();
    let r = cleaned(&rec(1, 0, 1_000, 2_000), &coll, &pois, &None, &vec![0]);
    assert_eq!(r.timestamps, vec![0]);
    assert_eq!(r.speed, vec![-1_000_000]);
    assert_eq!(r.bearing, vec![-1_000_000]);
    assert_eq!(r.stopped, vec![-1]);
    assert_eq!(r.trips, vec![0]);
    assert_eq!(r.pois, vec![-1]);
}

#[test]
fn duplicate_timestamp_emits_empty_everywhere() {
    let pois = no_pois();
    let seed = rec(1, 0, 0, 0);
    let dup = rec(1, 0, 10_000, 10_000);

    let mut clean_coll = seeded(seed);
    clean_step(&mut clean_coll, &dup, &pois, &None, &vec![0]);
    assert_eq!(clean_coll.objects.len(), 1);
    assert_eq!(clean_coll.objects[0].timestamps.len(), 1);

    let res = resampled(&dup, &clean_coll, &pois, &None, &vec![], &vec![], &vec![]);
    assert_eq!(res.timestamps.len(), 0);

    let (comp, flush) = compressed(&dup, &clean_coll, &pois, &None, &vec![0], CompressionAlgo::Uniform);
    assert_eq!(comp.timestamps.len(), 0);
    assert_eq!(flush, None);
}

#[test]
fn outlier_speed_emits_empty_everywhere() {
    let pois = no_pois();
    let coll = seeded(rec(1, 0, 0, 0));
    // one nautical mile in one second: 3600 knots, far above the cutoff
    let out = rec(1, 1, 1_000_000, 1_000_000);
    let kin = Some(Kinematics { dist: 1_000_000, bearing: 45_000_000 });

    let r = cleaned(&out, &coll, &pois, &kin, &vec![0]);
    assert_eq!(r.timestamps.len(), 0);

    let res = resampled(&out, &coll, &pois, &kin, &vec![], &vec![], &vec![]);
    assert_eq!(res.timestamps.len(), 0);

    let (comp, flush) = compressed(&out, &coll, &pois, &kin, &vec![0], CompressionAlgo::Opw);
    assert_eq!(comp.timestamps.len(), 0);
    assert_eq!(flush, None);
}

#[test]
fn speed_cutoff_is_strict() {
    let pois = no_pois();
    let coll = seeded(rec(1, 0, 0, 0));
    // half a nautical mile in 36 seconds is exactly fifty knots: kept
    let at_limit = rec(1, 36, 8_000, 0);
    let kin = Some(Kinematics { dist: 500_000, bearing: 90_000_000 });
    let r = cleaned(&at_limit, &coll, &pois, &kin, &vec![9_000_000]);
    assert_eq!(r.speed, vec![50_000_000]);
    assert_eq!(r.stopped, vec![0]);
    // one micro-nautical-mile more crosses the cutoff: rejected
    let over = Some(Kinematics { dist: 500_001, bearing: 90_000_000 });
    let r = cleaned(&at_limit, &coll, &pois, &over, &vec![9_000_000]);
    assert_eq!(r.timestamps.len(), 0);
}

#[test]
fn resample_expands_to_three_grid_rows() {
    let pois = no_pois();
    let coll = seeded(rec(1, 0, 0, 0));
    // 0.01 nautical miles in 30 seconds: 1.2 knots, kept
    let nxt = rec(1, 30, 9_000, 9_000);
    let kin = Some(Kinematics { dist: 10_000, bearing: 45_000_000 });
    let coords = vec![
        Coordinate { x: 3_000, y: 3_000 },
        Coordinate { x: 6_000, y: 6_000 },
        Coordinate { x: 9_000, y: 9_000 },
    ];
    let poi_dists = vec![vec![9_000_000], vec![9_000_000], vec![9_000_000]];
    let flock_dists = vec![vec![9_000_000], vec![9_000_000], vec![9_000_000]];
    let r = resampled(&nxt, &coll, &pois, &kin, &coords, &poi_dists, &flock_dists);
    assert_eq!(r.timestamps, vec![10, 20, 30]);
    assert_eq!(r.speed, vec![1_200_000, 1_200_000, 1_200_000]);
    assert_eq!(r.stopped, vec![0, 0, 0]);
    assert_eq!(r.pois, vec![-1, -1, -1]);
    assert_eq!(r.coordinates[0], Coordinate { x: 3_000, y: 3_000 });
    assert_eq!(r.coordinates[2], Coordinate { x: 9_000, y: 9_000 });
}

#[test]
fn below_rate_record_emits_no_resample_rows() {
    let pois = no_pois();
    let mut coll = seeded(rec(1, 0, 0, 0));
    let nxt = rec(1, 9, 1_000, 1_000);
    let kin = Some(Kinematics { dist: 1_000, bearing: 0 });
    resample_step(&mut coll, &nxt, &pois, &kin, &vec![], &vec![], &vec![]);
    assert_eq!(coll.objects[0].timestamps.len(), 1);
}

#[test]
fn stop_then_move_bumps_trip() {
    let pois = no_pois();
    let mut coll = seeded(rec(1, 0, 0, 0));
    // a crawl: 1000 micro-nautical-miles in 10 s is 0.36 knots: stopped
    let slow = rec(1, 10, 100, 100);
    let kin_slow = Some(Kinematics { dist: 1_000, bearing: 10_000_000 });
    // the only point of interest is far away
    clean_step(&mut coll, &slow, &pois, &kin_slow, &vec![5_000_000]);
    assert_eq!(coll.objects[0].stopped, vec![-1, 1]);
    assert_eq!(coll.objects[0].trips, vec![0, 0]);
    assert_eq!(coll.objects[0].pois, vec![-1, -1]);
    // now a proper move: 10000 in 10 s is 3.6 knots
    let fast = rec(1, 20, 10_000, 10_000);
    let kin_fast = Some(Kinematics { dist: 10_000, bearing: 10_000_000 });
    clean_step(&mut coll, &fast, &pois, &kin_fast, &vec![5_000_000]);
    assert_eq!(coll.objects[0].stopped, vec![-1, 1, 0]);
    assert_eq!(coll.objects[0].trips, vec![0, 0, 1]);
    assert_eq!(coll.objects[0].pois, vec![-1, -1, -1]);
}

#[test]
fn stopped_row_inherits_poi_without_requerying() {
    let pois = Pois::new(vec![Coordinate { x: 0, y: 0 }, Coordinate { x: 100, y: 100 }]);
    let mut coll = seeded(rec(1, 0, 0, 0));
    let slow1 = rec(1, 10, 100, 100);
    let kin = Some(Kinematics { dist: 1_000, bearing: 0 });
    // the second point of interest is nearest and within one nautical mile
    clean_step(&mut coll, &slow1, &pois, &kin, &vec![900_000, 200_000]);
    assert_eq!(coll.objects[0].pois, vec![-1, 1]);
    // still stopped; the supplied distances now favour the first point,
    // but the row inherits instead of re-querying
    let slow2 = rec(1, 20, 200, 200);
    clean_step(&mut coll, &slow2, &pois, &kin, &vec![100_000, 900_000]);
    assert_eq!(coll.objects[0].pois, vec![-1, 1, 1]);
}

#[test]
fn nearest_respects_threshold_and_takes_last_tie() {
    let pois = Pois::new(vec![
        Coordinate { x: 0, y: 0 },
        Coordinate { x: 1, y: 1 },
        Coordinate { x: 2, y: 2 },
    ]);
    assert_eq!(pois.len(), 3);
    // all at or beyond the threshold, the boundary being exclusive
    assert_eq!(pois.nearest(&vec![1_000_000, 2_000_000, 3_000_000], 1_000_000), -1);
    // one micro-nautical-mile inside the threshold
    assert_eq!(pois.nearest(&vec![999_999, 2_000_000, 3_000_000], 1_000_000), 0);
    // a clear winner
    assert_eq!(pois.nearest(&vec![900_000, 200_000, 500_000], 1_000_000), 1);
    // on a tie the earlier index wins
    assert_eq!(pois.nearest(&vec![300_000, 300_000, 800_000], 1_000_000), 0);
}

#[test]
fn compression_algorithms_report_their_flush() {
    let pois = no_pois();
    let mut coll = seeded(rec(1, 0, 0, 0));
    // grow the buffer to four rows with gentle moves on a fixed heading
    for i in 1..4i32 {
        let r = rec(1, 10 * i, 100 * (i as i64), 0);
        let kin = Some(Kinematics { dist: 1_000, bearing: 90_000_000 });
        clean_step(&mut coll, &r, &pois, &kin, &vec![9_000_000]);
    }
    assert_eq!(coll.objects[0].timestamps.len(), 4);
    let nxt = rec(1, 40, 400, 0);
    let kin = Some(Kinematics { dist: 1_000, bearing: 90_000_000 });

    // four buffered rows: not a multiple of five
    let (_, flush) = compressed(&nxt, &coll, &pois, &kin, &vec![9_000_000], CompressionAlgo::Uniform);
    assert_eq!(flush, None);

    // the same speed and heading as the last row: no dead-reckoning flush
    let (_, flush) = compressed(&nxt, &coll, &pois, &kin, &vec![9_000_000], CompressionAlgo::DeadReckoning);
    assert_eq!(flush, None);

    // a heading a full degree off deviates far beyond the tolerance
    let turned = Some(Kinematics { dist: 1_000, bearing: 89_000_000 });
    let (_, flush) = compressed(&nxt, &coll, &pois, &turned, &vec![9_000_000], CompressionAlgo::DeadReckoning);
    assert_eq!(flush, Some(3));

    // every buffered point sits on the straight chord to the candidate
    let (_, flush) = compressed(&nxt, &coll, &pois, &kin, &vec![9_000_000], CompressionAlgo::Opw);
    assert_eq!(flush, None);
}

#[test]
fn uniform_flush_drops_prefix_through_collection() {
    let pois = no_pois();
    let mut coll = seeded(rec(1, 0, 0, 0));
    for i in 1..6i32 {
        let r = rec(1, 10 * i, 100 * (i as i64), 0);
        let kin = Some(Kinematics { dist: 1_000, bearing: 90_000_000 });
        let flush = compress_step(&mut coll, &r, &pois, &kin, &vec![9_000_000], CompressionAlgo::Uniform);
        // only the fifth record sees a buffer whose length is a multiple
        // of five, and flushes at its last index
        assert_eq!(flush, if i == 5 { Some(4) } else { None });
    }
    // at the fifth record the buffer held five rows: flush index four,
    // applied after the merge, leaves the flush boundary and the new row
    assert_eq!(coll.objects[0].timestamps, vec![40, 50]);
}

#[test]
fn flocks_includes_co_movers_and_skips_stopped() {
    let pois = no_pois();
    // three objects: 1 and 2 co-moving, 3 stopped
    let mut coll = seeded(rec(1, 0, 0, 0));
    clean_step(&mut coll, &rec(2, 0, 50_000, 0), &pois, &None, &vec![0]);
    clean_step(&mut coll, &rec(3, 0, 100_000, 0), &pois, &None, &vec![0]);
    let kin_move = Some(Kinematics { dist: 10_000, bearing: 90_000_000 });
    clean_step(&mut coll, &rec(1, 10, 10_000, 0), &pois, &kin_move, &vec![9_000_000]);
    clean_step(&mut coll, &rec(2, 10, 60_000, 0), &pois, &kin_move, &vec![9_000_000]);
    let kin_stop = Some(Kinematics { dist: 100, bearing: 90_000_000 });
    clean_step(&mut coll, &rec(3, 10, 100_100, 0), &pois, &kin_stop, &vec![9_000_000]);
    assert_eq!(coll.objects[2].stopped, vec![-1, 1]);

    // probe for object 1: everyone dead-reckons to within the distance
    let est = vec![100_000, 100_000, 100_000];
    let flock = coll.flocks(3_600_000, 90_000_000, 20, 1, &est);
    assert_eq!(flock, vec![2]);

    // probe for object 2 symmetrically
    let flock = coll.flocks(3_600_000, 90_000_000, 20, 2, &est);
    assert_eq!(flock, vec![1]);

    // a stationary probe flocks with nobody
    let flock = coll.flocks(400_000, 90_000_000, 20, 1, &est);
    assert_eq!(flock, Vec::<i32>::new());

    // a bearing more than twenty degrees away excludes everyone
    let flock = coll.flocks(3_600_000, 60_000_000, 20, 1, &est);
    assert_eq!(flock, Vec::<i32>::new());

    // a dead-reckoned distance at the threshold excludes
    let est_far = vec![300_000, 300_000, 300_000];
    let flock = coll.flocks(3_600_000, 90_000_000, 20, 1, &est_far);
    assert_eq!(flock, Vec::<i32>::new());

    // an object not heard from within half an hour is skipped
    let flock = coll.flocks(3_600_000, 90_000_000, 2000, 1, &est);
    assert_eq!(flock, Vec::<i32>::new());
}

#[test]
fn resample_rows_carry_flocks() {
    let pois = no_pois();
    // resample object 1 against a collection where object 2 is moving
    let kin = Some(Kinematics { dist: 10_000, bearing: 90_000_000 });
    let mut res_coll = seeded(rec(1, 0, 0, 0));
    clean_step(&mut res_coll, &rec(2, 0, 50_000, 0), &pois, &None, &vec![0]);
    let kin2 = Some(Kinematics { dist: 10_000, bearing: 90_000_000 });
    clean_step(&mut res_coll, &rec(2, 10, 60_000, 0), &pois, &kin2, &vec![9_000_000]);
    let nxt = rec(1, 10, 10_000, 0);
    let coords = vec![Coordinate { x: 10_000, y: 0 }];
    let r = resampled(&nxt, &res_coll, &pois, &kin, &coords, &vec![vec![9_000_000]], &vec![vec![100_000, 100_000]]);
    assert_eq!(r.timestamps, vec![10]);
    assert_eq!(r.flocks, vec![vec![2]]);
}

#[test]
fn prediction_window_needs_thirteen_points() {
    let pois = no_pois();
    let mut coll = seeded(rec(1, 0, 0, 0));
    for i in 1..12i32 {
        let r = rec(1, 10 * i, 100 * (i as i64), 0);
        let kin = Some(Kinematics { dist: 1_000, bearing: 90_000_000 });
        clean_step(&mut coll, &r, &pois, &kin, &vec![9_000_000]);
    }
    assert_eq!(coll.objects[0].timestamps.len(), 12);
    assert!(coll.prediction_window(1).is_none());
    assert!(coll.prediction_window(99).is_none());

    let r = rec(1, 120, 1_200, 0);
    let kin = Some(Kinematics { dist: 1_000, bearing: 90_000_000 });
    clean_step(&mut coll, &r, &pois, &kin, &vec![9_000_000]);
    let (coords, stamps) = coll.prediction_window(1).expect("thirteen points present");
    assert_eq!(coords.len(), 13);
    assert_eq!(stamps.len(), 13);
    assert_eq!(stamps[0], 0);
    assert_eq!(stamps[12], 120);
}
