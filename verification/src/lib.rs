//! Streaming trajectory-processing engine for moving-object telemetry.
//!
//! Records arrive one at a time as `(object id, timestamp, longitude,
//! latitude)` tuples and are routed through four per-object pipelines:
//! cleaning, resampling, compression and prediction, plus a collection-wide
//! flock detector.
//!
//! All quantities are carried in fixed-point integers so that every decision
//! the engine takes is exact and verified:
//!
//! - longitudes and latitudes in micro-degrees (`1_000_000` units per degree),
//! - speeds in micro-knots,
//! - bearings in micro-degrees,
//! - great-circle distances in micro-nautical-miles.
//!
//! The trigonometric primitives themselves (haversine distance, initial
//! bearing, dead-reckoning extrapolation, planar projection) cannot be
//! verified and live outside the library; their results enter the engine as
//! plain fixed-point values and everything the engine decides from them is
//! specified and proved here.

use vstd::prelude::*;

pub mod geo;
pub mod trajectory;
pub mod collection;
pub mod pois;
pub mod pipelines;

verus! {

/// Maximum plausible speed in micro-knots; faster records are outliers.
pub const MAX_SPEED: i64 = 50_000_000;

/// Resampling grid period in seconds.
pub const RATE: i32 = 10;

/// Below this speed (micro-knots) an object counts as stopped.
pub const STOP_SPEED_THR: i64 = 500_000;

/// A stopped object is annotated with a point of interest closer than this
/// distance in micro-nautical-miles.
pub const DISTANCE_TO_POI_THR: i64 = 1_000_000;

/// How many rows a trajectory keeps in memory.
pub const HISTORY_SIZE: usize = usize::MAX;

/// Two objects flock when their dead-reckoned positions are closer than this
/// distance in micro-nautical-miles.
pub const FLOCKS_DISTANCE_THRESHOLD: i64 = 300_000;

/// Flocking is only evaluated against objects heard from within this many
/// seconds.
pub const FLOCKS_MAX_DT_THRESHOLD: i64 = 1800;

/// Flocking requires bearings within this many micro-degrees.
pub const FLOCKS_MAX_BEARING_THRESHOLD: i64 = 20_000_000;

/// Open-window compression tolerance: squared perpendicular distance in
/// micro-degrees, for a tolerance of five ten-thousandths of a degree.
pub const OPW_EPSILON_SQ: i64 = 250_000;

/// Time-ratio open-window tolerance: squared synchronized Euclidean distance
/// in micro-degrees, for a tolerance of three ten-thousandths of a degree.
pub const OPW_TR_EPSILON_SQ: i64 = 90_000;

/// Uniform compression flushes every this many buffered rows.
pub const UNIFORM_S: usize = 5;

/// Dead-reckoning compression tolerance: one ten-thousandth of a knot or of a
/// degree, in micro-units.
pub const DEAD_REC_EPSILON: i64 = 100;

/// Sentinel speed (micro-knots) carried by a seed row: minus one knot.
pub const SPEED_SENTINEL: i64 = -1_000_000;

/// Sentinel bearing (micro-degrees) carried by a seed row: minus one degree.
pub const BEARING_SENTINEL: i64 = -1_000_000;

/// Upper bound, in micro-nautical-miles, on the great-circle distance between
/// two points on Earth (half the circumference is below 11,000 nautical
/// miles).
pub const MAX_GEO_DIST: i64 = 11_000_000_000;

/// The prediction model consumes a sliding window of this many points.
pub const PRED_WINDOW: usize = 13;

} // verus!
