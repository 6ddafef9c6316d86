//! The movement trend over the two most recent position samples.
//!
//! The library decides which two positions are to be measured and what the
//! measurement means. The great-circle distance itself is floating-point
//! work and is done by the caller.
use vstd::prelude::*;

use crate::json::Real;
use crate::models::{PositionSample, Trend};

verus! {

/// The encoding of 0.1, the noise threshold in kilometres.
pub const NOISE_THRESHOLD_BITS: u64 = 0x3FB9_9999_9999_999A;

/// The encoding of positive infinity. Every greater encoding without the sign
/// bit is no number; every encoding with the sign bit is negative or no
/// number.
pub const INFINITY_BITS: u64 = 0x7FF0_0000_0000_0000;

/// The number zero.
pub open spec fn zero() -> Real {
    Real { bits: 0 }
}

/// Whether a distance is greater than the noise threshold. Among encodings
/// without the sign bit, numbers are ordered as their encodings are; what is
/// no number exceeds nothing.
pub open spec fn exceeds_threshold(distance: Real) -> bool {
    NOISE_THRESHOLD_BITS < distance.bits <= INFINITY_BITS
}

/// The two positions to measure between, the older one first: latitude and
/// longitude of the second sample, then of the first. There are none unless
/// two samples are given and all four readings are present.
pub open spec fn endpoints_of(samples: Seq<PositionSample>) -> Option<(Real, Real, Real, Real)> {
    if samples.len() < 2 {
        None
    } else {
        match (
            samples[1].latitude,
            samples[1].longitude,
            samples[0].latitude,
            samples[0].longitude,
        ) {
            (Some(a1), Some(o1), Some(a2), Some(o2)) => Some((a1, o1, a2, o2)),
            _ => None,
        }
    }
}

/// The distance that counts: the measured one where there are two positions
/// to measure between and a measurement is given, else zero.
pub open spec fn distance_of(samples: Seq<PositionSample>, measured: Option<Real>) -> Real {
    if endpoints_of(samples) is Some && measured is Some {
        measured.unwrap()
    } else {
        zero()
    }
}

/// Whether a trend is the answer on fewer than two samples: no movement, all
/// deltas zero, every optional field absent.
pub open spec fn is_empty_trend(t: Trend) -> bool {
    &&& !t.movement
    &&& t.delta_km == zero()
    &&& t.dt_ms == 0
    &&& t.velocity_kmh is None
    &&& t.from_time is None
    &&& t.to_time is None
    &&& t.from_lat is None
    &&& t.from_lon is None
    &&& t.to_lat is None
    &&& t.to_lon is None
}

/// Whether a trend is what two samples and a measurement give.
pub open spec fn is_trend_of(t: Trend, samples: Seq<PositionSample>, measured: Option<Real>) -> bool
    recommends
        samples.len() >= 2,
{
    &&& t.movement == exceeds_threshold(distance_of(samples, measured))
    &&& t.delta_km == distance_of(samples, measured)
    &&& t.dt_ms == samples[1].fetched_at.millis_until_spec(samples[0].fetched_at)
    &&& t.velocity_kmh == samples[0].velocity
    &&& t.from_time == Some(samples[1].fetched_at)
    &&& t.to_time == Some(samples[0].fetched_at)
    &&& t.from_lat == samples[1].latitude
    &&& t.from_lon == samples[1].longitude
    &&& t.to_lat == samples[0].latitude
    &&& t.to_lon == samples[0].longitude
}

/// Whether a distance is greater than the noise threshold.
pub fn is_movement(distance: Real) -> (r: bool)
    ensures
        r == exceeds_threshold(distance),
{
    NOISE_THRESHOLD_BITS < distance.bits && distance.bits <= INFINITY_BITS
}

/// The two positions to measure between, the older one first, given the
/// samples newest first.
pub fn trend_endpoints(samples: &Vec<PositionSample>) -> (r: Option<(Real, Real, Real, Real)>)
    ensures
        r == endpoints_of(samples@),
{
    if samples.len() < 2 {
        return None;
    }
    match (
        samples[1].latitude,
        samples[1].longitude,
        samples[0].latitude,
        samples[0].longitude,
    ) {
        (Some(a1), Some(o1), Some(a2), Some(o2)) => Some((a1, o1, a2, o2)),
        _ => None,
    }
}

/// The trend over the most recent position samples, given newest first.
/// `measured` is the great-circle distance in kilometres between the two
/// positions that `trend_endpoints` names; it is read only where there are
/// such positions.
///
/// Fewer than two samples give the empty answer. Otherwise the trend spans
/// the first two: it reports the distance, the elapsed time, both sets of
/// readings, the newer sample's velocity, and movement exactly where the
/// distance exceeds the noise threshold.
pub fn calculate_trend(samples: &Vec<PositionSample>, measured: Option<Real>) -> (r: Trend)
    ensures
        r.status@ == "ok"@,
        r.message@ == "calculated successfully"@,
        samples@.len() < 2 ==> is_empty_trend(r),
        samples@.len() >= 2 ==> is_trend_of(r, samples@, measured),
{
    if samples.len() < 2 {
        return Trend {
            movement: false,
            delta_km: Real { bits: 0 },
            dt_ms: 0,
            velocity_kmh: None,
            from_time: None,
            to_time: None,
            from_lat: None,
            from_lon: None,
            to_lat: None,
            to_lon: None,
            status: "ok".to_string(),
            message: "calculated successfully".to_string(),
        };
    }
    let newer = samples[0];
    let older = samples[1];
    let delta_km = match (trend_endpoints(samples), measured) {
        (Some(_), Some(d)) => d,
        _ => Real { bits: 0 },
    };
    Trend {
        movement: is_movement(delta_km),
        delta_km,
        dt_ms: older.fetched_at.millis_until(&newer.fetched_at),
        velocity_kmh: newer.velocity,
        from_time: Some(older.fetched_at),
        to_time: Some(newer.fetched_at),
        from_lat: older.latitude,
        from_lon: older.longitude,
        to_lat: newer.latitude,
        to_lon: newer.longitude,
        status: "ok".to_string(),
        message: "calculated successfully".to_string(),
    }
}

} // verus!
