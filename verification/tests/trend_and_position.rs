use rust_iss::errors::{AppError, HttpStatus};
use rust_iss::json::Real;
use rust_iss::models::{health_check, IssPosition, PositionSample, ToSuccessResponse};
use rust_iss::position::{after_store_read, calculate_iss_position, get_iss_position, position_from_document, position_from_store, NextStep, StoreRead};
use rust_iss::sample_cache::SampleCache;
use rust_iss::time::Timestamp;
use rust_iss::trend::{calculate_trend, is_movement, trend_endpoints};

fn encode(x: f64) -> Real {
    Real { bits: x.to_bits() }
}

fn decode(r: Real) -> f64 {
    f64::from_bits(r.bits)
}

fn ts(secs: i64) -> Timestamp {
    Timestamp::new(secs, 0).unwrap()
}

fn haversine_km(lat1: f64, lon1: f64, lat2: f64, lon2: f64) -> f64 {
    let r = 6371.0;
    let dlat = (lat2 - lat1).to_radians();
    let dlon = (lon2 - lon1).to_radians();
    let a = (dlat / 2.0).sin().powi(2) + lat1.to_radians().cos() * lat2.to_radians().cos() * (dlon / 2.0).sin().powi(2);
    2.0 * r * a.sqrt().asin()
}

fn reading(v: &serde_json::Value) -> Option<Real> {
    if let Some(x) = v.as_f64() {
        return Some(encode(x));
    }
    v.as_str().and_then(|s| s.parse::<f64>().ok()).map(encode)
}

fn sample(at: i64, lat: Option<f64>, lon: Option<f64>, velocity: Option<f64>) -> PositionSample {
    PositionSample { fetched_at: ts(at), latitude: lat.map(encode), longitude: lon.map(encode), velocity: velocity.map(encode) }
}

#[test]
fn movement_threshold_is_a_tenth() {
    for d in [0.0, -0.0, 0.05, 0.1, 0.10000000000000002, 0.2, 1.0, 111.2, 1e300, f64::INFINITY, f64::NEG_INFINITY, -5.0, f64::NAN, -f64::NAN, f64::MIN_POSITIVE, 5e-324] {
        assert_eq!(is_movement(encode(d)), d > 0.1, "for {}", d);
    }
}

#[test]
fn trend_on_no_sample_is_empty() {
    let t = calculate_trend(&vec![], None);
    assert!(!t.movement);
    assert_eq!(decode(t.delta_km), 0.0);
    assert_eq!(t.dt_ms, 0);
    assert_eq!(t.velocity_kmh, None);
    assert_eq!((t.from_time, t.to_time), (None, None));
    assert_eq!((t.from_lat, t.from_lon, t.to_lat, t.to_lon), (None, None, None, None));
    assert_eq!(t.status, "ok");
    assert_eq!(t.message, "calculated successfully");
}

#[test]
fn trend_on_one_sample_is_empty() {
    let t = calculate_trend(&vec![sample(10, Some(1.0), Some(2.0), Some(3.0))], Some(encode(500.0)));
    assert!(!t.movement);
    assert_eq!(decode(t.delta_km), 0.0);
    assert_eq!(t.dt_ms, 0);
    assert_eq!(t.velocity_kmh, None);
    assert_eq!((t.from_time, t.to_time), (None, None));
    assert_eq!((t.from_lat, t.from_lon, t.to_lat, t.to_lon), (None, None, None, None));
    assert_eq!(t.status, "ok");
}

#[test]
fn trend_over_one_degree_of_longitude() {
    let mut cache = SampleCache::new();
    cache.write("position", serde_json::from_str("{\"latitude\": 0, \"longitude\": 0}").unwrap(), ts(0));
    cache.write("position", serde_json::from_str("{\"latitude\": 0, \"longitude\": \"1\", \"velocity\": 27600.5}").unwrap(), ts(3600));
    let samples: Vec<PositionSample> = cache
        .recent("position", 2)
        .iter()
        .map(|s| PositionSample {
            fetched_at: s.fetched_at,
            latitude: reading(&s.payload["latitude"]),
            longitude: reading(&s.payload["longitude"]),
            velocity: reading(&s.payload["velocity"]),
        })
        .collect();
    let (a1, o1, a2, o2) = trend_endpoints(&samples).unwrap();
    assert_eq!((decode(a1), decode(o1), decode(a2), decode(o2)), (0.0, 0.0, 0.0, 1.0));
    let distance = haversine_km(decode(a1), decode(o1), decode(a2), decode(o2));
    let t = calculate_trend(&samples, Some(encode(distance)));
    assert_eq!(t.dt_ms, 3_600_000);
    assert_eq!(t.dt_ms as f64 / 1000.0, 3600.0);
    assert!((decode(t.delta_km) - 111.2).abs() < 0.1);
    assert_eq!(decode(t.delta_km), distance);
    assert!(t.movement);
    assert_eq!(t.velocity_kmh.map(decode), Some(27600.5));
    assert_eq!(t.from_time, Some(ts(0)));
    assert_eq!(t.to_time, Some(ts(3600)));
    assert_eq!(t.to_lon.map(decode), Some(1.0));
    assert_eq!(t.status, "ok");
}

#[test]
fn trend_within_the_noise_is_no_movement() {
    let samples = vec![sample(120, Some(10.0), Some(20.0), None), sample(0, Some(10.0), Some(20.0005), Some(9.0))];
    let distance = haversine_km(10.0, 20.0005, 10.0, 20.0);
    assert!(distance < 0.1);
    let t = calculate_trend(&samples, Some(encode(distance)));
    assert!(!t.movement);
    assert_eq!(decode(t.delta_km), distance);
    assert_eq!(t.dt_ms, 120_000);
    assert_eq!(t.velocity_kmh, None);
}

#[test]
fn trend_without_all_four_readings_has_no_distance() {
    let samples = vec![sample(60, Some(10.0), None, Some(5.0)), sample(0, Some(11.0), Some(20.0), None)];
    assert_eq!(trend_endpoints(&samples), None);
    let t = calculate_trend(&samples, Some(encode(400.0)));
    assert!(!t.movement);
    assert_eq!(decode(t.delta_km), 0.0);
    assert_eq!(t.dt_ms, 60_000);
    assert_eq!(t.from_lat.map(decode), Some(11.0));
    assert_eq!(t.to_lon, None);
    assert_eq!(t.velocity_kmh.map(decode), Some(5.0));
}

#[test]
fn trend_without_a_measurement_has_no_distance() {
    let samples = vec![sample(60, Some(1.0), Some(2.0), None), sample(0, Some(3.0), Some(4.0), None)];
    let t = calculate_trend(&samples, None);
    assert!(!t.movement);
    assert_eq!(decode(t.delta_km), 0.0);
}

#[test]
fn trend_reads_only_the_two_newest() {
    let samples = vec![sample(30, Some(0.0), Some(2.0), None), sample(20, Some(0.0), Some(1.0), None), sample(10, Some(50.0), Some(50.0), None)];
    let t = calculate_trend(&samples, Some(encode(111.0)));
    assert_eq!(t.dt_ms, 10_000);
    assert_eq!(t.from_time, Some(ts(20)));
    assert_eq!(t.from_lon.map(decode), Some(1.0));
}

fn position(timestamp: i64, lat: f64, lon: f64) -> IssPosition {
    IssPosition { timestamp, latitude: encode(lat), longitude: encode(lon) }
}

#[test]
fn position_from_document_reads_the_three_members() {
    let d = serde_json::from_str("{\"timestamp\": 1000, \"latitude\": 10.5, \"longitude\": -20, \"extra\": true}").unwrap();
    assert_eq!(position_from_document(&d), Some(position(1000, 10.5, -20.0)));
}

#[test]
fn position_from_document_rejects_what_is_malformed() {
    for text in ["{}", "{\"timestamp\": 1.5, \"latitude\": 1, \"longitude\": 2}", "{\"timestamp\": 1, \"latitude\": \"1\", \"longitude\": 2}", "{\"timestamp\": 1, \"latitude\": 1}", "[1, 2, 3]", "null", "{\"timestamp\": 18446744073709551615, \"latitude\": 1, \"longitude\": 2}"] {
        let d: serde_json::Value = serde_json::from_str(text).unwrap();
        assert_eq!(position_from_document(&d), None, "for {}", text);
    }
}

#[test]
fn store_value_wins_when_well_formed() {
    let read = StoreRead::Value(String::from("{\"timestamp\": 5, \"latitude\": 1.0, \"longitude\": 2.0}"));
    assert_eq!(position_from_store(&read), Some(position(5, 1.0, 2.0)));
    assert_eq!(after_store_read(&read), NextStep::Return(position(5, 1.0, 2.0)));
    let upstream = Ok(position(9, 9.0, 9.0));
    assert_eq!(get_iss_position(&read, upstream).unwrap(), position(5, 1.0, 2.0));
    let failing = Err(AppError::ClientError(String::from("down"), HttpStatus::bad_gateway()));
    assert_eq!(get_iss_position(&read, failing).unwrap(), position(5, 1.0, 2.0));
}

#[test]
fn empty_store_value_falls_back_to_upstream() {
    let read = StoreRead::Value(String::new());
    assert_eq!(after_store_read(&read), NextStep::FetchUpstream);
    let got = get_iss_position(&read, Ok(position(1000, 10.0, 20.0))).unwrap();
    assert_eq!(got.timestamp, 1000);
    assert_eq!(decode(got.latitude), 10.0);
    assert_eq!(decode(got.longitude), 20.0);
}

#[test]
fn every_store_failure_falls_back_to_upstream() {
    let reads = [
        StoreRead::Value(String::from("  \t\n")),
        StoreRead::Value(String::from("not json")),
        StoreRead::Value(String::from("{\"timestamp\": 5}")),
        StoreRead::Value(String::from("[5, 1.0, 2.0]")),
        StoreRead::Absent(String::from("response was nil")),
        StoreRead::Unreachable(String::from("connection refused")),
    ];
    for read in reads.iter() {
        assert_eq!(position_from_store(read), None);
        assert_eq!(after_store_read(read), NextStep::FetchUpstream);
        assert_eq!(get_iss_position(read, Ok(position(7, 3.0, 4.0))).unwrap(), position(7, 3.0, 4.0));
    }
}

#[test]
fn error_only_when_both_sources_fail() {
    let read = StoreRead::Absent(String::from("nil"));
    match get_iss_position(&read, Err(AppError::ClientError(String::from("timeout"), HttpStatus::bad_gateway()))) {
        Err(AppError::ClientError(m, s)) => assert_eq!((m.as_str(), s.code()), ("timeout", 502)),
        other => panic!("unexpected: {:?}", other),
    }
}

#[test]
fn telemetry_errors_name_their_cause() {
    match calculate_iss_position(&StoreRead::Unreachable(String::from("refused"))) {
        Err(AppError::ExternalServiceError(m)) => assert_eq!(m, "Redis connection failed: refused"),
        other => panic!("unexpected: {:?}", other),
    }
    match calculate_iss_position(&StoreRead::Absent(String::from("nil"))) {
        Err(AppError::NotFound(m)) => assert_eq!(m, "Latest telemetry data not available in cache: nil"),
        other => panic!("unexpected: {:?}", other),
    }
    match calculate_iss_position(&StoreRead::Value(String::from("   "))) {
        Err(AppError::NotFound(m)) => assert_eq!(m, "Empty telemetry data in cache."),
        other => panic!("unexpected: {:?}", other),
    }
    match calculate_iss_position(&StoreRead::Value(String::from("{"))) {
        Err(AppError::InternalError(m)) => {
            let cause = serde_json::from_str::<serde_json::Value>("{").unwrap_err().to_string();
            assert_eq!(m, format!("Failed to parse JSON from Redis: {}", cause));
        }
        other => panic!("unexpected: {:?}", other),
    }
    let expected: serde_json::Value = serde_json::from_str("{\"a\": [1, 2]}").unwrap();
    assert_eq!(calculate_iss_position(&StoreRead::Value(String::from(" {\"a\": [1, 2]} "))).unwrap(), expected);
}

#[test]
fn success_envelope_wraps_the_value() {
    let r = position(1, 2.0, 3.0).to_success_response();
    assert!(r.ok);
    assert_eq!(r.data, position(1, 2.0, 3.0));
    let h = health_check(ts(42)).to_success_response();
    assert!(h.ok);
    assert_eq!(h.data.status, "ok");
    assert_eq!(h.data.now, ts(42));
}
