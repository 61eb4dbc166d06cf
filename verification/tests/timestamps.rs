use solis_metrics::fallback::ZeroSuppressor;
use solis_metrics::soliscloud::{observe, observe_now};
use solis_metrics::timestamp::{resolve_timestamp, timestamp_candidate, Resolved, TOLERANCE_MS};
use solis_metrics::value::{RawDetail, Scalar};

fn detail_with(timestamp: Option<Scalar>) -> RawDetail {
    let mut detail = RawDetail::new();
    detail.insert("state".to_string(), Scalar::Number("1".to_string()));
    if let Some(value) = timestamp {
        detail.insert("dataTimestamp".to_string(), value);
    }
    detail
}

#[test]
fn a_timestamp_is_read_from_a_string_or_a_number() {
    let text = detail_with(Some(Scalar::Text("1696518000000".to_string())));
    assert_eq!(timestamp_candidate(&text), Some(1696518000000));
    let number = detail_with(Some(Scalar::Number("1696518000000".to_string())));
    assert_eq!(timestamp_candidate(&number), Some(1696518000000));
    let negative = detail_with(Some(Scalar::Number("-5".to_string())));
    assert_eq!(timestamp_candidate(&negative), Some(-5));
}

#[test]
fn a_timestamp_that_cannot_be_read_is_missing() {
    assert_eq!(timestamp_candidate(&detail_with(None)), None);
    for bad in ["", "soon", "1696518000000.0", "1.6e12", " 1", "99999999999999999999"] {
        assert_eq!(timestamp_candidate(&detail_with(Some(Scalar::Text(bad.to_string())))), None);
        assert_eq!(timestamp_candidate(&detail_with(Some(Scalar::Number(bad.to_string())))), None);
    }
    assert_eq!(timestamp_candidate(&detail_with(Some(Scalar::Bool(true)))), None);
    assert_eq!(timestamp_candidate(&detail_with(Some(Scalar::Other("null".to_string())))), None);
}

#[test]
fn a_timestamp_close_to_the_clock_is_kept() {
    let clock = 1696518000000;
    assert_eq!(TOLERANCE_MS, 600_000);
    for vendor in [clock, clock - 1, clock + 1, clock - 599_999, clock + 600_000, clock - 600_000] {
        let r = resolve_timestamp(Some(vendor), clock);
        assert_eq!(r, Resolved::Vendor { vendor });
        assert_eq!(r.millis(), vendor);
    }
}

#[test]
fn a_timestamp_far_from_the_clock_gives_way_to_the_clock() {
    let clock = 1696518000000;
    for vendor in [clock - 600_001, clock + 600_001, 0, i64::MIN, i64::MAX] {
        let r = resolve_timestamp(Some(vendor), clock);
        assert_eq!(r, Resolved::TooFar { vendor, clock });
        assert_eq!(r.millis(), clock);
    }
    assert_eq!(resolve_timestamp(Some(i64::MAX), i64::MIN).millis(), i64::MIN);
}

#[test]
fn a_missing_timestamp_gives_way_to_the_clock() {
    let r = resolve_timestamp(None, 42);
    assert_eq!(r, Resolved::Missing { clock: 42 });
    assert_eq!(r.millis(), 42);
}

#[test]
fn a_stale_timestamp_yields_the_wall_clock_time() {
    let before = chrono::Utc::now().timestamp_millis();
    let stale = before - 11 * 60 * 1000;
    let detail = detail_with(Some(Scalar::Text(stale.to_string())));
    let mut zeros = ZeroSuppressor::off();
    let readings = observe_now("42", &detail, &mut zeros).unwrap();
    let after = chrono::Utc::now().timestamp_millis();
    assert_eq!(readings.len(), 1);
    assert!(before <= readings[0].timestamp && readings[0].timestamp <= after);
    assert_ne!(readings[0].timestamp, stale);
}

#[test]
fn a_fresh_timestamp_is_the_time_of_the_readings() {
    let now = chrono::Utc::now().timestamp_millis();
    let fresh = now - 60 * 1000;
    let detail = detail_with(Some(Scalar::Number(fresh.to_string())));
    let mut zeros = ZeroSuppressor::off();
    let readings = observe_now("42", &detail, &mut zeros).unwrap();
    assert_eq!(readings.len(), 1);
    assert_eq!(readings[0].timestamp, fresh);
}

#[test]
fn the_timestamp_is_no_reading() {
    let clock = 1696518000000;
    let detail = detail_with(Some(Scalar::Text("1696517999000".to_string())));
    let mut zeros = ZeroSuppressor::off();
    let readings = observe("42", &detail, clock, &mut zeros).unwrap();
    let names: Vec<&str> = readings.iter().map(|r| r.name.name().as_str()).collect();
    assert_eq!(names, vec!["soliscloud_raw_state"]);
    assert_eq!(readings[0].timestamp, 1696517999000);
}
