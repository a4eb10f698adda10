use chrono::{TimeZone, Utc};
use osmium::error::ApiError;
use osmium::handlers::events::{validate_event_update_window, validate_event_window};
use osmium::timestamp::UtcTimestamp;

fn at(y: i32, mo: u32, d: u32, h: u32, mi: u32, s: u32) -> UtcTimestamp {
    let t = Utc.with_ymd_and_hms(y, mo, d, h, mi, s).unwrap();
    UtcTimestamp::new(t.timestamp(), t.timestamp_subsec_nanos()).unwrap()
}

#[test]
fn validate_event_window_accepts_equal_or_forward_ranges() {
    let starts_at = at(2026, 5, 7, 3, 0, 0);
    let ends_at = at(2026, 5, 7, 5, 0, 0);

    assert!(validate_event_window(starts_at, starts_at).is_ok());
    assert!(validate_event_window(starts_at, ends_at).is_ok());
}

#[test]
fn validate_event_window_rejects_reversed_ranges() {
    let starts_at = at(2026, 5, 7, 3, 0, 0);
    let ends_at = at(2026, 5, 6, 23, 0, 0);

    assert!(matches!(
        validate_event_window(starts_at, ends_at),
        Err(ApiError::BadRequest)
    ));
}

#[test]
fn event_update_window_merges_stored_times() {
    let t = |s: i64| osmium::timestamp::UtcTimestamp::new(s, 0).unwrap();
    assert!(validate_event_update_window(None, None, t(10), t(20)).is_ok());
    assert!(validate_event_update_window(Some(t(30)), None, t(10), t(20)).is_err());
    assert!(validate_event_update_window(None, Some(t(5)), t(10), t(20)).is_err());
    assert!(validate_event_update_window(Some(t(1)), Some(t(5)), t(10), t(20)).is_ok());
}
