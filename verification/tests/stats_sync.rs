use chrono::{TimeZone, Utc};
use osmium::error::ApiError;
use osmium::jobs::stats_sync::{
    build_controller_snapshot, clamped_seconds, feed_unchanged, map_position_type,
    monthly_rollup_rows, monthly_segments, parse_environment, plan_activations, plan_sessions,
    rollup_columns, session_key, source_updated_at, stats_sync_enabled_from,
    stats_sync_interval_from, summarize_feed, ActivePositionSnapshot, FeedController,
    FeedPosition, OpenActivation, OpenSession, PositionBucket, RollupKind, StatsEnvironment,
    session_record_from_snapshot, decide_poll, processed_poll_result, PollDecision,
};
use osmium::timestamp::UtcTimestamp;

fn at(y: i32, mo: u32, d: u32, h: u32, mi: u32, s: u32) -> UtcTimestamp {
    let t = Utc.with_ymd_and_hms(y, mo, d, h, mi, s).unwrap();
    UtcTimestamp::new(t.timestamp(), t.timestamp_subsec_nanos()).unwrap()
}

#[test]
fn maps_position_types() {
    assert!(matches!(map_position_type("Artcc"), PositionBucket::Center));
    assert!(matches!(map_position_type("Tracon"), PositionBucket::Tracon));
    assert!(matches!(
        map_position_type("ClearanceDelivery"),
        PositionBucket::Delivery
    ));
}

#[test]
fn splits_monthly_segments() {
    let start = at(2026, 1, 31, 23, 0, 0);
    let end = at(2026, 2, 1, 1, 0, 0);
    let segments = monthly_segments(start, end);

    assert_eq!(segments.len(), 2);
    assert_eq!(segments[0].month0, 0);
    assert_eq!(segments[0].seconds, 3600);
    assert_eq!(segments[1].month0, 1);
    assert_eq!(segments[1].seconds, 3600);
}

#[test]
fn monthly_segments_edge_cases() {
    let start = at(2025, 12, 31, 23, 30, 0);
    let end = at(2026, 1, 1, 0, 15, 0);
    let segments = monthly_segments(start, end);
    assert_eq!(segments.len(), 2);
    assert_eq!((segments[0].year, segments[0].month0, segments[0].seconds), (2025, 11, 1800));
    assert_eq!((segments[1].year, segments[1].month0, segments[1].seconds), (2026, 0, 900));
    assert!(monthly_segments(end, start).is_empty());
    assert!(monthly_segments(start, start).is_empty());
    let long = monthly_segments(at(2026, 1, 15, 0, 0, 0), at(2026, 3, 2, 0, 0, 0));
    assert_eq!(long.len(), 3);
    assert_eq!(long[1].seconds, 28 * 86400);
}

#[test]
fn environments_read_back() {
    for env in StatsEnvironment::all() {
        assert_eq!(parse_environment(Some(env.as_str())), Ok(env));
    }
    assert_eq!(parse_environment(None), Ok(StatsEnvironment::Live));
    assert_eq!(parse_environment(Some("  SweatBox2 ")), Ok(StatsEnvironment::Sweatbox2));
    assert_eq!(parse_environment(Some("sweatbox3")), Err(ApiError::BadRequest));
    assert_eq!(
        StatsEnvironment::Sweatbox1.endpoint_url(None),
        "https://sweatbox1.env.vnas.vatsim.net/data-feed/controllers.json"
    );
    assert_eq!(StatsEnvironment::Live.endpoint_url(Some("http://feed")), "http://feed");
}

#[test]
fn worker_settings() {
    assert!(stats_sync_enabled_from(None));
    assert!(stats_sync_enabled_from(Some(" On ")));
    assert!(!stats_sync_enabled_from(Some("0")));
    assert_eq!(stats_sync_interval_from(None), 5);
    assert_eq!(stats_sync_interval_from(Some("2")), 5);
    assert_eq!(stats_sync_interval_from(Some("30")), 30);
    assert_eq!(stats_sync_interval_from(Some("x")), 5);
}

#[test]
fn session_keys_and_rollups() {
    assert_eq!(session_key(1234567, "2026-01-01T00:00:00Z"), "1234567:2026-01-01T00:00:00Z");
    assert_eq!(session_key(-3, "x"), "-3:x");
    let c = rollup_columns(&RollupKind::Position("Ground"), 60);
    assert_eq!((c.online_seconds, c.ground_seconds, c.tower_seconds), (0, 60, 0));
    let c = rollup_columns(&RollupKind::Online, 60);
    assert_eq!(c.online_seconds, 60);
    let rows = monthly_rollup_rows(at(2026, 1, 31, 23, 0, 0), at(2026, 2, 1, 1, 0, 0), &RollupKind::Position("Tower"));
    assert_eq!(rows.len(), 2);
    assert_eq!(rows[0].columns.tower_seconds, 3600);
    let none = monthly_rollup_rows(at(2026, 1, 31, 23, 0, 0), at(2026, 2, 1, 1, 0, 0), &RollupKind::Position("Observer"));
    assert!(none.is_empty());
}

fn position(id: &str, active: bool) -> FeedPosition {
    FeedPosition {
        facility_id: None,
        facility_name: "Potomac".to_string(),
        position_id: id.to_string(),
        position_name: format!("Position {id}"),
        position_type: "Tracon".to_string(),
        radio_name: None,
        default_callsign: None,
        frequency: Some(126_550_000),
        is_primary: true,
        is_active: active,
    }
}

fn controller(cid: &str, artcc: &str, observer: bool, active: bool, login: &str) -> FeedController {
    FeedController {
        artcc_id: artcc.to_string(),
        primary_facility_id: None,
        primary_position_id: None,
        role: Some("Controller".to_string()),
        positions: vec![position("P1", true), position("P2", false)],
        is_active: active,
        is_observer: observer,
        login_time: login.to_string(),
        cid: cid.to_string(),
        real_name: None,
        user_rating: None,
        requested_rating: None,
    }
}

fn open_session(id: &str, cid: i64, raw: &str) -> OpenSession {
    OpenSession {
        id: id.to_string(),
        cid,
        user_id: None,
        artcc_id: "ZDC".to_string(),
        real_name: None,
        role: None,
        user_rating: None,
        requested_rating: None,
        primary_facility_id: None,
        primary_position_id: None,
        login_at: at(2026, 1, 1, 0, 0, 0),
        source_login_time_raw: raw.to_string(),
    }
}

#[test]
fn feed_summary_and_session_plan() {
    let login = "2026-01-01T00:00:00Z";
    let feed = vec![
        controller("900", "ZDC", false, true, login),
        controller("1000", "ZDC", false, false, login),
        controller("abc", "ZDC", false, true, login),
        controller("5", "ZNY", false, true, login),
        controller("7", "ZDC", true, true, login),
    ];
    let summary = summarize_feed(&feed);
    assert_eq!(summary.snapshot_count, 5);
    assert_eq!(summary.watched, vec![0, 1, 2]);
    assert_eq!(summary.online, 2);
    assert_eq!(summary.cids, vec![900, 1000]);

    let poll = at(2026, 1, 1, 1, 0, 0);
    let users = vec![(900, "user-900".to_string())];
    let open = vec![open_session("s-old", 1000, login), open_session("s-gone", 42, login)];
    let plan = plan_sessions(&feed, &summary.watched, &users, &open, poll);
    // "1000" sorts before "900", which sorts before "abc"
    assert_eq!(plan.order, vec![1, 0, 2]);
    assert_eq!(plan.processed, vec![1, 0]);
    assert_eq!(plan.existing_sessions, vec![Some(0), None]);
    assert_eq!(plan.stale_sessions, vec![1]);
    assert_eq!(plan.snapshots[1].user_id.as_deref(), Some("user-900"));
    assert_eq!(plan.snapshots[0].user_id, None);
    assert_eq!(plan.snapshots[1].positions.len(), 1);
    assert_eq!(plan.snapshots[0].positions.len(), 0);
    assert_eq!(plan.snapshots[1].login_at, at(2026, 1, 1, 0, 0, 0));
}

#[test]
fn snapshot_falls_back_to_poll_time() {
    let poll = at(2026, 3, 1, 12, 0, 0);
    let c = controller("900", "ZDC", false, true, "yesterday");
    let s = build_controller_snapshot(&c, 900, None, poll);
    assert_eq!(s.login_at, poll);
    assert_eq!(s.login_time_raw, "yesterday");
    let record = session_record_from_snapshot("sess-1".to_string(), StatsEnvironment::Sweatbox1, &s);
    assert_eq!(record.id, "sess-1");
    assert_eq!(record.environment, "sweatbox1");
    assert_eq!(record.cid, 900);
    assert_eq!(record.artcc_id, s.artcc_id);
    assert_eq!(record.real_name, s.real_name);
    assert_eq!(source_updated_at("garbage", poll), poll);
    assert_eq!(source_updated_at("2026-03-01T11:00:00Z", poll), at(2026, 3, 1, 11, 0, 0));
    assert!(feed_unchanged(Some(poll), poll));
    assert!(!feed_unchanged(None, poll));
    assert_eq!(clamped_seconds(&poll, &at(2026, 3, 1, 12, 1, 0)), 60);
    assert_eq!(clamped_seconds(&poll, &at(2026, 3, 1, 11, 0, 0)), 0);
}

fn open_activation(id: &str, position_id: &str) -> OpenActivation {
    OpenActivation {
        id: id.to_string(),
        environment: "live".to_string(),
        cid: 1,
        position_id: position_id.to_string(),
        facility_id: None,
        facility_name: "F".to_string(),
        position_name: "P".to_string(),
        position_type: "Tower".to_string(),
        radio_name: None,
        default_callsign: None,
        frequency: None,
        is_primary: false,
        started_at: at(2026, 1, 1, 0, 0, 0),
    }
}

fn held(position_id: &str) -> ActivePositionSnapshot {
    ActivePositionSnapshot {
        position_id: position_id.to_string(),
        facility_id: None,
        facility_name: "F".to_string(),
        position_name: "P".to_string(),
        position_type: "Tower".to_string(),
        radio_name: None,
        default_callsign: None,
        frequency: None,
        is_primary: false,
    }
}

#[test]
fn activation_plan_matches_by_position() {
    let open = vec![open_activation("a1", "P1"), open_activation("a2", "P2"), open_activation("a3", "P1")];
    let positions = vec![held("P1"), held("P3"), held("P1")];
    let plan = plan_activations(&positions, &open);
    assert_eq!(plan.existing, vec![Some(2), None, None]);
    assert_eq!(plan.closing, vec![1]);
}

#[test]
fn unchanged_feed_is_skipped() {
    let feed = vec![
        controller("900", "ZDC", false, true, "2026-01-01T00:00:00Z"),
        controller("abc", "ZDC", false, false, "2026-01-01T00:00:00Z"),
        controller("901", "ZDC", true, true, "2026-01-01T00:00:00Z"),
        controller("902", "ZNY", false, true, "2026-01-01T00:00:00Z"),
    ];
    let summary = summarize_feed(&feed);
    let source = at(2026, 1, 1, 1, 0, 0);
    match decide_poll(StatsEnvironment::Live, Some(source), source, &summary) {
        PollDecision::Skip(r) => {
            assert!(r.ok);
            assert_eq!((r.processed, r.online), (2, 1));
            assert_eq!(r.source_updated_at, Some(source));
        },
        PollDecision::Process => panic!("an unchanged feed is skipped"),
    }
    assert!(matches!(decide_poll(StatsEnvironment::Live, None, source, &summary), PollDecision::Process));
    assert!(matches!(
        decide_poll(StatsEnvironment::Live, Some(at(2026, 1, 1, 0, 59, 0)), source, &summary),
        PollDecision::Process
    ));
    let done = processed_poll_result(StatsEnvironment::Sweatbox2, source, &summary);
    assert!(done.ok);
    assert_eq!((done.processed, done.online), (1, 1));
}
