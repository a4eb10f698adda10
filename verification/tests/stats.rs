use osmium::error::ApiError;
use osmium::handlers::stats::{
    identity_name, month_name, normalize_prefixes, normalize_rating_code, resolve_artcc_stats_query,
    resolve_events_page, resolve_history_year, stats_label, user_name, ControllerIdentityRow,
    artcc_stats_layout,
};

#[test]
fn normalize_rating_code_returns_short_codes() {
    assert_eq!(normalize_rating_code(Some("Student1")).as_deref(), Some("S1"));
    assert_eq!(normalize_rating_code(Some("Student3")).as_deref(), Some("S3"));
    assert_eq!(normalize_rating_code(Some("Supervisor")).as_deref(), Some("SUP"));
    assert_eq!(normalize_rating_code(Some("Instructor1")).as_deref(), Some("INS"));
    assert_eq!(normalize_rating_code(Some("C1")).as_deref(), Some("C1"));
    assert_eq!(normalize_rating_code(Some("")).as_deref(), None);
}

#[test]
fn user_name_prefers_joined_first_and_last_name() {
    assert_eq!(
        user_name(Some("Display Name"), Some("Jane"), Some("Controller"), 10000001),
        "Jane Controller"
    );
}

#[test]
fn user_name_uses_non_empty_single_name_part() {
    assert_eq!(
        user_name(Some("Display Name"), Some("Jane"), Some("   "), 10000001),
        "Jane"
    );
    assert_eq!(
        user_name(Some("Display Name"), Some("   "), Some("Controller"), 10000001),
        "Controller"
    );
}

#[test]
fn user_name_falls_back_to_display_name() {
    assert_eq!(
        user_name(Some("Display Name"), Some("   "), Some(""), 10000001),
        "Display Name"
    );
}

#[test]
fn user_name_falls_back_to_cid_when_identity_name_missing() {
    assert_eq!(user_name(Some("   "), Some(""), Some(""), 10000001), "10000001");
    assert_eq!(user_name(None, None, None, 10000001), "10000001");
}

#[test]
fn stats_labels_and_month_names() {
    assert_eq!(month_name(1), "January");
    assert_eq!(month_name(12), "December");
    assert_eq!(stats_label(true, Some(3), 2025), "All-Time Statistics");
    assert_eq!(stats_label(false, Some(3), 2025), "March, 2025 Statistics");
    assert_eq!(stats_label(false, None, 2025), "All Months, 2025 Statistics");
}

#[test]
fn prefix_lists_are_normalized() {
    let raw = vec![" dca ".to_string(), "IAD".to_string(), "dca".to_string()];
    let normalized = normalize_prefixes(&raw).expect("prefixes should normalize");
    assert_eq!(normalized, vec!["DCA".to_string(), "IAD".to_string()]);
}

#[test]
fn identity_name_uses_stored_names() {
    let row = ControllerIdentityRow {
        cid: 10000001,
        display_name: Some("Display Name".to_string()),
        first_name: None,
        last_name: None,
        rating: None,
    };
    assert_eq!(identity_name(&row), "Display Name");
}

#[test]
fn artcc_stats_query_defaults_and_limits() {
    let s = resolve_artcc_stats_query(None, None, None, None, None, 2026).unwrap();
    assert!(!s.all_time);
    assert_eq!(s.year, 2026);
    assert_eq!(s.month, None);
    assert_eq!(s.top, 3);
    assert_eq!(s.limit, 100);
    assert_eq!(s.query_limit, 100);
    let s = resolve_artcc_stats_query(None, Some(2025), Some(2), Some(90), Some(0), 2026).unwrap();
    assert_eq!(s.month_zero_based, Some(1));
    assert_eq!(s.top, 25);
    assert_eq!(s.limit, 1);
    assert_eq!(s.query_limit, 25);
    assert_eq!(
        resolve_artcc_stats_query(None, Some(1999), None, None, None, 2026),
        Err(ApiError::BadRequest)
    );
    assert_eq!(
        resolve_artcc_stats_query(None, None, Some(13), None, None, 2026),
        Err(ApiError::BadRequest)
    );
    let s = resolve_artcc_stats_query(Some(true), Some(1999), Some(13), None, None, 2026).unwrap();
    assert!(s.all_time);
    assert_eq!(s.month, None);
    assert_eq!(resolve_history_year(None, 2026), Ok(2026));
    assert_eq!(resolve_history_year(Some(2101), 2026), Err(ApiError::BadRequest));
    assert_eq!(resolve_events_page(None, Some(9999)), (0, 500));
}

#[test]
fn artcc_stats_answer_layout() {
    let s = resolve_artcc_stats_query(None, Some(2025), Some(2), Some(5), Some(2), 2026).unwrap();
    let layout = artcc_stats_layout(&s, 4);
    assert_eq!(layout.label, "February, 2025 Statistics");
    assert_eq!((layout.all_time, layout.month, layout.year), (false, Some(2), Some(2025)));
    assert_eq!(layout.controllers, 2);
    assert_eq!(layout.leaders.len(), 4);
    assert!(layout.leaders.iter().enumerate().all(|(i, l)| l.rank == i as i32 + 1 && l.row == i));
    let all = resolve_artcc_stats_query(Some(true), None, Some(13), None, None, 2026).unwrap();
    let layout = artcc_stats_layout(&all, 100);
    assert_eq!(layout.label, "All-Time Statistics");
    assert_eq!((layout.month, layout.year), (None, None));
    assert_eq!((layout.controllers, layout.leaders.len()), (100, 3));
    assert_eq!(artcc_stats_layout(&all, 0).leaders.len(), 0);
}
