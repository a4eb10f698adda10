use osmium::error::ApiError;
use osmium::handlers::api_keys::{can_manage_api_key, PermissionAction, PermissionPath};
use osmium::handlers::auth::{default_login_permissions, header_value, request_origin, validate_oauth_login_origin};
use osmium::handlers::event_ops::check_tmi_type;
use osmium::handlers::files::{
    client_ip, ensure_can_mutate_file, ensure_can_upload, file_list_page, header_text,
    normalize_content_type, parse_range_header, sign_download_token,
};
use osmium::handlers::integrations::check_link_request;
use osmium::handlers::org::{generate_mission_number, loa_email_template, validate_sua_request, CreateSuaRequest};
use osmium::handlers::files::token_is_valid;
use osmium::handlers::incidents::validate_incident_report;
use osmium::handlers::training_admin::check_name;
use osmium::jobs::stats_sync::{
    build_position_event, build_session_event, new_activation, session_record_from_open,
    ControllerLifecycleEvent, OpenSession, SessionRecord, ActivePositionSnapshot, StatsEnvironment,
};
use osmium::timestamp::UtcTimestamp;

fn headers(pairs: &[(&'static str, &str)]) -> http::HeaderMap {
    let mut map = http::HeaderMap::new();
    for (name, value) in pairs {
        map.insert(*name, http::HeaderValue::from_str(value).unwrap());
    }
    map
}

#[test]
fn header_lookups() {
    let map = headers(&[("x-forwarded-for", "1.2.3.4, 5.6.7.8"), ("host", " osmium.test ")]);
    assert_eq!(header_text(&map, "host"), Some(" osmium.test "));
    assert_eq!(header_text(&map, "origin"), None);
    assert_eq!(header_value(&map, "host").as_deref(), Some("osmium.test"));
    assert_eq!(client_ip(&map), "1.2.3.4");
    assert_eq!(request_origin(&map).as_deref(), Some("http://osmium.test"));
    assert_eq!(validate_oauth_login_origin(&map, "http://osmium.test/callback"), Ok(()));
    assert_eq!(
        validate_oauth_login_origin(&map, "https://osmium.test/callback"),
        Err(ApiError::OAuthLoginOriginMismatch)
    );
    let range = http::HeaderValue::from_static("bytes=2-3");
    assert_eq!(parse_range_header(Some(&range), 10), Ok(Some((2, 3))));
    assert_eq!(parse_range_header(None, 10), Ok(None));
    let ct = http::HeaderValue::from_static("image/png");
    assert_eq!(normalize_content_type(Some(&ct)), Ok("image/png".to_string()));
    assert_eq!(normalize_content_type(None), Ok("application/octet-stream".to_string()));
}

#[test]
fn hmac_signature_matches_reference_value() {
    assert_eq!(
        sign_download_token(Some("secret"), "file-1", 2000).unwrap(),
        "54eaac00d790c545260ba943c2d7212011b2b41ab8c37b133c68df25e01f3c0f"
    );
    assert_eq!(sign_download_token(Some("  "), "file-1", 2000), Err(ApiError::ServiceUnavailable));
}

#[test]
fn access_decisions() {
    assert_eq!(ensure_can_upload(false, false), Err(ApiError::Unauthorized));
    assert_eq!(ensure_can_upload(false, true), Ok(()));
    assert_eq!(file_list_page(Some(500), None), (200, 0));
    let perms = vec![PermissionPath { segments: vec!["api_keys".to_string()], action: PermissionAction::Update }];
    assert_eq!(can_manage_api_key(Some("u1"), "u1", &[], PermissionAction::Delete), Ok(()));
    assert_eq!(can_manage_api_key(Some("u1"), "u2", &perms, PermissionAction::Update), Ok(()));
    assert_eq!(can_manage_api_key(Some("u1"), "u2", &perms, PermissionAction::Delete), Err(ApiError::Unauthorized));
    let _ = ensure_can_mutate_file;
    assert_eq!(default_login_permissions()[0], "auth.profile.read");
    assert_eq!(default_login_permissions().len(), 13);
    assert_eq!(check_tmi_type(" "), Err(ApiError::BadRequest));
    assert_eq!(check_name("Tower"), Ok(()));
    assert_eq!(check_link_request("code", " "), Err(ApiError::BadRequest));
}

#[test]
fn clock_based_checks() {
    let start = UtcTimestamp::new(chrono::Utc::now().timestamp() + 86400 * 3, 0).unwrap();
    let number = generate_mission_number(start).unwrap();
    assert_eq!(number.len(), 4);
    let n: u32 = number.parse().unwrap();
    assert!((1000..=9999).contains(&n));
    let past = UtcTimestamp::new(0, 0).unwrap();
    let req = CreateSuaRequest {
        afiliation: "Navy".to_string(),
        details: "x".to_string(),
        start_at: past,
        end_at: UtcTimestamp::new(3600, 0).unwrap(),
        airspace: vec![],
    };
    assert_eq!(validate_sua_request(&req), Err(ApiError::BadRequest));
    assert_eq!(loa_email_template("INACTIVE", past), Ok(Some("loa.expired")));
    assert_eq!(loa_email_template("INACTIVE", start), Ok(Some("loa.deleted")));
    assert_eq!(loa_email_template("APPROVED", past), Ok(Some("loa.approved")));
    assert_eq!(loa_email_template("PENDING", past), Ok(None));
    assert_eq!(validate_incident_report("rude", "DCA_TWR", past), Ok(()));
    assert_eq!(validate_incident_report("rude", "DCA_TWR", start), Err(ApiError::BadRequest));
    assert_eq!(validate_incident_report("  ", "DCA_TWR", past), Err(ApiError::BadRequest));
    let blank = CreateSuaRequest {
        afiliation: " ".to_string(),
        details: "x".to_string(),
        start_at: start,
        end_at: UtcTimestamp::new(start.secs() + 3600, 0).unwrap(),
        airspace: vec![],
    };
    assert_eq!(validate_sua_request(&blank), Err(ApiError::BadRequest));
    let later = chrono::Utc::now().timestamp() + 3600;
    let sig = sign_download_token(Some("secret"), "f1", later).unwrap();
    assert_eq!(token_is_valid(Some("secret"), "f1", Some(later), Some(&sig)), Ok(true));
    let old_sig = sign_download_token(Some("secret"), "f1", 1000).unwrap();
    assert_eq!(token_is_valid(Some("secret"), "f1", Some(1000), Some(&old_sig)), Ok(false));
    assert_eq!(token_is_valid(Some("secret"), "f1", Some(later), None), Ok(false));
}

fn record() -> SessionRecord {
    SessionRecord {
        id: "s1".to_string(),
        environment: "live".to_string(),
        artcc_id: "ZDC".to_string(),
        cid: 900,
        user_id: Some("u900".to_string()),
        real_name: None,
        role: None,
        user_rating: None,
        requested_rating: None,
        primary_facility_id: None,
        primary_position_id: None,
    }
}

#[test]
fn lifecycle_events() {
    let when = UtcTimestamp::new(1_000, 0).unwrap();
    let session = record();
    let on = ControllerLifecycleEvent::ControllerLoggedOn(build_session_event(&session, when));
    assert_eq!(on.event_type(), "controller_logged_on");
    assert_eq!(on.environment(), "live");
    assert_eq!(on.cid(), 900);
    assert_eq!(on.user_id(), Some("u900"));
    assert_eq!(on.session_id(), "s1");
    assert_eq!(on.activation_id(), None);
    assert_eq!(on.occurred_at(), when);
    let position = ActivePositionSnapshot {
        position_id: "P1".to_string(),
        facility_id: None,
        facility_name: "F".to_string(),
        position_name: "P".to_string(),
        position_type: "Tower".to_string(),
        radio_name: None,
        default_callsign: Some("DCA_TWR".to_string()),
        frequency: Some(119_100_000),
        is_primary: true,
    };
    let activation = new_activation("a1".to_string(), &session, &position, when);
    assert_eq!(activation.position_id, "P1");
    let off = ControllerLifecycleEvent::PositionDeactivated(build_position_event(&session, &activation, when));
    assert_eq!(off.event_type(), "position_deactivated");
    assert_eq!(off.activation_id(), Some("a1"));
    let open = OpenSession {
        id: "s2".to_string(),
        cid: 5,
        user_id: None,
        artcc_id: "ZDC".to_string(),
        real_name: None,
        role: None,
        user_rating: None,
        requested_rating: None,
        primary_facility_id: None,
        primary_position_id: None,
        login_at: when,
        source_login_time_raw: "x".to_string(),
    };
    let closing = session_record_from_open(&open, StatsEnvironment::Sweatbox2);
    assert_eq!(closing.environment, "sweatbox2");
    assert_eq!(closing.id, "s2");
}

#[test]
fn header_lookups_follow_the_map() {
    let mut map = http::HeaderMap::new();
    map.append("x-real-ip", http::HeaderValue::from_static("9.9.9.9"));
    map.append("x-real-ip", http::HeaderValue::from_static("8.8.8.8"));
    map.insert("origin", http::HeaderValue::from_bytes(b"https://caf\xe9.test").unwrap());
    assert_eq!(header_text(&map, "X-Real-IP"), Some("9.9.9.9"));
    assert_eq!(header_text(&map, "origin"), None);
    assert_eq!(header_text(&map, "bad name"), None);
    assert_eq!(client_ip(&map), "9.9.9.9");
    assert_eq!(request_origin(&map), None);
    assert_eq!(
        validate_oauth_login_origin(&map, "http://osmium.test/callback"),
        Err(ApiError::OAuthLoginOriginMismatch)
    );
    let odd = http::HeaderValue::from_bytes(b"bytes=\xff").unwrap();
    assert_eq!(parse_range_header(Some(&odd), 10), Err(()));
    assert_eq!(normalize_content_type(Some(&odd)), Ok("application/octet-stream".to_string()));
}
