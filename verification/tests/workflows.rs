use chrono::{TimeZone, Utc};
use osmium::error::ApiError;
use osmium::handlers::admin::{
    check_visitor_decision, configured_artcc, normalize_visitor_application_decision_status,
    normalize_visitor_application_status_filter,
};
use osmium::handlers::broadcasts::{normalize_optional, normalize_required};
use osmium::handlers::feedback::{
    feedback_list_scope, feedback_page, normalize_feedback_decision, normalize_feedback_status_filter,
    validate_feedback_submission,
};
use osmium::handlers::incidents::{check_incident_update, validate_incident_report_at};
use osmium::handlers::integrations::{check_announcement, check_identity_owner, check_link_state};
use osmium::handlers::org::{
    is_valid_flight_level, job_status_from_run, loa_email_template_at, mission_number_from,
    normalize_controller_status, normalize_lifecycle_artcc, normalize_loa_admin_status,
    plan_controller_lifecycle, validate_loa_range, validate_sua_request_at, CreateSuaRequest,
    JobRunRow, SuaAirspace, job_status,
};
use osmium::jobs::roster_sync::RosterSyncMetrics;
use osmium::jobs::stats_sync::EnvironmentSyncHealth;
use osmium::jobs::JobHealthRecord;
use osmium::timestamp::UtcTimestamp;

fn at(y: i32, mo: u32, d: u32, h: u32, mi: u32, s: u32) -> UtcTimestamp {
    let t = Utc.with_ymd_and_hms(y, mo, d, h, mi, s).unwrap();
    UtcTimestamp::new(t.timestamp(), t.timestamp_subsec_nanos()).unwrap()
}

#[test]
fn leave_of_absence_rules() {
    let start = at(2026, 3, 1, 0, 0, 0);
    assert_eq!(validate_loa_range(start, at(2026, 3, 8, 0, 0, 0), "travel"), Ok(()));
    assert_eq!(validate_loa_range(start, at(2026, 3, 7, 23, 59, 59), "travel"), Err(ApiError::BadRequest));
    assert_eq!(validate_loa_range(start, at(2026, 4, 1, 0, 0, 0), ""), Err(ApiError::BadRequest));
    assert_eq!(validate_loa_range(start, start, "x"), Err(ApiError::BadRequest));
    assert_eq!(normalize_loa_admin_status(" approved "), Ok("APPROVED"));
    assert_eq!(normalize_loa_admin_status("maybe"), Err(ApiError::BadRequest));
    let now = at(2026, 3, 10, 0, 0, 0);
    assert_eq!(loa_email_template_at("INACTIVE", at(2026, 3, 9, 0, 0, 0), now), Some("loa.expired"));
    assert_eq!(loa_email_template_at("INACTIVE", at(2026, 3, 11, 0, 0, 0), now), Some("loa.deleted"));
    assert_eq!(loa_email_template_at("APPROVED", now, now), Some("loa.approved"));
    assert_eq!(loa_email_template_at("PENDING", now, now), None);
}

fn sua(start: UtcTimestamp, end: UtcTimestamp, bottom: &str) -> CreateSuaRequest {
    CreateSuaRequest {
        afiliation: "Navy".to_string(),
        details: "Exercise".to_string(),
        start_at: start,
        end_at: end,
        airspace: vec![SuaAirspace {
            identifier: "R-4001".to_string(),
            bottom_altitude: bottom.to_string(),
            top_altitude: "180".to_string(),
        }],
    }
}

#[test]
fn special_use_airspace_rules() {
    let now = at(2026, 3, 1, 0, 0, 0);
    let start = at(2026, 3, 2, 0, 0, 0);
    assert_eq!(validate_sua_request_at(&sua(start, at(2026, 3, 2, 1, 0, 0), "050"), now), Ok(()));
    assert_eq!(validate_sua_request_at(&sua(start, at(2026, 3, 2, 0, 29, 59), "050"), now), Err(ApiError::BadRequest));
    assert_eq!(validate_sua_request_at(&sua(start, at(2026, 3, 2, 12, 0, 1), "050"), now), Err(ApiError::BadRequest));
    assert_eq!(validate_sua_request_at(&sua(start, at(2026, 3, 2, 12, 0, 0), "050"), now), Ok(()));
    assert_eq!(validate_sua_request_at(&sua(start, at(2026, 3, 2, 1, 0, 0), "5000"), now), Err(ApiError::BadRequest));
    assert_eq!(validate_sua_request_at(&sua(now, at(2026, 3, 2, 1, 0, 0), "050"), now), Err(ApiError::BadRequest));
    assert!(is_valid_flight_level(" 350 "));
    assert!(!is_valid_flight_level("35A"));
    assert!(!is_valid_flight_level("3500"));
}

#[test]
fn mission_numbers() {
    let now = at(2026, 3, 1, 0, 0, 0);
    assert_eq!(mission_number_from(at(2026, 3, 1, 12, 0, 0), now, 0), "100A");
    assert_eq!(mission_number_from(at(2026, 3, 1, 12, 0, 0), now, 901), "101B");
    assert_eq!(mission_number_from(at(2026, 3, 5, 0, 0, 0), now, 12345), "4345");
}

#[test]
fn controller_status_changes() {
    assert_eq!(normalize_controller_status(" visitor "), Ok("VISITOR"));
    assert_eq!(normalize_controller_status("guest"), Err(ApiError::BadRequest));
    assert_eq!(normalize_lifecycle_artcc(Some(" zny ")).as_deref(), Some("ZNY"));
    assert_eq!(normalize_lifecycle_artcc(Some("  ")), None);
    let leave = plan_controller_lifecycle("NONE", None, true, "HOME", false);
    assert!(leave.clear_operating_initials && leave.delete_training_and_loas);
    assert!(!leave.assign_operating_initials && !leave.enable_welcome_message);
    let keep = plan_controller_lifecycle("NONE", Some(false), true, "HOME", false);
    assert!(keep.clear_operating_initials && !keep.delete_training_and_loas);
    let join = plan_controller_lifecycle("HOME", None, false, "NONE", false);
    assert!(join.assign_operating_initials && join.enable_welcome_message);
    assert!(!join.clear_operating_initials);
}

#[test]
fn job_status_from_latest_run() {
    let none = job_status_from_run(&None);
    assert!(none.enabled && none.last_result_ok.is_none());
    let run = JobRunRow {
        started_at: at(2026, 1, 1, 0, 0, 0),
        finished_at: Some(at(2026, 1, 1, 0, 1, 0)),
        status: "succeeded".to_string(),
        error_text: None,
    };
    let s = job_status_from_run(&Some(run));
    assert_eq!(s.last_result_ok, Some(true));
    assert_eq!(s.last_success_at, Some(at(2026, 1, 1, 0, 1, 0)));
    let failed = JobRunRow {
        started_at: at(2026, 1, 1, 0, 0, 0),
        finished_at: None,
        status: "failed".to_string(),
        error_text: Some("boom".to_string()),
    };
    let s = job_status_from_run(&Some(failed));
    assert_eq!(s.last_result_ok, Some(false));
    assert_eq!(s.last_success_at, None);
    assert_eq!(s.last_error.as_deref(), Some("boom"));
}

#[test]
fn visitor_application_rules() {
    assert_eq!(normalize_visitor_application_status_filter(None), Ok(None));
    assert_eq!(normalize_visitor_application_status_filter(Some(" pending ")), Ok(Some("PENDING".to_string())));
    assert_eq!(normalize_visitor_application_status_filter(Some("x")), Err(ApiError::BadRequest));
    assert_eq!(normalize_visitor_application_decision_status("denied"), Ok("DENIED"));
    assert_eq!(check_visitor_decision("DENIED", Some("  ")), Err(ApiError::BadRequest));
    assert_eq!(check_visitor_decision("DENIED", Some(" no ")), Ok(("DENIED", Some("no".to_string()))));
    assert_eq!(check_visitor_decision("approved", Some("ignored")), Ok(("APPROVED", None)));
    assert_eq!(configured_artcc(None), "ZDC");
    assert_eq!(configured_artcc(Some(" zny ")), "ZNY");
}

#[test]
fn broadcast_fields() {
    assert_eq!(normalize_required(" hi "), Ok("hi".to_string()));
    assert_eq!(normalize_required(" "), Err(ApiError::BadRequest));
    assert_eq!(normalize_optional(Some(" ")), None);
    assert_eq!(normalize_optional(Some(" a ")), Some("a".to_string()));
}

#[test]
fn feedback_rules() {
    assert_eq!(
        validate_feedback_submission(5, " AAL1 ", " DCA_TWR "),
        Ok(("AAL1".to_string(), "DCA_TWR".to_string()))
    );
    assert_eq!(validate_feedback_submission(6, "AAL1", "DCA_TWR"), Err(ApiError::BadRequest));
    assert_eq!(validate_feedback_submission(3, "AAL1", " "), Err(ApiError::BadRequest));
    assert_eq!(normalize_feedback_status_filter(Some(" released ")), Ok(Some("RELEASED".to_string())));
    assert_eq!(normalize_feedback_status_filter(Some("bogus")), Err(ApiError::BadRequest));
    assert_eq!(normalize_feedback_decision("stashed"), Ok("STASHED".to_string()));
    assert_eq!(feedback_list_scope(false, false), Err(ApiError::Unauthorized));
    assert_eq!(feedback_list_scope(false, true), Ok(false));
    assert_eq!(feedback_list_scope(true, true), Ok(true));
    assert_eq!(feedback_page(None, None), (50, 0));
    assert_eq!(feedback_page(Some(0), Some(-1)), (1, 0));
}

#[test]
fn incidents_and_integrations() {
    let now = at(2026, 3, 1, 0, 0, 0);
    assert_eq!(validate_incident_report_at("rude", "AAL1", at(2026, 2, 1, 0, 0, 0), now), Ok(()));
    assert_eq!(validate_incident_report_at("rude", "AAL1", at(2026, 4, 1, 0, 0, 0), now), Err(ApiError::BadRequest));
    assert_eq!(check_incident_update(true, true), Err(ApiError::BadRequest));
    assert_eq!(check_incident_update(true, false), Ok(()));
    assert_eq!(check_link_state("u1", "u2", Some(now), now), Err(ApiError::Unauthorized));
    assert_eq!(check_link_state("u1", "u1", None, now), Err(ApiError::BadRequest));
    assert_eq!(check_link_state("u1", "u1", Some(at(2026, 2, 1, 0, 0, 0)), now), Err(ApiError::BadRequest));
    assert_eq!(check_link_state("u1", "u1", Some(now), now), Ok(()));
    assert_eq!(check_identity_owner(Some("u2"), "u1"), Err(ApiError::BadRequest));
    assert_eq!(check_identity_owner(None, "u1"), Ok(()));
    assert_eq!(check_announcement("T", " "), Err(ApiError::BadRequest));
}

#[test]
fn job_status_by_job_name() {
    let live = EnvironmentSyncHealth {
        last_started_at: Some(at(2026, 2, 1, 0, 0, 0)),
        last_finished_at: None,
        last_success_at: None,
        last_result_ok: Some(false),
        last_error: Some("feed down".to_string()),
        processed: None,
        online: None,
        source_updated_at: None,
    };
    let roster = JobHealthRecord {
        enabled: false,
        last_started_at: None,
        last_finished_at: Some(at(2026, 2, 2, 0, 0, 0)),
        last_success_at: None,
        last_result_ok: Some(true),
        last_error: None,
        metrics: RosterSyncMetrics { processed: None, matched: None, updated: None, demoted: None, skipped: None },
    };
    let run = Some(JobRunRow {
        started_at: at(2026, 1, 1, 0, 0, 0),
        finished_at: Some(at(2026, 1, 1, 0, 1, 0)),
        status: "succeeded".to_string(),
        error_text: None,
    });
    let s = job_status("stats_sync", true, &live, &roster, &run);
    assert!(s.enabled);
    assert_eq!(s.last_error.as_deref(), Some("feed down"));
    assert_eq!(s.last_started_at, Some(at(2026, 2, 1, 0, 0, 0)));
    let r = job_status("roster_sync", true, &live, &roster, &run);
    assert!(!r.enabled);
    assert_eq!(r.last_finished_at, Some(at(2026, 2, 2, 0, 0, 0)));
    let o = job_status("loa_expiration", true, &live, &roster, &run);
    assert!(o.enabled);
    assert_eq!(o.last_success_at, Some(at(2026, 1, 1, 0, 1, 0)));
    assert_eq!(o.last_result_ok, Some(true));
}
