use osmium::jobs::roster_sync::{
    build_desired_memberships, build_matched_update, build_off_roster_update, build_warning_summary,
    numeric_rating_to_short_code, parse_timestamp, plan_roster_sync, resolve_rating_code,
    roster_sync_config_from_values, summarize_membership_change, DesiredMembership,
    LocalRosterUser, MatchedUserUpdate, MembershipStatus, VatusaRosterUser, VatusaUserDetail,
    DEFAULT_INTERVAL_SECS, finish_roster_sync_run, record_roster_sync_outcome, record_roster_sync_setup,
    MembershipChangeSummary, RosterSyncError, RosterSyncMetrics, RosterSyncPlan, start_roster_sync_worker,
};
use osmium::error::ApiError;
use osmium::jobs::JobHealthRecord;
use osmium::timestamp::UtcTimestamp;

fn roster_user(cid: i64, facility: &str, facility_join: Option<&str>) -> VatusaRosterUser {
    VatusaRosterUser {
        cid,
        facility: facility.to_string(),
        facility_join: facility_join.map(str::to_string),
    }
}

fn user_detail(facility: &str) -> VatusaUserDetail {
    VatusaUserDetail {
        cid: 1001,
        fname: "Jane".to_string(),
        lname: "Controller".to_string(),
        email: Some("jane@example.com".to_string()),
        facility: facility.to_string(),
        rating: 4,
        rating_short: Some("S3".to_string()),
    }
}

#[test]
fn home_roster_entry_maps_to_home() {
    let desired = build_desired_memberships(vec![roster_user(1, "ZDC", None)], vec![]);
    assert_eq!(
        desired.get(&1).map(|entry| entry.status.clone()),
        Some(MembershipStatus::Home)
    );
}

#[test]
fn visiting_roster_entry_maps_to_visitor() {
    let desired = build_desired_memberships(vec![], vec![roster_user(1, "ZDC", None)]);
    assert_eq!(
        desired.get(&1).map(|entry| entry.status.clone()),
        Some(MembershipStatus::Visitor)
    );
}

#[test]
fn home_wins_when_cid_in_both_lists() {
    let desired = build_desired_memberships(
        vec![roster_user(1, "ZDC", None)],
        vec![roster_user(1, "ABC", None)],
    );

    assert_eq!(
        desired.get(&1).map(|entry| entry.status.clone()),
        Some(MembershipStatus::Home)
    );
}

#[test]
fn matched_user_update_maps_fields() {
    let local = LocalRosterUser {
        user_id: "user-1".to_string(),
        cid: 1001,
        has_membership: true,
        rating: Some("S2".to_string()),
        controller_status: Some("VISITOR".to_string()),
        membership_status: Some("ACTIVE".to_string()),
        home_facility: None,
        visitor_home_facility: Some("ZOB".to_string()),
    };
    let desired = DesiredMembership {
        status: MembershipStatus::Visitor,
        roster_user: roster_user(1001, "ZDC", Some("2024-01-15T10:00:00Z")),
    };

    let update = build_matched_update(&local, &desired, user_detail("ZNY"));

    assert_eq!(update.first_name, "Jane");
    assert_eq!(update.last_name, "Controller");
    assert_eq!(update.full_name, "Jane Controller");
    assert_eq!(update.display_name, "Jane Controller");
    assert_eq!(update.email.as_deref(), Some("jane@example.com"));
    assert_eq!(update.rating, "S3");
    assert_eq!(update.controller_status, "VISITOR");
    assert_eq!(update.home_facility, None);
    assert_eq!(update.visitor_home_facility, Some("ZNY".to_string()));
    assert!(update.join_date.is_some());
}

#[test]
fn visitor_detail_uses_home_facility_from_user_detail() {
    let local = LocalRosterUser {
        user_id: "user-8".to_string(),
        cid: 8008,
        has_membership: true,
        rating: Some("S2".to_string()),
        controller_status: Some("VISITOR".to_string()),
        membership_status: Some("ACTIVE".to_string()),
        home_facility: None,
        visitor_home_facility: Some("ZOB".to_string()),
    };
    let desired = DesiredMembership {
        status: MembershipStatus::Visitor,
        roster_user: roster_user(8008, "ZDC", Some("2024-01-15T10:00:00Z")),
    };

    let update = build_matched_update(&local, &desired, user_detail("ZNY"));

    assert_eq!(update.visitor_home_facility.as_deref(), Some("ZNY"));
}

#[test]
fn rating_short_from_vatusa_is_preferred() {
    let local = LocalRosterUser {
        user_id: "user-6".to_string(),
        cid: 6006,
        has_membership: true,
        rating: Some("C1".to_string()),
        controller_status: Some("VISITOR".to_string()),
        membership_status: Some("ACTIVE".to_string()),
        home_facility: None,
        visitor_home_facility: Some("ZBW".to_string()),
    };
    let desired = DesiredMembership {
        status: MembershipStatus::Visitor,
        roster_user: roster_user(6006, "ZDC", Some("2024-01-15T10:00:00Z")),
    };

    let update = build_matched_update(
        &local,
        &desired,
        VatusaUserDetail {
            cid: 6006,
            fname: "Jane".to_string(),
            lname: "Controller".to_string(),
            email: Some("jane@example.com".to_string()),
            facility: "ZBW".to_string(),
            rating: 8,
            rating_short: Some("I1".to_string()),
        },
    );

    assert_eq!(update.rating, "I1");
}

#[test]
fn numeric_rating_fallback_maps_instructor_levels_exactly() {
    assert_eq!(numeric_rating_to_short_code(1, 1), "OBS");
    assert_eq!(numeric_rating_to_short_code(5, 1), "C1");
    assert_eq!(numeric_rating_to_short_code(8, 1), "I1");
    assert_eq!(numeric_rating_to_short_code(9, 1), "I2");
    assert_eq!(numeric_rating_to_short_code(10, 1), "I3");
    assert_eq!(numeric_rating_to_short_code(11, 1), "SUP");
    assert_eq!(numeric_rating_to_short_code(12, 1), "ADM");
}

#[test]
fn blank_rating_short_falls_back_to_numeric_rating() {
    assert_eq!(resolve_rating_code(Some(" "), 5, 1), "C1");
}

#[test]
fn unknown_numeric_rating_uses_fallback() {
    assert_eq!(numeric_rating_to_short_code(0, 1), "SUS");
}

#[test]
fn null_email_does_not_clear_local_email() {
    let local = LocalRosterUser {
        user_id: "user-7".to_string(),
        cid: 7007,
        has_membership: true,
        rating: Some("S2".to_string()),
        controller_status: Some("HOME".to_string()),
        membership_status: Some("ACTIVE".to_string()),
        home_facility: Some("ZDC".to_string()),
        visitor_home_facility: None,
    };
    let desired = DesiredMembership {
        status: MembershipStatus::Home,
        roster_user: roster_user(7007, "ZDC", Some("2024-01-15T10:00:00Z")),
    };

    let update = build_matched_update(
        &local,
        &desired,
        VatusaUserDetail {
            cid: 7007,
            fname: "Jane".to_string(),
            lname: "Controller".to_string(),
            email: None,
            facility: "ZDC".to_string(),
            rating: 4,
            rating_short: Some("S3".to_string()),
        },
    );

    assert_eq!(update.email, None);
}

#[test]
fn off_roster_mapping_clears_only_membership_fields() {
    let local = LocalRosterUser {
        user_id: "user-2".to_string(),
        cid: 2002,
        has_membership: true,
        rating: Some("C1".to_string()),
        controller_status: Some("HOME".to_string()),
        membership_status: Some("ACTIVE".to_string()),
        home_facility: Some("ZDC".to_string()),
        visitor_home_facility: None,
    };

    let update = build_off_roster_update(&local);

    assert_eq!(update.controller_status, "NONE");
    assert_eq!(update.membership_status, "INACTIVE");
    assert!(!update.is_active);
}

#[test]
fn summarize_membership_change_detects_created_membership_and_rating_change() {
    let local = LocalRosterUser {
        user_id: "user-3".to_string(),
        cid: 3003,
        has_membership: false,
        rating: None,
        controller_status: None,
        membership_status: None,
        home_facility: None,
        visitor_home_facility: None,
    };
    let update = MatchedUserUpdate {
        user_id: local.user_id.clone(),
        cid: local.cid,
        first_name: "Jane".to_string(),
        last_name: "Controller".to_string(),
        full_name: "Jane Controller".to_string(),
        display_name: "Jane Controller".to_string(),
        email: Some("jane@example.com".to_string()),
        rating: "S3".to_string(),
        controller_status: "HOME".to_string(),
        join_date: None,
        home_facility: Some("ZDC".to_string()),
        visitor_home_facility: None,
    };

    let summary = summarize_membership_change(&local, &update);

    assert!(summary.created_membership);
    assert!(summary.rating_changed);
    assert!(summary.controller_status_changed);
    assert!(summary.membership_status_changed);
    assert!(summary.home_facility_changed);
    assert!(!summary.visitor_home_facility_changed);
    assert!(summary.has_meaningful_change());
}

#[test]
fn summarize_membership_change_detects_noop_update() {
    let local = LocalRosterUser {
        user_id: "user-4".to_string(),
        cid: 4004,
        has_membership: true,
        rating: Some("S3".to_string()),
        controller_status: Some("HOME".to_string()),
        membership_status: Some("ACTIVE".to_string()),
        home_facility: Some("ZDC".to_string()),
        visitor_home_facility: None,
    };
    let update = MatchedUserUpdate {
        user_id: local.user_id.clone(),
        cid: local.cid,
        first_name: "Jane".to_string(),
        last_name: "Controller".to_string(),
        full_name: "Jane Controller".to_string(),
        display_name: "Jane Controller".to_string(),
        email: Some("jane@example.com".to_string()),
        rating: "S3".to_string(),
        controller_status: "HOME".to_string(),
        join_date: None,
        home_facility: Some("ZDC".to_string()),
        visitor_home_facility: None,
    };

    let summary = summarize_membership_change(&local, &update);

    assert!(!summary.created_membership);
    assert!(!summary.rating_changed);
    assert!(!summary.controller_status_changed);
    assert!(!summary.membership_status_changed);
    assert!(!summary.home_facility_changed);
    assert!(!summary.visitor_home_facility_changed);
    assert!(!summary.has_meaningful_change());
}

#[test]
fn matched_user_update_home_sets_home_facility() {
    let local = LocalRosterUser {
        user_id: "user-5".to_string(),
        cid: 5005,
        has_membership: true,
        rating: Some("S2".to_string()),
        controller_status: Some("VISITOR".to_string()),
        membership_status: Some("ACTIVE".to_string()),
        home_facility: None,
        visitor_home_facility: Some("ZNY".to_string()),
    };
    let desired = DesiredMembership {
        status: MembershipStatus::Home,
        roster_user: roster_user(5005, "ZDC", Some("2024-02-01T12:00:00Z")),
    };

    let update = build_matched_update(&local, &desired, user_detail("ZNY"));

    assert_eq!(update.controller_status, "HOME");
    assert_eq!(update.home_facility.as_deref(), Some("ZDC"));
    assert_eq!(update.visitor_home_facility, None);
}

#[test]
fn malformed_join_timestamp_is_ignored() {
    assert!(parse_timestamp("not-a-timestamp", 6006).is_none());
}

#[test]
fn worker_config_disabled_when_env_false() {
    assert!(matches!(
        roster_sync_config_from_values(Some("false"), Some("secret"), None, None, None),
        Ok(None)
    ));
}

#[test]
fn worker_config_disabled_when_api_key_missing() {
    assert!(roster_sync_config_from_values(Some("true"), None, None, None, None).is_err());
}

#[test]
fn worker_config_uses_default_interval() {
    let config = roster_sync_config_from_values(Some("true"), Some("secret"), None, None, None)
        .expect("config lookup should succeed")
        .expect("config should exist");
    assert_eq!(config.interval_secs, DEFAULT_INTERVAL_SECS);
}

#[test]
fn worker_config_reads_settings() {
    let config = roster_sync_config_from_values(None, Some("k"), Some(" zny "), Some(" https://x.test/v2// "), Some("30"))
        .unwrap()
        .unwrap();
    assert_eq!(config.facility_id, "ZNY");
    assert_eq!(config.api_base_url, "https://x.test/v2");
    assert_eq!(config.interval_secs, 60);
    assert_eq!(
        roster_sync_config_from_values(Some("yes"), Some("   "), None, None, None).err().as_deref(),
        Some("missing VATUSA_API_KEY")
    );
}

#[test]
fn plan_sorts_local_users() {
    let desired = build_desired_memberships(vec![roster_user(1, "ZDC", None), roster_user(7, "ZDC", None)], vec![]);
    let users = vec![
        LocalRosterUser {
            user_id: "u1".to_string(),
            cid: 1,
            has_membership: true,
            rating: None,
            controller_status: None,
            membership_status: None,
            home_facility: None,
            visitor_home_facility: None,
        },
        LocalRosterUser {
            user_id: "u2".to_string(),
            cid: 2,
            has_membership: true,
            rating: None,
            controller_status: None,
            membership_status: None,
            home_facility: None,
            visitor_home_facility: None,
        },
        LocalRosterUser {
            user_id: "u3".to_string(),
            cid: 3,
            has_membership: false,
            rating: None,
            controller_status: None,
            membership_status: None,
            home_facility: None,
            visitor_home_facility: None,
        },
    ];
    let plan = plan_roster_sync(&users, &desired);
    assert_eq!(plan.detail_fetches, vec![0]);
    assert_eq!(plan.off_roster_updates.len(), 1);
    assert_eq!(plan.off_roster_updates[0].cid, 2);
    assert_eq!(plan.processed, 3);
    assert_eq!(plan.matched, 1);
    assert_eq!(plan.desired_missing_local_users, 1);
    assert_eq!(build_warning_summary(&[]), None);
    assert_eq!(build_warning_summary(&[5, 6]).as_deref(), Some("detail fetch failed for 2 users"));
}

fn change(created: bool, rating: bool) -> MembershipChangeSummary {
    MembershipChangeSummary {
        created_membership: created,
        rating_changed: rating,
        controller_status_changed: false,
        membership_status_changed: false,
        home_facility_changed: false,
        visitor_home_facility_changed: false,
    }
}

fn roster_record() -> JobHealthRecord<RosterSyncMetrics> {
    JobHealthRecord {
        enabled: false,
        last_started_at: None,
        last_finished_at: None,
        last_success_at: None,
        last_result_ok: None,
        last_error: None,
        metrics: RosterSyncMetrics { processed: None, matched: None, updated: None, demoted: None, skipped: None },
    }
}

#[test]
fn roster_runs_are_summed_up_and_recorded() {
    let plan = RosterSyncPlan {
        detail_fetches: vec![0, 1, 2, 3, 4],
        off_roster_updates: vec![],
        processed: 5,
        matched: 5,
        desired_missing_local_users: 3,
    };
    let changes = vec![change(true, false), change(true, true), change(false, true), change(false, false)];
    let run = finish_roster_sync_run(&plan, 4, &[77], &changes);
    assert_eq!((run.processed, run.matched, run.updated, run.demoted, run.skipped), (5, 5, 4, 0, 1));
    assert_eq!(run.updated + run.skipped, run.matched);
    assert_eq!((run.created_memberships, run.changed_ratings, run.detail_failures), (2, 2, 1));
    assert_eq!(run.desired_missing_local_users, 3);
    assert_eq!(run.warning.as_deref(), Some("detail fetch failed for 1 users"));

    let mut health = roster_record();
    record_roster_sync_setup(&mut health, &Err("ROSTER_SYNC_FACILITY_ID is missing".to_string()));
    assert!(!health.enabled);
    assert_eq!(health.last_result_ok, Some(false));
    assert_eq!(health.last_error.as_deref(), Some("ROSTER_SYNC_FACILITY_ID is missing"));
    record_roster_sync_setup(&mut health, &Ok(None));
    assert!(!health.enabled && health.last_error.is_none());

    let t = |s: i64| UtcTimestamp::new(s, 0).unwrap();
    record_roster_sync_outcome(&mut health, &Ok(run), t(10), t(11));
    assert_eq!(health.last_finished_at, Some(t(10)));
    assert_eq!(health.last_success_at, Some(t(11)));
    assert_eq!(health.last_result_ok, Some(false));
    assert_eq!(health.last_error.as_deref(), Some("detail fetch failed for 1 users"));
    assert_eq!(health.metrics.skipped, Some(1));
    record_roster_sync_outcome(&mut health, &Err(RosterSyncError::Api(ApiError::ServiceUnavailable)), t(20), t(21));
    assert_eq!(health.last_finished_at, Some(t(20)));
    assert_eq!(health.last_success_at, Some(t(11)));
    assert_eq!(health.last_error.as_deref(), Some("service unavailable"));
    assert_eq!(health.metrics.processed, Some(5));
    record_roster_sync_outcome(&mut health, &Err(RosterSyncError::DatabaseUnavailable), t(30), t(31));
    assert_eq!(health.last_error.as_deref(), Some("database unavailable for roster sync"));
}

#[test]
fn roster_worker_starts_only_with_a_configuration() {
    let mut health = roster_record();
    assert!(start_roster_sync_worker(&mut health, Ok(None)).is_none());
    assert!(!health.enabled && health.last_error.is_none());
    assert!(start_roster_sync_worker(&mut health, Err("missing VATUSA_API_KEY".to_string())).is_none());
    assert!(!health.enabled);
    assert_eq!(health.last_result_ok, Some(false));
    assert_eq!(health.last_error.as_deref(), Some("missing VATUSA_API_KEY"));
    let config = roster_sync_config_from_values(None, Some("k"), None, None, None).unwrap();
    let started = start_roster_sync_worker(&mut health, Ok(config)).unwrap();
    assert_eq!(started.interval_secs, DEFAULT_INTERVAL_SECS);
    assert!(health.enabled && health.last_error.is_none());
}
