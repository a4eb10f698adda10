use osmium::handlers::training::{
    build_filter_pattern, check_trainers_found, newly_passed_lesson_ids, normalize_filter_mode,
    normalize_marker, passed_lessons, release_request_wanted, FilterMode, LessonRow, StoredTicket,
    TrainingTicketRequest,
};

#[test]
fn filter_mode_treats_equals_as_exact() {
    assert_eq!(normalize_filter_mode("equals"), FilterMode::Exact);
    assert_eq!(normalize_filter_mode("="), FilterMode::Exact);
}

#[test]
fn filter_pattern_builds_contains_default() {
    assert_eq!(build_filter_pattern("contains", "ZDC"), "%ZDC%");
    assert_eq!(build_filter_pattern("startsWith", "OBS"), "OBS%");
    assert_eq!(build_filter_pattern("ends_with", "CTR"), "%CTR");
    assert_eq!(build_filter_pattern("equals", "DCA_TWR"), "DCA_TWR");
}

fn lesson(id: &str, release: bool) -> LessonRow {
    LessonRow {
        id: id.to_string(),
        identifier: format!("L-{id}"),
        performance_indicator_template_id: None,
        release_request_on_pass: release,
        instructor_only: false,
        notify_instructor_on_pass: false,
    }
}

fn ticket(lesson_id: &str, passed: bool) -> TrainingTicketRequest {
    TrainingTicketRequest {
        lesson_id: lesson_id.to_string(),
        passed,
        scores: vec![],
    }
}

#[test]
fn passed_lessons_follow_passed_tickets() {
    let lessons = vec![lesson("a", false), lesson("b", true)];
    let tickets = vec![ticket("a", true), ticket("b", false), ticket("x", true), ticket("b", true)];
    let passed = passed_lessons(&tickets, &lessons);
    assert_eq!(passed, vec![0, 1]);
    let old = vec![StoredTicket { lesson_id: "a".to_string(), passed: true }];
    assert_eq!(newly_passed_lesson_ids(&passed, &lessons, &old), vec!["b".to_string()]);
    assert!(release_request_wanted(Some("HOME"), &passed, &lessons));
    assert!(!release_request_wanted(Some("VISITOR"), &passed, &lessons));
    assert!(!release_request_wanted(Some("HOME"), &passed[..1], &lessons));
}

#[test]
fn markers_and_trainer_checks() {
    assert_eq!(normalize_marker("  s "), "S");
    assert!(check_trainers_found(2, 2).is_none());
    assert_eq!(
        check_trainers_found(2, 1).map(|m| m.message),
        Some("One or more additional trainers do not exist.".to_string())
    );
}
