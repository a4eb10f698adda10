use chrono::{TimeZone, Utc};
use osmium::error::ApiError;
use osmium::handlers::training::{
    build_rubric_rules, clears_ots_recommendations, ots_candidate, ots_note,
    validate_additional_trainer_shapes, validate_appointment_additional_trainers,
    validate_appointment_lesson_ids, validate_appointment_notes, validate_rubric_cell_payload,
    validate_rubric_criteria_payload, validate_training_lesson_payload,
    validate_training_session_payload, AdditionalTrainerRequest, LessonRow,
    PerformanceIndicatorCategoryRequest, PerformanceIndicatorCriteriaRequest,
    PerformanceIndicatorRequest, RubricMembershipRow, RubricScoreRequest, StoredTicket,
    TrainingTicketRequest, UpdateTrainingSessionRequest,
};
use osmium::handlers::training::{error_result, message, session_save_answer, session_save_refusal, CreateOrUpdateTrainingSessionResult};
use osmium::handlers::training::{merge_appointment_update, AppointmentSettingsUpdate, StoredAppointmentSettings};
use osmium::timestamp::UtcTimestamp;

fn at(y: i32, mo: u32, d: u32, h: u32, mi: u32) -> UtcTimestamp {
    let t = Utc.with_ymd_and_hms(y, mo, d, h, mi, 0).unwrap();
    UtcTimestamp::new(t.timestamp(), 0).unwrap()
}

fn lesson(id: &str, template: Option<&str>) -> LessonRow {
    LessonRow {
        id: id.to_string(),
        identifier: format!("L-{id}"),
        performance_indicator_template_id: template.map(str::to_string),
        release_request_on_pass: false,
        instructor_only: id == "instr",
        notify_instructor_on_pass: id != "instr",
    }
}

fn score(criteria: &str, cell: &str) -> RubricScoreRequest {
    RubricScoreRequest { criteria_id: criteria.to_string(), cell_id: cell.to_string() }
}

fn row(lesson: &str, criteria: &str, cell: Option<&str>) -> RubricMembershipRow {
    RubricMembershipRow {
        lesson_id: lesson.to_string(),
        criteria_id: criteria.to_string(),
        cell_id: cell.map(str::to_string),
    }
}

fn trainer(id: &str, description: &str) -> AdditionalTrainerRequest {
    AdditionalTrainerRequest { trainer_id: id.to_string(), description: description.to_string() }
}

fn messages(v: Vec<osmium::handlers::training::ApiMessage>) -> Vec<String> {
    v.into_iter().map(|m| m.message).collect()
}

#[test]
fn lesson_and_rubric_payloads() {
    assert_eq!(validate_training_lesson_payload("S1-01", 0, 60), Ok(()));
    assert_eq!(validate_training_lesson_payload(" ", 0, 60), Err(ApiError::BadRequest));
    assert_eq!(validate_training_lesson_payload("S1", 3, 60), Err(ApiError::BadRequest));
    assert_eq!(validate_training_lesson_payload("S1", 1, 721), Err(ApiError::BadRequest));
    assert_eq!(validate_rubric_criteria_payload("Phraseology", "Uses standard phrases", 5, 3), Ok(()));
    assert_eq!(validate_rubric_criteria_payload("Phraseology", "x", 0, 0), Err(ApiError::BadRequest));
    assert_eq!(validate_rubric_cell_payload("Good", 3, 5), Ok(()));
    assert_eq!(validate_rubric_cell_payload("Good", 6, 5), Err(ApiError::BadRequest));
}

#[test]
fn appointment_payloads() {
    assert_eq!(
        validate_appointment_lesson_ids(&[" a ".to_string(), "b".to_string()]),
        Ok(vec!["a".to_string(), "b".to_string()])
    );
    assert_eq!(validate_appointment_lesson_ids(&[]), Err(ApiError::BadRequest));
    assert_eq!(
        validate_appointment_lesson_ids(&["a".to_string(), " a".to_string()]),
        Err(ApiError::BadRequest)
    );
    assert_eq!(validate_appointment_notes(Some(" ots prep ")), Ok("OTS PREP".to_string()));
    assert_eq!(validate_appointment_notes(None), Ok(String::new()));
    assert_eq!(validate_appointment_notes(Some(&"x".repeat(51))), Err(ApiError::BadRequest));
    let ok = validate_appointment_additional_trainers(&[trainer("t1", "observer")], "me").unwrap();
    assert_eq!(ok.len(), 1);
    assert!(validate_appointment_additional_trainers(&[trainer("me", "x")], "me").is_err());
}

#[test]
fn trainer_shape_messages() {
    let errs = validate_additional_trainer_shapes(
        &[trainer(" ", "x"), trainer("t1", " "), trainer("student", "x"), trainer("t1", "y")],
        &["student", "me"],
    );
    assert_eq!(
        messages(errs),
        vec![
            "You must select an additional trainer.".to_string(),
            "You must provide a description for the additional trainer.".to_string(),
            "You cannot add the student or yourself as an additional trainer.".to_string(),
            "Duplicate additional trainers are not allowed.".to_string(),
        ]
    );
}

fn session(tickets: Vec<TrainingTicketRequest>, minutes: u32) -> UpdateTrainingSessionRequest {
    UpdateTrainingSessionRequest {
        student_id: "student".to_string(),
        start: at(2026, 1, 1, 10, 0),
        end: at(2026, 1, 1, 10, minutes),
        tickets,
        performance_indicator: None,
        additional_trainers: vec![],
    }
}

fn ticket(lesson_id: &str, scores: Vec<RubricScoreRequest>) -> TrainingTicketRequest {
    TrainingTicketRequest { lesson_id: lesson_id.to_string(), passed: true, scores }
}

#[test]
fn session_payload_messages() {
    let lessons = vec![lesson("a", None), lesson("r", None), lesson("p", Some("tpl"))];
    let rules = build_rubric_rules(vec![
        row("r", "c1", Some("x1")),
        row("r", "c1", Some("x2")),
        row("r", "c2", None),
    ]);
    assert_eq!(rules.len(), 1);
    assert_eq!(rules[0].criteria_ids.len(), 2);

    let ok = session(vec![ticket("a", vec![])], 30);
    assert!(validate_training_session_payload(&ok, &lessons, &rules).is_empty());

    let mut bad = session(vec![], 3);
    bad.student_id = " ".to_string();
    assert_eq!(
        messages(validate_training_session_payload(&bad, &lessons, &rules)),
        vec![
            "You must select a student.".to_string(),
            "Session must be between 5 minutes and 12 hours long.".to_string(),
            "You must add at least one training ticket.".to_string(),
        ]
    );

    let unknown = session(vec![ticket("zzz", vec![]), ticket("a", vec![score("c1", "x1")])], 30);
    assert_eq!(
        messages(validate_training_session_payload(&unknown, &lessons, &rules)),
        vec![
            "One or more lessons do not exist.".to_string(),
            "Rubric scores are only allowed for lessons with a rubric.".to_string(),
        ]
    );

    let counts = session(vec![ticket("r", vec![score("c1", "x1")])], 30);
    assert_eq!(
        messages(validate_training_session_payload(&counts, &lessons, &rules)),
        vec!["Rubric-backed lessons require exactly one score per rubric criteria.".to_string()]
    );

    let wrong = session(vec![ticket("r", vec![score("c9", "x1"), score("c1", "x9")])], 30);
    assert_eq!(
        messages(validate_training_session_payload(&wrong, &lessons, &rules)),
        vec![
            "A submitted rubric criteria does not belong to the lesson.".to_string(),
            "A submitted rubric cell does not belong to the specified criteria.".to_string(),
        ]
    );

    let dup = session(vec![ticket("r", vec![score("c1", "x1"), score("c1", "x2")])], 30);
    assert_eq!(
        messages(validate_training_session_payload(&dup, &lessons, &rules)),
        vec!["Duplicate rubric criteria scores are not allowed.".to_string()]
    );

    let mut pi = session(vec![ticket("p", vec![])], 30);
    assert_eq!(
        messages(validate_training_session_payload(&pi, &lessons, &rules)),
        vec!["You must fill out all performance indicators to submit this ticket.".to_string()]
    );
    pi.performance_indicator = Some(PerformanceIndicatorRequest {
        categories: vec![PerformanceIndicatorCategoryRequest {
            criteria: vec![PerformanceIndicatorCriteriaRequest { marker: " satisfactory ".to_string() }],
        }],
    });
    assert!(validate_training_session_payload(&pi, &lessons, &rules).is_empty());
}

#[test]
fn ots_recommendations() {
    let lessons = vec![lesson("a", None), lesson("instr", None), lesson("b", None)];
    assert!(clears_ots_recommendations(&[0, 1], &lessons));
    assert!(!clears_ots_recommendations(&[0, 2], &lessons));
    let old = vec![StoredTicket { lesson_id: "a".to_string(), passed: true }];
    assert_eq!(ots_candidate(&[0, 1, 2], &lessons, &old), Some(2));
    assert_eq!(ots_candidate(&[0, 1], &lessons, &old), None);
    assert_eq!(
        ots_note("S1-OTS", "Jane Trainer", at(2026, 1, 31, 23, 0)),
        "S1-OTS w/ Jane Trainer ON 2026-01-31 23:00Z."
    );
}

#[test]
fn refused_sessions_carry_only_reasons() {
    let r: CreateOrUpdateTrainingSessionResult<(), (), (), ()> =
        error_result(vec![message("Student does not exist.")]);
    assert!(r.session.is_none() && r.release.is_none() && r.ots_recommendation.is_none());
    assert!(r.roster_updates.is_empty());
    assert_eq!(r.errors[0].message, "Student does not exist.");
}

#[test]
fn ticket_lessons_in_ticket_order() {
    let req = session(vec![ticket("l2", vec![]), ticket("l1", vec![]), ticket("l2", vec![])], 30);
    assert_eq!(req.ticket_lesson_ids(), vec!["l2".to_string(), "l1".to_string(), "l2".to_string()]);
    assert!(session(vec![], 30).ticket_lesson_ids().is_empty());
}

#[test]
fn appointment_update_keeps_what_it_omits() {
    let stored = StoredAppointmentSettings {
        double_booking: true,
        preparation_completed: false,
        warning_email_sent: true,
        atc_booking_id: Some("B-1".to_string()),
    };
    let keep = AppointmentSettingsUpdate {
        environment: Some("  live ".to_string()),
        double_booking: None,
        preparation_completed: Some(true),
        warning_email_sent: None,
        atc_booking_id: None,
    };
    let merged = merge_appointment_update(&stored, &keep);
    assert_eq!(merged.environment.as_deref(), Some("live"));
    assert!(merged.double_booking && merged.preparation_completed && merged.warning_email_sent);
    assert_eq!(merged.atc_booking_id.as_deref(), Some("B-1"));
    let clear = AppointmentSettingsUpdate {
        environment: Some("   ".to_string()),
        double_booking: Some(false),
        preparation_completed: None,
        warning_email_sent: Some(false),
        atc_booking_id: Some(Some("  ".to_string())),
    };
    let merged = merge_appointment_update(&stored, &clear);
    assert_eq!(merged.environment, None);
    assert!(!merged.double_booking && !merged.preparation_completed && !merged.warning_email_sent);
    assert_eq!(merged.atc_booking_id, None);
    let replace = AppointmentSettingsUpdate {
        environment: None,
        double_booking: None,
        preparation_completed: None,
        warning_email_sent: None,
        atc_booking_id: Some(Some(" B-2 ".to_string())),
    };
    assert_eq!(merge_appointment_update(&stored, &replace).atc_booking_id.as_deref(), Some("B-2"));
}

#[test]
fn session_saves_refused_or_answered() {
    let lessons = vec![lesson("a", None)];
    let rules = build_rubric_rules(vec![]);
    let ok = session(vec![ticket("a", vec![])], 30);
    assert!(session_save_refusal(&ok, &lessons, &rules, "student", "me").is_empty());
    let mut bad = session(vec![ticket("a", vec![])], 3);
    bad.additional_trainers = vec![trainer("me", "watching")];
    assert_eq!(
        messages(session_save_refusal(&bad, &lessons, &rules, "student", "me")),
        vec![
            "Session must be between 5 minutes and 12 hours long.".to_string(),
            "You cannot add the student or yourself as an additional trainer.".to_string(),
        ]
    );
    let refused: Result<CreateOrUpdateTrainingSessionResult<(), (), (), ()>, _> =
        Err(vec![message("Student does not exist.")]);
    let (status, body) = session_save_answer(refused, false);
    assert_eq!(status, 400);
    assert_eq!(body.errors[0].message, "Student does not exist.");
    let saved: Result<CreateOrUpdateTrainingSessionResult<u8, (), (), ()>, Vec<_>> = Ok(CreateOrUpdateTrainingSessionResult {
        session: Some(1),
        release: None,
        roster_updates: vec![],
        ots_recommendation: None,
        errors: vec![],
    });
    let (status, body) = session_save_answer(saved, true);
    assert_eq!((status, body.session), (201, Some(1)));
}
