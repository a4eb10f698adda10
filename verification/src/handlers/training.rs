//! Training: checks on lessons, rubrics, appointments and session tickets, and the
//! search patterns of the training lists.
use vstd::prelude::*;

use crate::error::ApiError;
use crate::timestamp::{elapsed, minutes_between, span_minutes, UtcTimestamp};
use crate::text::{
    clone_opt, concat2, concat3, contains_str, opt_str_view, opt_view, owned, str_eq, to_ascii_uppercase,
    trim, trimmed, upper, views_of,
};

verus! {

/// A message returned to the client about a refused request.
#[derive(Debug)]
pub struct ApiMessage {
    pub message: String,
}

/// Wraps a text as a message.
pub fn message(text: &str) -> (r: ApiMessage)
    ensures
        r.message@ == text@,
{
    ApiMessage { message: owned(text) }
}

pub open spec fn messages_of(v: Seq<ApiMessage>) -> Seq<Seq<char>> {
    v.map_values(|m: ApiMessage| m.message@)
}

// ---------------------------------------------------------------------------
// Lessons and rubrics
// ---------------------------------------------------------------------------

/// Checks a lesson: an identifier, a location from 0 to 2, and a length from 10
/// minutes to 12 hours.
pub fn validate_training_lesson_payload(identifier: &str, location: i32, duration: i32) -> (r:
    Result<(), ApiError>)
    ensures
        r is Ok <==> (trimmed(identifier@).len() > 0 && 0 <= location <= 2 && 10 <= duration
            <= 720),
        r matches Err(e) ==> e == ApiError::BadRequest,
{
    if trim(identifier).unicode_len() == 0 || location < 0 || location > 2 || duration < 10
        || duration > 12 * 60 {
        return Err(ApiError::BadRequest);
    }
    Ok(())
}

/// Checks a rubric criteria: a name of at most 255 characters, a description, at least
/// one point, and a passing score that is not negative.
pub fn validate_rubric_criteria_payload(
    criteria: &str,
    description: &str,
    max_points: i32,
    passing: i32,
) -> (r: Result<(), ApiError>)
    ensures
        r is Ok <==> (0 < trimmed(criteria@).len() <= 255 && trimmed(description@).len() > 0
            && max_points >= 1 && passing >= 0),
        r matches Err(e) ==> e == ApiError::BadRequest,
{
    let name = trim(criteria);
    if name.unicode_len() == 0 || name.unicode_len() > 255 || trim(description).unicode_len() == 0
        || max_points < 1 || passing < 0 {
        return Err(ApiError::BadRequest);
    }
    Ok(())
}

/// Checks a rubric cell: a description of at most 255 characters and a score from zero
/// up to the criteria's maximum.
pub fn validate_rubric_cell_payload(description: &str, points: i32, criteria_max_points: i32) -> (r:
    Result<(), ApiError>)
    ensures
        r is Ok <==> (0 < trimmed(description@).len() <= 255 && 0 <= points
            <= criteria_max_points),
        r matches Err(e) ==> e == ApiError::BadRequest,
{
    let text = trim(description);
    if text.unicode_len() == 0 || text.unicode_len() > 255 || points < 0 || points
        > criteria_max_points {
        return Err(ApiError::BadRequest);
    }
    Ok(())
}

// ---------------------------------------------------------------------------
// Appointments
// ---------------------------------------------------------------------------

pub open spec fn trimmed_all(v: Seq<Seq<char>>) -> Seq<Seq<char>> {
    v.map_values(|s: Seq<char>| trimmed(s))
}

/// Checks the lessons of an appointment: at least one, none blank, none twice (after
/// trimming); gives them trimmed.
pub fn validate_appointment_lesson_ids(lesson_ids: &[String]) -> (r: Result<Vec<String>, ApiError>)
    ensures
        match r {
            Ok(v) => views_of(v@) == trimmed_all(views_of(lesson_ids@)),
            Err(e) => e == ApiError::BadRequest,
        },
        r is Ok <==> (lesson_ids@.len() > 0 && (forall|k: int|
            0 <= k < lesson_ids@.len() ==> trimmed(#[trigger] lesson_ids@[k]@).len() > 0)
            && trimmed_all(views_of(lesson_ids@)).no_duplicates()),
{
    let ghost input = views_of(lesson_ids@);
    let ghost target = trimmed_all(input);
    if lesson_ids.len() == 0 {
        return Err(ApiError::BadRequest);
    }
    let mut normalized: Vec<String> = Vec::new();
    let mut i: usize = 0;
    while i < lesson_ids.len()
        invariant
            i <= lesson_ids@.len(),
            input == views_of(lesson_ids@),
            target == trimmed_all(input),
            views_of(normalized@) == target.subrange(0, i as int),
            target.subrange(0, i as int).no_duplicates(),
            forall|k: int| 0 <= k < i ==> trimmed(#[trigger] lesson_ids@[k]@).len() > 0,
        decreases lesson_ids@.len() - i,
    {
        let lesson_id = trim(lesson_ids[i].as_str());
        assert(target[i as int] == lesson_id@);
        if lesson_id.unicode_len() == 0 {
            return Err(ApiError::BadRequest);
        }
        if contains_str(&normalized, lesson_id) {
            proof {
                let k = choose|k: int| 0 <= k < i && views_of(normalized@)[k] == lesson_id@;
                assert(target[k] == target[i as int]);
            }
            return Err(ApiError::BadRequest);
        }
        let ghost prev_view = views_of(normalized@);
        normalized.push(owned(lesson_id));
        assert(views_of(normalized@) =~= prev_view.push(lesson_id@));
        assert(target.subrange(0, i + 1) =~= target.subrange(0, i as int).push(target[i as int]));
        i = i + 1;
    }
    assert(target.subrange(0, lesson_ids@.len() as int) =~= target);
    Ok(normalized)
}

/// The notes of an appointment: trimmed, upper-cased, at most 50 characters.
pub fn validate_appointment_notes(notes: Option<&str>) -> (r: Result<String, ApiError>)
    ensures
        ({
            let text = match notes {
                Some(n) => n@,
                None => Seq::<char>::empty(),
            };
            match r {
                Ok(s) => s@ == upper(trimmed(text)) && s@.len() <= 50,
                Err(e) => e == ApiError::BadRequest && upper(trimmed(text)).len() > 50,
            }
        }),
{
    let raw = match notes {
        Some(n) => n,
        None => "",
    };
    proof {
        reveal_strlit("");
    }
    let normalized = to_ascii_uppercase(trim(raw));
    if normalized.unicode_len() > 50 {
        return Err(ApiError::BadRequest);
    }
    Ok(normalized)
}

/// Another trainer taking part in an appointment or session.
#[derive(Debug)]
pub struct AdditionalTrainerRequest {
    pub trainer_id: String,
    pub description: String,
}

pub open spec fn msg_select_trainer() -> Seq<char> {
    "You must select an additional trainer."@
}

pub open spec fn msg_trainer_description() -> Seq<char> {
    "You must provide a description for the additional trainer."@
}

pub open spec fn msg_trainer_forbidden() -> Seq<char> {
    "You cannot add the student or yourself as an additional trainer."@
}

pub open spec fn msg_trainer_duplicate() -> Seq<char> {
    "Duplicate additional trainers are not allowed."@
}

/// Whether an earlier trainer has the same (trimmed) identifier.
pub open spec fn trainer_seen_before(prev: Seq<AdditionalTrainerRequest>, id: Seq<char>) -> bool {
    exists|k: int| 0 <= k < prev.len() && trimmed(#[trigger] prev[k].trainer_id@) == id
}

/// The problems with one additional trainer, given the trainers listed before it.
pub open spec fn trainer_problems(
    t: AdditionalTrainerRequest,
    prev: Seq<AdditionalTrainerRequest>,
    forbidden: Seq<Seq<char>>,
) -> Seq<Seq<char>> {
    let id = trimmed(t.trainer_id@);
    if id.len() == 0 {
        seq![msg_select_trainer()]
    } else {
        (if trimmed(t.description@).len() == 0 {
            seq![msg_trainer_description()]
        } else {
            Seq::empty()
        }) + (if forbidden.contains(id) {
            seq![msg_trainer_forbidden()]
        } else {
            Seq::empty()
        }) + (if trainer_seen_before(prev, id) {
            seq![msg_trainer_duplicate()]
        } else {
            Seq::empty()
        })
    }
}

/// The problems with a list of additional trainers, trainer by trainer.
pub open spec fn trainer_shape_errors(
    ts: Seq<AdditionalTrainerRequest>,
    forbidden: Seq<Seq<char>>,
) -> Seq<Seq<char>>
    decreases ts.len(),
{
    if ts.len() == 0 {
        Seq::empty()
    } else {
        trainer_shape_errors(ts.drop_last(), forbidden) + trainer_problems(
            ts.last(),
            ts.drop_last(),
            forbidden,
        )
    }
}

pub open spec fn str_views(v: Seq<&str>) -> Seq<Seq<char>> {
    v.map_values(|s: &str| s@)
}

fn str_slice_contains(v: &[&str], s: &str) -> (r: bool)
    ensures
        r == str_views(v@).contains(s@),
{
    let mut i: usize = 0;
    while i < v.len()
        invariant
            i <= v@.len(),
            forall|k: int| 0 <= k < i ==> v@[k]@ != s@,
        decreases v@.len() - i,
    {
        if str_eq(v[i], s) {
            assert(str_views(v@)[i as int] == s@);
            return true;
        }
        i = i + 1;
    }
    assert forall|k: int| 0 <= k < str_views(v@).len() implies str_views(v@)[k] != s@ by {
        assert(str_views(v@)[k] == v@[k]@);
    }
    false
}

/// Checks the additional trainers of a session or appointment: each needs an identifier
/// and a description, may be neither of the `forbidden_ids`, and may appear only once.
pub fn validate_additional_trainer_shapes(
    additional_trainers: &[AdditionalTrainerRequest],
    forbidden_ids: &[&str],
) -> (r: Vec<ApiMessage>)
    ensures
        messages_of(r@) == trainer_shape_errors(additional_trainers@, str_views(forbidden_ids@)),
{
    let ghost forbidden = str_views(forbidden_ids@);
    let mut errors: Vec<ApiMessage> = Vec::new();
    let mut seen: Vec<String> = Vec::new();
    let mut i: usize = 0;
    while i < additional_trainers.len()
        invariant
            i <= additional_trainers@.len(),
            forbidden == str_views(forbidden_ids@),
            messages_of(errors@) == trainer_shape_errors(
                additional_trainers@.subrange(0, i as int),
                forbidden,
            ),
            forall|id: Seq<char>|
                id.len() > 0 ==> (#[trigger] views_of(seen@).contains(id) <==> trainer_seen_before(
                    additional_trainers@.subrange(0, i as int),
                    id,
                )),
        decreases additional_trainers@.len() - i,
    {
        let trainer = &additional_trainers[i];
        let ghost prev = additional_trainers@.subrange(0, i as int);
        let ghost next = additional_trainers@.subrange(0, i + 1);
        let ghost before = messages_of(errors@);
        let ghost old_seen = views_of(seen@);
        assert(next.drop_last() =~= prev);
        assert(next.last() == *trainer);
        let trainer_id = trim(trainer.trainer_id.as_str());
        if trainer_id.unicode_len() == 0 {
            errors.push(message("You must select an additional trainer."));
            assert(messages_of(errors@) =~= before + seq![msg_select_trainer()]);
            assert forall|id: Seq<char>| id.len() > 0 implies (#[trigger] views_of(
                seen@,
            ).contains(id) <==> trainer_seen_before(next, id)) by {
                if trainer_seen_before(next, id) {
                    let k = choose|k: int| 0 <= k < next.len() && trimmed(#[trigger] next[k].trainer_id@) == id;
                    if k < prev.len() {
                        assert(prev[k] == next[k]);
                    } else {
                        assert(next[k] == *trainer);
                    }
                }
                if trainer_seen_before(prev, id) {
                    let k = choose|k: int| 0 <= k < prev.len() && trimmed(#[trigger] prev[k].trainer_id@) == id;
                    assert(next[k] == prev[k]);
                }
            }
        } else {
            let ghost e1 = if trimmed(trainer.description@).len() == 0 {
                seq![msg_trainer_description()]
            } else {
                Seq::<Seq<char>>::empty()
            };
            let ghost e2 = if forbidden.contains(trainer_id@) {
                seq![msg_trainer_forbidden()]
            } else {
                Seq::<Seq<char>>::empty()
            };
            let ghost e3 = if trainer_seen_before(prev, trainer_id@) {
                seq![msg_trainer_duplicate()]
            } else {
                Seq::<Seq<char>>::empty()
            };
            if trim(trainer.description.as_str()).unicode_len() == 0 {
                errors.push(message("You must provide a description for the additional trainer."));
            }
            assert(messages_of(errors@) =~= before + e1);
            if str_slice_contains(forbidden_ids, trainer_id) {
                errors.push(
                    message("You cannot add the student or yourself as an additional trainer."),
                );
            }
            assert(messages_of(errors@) =~= before + e1 + e2);
            if contains_str(&seen, trainer_id) {
                errors.push(message("Duplicate additional trainers are not allowed."));
            } else {
                seen.push(owned(trainer_id));
                assert(views_of(seen@) =~= old_seen.push(trainer_id@));
            }
            assert(views_of(seen@) == old_seen || views_of(seen@) == old_seen.push(trainer_id@));
            assert(messages_of(errors@) =~= before + e1 + e2 + e3);
            assert(trainer_problems(*trainer, prev, forbidden) =~= e1 + e2 + e3);
            assert forall|id: Seq<char>| id.len() > 0 implies (#[trigger] views_of(
                seen@,
            ).contains(id) <==> trainer_seen_before(next, id)) by {
                if trainer_seen_before(next, id) {
                    let k = choose|k: int| 0 <= k < next.len() && trimmed(#[trigger] next[k].trainer_id@) == id;
                    if k < prev.len() {
                        assert(prev[k] == next[k]);
                    } else {
                        assert(next[k] == *trainer);
                        assert(id == trainer_id@);
                        if views_of(seen@) == old_seen.push(trainer_id@) {
                            assert(views_of(seen@)[old_seen.len() as int] == id);
                        }
                    }
                }
                if trainer_seen_before(prev, id) {
                    let k = choose|k: int| 0 <= k < prev.len() && trimmed(#[trigger] prev[k].trainer_id@) == id;
                    assert(next[k] == prev[k]);
                    assert(old_seen.contains(id));
                    if views_of(seen@) == old_seen.push(trainer_id@) {
                        let j = choose|j: int| 0 <= j < old_seen.len() && old_seen[j] == id;
                        assert(views_of(seen@)[j] == id);
                    }
                }
                if views_of(seen@).contains(id) && !trainer_seen_before(prev, id) {
                    assert(!old_seen.contains(id));
                    if views_of(seen@) == old_seen.push(trainer_id@) {
                        let j = choose|j: int| 0 <= j < views_of(seen@).len() && views_of(seen@)[j] == id;
                        if j < old_seen.len() {
                            assert(old_seen[j] == id);
                        }
                    }
                    assert(id == trainer_id@);
                    assert(next[i as int] == *trainer);
                    assert(trimmed(next[i as int].trainer_id@) == id);
                }
            }
        }
        i = i + 1;
    }
    assert(additional_trainers@.subrange(0, additional_trainers@.len() as int)
        =~= additional_trainers@);
    errors
}

/// Checks the additional trainers of an appointment (the trainer running it may not be
/// one of them) and gives them with trimmed identifiers and upper-cased descriptions.
pub fn validate_appointment_additional_trainers(
    additional_trainers: &[AdditionalTrainerRequest],
    forbidden_trainer_id: &str,
) -> (r: Result<Vec<AdditionalTrainerRequest>, ApiError>)
    ensures
        trainer_shape_errors(additional_trainers@, seq![forbidden_trainer_id@]).len() > 0 ==> r
            == Err::<Vec<AdditionalTrainerRequest>, ApiError>(ApiError::BadRequest),
        trainer_shape_errors(additional_trainers@, seq![forbidden_trainer_id@]).len() == 0 ==> (r
            matches Ok(v) && v@.len() == additional_trainers@.len() && forall|k: int|
            0 <= k < v@.len() ==> (#[trigger] v@[k]).trainer_id@ == trimmed(
                additional_trainers@[k].trainer_id@,
            ) && v@[k].description@ == upper(trimmed(additional_trainers@[k].description@))),
{
    let mut forbidden: Vec<&str> = Vec::new();
    forbidden.push(forbidden_trainer_id);
    assert(str_views(forbidden@) =~= seq![forbidden_trainer_id@]);
    let errors = validate_additional_trainer_shapes(additional_trainers, forbidden.as_slice());
    if errors.len() > 0 {
        return Err(ApiError::BadRequest);
    }
    let mut out: Vec<AdditionalTrainerRequest> = Vec::new();
    let mut i: usize = 0;
    while i < additional_trainers.len()
        invariant
            i <= additional_trainers@.len(),
            out@.len() == i,
            forall|k: int|
                0 <= k < i ==> (#[trigger] out@[k]).trainer_id@ == trimmed(
                    additional_trainers@[k].trainer_id@,
                ) && out@[k].description@ == upper(trimmed(additional_trainers@[k].description@)),
        decreases additional_trainers@.len() - i,
    {
        let trainer = &additional_trainers[i];
        out.push(
            AdditionalTrainerRequest {
                trainer_id: owned(trim(trainer.trainer_id.as_str())),
                description: to_ascii_uppercase(trim(trainer.description.as_str())),
            },
        );
        i = i + 1;
    }
    Ok(out)
}

/// An optional text as stored: trimmed, and none when blank.
pub fn normalize_optional_text(value: Option<&str>) -> (r: Option<String>)
    ensures
        opt_view(r) == crate::text::optional_text(opt_str_view(value)),
{
    match value {
        Some(item) => {
            let t = trim(item);
            if t.unicode_len() == 0 {
                None
            } else {
                Some(owned(t))
            }
        },
        None => None,
    }
}

/// The stored settings of a training appointment that an update may leave as they are.
#[derive(Debug)]
pub struct StoredAppointmentSettings {
    pub double_booking: bool,
    pub preparation_completed: bool,
    pub warning_email_sent: bool,
    pub atc_booking_id: Option<String>,
}

/// The settings an appointment update carries: the environment always, the flags when
/// given, and the ATC booking when given (a blank one clears it).
#[derive(Debug)]
pub struct AppointmentSettingsUpdate {
    pub environment: Option<String>,
    pub double_booking: Option<bool>,
    pub preparation_completed: Option<bool>,
    pub warning_email_sent: Option<bool>,
    pub atc_booking_id: Option<Option<String>>,
}

/// The settings an appointment is stored with after an update.
#[derive(Debug)]
pub struct AppointmentSettings {
    pub environment: Option<String>,
    pub double_booking: bool,
    pub preparation_completed: bool,
    pub warning_email_sent: bool,
    pub atc_booking_id: Option<String>,
}

/// Merges an appointment update into the stored settings: the environment is the
/// update's, trimmed and none when blank; each flag is the update's when given, else the
/// stored one; the ATC booking is the update's (trimmed, none when blank) when given,
/// else the stored one.
pub fn merge_appointment_update(existing: &StoredAppointmentSettings, update: &AppointmentSettingsUpdate) -> (r: AppointmentSettings)
    ensures
        opt_view(r.environment) == crate::text::optional_text(opt_view(update.environment)),
        r.double_booking == match update.double_booking {
            Some(b) => b,
            None => existing.double_booking,
        },
        r.preparation_completed == match update.preparation_completed {
            Some(b) => b,
            None => existing.preparation_completed,
        },
        r.warning_email_sent == match update.warning_email_sent {
            Some(b) => b,
            None => existing.warning_email_sent,
        },
        opt_view(r.atc_booking_id) == match update.atc_booking_id {
            Some(v) => crate::text::optional_text(opt_view(v)),
            None => opt_view(existing.atc_booking_id),
        },
{
    let environment = match &update.environment {
        Some(e) => normalize_optional_text(Some(e.as_str())),
        None => None,
    };
    let double_booking = match update.double_booking {
        Some(b) => b,
        None => existing.double_booking,
    };
    let preparation_completed = match update.preparation_completed {
        Some(b) => b,
        None => existing.preparation_completed,
    };
    let warning_email_sent = match update.warning_email_sent {
        Some(b) => b,
        None => existing.warning_email_sent,
    };
    let atc_booking_id = match &update.atc_booking_id {
        Some(Some(v)) => normalize_optional_text(Some(v.as_str())),
        Some(None) => None,
        None => clone_opt(&existing.atc_booking_id),
    };
    AppointmentSettings { environment, double_booking, preparation_completed, warning_email_sent, atc_booking_id }
}

// ---------------------------------------------------------------------------
// List filters
// ---------------------------------------------------------------------------

/// Whether a list filter matches a value exactly or as a pattern.
#[derive(Debug, Clone, Copy, PartialEq, Eq, Structural)]
pub enum FilterMode {
    Exact,
    Pattern,
}

/// The mode of a filter operator: `equals` and `=` match exactly, all others by pattern.
pub fn normalize_filter_mode(operator: &str) -> (r: FilterMode)
    ensures
        r == if operator@ == "equals"@ || operator@ == "="@ {
            FilterMode::Exact
        } else {
            FilterMode::Pattern
        },
{
    if str_eq(operator, "equals") || str_eq(operator, "=") {
        FilterMode::Exact
    } else {
        FilterMode::Pattern
    }
}

/// The SQL `LIKE` pattern of a filter: a prefix, suffix or exact match for the operators
/// that ask for one, a substring match otherwise.
pub open spec fn filter_pattern(operator: Seq<char>, value: Seq<char>) -> Seq<char> {
    if operator == "startsWith"@ || operator == "starts_with"@ {
        value + "%"@
    } else if operator == "endsWith"@ || operator == "ends_with"@ {
        "%"@ + value
    } else if operator == "equals"@ || operator == "="@ {
        value
    } else {
        "%"@ + value + "%"@
    }
}

/// Builds the SQL `LIKE` pattern of a filter.
pub fn build_filter_pattern(operator: &str, value: &str) -> (r: String)
    ensures
        r@ == filter_pattern(operator@, value@),
{
    if str_eq(operator, "startsWith") || str_eq(operator, "starts_with") {
        concat2(value, "%")
    } else if str_eq(operator, "endsWith") || str_eq(operator, "ends_with") {
        concat2("%", value)
    } else if str_eq(operator, "equals") || str_eq(operator, "=") {
        owned(value)
    } else {
        concat3("%", value, "%")
    }
}

// ---------------------------------------------------------------------------
// Training sessions
// ---------------------------------------------------------------------------

/// A lesson as a session ticket refers to it.
#[derive(Debug)]
pub struct LessonRow {
    pub id: String,
    pub identifier: String,
    pub performance_indicator_template_id: Option<String>,
    pub release_request_on_pass: bool,
    pub instructor_only: bool,
    pub notify_instructor_on_pass: bool,
}

/// A rubric cell: the criteria it belongs to and its own identifier.
#[derive(Debug)]
pub struct RubricCell {
    pub criteria_id: String,
    pub cell_id: String,
}

/// The rubric of one lesson: its criteria, and the cells of each criteria.
#[derive(Debug)]
pub struct RubricRule {
    pub lesson_id: String,
    pub criteria_ids: Vec<String>,
    pub cells_by_criteria: Vec<RubricCell>,
}

/// A score given on a ticket: the rubric criteria and the chosen cell.
#[derive(Debug)]
pub struct RubricScoreRequest {
    pub criteria_id: String,
    pub cell_id: String,
}

/// One ticket of a session: the lesson, whether it was passed, and the rubric scores.
#[derive(Debug)]
pub struct TrainingTicketRequest {
    pub lesson_id: String,
    pub passed: bool,
    pub scores: Vec<RubricScoreRequest>,
}

/// One marked performance indicator.
#[derive(Debug)]
pub struct PerformanceIndicatorCriteriaRequest {
    pub marker: String,
}

/// A category of performance indicators.
#[derive(Debug)]
pub struct PerformanceIndicatorCategoryRequest {
    pub criteria: Vec<PerformanceIndicatorCriteriaRequest>,
}

/// The performance indicators filled in for a session.
#[derive(Debug)]
pub struct PerformanceIndicatorRequest {
    pub categories: Vec<PerformanceIndicatorCategoryRequest>,
}

/// The parts of a session that its checks read.
#[derive(Debug)]
pub struct UpdateTrainingSessionRequest {
    pub student_id: String,
    pub start: UtcTimestamp,
    pub end: UtcTimestamp,
    pub tickets: Vec<TrainingTicketRequest>,
    pub performance_indicator: Option<PerformanceIndicatorRequest>,
    pub additional_trainers: Vec<AdditionalTrainerRequest>,
}

impl UpdateTrainingSessionRequest {
    /// The lesson of each ticket, in ticket order.
    pub fn ticket_lesson_ids(&self) -> (r: Vec<String>)
        ensures
            r@.len() == self.tickets@.len(),
            forall|k: int| 0 <= k < r@.len() ==> #[trigger] r@[k]@ == self.tickets@[k].lesson_id@,
    {
        let mut out: Vec<String> = Vec::new();
        let mut i: usize = 0;
        while i < self.tickets.len()
            invariant
                i <= self.tickets@.len(),
                out@.len() == i,
                forall|k: int| 0 <= k < i ==> #[trigger] out@[k]@ == self.tickets@[k].lesson_id@,
            decreases self.tickets@.len() - i,
        {
            out.push(self.tickets[i].lesson_id.clone());
            i = i + 1;
        }
        out
    }
}

pub open spec fn msg_student() -> Seq<char> {
    "You must select a student."@
}

pub open spec fn msg_duration() -> Seq<char> {
    "Session must be between 5 minutes and 12 hours long."@
}

pub open spec fn msg_no_tickets() -> Seq<char> {
    "You must add at least one training ticket."@
}

pub open spec fn msg_lesson_missing() -> Seq<char> {
    "One or more lessons do not exist."@
}

pub open spec fn msg_scores_without_rubric() -> Seq<char> {
    "Rubric scores are only allowed for lessons with a rubric."@
}

pub open spec fn msg_score_count() -> Seq<char> {
    "Rubric-backed lessons require exactly one score per rubric criteria."@
}

pub open spec fn msg_foreign_criteria() -> Seq<char> {
    "A submitted rubric criteria does not belong to the lesson."@
}

pub open spec fn msg_duplicate_criteria() -> Seq<char> {
    "Duplicate rubric criteria scores are not allowed."@
}

pub open spec fn msg_foreign_cell() -> Seq<char> {
    "A submitted rubric cell does not belong to the specified criteria."@
}

pub open spec fn msg_pi_required() -> Seq<char> {
    "You must fill out all performance indicators to submit this ticket."@
}

pub open spec fn msg_pi_not_allowed() -> Seq<char> {
    "Performance indicators are not allowed for the first lesson in this session."@
}

/// The position of the last lesson with the given identifier.
pub open spec fn lesson_index(lessons: Seq<LessonRow>, id: Seq<char>) -> Option<int>
    decreases lessons.len(),
{
    if lessons.len() == 0 {
        None
    } else if lessons.last().id@ == id {
        Some(lessons.len() - 1)
    } else {
        lesson_index(lessons.drop_last(), id)
    }
}

/// The position of the last rubric of the given lesson.
pub open spec fn rule_index(rules: Seq<RubricRule>, lesson_id: Seq<char>) -> Option<int>
    decreases rules.len(),
{
    if rules.len() == 0 {
        None
    } else if rules.last().lesson_id@ == lesson_id {
        Some(rules.len() - 1)
    } else {
        rule_index(rules.drop_last(), lesson_id)
    }
}

proof fn lemma_lesson_index_bounds(lessons: Seq<LessonRow>, id: Seq<char>)
    ensures
        lesson_index(lessons, id) matches Some(k) ==> 0 <= k < lessons.len() && lessons[k].id@
            == id,
    decreases lessons.len(),
{
    if lessons.len() > 0 && lessons.last().id@ != id {
        lemma_lesson_index_bounds(lessons.drop_last(), id);
    }
}

proof fn lemma_rule_index_bounds(rules: Seq<RubricRule>, id: Seq<char>)
    ensures
        rule_index(rules, id) matches Some(k) ==> 0 <= k < rules.len() && rules[k].lesson_id@
            == id,
    decreases rules.len(),
{
    if rules.len() > 0 && rules.last().lesson_id@ != id {
        lemma_rule_index_bounds(rules.drop_last(), id);
    }
}

/// Finds the last lesson with the given identifier.
fn find_lesson(lessons: &[LessonRow], id: &str) -> (r: Option<usize>)
    ensures
        match r {
            Some(k) => lesson_index(lessons@, id@) == Some(k as int),
            None => lesson_index(lessons@, id@) is None,
        },
{
    let mut found: Option<usize> = None;
    let mut i: usize = 0;
    while i < lessons.len()
        invariant
            i <= lessons@.len(),
            match found {
                Some(k) => lesson_index(lessons@.subrange(0, i as int), id@) == Some(k as int),
                None => lesson_index(lessons@.subrange(0, i as int), id@) is None,
            },
        decreases lessons@.len() - i,
    {
        assert(lessons@.subrange(0, i + 1).drop_last() =~= lessons@.subrange(0, i as int));
        if str_eq(lessons[i].id.as_str(), id) {
            found = Some(i);
        }
        i = i + 1;
    }
    assert(lessons@.subrange(0, lessons@.len() as int) =~= lessons@);
    found
}

/// Finds the last rubric of the given lesson.
fn find_rule(rules: &[RubricRule], lesson_id: &str) -> (r: Option<usize>)
    ensures
        match r {
            Some(k) => rule_index(rules@, lesson_id@) == Some(k as int),
            None => rule_index(rules@, lesson_id@) is None,
        },
{
    let mut found: Option<usize> = None;
    let mut i: usize = 0;
    while i < rules.len()
        invariant
            i <= rules@.len(),
            match found {
                Some(k) => rule_index(rules@.subrange(0, i as int), lesson_id@) == Some(k as int),
                None => rule_index(rules@.subrange(0, i as int), lesson_id@) is None,
            },
        decreases rules@.len() - i,
    {
        assert(rules@.subrange(0, i + 1).drop_last() =~= rules@.subrange(0, i as int));
        if str_eq(rules[i].lesson_id.as_str(), lesson_id) {
            found = Some(i);
        }
        i = i + 1;
    }
    assert(rules@.subrange(0, rules@.len() as int) =~= rules@);
    found
}

pub open spec fn cells_view(v: Seq<RubricCell>) -> Seq<(Seq<char>, Seq<char>)> {
    v.map_values(|c: RubricCell| (c.criteria_id@, c.cell_id@))
}

/// Whether a rubric has a cell with the given identifier under the given criteria.
fn rule_has_cell(rule: &RubricRule, criteria_id: &str, cell_id: &str) -> (r: bool)
    ensures
        r == cells_view(rule.cells_by_criteria@).contains((criteria_id@, cell_id@)),
{
    let cells = &rule.cells_by_criteria;
    let mut i: usize = 0;
    while i < cells.len()
        invariant
            i <= cells@.len(),
            cells == &rule.cells_by_criteria,
            forall|k: int| 0 <= k < i ==> cells_view(cells@)[k] != (criteria_id@, cell_id@),
        decreases cells@.len() - i,
    {
        if str_eq(cells[i].criteria_id.as_str(), criteria_id) && str_eq(
            cells[i].cell_id.as_str(),
            cell_id,
        ) {
            assert(cells_view(cells@)[i as int] == (criteria_id@, cell_id@));
            return true;
        }
        i = i + 1;
    }
    false
}

pub open spec fn score_views(v: Seq<RubricScoreRequest>) -> Seq<(Seq<char>, Seq<char>)> {
    v.map_values(|s: RubricScoreRequest| (s.criteria_id@, s.cell_id@))
}

/// The criteria of the earlier scores that belong to the rubric.
pub open spec fn seen_criteria(prev: Seq<(Seq<char>, Seq<char>)>, rule: RubricRule) -> Seq<Seq<char>>
    decreases prev.len(),
{
    if prev.len() == 0 {
        Seq::empty()
    } else {
        let p = seen_criteria(prev.drop_last(), rule);
        if views_of(rule.criteria_ids@).contains(prev.last().0) {
            p.push(prev.last().0)
        } else {
            p
        }
    }
}

/// The problems with one score, given the scores before it on the ticket.
pub open spec fn score_problems(
    score: (Seq<char>, Seq<char>),
    prev: Seq<(Seq<char>, Seq<char>)>,
    rule: RubricRule,
) -> Seq<Seq<char>> {
    if !views_of(rule.criteria_ids@).contains(score.0) {
        seq![msg_foreign_criteria()]
    } else if seen_criteria(prev, rule).contains(score.0) {
        seq![msg_duplicate_criteria()]
    } else if !cells_view(rule.cells_by_criteria@).contains(score) {
        seq![msg_foreign_cell()]
    } else {
        Seq::empty()
    }
}

/// The problems with the scores of a ticket, score by score.
pub open spec fn score_errors(scores: Seq<(Seq<char>, Seq<char>)>, rule: RubricRule) -> Seq<Seq<char>>
    decreases scores.len(),
{
    if scores.len() == 0 {
        Seq::empty()
    } else {
        score_errors(scores.drop_last(), rule) + score_problems(
            scores.last(),
            scores.drop_last(),
            rule,
        )
    }
}

/// The problems with one ticket: an unknown lesson; scores for a lesson without a
/// rubric; a number of scores other than the number of criteria; or problems with the
/// scores themselves.
pub open spec fn ticket_problems(
    ticket: TrainingTicketRequest,
    lessons: Seq<LessonRow>,
    rules: Seq<RubricRule>,
) -> Seq<Seq<char>> {
    match lesson_index(lessons, ticket.lesson_id@) {
        None => seq![msg_lesson_missing()],
        Some(li) => match rule_index(rules, lessons[li].id@) {
            None => if ticket.scores@.len() > 0 {
                seq![msg_scores_without_rubric()]
            } else {
                Seq::empty()
            },
            Some(ri) => if ticket.scores@.len() != rules[ri].criteria_ids@.len() {
                seq![msg_score_count()]
            } else {
                score_errors(score_views(ticket.scores@), rules[ri])
            },
        },
    }
}

/// The problems with the tickets, ticket by ticket.
pub open spec fn ticket_errors(
    tickets: Seq<TrainingTicketRequest>,
    lessons: Seq<LessonRow>,
    rules: Seq<RubricRule>,
) -> Seq<Seq<char>>
    decreases tickets.len(),
{
    if tickets.len() == 0 {
        Seq::empty()
    } else {
        ticket_errors(tickets.drop_last(), lessons, rules) + ticket_problems(
            tickets.last(),
            lessons,
            rules,
        )
    }
}

/// The markers a performance indicator may carry.
pub open spec fn valid_pi_marker(m: Seq<char>) -> bool {
    m.len() > 0 && (m == "OBSERVED"@ || m == "NOT_OBSERVED"@ || m == "SATISFACTORY"@ || m
        == "NEEDS_IMPROVEMENT"@ || m == "UNSATISFACTORY"@)
}

/// Whether every performance indicator carries a valid marker (after trimming and
/// upper-casing).
pub open spec fn markers_complete(indicator: PerformanceIndicatorRequest) -> bool {
    forall|c: int, k: int|
        0 <= c < indicator.categories@.len() && 0 <= k
            < indicator.categories@[c].criteria@.len() ==> valid_pi_marker(
            upper(trimmed(#[trigger] indicator.categories@[c].criteria@[k].marker@)),
        )
}

/// The problems with the performance indicators, which the first ticket's lesson asks
/// for or forbids.
pub open spec fn indicator_errors(p: UpdateTrainingSessionRequest, lessons: Seq<LessonRow>) -> Seq<
    Seq<char>,
> {
    match lesson_index(lessons, p.tickets@[0].lesson_id@) {
        None => Seq::empty(),
        Some(li) => match (lessons[li].performance_indicator_template_id, p.performance_indicator) {
            (Some(_), None) => seq![msg_pi_required()],
            (Some(_), Some(indicator)) => if markers_complete(indicator) {
                Seq::empty()
            } else {
                seq![msg_pi_required()]
            },
            (None, Some(_)) => seq![msg_pi_not_allowed()],
            (None, None) => Seq::empty(),
        },
    }
}

/// Every problem with a session, in the order they are reported.
pub open spec fn session_errors(
    p: UpdateTrainingSessionRequest,
    lessons: Seq<LessonRow>,
    rules: Seq<RubricRule>,
) -> Seq<Seq<char>> {
    let e1 = if trimmed(p.student_id@).len() == 0 {
        seq![msg_student()]
    } else {
        Seq::empty()
    };
    let minutes = span_minutes(elapsed(p.start, p.end));
    let e2 = if minutes < 5 || minutes > 720 {
        seq![msg_duration()]
    } else {
        Seq::empty()
    };
    if p.tickets@.len() == 0 {
        e1 + e2 + seq![msg_no_tickets()]
    } else {
        e1 + e2 + ticket_errors(p.tickets@, lessons, rules) + indicator_errors(p, lessons)
    }
}

fn rule_has_criteria(rule: &RubricRule, criteria_id: &str) -> (r: bool)
    ensures
        r == views_of(rule.criteria_ids@).contains(criteria_id@),
{
    contains_str(&rule.criteria_ids, criteria_id)
}

fn score_errors_exec(scores: &Vec<RubricScoreRequest>, rule: &RubricRule, errors: &mut Vec<ApiMessage>)
    ensures
        messages_of(final(errors)@) == messages_of(old(errors)@) + score_errors(
            score_views(scores@),
            *rule,
        ),
{
    let ghost start = messages_of(errors@);
    let ghost all = score_views(scores@);
    let mut seen: Vec<String> = Vec::new();
    let mut i: usize = 0;
    while i < scores.len()
        invariant
            i <= scores@.len(),
            all == score_views(scores@),
            messages_of(errors@) == start + score_errors(all.subrange(0, i as int), *rule),
            views_of(seen@) == seen_criteria(all.subrange(0, i as int), *rule),
        decreases scores@.len() - i,
    {
        let score = &scores[i];
        let ghost prev = all.subrange(0, i as int);
        let ghost before = messages_of(errors@);
        assert(all.subrange(0, i + 1).drop_last() =~= prev);
        assert(all[i as int] == (score.criteria_id@, score.cell_id@));
        if !rule_has_criteria(rule, score.criteria_id.as_str()) {
            errors.push(message("A submitted rubric criteria does not belong to the lesson."));
            assert(messages_of(errors@) =~= before + seq![msg_foreign_criteria()]);
        } else {
            if contains_str(&seen, score.criteria_id.as_str()) {
                errors.push(message("Duplicate rubric criteria scores are not allowed."));
                assert(messages_of(errors@) =~= before + seq![msg_duplicate_criteria()]);
            } else if !rule_has_cell(rule, score.criteria_id.as_str(), score.cell_id.as_str()) {
                errors.push(
                    message("A submitted rubric cell does not belong to the specified criteria."),
                );
                assert(messages_of(errors@) =~= before + seq![msg_foreign_cell()]);
            } else {
                assert(messages_of(errors@) =~= before + Seq::<Seq<char>>::empty());
            }
            let ghost seen_before = views_of(seen@);
            seen.push(owned(score.criteria_id.as_str()));
            assert(views_of(seen@) =~= seen_before.push(score.criteria_id@));
        }
        i = i + 1;
    }
    assert(all.subrange(0, scores@.len() as int) =~= all);
}

fn markers_complete_exec(indicator: &PerformanceIndicatorRequest) -> (r: bool)
    ensures
        r == markers_complete(*indicator),
{
    let cats = &indicator.categories;
    let mut c: usize = 0;
    while c < cats.len()
        invariant
            c <= cats@.len(),
            cats == &indicator.categories,
            forall|cc: int, k: int|
                0 <= cc < c && 0 <= k < cats@[cc].criteria@.len() ==> valid_pi_marker(
                    upper(trimmed(#[trigger] cats@[cc].criteria@[k].marker@)),
                ),
        decreases cats@.len() - c,
    {
        let crits = &cats[c].criteria;
        let mut k: usize = 0;
        while k < crits.len()
            invariant
                c < cats@.len(),
                cats == &indicator.categories,
                forall|cc: int, kk: int|
                    0 <= cc < c && 0 <= kk < cats@[cc].criteria@.len() ==> valid_pi_marker(
                        upper(trimmed(#[trigger] cats@[cc].criteria@[kk].marker@)),
                    ),
                k <= crits@.len(),
                crits == &cats@[c as int].criteria,
                forall|kk: int|
                    0 <= kk < k ==> valid_pi_marker(upper(trimmed(#[trigger] crits@[kk].marker@))),
            decreases crits@.len() - k,
        {
            let marker = to_ascii_uppercase(trim(crits[k].marker.as_str()));
            let m = marker.as_str();
            let ok = str_eq(m, "OBSERVED") || str_eq(m, "NOT_OBSERVED") || str_eq(m, "SATISFACTORY")
                || str_eq(m, "NEEDS_IMPROVEMENT") || str_eq(m, "UNSATISFACTORY");
            assert(crits@[k as int] == cats@[c as int].criteria@[k as int]);
            if !(marker.unicode_len() > 0 && ok) {
                assert(!valid_pi_marker(upper(trimmed(cats@[c as int].criteria@[k as int].marker@))));
                return false;
            }
            k = k + 1;
        }
        assert forall|cc: int, kk: int|
            0 <= cc < c + 1 && 0 <= kk < cats@[cc].criteria@.len() implies valid_pi_marker(
                upper(trimmed(#[trigger] cats@[cc].criteria@[kk].marker@)),
            ) by {
            if cc == c {
                assert(crits@[kk] == cats@[cc].criteria@[kk]);
            }
        }
        c = c + 1;
    }
    true
}

/// The performance indicators of a session whose first lesson has an indicator template
/// count as filled exactly when every marker, trimmed and upper-cased, is one of
/// `OBSERVED`, `NOT_OBSERVED`, `SATISFACTORY`, `NEEDS_IMPROVEMENT` and `UNSATISFACTORY`:
/// then they draw no message, and otherwise the one asking to fill them out.
pub proof fn performance_indicator_markers(p: UpdateTrainingSessionRequest, lessons: Seq<LessonRow>)
    ensures
        ({
            let filled = p.performance_indicator matches Some(ind) && forall|c: int, k: int|
                0 <= c < ind.categories@.len() && 0 <= k < ind.categories@[c].criteria@.len() ==> {
                    let m = upper(trimmed(#[trigger] ind.categories@[c].criteria@[k].marker@));
                    m == "OBSERVED"@ || m == "NOT_OBSERVED"@ || m == "SATISFACTORY"@ || m == "NEEDS_IMPROVEMENT"@
                        || m == "UNSATISFACTORY"@
                };
            p.tickets@.len() > 0 ==> match lesson_index(lessons, p.tickets@[0].lesson_id@) {
                Some(li) => lessons[li].performance_indicator_template_id is Some ==> (if filled {
                    indicator_errors(p, lessons) == Seq::<Seq<char>>::empty()
                } else {
                    indicator_errors(p, lessons) == seq![msg_pi_required()]
                }),
                None => true,
            }
        }),
{
    reveal_strlit("OBSERVED");
    reveal_strlit("NOT_OBSERVED");
    reveal_strlit("SATISFACTORY");
    reveal_strlit("NEEDS_IMPROVEMENT");
    reveal_strlit("UNSATISFACTORY");
    assert forall|m: Seq<char>|
        #[trigger] valid_pi_marker(m) <==> (m == "OBSERVED"@ || m == "NOT_OBSERVED"@ || m == "SATISFACTORY"@ || m
            == "NEEDS_IMPROVEMENT"@ || m == "UNSATISFACTORY"@) by {
        if m == "OBSERVED"@ || m == "NOT_OBSERVED"@ || m == "SATISFACTORY"@ || m == "NEEDS_IMPROVEMENT"@ || m
            == "UNSATISFACTORY"@ {
            assert(m.len() > 0);
        }
    }
}

/// Whether a message is one that checking a ticket or the performance indicators
/// reports.
pub open spec fn ticket_or_indicator_message(m: Seq<char>) -> bool {
    ||| m == msg_lesson_missing()
    ||| m == msg_scores_without_rubric()
    ||| m == msg_score_count()
    ||| m == msg_foreign_criteria()
    ||| m == msg_duplicate_criteria()
    ||| m == msg_foreign_cell()
    ||| m == msg_pi_required()
    ||| m == msg_pi_not_allowed()
}

proof fn lemma_not_duration(m: Seq<char>)
    requires
        ticket_or_indicator_message(m) || m == msg_student() || m == msg_no_tickets(),
    ensures
        m != msg_duration(),
{
    reveal_strlit("Session must be between 5 minutes and 12 hours long.");
    reveal_strlit("You must select a student.");
    reveal_strlit("You must add at least one training ticket.");
    reveal_strlit("One or more lessons do not exist.");
    reveal_strlit("Rubric scores are only allowed for lessons with a rubric.");
    reveal_strlit("Rubric-backed lessons require exactly one score per rubric criteria.");
    reveal_strlit("A submitted rubric criteria does not belong to the lesson.");
    reveal_strlit("Duplicate rubric criteria scores are not allowed.");
    reveal_strlit("A submitted rubric cell does not belong to the specified criteria.");
    reveal_strlit("You must fill out all performance indicators to submit this ticket.");
    reveal_strlit("Performance indicators are not allowed for the first lesson in this session.");
    assert(m[0] != msg_duration()[0]);
}

proof fn lemma_score_errors_messages(scores: Seq<(Seq<char>, Seq<char>)>, rule: RubricRule)
    ensures
        forall|k: int| 0 <= k < score_errors(scores, rule).len() ==> ticket_or_indicator_message(
            #[trigger] score_errors(scores, rule)[k],
        ),
    decreases scores.len(),
{
    if scores.len() > 0 {
        lemma_score_errors_messages(scores.drop_last(), rule);
        let a = score_errors(scores.drop_last(), rule);
        let b = score_problems(scores.last(), scores.drop_last(), rule);
        assert forall|k: int| 0 <= k < score_errors(scores, rule).len() implies ticket_or_indicator_message(
            #[trigger] score_errors(scores, rule)[k],
        ) by {
            if k >= a.len() {
                assert(score_errors(scores, rule)[k] == b[k - a.len()]);
            } else {
                assert(score_errors(scores, rule)[k] == a[k]);
            }
        }
    }
}

proof fn lemma_ticket_errors_messages(tickets: Seq<TrainingTicketRequest>, lessons: Seq<LessonRow>, rules: Seq<RubricRule>)
    ensures
        forall|k: int| 0 <= k < ticket_errors(tickets, lessons, rules).len() ==> ticket_or_indicator_message(
            #[trigger] ticket_errors(tickets, lessons, rules)[k],
        ),
        ticket_errors(tickets, lessons, rules).len() == 0 ==> forall|i: int|
            0 <= i < tickets.len() ==> #[trigger] lesson_index(lessons, tickets[i].lesson_id@) is Some,
    decreases tickets.len(),
{
    if tickets.len() > 0 {
        let prev = tickets.drop_last();
        lemma_ticket_errors_messages(prev, lessons, rules);
        let a = ticket_errors(prev, lessons, rules);
        let t = tickets.last();
        let b = ticket_problems(t, lessons, rules);
        match lesson_index(lessons, t.lesson_id@) {
            None => {},
            Some(li) => match rule_index(rules, lessons[li].id@) {
                None => {},
                Some(ri) => {
                    if t.scores@.len() == rules[ri].criteria_ids@.len() {
                        lemma_score_errors_messages(score_views(t.scores@), rules[ri]);
                    }
                },
            },
        }
        assert forall|k: int| 0 <= k < ticket_errors(tickets, lessons, rules).len() implies ticket_or_indicator_message(
            #[trigger] ticket_errors(tickets, lessons, rules)[k],
        ) by {
            if k >= a.len() {
                assert(ticket_errors(tickets, lessons, rules)[k] == b[k - a.len()]);
            } else {
                assert(ticket_errors(tickets, lessons, rules)[k] == a[k]);
            }
        }
        if ticket_errors(tickets, lessons, rules).len() == 0 {
            assert forall|i: int| 0 <= i < tickets.len() implies #[trigger] lesson_index(lessons, tickets[i].lesson_id@) is Some by {
                if i < prev.len() {
                    assert(prev[i] == tickets[i]);
                }
            }
        }
    }
}

/// What checking a session promises: the duration message is reported exactly when the
/// session is shorter than 5 minutes or longer than 12 hours (720 minutes, counted in
/// whole minutes toward zero), and a session with nothing to report has a student, at
/// least one ticket, and a known lesson on every ticket.
pub proof fn session_check_law(p: UpdateTrainingSessionRequest, lessons: Seq<LessonRow>, rules: Seq<RubricRule>)
    ensures
        session_errors(p, lessons, rules).contains(msg_duration()) <==> (span_minutes(elapsed(p.start, p.end)) < 5
            || span_minutes(elapsed(p.start, p.end)) > 720),
        session_errors(p, lessons, rules).len() == 0 ==> {
            &&& trimmed(p.student_id@).len() > 0
            &&& p.tickets@.len() > 0
            &&& forall|i: int| 0 <= i < p.tickets@.len() ==> #[trigger] lesson_index(lessons, p.tickets@[i].lesson_id@) is Some
        },
{
    let all = session_errors(p, lessons, rules);
    let minutes = span_minutes(elapsed(p.start, p.end));
    let e1 = if trimmed(p.student_id@).len() == 0 {
        seq![msg_student()]
    } else {
        Seq::<Seq<char>>::empty()
    };
    let e2 = if minutes < 5 || minutes > 720 {
        seq![msg_duration()]
    } else {
        Seq::<Seq<char>>::empty()
    };
    lemma_ticket_errors_messages(p.tickets@, lessons, rules);
    let rest: Seq<Seq<char>> = if p.tickets@.len() == 0 {
        seq![msg_no_tickets()]
    } else {
        ticket_errors(p.tickets@, lessons, rules) + indicator_errors(p, lessons)
    };
    assert(all =~= e1 + e2 + rest);
    if minutes < 5 || minutes > 720 {
        assert(all[e1.len() as int] == msg_duration());
    } else {
        assert forall|k: int| 0 <= k < all.len() implies all[k] != msg_duration() by {
            if k < e1.len() {
                lemma_not_duration(all[k]);
            } else {
                let j = k - e1.len();
                if p.tickets@.len() == 0 {
                    lemma_not_duration(rest[j]);
                } else {
                    let te = ticket_errors(p.tickets@, lessons, rules);
                    if j < te.len() {
                        assert(rest[j] == te[j]);
                        lemma_not_duration(te[j]);
                    } else {
                        assert(rest[j] == indicator_errors(p, lessons)[j - te.len()]);
                        lemma_not_duration(rest[j]);
                    }
                }
            }
        }
    }
}

/// Checks a session: a student, a length from 5 minutes to 12 hours, at least one
/// ticket, tickets whose lessons exist and whose rubric scores fit the lesson's rubric,
/// and performance indicators exactly when the first lesson asks for them. Every problem
/// found is reported, in order.
pub fn validate_training_session_payload(
    payload: &UpdateTrainingSessionRequest,
    lessons: &[LessonRow],
    rules: &[RubricRule],
) -> (r: Vec<ApiMessage>)
    ensures
        messages_of(r@) == session_errors(*payload, lessons@, rules@),
{
    let mut errors: Vec<ApiMessage> = Vec::new();
    if trim(payload.student_id.as_str()).unicode_len() == 0 {
        errors.push(message("You must select a student."));
    }
    let minutes = minutes_between(&payload.start, &payload.end);
    if minutes < 5 || minutes > 12 * 60 {
        errors.push(message("Session must be between 5 minutes and 12 hours long."));
    }
    let ghost head = messages_of(errors@);
    if payload.tickets.len() == 0 {
        errors.push(message("You must add at least one training ticket."));
        assert(messages_of(errors@) =~= head + seq![msg_no_tickets()]);
        return errors;
    }
    let tickets = &payload.tickets;
    let mut t: usize = 0;
    while t < tickets.len()
        invariant
            t <= tickets@.len(),
            tickets == &payload.tickets,
            messages_of(errors@) == head + ticket_errors(
                tickets@.subrange(0, t as int),
                lessons@,
                rules@,
            ),
        decreases tickets@.len() - t,
    {
        let ticket = &tickets[t];
        let ghost before = messages_of(errors@);
        assert(tickets@.subrange(0, t + 1).drop_last() =~= tickets@.subrange(0, t as int));
        assert(tickets@.subrange(0, t + 1).last() == *ticket);
        match find_lesson(lessons, ticket.lesson_id.as_str()) {
            None => {
                errors.push(message("One or more lessons do not exist."));
                assert(messages_of(errors@) =~= before + seq![msg_lesson_missing()]);
            },
            Some(li) => {
                proof {
                    lemma_lesson_index_bounds(lessons@, ticket.lesson_id@);
                }
                match find_rule(rules, lessons[li].id.as_str()) {
                    None => {
                        if ticket.scores.len() > 0 {
                            errors.push(
                                message("Rubric scores are only allowed for lessons with a rubric."),
                            );
                            assert(messages_of(errors@) =~= before + seq![
                                msg_scores_without_rubric(),
                            ]);
                        } else {
                            assert(messages_of(errors@) =~= before + Seq::<Seq<char>>::empty());
                        }
                    },
                    Some(ri) => {
                        proof {
                            lemma_rule_index_bounds(rules@, lessons@[li as int].id@);
                        }
                        if ticket.scores.len() != rules[ri].criteria_ids.len() {
                            errors.push(
                                message(
                                    "Rubric-backed lessons require exactly one score per rubric criteria.",
                                ),
                            );
                            assert(messages_of(errors@) =~= before + seq![msg_score_count()]);
                        } else {
                            score_errors_exec(&ticket.scores, &rules[ri], &mut errors);
                        }
                    },
                }
            },
        }
        t = t + 1;
    }
    assert(tickets@.subrange(0, tickets@.len() as int) =~= tickets@);
    let ghost mid = messages_of(errors@);
    match find_lesson(lessons, tickets[0].lesson_id.as_str()) {
        None => {},
        Some(li) => {
            proof {
                lemma_lesson_index_bounds(lessons@, tickets@[0].lesson_id@);
            }
            let first_lesson = &lessons[li];
            match (&first_lesson.performance_indicator_template_id, &payload.performance_indicator) {
                (Some(_), None) => {
                    errors.push(
                        message("You must fill out all performance indicators to submit this ticket."),
                    );
                },
                (Some(_), Some(indicator)) => {
                    if !markers_complete_exec(indicator) {
                        errors.push(
                            message(
                                "You must fill out all performance indicators to submit this ticket.",
                            ),
                        );
                    }
                },
                (None, Some(_)) => {
                    errors.push(
                        message(
                            "Performance indicators are not allowed for the first lesson in this session.",
                        ),
                    );
                },
                (None, None) => {},
            }
        },
    }
    assert(messages_of(errors@) =~= mid + indicator_errors(*payload, lessons@));
    errors
}

// ---------------------------------------------------------------------------
// Rubric rules
// ---------------------------------------------------------------------------

/// One row of a lesson's rubric: the lesson, one of its criteria, and one cell of that
/// criteria when it has any.
#[derive(Debug)]
pub struct RubricMembershipRow {
    pub lesson_id: String,
    pub criteria_id: String,
    pub cell_id: Option<String>,
}

pub open spec fn rule_lessons(rules: Seq<RubricRule>) -> Seq<Seq<char>> {
    rules.map_values(|r: RubricRule| r.lesson_id@)
}

pub open spec fn row_names_lesson(rows: Seq<RubricMembershipRow>, l: Seq<char>) -> bool {
    exists|k: int| 0 <= k < rows.len() && #[trigger] rows[k].lesson_id@ == l
}

pub open spec fn row_names_criteria(rows: Seq<RubricMembershipRow>, l: Seq<char>, c: Seq<char>) -> bool {
    exists|k: int| 0 <= k < rows.len() && #[trigger] rows[k].lesson_id@ == l && rows[k].criteria_id@ == c
}

pub open spec fn row_names_cell(
    rows: Seq<RubricMembershipRow>,
    l: Seq<char>,
    c: Seq<char>,
    cell: Seq<char>,
) -> bool {
    exists|k: int|
        0 <= k < rows.len() && #[trigger] rows[k].lesson_id@ == l && rows[k].criteria_id@ == c
            && opt_view(rows[k].cell_id) == Some(cell)
}

/// The rubrics describe the rows: one rubric per lesson that a row names, holding each
/// criteria and each cell that a row of its lesson names, criteria without repeats.
pub open spec fn rules_describe(rules: Seq<RubricRule>, rows: Seq<RubricMembershipRow>) -> bool {
    &&& rule_lessons(rules).no_duplicates()
    &&& forall|l: Seq<char>| #[trigger] rule_lessons(rules).contains(l) <==> row_names_lesson(rows, l)
    &&& forall|i: int|
        0 <= i < rules.len() ==> views_of(#[trigger] rules[i].criteria_ids@).no_duplicates()
    &&& forall|i: int, c: Seq<char>|
        0 <= i < rules.len() ==> (#[trigger] views_of(rules[i].criteria_ids@).contains(c)
            <==> row_names_criteria(rows, rules[i].lesson_id@, c))
    &&& forall|i: int, c: Seq<char>, cell: Seq<char>|
        0 <= i < rules.len() ==> (#[trigger] cells_view(rules[i].cells_by_criteria@).contains(
            (c, cell),
        ) <==> row_names_cell(rows, rules[i].lesson_id@, c, cell))
}

proof fn lemma_rows_push(rows: Seq<RubricMembershipRow>, row: RubricMembershipRow)
    ensures
        forall|l: Seq<char>|
            #[trigger] row_names_lesson(rows.push(row), l) <==> (row_names_lesson(rows, l)
                || row.lesson_id@ == l),
        forall|l: Seq<char>, c: Seq<char>|
            #[trigger] row_names_criteria(rows.push(row), l, c) <==> (row_names_criteria(rows, l, c)
                || (row.lesson_id@ == l && row.criteria_id@ == c)),
        forall|l: Seq<char>, c: Seq<char>, cell: Seq<char>|
            #[trigger] row_names_cell(rows.push(row), l, c, cell) <==> (row_names_cell(
                rows,
                l,
                c,
                cell,
            ) || (row.lesson_id@ == l && row.criteria_id@ == c && opt_view(row.cell_id) == Some(
                cell,
            ))),
{
    let next = rows.push(row);
    assert forall|l: Seq<char>| #[trigger] row_names_lesson(next, l) <==> (row_names_lesson(rows, l)
        || row.lesson_id@ == l) by {
        if row_names_lesson(rows, l) {
            let k = choose|k: int| 0 <= k < rows.len() && #[trigger] rows[k].lesson_id@ == l;
            assert(next[k] == rows[k]);
        }
        if row_names_lesson(next, l) {
            let k = choose|k: int| 0 <= k < next.len() && #[trigger] next[k].lesson_id@ == l;
            if k < rows.len() {
                assert(next[k] == rows[k]);
            }
        }
        if row.lesson_id@ == l {
            assert(next[rows.len() as int] == row);
        }
    }
    assert forall|l: Seq<char>, c: Seq<char>| #[trigger] row_names_criteria(next, l, c) <==> (
    row_names_criteria(rows, l, c) || (row.lesson_id@ == l && row.criteria_id@ == c)) by {
        if row_names_criteria(rows, l, c) {
            let k = choose|k: int|
                0 <= k < rows.len() && #[trigger] rows[k].lesson_id@ == l && rows[k].criteria_id@
                    == c;
            assert(next[k] == rows[k]);
        }
        if row_names_criteria(next, l, c) {
            let k = choose|k: int|
                0 <= k < next.len() && #[trigger] next[k].lesson_id@ == l && next[k].criteria_id@
                    == c;
            if k < rows.len() {
                assert(next[k] == rows[k]);
            }
        }
        if row.lesson_id@ == l && row.criteria_id@ == c {
            assert(next[rows.len() as int] == row);
        }
    }
    assert forall|l: Seq<char>, c: Seq<char>, cell: Seq<char>| #[trigger] row_names_cell(
        next,
        l,
        c,
        cell,
    ) <==> (row_names_cell(rows, l, c, cell) || (row.lesson_id@ == l && row.criteria_id@ == c
        && opt_view(row.cell_id) == Some(cell))) by {
        if row_names_cell(rows, l, c, cell) {
            let k = choose|k: int|
                0 <= k < rows.len() && #[trigger] rows[k].lesson_id@ == l && rows[k].criteria_id@
                    == c && opt_view(rows[k].cell_id) == Some(cell);
            assert(next[k] == rows[k]);
        }
        if row_names_cell(next, l, c, cell) {
            let k = choose|k: int|
                0 <= k < next.len() && #[trigger] next[k].lesson_id@ == l && next[k].criteria_id@
                    == c && opt_view(next[k].cell_id) == Some(cell);
            if k < rows.len() {
                assert(next[k] == rows[k]);
            }
        }
        if row.lesson_id@ == l && row.criteria_id@ == c && opt_view(row.cell_id) == Some(cell) {
            assert(next[rows.len() as int] == row);
        }
    }
}

/// Groups rubric rows by lesson into one rubric per lesson.
pub fn build_rubric_rules(rows: Vec<RubricMembershipRow>) -> (r: Vec<RubricRule>)
    ensures
        rules_describe(r@, rows@),
{
    let mut rules: Vec<RubricRule> = Vec::new();
    let mut k: usize = 0;
    assert(rule_lessons(rules@) =~= Seq::<Seq<char>>::empty());
    while k < rows.len()
        invariant
            k <= rows@.len(),
            rules_describe(rules@, rows@.subrange(0, k as int)),
        decreases rows@.len() - k,
    {
        let row = &rows[k];
        let ghost prev_rows = rows@.subrange(0, k as int);
        let ghost old_rules = rules@;
        assert(rows@.subrange(0, k + 1) =~= prev_rows.push(*row));
        proof {
            lemma_rows_push(prev_rows, *row);
        }
        match find_rule(rules.as_slice(), row.lesson_id.as_str()) {
            Some(i) => {
                proof {
                    lemma_rule_index_bounds(old_rules, row.lesson_id@);
                }
                let old_rule = rules.remove(i);
                let mut criteria_ids = old_rule.criteria_ids;
                let mut cells = old_rule.cells_by_criteria;
                let ghost old_criteria = views_of(criteria_ids@);
                let ghost old_cells = cells_view(cells@);
                if !contains_str(&criteria_ids, row.criteria_id.as_str()) {
                    criteria_ids.push(owned(row.criteria_id.as_str()));
                    assert(views_of(criteria_ids@) =~= old_criteria.push(row.criteria_id@));
                }
                match &row.cell_id {
                    Some(cell) => {
                        if !rule_has_cell_list(&cells, row.criteria_id.as_str(), cell.as_str()) {
                            cells.push(
                                RubricCell {
                                    criteria_id: owned(row.criteria_id.as_str()),
                                    cell_id: owned(cell.as_str()),
                                },
                            );
                            assert(cells_view(cells@) =~= old_cells.push(
                                (row.criteria_id@, cell@),
                            ));
                        }
                    },
                    None => {},
                }
                let new_rule = RubricRule {
                    lesson_id: old_rule.lesson_id,
                    criteria_ids,
                    cells_by_criteria: cells,
                };
                rules.insert(i, new_rule);
                assert(rules@ =~= old_rules.update(i as int, new_rule));
                proof {
                    let next_rows = rows@.subrange(0, k + 1);
                    assert(rule_lessons(rules@) =~= rule_lessons(old_rules));
                    assert forall|c: Seq<char>| #[trigger] views_of(new_rule.criteria_ids@).contains(
                        c,
                    ) <==> (old_criteria.contains(c) || c == row.criteria_id@) by {
                        if views_of(new_rule.criteria_ids@).contains(c) && !old_criteria.contains(c) {
                            let j = choose|j: int|
                                0 <= j < views_of(new_rule.criteria_ids@).len() && views_of(
                                    new_rule.criteria_ids@,
                                )[j] == c;
                            if j < old_criteria.len() {
                                assert(old_criteria[j] == c);
                            }
                        }
                        if old_criteria.contains(c) {
                            let j = choose|j: int| 0 <= j < old_criteria.len() && old_criteria[j] == c;
                            assert(views_of(new_rule.criteria_ids@)[j] == c);
                        }
                        if c == row.criteria_id@ && !old_criteria.contains(c) {
                            assert(views_of(new_rule.criteria_ids@)[old_criteria.len() as int] == c);
                        }
                    }
                    assert forall|c: Seq<char>, cell: Seq<char>| #[trigger] cells_view(
                        new_rule.cells_by_criteria@,
                    ).contains((c, cell)) <==> (old_cells.contains((c, cell)) || (c
                        == row.criteria_id@ && opt_view(row.cell_id) == Some(cell))) by {
                        let nc = cells_view(new_rule.cells_by_criteria@);
                        if nc.contains((c, cell)) && !old_cells.contains((c, cell)) {
                            let j = choose|j: int| 0 <= j < nc.len() && nc[j] == (c, cell);
                            if j < old_cells.len() {
                                assert(old_cells[j] == (c, cell));
                            }
                        }
                        if old_cells.contains((c, cell)) {
                            let j = choose|j: int| 0 <= j < old_cells.len() && old_cells[j] == (c, cell);
                            assert(nc[j] == (c, cell));
                        }
                        if c == row.criteria_id@ && opt_view(row.cell_id) == Some(cell)
                            && !old_cells.contains((c, cell)) {
                            assert(nc[old_cells.len() as int] == (c, cell));
                        }
                    }
                    assert forall|j: int| 0 <= j < rules@.len() implies views_of(
                        #[trigger] rules@[j].criteria_ids@,
                    ).no_duplicates() by {
                        if j == i {
                            let v = views_of(new_rule.criteria_ids@);
                            if v != old_criteria {
                                assert(v =~= old_criteria.push(row.criteria_id@));
                                assert forall|a: int, b: int|
                                    0 <= a < v.len() && 0 <= b < v.len() && a != b implies v[a]
                                    != v[b] by {
                                    if a < old_criteria.len() && b < old_criteria.len() {
                                        assert(v[a] == old_criteria[a] && v[b] == old_criteria[b]);
                                    } else if a < old_criteria.len() {
                                        assert(v[a] == old_criteria[a]);
                                    } else if b < old_criteria.len() {
                                        assert(v[b] == old_criteria[b]);
                                    }
                                }
                            }
                        }
                    }
                    assert forall|j: int, c: Seq<char>| 0 <= j < rules@.len() implies (#[trigger] views_of(
                        rules@[j].criteria_ids@,
                    ).contains(c) <==> row_names_criteria(next_rows, rules@[j].lesson_id@, c)) by {
                        if j != i {
                            assert(rules@[j] == old_rules[j]);
                            assert(rule_lessons(old_rules)[j] == old_rules[j].lesson_id@);
                            assert(rule_lessons(old_rules)[i as int] == row.lesson_id@);
                        }
                    }
                    assert forall|j: int, c: Seq<char>, cell: Seq<char>| 0 <= j < rules@.len() implies (
                    #[trigger] cells_view(rules@[j].cells_by_criteria@).contains((c, cell))
                        <==> row_names_cell(next_rows, rules@[j].lesson_id@, c, cell)) by {
                        if j != i {
                            assert(rules@[j] == old_rules[j]);
                            assert(rule_lessons(old_rules)[j] == old_rules[j].lesson_id@);
                            assert(rule_lessons(old_rules)[i as int] == row.lesson_id@);
                        }
                    }
                    assert forall|l: Seq<char>| #[trigger] rule_lessons(rules@).contains(l)
                        <==> row_names_lesson(next_rows, l) by {
                        if l == row.lesson_id@ {
                            assert(rule_lessons(old_rules)[i as int] == l);
                        }
                    }
                }
            },
            None => {
                let mut criteria_ids: Vec<String> = Vec::new();
                criteria_ids.push(owned(row.criteria_id.as_str()));
                let mut cells: Vec<RubricCell> = Vec::new();
                match &row.cell_id {
                    Some(cell) => {
                        cells.push(
                            RubricCell {
                                criteria_id: owned(row.criteria_id.as_str()),
                                cell_id: owned(cell.as_str()),
                            },
                        );
                    },
                    None => {},
                }
                let new_rule = RubricRule {
                    lesson_id: owned(row.lesson_id.as_str()),
                    criteria_ids,
                    cells_by_criteria: cells,
                };
                rules.push(new_rule);
                proof {
                    let next_rows = rows@.subrange(0, k + 1);
                    assert(rule_lessons(rules@) =~= rule_lessons(old_rules).push(row.lesson_id@));
                    assert(!rule_lessons(old_rules).contains(row.lesson_id@)) by {
                        if rule_lessons(old_rules).contains(row.lesson_id@) {
                            let j = choose|j: int|
                                0 <= j < rule_lessons(old_rules).len() && rule_lessons(old_rules)[j]
                                    == row.lesson_id@;
                            assert(old_rules[j].lesson_id@ == row.lesson_id@);
                            lemma_rule_index_none(old_rules, row.lesson_id@, j);
                        }
                    }
                    let lessons = rule_lessons(rules@);
                    assert forall|a: int, b: int|
                        0 <= a < lessons.len() && 0 <= b < lessons.len() && a != b implies lessons[a]
                        != lessons[b] by {
                        if a < old_rules.len() && b < old_rules.len() {
                            assert(lessons[a] == rule_lessons(old_rules)[a]);
                            assert(lessons[b] == rule_lessons(old_rules)[b]);
                        } else if a < old_rules.len() {
                            assert(lessons[a] == rule_lessons(old_rules)[a]);
                        } else if b < old_rules.len() {
                            assert(lessons[b] == rule_lessons(old_rules)[b]);
                        }
                    }
                    assert forall|l: Seq<char>| #[trigger] lessons.contains(l) <==> row_names_lesson(
                        next_rows,
                        l,
                    ) by {
                        if lessons.contains(l) {
                            let j = choose|j: int| 0 <= j < lessons.len() && lessons[j] == l;
                            if j < old_rules.len() {
                                assert(rule_lessons(old_rules)[j] == l);
                            }
                        }
                        if rule_lessons(old_rules).contains(l) {
                            let j = choose|j: int|
                                0 <= j < rule_lessons(old_rules).len() && rule_lessons(old_rules)[j]
                                    == l;
                            assert(lessons[j] == l);
                        }
                        if l == row.lesson_id@ {
                            assert(lessons[old_rules.len() as int] == l);
                        }
                    }
                    assert forall|j: int| 0 <= j < rules@.len() implies views_of(
                        #[trigger] rules@[j].criteria_ids@,
                    ).no_duplicates() by {
                        if j < old_rules.len() {
                            assert(rules@[j] == old_rules[j]);
                        }
                    }
                    assert forall|j: int, c: Seq<char>| 0 <= j < rules@.len() implies (#[trigger] views_of(
                        rules@[j].criteria_ids@,
                    ).contains(c) <==> row_names_criteria(next_rows, rules@[j].lesson_id@, c)) by {
                        if j < old_rules.len() {
                            assert(rules@[j] == old_rules[j]);
                            assert(rule_lessons(old_rules)[j] == old_rules[j].lesson_id@);
                            if old_rules[j].lesson_id@ == row.lesson_id@ {
                                assert(rule_lessons(old_rules).contains(row.lesson_id@));
                            }
                        } else {
                            assert(rules@[j] == new_rule);
                            if row_names_criteria(prev_rows, row.lesson_id@, c) {
                                let m = choose|m: int|
                                    0 <= m < prev_rows.len() && #[trigger] prev_rows[m].lesson_id@
                                        == row.lesson_id@ && prev_rows[m].criteria_id@ == c;
                                assert(row_names_lesson(prev_rows, row.lesson_id@));
                            }
                            if views_of(new_rule.criteria_ids@).contains(c) {
                                assert(views_of(new_rule.criteria_ids@)[0] == c);
                            }
                            if c == row.criteria_id@ {
                                assert(views_of(new_rule.criteria_ids@)[0] == c);
                            }
                        }
                    }
                    assert forall|j: int, c: Seq<char>, cell: Seq<char>| 0 <= j < rules@.len() implies (
                    #[trigger] cells_view(rules@[j].cells_by_criteria@).contains((c, cell))
                        <==> row_names_cell(next_rows, rules@[j].lesson_id@, c, cell)) by {
                        if j < old_rules.len() {
                            assert(rules@[j] == old_rules[j]);
                            assert(rule_lessons(old_rules)[j] == old_rules[j].lesson_id@);
                            if old_rules[j].lesson_id@ == row.lesson_id@ {
                                assert(rule_lessons(old_rules).contains(row.lesson_id@));
                            }
                        } else {
                            assert(rules@[j] == new_rule);
                            let nc = cells_view(new_rule.cells_by_criteria@);
                            if row_names_cell(prev_rows, row.lesson_id@, c, cell) {
                                let m = choose|m: int|
                                    0 <= m < prev_rows.len() && #[trigger] prev_rows[m].lesson_id@
                                        == row.lesson_id@ && prev_rows[m].criteria_id@ == c
                                        && opt_view(prev_rows[m].cell_id) == Some(cell);
                                assert(row_names_lesson(prev_rows, row.lesson_id@));
                            }
                            if nc.contains((c, cell)) {
                                assert(nc[0] == (c, cell));
                            }
                            if c == row.criteria_id@ && opt_view(row.cell_id) == Some(cell) {
                                assert(nc[0] == (c, cell));
                            }
                        }
                    }
                }
            },
        }
        k = k + 1;
    }
    assert(rows@.subrange(0, rows@.len() as int) =~= rows@);
    rules
}

proof fn lemma_rule_index_none(rules: Seq<RubricRule>, id: Seq<char>, j: int)
    requires
        0 <= j < rules.len(),
        rules[j].lesson_id@ == id,
    ensures
        rule_index(rules, id) is Some,
    decreases rules.len(),
{
    if rules.last().lesson_id@ != id {
        assert(j < rules.len() - 1);
        assert(rules.drop_last()[j] == rules[j]);
        lemma_rule_index_none(rules.drop_last(), id, j);
    }
}

fn rule_has_cell_list(cells: &Vec<RubricCell>, criteria_id: &str, cell_id: &str) -> (r: bool)
    ensures
        r == cells_view(cells@).contains((criteria_id@, cell_id@)),
{
    let mut i: usize = 0;
    while i < cells.len()
        invariant
            i <= cells@.len(),
            forall|k: int| 0 <= k < i ==> cells_view(cells@)[k] != (criteria_id@, cell_id@),
        decreases cells@.len() - i,
    {
        if str_eq(cells[i].criteria_id.as_str(), criteria_id) && str_eq(
            cells[i].cell_id.as_str(),
            cell_id,
        ) {
            assert(cells_view(cells@)[i as int] == (criteria_id@, cell_id@));
            return true;
        }
        i = i + 1;
    }
    false
}

// ---------------------------------------------------------------------------
// After a session is stored
// ---------------------------------------------------------------------------

/// The lessons a session passes, as positions in `lessons`: for each passed ticket in
/// order, the last lesson with its identifier; a passed ticket of an unknown lesson adds
/// nothing.
pub open spec fn passed_lesson_positions(tickets: Seq<TrainingTicketRequest>, lessons: Seq<LessonRow>) -> Seq<usize>
    decreases tickets.len(),
{
    if tickets.len() == 0 {
        Seq::empty()
    } else {
        let rest = passed_lesson_positions(tickets.drop_last(), lessons);
        let t = tickets.last();
        if t.passed && lesson_index(lessons, t.lesson_id@) is Some {
            rest.push(lesson_index(lessons, t.lesson_id@)->0 as usize)
        } else {
            rest
        }
    }
}

/// Finds the lessons that the tickets of a session pass.
pub fn passed_lessons(tickets: &[TrainingTicketRequest], lessons: &[LessonRow]) -> (r: Vec<usize>)
    ensures
        r@ == passed_lesson_positions(tickets@, lessons@),
{
    let mut out: Vec<usize> = Vec::new();
    let mut i: usize = 0;
    while i < tickets.len()
        invariant
            i <= tickets@.len(),
            out@ == passed_lesson_positions(tickets@.subrange(0, i as int), lessons@),
        decreases tickets@.len() - i,
    {
        let t = &tickets[i];
        assert(tickets@.subrange(0, i + 1).drop_last() =~= tickets@.subrange(0, i as int));
        if t.passed {
            match find_lesson(lessons, t.lesson_id.as_str()) {
                Some(k) => out.push(k),
                None => {},
            }
        }
        i = i + 1;
    }
    assert(tickets@.subrange(0, tickets@.len() as int) =~= tickets@);
    out
}

/// A ticket of the session as it was stored before an update.
#[derive(Debug)]
pub struct StoredTicket {
    pub lesson_id: String,
    pub passed: bool,
}

/// Whether some stored ticket passed the lesson `id`.
pub open spec fn passed_before(old: Seq<StoredTicket>, id: Seq<char>) -> bool {
    exists|j: int| 0 <= j < old.len() && old[j].passed && #[trigger] old[j].lesson_id@ == id
}

/// Whether an earlier ticket passed the lesson `id`.
fn passed_before_exec(old: &[StoredTicket], id: &str) -> (r: bool)
    ensures
        r == passed_before(old@, id@),
{
    let mut j: usize = 0;
    while j < old.len()
        invariant
            j <= old@.len(),
            forall|q: int| 0 <= q < j ==> !(old@[q].passed && #[trigger] old@[q].lesson_id@ == id@),
        decreases old@.len() - j,
    {
        if old[j].passed && str_eq(old[j].lesson_id.as_str(), id) {
            assert(old@[j as int].passed && old@[j as int].lesson_id@ == id@);
            return true;
        }
        j = j + 1;
    }
    false
}

/// Whether one of the lessons at `positions` has the identifier `id`.
pub open spec fn passed_now(positions: Seq<usize>, lessons: Seq<LessonRow>, id: Seq<char>) -> bool {
    exists|k: int| 0 <= k < positions.len() && #[trigger] lessons[positions[k] as int].id@ == id
}

/// The lessons passed now that no stored ticket passed before: the identifiers of the
/// lessons at `positions`, each once, without those passed before.
pub fn newly_passed_lesson_ids(positions: &[usize], lessons: &[LessonRow], old: &[StoredTicket]) -> (r: Vec<String>)
    requires
        forall|k: int| 0 <= k < positions@.len() ==> #[trigger] positions@[k] < lessons@.len(),
    ensures
        views_of(r@).no_duplicates(),
        forall|x: Seq<char>|
            #[trigger] views_of(r@).contains(x) <==> (passed_now(positions@, lessons@, x) && !passed_before(old@, x)),
{
    let mut out: Vec<String> = Vec::new();
    let mut i: usize = 0;
    while i < positions.len()
        invariant
            forall|k: int| 0 <= k < positions@.len() ==> #[trigger] positions@[k] < lessons@.len(),
            i <= positions@.len(),
            views_of(out@).no_duplicates(),
            forall|x: Seq<char>|
                #[trigger] views_of(out@).contains(x) <==> (passed_now(positions@.subrange(0, i as int), lessons@, x)
                    && !passed_before(old@, x)),
        decreases positions@.len() - i,
    {
        let id = &lessons[positions[i]].id;
        assert(id@ == lessons@[positions@[i as int] as int].id@);
        let ghost prev = positions@.subrange(0, i as int);
        let ghost next = positions@.subrange(0, i + 1);
        let seen_before = passed_before_exec(old, id.as_str());
        assert(seen_before == passed_before(old@, id@));
        let already = contains_str(&out, id.as_str());
        let ghost before = out@;
        if !seen_before && !already {
            out.push(id.clone());
            assert(views_of(out@) =~= views_of(before).push(id@));
        }
        assert forall|x: Seq<char>|
            #[trigger] views_of(out@).contains(x) implies (passed_now(next, lessons@, x) && !passed_before(old@, x)) by {
            if views_of(before).contains(x) {
                assert(passed_now(prev, lessons@, x));
                let k = choose|k: int| 0 <= k < prev.len() && #[trigger] lessons@[prev[k] as int].id@ == x;
                assert(next[k] == prev[k]);
            } else {
                let k = choose|k: int| 0 <= k < views_of(out@).len() && views_of(out@)[k] == x;
                assert(k == before.len());
                assert(x == id@);
                assert(next[i as int] == positions@[i as int]);
                assert(lessons@[next[i as int] as int].id@ == x);
            }
        }
        assert forall|x: Seq<char>|
            passed_now(next, lessons@, x) && !passed_before(old@, x) implies #[trigger] views_of(out@).contains(x) by {
            let k = choose|k: int| 0 <= k < next.len() && #[trigger] lessons@[next[k] as int].id@ == x;
            if k < i {
                assert(prev[k] == next[k]);
                assert(passed_now(prev, lessons@, x));
                assert(views_of(before).contains(x));
                let q = choose|q: int| 0 <= q < views_of(before).len() && views_of(before)[q] == x;
                assert(views_of(out@)[q] == x);
            } else {
                assert(next[k] == positions@[i as int]);
                assert(x == id@);
                if already {
                    let q = choose|q: int| 0 <= q < views_of(before).len() && views_of(before)[q] == x;
                    assert(views_of(out@)[q] == x);
                } else {
                    assert(views_of(out@)[before.len() as int] == x);
                }
            }
        }
        i = i + 1;
    }
    assert(positions@.subrange(0, positions@.len() as int) =~= positions@);
    out
}

/// Whether passing these lessons asks for a trainer release: the student is a home
/// controller and one of the lessons asks for a release when passed.
pub open spec fn release_wanted(controller_status: Option<Seq<char>>, positions: Seq<usize>, lessons: Seq<LessonRow>) -> bool {
    controller_status == Some("HOME"@) && exists|k: int|
        0 <= k < positions.len() && #[trigger] lessons[positions[k] as int].release_request_on_pass
}

/// Decides whether a session asks for a trainer release (the request is then made when
/// the student has an assignment and no release request yet).
pub fn release_request_wanted(controller_status: Option<&str>, positions: &[usize], lessons: &[LessonRow]) -> (r: bool)
    requires
        forall|k: int| 0 <= k < positions@.len() ==> #[trigger] positions@[k] < lessons@.len(),
    ensures
        r == release_wanted(opt_str_view(controller_status), positions@, lessons@),
{
    let home = match controller_status {
        Some(s) => str_eq(s, "HOME"),
        None => false,
    };
    if !home {
        return false;
    }
    let mut i: usize = 0;
    while i < positions.len()
        invariant
            forall|k: int| 0 <= k < positions@.len() ==> #[trigger] positions@[k] < lessons@.len(),
            opt_str_view(controller_status) == Some("HOME"@),
            i <= positions@.len(),
            forall|k: int| 0 <= k < i ==> !(#[trigger] lessons@[positions@[k] as int]).release_request_on_pass,
        decreases positions@.len() - i,
    {
        if lessons[positions[i]].release_request_on_pass {
            assert(lessons@[positions@[i as int] as int].release_request_on_pass);
            return true;
        }
        i = i + 1;
    }
    false
}

/// The marker of a performance indicator as stored: trimmed and upper-cased.
pub fn normalize_marker(marker: &str) -> (r: String)
    ensures
        r@ == upper(trimmed(marker@)),
{
    to_ascii_uppercase(trim(marker))
}

/// The refusal when some additional trainers of a session do not exist: fewer users were
/// found than trainers were named.
pub fn check_trainers_found(named: usize, found: usize) -> (r: Option<ApiMessage>)
    ensures
        found != named ==> (r matches Some(m) && m.message@ == "One or more additional trainers do not exist."@),
        found == named ==> r is None,
{
    if found != named {
        Some(message("One or more additional trainers do not exist."))
    } else {
        None
    }
}

// ---------------------------------------------------------------------------
// OTS recommendations
// ---------------------------------------------------------------------------

/// Whether a session clears the student's OTS recommendations: it passes a lesson that
/// only an instructor may teach.
pub open spec fn ots_clear_wanted(positions: Seq<usize>, lessons: Seq<LessonRow>) -> bool {
    exists|k: int| 0 <= k < positions.len() && #[trigger] lessons[positions[k] as int].instructor_only
}

/// Decides whether a session clears the student's OTS recommendations.
pub fn clears_ots_recommendations(positions: &[usize], lessons: &[LessonRow]) -> (r: bool)
    requires
        forall|k: int| 0 <= k < positions@.len() ==> #[trigger] positions@[k] < lessons@.len(),
    ensures
        r == ots_clear_wanted(positions@, lessons@),
{
    let mut i: usize = 0;
    while i < positions.len()
        invariant
            forall|k: int| 0 <= k < positions@.len() ==> #[trigger] positions@[k] < lessons@.len(),
            i <= positions@.len(),
            forall|k: int| 0 <= k < i ==> !(#[trigger] lessons@[positions@[k] as int]).instructor_only,
        decreases positions@.len() - i,
    {
        if lessons[positions[i]].instructor_only {
            assert(lessons@[positions@[i as int] as int].instructor_only);
            return true;
        }
        i = i + 1;
    }
    false
}

/// Whether the `k`-th passed lesson asks for an OTS recommendation: it notifies the
/// instructor when passed, and was not passed before.
pub open spec fn recommends_ots(positions: Seq<usize>, lessons: Seq<LessonRow>, old: Seq<StoredTicket>, k: int) -> bool {
    lessons[positions[k] as int].notify_instructor_on_pass && !passed_before(old, lessons[positions[k] as int].id@)
}

/// The passed lesson that an OTS recommendation names: the first that asks for one (the
/// recommendation is then written unless the student already has one).
pub fn ots_candidate(positions: &[usize], lessons: &[LessonRow], old: &[StoredTicket]) -> (r: Option<usize>)
    requires
        forall|k: int| 0 <= k < positions@.len() ==> #[trigger] positions@[k] < lessons@.len(),
    ensures
        match r {
            Some(k) => k < positions@.len() && recommends_ots(positions@, lessons@, old@, k as int) && forall|q: int|
                0 <= q < k ==> !#[trigger] recommends_ots(positions@, lessons@, old@, q),
            None => forall|q: int| 0 <= q < positions@.len() ==> !#[trigger] recommends_ots(positions@, lessons@, old@, q),
        },
{
    let mut i: usize = 0;
    while i < positions.len()
        invariant
            forall|k: int| 0 <= k < positions@.len() ==> #[trigger] positions@[k] < lessons@.len(),
            i <= positions@.len(),
            forall|q: int| 0 <= q < i ==> !#[trigger] recommends_ots(positions@, lessons@, old@, q),
        decreases positions@.len() - i,
    {
        let lesson = &lessons[positions[i]];
        if lesson.notify_instructor_on_pass {
            let seen = passed_before_exec(old, lesson.id.as_str());
            if !seen {
                return Some(i);
            }
        }
        i = i + 1;
    }
    None
}

/// A time as `chrono` formats it with `%Y-%m-%d %H:%MZ`.
pub uninterp spec fn zulu_text(secs: i64, nanos: u32) -> Seq<char>;

/// Calls chrono's `format("%Y-%m-%d %H:%MZ")` on the instant. The contract names the
/// text, a function of the instant alone.
#[verifier::external_body]
fn chrono_format_zulu(secs: i64, nanos: u32) -> (r: String)
    requires
        crate::timestamp::chrono_instant_valid(secs, nanos),
    ensures
        r@ == zulu_text(secs, nanos),
{
    chrono::DateTime::from_timestamp(secs, nanos).unwrap().format("%Y-%m-%d %H:%MZ").to_string()
}

/// A time as an OTS note shows it, such as `2026-01-31 23:00Z`.
pub fn format_zulu(value: UtcTimestamp) -> (r: String)
    ensures
        r@ == zulu_text(value.spec_secs(), value.spec_nanos()),
{
    let (secs, nanos) = value.representable_parts();
    chrono_format_zulu(secs, nanos)
}

/// The note of an OTS recommendation: `<lesson> w/ <trainer> ON <time>.`
pub fn ots_note(lesson_identifier: &str, trainer_name: &str, start: UtcTimestamp) -> (r: String)
    ensures
        r@ == lesson_identifier@ + " w/ "@ + trainer_name@ + " ON "@ + zulu_text(start.spec_secs(), start.spec_nanos())
            + "."@,
{
    let mut out = concat3(lesson_identifier, " w/ ", trainer_name);
    out.append(" ON ");
    let when = format_zulu(start);
    out.append(when.as_str());
    out.append(".");
    out
}

// ---------------------------------------------------------------------------
// The outcome of storing a session
// ---------------------------------------------------------------------------

/// What creating or updating a session gives: the stored session, the release request
/// it made, the roster changes it caused and the OTS recommendation it wrote, or the
/// reasons it was refused.
#[derive(Debug)]
pub struct CreateOrUpdateTrainingSessionResult<S, R, U, O> {
    pub session: Option<S>,
    pub release: Option<R>,
    pub roster_updates: Vec<U>,
    pub ots_recommendation: Option<O>,
    pub errors: Vec<ApiMessage>,
}

/// The outcome of a refused session: only the reasons.
pub fn error_result<S, R, U, O>(errors: Vec<ApiMessage>) -> (r: CreateOrUpdateTrainingSessionResult<S, R, U, O>)
    ensures
        r.session is None,
        r.release is None,
        r.roster_updates@.len() == 0,
        r.ots_recommendation is None,
        r.errors == errors,
{
    CreateOrUpdateTrainingSessionResult {
        session: None,
        release: None,
        roster_updates: Vec::new(),
        ots_recommendation: None,
        errors,
    }
}

/// Why a session save is refused before anything is written: the problems with the
/// session, then those with the additional trainers' entries (who may be neither the
/// student nor the author). A save with none goes on.
pub fn session_save_refusal(
    payload: &UpdateTrainingSessionRequest,
    lessons: &[LessonRow],
    rules: &[RubricRule],
    student_id: &str,
    author_id: &str,
) -> (r: Vec<ApiMessage>)
    ensures
        messages_of(r@) == session_errors(*payload, lessons@, rules@) + trainer_shape_errors(
            payload.additional_trainers@,
            seq![student_id@, author_id@],
        ),
{
    let mut errors = validate_training_session_payload(payload, lessons, rules);
    let forbidden: [&str; 2] = [student_id, author_id];
    assert(str_views(forbidden@) =~= seq![student_id@, author_id@]);
    let mut shape = validate_additional_trainer_shapes(payload.additional_trainers.as_slice(), forbidden.as_slice());
    let ghost before = errors@;
    let ghost extra = shape@;
    errors.append(&mut shape);
    assert(messages_of(errors@) =~= messages_of(before) + messages_of(extra));
    errors
}

/// The answer to a session save: a saved session is created (201) or updated (200) with
/// its outcome; a refused one is a bad request (400) that carries only the reasons.
pub fn session_save_answer<S, R, U, O>(
    outcome: Result<CreateOrUpdateTrainingSessionResult<S, R, U, O>, Vec<ApiMessage>>,
    creating: bool,
) -> (r: (u16, CreateOrUpdateTrainingSessionResult<S, R, U, O>))
    ensures
        match outcome {
            Ok(res) => r.0 == (if creating {
                201u16
            } else {
                200u16
            }) && r.1 == res,
            Err(errors) => {
                &&& r.0 == 400
                &&& r.1.errors == errors
                &&& r.1.session is None
                &&& r.1.release is None
                &&& r.1.roster_updates@.len() == 0
                &&& r.1.ots_recommendation is None
            },
        },
{
    match outcome {
        Ok(res) => (if creating {
            201
        } else {
            200
        }, res),
        Err(errors) => (400, error_result(errors)),
    }
}

} // verus!
