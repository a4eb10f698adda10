//! Workflow rules: leaves of absence, special-use airspace requests and their mission
//! numbers, controller status changes, and the status of scheduled jobs.
use vstd::prelude::*;

use crate::error::ApiError;
use crate::text::{
    all_digits, clone_opt, decimal, is_digit, lower, opt_str_view, owned, str_eq, to_ascii_uppercase, trim,
    trimmed, upper,
};
use crate::jobs::roster_sync::RosterSyncMetrics;
use crate::jobs::stats_sync::EnvironmentSyncHealth;
use crate::jobs::JobHealthRecord;
use crate::timestamp::{elapsed, elapsed_between, is_before, span_above, span_below, ts_lt, utc_now, UtcTimestamp};

verus! {

/// A reply that carries only a message.
#[derive(Debug)]
pub struct ApiMessageBody {
    pub message: String,
}

/// The shortest leave of absence, in days.
pub const LOA_MIN_DAYS: i64 = 7;

/// The most special-use airspace requests a user may have active at once.
pub const SUA_MAX_ACTIVE_REQUESTS: i64 = 2;

/// The shortest special-use airspace reservation, in minutes.
pub const SUA_MIN_DURATION_MINUTES: i64 = 30;

/// The longest special-use airspace reservation, in hours.
pub const SUA_MAX_DURATION_HOURS: i64 = 12;

// ---------------------------------------------------------------------------
// Leaves of absence
// ---------------------------------------------------------------------------

/// Whether a leave of absence is acceptable: a reason, an end after the start, and at
/// least seven days between them.
pub open spec fn loa_range_ok(start: UtcTimestamp, end: UtcTimestamp, reason: Seq<char>) -> bool {
    reason.len() > 0 && ts_lt(start, end) && !span_below(elapsed(start, end), 604800int)
}

/// Checks a requested leave of absence.
pub fn validate_loa_range(start: UtcTimestamp, end: UtcTimestamp, reason: &str) -> (r: Result<(), ApiError>)
    ensures
        loa_range_ok(start, end, reason@) ==> r is Ok,
        !loa_range_ok(start, end, reason@) ==> r == Err::<(), ApiError>(ApiError::BadRequest),
{
    if reason.unicode_len() == 0 || !is_before(start, end) {
        return Err(ApiError::BadRequest);
    }
    let (secs, nanos) = elapsed_between(&start, &end);
    let min: i64 = LOA_MIN_DAYS * 86400;
    if secs < min || (secs == min && nanos < 0) {
        return Err(ApiError::BadRequest);
    }
    Ok(())
}

/// The decision an administrator may record on a leave of absence, by name.
pub open spec fn loa_admin_status(value: Seq<char>) -> Option<Seq<char>> {
    let v = upper(trimmed(value));
    if v == "APPROVED"@ || v == "DENIED"@ || v == "INACTIVE"@ {
        Some(v)
    } else {
        None
    }
}

/// An administrator may approve, deny or mark inactive a leave of absence, written in
/// any case and with surrounding whitespace: each of `APPROVED`, `DENIED` and `INACTIVE`
/// is accepted as itself, and no other text is.
pub proof fn loa_admin_decisions(value: Seq<char>)
    ensures
        (loa_admin_status(value) is Some) <==> (upper(trimmed(value)) == "APPROVED"@ || upper(trimmed(value))
            == "DENIED"@ || upper(trimmed(value)) == "INACTIVE"@),
        upper(trimmed(value)) == "APPROVED"@ ==> loa_admin_status(value) == Some("APPROVED"@),
        upper(trimmed(value)) == "DENIED"@ ==> loa_admin_status(value) == Some("DENIED"@),
        upper(trimmed(value)) == "INACTIVE"@ ==> loa_admin_status(value) == Some("INACTIVE"@),
{
}

/// Reads an administrator's decision on a leave of absence: trimmed and upper-cased, one
/// of `APPROVED`, `DENIED` or `INACTIVE`.
pub fn normalize_loa_admin_status(value: &str) -> (r: Result<&'static str, ApiError>)
    ensures
        match loa_admin_status(value@) {
            Some(s) => r matches Ok(t) && t@ == s,
            None => r == Err::<&'static str, ApiError>(ApiError::BadRequest),
        },
{
    let v = to_ascii_uppercase(trim(value));
    if str_eq(v.as_str(), "APPROVED") {
        Ok("APPROVED")
    } else if str_eq(v.as_str(), "DENIED") {
        Ok("DENIED")
    } else if str_eq(v.as_str(), "INACTIVE") {
        Ok("INACTIVE")
    } else {
        Err(ApiError::BadRequest)
    }
}

/// A controller status, by name.
pub open spec fn controller_status(value: Seq<char>) -> Option<Seq<char>> {
    let v = upper(trimmed(value));
    if v == "HOME"@ || v == "VISITOR"@ || v == "NONE"@ {
        Some(v)
    } else {
        None
    }
}

/// Reads a controller status: trimmed and upper-cased, one of `HOME`, `VISITOR` or `NONE`.
pub fn normalize_controller_status(value: &str) -> (r: Result<&'static str, ApiError>)
    ensures
        match controller_status(value@) {
            Some(s) => r matches Ok(t) && t@ == s,
            None => r == Err::<&'static str, ApiError>(ApiError::BadRequest),
        },
{
    let v = to_ascii_uppercase(trim(value));
    if str_eq(v.as_str(), "HOME") {
        Ok("HOME")
    } else if str_eq(v.as_str(), "VISITOR") {
        Ok("VISITOR")
    } else if str_eq(v.as_str(), "NONE") {
        Ok("NONE")
    } else {
        Err(ApiError::BadRequest)
    }
}

/// The e-mail template that tells a controller about the state of a leave of absence:
/// approval, denial, expiry (inactive and ended before `now`) or deletion (inactive
/// otherwise); none for any other state.
pub open spec fn loa_email_template_spec(status: Seq<char>, end: UtcTimestamp, now: UtcTimestamp) -> Option<Seq<char>> {
    if status == "APPROVED"@ {
        Some("loa.approved"@)
    } else if status == "DENIED"@ {
        Some("loa.denied"@)
    } else if status == "INACTIVE"@ {
        if ts_lt(end, now) {
            Some("loa.expired"@)
        } else {
            Some("loa.deleted"@)
        }
    } else {
        None
    }
}

/// Picks the e-mail template for a leave of absence in state `status` that ends at `end`,
/// at time `now`.
pub fn loa_email_template_at(status: &str, end: UtcTimestamp, now: UtcTimestamp) -> (r: Option<&'static str>)
    ensures
        opt_str_view(r) == loa_email_template_spec(status@, end, now),
{
    if str_eq(status, "APPROVED") {
        Some("loa.approved")
    } else if str_eq(status, "DENIED") {
        Some("loa.denied")
    } else if str_eq(status, "INACTIVE") {
        if is_before(end, now) {
            Some("loa.expired")
        } else {
            Some("loa.deleted")
        }
    } else {
        None
    }
}

/// Picks the e-mail template for a leave of absence, reading the clock for `now` where
/// the state needs it (an inactive leave); a clock that cannot be read is an internal
/// error.
pub fn loa_email_template(status: &str, end: UtcTimestamp) -> (r: Result<Option<&'static str>, ApiError>)
    ensures
        status@ != "INACTIVE"@ ==> (r matches Ok(t) && opt_str_view(t) == loa_email_template_spec(status@, end, end)),
        status@ == "INACTIVE"@ ==> match r {
            Ok(t) => exists|now: UtcTimestamp| opt_str_view(t) == #[trigger] loa_email_template_spec(status@, end, now),
            Err(e) => e == ApiError::Internal,
        },
{
    if !str_eq(status, "INACTIVE") {
        return Ok(loa_email_template_at(status, end, end));
    }
    match utc_now() {
        Some(now) => Ok(loa_email_template_at(status, end, now)),
        None => Err(ApiError::Internal),
    }
}

// ---------------------------------------------------------------------------
// Special-use airspace
// ---------------------------------------------------------------------------

/// One block of airspace in a special-use request, with its altitudes as flight levels.
#[derive(Debug)]
pub struct SuaAirspace {
    pub identifier: String,
    pub bottom_altitude: String,
    pub top_altitude: String,
}

/// A request to reserve special-use airspace.
#[derive(Debug)]
pub struct CreateSuaRequest {
    pub afiliation: String,
    pub details: String,
    pub start_at: UtcTimestamp,
    pub end_at: UtcTimestamp,
    pub airspace: Vec<SuaAirspace>,
}

/// Whether a text is a flight level: three digits once trimmed.
pub open spec fn flight_level_ok(value: Seq<char>) -> bool {
    trimmed(value).len() == 3 && all_digits(trimmed(value))
}

/// Checks that an altitude is written as a flight level.
pub fn is_valid_flight_level(value: &str) -> (r: bool)
    ensures
        r == flight_level_ok(value@),
{
    let t = trim(value);
    if t.unicode_len() != 3 {
        return false;
    }
    let mut i: usize = 0;
    while i < 3
        invariant
            t@ == trimmed(value@),
            t@.len() == 3,
            i <= 3,
            forall|k: int| 0 <= k < i ==> is_digit(#[trigger] t@[k]),
        decreases 3 - i,
    {
        let c = t.get_char(i);
        if !('0' <= c && c <= '9') {
            assert(!is_digit(t@[i as int]));
            return false;
        }
        i = i + 1;
    }
    true
}

/// Whether a block of airspace is described well enough: an identifier and two flight
/// levels.
pub open spec fn airspace_ok(a: SuaAirspace) -> bool {
    trimmed(a.identifier@).len() > 0 && flight_level_ok(a.bottom_altitude@) && flight_level_ok(
        a.top_altitude@,
    )
}

/// Whether a special-use request made at `now` is acceptable: an affiliation and details,
/// a start after `now`, an end after the start, between 30 minutes and 12 hours in all,
/// and at least one block of airspace, each described well enough.
pub open spec fn sua_request_ok(p: CreateSuaRequest, now: UtcTimestamp) -> bool {
    &&& trimmed(p.afiliation@).len() > 0
    &&& trimmed(p.details@).len() > 0
    &&& ts_lt(now, p.start_at)
    &&& ts_lt(p.start_at, p.end_at)
    &&& !span_below(elapsed(p.start_at, p.end_at), 1800int)
    &&& !span_above(elapsed(p.start_at, p.end_at), 43200int)
    &&& p.airspace@.len() > 0
    &&& forall|k: int| 0 <= k < p.airspace@.len() ==> airspace_ok(#[trigger] p.airspace@[k])
}

/// Checks a special-use request made at `now`.
pub fn validate_sua_request_at(payload: &CreateSuaRequest, now: UtcTimestamp) -> (r: Result<(), ApiError>)
    ensures
        sua_request_ok(*payload, now) ==> r is Ok,
        !sua_request_ok(*payload, now) ==> r == Err::<(), ApiError>(ApiError::BadRequest),
{
    if trim(payload.afiliation.as_str()).unicode_len() == 0 || trim(payload.details.as_str()).unicode_len()
        == 0 || !is_before(now, payload.start_at) || !is_before(payload.start_at, payload.end_at) {
        return Err(ApiError::BadRequest);
    }
    let (secs, nanos) = elapsed_between(&payload.start_at, &payload.end_at);
    let min: i64 = SUA_MIN_DURATION_MINUTES * 60;
    let max: i64 = SUA_MAX_DURATION_HOURS * 3600;
    if secs < min || (secs == min && nanos < 0) || secs > max || (secs == max && nanos > 0)
        || payload.airspace.len() == 0 {
        return Err(ApiError::BadRequest);
    }
    let mut i: usize = 0;
    while i < payload.airspace.len()
        invariant
            i <= payload.airspace@.len(),
            forall|k: int| 0 <= k < i ==> airspace_ok(#[trigger] payload.airspace@[k]),
        decreases payload.airspace@.len() - i,
    {
        let a = &payload.airspace[i];
        if trim(a.identifier.as_str()).unicode_len() == 0 || !is_valid_flight_level(
            a.bottom_altitude.as_str(),
        ) || !is_valid_flight_level(a.top_altitude.as_str()) {
            return Err(ApiError::BadRequest);
        }
        i = i + 1;
    }
    Ok(())
}

/// Checks a special-use request against the clock. A blank affiliation or details is a
/// bad request before the clock is read; a clock that cannot be read is an internal
/// error.
pub fn validate_sua_request(payload: &CreateSuaRequest) -> (r: Result<(), ApiError>)
    ensures
        trimmed(payload.afiliation@).len() == 0 || trimmed(payload.details@).len() == 0 ==> r == Err::<
            (),
            ApiError,
        >(ApiError::BadRequest),
        r == Err::<(), ApiError>(ApiError::Internal) || exists|now: UtcTimestamp|
            (#[trigger] sua_request_ok(*payload, now) ==> r is Ok) && (!sua_request_ok(*payload, now)
                ==> r == Err::<(), ApiError>(ApiError::BadRequest)),
{
    if trim(payload.afiliation.as_str()).unicode_len() == 0 || trim(payload.details.as_str()).unicode_len() == 0 {
        assert(!sua_request_ok(*payload, payload.start_at));
        return Err(ApiError::BadRequest);
    }
    match utc_now() {
        Some(now) => validate_sua_request_at(payload, now),
        None => Err(ApiError::Internal),
    }
}

/// The letter that stands for `n` below 26: `A` for 0 to `Z` for 25.
pub open spec fn letter(n: nat) -> char {
    (65 + n) as char
}

/// The mission number of a special-use request from a random `seed`: for a reservation
/// that starts within 24 hours of `now`, three digits (100 to 999) and a letter; for a
/// later one, four digits (1000 to 9999).
pub open spec fn mission_number_spec(start_at: UtcTimestamp, now: UtcTimestamp, seed: u32) -> Seq<char> {
    if !span_above(elapsed(now, start_at), 86400int) {
        decimal((100 + seed % 900) as nat) + seq![letter(((seed / 900) % 26) as nat)]
    } else {
        decimal((1000 + seed % 9000) as nat)
    }
}

/// Builds the mission number of a reservation starting at `start_at` from `seed`.
pub fn mission_number_from(start_at: UtcTimestamp, now: UtcTimestamp, seed: u32) -> (r: String)
    ensures
        r@ == mission_number_spec(start_at, now, seed),
{
    let (secs, nanos) = elapsed_between(&now, &start_at);
    let day: i64 = 24 * 3600;
    if !(secs > day || (secs == day && nanos > 0)) {
        let digits: u64 = 100 + (seed % 900) as u64;
        let rest: u32 = seed / 900;
        let suffix: u8 = (rest % 26) as u8 + 65;
        let mut out = crate::text::u64_to_decimal(digits);
        out.push(suffix as char);
        out
    } else {
        let digits: u64 = 1000 + (seed % 9000) as u64;
        crate::text::u64_to_decimal(digits)
    }
}

/// Builds the mission number of a reservation starting at `start_at`, seeded with the
/// nanoseconds of the clock; a clock that cannot be read is an internal error.
pub fn generate_mission_number(start_at: UtcTimestamp) -> (r: Result<String, ApiError>)
    ensures
        match r {
            Ok(s) => exists|now: UtcTimestamp, seed: u32| s@ == #[trigger] mission_number_spec(start_at, now, seed),
            Err(e) => e == ApiError::Internal,
        },
{
    let seed = match utc_now() {
        Some(t) => t.subsec_nanos(),
        None => return Err(ApiError::Internal),
    };
    let now = match utc_now() {
        Some(t) => t,
        None => return Err(ApiError::Internal),
    };
    Ok(mission_number_from(start_at, now, seed))
}

// ---------------------------------------------------------------------------
// Controller status changes
// ---------------------------------------------------------------------------

/// The ARTCC a status change names: trimmed and upper-cased, none when absent or blank.
pub open spec fn lifecycle_artcc_spec(value: Option<Seq<char>>) -> Option<Seq<char>> {
    match value {
        Some(v) => if trimmed(v).len() > 0 {
            Some(upper(trimmed(v)))
        } else {
            None
        },
        None => None,
    }
}

/// Reads the ARTCC of a status change.
pub fn normalize_lifecycle_artcc(value: Option<&str>) -> (r: Option<String>)
    ensures
        crate::text::opt_view(r) == lifecycle_artcc_spec(opt_str_view(value)),
{
    match value {
        Some(v) => {
            let t = trim(v);
            if t.unicode_len() > 0 {
                Some(to_ascii_uppercase(t))
            } else {
                None
            }
        },
        None => None,
    }
}

/// What a change of controller status does besides setting the status.
#[derive(Debug, Clone, Copy, PartialEq, Eq, Structural)]
pub struct LifecycleActions {
    pub clear_operating_initials: bool,
    pub delete_training_and_loas: bool,
    pub assign_operating_initials: bool,
    pub enable_welcome_message: bool,
}

/// Plans the side effects of setting a controller's status to `new_status`: leaving the
/// roster (`NONE`) clears the operating initials and, unless asked not to, deletes the
/// training requests, assignments and leaves; joining it assigns initials to a controller
/// without them and turns the welcome message on for one who had no status and has it off.
pub fn plan_controller_lifecycle(
    new_status: &str,
    cleanup_on_none: Option<bool>,
    has_operating_initials: bool,
    previous_status: &str,
    shows_welcome_message: bool,
) -> (r: LifecycleActions)
    ensures
        r.clear_operating_initials == (new_status@ == "NONE"@),
        r.delete_training_and_loas == (new_status@ == "NONE"@ && match cleanup_on_none {
            Some(b) => b,
            None => true,
        }),
        r.assign_operating_initials == (new_status@ != "NONE"@ && !has_operating_initials),
        r.enable_welcome_message == (new_status@ != "NONE"@ && previous_status@ == "NONE"@
            && !shows_welcome_message),
{
    let leaving = str_eq(new_status, "NONE");
    let cleanup = match cleanup_on_none {
        Some(b) => b,
        None => true,
    };
    LifecycleActions {
        clear_operating_initials: leaving,
        delete_training_and_loas: leaving && cleanup,
        assign_operating_initials: !leaving && !has_operating_initials,
        enable_welcome_message: !leaving && str_eq(previous_status, "NONE") && !shows_welcome_message,
    }
}

// ---------------------------------------------------------------------------
// Scheduled job status
// ---------------------------------------------------------------------------

/// The latest stored run of a scheduled job.
#[derive(Debug)]
pub struct JobRunRow {
    pub started_at: UtcTimestamp,
    pub finished_at: Option<UtcTimestamp>,
    pub status: String,
    pub error_text: Option<String>,
}

/// The status of a scheduled job as its latest run shows it.
#[derive(Debug)]
pub struct JobRunStatus {
    pub enabled: bool,
    pub last_started_at: Option<UtcTimestamp>,
    pub last_finished_at: Option<UtcTimestamp>,
    pub last_success_at: Option<UtcTimestamp>,
    pub last_result_ok: Option<bool>,
    pub last_error: Option<String>,
}

/// Whether a status is the one read off a job's latest run: enabled; a run succeeded when
/// its status is `succeeded`, and then its finish is the last success; without a run
/// nothing is known.
pub open spec fn read_off_run(r: JobRunStatus, latest_run: Option<JobRunRow>) -> bool {
    &&& r.enabled
    &&& match latest_run {
        Some(run) => {
            &&& r.last_started_at == Some(run.started_at)
            &&& r.last_finished_at == run.finished_at
            &&& r.last_success_at == (if run.status@ == "succeeded"@ {
                run.finished_at
            } else {
                None
            })
            &&& r.last_result_ok == Some(run.status@ == "succeeded"@)
            &&& r.last_error == run.error_text
        },
        None => {
            &&& r.last_started_at is None
            &&& r.last_finished_at is None
            &&& r.last_success_at is None
            &&& r.last_result_ok is None
            &&& r.last_error is None
        },
    }
}

/// Reads the status of a job that keeps no health record of its own off its latest run:
/// a run succeeded when its status is `succeeded`, and then its finish is the last
/// success.
pub fn job_status_from_run(latest_run: &Option<JobRunRow>) -> (r: JobRunStatus)
    ensures
        read_off_run(r, *latest_run),
{
    match latest_run {
        Some(run) => {
            let ok = str_eq(run.status.as_str(), "succeeded");
            JobRunStatus {
                enabled: true,
                last_started_at: Some(run.started_at),
                last_finished_at: run.finished_at,
                last_success_at: if ok {
                    run.finished_at
                } else {
                    None
                },
                last_result_ok: Some(ok),
                last_error: match &run.error_text {
                    Some(e) => Some(e.clone()),
                    None => None,
                },
            }
        },
        None => JobRunStatus {
            enabled: true,
            last_started_at: None,
            last_finished_at: None,
            last_success_at: None,
            last_result_ok: None,
            last_error: None,
        },
    }
}

/// The status of a scheduled job: the statistics worker reports its live environment and
/// the roster worker its health record; any other job is read off its latest run.
pub fn job_status(
    job_name: &str,
    stats_enabled: bool,
    stats_live: &EnvironmentSyncHealth,
    roster: &JobHealthRecord<RosterSyncMetrics>,
    latest_run: &Option<JobRunRow>,
) -> (r: JobRunStatus)
    ensures
        job_name@ == "stats_sync"@ ==> {
            &&& r.enabled == stats_enabled
            &&& r.last_started_at == stats_live.last_started_at
            &&& r.last_finished_at == stats_live.last_finished_at
            &&& r.last_success_at == stats_live.last_success_at
            &&& r.last_result_ok == stats_live.last_result_ok
            &&& r.last_error == stats_live.last_error
        },
        job_name@ == "roster_sync"@ ==> {
            &&& r.enabled == roster.enabled
            &&& r.last_started_at == roster.last_started_at
            &&& r.last_finished_at == roster.last_finished_at
            &&& r.last_success_at == roster.last_success_at
            &&& r.last_result_ok == roster.last_result_ok
            &&& r.last_error == roster.last_error
        },
        job_name@ != "stats_sync"@ && job_name@ != "roster_sync"@ ==> read_off_run(r, *latest_run),
{
    proof {
        reveal_strlit("stats_sync");
        reveal_strlit("roster_sync");
        assert("stats_sync"@[0] != "roster_sync"@[0]);
    }
    if str_eq(job_name, "stats_sync") {
        JobRunStatus {
            enabled: stats_enabled,
            last_started_at: stats_live.last_started_at,
            last_finished_at: stats_live.last_finished_at,
            last_success_at: stats_live.last_success_at,
            last_result_ok: stats_live.last_result_ok,
            last_error: clone_opt(&stats_live.last_error),
        }
    } else if str_eq(job_name, "roster_sync") {
        JobRunStatus {
            enabled: roster.enabled,
            last_started_at: roster.last_started_at,
            last_finished_at: roster.last_finished_at,
            last_success_at: roster.last_success_at,
            last_result_ok: roster.last_result_ok,
            last_error: clone_opt(&roster.last_error),
        }
    } else {
        job_status_from_run(latest_run)
    }
}

} // verus!
