//! Incident reports: what a report must hold, and that a closed incident is not closed
//! again.
use vstd::prelude::*;

use crate::error::ApiError;
use crate::text::{trim, trimmed};
use crate::timestamp::{is_before, ts_lt, utc_now, UtcTimestamp};

verus! {

/// A reply that carries only a message.
#[derive(Debug)]
pub struct ApiMessageBody {
    pub message: String,
}

/// Whether an incident report made at `now` is acceptable: a reason and the reportee's
/// callsign, and a time that is not in the future.
pub open spec fn incident_report_ok(reason: Seq<char>, reportee_callsign: Seq<char>, timestamp: UtcTimestamp, now: UtcTimestamp) -> bool {
    trimmed(reason).len() > 0 && trimmed(reportee_callsign).len() > 0 && !ts_lt(now, timestamp)
}

/// Checks an incident report made at `now`.
pub fn validate_incident_report_at(
    reason: &str,
    reportee_callsign: &str,
    timestamp: UtcTimestamp,
    now: UtcTimestamp,
) -> (r: Result<(), ApiError>)
    ensures
        incident_report_ok(reason@, reportee_callsign@, timestamp, now) ==> r is Ok,
        !incident_report_ok(reason@, reportee_callsign@, timestamp, now) ==> r == Err::<(), ApiError>(
            ApiError::BadRequest,
        ),
{
    if trim(reason).unicode_len() == 0 || trim(reportee_callsign).unicode_len() == 0 || is_before(
        now,
        timestamp,
    ) {
        return Err(ApiError::BadRequest);
    }
    Ok(())
}

/// Checks an incident report against the clock. A blank reason or reportee callsign is a
/// bad request before the clock is read; a clock that cannot be read is an internal
/// error.
pub fn validate_incident_report(reason: &str, reportee_callsign: &str, timestamp: UtcTimestamp) -> (r: Result<(), ApiError>)
    ensures
        trimmed(reason@).len() == 0 || trimmed(reportee_callsign@).len() == 0 ==> r == Err::<(), ApiError>(
            ApiError::BadRequest,
        ),
        r == Err::<(), ApiError>(ApiError::Internal) || exists|now: UtcTimestamp|
            (#[trigger] incident_report_ok(reason@, reportee_callsign@, timestamp, now) ==> r is Ok) && (
            !incident_report_ok(reason@, reportee_callsign@, timestamp, now) ==> r == Err::<(), ApiError>(
                ApiError::BadRequest,
            )),
{
    if trim(reason).unicode_len() == 0 || trim(reportee_callsign).unicode_len() == 0 {
        assert(!incident_report_ok(reason@, reportee_callsign@, timestamp, timestamp));
        return Err(ApiError::BadRequest);
    }
    match utc_now() {
        Some(now) => validate_incident_report_at(reason, reportee_callsign, timestamp, now),
        None => Err(ApiError::Internal),
    }
}

/// Checks an update of an incident: closing one that is already closed is a bad request.
pub fn check_incident_update(already_closed: bool, closing: bool) -> (r: Result<(), ApiError>)
    ensures
        (already_closed && closing) ==> r == Err::<(), ApiError>(ApiError::BadRequest),
        !(already_closed && closing) ==> r is Ok,
{
    if already_closed && closing {
        return Err(ApiError::BadRequest);
    }
    Ok(())
}

} // verus!
