//! Pilot feedback: what a submission must hold, the statuses staff may set, and which
//! items a viewer may list.
use vstd::prelude::*;

use crate::error::ApiError;
use crate::text::{opt_str_view, opt_view, owned, str_eq, to_ascii_uppercase, trim, trimmed, upper};

verus! {

/// Checks a feedback submission: a rating from 1 to 5, and a pilot callsign and a
/// controller position that are not blank; gives the two texts trimmed.
pub fn validate_feedback_submission(
    rating: i32,
    pilot_callsign: &str,
    controller_position: &str,
) -> (r: Result<(String, String), ApiError>)
    ensures
        (1 <= rating <= 5 && trimmed(pilot_callsign@).len() > 0 && trimmed(controller_position@).len()
            > 0) ==> (r matches Ok((p, c)) && p@ == trimmed(pilot_callsign@) && c@ == trimmed(
            controller_position@,
        )),
        !(1 <= rating <= 5 && trimmed(pilot_callsign@).len() > 0 && trimmed(controller_position@).len()
            > 0) ==> r == Err::<(String, String), ApiError>(ApiError::BadRequest),
{
    if rating < 1 || rating > 5 {
        return Err(ApiError::BadRequest);
    }
    let p = trim(pilot_callsign);
    let c = trim(controller_position);
    if p.unicode_len() == 0 || c.unicode_len() == 0 {
        return Err(ApiError::BadRequest);
    }
    Ok((owned(p), owned(c)))
}

/// Whether a name is a feedback status: `PENDING`, `RELEASED` or `STASHED`.
pub open spec fn feedback_status(v: Seq<char>) -> bool {
    v == "PENDING"@ || v == "RELEASED"@ || v == "STASHED"@
}

/// The status filter of a feedback listing: none when absent or blank, else the trimmed,
/// upper-cased status; a value that is no status is a bad request.
pub open spec fn feedback_filter_spec(value: Option<Seq<char>>) -> Result<Option<Seq<char>>, ApiError> {
    match value {
        None => Ok(None),
        Some(v) => if trimmed(v).len() == 0 {
            Ok(None)
        } else if feedback_status(upper(trimmed(v))) {
            Ok(Some(upper(trimmed(v))))
        } else {
            Err(ApiError::BadRequest)
        },
    }
}

/// Reads the status filter of a feedback listing.
pub fn normalize_feedback_status_filter(value: Option<&str>) -> (r: Result<Option<String>, ApiError>)
    ensures
        match feedback_filter_spec(opt_str_view(value)) {
            Ok(f) => r matches Ok(g) && opt_view(g) == f,
            Err(e) => r == Err::<Option<String>, ApiError>(e),
        },
{
    match value {
        None => Ok(None),
        Some(v) => {
            let t = trim(v);
            if t.unicode_len() == 0 {
                return Ok(None);
            }
            let u = to_ascii_uppercase(t);
            if str_eq(u.as_str(), "PENDING") || str_eq(u.as_str(), "RELEASED") || str_eq(
                u.as_str(),
                "STASHED",
            ) {
                Ok(Some(u))
            } else {
                Err(ApiError::BadRequest)
            }
        },
    }
}

/// Reads the status staff give a feedback item: trimmed and upper-cased, a bad request
/// unless it is a feedback status.
pub fn normalize_feedback_decision(value: &str) -> (r: Result<String, ApiError>)
    ensures
        feedback_status(upper(trimmed(value@))) ==> (r matches Ok(s) && s@ == upper(trimmed(value@))),
        !feedback_status(upper(trimmed(value@))) ==> r == Err::<String, ApiError>(ApiError::BadRequest),
{
    let u = to_ascii_uppercase(trim(value));
    if str_eq(u.as_str(), "PENDING") || str_eq(u.as_str(), "RELEASED") || str_eq(u.as_str(), "STASHED") {
        Ok(u)
    } else {
        Err(ApiError::BadRequest)
    }
}

/// Which feedback items a viewer lists: all of them with the permission to read all,
/// their own with the permission to read their own (`Ok(false)`), else none at all.
pub fn feedback_list_scope(can_read_all: bool, can_read_self: bool) -> (r: Result<bool, ApiError>)
    ensures
        can_read_all ==> r == Ok::<bool, ApiError>(true),
        !can_read_all && can_read_self ==> r == Ok::<bool, ApiError>(false),
        !can_read_all && !can_read_self ==> r == Err::<bool, ApiError>(ApiError::Unauthorized),
{
    if !can_read_all && !can_read_self {
        return Err(ApiError::Unauthorized);
    }
    Ok(can_read_all)
}

/// The page of a listing: `limit` items (50 by default, kept within 1 to 500) from
/// `offset` (0 by default, never negative).
pub fn feedback_page(limit: Option<i64>, offset: Option<i64>) -> (r: (i64, i64))
    ensures
        r.0 == ({
            let l = match limit {
                Some(n) => n,
                None => 50,
            };
            if l < 1 {
                1
            } else if l > 500 {
                500
            } else {
                l
            }
        }),
        r.1 == ({
            let o = match offset {
                Some(n) => n,
                None => 0,
            };
            if o < 0 {
                0
            } else {
                o
            }
        }),
{
    let l = match limit {
        Some(n) => n,
        None => 50,
    };
    let l = if l < 1 {
        1
    } else if l > 500 {
        500
    } else {
        l
    };
    let o = match offset {
        Some(n) => n,
        None => 0,
    };
    let o = if o < 0 {
        0
    } else {
        o
    };
    (l, o)
}

} // verus!
