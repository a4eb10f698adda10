//! Administration rules: the filters and decisions on visitor applications, and the
//! facility whose roster a decision adds a visitor to.
use vstd::prelude::*;

use crate::error::ApiError;
use crate::text::{optional_text, opt_str_view, opt_view, owned, str_eq, to_ascii_uppercase, trim, trimmed, upper};

verus! {

/// The facility used when none is configured.
pub const DEFAULT_VATUSA_FACILITY_ID: &'static str = "ZDC";

/// The status filter of a visitor application listing: none when absent or blank, else
/// the trimmed, upper-cased value when it is `PENDING`, `APPROVED` or `DENIED`; any other
/// value is a bad request.
pub open spec fn application_filter_spec(value: Option<Seq<char>>) -> Result<Option<Seq<char>>, ApiError> {
    match value {
        None => Ok(None),
        Some(v) => if trimmed(v).len() == 0 {
            Ok(None)
        } else {
            let u = upper(trimmed(v));
            if u == "PENDING"@ || u == "APPROVED"@ || u == "DENIED"@ {
                Ok(Some(u))
            } else {
                Err(ApiError::BadRequest)
            }
        },
    }
}

/// Reads the status filter of a visitor application listing.
pub fn normalize_visitor_application_status_filter(value: Option<&str>) -> (r: Result<Option<String>, ApiError>)
    ensures
        match application_filter_spec(opt_str_view(value)) {
            Ok(f) => r matches Ok(g) && opt_view(g) == f,
            Err(e) => r == Err::<Option<String>, ApiError>(e),
        },
{
    match value {
        None => Ok(None),
        Some(v) => {
            let t = trim(v);
            if t.unicode_len() == 0 {
                return Ok(None);
            }
            let u = to_ascii_uppercase(t);
            if str_eq(u.as_str(), "PENDING") || str_eq(u.as_str(), "APPROVED") || str_eq(
                u.as_str(),
                "DENIED",
            ) {
                Ok(Some(u))
            } else {
                Err(ApiError::BadRequest)
            }
        },
    }
}

/// A decision on a visitor application, by name: `APPROVED` or `DENIED` once trimmed and
/// upper-cased.
pub open spec fn application_decision_spec(value: Seq<char>) -> Option<Seq<char>> {
    let u = upper(trimmed(value));
    if u == "APPROVED"@ || u == "DENIED"@ {
        Some(u)
    } else {
        None
    }
}

/// Reads a decision on a visitor application.
pub fn normalize_visitor_application_decision_status(value: &str) -> (r: Result<&'static str, ApiError>)
    ensures
        match application_decision_spec(value@) {
            Some(s) => r matches Ok(t) && t@ == s,
            None => r == Err::<&'static str, ApiError>(ApiError::BadRequest),
        },
{
    let u = to_ascii_uppercase(trim(value));
    if str_eq(u.as_str(), "APPROVED") {
        Ok("APPROVED")
    } else if str_eq(u.as_str(), "DENIED") {
        Ok("DENIED")
    } else {
        Err(ApiError::BadRequest)
    }
}

/// What a decision on a visitor application records: its status, and the reason for a
/// denial (trimmed), which a denial must give; an approval records no reason.
pub open spec fn visitor_decision_spec(status: Seq<char>, reason: Option<Seq<char>>) -> Result<(Seq<char>, Option<Seq<char>>), ApiError> {
    match application_decision_spec(status) {
        None => Err(ApiError::BadRequest),
        Some(s) => if s == "DENIED"@ {
            match optional_text(reason) {
                None => Err(ApiError::BadRequest),
                Some(why) => Ok((s, Some(why))),
            }
        } else {
            Ok((s, None))
        },
    }
}

/// Checks a decision on a visitor application and gives what it records.
pub fn check_visitor_decision(status: &str, reason_for_denial: Option<&str>) -> (r: Result<(&'static str, Option<String>), ApiError>)
    ensures
        match visitor_decision_spec(status@, opt_str_view(reason_for_denial)) {
            Ok((s, why)) => r matches Ok((t, w)) && t@ == s && opt_view(w) == why,
            Err(e) => r == Err::<(&'static str, Option<String>), ApiError>(e),
        },
{
    let normalized = normalize_visitor_application_decision_status(status)?;
    let reason = match reason_for_denial {
        Some(v) => {
            let t = trim(v);
            if t.unicode_len() > 0 {
                Some(owned(t))
            } else {
                None
            }
        },
        None => None,
    };
    if str_eq(normalized, "DENIED") {
        match reason {
            None => Err(ApiError::BadRequest),
            Some(why) => Ok((normalized, Some(why))),
        }
    } else {
        Ok((normalized, None))
    }
}

/// The facility a `VATUSA_FACILITY_ID` value names: trimmed and upper-cased, `ZDC` when
/// absent or blank.
pub open spec fn configured_artcc_spec(raw: Option<Seq<char>>) -> Seq<char> {
    match raw {
        Some(v) => if trimmed(v).len() > 0 {
            upper(trimmed(v))
        } else {
            "ZDC"@
        },
        None => "ZDC"@,
    }
}

/// Reads the `VATUSA_FACILITY_ID` setting.
pub fn configured_artcc(raw: Option<&str>) -> (r: String)
    ensures
        r@ == configured_artcc_spec(opt_str_view(raw)),
{
    match raw {
        Some(v) => {
            let t = trim(v);
            if t.unicode_len() > 0 {
                to_ascii_uppercase(t)
            } else {
                owned(DEFAULT_VATUSA_FACILITY_ID)
            }
        },
        None => owned(DEFAULT_VATUSA_FACILITY_ID),
    }
}

} // verus!
