//! Event scheduling: an event may not end before it starts.
use vstd::prelude::*;

use crate::error::ApiError;
use crate::timestamp::{is_before, ts_lt, UtcTimestamp};

verus! {

/// Checks the window of an event: an end before the start is a bad request; an end equal
/// to the start is accepted.
pub fn validate_event_window(starts_at: UtcTimestamp, ends_at: UtcTimestamp) -> (r: Result<(), ApiError>)
    ensures
        ts_lt(ends_at, starts_at) ==> r == Err::<(), ApiError>(ApiError::BadRequest),
        !ts_lt(ends_at, starts_at) ==> r is Ok,
{
    if is_before(ends_at, starts_at) {
        return Err(ApiError::BadRequest);
    }
    Ok(())
}

/// Checks the window an event update leaves: each time the update gives replaces the
/// stored one, and the resulting window is checked by `validate_event_window`.
pub fn validate_event_update_window(
    starts_at: Option<UtcTimestamp>,
    ends_at: Option<UtcTimestamp>,
    stored_starts_at: UtcTimestamp,
    stored_ends_at: UtcTimestamp,
) -> (r: Result<(), ApiError>)
    ensures
        ({
            let s = match starts_at {
                Some(t) => t,
                None => stored_starts_at,
            };
            let e = match ends_at {
                Some(t) => t,
                None => stored_ends_at,
            };
            &&& ts_lt(e, s) ==> r == Err::<(), ApiError>(ApiError::BadRequest)
            &&& !ts_lt(e, s) ==> r is Ok
        }),
{
    let s = match starts_at {
        Some(t) => t,
        None => stored_starts_at,
    };
    let e = match ends_at {
        Some(t) => t,
        None => stored_ends_at,
    };
    validate_event_window(s, e)
}

} // verus!
