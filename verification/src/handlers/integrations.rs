//! Discord integration rules: linking an account, and what an announcement must hold.
use vstd::prelude::*;

use crate::error::ApiError;
use crate::text::{str_eq, trim, trimmed};
use crate::timestamp::{is_before, ts_lt, UtcTimestamp};

verus! {

/// A reply that carries only a message.
#[derive(Debug)]
pub struct ApiMessageBody {
    pub message: String,
}

/// Checks the request that completes a Discord link: a code and a state, neither blank.
pub fn check_link_request(code: &str, state: &str) -> (r: Result<(), ApiError>)
    ensures
        (trimmed(code@).len() > 0 && trimmed(state@).len() > 0) ==> r is Ok,
        !(trimmed(code@).len() > 0 && trimmed(state@).len() > 0) ==> r == Err::<(), ApiError>(
            ApiError::BadRequest,
        ),
{
    if trim(code).unicode_len() == 0 || trim(state).unicode_len() == 0 {
        return Err(ApiError::BadRequest);
    }
    Ok(())
}

/// Checks the stored link state at `now`: it must belong to the user completing the link
/// (else unauthorized), name an expiry (else a bad request), and not have expired.
pub fn check_link_state(
    state_user_id: &str,
    user_id: &str,
    expires_at: Option<UtcTimestamp>,
    now: UtcTimestamp,
) -> (r: Result<(), ApiError>)
    ensures
        state_user_id@ != user_id@ ==> r == Err::<(), ApiError>(ApiError::Unauthorized),
        state_user_id@ == user_id@ ==> match expires_at {
            None => r == Err::<(), ApiError>(ApiError::BadRequest),
            Some(t) => if ts_lt(t, now) {
                r == Err::<(), ApiError>(ApiError::BadRequest)
            } else {
                r is Ok
            },
        },
{
    if !str_eq(state_user_id, user_id) {
        return Err(ApiError::Unauthorized);
    }
    match expires_at {
        None => Err(ApiError::BadRequest),
        Some(t) => if is_before(t, now) {
            Err(ApiError::BadRequest)
        } else {
            Ok(())
        },
    }
}

/// Checks that a Discord identity is not linked to someone else.
pub fn check_identity_owner(existing_owner: Option<&str>, user_id: &str) -> (r: Result<(), ApiError>)
    ensures
        match existing_owner {
            Some(o) => if o@ != user_id@ {
                r == Err::<(), ApiError>(ApiError::BadRequest)
            } else {
                r is Ok
            },
            None => r is Ok,
        },
{
    match existing_owner {
        Some(o) => if str_eq(o, user_id) {
            Ok(())
        } else {
            Err(ApiError::BadRequest)
        },
        None => Ok(()),
    }
}

/// Checks an announcement: a title and a body, neither blank.
pub fn check_announcement(title: &str, body_markdown: &str) -> (r: Result<(), ApiError>)
    ensures
        (trimmed(title@).len() > 0 && trimmed(body_markdown@).len() > 0) ==> r is Ok,
        !(trimmed(title@).len() > 0 && trimmed(body_markdown@).len() > 0) ==> r == Err::<(), ApiError>(
            ApiError::BadRequest,
        ),
{
    if trim(title).unicode_len() == 0 || trim(body_markdown).unicode_len() == 0 {
        return Err(ApiError::BadRequest);
    }
    Ok(())
}

} // verus!
