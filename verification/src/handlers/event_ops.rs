//! Event operations: traffic management initiatives must name their type.
use vstd::prelude::*;

use crate::error::ApiError;
use crate::text::{trim, trimmed};

verus! {

/// A reply that carries only a message.
#[derive(Debug)]
pub struct ApiMessageBody {
    pub message: String,
}

/// Checks the type of a traffic management initiative: it must not be blank.
pub fn check_tmi_type(tmi_type: &str) -> (r: Result<(), ApiError>)
    ensures
        trimmed(tmi_type@).len() > 0 ==> r is Ok,
        trimmed(tmi_type@).len() == 0 ==> r == Err::<(), ApiError>(ApiError::BadRequest),
{
    if trim(tmi_type).unicode_len() == 0 {
        return Err(ApiError::BadRequest);
    }
    Ok(())
}

} // verus!
