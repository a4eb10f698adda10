//! Training administration: progressions, performance indicator templates, categories
//! and criteria must be named.
use vstd::prelude::*;

use crate::error::ApiError;
use crate::text::{trim, trimmed};

verus! {

/// A reply that carries only a message.
#[derive(Debug)]
pub struct ApiMessageBody {
    pub message: String,
}

/// Checks the name of a progression, template, category or criterion: it must not be
/// blank.
pub fn check_name(name: &str) -> (r: Result<(), ApiError>)
    ensures
        trimmed(name@).len() > 0 ==> r is Ok,
        trimmed(name@).len() == 0 ==> r == Err::<(), ApiError>(ApiError::BadRequest),
{
    if trim(name).unicode_len() == 0 {
        return Err(ApiError::BadRequest);
    }
    Ok(())
}

} // verus!
