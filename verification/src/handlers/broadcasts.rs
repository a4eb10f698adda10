//! Broadcast texts: a required field must not be blank, an optional one is dropped when
//! blank.
use vstd::prelude::*;

use crate::error::ApiError;
use crate::text::{optional_text, opt_str_view, opt_view, owned, trim, trimmed};

verus! {

/// A required broadcast field: trimmed, and a bad request when blank.
pub fn normalize_required(value: &str) -> (r: Result<String, ApiError>)
    ensures
        match r {
            Ok(s) => trimmed(value@).len() > 0 && s@ == trimmed(value@),
            Err(e) => trimmed(value@).len() == 0 && e == ApiError::BadRequest,
        },
{
    let t = trim(value);
    if t.unicode_len() == 0 {
        return Err(ApiError::BadRequest);
    }
    Ok(owned(t))
}

/// An optional broadcast field: trimmed, none when absent or blank.
pub fn normalize_optional(value: Option<&str>) -> (r: Option<String>)
    ensures
        opt_view(r) == optional_text(opt_str_view(value)),
{
    match value {
        Some(item) => {
            let t = trim(item);
            if t.unicode_len() == 0 {
                None
            } else {
                Some(owned(t))
            }
        },
        None => None,
    }
}

} // verus!
