use vstd::prelude::*;

verus! {

/// The error kinds that the service answers requests with.
#[derive(Debug, Clone, Copy, PartialEq, Eq, Structural)]
pub enum ApiError {
    BadRequest,
    NotFound,
    OAuthLoginOriginMismatch,
    OAuthStateCookieMissing,
    OAuthStateMismatch,
    Unauthorized,
    ServiceUnavailable,
    Internal,
}

} // verus!
