//! Server errors and the HTTP status and message each one is answered with.
//!
//! Internal errors never leak details to the client: they are projected as a
//! generic `500 internal error`; a failing anti-replay store as `503`.

use vstd::prelude::*;
use vstd::string::*;

verus! {

/// Why a request was refused.
#[derive(Debug, Clone, PartialEq, Eq)]
pub enum AppError {
    /// Malformed request; holds the reason shown to the client.
    BadRequest(String),
    /// The origin is not on the allowlist; holds the origin.
    OriginNotAllowed(String),
    /// The challenge expired or was never issued.
    ChallengeInvalid,
    /// The challenge was already spent (replay rejected).
    ChallengeAlreadyUsed,
    /// Signature, proof of work, nonce cap or risk check failed.
    VerifyFailed,
    /// The anti-replay store failed; verification fails closed.
    Redis,
    /// Any other internal failure.
    Internal,
}

/// The `Debug` rendering of a string (quoted, with escapes).
pub uninterp spec fn spec_debug_str(s: Seq<char>) -> Seq<char>;

/// Renders `s` with `format!("{s:?}")`. Trusted: the result is the `Debug`
/// rendering of `s` that `spec_debug_str` names.
#[verifier::external_body]
fn debug_str(s: &str) -> (r: String)
    ensures
        r@ == spec_debug_str(s@),
{
    format!("{s:?}")
}

/// The HTTP status an error is answered with.
pub open spec fn status_of(e: AppError) -> u16 {
    match e {
        AppError::BadRequest(_) => 400,
        AppError::OriginNotAllowed(_) => 403,
        AppError::ChallengeInvalid => 400,
        AppError::ChallengeAlreadyUsed => 409,
        AppError::VerifyFailed => 403,
        AppError::Redis => 503,
        AppError::Internal => 500,
    }
}

/// The message an error is answered with.
pub open spec fn message_of(e: AppError) -> Seq<char> {
    match e {
        AppError::BadRequest(m) => m@,
        AppError::OriginNotAllowed(o) => "origin "@ + spec_debug_str(o@) + " is not allowed"@,
        AppError::ChallengeInvalid => "challenge expired or not found"@,
        AppError::ChallengeAlreadyUsed => "challenge already used"@,
        AppError::VerifyFailed => "verification failed"@,
        AppError::Redis => "verification temporarily unavailable"@,
        AppError::Internal => "internal error"@,
    }
}

impl AppError {
    /// Wrap an unexpected internal error: the client only ever sees the
    /// generic [`AppError::Internal`].
    pub fn internal<E>(e: E) -> (r: AppError)
        ensures
            r == AppError::Internal,
    {
        AppError::Internal
    }

    /// The status code and the `error` message of the JSON body this error
    /// is answered with.
    pub fn response_parts(&self) -> (r: (u16, String))
        ensures
            r.0 == status_of(*self),
            r.1@ == message_of(*self),
    {
        match self {
            AppError::BadRequest(m) => (400, m.clone()),
            AppError::OriginNotAllowed(o) => {
                let mut s = String::from_str("origin ");
                s.append(debug_str(o.as_str()).as_str());
                s.append(" is not allowed");
                (403, s)
            },
            AppError::ChallengeInvalid => (400, String::from_str("challenge expired or not found")),
            AppError::ChallengeAlreadyUsed => (409, String::from_str("challenge already used")),
            AppError::VerifyFailed => (403, String::from_str("verification failed")),
            AppError::Redis => (503, String::from_str("verification temporarily unavailable")),
            AppError::Internal => (500, String::from_str("internal error")),
        }
    }
}

} // verus!
