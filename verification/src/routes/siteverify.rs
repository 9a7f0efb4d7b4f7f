//! `POST /siteverify`: relying-app backends validate a token here.
//!
//! The server decodes and checks the JWT's signature and expiry with its
//! key; this module turns the outcome, and the optional expected origin,
//! into the answer. The endpoint always answers 200: `success` carries the
//! verdict.

use vstd::prelude::*;
use vstd::string::*;
use crate::protocol::JwtClaims;
use crate::text::str_eq;

verus! {

/// A token check request.
#[derive(Debug, Clone)]
pub struct SiteVerifyRequest {
    /// The JWT the widget obtained from `/verify`.
    pub token: String,
    /// Optional expected origin: when set, the token's audience must match.
    pub origin: Option<String>,
}

/// The verdict on a token.
#[derive(Debug, Clone)]
pub struct SiteVerifyResponse {
    pub success: bool,
    /// The origin the token was bound to (only on success).
    pub origin: Option<String>,
    /// Token expiry, unix epoch seconds (only on success).
    pub expires_at: Option<i64>,
    /// Present only on failure (human-readable reason).
    pub error: Option<String>,
}

/// The token's audience is acceptable: no origin is expected, or the
/// audience is exactly the expected origin.
pub open spec fn audience_ok(claims: JwtClaims, expected: Option<Seq<char>>) -> bool {
    match expected {
        None => true,
        Some(o) => claims.aud@ == o,
    }
}

/// The answer for a token whose decoding gave `decoded` (the claims, or the
/// decoder's reason for refusing the token).
pub fn site_verify_response(decoded: Result<JwtClaims, String>, expected_origin: Option<&str>) -> (resp: SiteVerifyResponse)
    ensures
        match decoded {
            Ok(claims) => if audience_ok(claims, match expected_origin { Some(o) => Some(o@), None => None }) {
                &&& resp.success
                &&& resp.origin matches Some(o) && o@ == claims.origin@
                &&& resp.expires_at == Some(claims.exp)
                &&& resp.error is None
            } else {
                &&& !resp.success
                &&& resp.origin is None
                &&& resp.expires_at is None
                &&& resp.error matches Some(e) && e@ == "InvalidAudience"@
            },
            Err(msg) => {
                &&& !resp.success
                &&& resp.origin is None
                &&& resp.expires_at is None
                &&& resp.error matches Some(e) && e@ == msg@
            },
        },
{
    match decoded {
        Ok(claims) => {
            let aud_ok = match expected_origin {
                None => true,
                Some(o) => str_eq(claims.aud.as_str(), o),
            };
            if aud_ok {
                SiteVerifyResponse { success: true, origin: Some(claims.origin), expires_at: Some(claims.exp), error: None }
            } else {
                SiteVerifyResponse {
                    success: false,
                    origin: None,
                    expires_at: None,
                    error: Some(String::from_str("InvalidAudience")),
                }
            }
        },
        Err(msg) => SiteVerifyResponse { success: false, origin: None, expires_at: None, error: Some(msg) },
    }
}

} // verus!
