//! Claims of the HS256 JWT issued for a successful verification.

use vstd::prelude::*;
use vstd::string::*;
use crate::protocol::JwtClaims;

verus! {

/// Build a fresh [`JwtClaims`] for `origin`, valid until `exp` (unix epoch s):
/// issuer `webrify`, audience and origin both `origin`.
pub fn claims_for(origin: &str, jti: &str, exp: i64) -> (c: JwtClaims)
    ensures
        c.iss@ == "webrify"@,
        c.aud@ == origin@,
        c.jti@ == jti@,
        c.exp == exp,
        c.origin@ == origin@,
{
    JwtClaims {
        iss: String::from_str("webrify"),
        aud: String::from_str(origin),
        jti: String::from_str(jti),
        exp,
        origin: String::from_str(origin),
    }
}

} // verus!
