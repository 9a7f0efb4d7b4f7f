//! Wire protocol types shared between the server and clients.
//!
//! The PoW seed passed to [`crate::pow::solve`] / [`crate::pow::verify`] is
//! the raw bytes obtained by hex-decoding [`Challenge::challenge`], followed
//! by the hex-decoded fingerprint when the client sends one. The salt is
//! covered by the HMAC signature but is not part of the PoW seed.

use vstd::prelude::*;

verus! {

/// A server-minted challenge handed to the client to solve.
#[derive(Debug, Clone, PartialEq, Eq)]
pub struct Challenge {
    /// Hash algorithm, e.g. `"SHA-256"`. Covered by `signature`.
    pub algorithm: String,
    /// Per-challenge random salt (hex). Covered by `signature`. Not part of the PoW seed.
    pub salt: String,
    /// The PoW seed (hex).
    pub challenge: String,
    /// Required leading zero bits in the PoW hash.
    pub difficulty: u32,
    /// Upper bound on the nonce search space. Covered by `signature`.
    pub maxnumber: u64,
    /// Challenge expiry, unix epoch seconds. Covered by `signature`.
    pub expires_at: i64,
    /// Origin this challenge is bound to. Covered by `signature`.
    pub origin: String,
    /// `HMAC-SHA256(secret, algorithm|salt|challenge|difficulty|maxnumber|expires_at|origin)` (hex).
    pub signature: String,
}

/// A client's verification submission: every challenge field echoed back,
/// plus the solution and the optional client signals.
#[derive(Debug, Clone, PartialEq, Eq)]
pub struct VerifyRequest {
    /// Hash algorithm (echoed from the challenge; needed to recompute HMAC).
    pub algorithm: String,
    /// The PoW seed (hex; hex-decode identically to the client).
    pub challenge: String,
    /// Per-challenge salt (hex; echoed).
    pub salt: String,
    /// Required leading zero bits (echoed).
    pub difficulty: u32,
    /// Nonce search-space cap (echoed); the server checks `nonce <= maxnumber`.
    pub maxnumber: u64,
    /// Expiry (echoed).
    pub expires_at: i64,
    /// Origin (echoed).
    pub origin: String,
    /// HMAC signature (echoed).
    pub signature: String,
    /// The nonce the client found.
    pub nonce: u64,
    /// Client-generated key making repeated submits idempotent.
    pub idempotency_key: String,
    /// Optional client-computed fingerprint hash (hex).
    pub fingerprint: Option<String>,
    /// Optional client-computed behavior score in `[0, 100]` (higher = more human-like).
    pub behavior_score: Option<u32>,
}

/// JWT body issued by the server after a successful verification.
#[derive(Debug, Clone, PartialEq, Eq)]
pub struct JwtClaims {
    /// Issuer (`"webrify"`).
    pub iss: String,
    /// Audience (the bound origin).
    pub aud: String,
    /// Unique token id (random, for revocation/audit).
    pub jti: String,
    /// Expiry, unix epoch seconds.
    pub exp: i64,
    /// Origin this token is bound to.
    pub origin: String,
}

} // verus!
