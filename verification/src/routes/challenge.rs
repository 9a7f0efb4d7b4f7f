//! `POST /challenge`: mint an HMAC-signed challenge.
//!
//! The request `Origin` is checked against the allowlist before signing, so
//! a signature can only ever bind an allowed origin.

use vstd::prelude::*;
use vstd::string::*;
use vstd::utf8::encode_utf8;
use crate::config::{Config, origin_allowed};
use crate::error::AppError;
use crate::hexstr::{self, hex_encode};
use crate::hmac::{self, signature_of, signing_text};
use crate::pow::{adjust_difficulty, adjusted_difficulty, MAX_ESCALATION_BITS};
use crate::protocol::Challenge;
use crate::rng;
use crate::clock::now_secs;

verus! {

/// Bytes of random salt per challenge.
pub const SALT_BYTES: usize = 16;

/// The escalation bump [`adjust_difficulty`] applies.
pub open spec fn escalation_bump(escalations: u32) -> int {
    if escalations < MAX_ESCALATION_BITS { escalations as int } else { MAX_ESCALATION_BITS as int }
}

/// The expiry of a challenge minted at `now`.
pub open spec fn expiry(config: Config, now: i64) -> int {
    now + (config.challenge_ttl_secs as i64)
}

/// Minting is defined: the escalated difficulty and the expiry fit their types.
pub open spec fn mintable(config: Config, escalations: u32, now: i64) -> bool {
    &&& config.difficulty + escalation_bump(escalations) <= u32::MAX
    &&& i64::MIN <= expiry(config, now) <= i64::MAX
}

/// `c` is the challenge minted for `origin` from `salt` and `seed` at `now`:
/// SHA-256, hex salt and seed, escalated difficulty, the configured nonce cap,
/// expiry `now + ttl`, and the HMAC signature of all these fields.
pub open spec fn challenge_minted(
    config: Config,
    origin: Seq<char>,
    escalations: u32,
    salt: Seq<u8>,
    seed: Seq<u8>,
    now: i64,
    c: Challenge,
) -> bool {
    &&& c.algorithm@ == "SHA-256"@
    &&& c.salt@ == hex_encode(salt)
    &&& c.challenge@ == hex_encode(seed)
    &&& c.difficulty == adjusted_difficulty(config.difficulty, escalations)
    &&& c.maxnumber == config.maxnumber
    &&& c.expires_at == expiry(config, now)
    &&& c.origin@ == origin
    &&& c.signature@ == signature_of(
        encode_utf8(config.hmac_key@),
        signing_text(c.algorithm@, c.salt@, c.challenge@, c.difficulty, c.maxnumber, c.expires_at, c.origin@),
    )
}

/// Mint the challenge for `origin` from the given salt and seed at `now`.
pub fn build_challenge(
    config: &Config,
    origin: &str,
    escalations: u32,
    salt: &[u8],
    seed: &[u8],
    now: i64,
) -> (c: Challenge)
    requires
        mintable(*config, escalations, now),
    ensures
        challenge_minted(*config, origin@, escalations, salt@, seed@, now, c),
{
    let salt_hex = hexstr::encode(salt);
    let challenge_hex = hexstr::encode(seed);
    let expires_at = now + config.challenge_ttl_secs as i64;
    let difficulty = adjust_difficulty(config.difficulty, escalations);
    let sig_str = hmac::signing_string(
        "SHA-256",
        salt_hex.as_str(),
        challenge_hex.as_str(),
        difficulty,
        config.maxnumber,
        expires_at,
        origin,
    );
    let signature = hmac::sign(config.hmac_key.as_str().as_bytes(), sig_str.as_str());
    Challenge {
        algorithm: String::from_str("SHA-256"),
        salt: salt_hex,
        challenge: challenge_hex,
        difficulty,
        maxnumber: config.maxnumber,
        expires_at,
        origin: String::from_str(origin),
        signature,
    }
}

/// Mint the challenge for `origin` from drawn `salt` and `seed` at clock
/// reading `now`: the minted challenge when the escalated difficulty and the
/// expiry fit their types, an internal error otherwise.
pub fn mint(
    config: &Config,
    origin: &str,
    escalations: u32,
    salt: &[u8],
    seed: &[u8],
    now: i64,
) -> (r: Result<Challenge, AppError>)
    ensures
        r is Ok <==> mintable(*config, escalations, now),
        r matches Ok(c) ==> challenge_minted(*config, origin@, escalations, salt@, seed@, now, c),
        r is Err ==> r == Err::<Challenge, AppError>(AppError::Internal),
{
    let bump: u32 = if escalations < MAX_ESCALATION_BITS { escalations } else { MAX_ESCALATION_BITS };
    if config.difficulty > u32::MAX - bump {
        return Err(AppError::Internal);
    }
    let ttl = config.challenge_ttl_secs as i64;
    if (ttl > 0 && now > i64::MAX - ttl) || (ttl < 0 && now < i64::MIN - ttl) {
        return Err(AppError::Internal);
    }
    Ok(build_challenge(config, origin, escalations, salt, seed, now))
}

/// The answer owed to a challenge request from `origin` (the request's
/// `Origin` header, if any): a missing origin is a bad request, a disallowed
/// one is refused; otherwise what [`mint`] gives for a fresh 128-bit salt and
/// seed and the current time, or an internal error when randomness fails.
/// A configuration whose escalated difficulty overflows never mints.
pub open spec fn create_result(
    config: Config,
    origin: Option<Seq<char>>,
    escalations: u32,
    r: Result<Challenge, AppError>,
) -> bool {
    match origin {
        None => r matches Err(AppError::BadRequest(m)) && m@ == "missing Origin header"@,
        Some(o) => if !origin_allowed(config.allowed_origins@, o) {
            r matches Err(AppError::OriginNotAllowed(x)) && x@ == o
        } else {
            &&& match r {
                Ok(c) => exists|salt: Seq<u8>, seed: Seq<u8>, now: i64|
                    salt.len() == SALT_BYTES && seed.len() == rng::MIN_CHALLENGE_BYTES
                    && mintable(config, escalations, now)
                    && #[trigger] challenge_minted(config, o, escalations, salt, seed, now, c),
                Err(e) => e == AppError::Internal,
            }
            &&& config.difficulty + escalation_bump(escalations) > u32::MAX ==> r == Err::<Challenge, AppError>(AppError::Internal)
        },
    }
}

/// Handle a challenge request: check the origin, draw salt and seed, read
/// the clock and [`mint`] the challenge. `escalations` is the requesting
/// peer's recent risk-escalation count (0 when unknown).
pub fn create(config: &Config, origin: Option<&str>, escalations: u32) -> (r: Result<Challenge, AppError>)
    ensures
        create_result(
            *config,
            match origin { Some(o) => Some(o@), None => None },
            escalations,
            r,
        ),
{
    let origin = match origin {
        Some(o) => o,
        None => return Err(AppError::BadRequest(String::from_str("missing Origin header"))),
    };
    if !config.is_origin_allowed(origin) {
        return Err(AppError::OriginNotAllowed(String::from_str(origin)));
    }
    let salt = match rng::random_bytes(SALT_BYTES) {
        Ok(s) => s,
        Err(e) => return Err(AppError::internal(e)),
    };
    let seed = match rng::challenge_seed() {
        Ok(s) => s,
        Err(e) => return Err(AppError::internal(e)),
    };
    let now = now_secs();
    let seed_bytes: &[u8] = seed.as_slice();
    let r = mint(config, origin, escalations, salt.as_slice(), seed_bytes, now);
    proof {
        if r is Ok {
            let c = r->Ok_0;
            assert(challenge_minted(*config, origin@, escalations, salt@, seed_bytes@, now, c));
        }
    }
    r
}

} // verus!
