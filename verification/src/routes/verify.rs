//! `POST /verify`: validate a challenge response before a token is issued.
//!
//! The steps run cheapest-first, the stateful anti-replay claim in the
//! middle:
//! 1. recompute and constant-time verify the HMAC over the echoed fields;
//! 2. confirm the origin is on the allowlist;
//! 3. reject an expired challenge;
//! 4. atomically mark the challenge spent (done by the server against
//!    Redis; a failing store fails closed);
//! 5. re-verify the proof of work (seed = hex-decoded challenge, followed by
//!    the hex-decoded fingerprint when one is sent);
//! 6. enforce `nonce <= maxnumber`;
//! 7. score the risk: escalate or deny records an escalation for the peer,
//!    deny refuses the token;
//! 8. issue a short-lived JWT bound to the origin (done by the server).
//!
//! [`check_request`] decides steps 1-3 (the server claims the challenge only
//! when they pass), [`check_claimed`] steps 4-7 once the store's answer to the
//! claim is known, [`should_record_escalation`] and [`finish`] the tail of
//! step 7, [`token_expiry`] and [`new_token_id`] step 8.
//! [`verify_with_claim`] runs them all in order on the store's answer and
//! gives the claims of the token to issue, or the error to answer with.

use vstd::prelude::*;
use vstd::string::*;
use vstd::utf8::encode_utf8;
use crate::config::{Config, origin_allowed};
use crate::error::AppError;
use crate::hexstr::{self, hex_decode};
use crate::hmac::{self, signature_valid, signing_text};
use crate::pow::{self, pow_holds};
use crate::protocol::VerifyRequest;
use crate::risk::{self, Decision, RiskInput, RiskOutput, risk_score, decision_for};
use crate::rng;
use crate::protocol::Challenge;
use crate::routes::challenge::challenge_minted;
use crate::hexstr::{hex_encode, lemma_hex_roundtrip};
use crate::hmac::lemma_sign_then_verify;
use crate::risk::behavior_points;
use crate::client::client_seed;
use crate::pow::least_solution_in;
use crate::protocol::JwtClaims;
use crate::store::StoreError;
use crate::jwt::claims_for;

verus! {

/// The answer to a successful verification.
#[derive(Debug, Clone)]
pub struct VerifyResponse {
    pub success: bool,
    /// The issued JWT.
    pub token: String,
    /// Token expiry, unix epoch seconds.
    pub expires_at: i64,
}

/// The success answer carrying `token`, valid until `expires_at`.
pub fn verified(token: String, expires_at: i64) -> (r: VerifyResponse)
    ensures
        r.success,
        r.token == token,
        r.expires_at == expires_at,
{
    VerifyResponse { success: true, token, expires_at }
}

/// The signing text a request's echoed fields denote.
pub open spec fn request_text(req: VerifyRequest) -> Seq<char> {
    signing_text(req.algorithm@, req.salt@, req.challenge@, req.difficulty, req.maxnumber, req.expires_at, req.origin@)
}

/// The request carries a valid signature under the configured HMAC key.
pub open spec fn request_signed(config: Config, req: VerifyRequest) -> bool {
    signature_valid(encode_utf8(config.hmac_key@), request_text(req), req.signature@)
}

/// The answer owed for steps 1-3 at time `now`.
pub open spec fn precheck_result(config: Config, req: VerifyRequest, now: i64, r: Result<(), AppError>) -> bool {
    if !request_signed(config, req) {
        r == Err::<(), AppError>(AppError::VerifyFailed)
    } else if !origin_allowed(config.allowed_origins@, req.origin@) {
        r matches Err(AppError::OriginNotAllowed(o)) && o@ == req.origin@
    } else if req.expires_at <= now {
        r == Err::<(), AppError>(AppError::ChallengeInvalid)
    } else {
        r == Ok::<(), AppError>(())
    }
}

/// Steps 1-3: signature, origin allowlist, expiry.
pub fn check_request(config: &Config, req: &VerifyRequest, now: i64) -> (r: Result<(), AppError>)
    ensures
        precheck_result(*config, *req, now, r),
{
    let sig_str = hmac::signing_string(
        req.algorithm.as_str(),
        req.salt.as_str(),
        req.challenge.as_str(),
        req.difficulty,
        req.maxnumber,
        req.expires_at,
        req.origin.as_str(),
    );
    if !hmac::verify_signature(config.hmac_key.as_str().as_bytes(), sig_str.as_str(), req.signature.as_str()) {
        return Err(AppError::VerifyFailed);
    }
    if !config.is_origin_allowed(req.origin.as_str()) {
        return Err(AppError::OriginNotAllowed(req.origin.clone()));
    }
    if req.expires_at <= now {
        return Err(AppError::ChallengeInvalid);
    }
    Ok(())
}

/// The proof-of-work seed a request denotes: the hex-decoded challenge,
/// followed by the hex-decoded fingerprint when one is sent.
pub open spec fn request_seed(req: VerifyRequest) -> Option<Seq<u8>> {
    match hex_decode(req.challenge@) {
        Err(_) => None,
        Ok(c) => match req.fingerprint {
            None => Some(c),
            Some(f) => match hex_decode(f@) {
                Ok(fp) => Some(c + fp),
                Err(_) => None,
            },
        },
    }
}

/// Build the proof-of-work seed of a request.
pub fn pow_seed(req: &VerifyRequest) -> (r: Result<Vec<u8>, AppError>)
    ensures
        hex_decode(req.challenge@) is Err ==> (r matches Err(AppError::BadRequest(m)) && m@ == "malformed challenge hex"@),
        hex_decode(req.challenge@) is Ok && request_seed(*req) is None ==> (r matches Err(AppError::BadRequest(m))
            && m@ == "malformed fingerprint hex"@),
        request_seed(*req) matches Some(seed) ==> (r matches Ok(v) && v@ == seed),
{
    let mut seed = match hexstr::decode(req.challenge.as_str()) {
        Ok(s) => s,
        Err(_) => return Err(AppError::BadRequest(String::from_str("malformed challenge hex"))),
    };
    match &req.fingerprint {
        None => Ok(seed),
        Some(fp_hex) => {
            let fp = match hexstr::decode(fp_hex.as_str()) {
                Ok(f) => f,
                Err(_) => return Err(AppError::BadRequest(String::from_str("malformed fingerprint hex"))),
            };
            let ghost head = seed@;
            let mut i: usize = 0;
            while i < fp.len()
                invariant
                    i <= fp@.len(),
                    seed@ == head + fp@.subrange(0, i as int),
                decreases fp@.len() - i,
            {
                seed.push(fp[i]);
                i = i + 1;
            }
            assert(fp@.subrange(0, fp@.len() as int) =~= fp@);
            Ok(seed)
        },
    }
}

/// The risk input of a request that passed every deterministic check.
pub open spec fn request_risk_input(req: VerifyRequest) -> RiskInput {
    RiskInput {
        challenge_passed: true,
        fingerprint_blacklisted: false,
        solve_time_ms: None,
        behavior_score: req.behavior_score,
    }
}

/// The answer owed for steps 4-7 once the store answered the claim
/// (`Ok(true)`: this request spent the challenge first; `Ok(false)`: it was
/// already spent; `Err`: the store failed).
pub open spec fn postcheck_result(req: VerifyRequest, claim: Result<bool, StoreError>, r: Result<RiskOutput, AppError>) -> bool {
    if claim is Err {
        r == Err::<RiskOutput, AppError>(AppError::Redis)
    } else if claim == Ok::<bool, StoreError>(false) {
        r == Err::<RiskOutput, AppError>(AppError::ChallengeAlreadyUsed)
    } else if hex_decode(req.challenge@) is Err {
        r matches Err(AppError::BadRequest(m)) && m@ == "malformed challenge hex"@
    } else if request_seed(req) is None {
        r matches Err(AppError::BadRequest(m)) && m@ == "malformed fingerprint hex"@
    } else if !pow_holds(request_seed(req).unwrap(), req.nonce, req.difficulty) {
        r == Err::<RiskOutput, AppError>(AppError::VerifyFailed)
    } else if req.nonce > req.maxnumber {
        r == Err::<RiskOutput, AppError>(AppError::VerifyFailed)
    } else {
        r matches Ok(out) && out.score == risk_score(request_risk_input(req))
            && out.decision == decision_for(out.score as int)
    }
}

/// Steps 4-7: the store's answer to the claim (a failing store fails
/// closed), the proof of work, the nonce cap and the risk score.
pub fn check_claimed(req: &VerifyRequest, claim: Result<bool, StoreError>) -> (r: Result<RiskOutput, AppError>)
    ensures
        postcheck_result(*req, claim, r),
{
    match claim {
        Err(_) => return Err(AppError::Redis),
        Ok(false) => return Err(AppError::ChallengeAlreadyUsed),
        Ok(true) => {},
    }
    let seed = pow_seed(req)?;
    if !pow::verify(seed.as_slice(), req.nonce, req.difficulty) {
        return Err(AppError::VerifyFailed);
    }
    if req.nonce > req.maxnumber {
        return Err(AppError::VerifyFailed);
    }
    let input = RiskInput {
        challenge_passed: true,
        fingerprint_blacklisted: false,
        solve_time_ms: None,
        behavior_score: req.behavior_score,
    };
    Ok(risk::evaluate(&input))
}

/// Escalated and denied verifications are recorded against the peer, so its
/// next challenge is harder.
pub fn should_record_escalation(risk: &RiskOutput) -> (r: bool)
    ensures
        r == (risk.decision == Decision::Escalate || risk.decision == Decision::Deny),
{
    match risk.decision {
        Decision::Escalate => true,
        Decision::Deny => true,
        Decision::Allow => false,
    }
}

/// How long an escalation record lives: six challenge lifetimes.
pub fn escalation_ttl_secs(config: &Config) -> (t: u64)
    requires
        config.challenge_ttl_secs * 6 <= u64::MAX,
    ensures
        t == config.challenge_ttl_secs * 6,
{
    config.challenge_ttl_secs * 6
}

/// A denied verification is refused; otherwise the token may be issued.
pub fn finish(risk: &RiskOutput) -> (r: Result<(), AppError>)
    ensures
        risk.decision == Decision::Deny ==> r == Err::<(), AppError>(AppError::VerifyFailed),
        risk.decision != Decision::Deny ==> r == Ok::<(), AppError>(()),
{
    match risk.decision {
        Decision::Deny => Err(AppError::VerifyFailed),
        _ => Ok(()),
    }
}

/// The expiry of a token issued at `now`.
pub fn token_expiry(now: i64, jwt_ttl_secs: u64) -> (exp: i64)
    requires
        i64::MIN <= now + (jwt_ttl_secs as i64) <= i64::MAX,
    ensures
        exp == now + (jwt_ttl_secs as i64),
{
    now + jwt_ttl_secs as i64
}

/// A fresh token id: 128 random bits in hex; an internal error when the
/// random source fails.
pub fn new_token_id() -> (r: Result<String, AppError>)
    ensures
        r matches Ok(s) ==> (exists|b: Seq<u8>| b.len() == 16 && s@ == #[trigger] crate::hexstr::hex_encode(b)),
        r matches Err(e) ==> e == AppError::Internal,
{
    match rng::random_bytes(16) {
        Ok(b) => {
            let s = hexstr::encode(b.as_slice());
            assert(s@ == crate::hexstr::hex_encode(b@));
            Ok(s)
        },
        Err(e) => Err(AppError::internal(e)),
    }
}


/// Steps 1-3 pass: the signature is valid, the origin allowed and the
/// challenge not yet expired at `now`.
pub open spec fn passes_prechecks(config: Config, req: VerifyRequest, now: i64) -> bool {
    &&& request_signed(config, req)
    &&& origin_allowed(config.allowed_origins@, req.origin@)
    &&& req.expires_at > now
}

/// Steps 4-6 pass: this request spent the challenge first, its seed decodes,
/// the nonce solves it and lies within the cap.
pub open spec fn passes_postchecks(req: VerifyRequest, claim: Result<bool, StoreError>) -> bool {
    &&& claim == Ok::<bool, StoreError>(true)
    &&& request_seed(req) matches Some(seed) && pow_holds(seed, req.nonce, req.difficulty)
    &&& req.nonce <= req.maxnumber
}

/// The risk assessment of a request that passed steps 1-6.
pub open spec fn request_risk(req: VerifyRequest) -> RiskOutput {
    RiskOutput {
        score: risk_score(request_risk_input(req)) as u32,
        decision: decision_for(risk_score(request_risk_input(req))),
    }
}

/// Every check passes and the risk is not a denial: a token is owed, unless
/// the random source fails.
pub open spec fn reaches_token_spec(config: Config, req: VerifyRequest, now: i64, claim: Result<bool, StoreError>) -> bool {
    &&& passes_prechecks(config, req, now)
    &&& passes_postchecks(req, claim)
    &&& request_risk(req).decision != Decision::Deny
}

/// The token expiry `now + jwt_ttl_secs` fits an `i64`.
pub open spec fn token_expiry_fits(config: Config, now: i64) -> bool {
    i64::MIN <= now + (config.jwt_ttl_secs as i64) <= i64::MAX
}

/// `c` are the claims of a token issued at `now` for `req`: issuer
/// `webrify`, audience and origin the request's origin, expiry
/// `now + jwt_ttl_secs`, and a fresh 128-bit id in hex.
pub open spec fn token_claims(config: Config, req: VerifyRequest, now: i64, c: JwtClaims) -> bool {
    &&& c.iss@ == "webrify"@
    &&& c.aud@ == req.origin@
    &&& c.origin@ == req.origin@
    &&& c.exp == now + (config.jwt_ttl_secs as i64)
    &&& exists|b: Seq<u8>| b.len() == 16 && c.jti@ == #[trigger] hex_encode(b)
}

/// What a verification comes to once the store answered the claim.
#[derive(Debug)]
pub struct VerifyOutcome {
    /// The risk assessment, when steps 1-6 passed (the server records an
    /// escalation for the peer on an escalate or deny decision).
    pub risk: Option<RiskOutput>,
    /// The claims of the token to issue, or the error to answer with.
    pub result: Result<JwtClaims, AppError>,
}

/// The outcome owed for `req` at `now` on the store's answer `claim`:
/// the first failing step's error, in the order of the steps; a denial is
/// refused; otherwise a token for the request's origin expiring
/// `jwt_ttl_secs` after `now`, or an internal error when the random source
/// fails.
pub open spec fn outcome_owed(config: Config, req: VerifyRequest, now: i64, claim: Result<bool, StoreError>, o: VerifyOutcome) -> bool {
    if !passes_prechecks(config, req, now) {
        &&& o.risk is None
        &&& o.result matches Err(e) && precheck_result(config, req, now, Err::<(), AppError>(e))
    } else if !passes_postchecks(req, claim) {
        &&& o.risk is None
        &&& o.result matches Err(e) && postcheck_result(req, claim, Err::<RiskOutput, AppError>(e))
    } else {
        &&& o.risk == Some(request_risk(req))
        &&& if request_risk(req).decision == Decision::Deny {
            o.result == Err::<JwtClaims, AppError>(AppError::VerifyFailed)
        } else {
            match o.result {
                Ok(c) => token_claims(config, req, now, c),
                Err(e) => e == AppError::Internal,
            }
        }
    }
}

/// Steps 4-7 answer `Ok` exactly when steps 4-6 pass, with the request's
/// risk assessment.
proof fn lemma_postcheck_ok(req: VerifyRequest, claim: Result<bool, StoreError>, r: Result<RiskOutput, AppError>)
    requires
        postcheck_result(req, claim, r),
        r is Ok,
    ensures
        passes_postchecks(req, claim),
        r == Ok::<RiskOutput, AppError>(request_risk(req)),
{
    match claim {
        Ok(b) => {
            assert(b);
        },
        Err(_) => {},
    }
    let seed = request_seed(req).unwrap();
    assert(request_seed(req) == Some(seed));
}

/// Whether the request reaches token issuance on the store's answer (see
/// [`verify_with_claim`]): every check passes and the risk is no denial.
pub fn reaches_token(config: &Config, req: &VerifyRequest, now: i64, claim: Result<bool, StoreError>) -> (b: bool)
    ensures
        b == reaches_token_spec(*config, *req, now, claim),
{
    if check_request(config, req, now).is_err() {
        return false;
    }
    match check_claimed(req, claim) {
        Ok(risk) => {
            proof {
                lemma_postcheck_ok(*req, claim, Ok(risk));
            }
            match risk.decision {
                Decision::Deny => false,
                _ => true,
            }
        },
        Err(_) => false,
    }
}

/// Run the whole verification on the store's answer to the claim: steps
/// 1-3, then 4-7, the denial, and the token's id, expiry and claims. A token
/// is only ever granted when every check held; a failing store answers
/// `Redis` (503) and a spent challenge `ChallengeAlreadyUsed` (409).
pub fn verify_with_claim(config: &Config, req: &VerifyRequest, now: i64, claim: Result<bool, StoreError>) -> (o: VerifyOutcome)
    requires
        reaches_token_spec(*config, *req, now, claim) ==> token_expiry_fits(*config, now),
    ensures
        outcome_owed(*config, *req, now, claim, o),
        o.result is Ok ==> reaches_token_spec(*config, *req, now, claim),
        o.result matches Ok(c) ==> token_claims(*config, *req, now, c),
        passes_prechecks(*config, *req, now) && claim is Err ==> o.result == Err::<JwtClaims, AppError>(AppError::Redis),
        passes_prechecks(*config, *req, now) && claim == Ok::<bool, StoreError>(false)
            ==> o.result == Err::<JwtClaims, AppError>(AppError::ChallengeAlreadyUsed),
        passes_prechecks(*config, *req, now) && claim == Ok::<bool, StoreError>(true)
            && (request_seed(*req) matches Some(seed) && !pow_holds(seed, req.nonce, req.difficulty))
            ==> o.result == Err::<JwtClaims, AppError>(AppError::VerifyFailed),
{
    match check_request(config, req, now) {
        Err(e) => return VerifyOutcome { risk: None, result: Err(e) },
        Ok(()) => {},
    }
    let risk = match check_claimed(req, claim) {
        Err(e) => return VerifyOutcome { risk: None, result: Err(e) },
        Ok(r) => r,
    };
    proof {
        lemma_postcheck_ok(*req, claim, Ok(risk));
    }
    if let Err(e) = finish(&risk) {
        return VerifyOutcome { risk: Some(risk), result: Err(e) };
    }
    let jti = match new_token_id() {
        Ok(j) => j,
        Err(e) => return VerifyOutcome { risk: Some(risk), result: Err(e) },
    };
    let exp = token_expiry(now, config.jwt_ttl_secs);
    let claims = claims_for(req.origin.as_str(), jti.as_str(), exp);
    proof {
        reveal_strlit("webrify");
    }
    VerifyOutcome { risk: Some(risk), result: Ok(claims) }
}

/// Single use: only the request whose claim spent the challenge first can
/// obtain a token. A later request for the same challenge (the store answers
/// its claim with `false`) is refused as a replay whatever its nonce, and a
/// failing store refuses every request that passed steps 1-3; a first claim
/// with a nonce that does not solve the seed is refused as a failed
/// verification, and the challenge stays spent.
pub proof fn lemma_token_needs_first_claim(
    config: Config,
    req: VerifyRequest,
    now: i64,
    claim: Result<bool, StoreError>,
    o: VerifyOutcome,
)
    requires
        outcome_owed(config, req, now, claim, o),
    ensures
        o.result is Ok ==> claim == Ok::<bool, StoreError>(true),
        passes_prechecks(config, req, now) && claim == Ok::<bool, StoreError>(false)
            ==> o.result == Err::<JwtClaims, AppError>(AppError::ChallengeAlreadyUsed),
        passes_prechecks(config, req, now) && claim is Err ==> o.result == Err::<JwtClaims, AppError>(AppError::Redis),
        passes_prechecks(config, req, now) && claim == Ok::<bool, StoreError>(true)
            && (request_seed(req) matches Some(seed) && !pow_holds(seed, req.nonce, req.difficulty))
            ==> o.result == Err::<JwtClaims, AppError>(AppError::VerifyFailed),
{
}

/// `req` echoes every field of challenge `c`.
pub open spec fn echoes(req: VerifyRequest, c: Challenge) -> bool {
    &&& req.algorithm@ == c.algorithm@
    &&& req.salt@ == c.salt@
    &&& req.challenge@ == c.challenge@
    &&& req.difficulty == c.difficulty
    &&& req.maxnumber == c.maxnumber
    &&& req.expires_at == c.expires_at
    &&& req.origin@ == c.origin@
    &&& req.signature@ == c.signature@
}

/// An honest client is served: a request that echoes a challenge the server
/// minted for an allowed origin, arrives before expiry, and carries a nonce
/// within the cap that solves the seed (followed by the fingerprint it sends,
/// if any), passes steps 1-3; on its first claim it passes steps 4-7 with an
/// allow decision when its behavior signal is not adverse; and on any later
/// claim it is refused as a replay.
pub proof fn lemma_minted_challenge_accepted(
    config: Config,
    origin: Seq<char>,
    escalations: u32,
    salt: Seq<u8>,
    seed: Seq<u8>,
    minted_at: i64,
    c: Challenge,
    req: VerifyRequest,
    fingerprint: Seq<u8>,
    now: i64,
)
    requires
        challenge_minted(config, origin, escalations, salt, seed, minted_at, c),
        origin_allowed(config.allowed_origins@, origin),
        echoes(req, c),
        match req.fingerprint {
            None => fingerprint.len() == 0,
            Some(f) => f@ == hex_encode(fingerprint),
        },
        pow_holds(seed + fingerprint, req.nonce, c.difficulty),
        req.nonce <= c.maxnumber,
        now < c.expires_at,
        behavior_points(req.behavior_score) == 0,
    ensures
        precheck_result(config, req, now, Ok(())),
        request_seed(req) == Some(seed + fingerprint),
        forall|r: Result<RiskOutput, AppError>| #[trigger] postcheck_result(req, Ok::<bool, StoreError>(true), r)
            ==> (r matches Ok(out) && out.decision == Decision::Allow && out.score == 0),
        forall|r: Result<RiskOutput, AppError>| #[trigger] postcheck_result(req, Ok::<bool, StoreError>(false), r)
            ==> r == Err::<RiskOutput, AppError>(AppError::ChallengeAlreadyUsed),
{
    let key = encode_utf8(config.hmac_key@);
    let text = signing_text(c.algorithm@, c.salt@, c.challenge@, c.difficulty, c.maxnumber, c.expires_at, c.origin@);
    lemma_sign_then_verify(key, text);
    assert(request_text(req) == text);
    assert(request_signed(config, req));
    lemma_hex_roundtrip(seed);
    match req.fingerprint {
        None => {
            assert(seed + fingerprint =~= seed);
        },
        Some(f) => {
            lemma_hex_roundtrip(fingerprint);
        },
    }
}


/// Client and server build the same seed: the seed the widget solves for a
/// challenge and fingerprint is exactly the seed the server checks a request
/// carrying them against, and a nonce the widget found within the cap passes
/// the server's proof-of-work and cap checks.
pub proof fn lemma_client_and_server_agree(req: VerifyRequest)
    ensures
        (match client_seed(req.challenge@, match req.fingerprint { Some(f) => Some(f@), None => None }) {
            Ok(seed) => request_seed(req) == Some(seed),
            Err(_) => request_seed(req) is None,
        }),
        (match client_seed(req.challenge@, match req.fingerprint { Some(f) => Some(f@), None => None }) {
            Ok(seed) => least_solution_in(seed, req.difficulty, 0, req.maxnumber, req.nonce) ==>
                forall|r: Result<RiskOutput, AppError>| #[trigger] postcheck_result(req, Ok::<bool, StoreError>(true), r) ==> r is Ok,
            Err(_) => true,
        }),
{
}

} // verus!
