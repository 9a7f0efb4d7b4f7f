use turnstile::client::{fingerprint_hash, solve_challenge, SolveError};
use turnstile::config::{Config, ConfigRaw};
use turnstile::error::AppError;
use turnstile::hexstr::HexError;
use turnstile::pow;
use turnstile::protocol::{Challenge, VerifyRequest};
use turnstile::risk::Decision;
use turnstile::routes::challenge::{create, mint};
use turnstile::routes::siteverify::site_verify_response;
use turnstile::routes::verify::{
    check_claimed, check_request, escalation_ttl_secs, finish, new_token_id, should_record_escalation, token_expiry,
    verified, verify_with_claim, reaches_token,
};
use turnstile::store::StoreError;
use turnstile::jwt::claims_for;

fn test_config() -> Config {
    ConfigRaw {
        bind_addr: "127.0.0.1:0".into(),
        redis_url: "redis://127.0.0.1:6379/0".into(),
        cluster_urls: None,
        hmac_key: "integration-hmac-key".into(),
        jwt_key: "integration-jwt-key".into(),
        allowed_origins: vec!["https://example.com".into()],
        difficulty: 8,
        maxnumber: 100_000,
        challenge_ttl_secs: 300,
        jwt_ttl_secs: 900,
        allow_js_disabled: false,
    }
    .into_config()
    .unwrap()
}

fn echo(c: &Challenge, nonce: u64, fingerprint: Option<String>) -> VerifyRequest {
    VerifyRequest {
        algorithm: c.algorithm.clone(),
        challenge: c.challenge.clone(),
        salt: c.salt.clone(),
        difficulty: c.difficulty,
        maxnumber: c.maxnumber,
        expires_at: c.expires_at,
        origin: c.origin.clone(),
        signature: c.signature.clone(),
        nonce,
        idempotency_key: format!("idem-{}", c.challenge),
        fingerprint,
        behavior_score: None,
    }
}

#[test]
fn minted_challenge_has_the_configured_shape() {
    let cfg = test_config();
    let c = create(&cfg, Some("https://example.com"), 0).unwrap();
    assert_eq!(c.algorithm, "SHA-256");
    assert_eq!(c.salt.len(), 32);
    assert_eq!(c.challenge.len(), 32);
    assert_eq!(c.difficulty, 8);
    assert_eq!(c.maxnumber, 100_000);
    assert_eq!(c.origin, "https://example.com");
    assert_eq!(c.signature.len(), 64);
    let now = turnstile::clock::now_secs();
    assert!(c.expires_at > now && c.expires_at <= now + 300);
    // Escalations make the next challenge harder.
    assert_eq!(create(&cfg, Some("https://example.com"), 3).unwrap().difficulty, 11);
}

#[test]
fn challenge_requires_an_allowed_origin() {
    let cfg = test_config();
    assert_eq!(
        create(&cfg, None, 0),
        Err(AppError::BadRequest("missing Origin header".into()))
    );
    assert_eq!(
        create(&cfg, Some("https://evil.com"), 0),
        Err(AppError::OriginNotAllowed("https://evil.com".into()))
    );
}

#[test]
fn minted_challenge_verifies_end_to_end() {
    let cfg = test_config();
    let c = create(&cfg, Some("https://example.com"), 0).unwrap();
    let seed = hex::decode(&c.challenge).unwrap();
    let nonce = pow::solve(&seed, c.difficulty);
    let req = echo(&c, nonce, None);
    let now = turnstile::clock::now_secs();
    assert_eq!(check_request(&cfg, &req, now), Ok(()));
    let risk = check_claimed(&req, Ok(true)).unwrap();
    assert_eq!(risk.decision, Decision::Allow);
    assert!(!should_record_escalation(&risk));
    assert_eq!(finish(&risk), Ok(()));
    // A second claim of the same challenge is a replay.
    assert_eq!(check_claimed(&req, Ok(false)), Err(AppError::ChallengeAlreadyUsed));
    let jti = new_token_id().unwrap();
    assert_eq!(jti.len(), 32);
    let exp = token_expiry(now, cfg.jwt_ttl_secs);
    assert_eq!(exp, now + 900);
    let claims = claims_for(&req.origin, &jti, exp);
    let resp = verified("token".into(), claims.exp);
    assert!(resp.success && resp.expires_at == exp);
}

#[test]
fn tampered_fields_are_refused() {
    let cfg = test_config();
    let c = create(&cfg, Some("https://example.com"), 0).unwrap();
    let now = turnstile::clock::now_secs();
    let mut req = echo(&c, 0, None);
    req.difficulty = 2;
    assert_eq!(check_request(&cfg, &req, now), Err(AppError::VerifyFailed));
    let mut req = echo(&c, 0, None);
    req.origin = "https://evil.com".into();
    assert_eq!(check_request(&cfg, &req, now), Err(AppError::VerifyFailed));
    let mut req = echo(&c, 0, None);
    req.signature = "zz".into();
    assert_eq!(check_request(&cfg, &req, now), Err(AppError::VerifyFailed));
}

#[test]
fn expired_challenge_is_refused() {
    let cfg = test_config();
    let c = create(&cfg, Some("https://example.com"), 0).unwrap();
    let req = echo(&c, 0, None);
    assert_eq!(check_request(&cfg, &req, c.expires_at), Err(AppError::ChallengeInvalid));
    assert_eq!(check_request(&cfg, &req, c.expires_at - 1), Ok(()));
}

#[test]
fn wrong_nonce_and_cap_are_refused() {
    let cfg = test_config();
    let c = create(&cfg, Some("https://example.com"), 0).unwrap();
    let seed = hex::decode(&c.challenge).unwrap();
    let good = pow::solve(&seed, c.difficulty);
    let mut bad = good + 1;
    while pow::verify(&seed, bad, c.difficulty) {
        bad += 1;
    }
    assert_eq!(check_claimed(&echo(&c, bad, None), Ok(true)), Err(AppError::VerifyFailed));
    let mut req = echo(&c, good, None);
    req.maxnumber = good.saturating_sub(1);
    if good > 0 {
        assert_eq!(check_claimed(&req, Ok(true)), Err(AppError::VerifyFailed));
    }
}

#[test]
fn fingerprint_bound_solution_verifies() {
    let cfg = test_config();
    let c = create(&cfg, Some("https://example.com"), 0).unwrap();
    let fp_hex = fingerprint_hash(r#"{"canvas":"abc","ua":"test"}"#);
    let nonce = solve_challenge(&c.challenge, Some(fp_hex.as_str()), c.difficulty, c.maxnumber).unwrap();
    let req = echo(&c, nonce, Some(fp_hex.clone()));
    assert_eq!(check_request(&cfg, &req, c.expires_at - 1), Ok(()));
    assert!(check_claimed(&req, Ok(true)).is_ok());
    // A malformed fingerprint is a bad request.
    let req = echo(&c, nonce, Some("xyz".into()));
    assert_eq!(check_claimed(&req, Ok(true)), Err(AppError::BadRequest("malformed fingerprint hex".into())));
}

#[test]
fn malformed_challenge_hex_is_a_bad_request() {
    let cfg = test_config();
    let c = create(&cfg, Some("https://example.com"), 0).unwrap();
    let mut req = echo(&c, 0, None);
    req.challenge = "q".into();
    assert_eq!(check_claimed(&req, Ok(true)), Err(AppError::BadRequest("malformed challenge hex".into())));
}

#[test]
fn adverse_behavior_escalates_and_bot_like_combination_denies() {
    let cfg = test_config();
    let c = create(&cfg, Some("https://example.com"), 0).unwrap();
    let seed = hex::decode(&c.challenge).unwrap();
    let mut req = echo(&c, pow::solve(&seed, c.difficulty), None);
    req.behavior_score = Some(10);
    let risk = check_claimed(&req, Ok(true)).unwrap();
    assert_eq!(risk.decision, Decision::Escalate);
    assert!(should_record_escalation(&risk));
    assert_eq!(finish(&risk), Ok(()));
    assert_eq!(escalation_ttl_secs(&cfg), 1800);
}

#[test]
fn client_solver_reports_errors() {
    assert_eq!(solve_challenge("abc", None, 4, 10), Err(SolveError::BadChallengeHex(HexError::OddLength)));
    assert_eq!(
        solve_challenge("abcd", Some("0g"), 4, 10),
        Err(SolveError::BadFingerprintHex(HexError::InvalidHexCharacter { c: 'g', index: 1 }))
    );
    assert_eq!(solve_challenge("abcd", None, 0, 10), Ok(0));
    assert_eq!(solve_challenge("abcd", None, 20, 5), Err(SolveError::NoSolution));
    assert_eq!(SolveError::NoSolution.message(), "no PoW solution within maxnumber");
    assert_eq!(SolveError::BadChallengeHex(HexError::OddLength).message(), "Odd number of digits");
    assert_eq!(
        SolveError::BadFingerprintHex(HexError::InvalidHexCharacter { c: 'g', index: 1 }).message(),
        "Invalid character 'g' at position 1"
    );
}

#[test]
fn siteverify_answers() {
    let claims = claims_for("https://a.com", "j", 77);
    let ok = site_verify_response(Ok(claims.clone()), Some("https://a.com"));
    assert!(ok.success && ok.origin.as_deref() == Some("https://a.com") && ok.expires_at == Some(77) && ok.error.is_none());
    let any = site_verify_response(Ok(claims.clone()), None);
    assert!(any.success);
    let wrong = site_verify_response(Ok(claims), Some("https://b.com"));
    assert!(!wrong.success && wrong.origin.is_none() && wrong.error.as_deref() == Some("InvalidAudience"));
    let bad = site_verify_response(Err("ExpiredSignature".into()), None);
    assert!(!bad.success && bad.error.as_deref() == Some("ExpiredSignature"));
}

fn status(e: &AppError) -> u16 {
    e.response_parts().0
}

#[test]
fn full_flow_succeeds_and_issues_token() {
    let cfg = test_config();
    let c = create(&cfg, Some("https://example.com"), 0).unwrap();
    let seed = hex::decode(&c.challenge).unwrap();
    let req = echo(&c, pow::solve(&seed, c.difficulty), None);
    let now = turnstile::clock::now_secs();
    assert_eq!(check_request(&cfg, &req, now), Ok(()));
    let risk = check_claimed(&req, Ok(true)).unwrap();
    assert_eq!(finish(&risk), Ok(()));
    let jti = new_token_id().unwrap();
    assert!(!jti.is_empty());
    let resp = verified("header.body.sig".into(), token_expiry(now, cfg.jwt_ttl_secs));
    assert!(resp.success);
    assert!(!resp.token.is_empty());
}

#[test]
fn challenge_rejects_disallowed_origin() {
    let cfg = test_config();
    let e = create(&cfg, Some("https://evil.com"), 0).unwrap_err();
    assert_eq!(status(&e), 403);
}

#[test]
fn challenge_rejects_missing_origin() {
    let cfg = test_config();
    let e = create(&cfg, None, 0).unwrap_err();
    assert_eq!(status(&e), 400);
}

#[test]
fn replay_is_rejected() {
    let cfg = test_config();
    let c = create(&cfg, Some("https://example.com"), 0).unwrap();
    let seed = hex::decode(&c.challenge).unwrap();
    let req = echo(&c, pow::solve(&seed, c.difficulty), None);
    // The store answers the first claim with `true`, every later one with `false`.
    assert!(check_claimed(&req, Ok(true)).is_ok());
    let e = check_claimed(&req, Ok(false)).unwrap_err();
    assert_eq!(status(&e), 409);
}

#[test]
fn tampered_difficulty_is_rejected() {
    let cfg = test_config();
    let c = create(&cfg, Some("https://example.com"), 0).unwrap();
    let seed = hex::decode(&c.challenge).unwrap();
    let mut req = echo(&c, pow::solve(&seed, 2), None);
    req.difficulty = 2;
    let e = check_request(&cfg, &req, turnstile::clock::now_secs()).unwrap_err();
    assert_eq!(status(&e), 403);
}

#[test]
fn wrong_nonce_is_rejected() {
    let cfg = test_config();
    let c = create(&cfg, Some("https://example.com"), 0).unwrap();
    let req = echo(&c, u64::MAX, None);
    assert_eq!(check_request(&cfg, &req, turnstile::clock::now_secs()), Ok(()));
    let e = check_claimed(&req, Ok(true)).unwrap_err();
    assert_eq!(status(&e), 403);
}

#[test]
fn fingerprint_bound_flow_succeeds() {
    let cfg = test_config();
    let c = create(&cfg, Some("https://example.com"), 0).unwrap();
    let fp = turnstile::fingerprint::hash(r#"{"canvas":"abc","ua":"test"}"#);
    let mut seed = hex::decode(&c.challenge).unwrap();
    seed.extend_from_slice(&fp);
    let req = echo(&c, pow::solve(&seed, c.difficulty), Some(hex::encode(fp)));
    assert_eq!(check_request(&cfg, &req, turnstile::clock::now_secs()), Ok(()));
    let risk = check_claimed(&req, Ok(true)).unwrap();
    assert_eq!(finish(&risk), Ok(()));
}

#[test]
fn verify_with_claim_grants_only_a_first_claim() {
    let cfg = test_config();
    let c = create(&cfg, Some("https://example.com"), 0).unwrap();
    let seed = hex::decode(&c.challenge).unwrap();
    let req = echo(&c, pow::solve(&seed, c.difficulty), None);
    let now = turnstile::clock::now_secs();

    assert!(reaches_token(&cfg, &req, now, Ok(true)));
    let first = verify_with_claim(&cfg, &req, now, Ok(true));
    let claims = first.result.unwrap();
    assert_eq!(claims.iss, "webrify");
    assert_eq!(claims.aud, "https://example.com");
    assert_eq!(claims.origin, "https://example.com");
    assert_eq!(claims.exp, now + 900);
    assert_eq!(claims.jti.len(), 32);
    assert_eq!(first.risk.unwrap().decision, Decision::Allow);

    let replay = verify_with_claim(&cfg, &req, now, Ok(false));
    assert!(replay.risk.is_none());
    assert_eq!(replay.result.unwrap_err(), AppError::ChallengeAlreadyUsed);
    assert!(!reaches_token(&cfg, &req, now, Ok(false)));
}

#[test]
fn verify_with_claim_fails_closed_when_the_store_fails() {
    let cfg = test_config();
    let c = create(&cfg, Some("https://example.com"), 0).unwrap();
    let seed = hex::decode(&c.challenge).unwrap();
    let req = echo(&c, pow::solve(&seed, c.difficulty), None);
    let now = turnstile::clock::now_secs();
    let out = verify_with_claim(&cfg, &req, now, Err(StoreError));
    let e = out.result.unwrap_err();
    assert_eq!(e, AppError::Redis);
    assert_eq!(e.response_parts().0, 503);
}

#[test]
fn verify_with_claim_reports_the_first_failing_step() {
    let cfg = test_config();
    let c = create(&cfg, Some("https://example.com"), 0).unwrap();
    let now = turnstile::clock::now_secs();
    // Expired: steps 1-3 refuse before the claim's answer matters.
    let out = verify_with_claim(&cfg, &echo(&c, 0, None), c.expires_at, Err(StoreError));
    assert_eq!(out.result.unwrap_err(), AppError::ChallengeInvalid);
    // A wrong nonce on the first claim fails verification.
    let out = verify_with_claim(&cfg, &echo(&c, u64::MAX, None), now, Ok(true));
    assert!(out.risk.is_none());
    assert_eq!(out.result.unwrap_err(), AppError::VerifyFailed);
}

#[test]
fn mint_refuses_only_overflowing_challenges() {
    let mut cfg = test_config();
    let salt = [0xabu8; 16];
    let seed = [0x01u8; 16];
    let c = mint(&cfg, "https://example.com", 2, &salt, &seed, 1_000).unwrap();
    assert_eq!(c.salt, "ab".repeat(16));
    assert_eq!(c.challenge, "01".repeat(16));
    assert_eq!(c.difficulty, 10);
    assert_eq!(c.expires_at, 1_300);
    assert_eq!(c.origin, "https://example.com");
    assert_eq!(mint(&cfg, "https://example.com", 0, &salt, &seed, i64::MAX - 299), Err(AppError::Internal));
    cfg.difficulty = u32::MAX;
    assert_eq!(mint(&cfg, "https://example.com", 1, &salt, &seed, 1_000), Err(AppError::Internal));
    assert_eq!(create(&cfg, Some("https://example.com"), 1), Err(AppError::Internal));
    // No escalation bump, no overflow: the cap applies.
    assert_eq!(mint(&cfg, "https://example.com", 0, &salt, &seed, 1_000).unwrap().difficulty, 24);
}
