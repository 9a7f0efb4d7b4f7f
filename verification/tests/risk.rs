use turnstile::risk::{evaluate, Decision, RiskInput, ALLOW_CEIL, DENY_CEIL};

fn clean() -> RiskInput {
    RiskInput { challenge_passed: true, fingerprint_blacklisted: false, solve_time_ms: None, behavior_score: None }
}

#[test]
fn failed_challenge_always_denies() {
    let out = evaluate(&RiskInput { challenge_passed: false, ..clean() });
    assert_eq!(out.score, 100);
    assert_eq!(out.decision, Decision::Deny);
}

#[test]
fn clean_attempt_is_allowed() {
    let out = evaluate(&clean());
    assert_eq!(out.score, 0);
    assert_eq!(out.decision, Decision::Allow);
}

#[test]
fn blacklisted_fingerprint_denies() {
    let out = evaluate(&RiskInput { fingerprint_blacklisted: true, ..clean() });
    assert!(out.score >= DENY_CEIL);
    assert_eq!(out.decision, Decision::Deny);
}

#[test]
fn impossibly_fast_solve_escalates_or_denies() {
    let out = evaluate(&RiskInput { solve_time_ms: Some(10), ..clean() });
    assert!(out.score >= ALLOW_CEIL);
    assert_eq!(out.decision, Decision::Deny);
}

#[test]
fn borderline_fast_solve_escalates() {
    let out = evaluate(&RiskInput { solve_time_ms: Some(35), ..clean() });
    assert_eq!(out.decision, Decision::Escalate);
}

#[test]
fn bot_like_behavior_escalates() {
    let out = evaluate(&RiskInput { behavior_score: Some(10), ..clean() });
    assert!(out.score >= ALLOW_CEIL && out.score < DENY_CEIL);
    assert_eq!(out.decision, Decision::Escalate);
}

#[test]
fn combined_signals_cap_at_100() {
    let out = evaluate(&RiskInput {
        fingerprint_blacklisted: true,
        solve_time_ms: Some(5),
        behavior_score: Some(0),
        ..clean()
    });
    assert_eq!(out.score, 100);
    assert_eq!(out.decision, Decision::Deny);
}

#[test]
fn signal_points_add_up_exactly() {
    // 30 (solve time 20..50ms) + 20 (behavior 30..60) = 50 → escalate.
    let out = evaluate(&RiskInput { solve_time_ms: Some(49), behavior_score: Some(59), ..clean() });
    assert_eq!(out.score, 50);
    assert_eq!(out.decision, Decision::Escalate);
    // Threshold values are not adverse.
    let out = evaluate(&RiskInput { solve_time_ms: Some(50), behavior_score: Some(60), ..clean() });
    assert_eq!(out.score, 0);
    assert_eq!(out.decision, Decision::Allow);
    // 20 alone stays below the allow ceiling.
    let out = evaluate(&RiskInput { behavior_score: Some(45), ..clean() });
    assert_eq!(out.score, 20);
    assert_eq!(out.decision, Decision::Allow);
    // 30 + 50 = 80 → deny.
    let out = evaluate(&RiskInput { solve_time_ms: Some(20), behavior_score: Some(29), ..clean() });
    assert_eq!(out.score, 80);
    assert_eq!(out.decision, Decision::Deny);
}

#[test]
fn adding_evidence_never_lowers_the_score() {
    let base = evaluate(&RiskInput { behavior_score: Some(40), ..clean() });
    let worse = evaluate(&RiskInput { behavior_score: Some(40), solve_time_ms: Some(30), ..clean() });
    assert!(worse.score >= base.score);
}
