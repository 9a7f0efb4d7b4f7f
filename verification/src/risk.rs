//! Risk scoring.
//!
//! Weighs the available verification signals into a 0-100 risk score and a
//! tri-state [`Decision`]. Each signal contributes additively, capped at 100.

use vstd::prelude::*;

verus! {

/// Inputs to the risk evaluation. All signals beyond `challenge_passed` are
/// optional so the model degrades gracefully as signals are phased in.
#[derive(Debug, Clone, Copy, PartialEq, Eq, Structural)]
pub struct RiskInput {
    /// Whether the deterministic checks (PoW, HMAC, replay) already passed.
    pub challenge_passed: bool,
    /// Whether the client's fingerprint appears on a known-bad list.
    pub fingerprint_blacklisted: bool,
    /// Wall-clock time the client took to solve, in milliseconds.
    pub solve_time_ms: Option<u64>,
    /// Behavior score in `[0, 100]` (0 = bot-like, 100 = clearly human).
    pub behavior_score: Option<u32>,
}

/// Tri-state decision derived from the score.
#[derive(Debug, Clone, Copy, PartialEq, Eq, Structural)]
pub enum Decision {
    /// `score < ALLOW_CEIL` — verification looks legitimate.
    Allow,
    /// `ALLOW_CEIL <= score < DENY_CEIL` — issue the token but flag for
    /// heightened difficulty on subsequent attempts.
    Escalate,
    /// `score >= DENY_CEIL` — refuse to issue a token.
    Deny,
}

/// A risk score with the decision it implies.
#[derive(Debug, Clone, Copy, PartialEq, Eq, Structural)]
pub struct RiskOutput {
    /// Risk score in `[0, 100]` (higher = riskier).
    pub score: u32,
    pub decision: Decision,
}

/// Below this score ⇒ [`Decision::Allow`].
pub const ALLOW_CEIL: u32 = 30;
/// At or above this score ⇒ [`Decision::Deny`].
pub const DENY_CEIL: u32 = 70;

/// Points from a blacklisted fingerprint.
pub open spec fn blacklist_points(blacklisted: bool) -> int {
    if blacklisted { 80 } else { 0 }
}

/// Points from the solve time: under 20 ms is essentially impossible without
/// precompute; under 50 ms is suspicious.
pub open spec fn solve_time_points(t: Option<u64>) -> int {
    match t {
        Some(t) => if t < 20 { 75 } else if t < 50 { 30 } else { 0 },
        None => 0,
    }
}

/// Points from the behavior score: below 30 is bot-like, below 60 doubtful.
pub open spec fn behavior_points(b: Option<u32>) -> int {
    match b {
        Some(b) => if b < 30 { 50 } else if b < 60 { 20 } else { 0 },
        None => 0,
    }
}

/// The score of an input: 100 for a failed challenge, otherwise the sum of
/// the signal points, capped at 100.
pub open spec fn risk_score(input: RiskInput) -> int {
    if !input.challenge_passed {
        100
    } else {
        let raw = blacklist_points(input.fingerprint_blacklisted) + solve_time_points(input.solve_time_ms)
            + behavior_points(input.behavior_score);
        if raw < 100 { raw } else { 100 }
    }
}

/// The decision a score implies.
pub open spec fn decision_for(score: int) -> Decision {
    if score < ALLOW_CEIL {
        Decision::Allow
    } else if score < DENY_CEIL {
        Decision::Escalate
    } else {
        Decision::Deny
    }
}

/// Evaluate the risk of an otherwise-valid verification attempt.
pub fn evaluate(input: &RiskInput) -> (out: RiskOutput)
    ensures
        out.score == risk_score(*input),
        out.decision == decision_for(out.score as int),
{
    // A failed challenge is an automatic, maximal-risk deny.
    if !input.challenge_passed {
        return RiskOutput { score: 100, decision: Decision::Deny };
    }
    let mut score: u32 = 0;
    if input.fingerprint_blacklisted {
        score = score + 80;
    }
    if let Some(t) = input.solve_time_ms {
        if t < 20 {
            score = score + 75;
        } else if t < 50 {
            score = score + 30;
        }
    }
    if let Some(b) = input.behavior_score {
        if b < 30 {
            score = score + 50;
        } else if b < 60 {
            score = score + 20;
        }
    }
    let score = if score < 100 { score } else { 100 };
    let decision = if score < ALLOW_CEIL {
        Decision::Allow
    } else if score < DENY_CEIL {
        Decision::Escalate
    } else {
        Decision::Deny
    };
    RiskOutput { score, decision }
}

/// The score always lies in `[0, 100]`, a failed challenge scores 100 and is
/// denied, and a clean attempt (no adverse signal) scores 0 and is allowed.
pub proof fn lemma_score_bounds(input: RiskInput)
    ensures
        0 <= risk_score(input) <= 100,
        !input.challenge_passed ==> risk_score(input) == 100 && decision_for(risk_score(input)) == Decision::Deny,
        input.challenge_passed && !input.fingerprint_blacklisted && solve_time_points(input.solve_time_ms) == 0
            && behavior_points(input.behavior_score) == 0 ==> risk_score(input) == 0
            && decision_for(risk_score(input)) == Decision::Allow,
{
}

/// A blacklisted fingerprint or an impossibly fast solve (under 20 ms) alone
/// is enough to deny.
pub proof fn lemma_strong_signals_deny(input: RiskInput)
    requires
        input.fingerprint_blacklisted || (input.solve_time_ms matches Some(t) && t < 20),
    ensures
        decision_for(risk_score(input)) == Decision::Deny,
{
}

/// Adding adverse evidence never lowers the score: a worse input (blacklisted
/// whenever the other is, with at least as many solve-time and behavior
/// points, failed whenever the other failed) scores at least as high, and its
/// decision is at least as severe.
pub proof fn lemma_score_monotone(a: RiskInput, b: RiskInput)
    requires
        a.fingerprint_blacklisted ==> b.fingerprint_blacklisted,
        solve_time_points(a.solve_time_ms) <= solve_time_points(b.solve_time_ms),
        behavior_points(a.behavior_score) <= behavior_points(b.behavior_score),
        !a.challenge_passed ==> !b.challenge_passed,
    ensures
        risk_score(a) <= risk_score(b),
        decision_for(risk_score(a)) == Decision::Deny ==> decision_for(risk_score(b)) == Decision::Deny,
        decision_for(risk_score(b)) == Decision::Allow ==> decision_for(risk_score(a)) == Decision::Allow,
{
}

/// The decision follows the score: allow below 30, escalate from 30 to 69,
/// deny from 70.
pub proof fn lemma_decision_thresholds(score: int)
    ensures
        (decision_for(score) == Decision::Allow) <==> score < ALLOW_CEIL,
        (decision_for(score) == Decision::Escalate) <==> (ALLOW_CEIL <= score && score < DENY_CEIL),
        (decision_for(score) == Decision::Deny) <==> score >= DENY_CEIL,
{
}

/// A behavior score on its own (a passed challenge, no other signal): below
/// 30 is bot-like and scores 50, an escalation; 30 to 59 is doubtful and
/// scores 20, still allowed; 60 and above scores 0. A lower behavior score
/// never lowers the risk.
pub proof fn lemma_behavior_score_alone(b: u32, c: u32)
    requires
        b <= c,
    ensures
        ({
            let input = RiskInput {
                challenge_passed: true,
                fingerprint_blacklisted: false,
                solve_time_ms: None,
                behavior_score: Some(b),
            };
            &&& b < 30 ==> risk_score(input) == 50 && decision_for(risk_score(input)) == Decision::Escalate
            &&& 30 <= b < 60 ==> risk_score(input) == 20 && decision_for(risk_score(input)) == Decision::Allow
            &&& 60 <= b ==> risk_score(input) == 0 && decision_for(risk_score(input)) == Decision::Allow
        }),
        behavior_points(Some(c)) <= behavior_points(Some(b)),
{
}

/// A solve time on its own: under 20 ms is essentially impossible without
/// precompute (75 points, denied), under 50 ms suspicious (30 points,
/// escalated), 50 ms or more adds nothing. A blacklisted fingerprint alone
/// scores 80 and is denied.
pub proof fn lemma_single_signals(t: u64)
    ensures
        ({
            let input = RiskInput {
                challenge_passed: true,
                fingerprint_blacklisted: false,
                solve_time_ms: Some(t),
                behavior_score: None,
            };
            &&& t < 20 ==> risk_score(input) == 75 && decision_for(risk_score(input)) == Decision::Deny
            &&& 20 <= t < 50 ==> risk_score(input) == 30 && decision_for(risk_score(input)) == Decision::Escalate
            &&& 50 <= t ==> risk_score(input) == 0 && decision_for(risk_score(input)) == Decision::Allow
        }),
        ({
            let input = RiskInput {
                challenge_passed: true,
                fingerprint_blacklisted: true,
                solve_time_ms: None,
                behavior_score: None,
            };
            risk_score(input) == 80 && decision_for(risk_score(input)) == Decision::Deny
        }),
{
}

/// The decision thresholds in numbers: scores 0 to 29 are allowed, 30 to 69
/// escalated, 70 to 100 denied; and the score is the sum of the signal
/// points, capped at 100.
pub proof fn lemma_thresholds_in_numbers(score: int, input: RiskInput)
    ensures
        0 <= score < 30 ==> decision_for(score) == Decision::Allow,
        30 <= score < 70 ==> decision_for(score) == Decision::Escalate,
        70 <= score ==> decision_for(score) == Decision::Deny,
        input.challenge_passed ==> risk_score(input) == ({
            let raw = (if input.fingerprint_blacklisted { 80int } else { 0 })
                + match input.solve_time_ms { Some(t) => if t < 20 { 75int } else if t < 50 { 30 } else { 0 }, None => 0 }
                + match input.behavior_score { Some(b) => if b < 30 { 50int } else if b < 60 { 20 } else { 0 }, None => 0 };
            if raw > 100 { 100 } else { raw }
        }),
        !input.challenge_passed ==> risk_score(input) == 100,
{
}

} // verus!
