//! Prometheus-style counters and their text exposition.
//!
//! Counters wrap around at `u64::MAX`, as atomic fetch-add does. The server
//! shares one [`Metrics`] behind a lock; exposed at `GET /metrics`.

use vstd::prelude::*;
use vstd::string::*;
use crate::text::{decimal, u128_to_decimal, u64_to_decimal};

verus! {

/// Process-wide counters.
pub struct Metrics {
    challenges_issued: u64,
    verifies_success: u64,
    verifies_failed: u64,
    risk_allow: u64,
    risk_escalate: u64,
    risk_deny: u64,
    replay_attempts: u64,
    challenge_expired: u64,
    origin_rejected: u64,
    solve_lt_10ms: u64,
    solve_lt_50ms: u64,
    solve_lt_200ms: u64,
    solve_lt_1s: u64,
    solve_lt_5s: u64,
    solve_ge_5s: u64,
}

/// The values of all counters.
#[derive(Clone, Copy, PartialEq, Eq, Structural)]
pub struct MetricsView {
    pub challenges_issued: u64,
    pub verifies_success: u64,
    pub verifies_failed: u64,
    pub risk_allow: u64,
    pub risk_escalate: u64,
    pub risk_deny: u64,
    pub replay_attempts: u64,
    pub challenge_expired: u64,
    pub origin_rejected: u64,
    /// Solve-time histogram buckets: <10ms, <50ms, <200ms, <1s, <5s, >=5s.
    pub solve_lt_10ms: u64,
    pub solve_lt_50ms: u64,
    pub solve_lt_200ms: u64,
    pub solve_lt_1s: u64,
    pub solve_lt_5s: u64,
    pub solve_ge_5s: u64,
}

impl View for Metrics {
    type V = MetricsView;

    closed spec fn view(&self) -> MetricsView {
        MetricsView {
            challenges_issued: self.challenges_issued,
            verifies_success: self.verifies_success,
            verifies_failed: self.verifies_failed,
            risk_allow: self.risk_allow,
            risk_escalate: self.risk_escalate,
            risk_deny: self.risk_deny,
            replay_attempts: self.replay_attempts,
            challenge_expired: self.challenge_expired,
            origin_rejected: self.origin_rejected,
            solve_lt_10ms: self.solve_lt_10ms,
            solve_lt_50ms: self.solve_lt_50ms,
            solve_lt_200ms: self.solve_lt_200ms,
            solve_lt_1s: self.solve_lt_1s,
            solve_lt_5s: self.solve_lt_5s,
            solve_ge_5s: self.solve_ge_5s,
        }
    }
}

/// A counter after one increment (wrapping at `u64::MAX`).
pub open spec fn bump(c: u64) -> u64 {
    if c == u64::MAX { 0 } else { (c + 1) as u64 }
}

fn bumped(c: u64) -> (r: u64)
    ensures
        r == bump(c),
{
    if c == u64::MAX { 0 } else { c + 1 }
}

/// All counters zero.
pub open spec fn zero_view() -> MetricsView {
    MetricsView {
        challenges_issued: 0,
        verifies_success: 0,
        verifies_failed: 0,
        risk_allow: 0,
        risk_escalate: 0,
        risk_deny: 0,
        replay_attempts: 0,
        challenge_expired: 0,
        origin_rejected: 0,
        solve_lt_10ms: 0,
        solve_lt_50ms: 0,
        solve_lt_200ms: 0,
        solve_lt_1s: 0,
        solve_lt_5s: 0,
        solve_ge_5s: 0,
    }
}

/// The histogram bucket of a solve time: 0 for <10ms, 1 for <50ms, 2 for
/// <200ms, 3 for <1s, 4 for <5s, 5 otherwise.
pub open spec fn solve_bucket(ms: u64) -> int {
    if ms < 10 { 0 } else if ms < 50 { 1 } else if ms < 200 { 2 } else if ms < 1000 { 3 } else if ms < 5000 { 4 } else { 5 }
}

/// The counters after recording a solve time: its bucket bumped, nothing else changed.
pub open spec fn with_solve_time(v: MetricsView, ms: u64) -> MetricsView {
    let b = solve_bucket(ms);
    MetricsView {
        solve_lt_10ms: if b == 0 { bump(v.solve_lt_10ms) } else { v.solve_lt_10ms },
        solve_lt_50ms: if b == 1 { bump(v.solve_lt_50ms) } else { v.solve_lt_50ms },
        solve_lt_200ms: if b == 2 { bump(v.solve_lt_200ms) } else { v.solve_lt_200ms },
        solve_lt_1s: if b == 3 { bump(v.solve_lt_1s) } else { v.solve_lt_1s },
        solve_lt_5s: if b == 4 { bump(v.solve_lt_5s) } else { v.solve_lt_5s },
        solve_ge_5s: if b == 5 { bump(v.solve_ge_5s) } else { v.solve_ge_5s },
        ..v
    }
}

/// The count of recorded solves in histogram buckets `0..=bucket` (see
/// [`solve_bucket`]): the cumulative count a `le` line reports; bucket 5
/// gives the total.
pub open spec fn solves_up_to(v: MetricsView, bucket: int) -> nat {
    (if bucket >= 0 { v.solve_lt_10ms as nat } else { 0 })
        + (if bucket >= 1 { v.solve_lt_50ms as nat } else { 0 })
        + (if bucket >= 2 { v.solve_lt_200ms as nat } else { 0 })
        + (if bucket >= 3 { v.solve_lt_1s as nat } else { 0 })
        + (if bucket >= 4 { v.solve_lt_5s as nat } else { 0 })
        + (if bucket >= 5 { v.solve_ge_5s as nat } else { 0 })
}

/// Recording a solve of `ms` milliseconds adds one to the cumulative count
/// of every histogram line whose bound exceeds `ms` (`le` 10, 50, 200, 1000,
/// 5000, and `+Inf` always) and leaves the others as they were, while no
/// counter has wrapped.
pub proof fn lemma_solve_time_counts_cumulatively(v: MetricsView, ms: u64, line: int)
    requires
        0 <= line <= 5,
        v.solve_lt_10ms < u64::MAX,
        v.solve_lt_50ms < u64::MAX,
        v.solve_lt_200ms < u64::MAX,
        v.solve_lt_1s < u64::MAX,
        v.solve_lt_5s < u64::MAX,
        v.solve_ge_5s < u64::MAX,
    ensures
        solves_up_to(with_solve_time(v, ms), line) == solves_up_to(v, line) + (if line == 5 || ms < (
            if line == 0 { 10int } else if line == 1 { 50 } else if line == 2 { 200 } else if line == 3 { 1000 } else { 5000 }
        ) { 1int } else { 0 }),
{
}

/// The Prometheus text exposition of the counters.
pub open spec fn exposition(v: MetricsView) -> Seq<char> {
    "# HELP webrify_challenges_issued_total Total challenges minted.\n# TYPE webrify_challenges_issued_total counter\nwebrify_challenges_issued_total "@
        + decimal(v.challenges_issued as nat)
        + "\n# HELP webrify_verifies_total Verify attempts by result.\n# TYPE webrify_verifies_total counter\nwebrify_verifies_total{result=\"success\"} "@
        + decimal(v.verifies_success as nat)
        + "\nwebrify_verifies_total{result=\"failed\"} "@
        + decimal(v.verifies_failed as nat)
        + "\n# HELP webrify_risk_decisions_total Risk scoring decisions.\n# TYPE webrify_risk_decisions_total counter\nwebrify_risk_decisions_total{decision=\"allow\"} "@
        + decimal(v.risk_allow as nat)
        + "\nwebrify_risk_decisions_total{decision=\"escalate\"} "@
        + decimal(v.risk_escalate as nat)
        + "\nwebrify_risk_decisions_total{decision=\"deny\"} "@
        + decimal(v.risk_deny as nat)
        + "\n# HELP webrify_replay_attempts_total Replay rejections.\n# TYPE webrify_replay_attempts_total counter\nwebrify_replay_attempts_total "@
        + decimal(v.replay_attempts as nat)
        + "\n# HELP webrify_challenge_expired_total Challenges expired before verify.\n# TYPE webrify_challenge_expired_total counter\nwebrify_challenge_expired_total "@
        + decimal(v.challenge_expired as nat)
        + "\n# HELP webrify_origin_rejected_total Origin allowlist rejections.\n# TYPE webrify_origin_rejected_total counter\nwebrify_origin_rejected_total "@
        + decimal(v.origin_rejected as nat)
        + "\n# HELP webrify_solve_time_ms_histogram Solve time distribution (cumulative).\n# TYPE webrify_solve_time_ms_histogram counter\nwebrify_solve_time_ms_histogram{le=\"10\"} "@
        + decimal(solves_up_to(v, 0))
        + "\nwebrify_solve_time_ms_histogram{le=\"50\"} "@
        + decimal(solves_up_to(v, 1))
        + "\nwebrify_solve_time_ms_histogram{le=\"200\"} "@
        + decimal(solves_up_to(v, 2))
        + "\nwebrify_solve_time_ms_histogram{le=\"1000\"} "@
        + decimal(solves_up_to(v, 3))
        + "\nwebrify_solve_time_ms_histogram{le=\"5000\"} "@
        + decimal(solves_up_to(v, 4))
        + "\nwebrify_solve_time_ms_histogram{le=\"+Inf\"} "@
        + decimal(solves_up_to(v, 5))
        + "\n"@
}

impl Default for Metrics {
    fn default() -> (m: Metrics)
        ensures
            m@ == zero_view(),
    {
        Metrics::new()
    }
}

impl Metrics {
    /// All counters at zero.
    pub fn new() -> (m: Metrics)
        ensures
            m@ == zero_view(),
    {
        Metrics {
            challenges_issued: 0,
            verifies_success: 0,
            verifies_failed: 0,
            risk_allow: 0,
            risk_escalate: 0,
            risk_deny: 0,
            replay_attempts: 0,
            challenge_expired: 0,
            origin_rejected: 0,
            solve_lt_10ms: 0,
            solve_lt_50ms: 0,
            solve_lt_200ms: 0,
            solve_lt_1s: 0,
            solve_lt_5s: 0,
            solve_ge_5s: 0,
        }
    }

    pub fn inc_challenges_issued(&mut self)
        ensures
            final(self)@ == (MetricsView { challenges_issued: bump(old(self)@.challenges_issued), ..old(self)@ }),
    {
        self.challenges_issued = bumped(self.challenges_issued);
    }

    pub fn inc_verifies_success(&mut self)
        ensures
            final(self)@ == (MetricsView { verifies_success: bump(old(self)@.verifies_success), ..old(self)@ }),
    {
        self.verifies_success = bumped(self.verifies_success);
    }

    pub fn inc_verifies_failed(&mut self)
        ensures
            final(self)@ == (MetricsView { verifies_failed: bump(old(self)@.verifies_failed), ..old(self)@ }),
    {
        self.verifies_failed = bumped(self.verifies_failed);
    }

    pub fn inc_replay_attempt(&mut self)
        ensures
            final(self)@ == (MetricsView { replay_attempts: bump(old(self)@.replay_attempts), ..old(self)@ }),
    {
        self.replay_attempts = bumped(self.replay_attempts);
    }

    pub fn inc_challenge_expired(&mut self)
        ensures
            final(self)@ == (MetricsView { challenge_expired: bump(old(self)@.challenge_expired), ..old(self)@ }),
    {
        self.challenge_expired = bumped(self.challenge_expired);
    }

    pub fn inc_origin_rejected(&mut self)
        ensures
            final(self)@ == (MetricsView { origin_rejected: bump(old(self)@.origin_rejected), ..old(self)@ }),
    {
        self.origin_rejected = bumped(self.origin_rejected);
    }

    pub fn inc_risk_allow(&mut self)
        ensures
            final(self)@ == (MetricsView { risk_allow: bump(old(self)@.risk_allow), ..old(self)@ }),
    {
        self.risk_allow = bumped(self.risk_allow);
    }

    pub fn inc_risk_escalate(&mut self)
        ensures
            final(self)@ == (MetricsView { risk_escalate: bump(old(self)@.risk_escalate), ..old(self)@ }),
    {
        self.risk_escalate = bumped(self.risk_escalate);
    }

    pub fn inc_risk_deny(&mut self)
        ensures
            final(self)@ == (MetricsView { risk_deny: bump(old(self)@.risk_deny), ..old(self)@ }),
    {
        self.risk_deny = bumped(self.risk_deny);
    }

    /// Record a solve time by incrementing the appropriate histogram bucket.
    pub fn record_solve_time(&mut self, ms: u64)
        ensures
            final(self)@ == with_solve_time(old(self)@, ms),
    {
        if ms < 10 {
            self.solve_lt_10ms = bumped(self.solve_lt_10ms);
        } else if ms < 50 {
            self.solve_lt_50ms = bumped(self.solve_lt_50ms);
        } else if ms < 200 {
            self.solve_lt_200ms = bumped(self.solve_lt_200ms);
        } else if ms < 1000 {
            self.solve_lt_1s = bumped(self.solve_lt_1s);
        } else if ms < 5000 {
            self.solve_lt_5s = bumped(self.solve_lt_5s);
        } else {
            self.solve_ge_5s = bumped(self.solve_ge_5s);
        }
    }

    /// Render as a Prometheus text exposition (Content-Type `text/plain; version=0.0.4`).
    pub fn render(&self) -> (out: String)
        ensures
            out@ == exposition(self@),
    {
        let mut s = String::from_str("# HELP webrify_challenges_issued_total Total challenges minted.\n# TYPE webrify_challenges_issued_total counter\nwebrify_challenges_issued_total ");
        s.append(u64_to_decimal(self.challenges_issued).as_str());
        s.append("\n# HELP webrify_verifies_total Verify attempts by result.\n# TYPE webrify_verifies_total counter\nwebrify_verifies_total{result=\"success\"} ");
        s.append(u64_to_decimal(self.verifies_success).as_str());
        s.append("\nwebrify_verifies_total{result=\"failed\"} ");
        s.append(u64_to_decimal(self.verifies_failed).as_str());
        s.append("\n# HELP webrify_risk_decisions_total Risk scoring decisions.\n# TYPE webrify_risk_decisions_total counter\nwebrify_risk_decisions_total{decision=\"allow\"} ");
        s.append(u64_to_decimal(self.risk_allow).as_str());
        s.append("\nwebrify_risk_decisions_total{decision=\"escalate\"} ");
        s.append(u64_to_decimal(self.risk_escalate).as_str());
        s.append("\nwebrify_risk_decisions_total{decision=\"deny\"} ");
        s.append(u64_to_decimal(self.risk_deny).as_str());
        s.append("\n# HELP webrify_replay_attempts_total Replay rejections.\n# TYPE webrify_replay_attempts_total counter\nwebrify_replay_attempts_total ");
        s.append(u64_to_decimal(self.replay_attempts).as_str());
        s.append("\n# HELP webrify_challenge_expired_total Challenges expired before verify.\n# TYPE webrify_challenge_expired_total counter\nwebrify_challenge_expired_total ");
        s.append(u64_to_decimal(self.challenge_expired).as_str());
        s.append("\n# HELP webrify_origin_rejected_total Origin allowlist rejections.\n# TYPE webrify_origin_rejected_total counter\nwebrify_origin_rejected_total ");
        s.append(u64_to_decimal(self.origin_rejected).as_str());
        let c10: u128 = self.solve_lt_10ms as u128;
        let c50: u128 = c10 + self.solve_lt_50ms as u128;
        let c200: u128 = c50 + self.solve_lt_200ms as u128;
        let c1s: u128 = c200 + self.solve_lt_1s as u128;
        let c5s: u128 = c1s + self.solve_lt_5s as u128;
        let total: u128 = c5s + self.solve_ge_5s as u128;
        s.append("\n# HELP webrify_solve_time_ms_histogram Solve time distribution (cumulative).\n# TYPE webrify_solve_time_ms_histogram counter\nwebrify_solve_time_ms_histogram{le=\"10\"} ");
        s.append(u128_to_decimal(c10).as_str());
        s.append("\nwebrify_solve_time_ms_histogram{le=\"50\"} ");
        s.append(u128_to_decimal(c50).as_str());
        s.append("\nwebrify_solve_time_ms_histogram{le=\"200\"} ");
        s.append(u128_to_decimal(c200).as_str());
        s.append("\nwebrify_solve_time_ms_histogram{le=\"1000\"} ");
        s.append(u128_to_decimal(c1s).as_str());
        s.append("\nwebrify_solve_time_ms_histogram{le=\"5000\"} ");
        s.append(u128_to_decimal(c5s).as_str());
        s.append("\nwebrify_solve_time_ms_histogram{le=\"+Inf\"} ");
        s.append(u128_to_decimal(total).as_str());
        s.append("\n");
        s
    }
}

} // verus!
