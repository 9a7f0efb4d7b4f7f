use turnstile::metrics::Metrics;

#[test]
fn counters_increment_and_render() {
    let mut m = Metrics::default();
    m.inc_challenges_issued();
    m.inc_challenges_issued();
    m.inc_verifies_success();
    m.inc_verifies_failed();
    let out = m.render();
    assert!(out.contains("webrify_challenges_issued_total 2"), "{out}");
    assert!(out.contains("result=\"success\"} 1"), "{out}");
    assert!(out.contains("result=\"failed\"} 1"), "{out}");
    assert!(out.contains("# TYPE webrify_verifies_total counter"));
}

#[test]
fn empty_metrics_render_zeroes() {
    let out = Metrics::default().render();
    assert!(out.contains("webrify_challenges_issued_total 0"));
    assert!(out.contains("result=\"success\"} 0"));
}

#[test]
fn every_counter_and_bucket_is_rendered() {
    let mut m = Metrics::new();
    m.inc_risk_allow();
    m.inc_risk_escalate();
    m.inc_risk_escalate();
    m.inc_risk_deny();
    m.inc_replay_attempt();
    m.inc_challenge_expired();
    m.inc_origin_rejected();
    for ms in [0, 9, 10, 49, 50, 199, 200, 999, 1000, 4999, 5000, u64::MAX] {
        m.record_solve_time(ms);
    }
    let out = m.render();
    assert!(out.contains("webrify_risk_decisions_total{decision=\"allow\"} 1\n"), "{out}");
    assert!(out.contains("webrify_risk_decisions_total{decision=\"escalate\"} 2\n"), "{out}");
    assert!(out.contains("webrify_risk_decisions_total{decision=\"deny\"} 1\n"), "{out}");
    assert!(out.contains("webrify_replay_attempts_total 1\n"), "{out}");
    assert!(out.contains("webrify_challenge_expired_total 1\n"), "{out}");
    assert!(out.contains("webrify_origin_rejected_total 1\n"), "{out}");
    for (le, n) in [("10", 2), ("50", 4), ("200", 6), ("1000", 8), ("5000", 10), ("+Inf", 12)] {
        assert!(out.contains(&format!("webrify_solve_time_ms_histogram{{le=\"{le}\"}} {n}\n")), "{out}");
    }
    assert!(out.ends_with("\n"));
}

#[test]
fn metrics_endpoint_reports_counters() {
    let mut m = Metrics::new();
    m.inc_challenges_issued();
    m.inc_verifies_success();
    let text = m.render();
    assert!(text.contains("webrify_challenges_issued_total 1"), "{text}");
    assert!(text.contains("result=\"success\"} 1"), "{text}");
    assert!(text.contains("# TYPE webrify_verifies_total counter"));
}

#[test]
fn solve_time_histogram_is_cumulative() {
    let mut m = Metrics::default();
    m.record_solve_time(5);
    m.record_solve_time(30);
    let out = m.render();
    for (le, n) in [("10", 1), ("50", 2), ("200", 2), ("1000", 2), ("5000", 2), ("+Inf", 2)] {
        assert!(out.contains(&format!("webrify_solve_time_ms_histogram{{le=\"{le}\"}} {n}\n")), "{out}");
    }
}
