use turnstile::store::{
    escalation_key, median_rank, parse_solve_member, rate_decision, rate_key, solve_time_member, solve_times_key,
    solve_times_trim_rank, spent_key, new_solve_time_member, tag_of,
};

#[test]
fn keys_are_namespaced() {
    assert_eq!(spent_key("cafe"), "webrify:spent:cafe");
    assert_eq!(escalation_key("198.51.100.7"), "webrify:escalation:198.51.100.7");
    assert_eq!(rate_key("::1"), "webrify:rate:::1");
    assert_eq!(solve_times_key(), "webrify:solve_times");
    assert_eq!(solve_times_trim_rank(), -1001);
}

#[test]
fn solve_time_members_round_trip() {
    let m = solve_time_member(1_758_000_000, 420, 7);
    assert_eq!(m, "1758000000:420:7");
    assert_eq!(parse_solve_member(&m), 420);
}

#[test]
fn unreadable_members_fall_back_to_one_second() {
    assert_eq!(parse_solve_member("1758000000"), 1000);
    assert_eq!(parse_solve_member("1758000000:abc"), 1000);
    assert_eq!(parse_solve_member("1:99999999999999999999"), 1000);
    assert_eq!(parse_solve_member("1:+7:9"), 7);
    assert_eq!(parse_solve_member(":"), 1000);
}

#[test]
fn median_is_the_lower_middle_rank() {
    assert_eq!(median_rank(0), 0);
    assert_eq!(median_rank(1), 0);
    assert_eq!(median_rank(4), 1);
    assert_eq!(median_rank(5), 2);
}

#[test]
fn rate_decisions() {
    let d = rate_decision(1, 10);
    assert!(d.allowed && d.set_expiry);
    let d = rate_decision(10, 10);
    assert!(d.allowed && !d.set_expiry);
    let d = rate_decision(11, 10);
    assert!(!d.allowed && !d.set_expiry);
}

#[test]
fn solve_time_member_reads_back_its_time() {
    for (now, ms, tag) in [(0u64, 0u64, 0u64), (1_700_000_000, 1234, 99), (u64::MAX, u64::MAX, u64::MAX), (42, 9, 1)] {
        assert_eq!(parse_solve_member(&solve_time_member(now, ms, tag)), ms);
    }
}

#[test]
fn equal_solves_in_one_second_get_distinct_members() {
    let a = new_solve_time_member(1_758_000_000, 420).unwrap();
    let b = new_solve_time_member(1_758_000_000, 420).unwrap();
    assert_ne!(a, b);
    assert!(a.starts_with("1758000000:420:"));
    assert_eq!(parse_solve_member(&a), 420);
    assert_ne!(solve_time_member(1, 2, 3), solve_time_member(1, 2, 4));
}

#[test]
fn tag_is_the_big_endian_number_of_the_bytes() {
    assert_eq!(tag_of(&[0, 0, 0, 0, 0, 0, 1, 2]), 258);
    assert_eq!(tag_of(&[0xff; 8]), u64::MAX);
    assert_eq!(tag_of(&[1, 0, 0, 0, 0, 0, 0, 0]), 1 << 56);
}
