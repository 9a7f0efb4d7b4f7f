use sha2::Digest;
use turnstile::pow::{
    adjust_difficulty, hash_nonce, leading_zero_bits, solve, solve_bounded, solve_bounded_range, try_solve, verify,
};

#[test]
fn leading_zero_bits_known_values() {
    assert_eq!(leading_zero_bits(&[]), 0);
    assert_eq!(leading_zero_bits(&[0xFF]), 0);
    assert_eq!(leading_zero_bits(&[0x7F]), 1);
    assert_eq!(leading_zero_bits(&[0x0F]), 4);
    assert_eq!(leading_zero_bits(&[0x01]), 7);
    assert_eq!(leading_zero_bits(&[0x00]), 8);
    assert_eq!(leading_zero_bits(&[0x00, 0xFF]), 8);
    assert_eq!(leading_zero_bits(&[0x00, 0x0F]), 12);
    assert_eq!(leading_zero_bits(&[0x00, 0x00, 0x01]), 23);
    assert_eq!(leading_zero_bits(&[0xFF; 32]), 0);
    assert_eq!(leading_zero_bits(&[0x00; 32]), 256);
}

#[test]
fn difficulty_zero_always_satisfies() {
    let seed = b"any-seed";
    assert!(verify(seed, 0, 0));
    assert!(verify(seed, 42, 0));
    assert!(verify(seed, u64::MAX, 0));
}

#[test]
fn adjust_difficulty_escalates_then_caps() {
    assert_eq!(adjust_difficulty(14, 0), 14);
    assert_eq!(adjust_difficulty(14, 3), 17);
    // Bump is capped at MAX_ESCALATION_BITS (6).
    assert_eq!(adjust_difficulty(14, 100), 20);
    // And the total is capped at DIFFICULTY_CAP (24).
    assert_eq!(adjust_difficulty(20, 10), 24);
    assert_eq!(adjust_difficulty(30, 0), 24);
}

#[test]
fn solve_returns_smallest_valid_nonce() {
    let seed = b"wave-a-pow-test-seed";
    let difficulty = 8;
    let nonce = solve(seed, difficulty);
    assert!(verify(seed, nonce, difficulty));
    for n in 0..nonce {
        assert!(!verify(seed, n, difficulty), "smaller nonce {n} also satisfies");
    }
}

#[test]
fn solve_is_deterministic() {
    let seed = b"determinism-check";
    let difficulty = 12;
    assert_eq!(solve(seed, difficulty), solve(seed, difficulty));
}

#[test]
fn verify_rejects_just_below_threshold() {
    let seed = b"reject-threshold-seed";
    let nonce = solve(seed, 8);
    let actual = leading_zero_bits(&hash_nonce(seed, nonce));
    assert!(actual >= 8);
    assert!(!verify(seed, nonce, actual + 1));
}

#[test]
fn round_trip_across_seeds_and_difficulties() {
    for (seed, diff) in [(&b"s1"[..], 4u32), (&b"s2"[..], 8), (&b"s3"[..], 10), (&b"longer-seed-value"[..], 6)] {
        let nonce = solve(seed, diff);
        assert!(verify(seed, nonce, diff), "round trip failed for {seed:?} @ {diff}");
    }
}

#[test]
fn solve_bounded_difficulty_zero() {
    assert_eq!(solve_bounded(b"any", 0, 5), Some(0));
}

#[test]
fn solve_bounded_boundary_around_full_solution() {
    let seed = b"bounded-boundary-seed";
    let difficulty = 8;
    let full = solve(seed, difficulty);
    if full > 0 {
        assert_eq!(solve_bounded(seed, difficulty, full - 1), None);
    }
    assert_eq!(solve_bounded(seed, difficulty, full), Some(full));
    assert_eq!(solve_bounded(seed, difficulty, full + 10), Some(full));
}

#[test]
fn solve_bounded_returns_none_when_space_too_small() {
    let result = solve_bounded(b"tiny-cap-seed", 20, 5);
    assert!(result.is_none(), "expected no solution within tiny cap");
}

#[test]
fn solve_bounded_range_splits_the_search() {
    let seed = b"range-split-seed";
    let difficulty = 8;
    let full = solve(seed, difficulty);
    // A worker whose range starts at the solution finds it.
    assert_eq!(solve_bounded_range(seed, difficulty, full, full + 100), Some(full));
    // A worker whose range ends just before the solution finds nothing below it.
    if full > 0 {
        assert_eq!(solve_bounded_range(seed, difficulty, 0, full - 1), None);
    }
    // An empty range finds nothing; difficulty zero answers 0 whatever the range.
    assert_eq!(solve_bounded_range(seed, difficulty, 10, 5), None);
    assert_eq!(solve_bounded_range(seed, 0, 10, 20), Some(10));
    assert_eq!(solve_bounded_range(seed, 0, 5, 10), Some(5));
    assert_eq!(solve_bounded_range(seed, 0, 10, 5), None);
}

#[test]
fn try_solve_agrees_with_solve() {
    let seed = b"try-solve-seed";
    assert_eq!(try_solve(seed, 8), Some(solve(seed, 8)));
    assert_eq!(try_solve(seed, 0), Some(0));
}

#[test]
fn hash_nonce_is_sha256_of_seed_and_big_endian_nonce() {
    let mut input = b"seed".to_vec();
    input.extend_from_slice(&0x0102030405060708u64.to_be_bytes());
    let expected = sha2::Sha256::digest(&input).to_vec();
    assert_eq!(hash_nonce(b"seed", 0x0102030405060708), expected);
    assert_ne!(hash_nonce(b"seed", 1), hash_nonce(b"seed", 2));
}
