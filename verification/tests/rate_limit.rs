use turnstile::rate_limit::{PeerKey, RateLimiter, MAX_ENTRIES};

const HOUR_NANOS: u64 = 3_600_000_000_000;

fn ip(b: u8) -> PeerKey {
    // 127.0.0.b
    PeerKey::V4(0x7F00_0000 | b as u32)
}

#[test]
fn allows_up_to_max_then_denies_within_window() {
    let mut limiter = RateLimiter::new(HOUR_NANOS, 2);
    assert!(limiter.check(ip(1)));
    assert!(limiter.check(ip(1)));
    assert!(!limiter.check(ip(1)));
}

#[test]
fn distinct_ips_are_independent() {
    let mut limiter = RateLimiter::new(HOUR_NANOS, 1);
    assert!(limiter.check(ip(1)));
    assert!(!limiter.check(ip(1)));
    assert!(limiter.check(ip(2)));
}

#[test]
fn window_reset_re_allows_again() {
    // A 1 ms window: a request 5 ms later lands in a new window.
    let mut limiter = RateLimiter::new(1_000_000, 1);
    assert!(limiter.check_at(ip(1), 0));
    assert!(!limiter.check_at(ip(1), 0));
    assert!(limiter.check_at(ip(1), 5_000_000));
}

#[test]
fn ipv4_and_ipv6_peers_are_distinct() {
    let mut limiter = RateLimiter::new(HOUR_NANOS, 1);
    assert!(limiter.check_at(PeerKey::V4(1), 10));
    assert!(limiter.check_at(PeerKey::V6(1), 10));
    assert!(!limiter.check_at(PeerKey::V6(1), 11));
}

#[test]
fn window_boundary_is_exclusive() {
    let mut limiter = RateLimiter::new(100, 1);
    assert!(limiter.check_at(ip(3), 1000));
    assert!(!limiter.check_at(ip(3), 1099));
    assert!(limiter.check_at(ip(3), 1100));
}

#[test]
fn eviction_under_flood_keeps_live_windows() {
    let mut limiter = RateLimiter::new(1000, 1);
    for i in 0..(MAX_ENTRIES as u32 + 1) {
        assert!(limiter.check_at(PeerKey::V4(i), 0));
    }
    // Everything is expired at t = 5000: the flood is evicted and peer 0 starts afresh.
    assert!(limiter.check_at(PeerKey::V4(0), 5000));
    assert!(!limiter.check_at(PeerKey::V4(0), 5001));
}
