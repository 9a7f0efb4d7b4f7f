use turnstile::hmac::{sign, signing_string, verify_signature};

const SECRET: &[u8] = b"super-secret-hmac-key";

fn ss(challenge: &str, difficulty: u32, origin: &str) -> String {
    signing_string("SHA-256", "deadbeef", challenge, difficulty, 100_000, 1_758_000_000, origin)
}

#[test]
fn sign_then_verify_round_trips() {
    let s = ss("cafebabe", 14, "https://example.com");
    let sig = sign(SECRET, &s);
    assert!(verify_signature(SECRET, &s, &sig));
}

#[test]
fn verify_rejects_tampered_difficulty() {
    let legit = ss("cafebabe", 14, "https://example.com");
    let sig = sign(SECRET, &legit);
    let tampered = ss("cafebabe", 4, "https://example.com");
    assert!(!verify_signature(SECRET, &tampered, &sig));
}

#[test]
fn verify_rejects_tampered_origin() {
    let sig = sign(SECRET, &ss("cafebabe", 14, "https://example.com"));
    let forged = ss("cafebabe", 14, "https://evil.com");
    assert!(!verify_signature(SECRET, &forged, &sig));
}

#[test]
fn verify_rejects_wrong_secret() {
    let s = ss("cafebabe", 14, "https://example.com");
    let sig = sign(SECRET, &s);
    assert!(!verify_signature(b"different-secret", &s, &sig));
}

#[test]
fn verify_rejects_malformed_hex() {
    let s = ss("cafebabe", 14, "https://example.com");
    assert!(!verify_signature(SECRET, &s, "not-hex!"));
}

#[test]
fn signing_string_is_canonical() {
    let s = signing_string("SHA-256", "aa", "cc", 8, 1000, 99, "https://x");
    assert_eq!(s, "SHA-256|aa|cc|8|1000|99|https://x");
}

#[test]
fn signing_string_renders_negative_and_extreme_integers() {
    let s = signing_string("A", "", "c", u32::MAX, u64::MAX, i64::MIN, "o");
    assert_eq!(s, "A||c|4294967295|18446744073709551615|-9223372036854775808|o");
    let s = signing_string("A", "s", "c", 0, 0, -5, "");
    assert_eq!(s, "A|s|c|0|0|-5|");
}

#[test]
fn sign_is_rfc4231_hmac_sha256_hex() {
    // RFC 4231 test case 2.
    let sig = sign(b"Jefe", "what do ya want for nothing?");
    assert_eq!(sig, "5bdcc146bf60754e6a042426089575c75a003f089d2739839dec58b964ec3843");
    // Uppercase hex of the same tag verifies too.
    assert!(verify_signature(b"Jefe", "what do ya want for nothing?", &sig.to_uppercase()));
    // A truncated tag does not.
    assert!(!verify_signature(b"Jefe", "what do ya want for nothing?", &sig[..62]));
}
