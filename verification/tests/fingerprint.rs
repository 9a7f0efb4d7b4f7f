use sha2::Digest;
use turnstile::client::fingerprint_hash;
use turnstile::fingerprint::{hash, FINGERPRINT_BYTES};

#[test]
fn hash_is_deterministic() {
    assert_eq!(hash(r#"{"canvas":"abc","ua":"x"}"#), hash(r#"{"canvas":"abc","ua":"x"}"#));
}

#[test]
fn different_signals_yield_different_fingerprints() {
    let a = hash(r#"{"canvas":"abc"}"#);
    let b = hash(r#"{"canvas":"abd"}"#);
    assert_ne!(a, b);
}

#[test]
fn empty_input_is_stable_and_prefix_isolated() {
    let fp = hash("");
    assert_eq!(fp.len(), FINGERPRINT_BYTES);
    let raw_digest = sha2::Sha256::new().finalize();
    assert_ne!(&fp[..], &raw_digest[..FINGERPRINT_BYTES]);
}

#[test]
fn output_length() {
    assert_eq!(hash("x").len(), FINGERPRINT_BYTES);
    assert_eq!(hash("x").len() * 8, 128);
}

#[test]
fn key_order_matters_caller_must_canonicalize() {
    assert_ne!(hash(r#"{"a":"1","b":"2"}"#), hash(r#"{"b":"2","a":"1"}"#));
}

#[test]
fn fingerprint_is_prefixed_sha256_truncated() {
    let digest = sha2::Sha256::digest(b"webrify-fp-v1:{\"ua\":\"y\"}");
    assert_eq!(&hash(r#"{"ua":"y"}"#)[..], &digest[..16]);
}

#[test]
fn fingerprint_hash_is_lowercase_hex_of_hash() {
    let h = fingerprint_hash("abc");
    assert_eq!(h.len(), 32);
    let expected: String = hash("abc").iter().map(|b| format!("{b:02x}")).collect();
    assert_eq!(h, expected);
}
