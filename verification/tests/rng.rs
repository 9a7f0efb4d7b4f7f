use turnstile::rng::{challenge_seed, fill_random, random_bytes, MIN_CHALLENGE_BYTES};

#[test]
fn fill_random_is_nontrivial() {
    let mut buf = [0u8; 32];
    fill_random(&mut buf).unwrap();
    assert!(buf.iter().any(|&b| b != 0));
}

#[test]
fn random_bytes_respects_requested_length() {
    assert_eq!(random_bytes(0).unwrap().len(), 0);
    assert_eq!(random_bytes(16).unwrap().len(), 16);
    assert_eq!(random_bytes(64).unwrap().len(), 64);
}

#[test]
fn challenge_seed_is_128_bits() {
    let seed = challenge_seed().unwrap();
    assert_eq!(seed.len(), MIN_CHALLENGE_BYTES);
    assert_eq!(seed.len() * 8, 128);
}

#[test]
fn successive_challenge_seeds_differ() {
    assert_ne!(challenge_seed().unwrap(), challenge_seed().unwrap());
}

#[test]
fn zero_random_bytes_always_succeed() {
    assert_eq!(random_bytes(0), Ok(Vec::new()));
    let mut empty: [u8; 0] = [];
    assert_eq!(turnstile::rng::fill_random(&mut empty), Ok(()));
}

#[test]
fn seed_from_bytes_keeps_the_bytes() {
    let bytes: Vec<u8> = (0u8..16).collect();
    assert_eq!(turnstile::rng::seed_from_bytes(&bytes).to_vec(), bytes);
}
