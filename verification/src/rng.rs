//! Cryptographic randomness for challenges, salts, and tokens, from the
//! operating system's generator (`rand`'s `OsRng`).
//!
//! OS entropy can fail, so every primitive returns a `Result` and callers
//! fail closed (refuse to mint challenges or tokens) on error.

use rand_core::TryRngCore;
use vstd::prelude::*;

verus! {

/// Minimum entropy for a challenge seed: 128 bits (16 bytes).
pub const MIN_CHALLENGE_BYTES: usize = 16;

/// The operating system's random source failed.
#[derive(Debug, Clone, Copy, PartialEq, Eq, Structural)]
pub struct RngError;

#[verifier::external_type_specification]
#[verifier::external_body]
pub struct ExOsError(rand_core::OsError);

/// Calls `OsRng::try_fill_bytes` (`rand`'s OS generator, which hands the
/// buffer to `getrandom::fill`). Trusted to leave the length of `dest`
/// unchanged, and to succeed on an empty buffer, which `getrandom` returns
/// at once without asking the operating system. The bytes are random and
/// nothing is stated of them; whether a non-empty fill fails depends on the
/// operating system.
#[verifier::external_body]
fn os_fill(dest: &mut [u8]) -> (r: Result<(), rand_core::OsError>)
    ensures
        final(dest)@.len() == old(dest)@.len(),
        old(dest)@.len() == 0 ==> r is Ok,
{
    rand::rngs::OsRng.try_fill_bytes(dest)
}

/// Fill `dest` with cryptographically secure random bytes from the OS RNG.
/// Returns an error if the OS entropy source fails; callers should fail closed.
/// An empty buffer always succeeds.
pub fn fill_random(dest: &mut [u8]) -> (r: Result<(), RngError>)
    ensures
        final(dest)@.len() == old(dest)@.len(),
        old(dest)@.len() == 0 ==> r == Ok::<(), RngError>(()),
{
    match os_fill(dest) {
        Ok(()) => Ok(()),
        Err(_) => Err(RngError),
    }
}

/// Allocate `len` cryptographically random bytes. Zero bytes are always
/// available; a longer request fails when the OS entropy source does.
pub fn random_bytes(len: usize) -> (r: Result<Vec<u8>, RngError>)
    ensures
        r matches Ok(v) ==> v@.len() == len,
        len == 0 ==> (r matches Ok(v) && v@ == Seq::<u8>::empty()),
{
    let mut buf: Vec<u8> = vec![0u8; len];
    fill_random(buf.as_mut_slice())?;
    Ok(buf)
}

/// The challenge seed made of `bytes`, as a fixed-size array.
pub fn seed_from_bytes(bytes: &[u8]) -> (seed: [u8; MIN_CHALLENGE_BYTES])
    requires
        bytes@.len() == MIN_CHALLENGE_BYTES,
    ensures
        seed@ == bytes@,
{
    let mut seed = [0u8; MIN_CHALLENGE_BYTES];
    let mut i: usize = 0;
    while i < MIN_CHALLENGE_BYTES
        invariant
            i <= MIN_CHALLENGE_BYTES,
            bytes@.len() == MIN_CHALLENGE_BYTES,
            seed@.len() == MIN_CHALLENGE_BYTES,
            forall|j: int| 0 <= j < i ==> seed@[j] == bytes@[j],
        decreases MIN_CHALLENGE_BYTES - i,
    {
        seed[i] = bytes[i];
        i = i + 1;
    }
    assert(seed@ =~= bytes@);
    seed
}

/// Generate a fresh 128-bit challenge seed: 16 bytes drawn from the OS
/// random source (see [`random_bytes`]), made into a seed by
/// [`seed_from_bytes`].
pub fn challenge_seed() -> (r: Result<[u8; MIN_CHALLENGE_BYTES], RngError>)
    ensures
        r matches Ok(seed) ==> seed@.len() == MIN_CHALLENGE_BYTES,
{
    let bytes = random_bytes(MIN_CHALLENGE_BYTES)?;
    Ok(seed_from_bytes(bytes.as_slice()))
}

} // verus!
