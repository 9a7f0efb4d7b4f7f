//! Browser fingerprint hashing.
//!
//! The widget collects environment signals into a canonical string (sorted
//! keys, stable formatting); this module hashes it to a stable 128-bit
//! identifier. A versioned domain-separation prefix keeps this hash distinct
//! from any other SHA-256 use of the same input.

use vstd::prelude::*;
use vstd::utf8::encode_utf8;
use crate::digest::{sha256, spec_sha256};

verus! {

/// Fingerprint output size: 128 bits.
pub const FINGERPRINT_BYTES: usize = 16;

/// The versioned domain-separation prefix.
pub open spec fn fingerprint_prefix() -> Seq<char> {
    "webrify-fp-v1:"@
}

/// The fingerprint of a canonical signal string: the first 16 bytes of
/// `SHA-256(prefix || signals)`, both in UTF-8.
pub open spec fn fingerprint_of(signals: Seq<char>) -> Seq<u8> {
    spec_sha256(encode_utf8(fingerprint_prefix()) + encode_utf8(signals)).subrange(0, FINGERPRINT_BYTES as int)
}

/// Hash a canonical signal string to a 128-bit fingerprint.
///
/// Deterministic: identical `signals_json` always yields the same
/// fingerprint. The caller must build `signals_json` canonically.
pub fn hash(signals_json: &str) -> (fp: [u8; FINGERPRINT_BYTES])
    ensures
        fp@ == fingerprint_of(signals_json@),
{
    let prefix = "webrify-fp-v1:".as_bytes();
    let body = signals_json.as_bytes();
    let mut input: Vec<u8> = Vec::new();
    let mut i: usize = 0;
    while i < prefix.len()
        invariant
            i <= prefix@.len(),
            input@ == prefix@.subrange(0, i as int),
        decreases prefix@.len() - i,
    {
        input.push(prefix[i]);
        i = i + 1;
    }
    let mut j: usize = 0;
    while j < body.len()
        invariant
            j <= body@.len(),
            input@ == prefix@ + body@.subrange(0, j as int),
        decreases body@.len() - j,
    {
        input.push(body[j]);
        j = j + 1;
    }
    assert(body@.subrange(0, body@.len() as int) =~= body@);
    let digest = sha256(input.as_slice());
    let mut out = [0u8; FINGERPRINT_BYTES];
    let mut k: usize = 0;
    while k < FINGERPRINT_BYTES
        invariant
            k <= FINGERPRINT_BYTES,
            digest@.len() == 32,
            out@.len() == FINGERPRINT_BYTES,
            forall|m: int| 0 <= m < k ==> out@[m] == digest@[m],
        decreases FINGERPRINT_BYTES - k,
    {
        out[k] = digest[k];
        k = k + 1;
    }
    assert(out@ =~= digest@.subrange(0, FINGERPRINT_BYTES as int));
    out
}

} // verus!
