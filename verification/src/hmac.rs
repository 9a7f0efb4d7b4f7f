//! HMAC-SHA256 challenge binding.
//!
//! The challenge signature covers every binding parameter so any client
//! tampering (e.g. lowering `difficulty`) is detected at verify time.
//! Re-verification compares tags in constant time, inside the `hmac` crate.

use ::hmac::Mac;
use vstd::prelude::*;
use vstd::string::*;
use vstd::utf8::encode_utf8;
use crate::hexstr::{self, hex_decode, hex_encode, lemma_hex_roundtrip, HexError};
use crate::text::{
    decimal, i64_to_decimal, lemma_decimal_digits, lemma_decimal_injective, lemma_signed_decimal_injective,
    lemma_signed_decimal_lacks, signed_decimal, u64_to_decimal,
};

verus! {

/// The HMAC-SHA256 tag of `message` under `key`.
pub uninterp spec fn spec_hmac_sha256(key: Seq<u8>, message: Seq<u8>) -> Seq<u8>;

/// Computes HMAC-SHA256 with the `hmac` crate (`Hmac::<Sha256>::new_from_slice`,
/// `update`, `finalize`). Trusted: the tag is the one `spec_hmac_sha256` names,
/// 32 bytes long. Key construction cannot fail: HMAC accepts keys of any length.
#[verifier::external_body]
fn hmac_sha256(key: &[u8], message: &[u8]) -> (tag: Vec<u8>)
    ensures
        tag@ == spec_hmac_sha256(key@, message@),
        tag@.len() == 32,
{
    let mut mac = ::hmac::Hmac::<sha2::Sha256>::new_from_slice(key).expect("HMAC accepts any key length");
    mac.update(message);
    mac.finalize().into_bytes().to_vec()
}

/// Checks a tag with the `hmac` crate's `Mac::verify_slice`, which compares
/// in constant time. Trusted: the answer is whether `tag` equals the tag that
/// `spec_hmac_sha256` names (a tag of another length never matches).
#[verifier::external_body]
fn hmac_sha256_verify(key: &[u8], message: &[u8], tag: &[u8]) -> (ok: bool)
    ensures
        ok == (tag@ == spec_hmac_sha256(key@, message@)),
{
    let mut mac = ::hmac::Hmac::<sha2::Sha256>::new_from_slice(key).expect("HMAC accepts any key length");
    mac.update(message);
    mac.verify_slice(tag).is_ok()
}

/// The canonical signing text: the fields joined by `|`, integers in decimal.
pub open spec fn signing_text(
    algorithm: Seq<char>,
    salt: Seq<char>,
    challenge: Seq<char>,
    difficulty: u32,
    maxnumber: u64,
    expires_at: i64,
    origin: Seq<char>,
) -> Seq<char> {
    algorithm + seq!['|'] + salt + seq!['|'] + challenge + seq!['|'] + decimal(difficulty as nat)
        + seq!['|'] + decimal(maxnumber as nat) + seq!['|'] + signed_decimal(expires_at as int)
        + seq!['|'] + origin
}

/// The signature of a signing text: the lowercase hex of its HMAC tag over
/// the text's UTF-8 bytes.
pub open spec fn signature_of(secret: Seq<u8>, text: Seq<char>) -> Seq<char> {
    hex_encode(spec_hmac_sha256(secret, encode_utf8(text)))
}

/// A hex signature is valid for a text when it decodes to the text's HMAC tag.
pub open spec fn signature_valid(secret: Seq<u8>, text: Seq<char>, signature: Seq<char>) -> bool {
    hex_decode(signature) == Ok::<Seq<u8>, HexError>(spec_hmac_sha256(secret, encode_utf8(text)))
}

/// Build the canonical signing string. Field order is part of the protocol
/// contract and MUST be identical at sign and verify time.
pub fn signing_string(
    algorithm: &str,
    salt: &str,
    challenge: &str,
    difficulty: u32,
    maxnumber: u64,
    expires_at: i64,
    origin: &str,
) -> (s: String)
    ensures
        s@ == signing_text(algorithm@, salt@, challenge@, difficulty, maxnumber, expires_at, origin@),
{
    proof {
        reveal_strlit("|");
    }
    let mut s = String::from_str(algorithm);
    s.append("|");
    s.append(salt);
    s.append("|");
    s.append(challenge);
    s.append("|");
    s.append(u64_to_decimal(difficulty as u64).as_str());
    s.append("|");
    s.append(u64_to_decimal(maxnumber).as_str());
    s.append("|");
    s.append(i64_to_decimal(expires_at).as_str());
    s.append("|");
    s.append(origin);
    s
}

/// Compute the HMAC-SHA256 signature (lowercase hex) over `signing_string`.
pub fn sign(secret: &[u8], signing_string: &str) -> (signature: String)
    ensures
        signature@ == signature_of(secret@, signing_string@),
{
    let tag = hmac_sha256(secret, signing_string.as_bytes());
    hexstr::encode(tag.as_slice())
}

/// Constant-time verification that `signature_hex` matches the HMAC of
/// `signing_string` under `secret`. Returns `false` on any mismatch and on
/// malformed hex.
pub fn verify_signature(secret: &[u8], signing_string: &str, signature_hex: &str) -> (ok: bool)
    ensures
        ok == signature_valid(secret@, signing_string@, signature_hex@),
{
    let expected = match hexstr::decode(signature_hex) {
        Ok(bytes) => bytes,
        Err(_) => return false,
    };
    hmac_sha256_verify(secret, signing_string.as_bytes(), expected.as_slice())
}

/// A signature produced by [`sign`] always verifies under the same secret
/// and signing text.
pub proof fn lemma_sign_then_verify(secret: Seq<u8>, text: Seq<char>)
    ensures
        signature_valid(secret, text, signature_of(secret, text)),
{
    lemma_hex_roundtrip(spec_hmac_sha256(secret, encode_utf8(text)));
}

/// Two texts without `|`, each followed by `|` and a rest, are equal
/// joined only when both texts and both rests are.
proof fn lemma_split_at_bar(x1: Seq<char>, r1: Seq<char>, x2: Seq<char>, r2: Seq<char>)
    requires
        !x1.contains('|'),
        !x2.contains('|'),
        x1 + seq!['|'] + r1 == x2 + seq!['|'] + r2,
    ensures
        x1 == x2,
        r1 == r2,
{
    let t1 = x1 + seq!['|'] + r1;
    let t2 = x2 + seq!['|'] + r2;
    if x1.len() < x2.len() {
        assert(t1[x1.len() as int] == '|');
        assert(t2[x1.len() as int] == x2[x1.len() as int]);
        assert(x2.contains(x2[x1.len() as int]));
    } else if x2.len() < x1.len() {
        assert(t2[x2.len() as int] == '|');
        assert(t1[x2.len() as int] == x1[x2.len() as int]);
        assert(x1.contains(x1[x2.len() as int]));
    } else {
        assert(x1 =~= t1.subrange(0, x1.len() as int));
        assert(x2 =~= t2.subrange(0, x2.len() as int));
        assert(r1 =~= t1.subrange(x1.len() as int + 1, t1.len() as int));
        assert(r2 =~= t2.subrange(x2.len() as int + 1, t2.len() as int));
    }
}

/// The decimal rendering of a number holds no `|`.
proof fn lemma_decimal_lacks_bar(n: nat)
    ensures
        !decimal(n).contains('|'),
{
    lemma_decimal_digits(n);
    if decimal(n).contains('|') {
        let i = choose|i: int| 0 <= i < decimal(n).len() && decimal(n)[i] == '|';
        assert(48 <= (decimal(n)[i] as u32) <= 57);
    }
}

/// The signing text binds every field: when the algorithm, salt and
/// challenge hold no `|` (true of `SHA-256` and of hex), two signing texts
/// are equal only for equal fields, so changing any bound field (the
/// difficulty or the origin, say) changes the signed text.
pub proof fn lemma_signing_text_injective(
    a1: Seq<char>, s1: Seq<char>, c1: Seq<char>, d1: u32, m1: u64, e1: i64, o1: Seq<char>,
    a2: Seq<char>, s2: Seq<char>, c2: Seq<char>, d2: u32, m2: u64, e2: i64, o2: Seq<char>,
)
    requires
        !a1.contains('|'), !s1.contains('|'), !c1.contains('|'),
        !a2.contains('|'), !s2.contains('|'), !c2.contains('|'),
        signing_text(a1, s1, c1, d1, m1, e1, o1) == signing_text(a2, s2, c2, d2, m2, e2, o2),
    ensures
        a1 == a2, s1 == s2, c1 == c2, d1 == d2, m1 == m2, e1 == e2, o1 == o2,
{
    let bar = seq!['|'];
    let r6_1 = signed_decimal(e1 as int) + bar + o1;
    let r6_2 = signed_decimal(e2 as int) + bar + o2;
    let r5_1 = decimal(m1 as nat) + bar + r6_1;
    let r5_2 = decimal(m2 as nat) + bar + r6_2;
    let r4_1 = decimal(d1 as nat) + bar + r5_1;
    let r4_2 = decimal(d2 as nat) + bar + r5_2;
    let r3_1 = c1 + bar + r4_1;
    let r3_2 = c2 + bar + r4_2;
    let r2_1 = s1 + bar + r3_1;
    let r2_2 = s2 + bar + r3_2;
    assert(signing_text(a1, s1, c1, d1, m1, e1, o1) =~= a1 + bar + r2_1);
    assert(signing_text(a2, s2, c2, d2, m2, e2, o2) =~= a2 + bar + r2_2);
    lemma_split_at_bar(a1, r2_1, a2, r2_2);
    lemma_split_at_bar(s1, r3_1, s2, r3_2);
    lemma_split_at_bar(c1, r4_1, c2, r4_2);
    lemma_decimal_lacks_bar(d1 as nat);
    lemma_decimal_lacks_bar(d2 as nat);
    lemma_split_at_bar(decimal(d1 as nat), r5_1, decimal(d2 as nat), r5_2);
    lemma_decimal_injective(d1 as nat, d2 as nat);
    lemma_decimal_lacks_bar(m1 as nat);
    lemma_decimal_lacks_bar(m2 as nat);
    lemma_split_at_bar(decimal(m1 as nat), r6_1, decimal(m2 as nat), r6_2);
    lemma_decimal_injective(m1 as nat, m2 as nat);
    lemma_signed_decimal_lacks(e1 as int, '|');
    lemma_signed_decimal_lacks(e2 as int, '|');
    lemma_split_at_bar(signed_decimal(e1 as int), o1, signed_decimal(e2 as int), o2);
    lemma_signed_decimal_injective(e1 as int, e2 as int);
}

} // verus!
