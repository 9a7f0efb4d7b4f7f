//! What the browser widget computes: the proof-of-work solution for a
//! challenge and the fingerprint bound into it. The widget's WebAssembly
//! bindings call these functions.

use vstd::prelude::*;
use vstd::string::*;
use crate::fingerprint::{self, fingerprint_of};
use crate::hexstr::{self, hex_decode, hex_encode, HexError};
use crate::pow::{self, least_solution_in, no_solution_in};
use crate::text::{decimal, u64_to_decimal};

verus! {

/// Why no solution is returned.
#[derive(Debug, Clone, Copy, PartialEq, Eq, Structural)]
pub enum SolveError {
    /// The challenge is not valid hex.
    BadChallengeHex(HexError),
    /// The fingerprint is not valid hex.
    BadFingerprintHex(HexError),
    /// No nonce in `[0, maxnumber]` solves the challenge.
    NoSolution,
}

/// The seed the widget solves: the decoded challenge, followed by the
/// decoded fingerprint when one is bound.
pub open spec fn client_seed(challenge: Seq<char>, fingerprint: Option<Seq<char>>) -> Result<Seq<u8>, SolveError> {
    match hex_decode(challenge) {
        Err(e) => Err(SolveError::BadChallengeHex(e)),
        Ok(c) => match fingerprint {
            None => Ok(c),
            Some(f) => match hex_decode(f) {
                Err(e) => Err(SolveError::BadFingerprintHex(e)),
                Ok(fp) => Ok(c + fp),
            },
        },
    }
}

/// Solve the proof of work the way the widget does: build the seed
/// `hex_decode(challenge_hex) || hex_decode(fingerprint_hex)` (the
/// fingerprint makes the solution non-transferable across clients; `None`
/// is the fingerprint-free path) and find the smallest nonce in
/// `[0, maxnumber]` that solves it at `difficulty`.
pub fn solve_challenge(
    challenge_hex: &str,
    fingerprint_hex: Option<&str>,
    difficulty: u32,
    maxnumber: u64,
) -> (r: Result<u64, SolveError>)
    ensures
        match client_seed(challenge_hex@, match fingerprint_hex { Some(f) => Some(f@), None => None }) {
            Err(e) => r == Err::<u64, SolveError>(e),
            Ok(seed) => match r {
                Ok(n) => least_solution_in(seed, difficulty, 0, maxnumber, n),
                Err(e) => e == SolveError::NoSolution && no_solution_in(seed, difficulty, 0, maxnumber),
            },
        },
{
    let mut seed = match hexstr::decode(challenge_hex) {
        Ok(s) => s,
        Err(e) => return Err(SolveError::BadChallengeHex(e)),
    };
    if let Some(fp_hex) = fingerprint_hex {
        let fp = match hexstr::decode(fp_hex) {
            Ok(f) => f,
            Err(e) => return Err(SolveError::BadFingerprintHex(e)),
        };
        let ghost head = seed@;
        let mut i: usize = 0;
        while i < fp.len()
            invariant
                i <= fp@.len(),
                seed@ == head + fp@.subrange(0, i as int),
            decreases fp@.len() - i,
        {
            seed.push(fp[i]);
            i = i + 1;
        }
        assert(fp@.subrange(0, fp@.len() as int) =~= fp@);
    }
    match pow::solve_bounded(seed.as_slice(), difficulty, maxnumber) {
        Some(n) => Ok(n),
        None => Err(SolveError::NoSolution),
    }
}

/// The 128-bit fingerprint of a canonical signal string, in lowercase hex.
pub fn fingerprint_hash(signals_json: &str) -> (h: String)
    ensures
        h@ == hex_encode(fingerprint_of(signals_json@)),
{
    let fp = fingerprint::hash(signals_json);
    hexstr::encode(fp.as_slice())
}

/// The `Debug` rendering of a char (quoted, with escapes).
pub uninterp spec fn spec_debug_char(c: char) -> Seq<char>;

/// Renders `c` with `format!("{c:?}")`. Trusted: the result is the `Debug`
/// rendering of `c` that `spec_debug_char` names.
#[verifier::external_body]
fn debug_char(c: char) -> (r: String)
    ensures
        r@ == spec_debug_char(c),
{
    format!("{c:?}")
}

/// The text of a hex error, as the `hex` crate words it.
pub open spec fn hex_error_text(e: HexError) -> Seq<char> {
    match e {
        HexError::OddLength => "Odd number of digits"@,
        HexError::InvalidHexCharacter { c, index } => "Invalid character "@ + spec_debug_char(c) + " at position "@
            + decimal(index as nat),
    }
}

/// The text of a solve error, as the widget reports it.
pub open spec fn solve_error_text(e: SolveError) -> Seq<char> {
    match e {
        SolveError::BadChallengeHex(h) => hex_error_text(h),
        SolveError::BadFingerprintHex(h) => hex_error_text(h),
        SolveError::NoSolution => "no PoW solution within maxnumber"@,
    }
}

impl SolveError {
    /// The message the widget shows for this error.
    pub fn message(&self) -> (m: String)
        ensures
            m@ == solve_error_text(*self),
    {
        let h = match self {
            SolveError::BadChallengeHex(h) => *h,
            SolveError::BadFingerprintHex(h) => *h,
            SolveError::NoSolution => return String::from_str("no PoW solution within maxnumber"),
        };
        match h {
            HexError::OddLength => String::from_str("Odd number of digits"),
            HexError::InvalidHexCharacter { c, index } => {
                let mut m = String::from_str("Invalid character ");
                m.append(debug_char(c).as_str());
                m.append(" at position ");
                m.append(u64_to_decimal(index as u64).as_str());
                m
            },
        }
    }
}

} // verus!
