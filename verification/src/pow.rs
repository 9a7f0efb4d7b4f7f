//! Hashcash-style proof of work over SHA-256.
//!
//! A nonce satisfies a challenge `seed` at `difficulty` when
//! `SHA-256(seed || nonce_be)` starts with at least `difficulty` zero bits.

use vstd::prelude::*;
use crate::digest::{sha256, spec_sha256};

verus! {

/// The eight big-endian bytes of `n`.
pub open spec fn nonce_be_bytes(n: u64) -> Seq<u8> {
    seq![
        (n >> 56u64) as u8, (n >> 48u64) as u8, (n >> 40u64) as u8, (n >> 32u64) as u8,
        (n >> 24u64) as u8, (n >> 16u64) as u8, (n >> 8u64) as u8, n as u8,
    ]
}

/// The bytes that are hashed for `nonce`: the seed followed by the nonce, big-endian.
pub open spec fn pow_input(seed: Seq<u8>, nonce: u64) -> Seq<u8> {
    seed + nonce_be_bytes(nonce)
}

/// Leading zero bits of one byte.
pub open spec fn byte_leading_zeros(b: u8) -> nat {
    if b >= 128 { 0 }
    else if b >= 64 { 1 }
    else if b >= 32 { 2 }
    else if b >= 16 { 3 }
    else if b >= 8 { 4 }
    else if b >= 4 { 5 }
    else if b >= 2 { 6 }
    else if b >= 1 { 7 }
    else { 8 }
}

/// Leading zero bits of a byte string (most significant bit of the first byte first).
pub open spec fn leading_zeros_of(s: Seq<u8>) -> nat
    decreases s.len(),
{
    if s.len() == 0 {
        0
    } else if s[0] == 0 {
        8 + leading_zeros_of(s.drop_first())
    } else {
        byte_leading_zeros(s[0])
    }
}

/// The proof-of-work predicate: `nonce` solves `seed` at `difficulty`.
pub open spec fn pow_holds(seed: Seq<u8>, nonce: u64, difficulty: u32) -> bool {
    difficulty == 0 || leading_zeros_of(spec_sha256(pow_input(seed, nonce))) >= difficulty
}

/// `n` is the smallest nonce in `[lo, hi]` that solves `seed` at `difficulty`.
pub open spec fn least_solution_in(seed: Seq<u8>, difficulty: u32, lo: u64, hi: u64, n: u64) -> bool {
    &&& lo <= n <= hi
    &&& pow_holds(seed, n, difficulty)
    &&& forall|m: u64| lo <= m < n ==> !pow_holds(seed, m, difficulty)
}

/// No nonce in `[lo, hi]` solves `seed` at `difficulty`.
pub open spec fn no_solution_in(seed: Seq<u8>, difficulty: u32, lo: u64, hi: u64) -> bool {
    forall|m: u64| lo <= m <= hi ==> !pow_holds(seed, m, difficulty)
}

/// A string of `k` bytes has at most `8 k` leading zero bits.
pub proof fn lemma_leading_zeros_bounded(s: Seq<u8>)
    ensures
        leading_zeros_of(s) <= 8 * s.len(),
    decreases s.len(),
{
    if s.len() > 0 && s[0] == 0 {
        lemma_leading_zeros_bounded(s.drop_first());
    }
}

fn byte_leading_zero_count(b: u8) -> (r: u32)
    ensures
        r == byte_leading_zeros(b),
{
    if b >= 128 { 0 }
    else if b >= 64 { 1 }
    else if b >= 32 { 2 }
    else if b >= 16 { 3 }
    else if b >= 8 { 4 }
    else if b >= 4 { 5 }
    else if b >= 2 { 6 }
    else if b >= 1 { 7 }
    else { 8 }
}

/// Count the leading zero bits in `digest`.
pub fn leading_zero_bits(digest: &[u8]) -> (count: u32)
    requires
        leading_zeros_of(digest@) <= u32::MAX,
    ensures
        count == leading_zeros_of(digest@),
{
    let mut count: u32 = 0;
    let mut i: usize = 0;
    assert(digest@.skip(0) =~= digest@);
    while i < digest.len()
        invariant
            i <= digest@.len(),
            leading_zeros_of(digest@) <= u32::MAX,
            forall|j: int| 0 <= j < i ==> digest@[j] == 0,
            count == 8 * i,
            leading_zeros_of(digest@) == count + leading_zeros_of(digest@.skip(i as int)),
        decreases digest@.len() - i,
    {
        let byte = digest[i];
        assert(digest@.skip(i as int)[0] == byte);
        if byte == 0 {
            assert(digest@.skip(i as int).drop_first() =~= digest@.skip(i + 1));
            count = count + 8;
            i = i + 1;
        } else {
            count = count + byte_leading_zero_count(byte);
            return count;
        }
    }
    assert(digest@.skip(i as int).len() == 0);
    count
}


/// Hash `seed` concatenated with `nonce` laid out big-endian over 8 bytes.
pub fn hash_nonce(seed: &[u8], nonce: u64) -> (digest: Vec<u8>)
    ensures
        digest@ == spec_sha256(pow_input(seed@, nonce)),
        digest@.len() == 32,
{
    let mut input: Vec<u8> = Vec::new();
    let mut i: usize = 0;
    while i < seed.len()
        invariant
            i <= seed@.len(),
            input@ == seed@.subrange(0, i as int),
        decreases seed@.len() - i,
    {
        input.push(seed[i]);
        i = i + 1;
    }
    input.push((nonce >> 56u64) as u8);
    input.push((nonce >> 48u64) as u8);
    input.push((nonce >> 40u64) as u8);
    input.push((nonce >> 32u64) as u8);
    input.push((nonce >> 24u64) as u8);
    input.push((nonce >> 16u64) as u8);
    input.push((nonce >> 8u64) as u8);
    input.push(nonce as u8);
    assert(input@ =~= pow_input(seed@, nonce));
    sha256(input.as_slice())
}

/// Verify that `nonce` satisfies the PoW for `seed` at `difficulty`
/// (leading zero bits). `difficulty == 0` is always satisfied.
pub fn verify(seed: &[u8], nonce: u64, difficulty: u32) -> (ok: bool)
    ensures
        ok == pow_holds(seed@, nonce, difficulty),
{
    if difficulty == 0 {
        return true;
    }
    let digest = hash_nonce(seed, nonce);
    proof {
        lemma_leading_zeros_bounded(digest@);
    }
    leading_zero_bits(digest.as_slice()) >= difficulty
}

/// Find the smallest `nonce` such that [`verify`] holds. Deterministic for a
/// given `(seed, difficulty)`.
///
/// The search runs upward from nonce 0; it needs a solution to exist in the
/// `u64` nonce space (see [`try_solve`] for the variant that checks this).
pub fn solve(seed: &[u8], difficulty: u32) -> (nonce: u64)
    requires
        exists|n: u64| pow_holds(seed@, n, difficulty),
    ensures
        least_solution_in(seed@, difficulty, 0, u64::MAX, nonce),
{
    if difficulty == 0 {
        return 0;
    }
    let ghost witness = choose|n: u64| pow_holds(seed@, n, difficulty);
    let mut nonce: u64 = 0;
    loop
        invariant
            nonce <= witness,
            pow_holds(seed@, witness, difficulty),
            forall|m: u64| m < nonce ==> !pow_holds(seed@, m, difficulty),
        decreases witness - nonce,
    {
        if verify(seed, nonce, difficulty) {
            return nonce;
        }
        nonce = nonce + 1;
    }
}

/// Like [`solve_bounded`], but searches `[start, end]` instead of `[0, max]`.
/// Used by multi-threaded clients to split the search space across workers.
/// An empty range (`start > end`) holds no solution.
pub fn solve_bounded_range(seed: &[u8], difficulty: u32, start: u64, end: u64) -> (res: Option<u64>)
    ensures
        match res {
            Some(n) => least_solution_in(seed@, difficulty, start, end, n),
            None => no_solution_in(seed@, difficulty, start, end),
        },
{
    if start > end {
        return None;
    }
    let mut nonce: u64 = start;
    loop
        invariant
            start <= nonce <= end,
            forall|m: u64| start <= m < nonce ==> !pow_holds(seed@, m, difficulty),
        decreases end - nonce,
    {
        if verify(seed, nonce, difficulty) {
            return Some(nonce);
        }
        if nonce == end {
            return None;
        }
        nonce = nonce + 1;
    }
}

/// Like [`solve`], but gives up if no valid nonce is found within `[0, maxnumber]`.
/// Returns `Some(nonce)` on success, `None` if the bounded search space is
/// exhausted.
pub fn solve_bounded(seed: &[u8], difficulty: u32, maxnumber: u64) -> (res: Option<u64>)
    ensures
        match res {
            Some(n) => least_solution_in(seed@, difficulty, 0, maxnumber, n),
            None => no_solution_in(seed@, difficulty, 0, maxnumber),
        },
{
    solve_bounded_range(seed, difficulty, 0, maxnumber)
}

/// [`solve`] for callers that cannot know in advance whether a solution
/// exists: `None` when no `u64` nonce solves the challenge, otherwise the
/// smallest solution, found by [`solve`].
pub fn try_solve(seed: &[u8], difficulty: u32) -> (res: Option<u64>)
    ensures
        match res {
            Some(n) => least_solution_in(seed@, difficulty, 0, u64::MAX, n),
            None => no_solution_in(seed@, difficulty, 0, u64::MAX),
        },
{
    match solve_bounded(seed, difficulty, u64::MAX) {
        Some(_) => Some(solve(seed, difficulty)),
        None => None,
    }
}

/// Maximum additional difficulty bits from risk escalation.
pub const MAX_ESCALATION_BITS: u32 = 6;
/// Absolute difficulty cap so a flagged client can't be locked out indefinitely.
pub const DIFFICULTY_CAP: u32 = 24;

/// The effective difficulty: `min(24, base + min(6, escalations))`.
pub open spec fn adjusted_difficulty(base: u32, escalations: u32) -> int {
    let bump: int = if escalations < MAX_ESCALATION_BITS { escalations as int } else { MAX_ESCALATION_BITS as int };
    if base + bump < DIFFICULTY_CAP { base + bump } else { DIFFICULTY_CAP as int }
}

/// Compute the effective difficulty, escalating by up to [`MAX_ESCALATION_BITS`]
/// based on the client's recent risk-escalation count, capped at
/// [`DIFFICULTY_CAP`]. Each bit roughly doubles the PoW cost, so repeat
/// offenders pay exponentially more without ever being fully locked out.
pub fn adjust_difficulty(base: u32, escalations: u32) -> (d: u32)
    requires
        base + (if escalations < MAX_ESCALATION_BITS { escalations } else { MAX_ESCALATION_BITS }) <= u32::MAX,
    ensures
        d == adjusted_difficulty(base, escalations),
{
    let bump = if escalations < MAX_ESCALATION_BITS { escalations } else { MAX_ESCALATION_BITS };
    let total = base + bump;
    if total < DIFFICULTY_CAP { total } else { DIFFICULTY_CAP }
}


/// Difficulty zero is satisfied by every nonce of every seed.
pub proof fn lemma_difficulty_zero_always_holds(seed: Seq<u8>, nonce: u64)
    ensures
        pow_holds(seed, nonce, 0),
{
}

/// A nonce that meets a difficulty meets every lower difficulty.
pub proof fn lemma_pow_monotone_in_difficulty(seed: Seq<u8>, nonce: u64, hard: u32, easy: u32)
    requires
        easy <= hard,
        pow_holds(seed, nonce, hard),
    ensures
        pow_holds(seed, nonce, easy),
{
}

/// Whatever a search returns verifies: a smallest solution satisfies the
/// predicate [`verify`] decides, at its difficulty and every lower one.
pub proof fn lemma_solution_verifies(seed: Seq<u8>, difficulty: u32, lo: u64, hi: u64, n: u64, easier: u32)
    requires
        least_solution_in(seed, difficulty, lo, hi, n),
        easier <= difficulty,
    ensures
        pow_holds(seed, n, difficulty),
        pow_holds(seed, n, easier),
{
}

/// `2` to the power `n`.
pub open spec fn two_to(n: nat) -> nat
    decreases n,
{
    if n == 0 { 1 } else { 2 * two_to((n - 1) as nat) }
}

proof fn lemma_two_to_mono(a: nat, b: nat)
    requires
        a <= b,
    ensures
        two_to(a) <= two_to(b),
    decreases b,
{
    if a < b {
        lemma_two_to_mono(a, (b - 1) as nat);
    }
}

/// `byte_leading_zeros(b)` is the number of leading zero bits of the byte
/// `b`: 8 for zero; otherwise the `r` with `2^(7 - r) <= b < 2^(8 - r)`.
pub proof fn lemma_byte_leading_zeros_counts_bits(b: u8)
    ensures
        b == 0 ==> byte_leading_zeros(b) == 8,
        b > 0 ==> byte_leading_zeros(b) <= 7
            && two_to((7 - byte_leading_zeros(b)) as nat) <= b
            && b < two_to((8 - byte_leading_zeros(b)) as nat),
{
    reveal_with_fuel(two_to, 9);
}

/// A byte has at least `d` leading zero bits (`d <= 8`) exactly when it is
/// below `2^(8 - d)`.
proof fn lemma_byte_leading_zeros_at_least(b: u8, d: nat)
    requires
        d <= 8,
    ensures
        (byte_leading_zeros(b) >= d) <==> (b < two_to((8 - d) as nat)),
{
    lemma_byte_leading_zeros_counts_bits(b);
    reveal_with_fuel(two_to, 9);
    let r = byte_leading_zeros(b);
    if b > 0 {
        if r >= d {
            lemma_two_to_mono((8 - r) as nat, (8 - d) as nat);
        } else {
            lemma_two_to_mono((8 - d) as nat, (7 - r) as nat);
        }
    }
}

/// A byte string starts with at least `d` zero bits (most significant bit
/// of the first byte first) exactly when its first `d / 8` bytes are zero
/// and, when `d` is not a whole number of bytes, the next byte is below
/// `2^(8 - d % 8)`: the proof-of-work check asks exactly that the first
/// `difficulty` bits of the digest are zero.
pub proof fn lemma_leading_zeros_are_zero_bits(s: Seq<u8>, d: nat)
    requires
        d <= 8 * s.len(),
    ensures
        (leading_zeros_of(s) >= d) <==> (
            (forall|j: int| 0 <= j < d / 8 ==> s[j] == 0)
            && (d % 8 != 0 ==> s[(d / 8) as int] < two_to((8 - d % 8) as nat))
        ),
    decreases s.len(),
{
    if d == 0 {
    } else if d < 8 {
        assert(d / 8 == 0 && d % 8 == d);
        if s[0] == 0 {
            reveal_with_fuel(two_to, 9);
            lemma_two_to_mono(1, (8 - d) as nat);
        } else {
            lemma_byte_leading_zeros_at_least(s[0], d);
        }
    } else {
        let rest = s.drop_first();
        let e = (d - 8) as nat;
        assert(e / 8 == d / 8 - 1 && e % 8 == d % 8);
        lemma_leading_zeros_are_zero_bits(rest, e);
        if s[0] == 0 {
            assert forall|j: int| 0 <= j < e / 8 implies rest[j] == s[j + 1] by {}
            if forall|j: int| 0 <= j < e / 8 ==> rest[j] == 0 {
                assert forall|j: int| 0 <= j < d / 8 implies s[j] == 0 by {
                    if j > 0 {
                        assert(rest[j - 1] == s[j]);
                    }
                }
            }
            if forall|j: int| 0 <= j < d / 8 ==> s[j] == 0 {
                assert forall|j: int| 0 <= j < e / 8 implies rest[j] == 0 by {
                    assert(s[j + 1] == 0);
                }
            }
            if d % 8 != 0 {
                assert(rest[(e / 8) as int] == s[(d / 8) as int]);
            }
        } else {
            lemma_byte_leading_zeros_counts_bits(s[0]);
            assert(!(forall|j: int| 0 <= j < d / 8 ==> s[j] == 0)) by {
                assert(0 < d / 8);
            }
        }
    }
}

/// The effective difficulty in numbers: the base plus one bit per recent
/// escalation, at most six, never above 24.
pub proof fn lemma_difficulty_formula(base: u32, escalations: u32)
    ensures
        adjusted_difficulty(base, escalations) == ({
            let bump: int = if escalations < 6 { escalations as int } else { 6 };
            if base + bump < 24 { base + bump } else { 24int }
        }),
{
}

/// The nonce is appended big-endian: its eight bytes, most significant
/// first, read back as the nonce.
pub proof fn lemma_nonce_bytes_big_endian(n: u64)
    ensures
        nonce_be_bytes(n).len() == 8,
        ({
            let b = nonce_be_bytes(n);
            n as int == b[0] as int * 0x100000000000000 + b[1] as int * 0x1000000000000
                + b[2] as int * 0x10000000000 + b[3] as int * 0x100000000 + b[4] as int * 0x1000000
                + b[5] as int * 0x10000 + b[6] as int * 0x100 + b[7] as int
        }),
{
    let b = nonce_be_bytes(n);
    let b0 = (n >> 56u64) as u8;
    let b1 = (n >> 48u64) as u8;
    let b2 = (n >> 40u64) as u8;
    let b3 = (n >> 32u64) as u8;
    let b4 = (n >> 24u64) as u8;
    let b5 = (n >> 16u64) as u8;
    let b6 = (n >> 8u64) as u8;
    let b7 = n as u8;
    assert(b[0] == b0 && b[1] == b1 && b[2] == b2 && b[3] == b3);
    assert(b[4] == b4 && b[5] == b5 && b[6] == b6 && b[7] == b7);
    assert(n == b0 as u64 * 0x100000000000000 + b1 as u64 * 0x1000000000000 + b2 as u64 * 0x10000000000
        + b3 as u64 * 0x100000000 + b4 as u64 * 0x1000000 + b5 as u64 * 0x10000 + b6 as u64 * 0x100 + b7 as u64)
        by (bit_vector)
        requires
            b0 == (n >> 56u64) as u8,
            b1 == (n >> 48u64) as u8,
            b2 == (n >> 40u64) as u8,
            b3 == (n >> 32u64) as u8,
            b4 == (n >> 24u64) as u8,
            b5 == (n >> 16u64) as u8,
            b6 == (n >> 8u64) as u8,
            b7 == n as u8,
    ;
}

/// The smallest solution in a range is unique, so every search that returns
/// it (`solve`, `solve_bounded`, `try_solve`) is deterministic.
pub proof fn lemma_least_solution_unique(seed: Seq<u8>, difficulty: u32, lo: u64, hi: u64, a: u64, b: u64)
    requires
        least_solution_in(seed, difficulty, lo, hi, a),
        least_solution_in(seed, difficulty, lo, hi, b),
    ensures
        a == b,
{
    if a < b {
        assert(!pow_holds(seed, a, difficulty));
    } else if b < a {
        assert(!pow_holds(seed, b, difficulty));
    }
}

/// A bounded search agrees with the unbounded one: with the overall smallest
/// solution `full`, a cap below it finds nothing and a cap at or above it
/// finds exactly `full`.
pub proof fn lemma_bounded_search_agrees(seed: Seq<u8>, difficulty: u32, full: u64, maxnumber: u64)
    requires
        least_solution_in(seed, difficulty, 0, u64::MAX, full),
    ensures
        maxnumber < full ==> no_solution_in(seed, difficulty, 0, maxnumber),
        full <= maxnumber ==> least_solution_in(seed, difficulty, 0, maxnumber, full),
{
}

/// Escalation never lowers the difficulty, adds at most six bits, and never
/// exceeds the cap; a base at or below the cap is never lowered.
pub proof fn lemma_adjusted_difficulty_bounds(base: u32, escalations: u32, more: u32)
    requires
        escalations <= more,
    ensures
        adjusted_difficulty(base, escalations) <= DIFFICULTY_CAP,
        adjusted_difficulty(base, escalations) <= base + MAX_ESCALATION_BITS,
        base <= DIFFICULTY_CAP ==> base <= adjusted_difficulty(base, escalations),
        base > DIFFICULTY_CAP ==> adjusted_difficulty(base, escalations) == DIFFICULTY_CAP,
        adjusted_difficulty(base, escalations) <= adjusted_difficulty(base, more),
        escalations == 0 ==> adjusted_difficulty(base, escalations) == (if base < DIFFICULTY_CAP { base as int } else { DIFFICULTY_CAP as int }),
{
}

} // verus!
