//! The anti-replay and telemetry records kept in Redis: key names, record
//! formats and the decisions taken on what Redis answers. The Redis calls
//! themselves are made by the server around this library.
//!
//! Every record is single-key (`webrify:spent:{challenge}`,
//! `webrify:escalation:{ip}`, ...), so the store works on a Redis Cluster.

use vstd::prelude::*;
use vstd::string::*;
use crate::text::{
    decimal, lemma_decimal_has_no_colon, lemma_decimal_injective, lemma_parse_decimal, lemma_split_on_triple, parse_u64,
    parse_u64_str, split_on, split_str,
};
use crate::rng::{random_bytes, RngError};

verus! {

/// Redis key marking a challenge as spent.
pub fn spent_key(challenge_key: &str) -> (k: String)
    ensures
        k@ == "webrify:spent:"@ + challenge_key@,
{
    let mut k = String::from_str("webrify:spent:");
    k.append(challenge_key);
    k
}

/// Redis key counting the risk escalations of a peer (its address as text).
pub fn escalation_key(ip: &str) -> (k: String)
    ensures
        k@ == "webrify:escalation:"@ + ip@,
{
    let mut k = String::from_str("webrify:escalation:");
    k.append(ip);
    k
}

/// Redis key counting the requests of a peer in the current rate window.
pub fn rate_key(ip: &str) -> (k: String)
    ensures
        k@ == "webrify:rate:"@ + ip@,
{
    let mut k = String::from_str("webrify:rate:");
    k.append(ip);
    k
}

/// Sorted set storing recent solve times for auto-tuning difficulty.
pub fn solve_times_key() -> (k: &'static str)
    ensures
        k@ == "webrify:solve_times"@,
{
    "webrify:solve_times"
}

/// Maximum number of recent solve times to retain.
pub const MAX_SOLVE_TIMES: u64 = 1000;

/// The rank passed to `ZREMRANGEBYRANK key 0 <rank>` after each insertion:
/// everything but the newest [`MAX_SOLVE_TIMES`] entries is dropped.
pub fn solve_times_trim_rank() -> (r: i64)
    ensures
        r == -(MAX_SOLVE_TIMES as int + 1),
{
    -1001
}

/// The sorted-set member recording a solve: `"{timestamp}:{ms}:{tag}"`.
pub open spec fn member_text(now_secs: u64, solve_time_ms: u64, tag: u64) -> Seq<char> {
    decimal(now_secs as nat) + ":"@ + decimal(solve_time_ms as nat) + ":"@ + decimal(tag as nat)
}

/// The sorted-set member recording a solve at `now_secs` that took
/// `solve_time_ms`; `tag` tells apart solves recorded in the same second
/// with the same time (see [`lemma_solve_members_distinct`]).
pub fn solve_time_member(now_secs: u64, solve_time_ms: u64, tag: u64) -> (m: String)
    ensures
        m@ == member_text(now_secs, solve_time_ms, tag),
{
    let mut m = crate::text::u64_to_decimal(now_secs);
    m.append(":");
    m.append(crate::text::u64_to_decimal(solve_time_ms).as_str());
    m.append(":");
    m.append(crate::text::u64_to_decimal(tag).as_str());
    m
}

/// The number whose big-endian bytes are `b`.
pub open spec fn be_value(b: Seq<u8>) -> nat
    decreases b.len(),
{
    if b.len() == 0 {
        0
    } else {
        be_value(b.drop_last()) * 256 + b.last() as nat
    }
}

/// The `u64` whose big-endian bytes are `b` (at most 8 of them).
pub open spec fn be_u64(b: Seq<u8>) -> u64 {
    be_value(b) as u64
}

/// `256` to the power `n`.
pub open spec fn byte_power(n: nat) -> nat
    decreases n,
{
    if n == 0 { 1 } else { 256 * byte_power((n - 1) as nat) }
}

proof fn lemma_byte_power_mono(a: nat, b: nat)
    requires
        a <= b,
    ensures
        byte_power(a) <= byte_power(b),
    decreases b,
{
    if a < b {
        lemma_byte_power_mono(a, (b - 1) as nat);
    }
}

/// The value of `n` bytes is below `256^n`.
proof fn lemma_be_value_bound(b: Seq<u8>)
    ensures
        be_value(b) < byte_power(b.len()),
    decreases b.len(),
{
    if b.len() > 0 {
        lemma_be_value_bound(b.drop_last());
        let x = be_value(b.drop_last());
        let p = byte_power(b.drop_last().len());
        let l = b.last() as nat;
        assert(x * 256 + l < 256 * p) by (nonlinear_arith)
            requires
                x < p,
                l < 256,
        ;
    }
}

/// The tag a solve-time member gets from 8 random bytes: their big-endian number.
pub fn tag_of(bytes: &[u8]) -> (t: u64)
    requires
        bytes@.len() == 8,
    ensures
        t == be_u64(bytes@),
        t == be_value(bytes@),
{
    let mut tag: u64 = 0;
    let mut i: usize = 0;
    assert(bytes@.take(0) =~= Seq::<u8>::empty());
    proof {
        assert(byte_power(8) == 0x1_0000_0000_0000_0000) by {
            reveal_with_fuel(byte_power, 9);
        }
    }
    while i < 8
        invariant
            i <= 8,
            bytes@.len() == 8,
            byte_power(8) == 0x1_0000_0000_0000_0000,
            tag as nat == be_value(bytes@.take(i as int)),
        decreases 8 - i,
    {
        proof {
            let next = bytes@.take(i + 1);
            assert(next.drop_last() =~= bytes@.take(i as int));
            assert(next.last() == bytes@[i as int]);
            lemma_be_value_bound(next);
            lemma_byte_power_mono((i + 1) as nat, 8);
        }
        tag = tag * 256 + bytes[i] as u64;
        i = i + 1;
    }
    assert(bytes@.take(8) =~= bytes@);
    tag
}

/// A fresh member for a solve: tagged with the big-endian number of 8
/// random bytes, so that equal times recorded in the same second stay
/// distinct entries (see [`lemma_solve_members_distinct`]); an error when
/// the random source fails.
pub fn new_solve_time_member(now_secs: u64, solve_time_ms: u64) -> (r: Result<String, RngError>)
    ensures
        r matches Ok(m) ==> exists|b: Seq<u8>| b.len() == 8 && m@ == #[trigger] member_text(now_secs, solve_time_ms, be_u64(b)),
{
    let bytes = random_bytes(8)?;
    let tag = tag_of(bytes.as_slice());
    Ok(solve_time_member(now_secs, solve_time_ms, tag))
}

/// Members of solves differing in time, duration or tag are distinct.
pub proof fn lemma_solve_members_distinct(n1: u64, ms1: u64, t1: u64, n2: u64, ms2: u64, t2: u64)
    requires
        member_text(n1, ms1, t1) == member_text(n2, ms2, t2),
    ensures
        n1 == n2,
        ms1 == ms2,
        t1 == t2,
{
    lemma_member_fields(n1, ms1, t1);
    lemma_member_fields(n2, ms2, t2);
    lemma_decimal_injective(n1 as nat, n2 as nat);
    lemma_decimal_injective(ms1 as nat, ms2 as nat);
    lemma_decimal_injective(t1 as nat, t2 as nat);
}

/// A member splits at `:` into its three decimal fields.
proof fn lemma_member_fields(now_secs: u64, solve_time_ms: u64, tag: u64)
    ensures
        split_on(member_text(now_secs, solve_time_ms, tag), ':')
            == seq![decimal(now_secs as nat), decimal(solve_time_ms as nat), decimal(tag as nat)],
{
    reveal_strlit(":");
    assert(":"@ =~= seq![':']);
    lemma_decimal_has_no_colon(now_secs as nat);
    lemma_decimal_has_no_colon(solve_time_ms as nat);
    lemma_decimal_has_no_colon(tag as nat);
    lemma_split_on_triple(decimal(now_secs as nat), decimal(solve_time_ms as nat), decimal(tag as nat), ':');
}

/// The rank of the (lower) median among `card` entries.
pub fn median_rank(card: u64) -> (r: u64)
    ensures
        r == (if card == 0 { 0 } else { (card - 1) / 2 }),
{
    (if card == 0 { 0 } else { card - 1 }) / 2
}

/// Solve time assumed when a stored member cannot be read.
pub const FALLBACK_SOLVE_MS: u64 = 1000;

/// The solve time a stored member holds: the field after the first `:`,
/// read as a decimal number; [`FALLBACK_SOLVE_MS`] when that field is absent
/// or not a number.
pub open spec fn member_solve_ms(member: Seq<char>) -> u64 {
    let fields = split_on(member, ':');
    let field = if fields.len() > 1 { fields[1] } else { "1000"@ };
    match parse_u64(field) {
        Some(v) => v,
        None => FALLBACK_SOLVE_MS,
    }
}

/// A stored solve-time member reads back as the solve time it was written
/// with.
pub proof fn lemma_solve_member_round_trip(now_secs: u64, solve_time_ms: u64, tag: u64)
    ensures
        member_solve_ms(member_text(now_secs, solve_time_ms, tag)) == solve_time_ms,
{
    lemma_member_fields(now_secs, solve_time_ms, tag);
    lemma_parse_decimal(solve_time_ms);
}

/// Read the solve time out of a stored `"{timestamp}:{ms}:{tag}"` member.
pub fn parse_solve_member(member: &str) -> (ms: u64)
    ensures
        ms == member_solve_ms(member@),
{
    let fields = split_str(member, ':');
    let parsed = if fields.len() > 1 {
        parse_u64_str(fields[1].as_str())
    } else {
        parse_u64_str("1000")
    };
    match parsed {
        Some(v) => v,
        None => FALLBACK_SOLVE_MS,
    }
}

/// The store could not answer (Redis unreachable or failing). Anti-replay
/// depends on it, so a verification facing this error fails closed.
#[derive(Debug, Clone, Copy, PartialEq, Eq, Structural)]
pub struct StoreError;

/// What to do with the counter Redis returned for a rate-limited peer.
#[derive(Debug, Clone, Copy, PartialEq, Eq, Structural)]
pub struct RateDecision {
    /// The request is within the limit.
    pub allowed: bool,
    /// This request opened the window: the key must get its expiry.
    pub set_expiry: bool,
}

/// The decision for the `count`-th request of a window limited to `max`:
/// allowed while `count <= max`; the first request sets the window's expiry.
pub fn rate_decision(count: u32, max: u32) -> (d: RateDecision)
    ensures
        d.allowed == (count <= max),
        d.set_expiry == (count == 1),
{
    RateDecision { allowed: count <= max, set_expiry: count == 1 }
}

} // verus!
