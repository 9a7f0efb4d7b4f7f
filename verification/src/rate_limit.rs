//! Per-peer fixed-window rate limiting.
//!
//! Each peer gets a window that opens with its first request: up to `max`
//! requests pass within `window` nanoseconds, later ones are refused until a
//! new window opens. When more than [`MAX_ENTRIES`] peers are tracked, the
//! expired windows are evicted; if that is not enough, all are dropped —
//! memory safety trumps accuracy under a flood of rotating addresses.

use std::collections::HashMap;
use std::hash::Hash;
use std::time::Instant;
use vstd::prelude::*;
use vstd::std_specs::hash::obeys_key_model;
use vstd::std_specs::iter::IteratorSpec;

verus! {

broadcast use vstd::std_specs::hash::group_hash_axioms;

/// Tracked peers above which expired windows are evicted.
pub const MAX_ENTRIES: usize = 100_000;

/// A peer's network address, as the limiter keys it.
#[derive(Debug, Clone, Copy, PartialEq, Eq, Structural)]
pub enum PeerKey {
    /// An IPv4 address, as its 32-bit number.
    V4(u32),
    /// An IPv6 address, as its 128-bit number.
    V6(u128),
}

/// A peer's current window: when it opened (nanoseconds on the limiter's
/// clock) and how many requests it has seen.
#[derive(Debug, Clone, Copy, PartialEq, Eq, Structural)]
pub struct Window {
    pub start: u64,
    pub count: u32,
}

/// The state of a limiter.
pub struct LimiterView {
    pub v4: Map<u32, Window>,
    pub v6: Map<u128, Window>,
    pub window: u64,
    pub max: u32,
}

#[verifier::external_type_specification]
#[verifier::external_body]
pub struct ExInstant(Instant);

/// Reads the monotonic clock (`Instant::now`). Nothing is stated of the value.
#[verifier::external_body]
fn instant_now() -> Instant {
    Instant::now()
}

/// Nanoseconds elapsed since `epoch` on the monotonic clock
/// (`Instant::elapsed`), saturated at `u64::MAX`. Nothing is stated of the
/// value: it depends on the time of the call.
#[verifier::external_body]
fn nanos_since(epoch: &Instant) -> u64 {
    u64::try_from(epoch.elapsed().as_nanos()).unwrap_or(u64::MAX)
}

/// The limiter: one window per tracked peer.
pub struct RateLimiter {
    v4: HashMap<u32, Window>,
    v6: HashMap<u128, Window>,
    window: u64,
    max: u32,
    epoch: Instant,
}

impl View for RateLimiter {
    type V = LimiterView;

    closed spec fn view(&self) -> LimiterView {
        LimiterView { v4: self.v4@, v6: self.v6@, window: self.window, max: self.max }
    }
}

/// Time from `start` to `now`, zero when `now` is earlier.
pub open spec fn elapsed(now: u64, start: u64) -> int {
    if now >= start { now - start } else { 0 }
}

/// A window is still open at `now`.
pub open spec fn window_live(w: Window, now: u64, window: u64) -> bool {
    elapsed(now, w.start) < window
}

/// The entries of `m` whose window is still open at `now`.
pub open spec fn live_part<K>(m: Map<K, Window>, now: u64, window: u64) -> Map<K, Window> {
    Map::new(|k: K| m.dom().contains(k) && window_live(m[k], now, window), |k: K| m[k])
}

/// The tracked entries at `now` before the request is counted: unchanged up
/// to [`MAX_ENTRIES`] peers; above that, the live ones, or none if even those
/// are too many.
pub open spec fn evicted(v: LimiterView, now: u64) -> (Map<u32, Window>, Map<u128, Window>) {
    if v.v4.len() + v.v6.len() > MAX_ENTRIES {
        let k4 = live_part(v.v4, now, v.window);
        let k6 = live_part(v.v6, now, v.window);
        if k4.len() + k6.len() > MAX_ENTRIES {
            (Map::empty(), Map::empty())
        } else {
            (k4, k6)
        }
    } else {
        (v.v4, v.v6)
    }
}

/// A peer's window after one more request at `now`: a fresh window when it
/// had none or its window ran out, then the count bumped (saturating).
pub open spec fn counted(prior: Option<Window>, now: u64, window: u64) -> Window {
    let w = match prior {
        Some(w) => if elapsed(now, w.start) >= window { Window { start: now, count: 0 } } else { w },
        None => Window { start: now, count: 0 },
    };
    Window { start: w.start, count: if w.count == u32::MAX { u32::MAX } else { (w.count + 1) as u32 } }
}

/// The limiter after a request from `key` at `now`, and whether it passes.
pub open spec fn after_request(v: LimiterView, key: PeerKey, now: u64) -> (LimiterView, bool) {
    let (m4, m6) = evicted(v, now);
    match key {
        PeerKey::V4(a) => {
            let w = counted(if m4.dom().contains(a) { Some(m4[a]) } else { None }, now, v.window);
            (LimiterView { v4: m4.insert(a, w), v6: m6, window: v.window, max: v.max }, w.count <= v.max)
        },
        PeerKey::V6(a) => {
            let w = counted(if m6.dom().contains(a) { Some(m6[a]) } else { None }, now, v.window);
            (LimiterView { v4: m4, v6: m6.insert(a, w), window: v.window, max: v.max }, w.count <= v.max)
        },
    }
}

/// The window `key` has in `v`, if any.
pub open spec fn window_of(v: LimiterView, key: PeerKey) -> Option<Window> {
    match key {
        PeerKey::V4(a) => if v.v4.dom().contains(a) { Some(v.v4[a]) } else { None },
        PeerKey::V6(a) => if v.v6.dom().contains(a) { Some(v.v6[a]) } else { None },
    }
}

/// At most [`MAX_ENTRIES`] peers are tracked, so no eviction happens.
pub open spec fn below_capacity(v: LimiterView) -> bool {
    v.v4.len() + v.v6.len() <= MAX_ENTRIES
}

/// The number of peers a limiter tracks.
pub open spec fn tracked_peers(v: LimiterView) -> nat {
    v.v4.len() + v.v6.len()
}

/// The limiter's maps are finite (true of every limiter: its maps are hash maps).
pub open spec fn finite_view(v: LimiterView) -> bool {
    v.v4.dom().finite() && v.v6.dom().finite()
}

/// The live part of a finite map is finite and no larger.
proof fn lemma_live_part_finite<K>(m: Map<K, Window>, now: u64, window: u64)
    requires
        m.dom().finite(),
    ensures
        live_part(m, now, window).dom().finite(),
        live_part(m, now, window).len() <= m.len(),
{
    vstd::set_lib::lemma_len_subset(live_part(m, now, window).dom(), m.dom());
}

/// Bounded memory: whatever the prior state, after a request the limiter
/// tracks at most [`MAX_ENTRIES`]` + 1` peers, and its maps stay finite.
pub proof fn lemma_tracked_peers_bounded(v: LimiterView, key: PeerKey, now: u64)
    requires
        finite_view(v),
    ensures
        finite_view(after_request(v, key, now).0),
        tracked_peers(after_request(v, key, now).0) <= MAX_ENTRIES + 1,
{
    lemma_live_part_finite(v.v4, now, v.window);
    lemma_live_part_finite(v.v6, now, v.window);
    let (m4, m6) = evicted(v, now);
    assert(m4.dom().finite() && m6.dom().finite());
    assert(m4.len() + m6.len() <= MAX_ENTRIES) by {
        if v.v4.len() + v.v6.len() > MAX_ENTRIES {
            let k4 = live_part(v.v4, now, v.window);
            let k6 = live_part(v.v6, now, v.window);
            if k4.len() + k6.len() > MAX_ENTRIES {
                assert(Map::<u32, Window>::empty().dom() =~= Set::<u32>::empty());
                assert(Map::<u128, Window>::empty().dom() =~= Set::<u128>::empty());
            }
        }
    }
    match key {
        PeerKey::V4(a) => {
            let w = counted(if m4.dom().contains(a) { Some(m4[a]) } else { None }, now, v.window);
            assert(m4.insert(a, w).dom() =~= m4.dom().insert(a));
        },
        PeerKey::V6(a) => {
            let w = counted(if m6.dom().contains(a) { Some(m6[a]) } else { None }, now, v.window);
            assert(m6.insert(a, w).dom() =~= m6.dom().insert(a));
        },
    }
}

/// Below capacity nothing is evicted, and a request adds at most one
/// tracked peer.
proof fn lemma_request_below_capacity(v: LimiterView, key: PeerKey, now: u64)
    requires
        finite_view(v),
        below_capacity(v),
    ensures
        evicted(v, now) == (v.v4, v.v6),
        tracked_peers(after_request(v, key, now).0) <= tracked_peers(v) + 1,
        finite_view(after_request(v, key, now).0),
        after_request(v, key, now).0.window == v.window,
        after_request(v, key, now).0.max == v.max,
{
    match key {
        PeerKey::V4(a) => {
            let w = counted(if v.v4.dom().contains(a) { Some(v.v4[a]) } else { None }, now, v.window);
            assert(v.v4.insert(a, w).dom() =~= v.v4.dom().insert(a));
        },
        PeerKey::V6(a) => {
            let w = counted(if v.v6.dom().contains(a) { Some(v.v6[a]) } else { None }, now, v.window);
            assert(v.v6.insert(a, w).dom() =~= v.v6.dom().insert(a));
        },
    }
}

/// A request that opens a new window (the peer had none, or its window had
/// run out) leaves the peer a window that starts at the request's time with
/// one request counted, and passes whenever the limit allows one request.
pub proof fn lemma_new_window_starts_now(v: LimiterView, key: PeerKey, now: u64)
    requires
        match window_of(v, key) {
            Some(w) => !window_live(w, now, v.window),
            None => true,
        },
    ensures
        window_of(after_request(v, key, now).0, key) == Some(Window { start: now, count: 1 }),
        after_request(v, key, now).1 == (v.max >= 1),
{
    let (m4, m6) = evicted(v, now);
    match key {
        PeerKey::V4(a) => {
            if m4.dom().contains(a) {
                assert(v.v4.dom().contains(a) && m4[a] == v.v4[a]);
            }
        },
        PeerKey::V6(a) => {
            if m6.dom().contains(a) {
                assert(v.v6.dom().contains(a) && m6[a] == v.v6[a]);
            }
        },
    }
}

/// A new window holds: after a request opens a peer's window at `now`, a
/// second request at the same time passes exactly when the limit allows two
/// requests per window (with `max == 1`: the first passes, the second is
/// refused), whatever windows the peer had before.
pub proof fn lemma_second_request_in_new_window(v: LimiterView, key: PeerKey, now: u64)
    requires
        finite_view(v),
        tracked_peers(v) < MAX_ENTRIES,
        v.window > 0,
        match window_of(v, key) {
            Some(w) => !window_live(w, now, v.window),
            None => true,
        },
    ensures
        after_request(v, key, now).1 == (v.max >= 1),
        after_request(after_request(v, key, now).0, key, now).1 == (v.max >= 2),
        window_of(after_request(after_request(v, key, now).0, key, now).0, key)
            == Some(Window { start: now, count: 2 }),
{
    lemma_new_window_starts_now(v, key, now);
    lemma_request_below_capacity(v, key, now);
    let v1 = after_request(v, key, now).0;
    lemma_request_below_capacity(v1, key, now);
    match key {
        PeerKey::V4(a) => {
            assert(v1.v4.dom().contains(a));
        },
        PeerKey::V6(a) => {
            assert(v1.v6.dom().contains(a));
        },
    }
}

/// Within an open window a request keeps the window's start and counts one
/// more request (below capacity, and short of the saturated count).
pub proof fn lemma_open_window_counts_one_more(v: LimiterView, key: PeerKey, now: u64)
    requires
        below_capacity(v),
        window_of(v, key) matches Some(w) && window_live(w, now, v.window) && w.count < u32::MAX,
    ensures
        window_of(after_request(v, key, now).0, key) == Some(Window {
            start: window_of(v, key).unwrap().start,
            count: (window_of(v, key).unwrap().count + 1) as u32,
        }),
        after_request(v, key, now).1 == (window_of(v, key).unwrap().count + 1 <= v.max),
{
}

/// Within an open window, a peer that already made `max` requests is
/// refused, and one that made fewer passes.
pub proof fn lemma_limit_within_window(v: LimiterView, key: PeerKey, now: u64)
    requires
        below_capacity(v),
        window_of(v, key) matches Some(w) && window_live(w, now, v.window) && w.count < u32::MAX,
    ensures
        after_request(v, key, now).1 == (window_of(v, key).unwrap().count < v.max),
        window_of(after_request(v, key, now).0, key) == Some(counted(window_of(v, key), now, v.window)),
{
}

/// A peer without an open window (never seen, or its window ran out) is
/// let through whenever the limit allows at least one request.
pub proof fn lemma_fresh_window_passes(v: LimiterView, key: PeerKey, now: u64)
    requires
        v.max >= 1,
        match window_of(v, key) {
            Some(w) => !window_live(w, now, v.window),
            None => true,
        },
    ensures
        after_request(v, key, now).1,
{
    let (m4, m6) = evicted(v, now);
    match key {
        PeerKey::V4(a) => {
            if m4.dom().contains(a) {
                assert(v.v4.dom().contains(a) && m4[a] == v.v4[a]);
            }
        },
        PeerKey::V6(a) => {
            if m6.dom().contains(a) {
                assert(v.v6.dom().contains(a) && m6[a] == v.v6[a]);
            }
        },
    }
}

/// Peers are independent: below capacity, a request from one peer leaves
/// every other peer's window as it was.
pub proof fn lemma_peers_independent(v: LimiterView, key: PeerKey, other: PeerKey, now: u64)
    requires
        below_capacity(v),
        key != other,
    ensures
        window_of(after_request(v, key, now).0, other) == window_of(v, other),
{
}

fn is_live(w: &Window, now: u64, window: u64) -> (r: bool)
    ensures
        r == window_live(*w, now, window),
{
    let e = if now >= w.start { now - w.start } else { 0 };
    e < window
}

fn keep_live<K: Copy + Eq + Hash>(m: &HashMap<K, Window>, now: u64, window: u64) -> (r: HashMap<K, Window>)
    requires
        obeys_key_model::<K>(),
    ensures
        r@ == live_part(m@, now, window),
{
    let mut out: HashMap<K, Window> = HashMap::new();
    let ghost items = vstd::std_specs::hash::spec_hash_map_iter(m).remaining();
    for kv in it: m.iter()
        invariant
            obeys_key_model::<K>(),
            it.seq() == items,
            forall|k: K| #[trigger] out@.contains_key(k) ==> m@.contains_key(k) && out@[k] == m@[k]
                && window_live(m@[k], now, window),
            forall|j: int| 0 <= j < it.index() && window_live(m@[*it.seq()[j].0], now, window)
                ==> #[trigger] out@.contains_key(*it.seq()[j].0),
    {
        let (k, w) = kv;
        if is_live(w, now, window) {
            out.insert(*k, *w);
        }
    }
    proof {
        assert(out@ =~= live_part(m@, now, window)) by {
            assert forall|k: K| #[trigger] live_part(m@, now, window).contains_key(k) implies out@.contains_key(k) by {
                let v = items;
                assert(v.contains((&k, &m@[k])));
                let j = choose|j: int| 0 <= j < v.len() && v[j] == (&k, &m@[k]);
                assert(*v[j].0 == k);
            }
        }
    }
    out
}

impl RateLimiter {
    /// `max` requests per peer per window of `window_nanos` nanoseconds;
    /// e.g. `(1_000_000_000, 10)` = 10 req/s/IP.
    pub fn new(window_nanos: u64, max: u32) -> (r: RateLimiter)
        ensures
            r@.v4 == Map::<u32, Window>::empty(),
            r@.v6 == Map::<u128, Window>::empty(),
            r@.window == window_nanos,
            r@.max == max,
            finite_view(r@),
    {
        RateLimiter { v4: HashMap::new(), v6: HashMap::new(), window: window_nanos, max, epoch: instant_now() }
    }

    /// Record a request from `key` at `now` (nanoseconds on the limiter's
    /// clock) and return whether it is within the limit.
    pub fn check_at(&mut self, key: PeerKey, now: u64) -> (ok: bool)
        ensures
            final(self)@.v4 == after_request(old(self)@, key, now).0.v4,
            final(self)@.v6 == after_request(old(self)@, key, now).0.v6,
            final(self)@.window == old(self)@.window,
            final(self)@.max == old(self)@.max,
            ok == after_request(old(self)@, key, now).1,
            finite_view(final(self)@),
            tracked_peers(final(self)@) <= MAX_ENTRIES + 1,
    {
        if self.v4.len() as u128 + self.v6.len() as u128 > MAX_ENTRIES as u128 {
            let k4 = keep_live(&self.v4, now, self.window);
            let k6 = keep_live(&self.v6, now, self.window);
            if k4.len() as u128 + k6.len() as u128 > MAX_ENTRIES as u128 {
                self.v4.clear();
                self.v6.clear();
            } else {
                self.v4 = k4;
                self.v6 = k6;
            }
        }
        let prior = match key {
            PeerKey::V4(a) => match self.v4.get(&a) {
                Some(w) => Some(*w),
                None => None,
            },
            PeerKey::V6(a) => match self.v6.get(&a) {
                Some(w) => Some(*w),
                None => None,
            },
        };
        let mut w = match prior {
            Some(w) => w,
            None => Window { start: now, count: 0 },
        };
        let e = if now >= w.start { now - w.start } else { 0 };
        if e >= self.window {
            w = Window { start: now, count: 0 };
        }
        w.count = if w.count == u32::MAX { u32::MAX } else { w.count + 1 };
        match key {
            PeerKey::V4(a) => {
                self.v4.insert(a, w);
            },
            PeerKey::V6(a) => {
                self.v6.insert(a, w);
            },
        }
        proof {
            lemma_tracked_peers_bounded(old(self)@, key, now);
        }
        w.count <= self.max
    }

    /// Record a request from `key` now and return whether it is within the
    /// limit (see [`RateLimiter::check_at`]): the request is counted at some
    /// reading of the limiter's clock.
    pub fn check(&mut self, key: PeerKey) -> (ok: bool)
        ensures
            exists|now: u64| {
                &&& final(self)@.v4 == #[trigger] after_request(old(self)@, key, now).0.v4
                &&& final(self)@.v6 == after_request(old(self)@, key, now).0.v6
                &&& ok == after_request(old(self)@, key, now).1
            },
            final(self)@.window == old(self)@.window,
            final(self)@.max == old(self)@.max,
            finite_view(final(self)@),
            tracked_peers(final(self)@) <= MAX_ENTRIES + 1,
    {
        let now = nanos_since(&self.epoch);
        let ok = self.check_at(key, now);
        assert(self@.v4 == after_request(old(self)@, key, now).0.v4);
        ok
    }
}

} // verus!
