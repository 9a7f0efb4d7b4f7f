//! Server configuration, validated once at startup.
//!
//! The raw settings (from a TOML file and `WEBRIFY_`-prefixed environment
//! variables, read outside this library) arrive as a [`ConfigRaw`];
//! [`ConfigRaw::into_config`] validates them into the [`Config`] the rest of
//! the server works with. `allowed_origins` and `cluster_urls` are supplied
//! as comma-separated strings or as lists; [`parse_comma_list`] and
//! [`normalize_list`] turn either into the cleaned list.

use vstd::prelude::*;
use vstd::string::*;
use crate::text::{
    decimal, is_space, lemma_trim_drops_only_outer_space, str_eq, trim, trim_str, split_on, split_str, u64_to_decimal,
};

verus! {

/// Validated server configuration.
#[derive(Debug, Clone)]
pub struct Config {
    pub bind_addr: String,
    pub redis_url: String,
    /// Redis Cluster seed URLs. `Some` → cluster mode; `None` → single-node (`redis_url`).
    pub cluster_urls: Option<Vec<String>>,
    pub hmac_key: String,
    pub jwt_key: String,
    pub allowed_origins: Vec<String>,
    /// PoW difficulty (leading zero bits). ~14 ≈ 1s on a desktop CPU.
    pub difficulty: u32,
    /// PoW nonce search-space cap.
    pub maxnumber: u64,
    /// Challenge lifetime, seconds.
    pub challenge_ttl_secs: u64,
    /// Issued JWT lifetime, seconds.
    pub jwt_ttl_secs: u64,
    /// If true, JS-disabled clients may pass via a no-PoW high-risk path
    /// (off by default = fail-closed).
    pub allow_js_disabled: bool,
}

/// Settings as read from the configuration sources, before validation.
#[derive(Debug, Clone)]
pub struct ConfigRaw {
    pub bind_addr: String,
    pub redis_url: String,
    pub cluster_urls: Option<Vec<String>>,
    pub hmac_key: String,
    pub jwt_key: String,
    pub allowed_origins: Vec<String>,
    pub difficulty: u32,
    pub maxnumber: u64,
    pub challenge_ttl_secs: u64,
    pub jwt_ttl_secs: u64,
    pub allow_js_disabled: bool,
}

/// Why a configuration was refused.
#[derive(Debug, Clone)]
pub enum ConfigError {
    /// A required value is absent or empty; holds the key's name.
    Missing(&'static str),
    /// A value is out of range; holds the explanation.
    Invalid(String),
}

/// `origin` may use the service: some allowlist entry is `*` or equals it.
pub open spec fn origin_allowed(allowed: Seq<String>, origin: Seq<char>) -> bool {
    exists|i: int| 0 <= i < allowed.len() && (allowed[i]@ == "*"@ || allowed[i]@ == origin)
}

/// The highest accepted base difficulty.
pub const MAX_BASE_DIFFICULTY: u32 = 31;

/// The message for an excessive difficulty.
pub open spec fn difficulty_too_high_message(d: u32) -> Seq<char> {
    "difficulty "@ + decimal(d as nat) + " too high (max 31 leading-zero bits)"@
}

/// `c` carries exactly the settings of `raw`.
pub open spec fn config_matches(c: Config, raw: ConfigRaw) -> bool {
    &&& c.bind_addr == raw.bind_addr
    &&& c.redis_url == raw.redis_url
    &&& c.cluster_urls == raw.cluster_urls
    &&& c.hmac_key == raw.hmac_key
    &&& c.jwt_key == raw.jwt_key
    &&& c.allowed_origins == raw.allowed_origins
    &&& c.difficulty == raw.difficulty
    &&& c.maxnumber == raw.maxnumber
    &&& c.challenge_ttl_secs == raw.challenge_ttl_secs
    &&& c.jwt_ttl_secs == raw.jwt_ttl_secs
    &&& c.allow_js_disabled == raw.allow_js_disabled
}

/// The outcome validation owes for `raw`: the first failing check in the
/// order HMAC key, JWT key, origins, difficulty; otherwise success.
pub open spec fn validation_result(raw: ConfigRaw, r: Result<Config, ConfigError>) -> bool {
    if raw.hmac_key@.len() == 0 {
        r matches Err(ConfigError::Missing(k)) && k@ == "hmac_key"@
    } else if raw.jwt_key@.len() == 0 {
        r matches Err(ConfigError::Missing(k)) && k@ == "jwt_key"@
    } else if raw.allowed_origins@.len() == 0 {
        r matches Err(ConfigError::Missing(k)) && k@ == "allowed_origins"@
    } else if raw.difficulty > MAX_BASE_DIFFICULTY {
        r matches Err(ConfigError::Invalid(m)) && m@ == difficulty_too_high_message(raw.difficulty)
    } else {
        r matches Ok(c) && config_matches(c, raw)
    }
}

impl Config {
    /// Whether `origin` (from a request `Origin` header) may use this service.
    /// `"*"` in the allowlist means all origins are permitted.
    pub fn is_origin_allowed(&self, origin: &str) -> (ok: bool)
        ensures
            ok == origin_allowed(self.allowed_origins@, origin@),
    {
        let n = self.allowed_origins.len();
        let mut i: usize = 0;
        while i < n
            invariant
                n == self.allowed_origins@.len(),
                i <= n,
                forall|k: int| 0 <= k < i ==> !(self.allowed_origins@[k]@ == "*"@ || self.allowed_origins@[k]@ == origin@),
            decreases n - i,
        {
            let o = self.allowed_origins[i].as_str();
            if str_eq(o, "*") || str_eq(o, origin) {
                return true;
            }
            i = i + 1;
        }
        false
    }
}

impl ConfigRaw {
    /// Validate the raw settings: both keys and at least one origin must be
    /// present, and the base difficulty may not exceed 31 bits.
    pub fn into_config(self) -> (r: Result<Config, ConfigError>)
        ensures
            validation_result(self, r),
    {
        if self.hmac_key.as_str().is_empty() {
            return Err(ConfigError::Missing("hmac_key"));
        }
        if self.jwt_key.as_str().is_empty() {
            return Err(ConfigError::Missing("jwt_key"));
        }
        if self.allowed_origins.len() == 0 {
            return Err(ConfigError::Missing("allowed_origins"));
        }
        if self.difficulty > MAX_BASE_DIFFICULTY {
            let mut m = String::from_str("difficulty ");
            m.append(u64_to_decimal(self.difficulty as u64).as_str());
            m.append(" too high (max 31 leading-zero bits)");
            return Err(ConfigError::Invalid(m));
        }
        Ok(Config {
            bind_addr: self.bind_addr,
            redis_url: self.redis_url,
            cluster_urls: self.cluster_urls,
            hmac_key: self.hmac_key,
            jwt_key: self.jwt_key,
            allowed_origins: self.allowed_origins,
            difficulty: self.difficulty,
            maxnumber: self.maxnumber,
            challenge_ttl_secs: self.challenge_ttl_secs,
            jwt_ttl_secs: self.jwt_ttl_secs,
            allow_js_disabled: self.allow_js_disabled,
        })
    }
}

/// The cleaned list from raw items: each item trimmed, empty ones dropped,
/// order kept.
pub open spec fn cleaned(items: Seq<Seq<char>>) -> Seq<Seq<char>>
    decreases items.len(),
{
    if items.len() == 0 {
        Seq::empty()
    } else {
        let rest = cleaned(items.drop_last());
        let t = trim(items.last());
        if t.len() > 0 { rest.push(t) } else { rest }
    }
}

/// Every item of a cleaned list is non-empty and neither starts nor ends
/// with white space (so `" https://a.com\n"` is listed as `https://a.com`).
pub proof fn lemma_cleaned_items_are_trimmed(items: Seq<Seq<char>>)
    ensures
        forall|k: int| 0 <= k < cleaned(items).len() ==> {
            let x = #[trigger] cleaned(items)[k];
            x.len() > 0 && !is_space(x[0]) && !is_space(x[x.len() - 1])
        },
    decreases items.len(),
{
    if items.len() > 0 {
        lemma_cleaned_items_are_trimmed(items.drop_last());
        let t = trim(items.last());
        let ij = lemma_trim_drops_only_outer_space(items.last());
        let rest = cleaned(items.drop_last());
        if t.len() > 0 {
            assert(t[0] == items.last()[ij.0]);
            assert(t[t.len() - 1] == items.last()[ij.1 - 1]);
            assert(cleaned(items) == rest.push(t));
            assert forall|k: int| 0 <= k < cleaned(items).len() implies {
                let x = #[trigger] cleaned(items)[k];
                x.len() > 0 && !is_space(x[0]) && !is_space(x[x.len() - 1])
            } by {
                if k < rest.len() {
                    assert(cleaned(items)[k] == rest[k]);
                }
            }
        } else {
            assert(cleaned(items) == rest);
        }
    }
}

/// The list a comma-separated string denotes.
pub open spec fn comma_list(s: Seq<char>) -> Seq<Seq<char>> {
    cleaned(split_on(s, ','))
}

/// The characters of each string of a list.
pub open spec fn string_views(v: Seq<String>) -> Seq<Seq<char>> {
    Seq::new(v.len(), |i: int| v[i]@)
}

/// Trim every item and drop the empty ones, keeping the order (the list
/// form of `allowed_origins` and `cluster_urls`).
pub fn normalize_list(items: &Vec<String>) -> (out: Vec<String>)
    ensures
        string_views(out@) == cleaned(string_views(items@)),
{
    let mut out: Vec<String> = Vec::new();
    let n = items.len();
    let mut i: usize = 0;
    while i < n
        invariant
            n == items@.len(),
            i <= n,
            string_views(out@) == cleaned(string_views(items@).take(i as int)),
        decreases n - i,
    {
        let t = trim_str(items[i].as_str());
        proof {
            let pre = string_views(items@).take(i + 1);
            assert(pre.drop_last() =~= string_views(items@).take(i as int));
            assert(pre.last() == items@[i as int]@);
        }
        if !t.as_str().is_empty() {
            let ghost before = out@;
            out.push(t);
            proof {
                assert(string_views(out@) =~= string_views(before).push(t@));
            }
        }
        i = i + 1;
    }
    proof {
        assert(string_views(items@).take(n as int) =~= string_views(items@));
    }
    out
}

/// Parse a comma-separated list: split on `,`, trim each piece, drop the
/// empty ones.
pub fn parse_comma_list(s: &str) -> (out: Vec<String>)
    ensures
        string_views(out@) == comma_list(s@),
{
    let pieces = split_str(s, ',');
    proof {
        assert(string_views(pieces@) =~= split_on(s@, ','));
    }
    normalize_list(&pieces)
}

/// Default listen address.
pub fn default_bind_addr() -> (s: String)
    ensures
        s@ == "127.0.0.1:3000"@,
{
    String::from_str("127.0.0.1:3000")
}

/// Default Redis URL.
pub fn default_redis_url() -> (s: String)
    ensures
        s@ == "redis://127.0.0.1:6379/0"@,
{
    String::from_str("redis://127.0.0.1:6379/0")
}

/// Default base difficulty (leading zero bits).
pub fn default_difficulty() -> (d: u32)
    ensures
        d == 14,
{
    14
}

/// Default nonce search-space cap.
pub fn default_maxnumber() -> (n: u64)
    ensures
        n == 100_000,
{
    100_000
}

/// Default challenge lifetime, seconds.
pub fn default_challenge_ttl() -> (t: u64)
    ensures
        t == 300,
{
    300
}

/// Default JWT lifetime, seconds.
pub fn default_jwt_ttl() -> (t: u64)
    ensures
        t == 900,
{
    900
}

} // verus!
