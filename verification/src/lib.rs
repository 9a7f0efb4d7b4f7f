//! Webrify Turnstile: a self-hosted human-verification service.
//!
//! The verified core: proof-of-work, challenge signing, risk scoring,
//! request-flow decisions, configuration validation, metrics and rate limiting.

pub mod cli;
pub mod client;
pub mod clock;
pub mod config;
pub mod digest;
pub mod error;
pub mod fingerprint;
pub mod hexstr;
pub mod hmac;
pub mod jwt;
pub mod metrics;
pub mod pow;
pub mod protocol;
pub mod rate_limit;
pub mod risk;
pub mod rng;
pub mod routes;
pub mod store;
pub mod text;
