[package]
name = "turnstile"
version = "0.1.0"
edition = "2021"
publish = false

[dependencies]
sha2 = "0.10"
hmac = "0.12"
hex = "0.4"
rand = "0.9"
rand_core = { version = "0.9", features = ["os_rng"] }
serde = { version = "1", features = ["derive"] }
serde_json = "1"
axum = "0.8"
tokio = { version = "1", features = ["full"] }
tower-http = { version = "0.6", features = ["cors", "compression-br", "compression-gzip", "trace"] }
redis = { version = "0.27", features = ["tokio-comp", "connection-manager", "cluster-async"] }
figment = { version = "0.10", features = ["toml", "env"] }
toml = "0.8"
jsonwebtoken = "9"
tracing = "0.1"
tracing-subscriber = { version = "0.3", features = ["json", "env-filter"] }
rust-embed = "8"
thiserror = "2"
wasm-bindgen = "0.2"
js-sys = "0.3"
console_error_panic_hook = "0.1"
ts-rs = "10"
