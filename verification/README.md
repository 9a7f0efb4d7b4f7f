# turnstile

A self-hosted, privacy-preserving human-verification service: the browser
solves a SHA-256 proof of work bound to an HMAC-signed challenge, the server
re-checks it, rejects replays and issues a short-lived JWT.

## Layout

- `src/` — the library, verified with Verus: proof of work, challenge
  signing and its canonical text, hex codec, fingerprint hashing, risk
  scoring, the challenge flow, the verify flow on the store's answer to the
  single-use claim (a failing store fails closed), configuration
  validation, the `sitekey` subcommand (its arguments and the edit of the
  TOML document's origins), metrics exposition, the
  Redis record formats and the per-peer rate limiter. Calls into `sha2`,
  `hmac`, `rand` and `toml` go through small trusted wrappers whose contracts name
  what those crates compute.
- `tests/` — tests of the library, run against the real outside crates.
- `app/` — the `webrify` server binary: Axum routes, the Redis calls,
  configuration loading (figment), JWT encoding (jsonwebtoken), the
  `sitekey` file reads and writes, the widget's WebAssembly bindings and the
  floating-point behavior score.
