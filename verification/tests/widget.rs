use turnstile::routes::widget::{asset_key, cache_control_for, index_key, mime_for};

#[test]
fn mime_overrides() {
    assert_eq!(mime_for("turnstile.js"), "application/javascript; charset=utf-8");
    assert_eq!(mime_for("assets/x_bg.wasm"), "application/wasm");
    assert_eq!(mime_for("assets/style.css"), "text/css; charset=utf-8");
    assert_eq!(mime_for("index.html"), "text/html; charset=utf-8");
    assert_eq!(mime_for("data.bin"), "application/octet-stream");
}

#[test]
fn mime_uses_the_last_extension_only() {
    assert_eq!(mime_for("a.min.mjs"), "application/javascript; charset=utf-8");
    assert_eq!(mime_for("x.js.map"), "application/json; charset=utf-8");
    assert_eq!(mime_for("logo.svg"), "image/svg+xml");
    assert_eq!(mime_for("noext"), "application/octet-stream");
    assert_eq!(mime_for("wasm"), "application/wasm");
    assert_eq!(mime_for(""), "application/octet-stream");
}

#[test]
fn cache_policy_splits_hashed_chunks_from_entry() {
    assert_eq!(cache_control_for("assets/app-1234.js"), "public, max-age=31536000, immutable");
    assert_eq!(cache_control_for("turnstile.js"), "no-cache");
    assert_eq!(cache_control_for("asset/x.js"), "no-cache");
}

#[test]
fn empty_path_is_the_entry_document() {
    assert_eq!(asset_key(""), "index.html");
    assert_eq!(asset_key("turnstile.js"), "turnstile.js");
    assert_eq!(index_key("docs"), "docs/index.html");
}
