use turnstile::config::{
    default_bind_addr, default_challenge_ttl, default_difficulty, default_jwt_ttl, default_maxnumber,
    default_redis_url, normalize_list, parse_comma_list, ConfigError, ConfigRaw,
};

fn raw(allowed: &str) -> ConfigRaw {
    ConfigRaw {
        bind_addr: default_bind_addr(),
        redis_url: default_redis_url(),
        cluster_urls: None,
        hmac_key: "hk".into(),
        jwt_key: "jk".into(),
        allowed_origins: parse_comma_list(allowed),
        difficulty: default_difficulty(),
        maxnumber: default_maxnumber(),
        challenge_ttl_secs: default_challenge_ttl(),
        jwt_ttl_secs: default_jwt_ttl(),
        allow_js_disabled: false,
    }
}

#[test]
fn into_config_rejects_empty_keys() {
    let mut r = raw("https://a.com");
    r.hmac_key.clear();
    assert!(matches!(r.into_config(), Err(ConfigError::Missing("hmac_key"))));
}

#[test]
fn into_config_rejects_empty_jwt_key() {
    let mut r = raw("https://a.com");
    r.jwt_key.clear();
    assert!(matches!(r.into_config(), Err(ConfigError::Missing("jwt_key"))));
}

#[test]
fn into_config_rejects_empty_origins() {
    let r = raw("  ,  ");
    assert!(matches!(r.into_config(), Err(ConfigError::Missing("allowed_origins"))));
}

#[test]
fn into_config_rejects_excessive_difficulty() {
    let mut r = raw("https://a.com");
    r.difficulty = 40;
    match r.into_config() {
        Err(ConfigError::Invalid(m)) => assert_eq!(m, "difficulty 40 too high (max 31 leading-zero bits)"),
        other => panic!("expected Invalid, got {other:?}"),
    }
    let mut r = raw("https://a.com");
    r.difficulty = 31;
    assert!(r.into_config().is_ok());
}

#[test]
fn is_origin_allowed_matches_allowlist() {
    let cfg = raw("https://a.com, https://b.com").into_config().unwrap();
    assert!(cfg.is_origin_allowed("https://a.com"));
    assert!(cfg.is_origin_allowed("https://b.com"));
    assert!(!cfg.is_origin_allowed("https://evil.com"));
}

#[test]
fn wildcard_allows_every_origin() {
    let cfg = raw("*").into_config().unwrap();
    assert!(cfg.is_origin_allowed("https://anything.example"));
}

#[test]
fn into_config_keeps_every_setting() {
    let mut r = raw("https://a.com");
    r.cluster_urls = Some(vec!["redis://n1".into()]);
    r.maxnumber = 5;
    let cfg = r.into_config().unwrap();
    assert_eq!(cfg.allowed_origins, vec!["https://a.com".to_string()]);
    assert_eq!(cfg.cluster_urls, Some(vec!["redis://n1".to_string()]));
    assert_eq!(cfg.maxnumber, 5);
    assert_eq!(cfg.hmac_key, "hk");
    assert_eq!(cfg.bind_addr, "127.0.0.1:3000");
    assert_eq!(cfg.redis_url, "redis://127.0.0.1:6379/0");
    assert_eq!((cfg.difficulty, cfg.challenge_ttl_secs, cfg.jwt_ttl_secs), (14, 300, 900));
}

#[test]
fn comma_lists_trim_and_drop_empty_pieces() {
    assert_eq!(parse_comma_list("https://a.com,https://b.com"), vec!["https://a.com", "https://b.com"]);
    assert_eq!(parse_comma_list(" a ,, b\t,\u{3000}c\u{3000}, "), vec!["a", "b", "c"]);
    assert!(parse_comma_list("").is_empty());
    let items = vec![" x ".to_string(), "".to_string(), "  ".to_string(), "y".to_string()];
    assert_eq!(normalize_list(&items), vec!["x", "y"]);
}
