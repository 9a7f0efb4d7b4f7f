use turnstile::jwt::claims_for;

#[test]
fn claims_for_binds_origin() {
    let c = claims_for("https://webrify.test", "jti-9", 123);
    assert_eq!(c.iss, "webrify");
    assert_eq!(c.aud, "https://webrify.test");
    assert_eq!(c.jti, "jti-9");
    assert_eq!(c.origin, "https://webrify.test");
    assert_eq!(c.exp, 123);
}
