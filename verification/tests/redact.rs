use coderouter_proxy::redact::{looks_like_jwt, sanitize_checked, sanitize_upstream_error};

#[test]
fn credentials_are_redacted() {
    assert_eq!(
        sanitize_upstream_error("Bearer abc token xyz sk-123 normal"),
        "[redacted] abc token [redacted] [redacted] normal"
    );
    assert_eq!(sanitize_upstream_error("  Authorization:   \n secret  after"), "Authorization: secret after");
    assert_eq!(sanitize_upstream_error("Authorization secret"), "Authorization [redacted]");
    assert_eq!(sanitize_upstream_error(""), "");
}

#[test]
fn jwt_like_values() {
    let jwt = format!("{}.{}.{}", "a".repeat(40), "b".repeat(40), "c");
    assert!(looks_like_jwt(&jwt));
    assert!(!looks_like_jwt("a.b.c"));
    assert_eq!(sanitize_upstream_error(&format!("got {jwt}")), "got [redacted]");
}

#[test]
fn long_messages_are_cut_at_600_bytes() {
    let long = "x".repeat(700);
    let out = sanitize_upstream_error(&long);
    assert_eq!(out.len(), 603);
    assert!(out.ends_with("..."));
    let accented = "é".repeat(301);
    assert_eq!(sanitize_upstream_error(&accented).len(), 603);
    let odd = format!("a{}", "é".repeat(300));
    assert!(sanitize_checked(&odd).is_none());
}
