use coderouter_proxy::ssrf::{is_private_or_reserved_v4, is_private_or_reserved_v6, validate_base_url};

#[test]
fn test_valid_public_urls() {
    assert!(validate_base_url("https://api.openai.com/v1").is_ok());
    assert!(validate_base_url("https://api.anthropic.com/v1").is_ok());
    assert!(validate_base_url("http://example.com/v1").is_ok());
    assert!(validate_base_url("https://api.z.ai/v1").is_ok());
}

#[test]
fn test_rejects_loopback() {
    assert!(validate_base_url("http://127.0.0.1:8080/v1").is_err());
    assert!(validate_base_url("http://127.0.0.2/v1").is_err());
    assert!(validate_base_url("http://localhost:8080/v1").is_err());
    assert!(validate_base_url("http://localhost.localdomain/v1").is_err());
}

#[test]
fn test_rejects_private_ranges() {
    assert!(validate_base_url("http://10.0.0.1/v1").is_err());
    assert!(validate_base_url("http://10.255.255.255/v1").is_err());
    assert!(validate_base_url("http://172.16.0.1/v1").is_err());
    assert!(validate_base_url("http://172.31.255.255/v1").is_err());
    assert!(validate_base_url("http://192.168.0.1/v1").is_err());
    assert!(validate_base_url("http://192.168.1.100/v1").is_err());
}

#[test]
fn test_rejects_link_local() {
    assert!(validate_base_url("http://169.254.169.254/v1").is_err());
    assert!(validate_base_url("http://169.254.0.1/v1").is_err());
}

#[test]
fn test_rejects_ipv6_loopback() {
    assert!(validate_base_url("http://[::1]/v1").is_err());
}

#[test]
fn test_rejects_ipv6_private() {
    assert!(validate_base_url("http://[fe80::1]/v1").is_err());
    assert!(validate_base_url("http://[fc00::1]/v1").is_err());
}

#[test]
fn test_rejects_non_http_schemes() {
    assert!(validate_base_url("file:///etc/passwd").is_err());
    assert!(validate_base_url("ftp://example.com/v1").is_err());
    assert!(validate_base_url("gopher://example.com").is_err());
}

#[test]
fn test_rejects_invalid_url() {
    assert!(validate_base_url("not-a-url").is_err());
    assert!(validate_base_url("").is_err());
}

#[test]
fn test_rejects_reserved_hostnames() {
    assert!(validate_base_url("http://foo.local/v1").is_err());
    assert!(validate_base_url("http://bar.internal/v1").is_err());
}

#[test]
fn test_is_private_or_reserved() {
    assert!(is_private_or_reserved_v4([127, 0, 0, 1]));
    assert!(is_private_or_reserved_v4([10, 0, 0, 1]));
    assert!(is_private_or_reserved_v4([172, 16, 0, 1]));
    assert!(is_private_or_reserved_v4([192, 168, 1, 1]));
    assert!(is_private_or_reserved_v4([169, 254, 169, 254]));
    assert!(is_private_or_reserved_v6([0, 0, 0, 0, 0, 0, 0, 1]));
    assert!(is_private_or_reserved_v6([0xfe80, 0, 0, 0, 0, 0, 0, 1]));

    assert!(!is_private_or_reserved_v4([8, 8, 8, 8]));
    assert!(!is_private_or_reserved_v4([1, 1, 1, 1]));
    assert!(is_private_or_reserved_v4([203, 0, 113, 1]));
}

#[test]
fn ssrf_error_messages_name_the_rule() {
    assert_eq!(
        validate_base_url("ftp://example.com/v1").unwrap_err(),
        "base_url must use http or https scheme, got 'ftp'"
    );
    assert_eq!(
        validate_base_url("http://10.0.0.1/v1").unwrap_err(),
        "base_url 'http://10.0.0.1/v1' resolves to a private/reserved IPv4 address (10.0.0.1)"
    );
    assert_eq!(
        validate_base_url("http://[::ffff:10.0.0.1]/v1").unwrap_err(),
        "base_url 'http://[::ffff:10.0.0.1]/v1' resolves to a private/reserved IPv6 address (::ffff:10.0.0.1)"
    );
    assert_eq!(
        validate_base_url("http://Api.Internal/v1").unwrap_err(),
        "base_url 'http://Api.Internal/v1' uses a reserved hostname 'api.internal'"
    );
    assert!(validate_base_url("not-a-url").unwrap_err().starts_with("Invalid URL 'not-a-url': "));
}

#[test]
fn ssrf_range_edges() {
    assert!(!is_private_or_reserved_v4([172, 15, 255, 255]));
    assert!(!is_private_or_reserved_v4([172, 32, 0, 0]));
    assert!(is_private_or_reserved_v4([100, 64, 0, 1]));
    assert!(!is_private_or_reserved_v4([100, 128, 0, 1]));
    assert!(is_private_or_reserved_v4([224, 0, 0, 1]));
    assert!(is_private_or_reserved_v4([255, 255, 255, 255]));
    assert!(is_private_or_reserved_v6([0xfc3f, 0, 0, 0, 0, 0, 0, 1]));
    assert!(!is_private_or_reserved_v6([0xfc40, 0, 0, 0, 0, 0, 0, 1]));
    assert!(!is_private_or_reserved_v6([0x2001, 0x4860, 0, 0, 0, 0, 0, 0x8888]));
    assert!(is_private_or_reserved_v6([0, 0, 0, 0, 0, 0xffff, 0x7f00, 1]));
    assert!(!is_private_or_reserved_v6([0, 0, 0, 0, 0, 0xffff, 0x0808, 0x0808]));
}
