use base64::Engine;
use coderouter_proxy::codex::{
    build_codex_auth_headers, build_codex_responses_headers, check_fedramp, codex_user_agent,
    decode_id_token_claims, new_codex_request_id, platform_release_from, CODEX_ORIGINATOR,
};

fn token_with(payload: &str) -> String {
    let p = base64::engine::general_purpose::URL_SAFE_NO_PAD.encode(payload);
    format!("h.{p}.s")
}

fn ua() -> String {
    codex_user_agent("linux", "6.1.0", "x86_64")
}

#[test]
fn test_fedramp_top_level_simple() {
    let payload = base64::engine::general_purpose::URL_SAFE_NO_PAD.encode(r#"{"fedramp":true}"#);
    let id_token = format!("header.{payload}.sig");
    assert!(check_fedramp(&id_token));
    let payload2 = base64::engine::general_purpose::URL_SAFE_NO_PAD.encode(r#"{"fedramp":false}"#);
    let id_token2 = format!("header.{payload2}.sig");
    assert!(!check_fedramp(&id_token2));
}

#[test]
fn test_fedramp_openai_namespace() {
    assert!(check_fedramp(&token_with(r#"{"https://api.openai.com/auth":{"chatgpt_account_is_fedramp":true}}"#)));
    assert!(!check_fedramp(&token_with(r#"{"https://api.openai.com/auth":{"chatgpt_account_is_fedramp":false}}"#)));
}

#[test]
fn test_fedramp_openai_namespace_wins_over_simple() {
    assert!(check_fedramp(&token_with(
        r#"{"fedramp":false,"https://api.openai.com/auth":{"chatgpt_account_is_fedramp":true}}"#
    )));
}

#[test]
fn test_fedramp_no_claims() {
    assert!(!check_fedramp(&token_with(r#"{"sub":"user-1"}"#)));
}

#[test]
fn fedramp_is_false_for_malformed_tokens() {
    assert!(!check_fedramp(""));
    assert!(!check_fedramp("no-dots-here"));
    assert!(!check_fedramp("h.!!!.s"));
    let not_json = base64::engine::general_purpose::URL_SAFE_NO_PAD.encode("plain");
    assert!(!check_fedramp(&format!("h.{not_json}.s")));
    let payload = base64::engine::general_purpose::URL_SAFE_NO_PAD.encode(r#"{"fedramp":true}"#);
    assert!(check_fedramp(&format!("h.{payload}")));
}

#[test]
fn claims_account_id_sources() {
    let (acct, fed) = decode_id_token_claims(Some(&token_with(r#"{"chatgpt_account_id":"top"}"#)));
    assert_eq!(acct, Some("top".to_string()));
    assert!(!fed);
    let (acct, _) = decode_id_token_claims(Some(&token_with(
        r#"{"chatgpt_account_id":"top","https://api.openai.com/auth":{"chatgpt_account_id":"ns"}}"#,
    )));
    assert_eq!(acct, Some("ns".to_string()));
    let (acct, _) = decode_id_token_claims(Some(&token_with(r#"{"organizations":[{"id":"org-1"},{"id":"org-2"}]}"#)));
    assert_eq!(acct, Some("org-1".to_string()));
    assert_eq!(decode_id_token_claims(None), (None, false));
    assert_eq!(decode_id_token_claims(Some("")), (None, false));
}

#[test]
fn test_build_codex_auth_headers_basic() {
    let headers = build_codex_auth_headers("access-token", Some("account-id"), None, &ua());
    assert!(headers.iter().any(|(k, v)| k == "Authorization" && v == "Bearer access-token"));
    assert!(headers.iter().any(|(k, v)| k == "ChatGPT-Account-Id" && v == "account-id"));
    assert!(headers.iter().any(|(k, v)| k == "content-type" && v == "application/json"));
    assert!(headers.iter().any(|(k, v)| k == "originator" && v == CODEX_ORIGINATOR));
    assert!(headers.iter().any(|(k, v)| k == "User-Agent" && v.starts_with("opencode/")));
    assert!(!headers.iter().any(|(k, _)| k == "X-OpenAI-Fedramp"));
}

#[test]
fn test_build_codex_responses_headers() {
    let headers = build_codex_responses_headers("request-123");
    assert!(headers.iter().any(|(k, v)| k == "session-id" && v == "request-123"));
    assert_eq!(headers.len(), 1);
}

#[test]
fn test_build_codex_auth_headers_fedramp_namespace() {
    let id_token = token_with(r#"{"https://api.openai.com/auth":{"chatgpt_account_is_fedramp":true}}"#);
    let headers = build_codex_auth_headers("at", None, Some(&id_token), &ua());
    assert!(headers.iter().any(|(k, v)| k == "X-OpenAI-Fedramp" && v == "true"));
}

#[test]
fn test_build_codex_auth_headers_no_account() {
    let headers = build_codex_auth_headers("at", None, None, &ua());
    assert!(headers.iter().any(|(k, v)| k == "Authorization" && v == "Bearer at"));
    assert!(!headers.iter().any(|(k, _)| k == "ChatGPT-Account-Id"));
    let empty = build_codex_auth_headers("at", Some(""), None, &ua());
    assert!(!empty.iter().any(|(k, _)| k == "ChatGPT-Account-Id"));
    assert_eq!(empty.len(), 4);
}

#[test]
fn user_agent_and_release() {
    assert_eq!(codex_user_agent("linux", "6.1.0", "x86_64"), "opencode/0.1.0 (linux 6.1.0; x86_64)");
    assert_eq!(platform_release_from(Some(" 6.1.0-13\n")), "6.1.0-13");
    assert_eq!(platform_release_from(Some("  \n")), "unknown");
    assert_eq!(platform_release_from(None), "unknown");
}

#[test]
fn request_ids_are_simple_uuids() {
    let a = new_codex_request_id();
    let b = new_codex_request_id();
    assert_eq!(a.len(), 32);
    assert!(a.chars().all(|c| c.is_ascii_hexdigit() && !c.is_ascii_uppercase()));
    assert_ne!(a, b);
}
