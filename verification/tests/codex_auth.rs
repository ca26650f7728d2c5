use base64::Engine;
use coderouter_proxy::codex::CodexTokens;
use coderouter_proxy::codex_auth::{
    after_token_refresh, build_auth_json, codex_refresh_due, credential_from_device_tokens, device_auth_start,
    device_poll_authorized, device_poll_pending, device_poll_waiting, interval_from_value, parse_codex_credential,
    parse_u64_text, token_needs_refresh, token_needs_refresh_at, AuthCodeTokenResponse,
};
use coderouter_proxy::json::{as_str, get, parse_json};

/// The tokens of a document in the shape `CodexTokens` is read from: a
/// string `access_token` and optional string (or null) fields.
fn typed_tokens(v: &serde_json::Value) -> Option<CodexTokens> {
    let obj = v.as_object()?;
    let access_token = obj.get("access_token")?.as_str()?.to_string();
    let opt = |k: &str| -> Result<Option<String>, ()> {
        match obj.get(k) {
            None | Some(serde_json::Value::Null) => Ok(None),
            Some(serde_json::Value::String(s)) => Ok(Some(s.clone())),
            Some(_) => Err(()),
        }
    };
    Some(CodexTokens {
        access_token,
        refresh_token: opt("refresh_token").ok()?,
        account_id: opt("account_id").ok()?,
        id_token: opt("id_token").ok()?,
    })
}

fn parse(credential: &str) -> (String, Option<String>, Option<String>, Option<String>) {
    let value: Option<serde_json::Value> = serde_json::from_str(credential).ok();
    let as_auth = value.as_ref().and_then(|v| v.get("tokens")).and_then(typed_tokens);
    let as_tokens = value.as_ref().and_then(typed_tokens);
    parse_codex_credential(credential, as_auth, as_tokens)
}

fn b64(text: &str) -> String {
    base64::engine::general_purpose::URL_SAFE_NO_PAD.encode(text)
}

fn now_secs() -> i64 {
    std::time::SystemTime::now()
        .duration_since(std::time::UNIX_EPOCH)
        .unwrap()
        .as_secs() as i64
}

#[test]
fn test_parse_raw_access_token() {
    let (access, account, id, refresh) = parse("sk-my-access-token");
    assert_eq!(access, "sk-my-access-token");
    assert!(account.is_none());
    assert!(id.is_none());
    assert!(refresh.is_none());
}

#[test]
fn test_parse_full_auth_json_return_order() {
    let json = r#"{"tokens":{"access_token":"at-123","account_id":"acc-789","id_token":"eyJhbGciOiJSUzI1NiJ9.eyJmZWRyYW1wIjp0cnVlfQ.signature","refresh_token":"rt-456"}}"#;
    let (access, account, id, refresh) = parse(json);
    assert_eq!(access, "at-123");
    assert_eq!(account, Some("acc-789".to_string()));
    assert_eq!(id, Some("eyJhbGciOiJSUzI1NiJ9.eyJmZWRyYW1wIjp0cnVlfQ.signature".to_string()));
    assert_eq!(refresh, Some("rt-456".to_string()));
}

#[test]
fn test_parse_flat_auth_json_return_order() {
    let json = r#"{"access_token":"direct-at","account_id":"direct-acc","refresh_token":"direct-rt"}"#;
    let (access, account, id, refresh) = parse(json);
    assert_eq!(access, "direct-at");
    assert_eq!(account, Some("direct-acc".to_string()));
    assert!(id.is_none());
    assert_eq!(refresh, Some("direct-rt".to_string()));
}

#[test]
fn test_parse_json_with_jwt_namespace_account_id() {
    let payload = b64(r#"{"https://api.openai.com/auth":{"chatgpt_account_id":"acct-jwt-123","chatgpt_account_is_fedramp":false}}"#);
    let id_token = format!("h.{payload}.s");
    let json = format!(r#"{{"tokens":{{"access_token":"at-1","id_token":"{id_token}","refresh_token":"rt-1"}}}}"#);
    let (access, account, id, refresh) = parse(&json);
    assert_eq!(access, "at-1");
    assert_eq!(account, Some("acct-jwt-123".to_string()));
    assert!(id.is_some());
    assert_eq!(refresh, Some("rt-1".to_string()));
}

#[test]
fn test_parse_json_with_top_level_jwt_account_id() {
    let payload = b64(r#"{"chatgpt_account_id":"acct-top"}"#);
    let id_token = format!("h.{payload}.s");
    let json = format!(r#"{{"tokens":{{"access_token":"at-top","id_token":"{id_token}"}}}}"#);
    let (_, account, _, _) = parse(&json);
    assert_eq!(account, Some("acct-top".to_string()));
}

#[test]
fn test_parse_json_with_organization_account_id() {
    let payload = b64(r#"{"organizations":[{"id":"org-account"}]}"#);
    let id_token = format!("h.{payload}.s");
    let json = format!(r#"{{"tokens":{{"access_token":"at-org","id_token":"{id_token}"}}}}"#);
    let (_, account, _, _) = parse(&json);
    assert_eq!(account, Some("org-account".to_string()));
}

#[test]
fn test_parse_json_account_id_from_both_sources() {
    let payload = b64(r#"{"https://api.openai.com/auth":{"chatgpt_account_id":"acct-from-jwt"}}"#);
    let id_token = format!("h.{payload}.s");
    let json = format!(
        r#"{{"tokens":{{"access_token":"at-x","account_id":"acct-from-json","id_token":"{id_token}"}}}}"#
    );
    let (_, account, _, _) = parse(&json);
    assert_eq!(account, Some("acct-from-json".to_string()));
}

#[test]
fn test_parse_untyped_json_fallback() {
    let json = r#"{"tokens": {"access_token": "nested", "refresh_token": 7}}"#;
    let (access, account, id, refresh) = parse(json);
    assert_eq!(access, "nested");
    assert!(account.is_none());
    assert!(id.is_none());
    assert!(refresh.is_none());
    let shadowed = r#"{"access_token": 5, "tokens": {"access_token": "nested", "refresh_token": 7}}"#;
    assert_eq!(parse(shadowed), (shadowed.to_string(), None, None, None));
    let empty = r#"{"access_token": ""}"#;
    assert_eq!(parse(empty).0, "");
    assert_eq!(parse("  {not json").0, "  {not json");
}

#[test]
fn test_token_needs_refresh_expired() {
    let token = format!("h.{}.s", b64(r#"{"exp":1}"#));
    assert!(token_needs_refresh(&token, 60));
}

#[test]
fn test_token_needs_refresh_far_future() {
    let far_future = now_secs() + 86400;
    let token = format!("h.{}.s", b64(&format!(r#"{{"exp":{}}}"#, far_future)));
    assert!(!token_needs_refresh(&token, 60));
}

#[test]
fn test_token_needs_refresh_within_skew() {
    let near_future = now_secs() + 30;
    let token = format!("h.{}.s", b64(&format!(r#"{{"exp":{}}}"#, near_future)));
    assert!(token_needs_refresh(&token, 60));
}

#[test]
fn test_token_needs_refresh_opaque() {
    assert!(!token_needs_refresh("sk-opaque-token", 60));
}

#[test]
fn test_token_needs_refresh_at_cases() {
    let token = format!("h.{}.s", b64(r#"{"exp":1000}"#));
    assert!(!token_needs_refresh_at(&token, 60, 939));
    assert!(token_needs_refresh_at(&token, 60, 940));
    assert!(token_needs_refresh_at("h.!!!.s", 60, 0));
    assert!(token_needs_refresh_at(&format!("h.{}.s", b64("not json")), 60, 0));
    assert!(!token_needs_refresh_at(&format!("h.{}.s", b64(r#"{"sub":"x"}"#)), 60, i64::MAX));
}

#[test]
fn test_build_auth_json_all_fields() {
    let json = build_auth_json("at", Some("rt"), Some("acct"), Some("idt"));
    let parsed: serde_json::Value = serde_json::from_str(&json).unwrap();
    assert_eq!(parsed["tokens"]["access_token"], "at");
    assert_eq!(parsed["tokens"]["refresh_token"], "rt");
    assert_eq!(parsed["tokens"]["account_id"], "acct");
    assert_eq!(parsed["tokens"]["id_token"], "idt");
    assert_eq!(
        json,
        r#"{"tokens":{"access_token":"at","account_id":"acct","id_token":"idt","refresh_token":"rt"}}"#
    );
}

#[test]
fn test_build_auth_json_minimal() {
    let json = build_auth_json("bare-token", None, None, None);
    let parsed: serde_json::Value = serde_json::from_str(&json).unwrap();
    assert_eq!(parsed["tokens"]["access_token"], "bare-token");
    assert!(parsed["tokens"].get("refresh_token").is_none());
}

#[test]
fn test_device_user_code_interval_accepts_string() {
    let json = r#"{
        "device_auth_id": "dev-123",
        "user_code": "ABCD-EFGH",
        "interval": "7"
    }"#;
    let parsed = parse_json(json).unwrap();
    assert_eq!(as_str(get(&parsed, "device_auth_id")), Some("dev-123"));
    assert_eq!(as_str(get(&parsed, "user_code")), Some("ABCD-EFGH"));
    assert_eq!(interval_from_value(get(&parsed, "interval").unwrap()), Ok(7));
}

#[test]
fn test_interval_forms() {
    assert_eq!(interval_from_value(&parse_json("12").unwrap()), Ok(12));
    assert_eq!(interval_from_value(&parse_json(r#"" +9 ""#).unwrap()), Ok(9));
    assert_eq!(
        interval_from_value(&parse_json("-1").unwrap()),
        Err("interval must be a positive integer".to_string())
    );
    assert_eq!(
        interval_from_value(&parse_json(r#""x""#).unwrap()),
        Err("invalid interval: invalid digit found in string".to_string())
    );
    assert_eq!(
        interval_from_value(&parse_json("true").unwrap()),
        Err("interval must be a string or integer".to_string())
    );
    assert_eq!(parse_u64_text(""), Err("cannot parse integer from empty string".to_string()));
    assert_eq!(parse_u64_text("+"), Err("invalid digit found in string".to_string()));
    assert_eq!(parse_u64_text("18446744073709551615"), Ok(u64::MAX));
    assert_eq!(parse_u64_text("18446744073709551616"), Err("number too large to fit in target type".to_string()));
    for text in ["", "+", "-", "-1", "12a", "007", "+42", "99999999999999999999", "1 2"] {
        assert_eq!(parse_u64_text(text), text.parse::<u64>().map_err(|e| e.to_string()), "{text}");
    }
}

#[test]
fn test_credential_from_device_tokens_includes_account_id() {
    let payload = b64(r#"{"https://api.openai.com/auth":{"chatgpt_account_id":"acct-device"}}"#);
    let token = AuthCodeTokenResponse {
        access_token: "device-access".to_string(),
        refresh_token: "device-refresh".to_string(),
        id_token: format!("h.{payload}.s"),
    };

    let credential = credential_from_device_tokens(&token);
    let parsed: serde_json::Value = serde_json::from_str(&credential).unwrap();

    assert_eq!(parsed["tokens"]["access_token"], "device-access");
    assert_eq!(parsed["tokens"]["refresh_token"], "device-refresh");
    assert_eq!(parsed["tokens"]["account_id"], "acct-device");
    assert!(parsed["tokens"].get("id_token").is_some());
}

#[test]
fn test_refresh_decisions() {
    let expired = format!("h.{}.s", b64(r#"{"exp":10}"#));
    assert_eq!(codex_refresh_due(&expired, &Some("rt".to_string()), 100), Some("rt".to_string()));
    assert_eq!(codex_refresh_due(&expired, &Some(String::new()), 100), None);
    assert_eq!(codex_refresh_due(&expired, &None, 100), None);
    assert_eq!(codex_refresh_due("opaque", &Some("rt".to_string()), 100), None);

    let (access, account, id, stored) =
        after_token_refresh(Some("acct".to_string()), Some("old-id".to_string()), "rt", "new-at".to_string(), None, None);
    assert_eq!(access, "new-at");
    assert_eq!(account, Some("acct".to_string()));
    assert_eq!(id, Some("old-id".to_string()));
    assert_eq!(
        stored,
        r#"{"tokens":{"access_token":"new-at","account_id":"acct","id_token":"old-id","refresh_token":"rt"}}"#
    );
}

#[test]
fn test_device_auth_answers() {
    let start = device_auth_start("CODE".to_string(), "dev".to_string(), 0);
    assert_eq!(start.verification_url, "https://auth.openai.com/codex/device");
    assert_eq!(start.interval, 1);
    assert_eq!(start.expires_in, 900);
    assert!(device_poll_waiting(403) && device_poll_waiting(404) && !device_poll_waiting(200));
    assert_eq!(device_poll_pending().status, "pending");
    let done = device_poll_authorized("cred".to_string());
    assert_eq!(done.status, "authorized");
    assert_eq!(done.credential, Some("cred".to_string()));
}
