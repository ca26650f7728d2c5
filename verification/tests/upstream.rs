use coderouter_proxy::json::{as_str, as_u64, get, parse_json, to_json_string, JsonNumber, JsonValue};
use coderouter_proxy::upstream::{
    apply_output_token_limit, build_completion_request, build_openai_compatible_body, build_upstream_request,
    requires_default_sampling, requires_max_completion_tokens, UpstreamError, UpstreamPayload,
};

fn json(text: &str) -> JsonValue {
    parse_json(text).expect("valid JSON")
}

fn float_of(v: Option<&JsonValue>) -> Option<&str> {
    match v {
        Some(JsonValue::Number(JsonNumber::Float(t))) => Some(t.as_str()),
        _ => None,
    }
}

#[test]
fn max_completion_tokens_models() {
    assert!(requires_max_completion_tokens("gpt-5"));
    assert!(requires_max_completion_tokens("openai/GPT-5-mini"));
    assert!(requires_max_completion_tokens("o3-mini"));
    assert!(requires_max_completion_tokens("vendor/o1"));
    assert!(!requires_max_completion_tokens("o3/gpt-4o"));
    assert!(!requires_max_completion_tokens("sonnet-model"));
}

#[test]
fn default_sampling_models() {
    assert!(requires_default_sampling("Kimi-K2.7", "https://OpenCode.ai/zen/go/v1"));
    assert!(requires_default_sampling("moonshot/kimi-k2-7", "https://opencode.ai/zen/go"));
    assert!(!requires_default_sampling("kimi-k2.7", "https://api.moonshot.ai"));
    assert!(!requires_default_sampling("gpt-5", "https://opencode.ai/zen/go"));
}

#[test]
fn upstream_error_variants() {
    let e = UpstreamError::Network("refused".to_string());
    assert!(matches!(e, UpstreamError::Network(ref m) if m == "refused"));
    assert!(matches!(UpstreamError::Timeout, UpstreamError::Timeout));
}

#[test]
fn test_openai_body_drops_sampling_for_kimi_k2_7() {
    let body = json(r#"{"model": "kimi-k2-7", "messages": [{"role": "user", "content": "hello"}], "temperature": 0.3, "top_p": 0.9}"#);

    let result = build_openai_compatible_body(&body, "kimi-k2.7-code", "https://opencode.ai/zen/go/v1/chat/completions");

    assert_eq!(as_str(get(&result, "model")), Some("kimi-k2.7-code"));
    assert!(get(&result, "temperature").is_none());
    assert!(get(&result, "top_p").is_none());
}

#[test]
fn test_openai_body_preserves_sampling_for_other_models() {
    let body = json(r#"{"model": "glm-5-2", "messages": [{"role": "user", "content": "hello"}], "temperature": 0.3, "top_p": 0.9}"#);

    let result = build_openai_compatible_body(&body, "glm-5.2", "https://opencode.ai/zen/go/v1/chat/completions");

    assert_eq!(as_str(get(&result, "model")), Some("glm-5.2"));
    assert_eq!(float_of(get(&result, "temperature")), Some("0.3"));
    assert_eq!(float_of(get(&result, "top_p")), Some("0.9"));
}

#[test]
fn test_openai_body_preserves_sampling_for_non_opencode_kimi() {
    let body = json(r#"{"model": "kimi-k2-7", "messages": [{"role": "user", "content": "hello"}], "temperature": 0.3, "top_p": 0.9}"#);

    let result = build_openai_compatible_body(&body, "kimi-k2-7-code", "https://api.venice.ai/api/v1/chat/completions");

    assert_eq!(as_str(get(&result, "model")), Some("kimi-k2-7-code"));
    assert_eq!(float_of(get(&result, "temperature")), Some("0.3"));
    assert_eq!(float_of(get(&result, "top_p")), Some("0.9"));
}

#[test]
fn test_reference_limit_uses_provider_compatible_token_field() {
    let body = json(r#"{"model": "alias", "messages": [{"role": "user", "content": "hello"}], "max_tokens": 9999}"#);

    for model in ["gpt-5.5", "openai/gpt-5.6-sol", "o3-mini"] {
        let result = apply_output_token_limit(&body, model, false, false, 600);
        assert!(get(&result, "max_tokens").is_none());
        assert_eq!(as_u64(get(&result, "max_completion_tokens")), Some(600));
    }

    let anthropic = apply_output_token_limit(&body, "sonnet", true, false, 600);
    assert_eq!(as_u64(get(&anthropic, "max_tokens")), Some(600));
    assert!(get(&anthropic, "max_completion_tokens").is_none());

    let codex = apply_output_token_limit(&body, "gpt-5.5", false, true, 600);
    assert!(get(&codex, "max_tokens").is_none());
    assert!(get(&codex, "max_completion_tokens").is_none());
}

#[test]
fn test_codex_request_reuses_stable_session_for_header_and_cache_key() {
    let body = json(r#"{"model": "alias", "messages": [{"role": "user", "content": "hello"}], "prompt_cache_key": "conflicting-body-key"}"#);
    let request = build_upstream_request(
        &body,
        "access-token",
        "gpt-5.5",
        "https://chatgpt.com/backend-api/codex/responses",
        false,
        Some((Some("account-id"), None)),
        Some("ses_stable"),
        Some(600),
        "opencode/0.1.0 (linux 6.1; x86_64)",
    );

    assert!(request.headers.iter().any(|(k, v)| k == "session-id" && v == "ses_stable"));
    let text = match &request.payload {
        UpstreamPayload::Codex(text) => text.clone(),
        _ => panic!("expected a Codex payload"),
    };
    let request_body = json(&text);
    assert_eq!(as_str(get(&request_body, "prompt_cache_key")), Some("ses_stable"));
}

#[test]
fn upstream_request_openai_and_anthropic_payloads() {
    let body = json(r#"{"model": "alias", "messages": [{"role": "user", "content": "hi"}], "max_tokens": 10}"#);
    let openai = build_upstream_request(&body, "key", "gpt-4o", "https://api.openai.com/v1/chat/completions", false, None, None, None, "ua");
    assert_eq!(openai.headers, vec![("Authorization".to_string(), "Bearer key".to_string())]);
    match &openai.payload {
        UpstreamPayload::Json(b) => assert_eq!(
            to_json_string(b),
            r#"{"max_tokens":10,"messages":[{"content":"hi","role":"user"}],"model":"gpt-4o"}"#
        ),
        _ => panic!("expected JSON"),
    }
    let anthropic = build_upstream_request(&body, "key", "sonnet", "https://api.anthropic.com/v1/messages", true, None, None, Some(50), "ua");
    assert_eq!(anthropic.headers[0], ("x-api-key".to_string(), "key".to_string()));
    match &anthropic.payload {
        UpstreamPayload::Anthropic(m) => {
            assert_eq!(m.model, "sonnet");
            assert_eq!(m.max_tokens, 50);
            assert_eq!(m.messages.len(), 1);
        },
        _ => panic!("expected Anthropic"),
    }
    let fresh = build_upstream_request(&body, "at", "gpt-5.5", "u", false, Some((None, None)), None, None, "ua");
    let session = fresh.headers.iter().find(|(k, _)| k == "session-id").map(|(_, v)| v.clone()).unwrap();
    assert_eq!(session.len(), 32);
}

#[test]
fn completion_request_bodies() {
    let body = json(r#"{"prompt": "say hi", "max_tokens": 5}"#);
    let anthropic = build_completion_request(&body, "key", "sonnet", "u", true);
    match &anthropic.payload {
        UpstreamPayload::Json(b) => assert_eq!(
            to_json_string(b),
            r#"{"max_tokens":5,"messages":[{"content":"say hi","role":"user"}],"model":"sonnet"}"#
        ),
        _ => panic!("expected JSON"),
    }
    let openai = build_completion_request(&json("null"), "key", "m", "u", false);
    match &openai.payload {
        UpstreamPayload::Json(b) => assert_eq!(to_json_string(b), r#"{"model":"m"}"#),
        _ => panic!("expected JSON"),
    }
}

#[test]
fn json_text_escapes_strings_as_serde_json_does() {
    let v = JsonValue::Object(vec![
        ("a\"b".to_string(), JsonValue::Str("line\nnext\ttab\\ \u{1} é".to_string())),
        ("n".to_string(), JsonValue::Array(vec![
            JsonValue::Number(JsonNumber::PosInt(7)),
            JsonValue::Number(JsonNumber::NegInt(-3)),
            JsonValue::Null,
            JsonValue::Bool(false),
        ])),
    ]);
    assert_eq!(to_json_string(&v), "{\"a\\\"b\":\"line\\nnext\\ttab\\\\ \\u0001 é\",\"n\":[7,-3,null,false]}");
}
