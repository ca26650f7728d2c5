use coderouter_proxy::commands::AgentEnhanceRequest;
use coderouter_proxy::desktop::{
    connection_after_base_probe, connection_failed, connection_headers, connection_step, enhance_call,
    enhanced_text, entry_statuses, has_coderouter_provider, health_from_body, proxy_endpoint, proxy_not_running,
    proxy_refusal, take_chars, ConnectionStep, DESCRIPTION_PROMPT,
};
use coderouter_proxy::json::{parse_json, JsonValue};
use coderouter_proxy::router::EntryStatusResponse;

fn row(pid: &str, idx: u32, status: &str) -> EntryStatusResponse {
    EntryStatusResponse {
        group_id: "g".to_string(),
        group_alias: "fast".to_string(),
        provider_id: pid.to_string(),
        model_id: "m".to_string(),
        priority: 1,
        entry_index: idx,
        status: status.to_string(),
        cooldown_until: None,
        consecutive_errors: 0,
        daily_tokens_used: 0,
        daily_requests_used: 0,
        daily_reset_at: 0,
        cooldown_duration_seconds: None,
    }
}

fn request(text: &str, kind: &str, group: &str) -> AgentEnhanceRequest {
    AgentEnhanceRequest { text: text.to_string(), enhance_type: kind.to_string(), model_group: group.to_string() }
}

#[test]
fn proxy_urls() {
    assert_eq!(proxy_endpoint("127.0.0.1", 4000, "/health"), "http://127.0.0.1:4000/health");
    assert_eq!(proxy_endpoint("localhost", 8080, "/internal/router/status"), "http://localhost:8080/internal/router/status");
}

#[test]
fn connection_headers_by_protocol() {
    let a = connection_headers("anthropic", "sk-1");
    assert_eq!(a, vec![("x-api-key".to_string(), "sk-1".to_string()), ("anthropic-version".to_string(), "2024-06-01".to_string())]);
    let o = connection_headers("openai", "sk-2");
    assert_eq!(o, vec![("Authorization".to_string(), "Bearer sk-2".to_string())]);
}

#[test]
fn connection_steps() {
    match connection_step(200, "") {
        ConnectionStep::Finished(t) => {
            assert!(t.success);
            assert_eq!(t.status_code, Some(200));
            assert_eq!(t.message, "Connection successful (HTTP 200)");
        }
        _ => panic!("finished"),
    }
    assert!(matches!(connection_step(404, "nope"), ConnectionStep::ProbeBaseUrl));
    let long = "x".repeat(300);
    match connection_step(401, &long) {
        ConnectionStep::Finished(t) => {
            assert!(!t.success);
            assert_eq!(t.status_code, Some(401));
            assert_eq!(t.message, format!("Connection failed (HTTP 401): {}", "x".repeat(200)));
        }
        _ => panic!("finished"),
    }
    match connection_step(500, "bad") {
        ConnectionStep::Finished(t) => assert_eq!(t.message, "Connection failed (HTTP 500): bad"),
        _ => panic!("finished"),
    }
}

#[test]
fn connection_after_missing_models_endpoint() {
    let r = connection_after_base_probe(404, Some(200));
    assert!(r.success);
    assert_eq!(r.status_code, Some(200));
    assert_eq!(r.message, "Base URL reachable (HTTP 200) \u{2014} no /models endpoint");
    for base in [Some(404), None] {
        let r = connection_after_base_probe(404, base);
        assert!(r.success);
        assert_eq!(r.status_code, Some(404));
        assert_eq!(r.message, "Provider reachable \u{2014} no /models endpoint (OK if using model overrides)");
    }
    let f = connection_failed("timed out");
    assert!(!f.success);
    assert_eq!(f.status_code, None);
    assert_eq!(f.message, "Connection failed: timed out");
}

#[test]
fn health_reads_status_and_uptime() {
    let body = parse_json(r#"{"status":"ok","uptime_seconds":42}"#).unwrap();
    let h = health_from_body(&body);
    assert!(h.running);
    assert_eq!(h.status.as_deref(), Some("ok"));
    assert_eq!(h.uptime_seconds, Some(42));
    let h2 = health_from_body(&JsonValue::Null);
    assert!(h2.running);
    assert_eq!(h2.status, None);
    assert_eq!(h2.uptime_seconds, None);
    let d = proxy_not_running();
    assert!(!d.running && d.status.is_none() && d.uptime_seconds.is_none());
}

#[test]
fn live_statuses_are_keyed_last_row_first() {
    let rows = vec![row("p1", 0, "active"), row("p2", 1, "cooldown"), row("p1", 0, "quotaexhausted")];
    let s = entry_statuses(&rows);
    assert_eq!(
        s,
        vec![
            ("p1:0".to_string(), "quotaexhausted".to_string()),
            ("p2:1".to_string(), "cooldown".to_string()),
            ("p1:0".to_string(), "active".to_string()),
        ]
    );
}

#[test]
fn coderouter_provider_presence() {
    assert!(has_coderouter_provider(&parse_json(r#"{"provider":{"coderouter":{}}}"#).unwrap()));
    assert!(!has_coderouter_provider(&parse_json(r#"{"provider":{"other":{}}}"#).unwrap()));
    assert!(!has_coderouter_provider(&parse_json(r#"{"model":"x"}"#).unwrap()));
}

#[test]
fn enhance_call_checks_and_builds_body() {
    assert_eq!(enhance_call(&request("t", "description", "  "), "127.0.0.1", 4000).unwrap_err(), "model_group must not be empty");
    assert_eq!(enhance_call(&request("t", "poem", "fast"), "127.0.0.1", 4000).unwrap_err(), "Unknown enhance_type: poem");
    let c = enhance_call(&request("Say \"hi\"", "description", "coderouter/fast"), "127.0.0.1", 4000).unwrap();
    assert_eq!(c.url, "http://127.0.0.1:4000/v1/chat/completions");
    let expected = format!(
        "{{\"max_tokens\":2000,\"messages\":[{{\"content\":{},\"role\":\"system\"}},{{\"content\":\"Say \\\"hi\\\"\",\"role\":\"user\"}}],\"model\":\"fast\",\"temperature\":0.3}}",
        quote(DESCRIPTION_PROMPT)
    );
    assert_eq!(c.body, expected);
    let v = parse_json(&c.body).unwrap();
    assert!(matches!(v, JsonValue::Object(_)));
    let c2 = enhance_call(&request("x", "prompt", "fast"), "h", 1).unwrap();
    assert!(c2.body.contains("\"model\":\"fast\""));
    assert!(c2.body.contains("effective system prompts"));
}

fn quote(s: &str) -> String {
    let mut out = String::from("\"");
    for c in s.chars() {
        match c {
            '"' => out.push_str("\\\""),
            '\n' => out.push_str("\\n"),
            _ => out.push(c),
        }
    }
    out.push('"');
    out
}

#[test]
fn enhanced_text_reads_first_choice() {
    let a = parse_json(r#"{"choices":[{"message":{"role":"assistant","content":"Better."}}]}"#).unwrap();
    assert_eq!(enhanced_text(&a), "Better.");
    let b = parse_json(r#"{"choices":[]}"#).unwrap();
    assert_eq!(enhanced_text(&b), "No response content");
    let c = parse_json(r#"{"choices":[{"message":{"content":null}}]}"#).unwrap();
    assert_eq!(enhanced_text(&c), "No response content");
}

#[test]
fn refusal_and_prefix() {
    assert_eq!(proxy_refusal("502 Bad Gateway", &"y".repeat(250)), format!("Proxy returned 502 Bad Gateway: {}", "y".repeat(200)));
    assert_eq!(take_chars("h\u{e9}llo", 2), "h\u{e9}");
    assert_eq!(take_chars("ab", 5), "ab");
}
