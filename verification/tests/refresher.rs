use coderouter_proxy::config_models::{Provider, ProviderModel};
use coderouter_proxy::json::{as_str, get, parse_json, JsonNumber, JsonValue};
use coderouter_proxy::refresher::{
    codex_hardcoded_models, codex_models_at, codex_models_from_entries, current_iso_timestamp, needs_refresh,
    needs_refresh_at, select_codex_models, CodexModelEntry, DEFAULT_CODEX_MAX_OUTPUT_TOKENS,
};

fn int_field(v: &JsonValue, key: &str) -> Option<i64> {
    match get(v, key) {
        Some(JsonValue::Number(JsonNumber::PosInt(n))) => Some(*n as i64),
        Some(JsonValue::Number(JsonNumber::NegInt(n))) => Some(*n),
        _ => None,
    }
}

/// The entries of a discovery answer, as the answer's `models` array gives them.
fn entries(text: &str) -> Vec<CodexModelEntry> {
    let v = parse_json(text).unwrap();
    match get(&v, "models") {
        Some(JsonValue::Array(items)) => items
            .iter()
            .map(|m| CodexModelEntry {
                slug: as_str(get(m, "slug")).unwrap().to_string(),
                visibility: as_str(get(m, "visibility")).map(|s| s.to_string()),
                priority: int_field(m, "priority"),
                context_window: int_field(m, "context_window"),
                max_context_window: int_field(m, "max_context_window"),
                max_output_tokens: int_field(m, "max_output_tokens"),
                max_completion_tokens: int_field(m, "max_completion_tokens"),
            })
            .collect(),
        _ => panic!("models array"),
    }
}

fn provider(models: Vec<ProviderModel>, overrides: Option<Vec<ProviderModel>>) -> Provider {
    Provider {
        id: "test".to_string(),
        name: "Test".to_string(),
        protocol: "openai".to_string(),
        base_url: "https://api.test.com".to_string(),
        credential_key: "test".to_string(),
        daily_token_quota: None,
        daily_request_quota: None,
        quota_reset_utc_hour: 0,
        enabled: true,
        models,
        model_overrides: overrides,
    }
}

fn model(last_refreshed: Option<String>) -> ProviderModel {
    ProviderModel {
        id: "test-model".to_string(),
        context_window: None,
        max_output_tokens: None,
        last_refreshed,
        protocol: None,
    }
}

#[test]
fn test_current_iso_timestamp_format() {
    let ts = current_iso_timestamp();
    assert!(ts.ends_with("+00:00") || ts.ends_with('Z'));
    assert!(ts.contains('T'));
}

#[test]
fn test_parse_codex_models_prefers_list_visibility_and_priority() {
    let json = r#"{
        "models": [
            {"slug": "hidden-model", "visibility": "hidden", "priority": 0, "max_context_window": 800000},
            {"slug": "gpt-5.5", "visibility": "list", "priority": 2, "context_window": 400000, "max_completion_tokens": 64000},
            {"slug": "gpt-5.4", "visibility": "list", "priority": 1, "max_context_window": 500000, "context_window": 400000, "max_output_tokens": 128000}
        ]
    }"#;

    let models = codex_models_from_entries(&entries(json), "2026-01-01T00:00:00Z");

    assert_eq!(models.len(), 2);
    assert_eq!(models[0].id, "gpt-5.4");
    assert_eq!(models[0].context_window, Some(500000));
    assert_eq!(models[0].max_output_tokens, Some(128000));
    assert_eq!(models[1].id, "gpt-5.5");
    assert_eq!(models[1].max_output_tokens, Some(64000));
    assert!(models.iter().all(|m| m.last_refreshed.is_some()));
}

#[test]
fn test_parse_codex_models_keeps_all_when_no_list_visibility() {
    let json = r#"{
        "models": [
            {"slug": "alpha", "visibility": "hidden", "priority": 2, "context_window": -1, "max_output_tokens": -1},
            {"slug": "beta", "visibility": "internal", "priority": 1, "context_window": 200000}
        ]
    }"#;

    let models = codex_models_from_entries(&entries(json), "2026-01-01T00:00:00Z");

    assert_eq!(models.iter().map(|m| m.id.as_str()).collect::<Vec<_>>(), vec!["beta", "alpha"]);
    assert_eq!(models[0].context_window, Some(200000));
    assert_eq!(models[0].max_output_tokens, Some(DEFAULT_CODEX_MAX_OUTPUT_TOKENS));
    assert_eq!(models[1].context_window, None);
    assert_eq!(models[1].max_output_tokens, Some(DEFAULT_CODEX_MAX_OUTPUT_TOKENS));
}

#[test]
fn codex_selection_is_stable_by_priority() {
    let json = r#"{"models": [
        {"slug": "a", "priority": 5}, {"slug": "b"}, {"slug": "c", "priority": 5}, {"slug": "d", "priority": -3}
    ]}"#;
    assert_eq!(select_codex_models(&entries(json)), vec![3, 0, 2, 1]);
}

#[test]
fn codex_catalogue_and_overrides() {
    let models = codex_hardcoded_models("2026-01-01T00:00:00Z");
    let m = models.iter().find(|m| m.id == "gpt-5.5").unwrap();
    assert_eq!(m.max_output_tokens, Some(DEFAULT_CODEX_MAX_OUTPUT_TOKENS));
    assert_eq!(m.context_window, Some(400_000));
    assert_eq!(models.len(), 11);

    let over = provider(vec![], Some(vec![model(None)]));
    let restated = codex_models_at(&over, "now");
    assert_eq!(restated.len(), 1);
    assert_eq!(restated[0].last_refreshed, Some("now".to_string()));
    assert_eq!(codex_models_at(&provider(vec![], Some(vec![])), "now").len(), 11);
}

#[test]
fn test_needs_refresh_empty_models() {
    assert!(needs_refresh(&provider(vec![], None), 24));
}

#[test]
fn test_needs_refresh_old_timestamp() {
    let p = provider(vec![model(Some("2020-01-01T00:00:00Z".to_string()))], None);
    assert!(needs_refresh(&p, 24));
}

#[test]
fn test_needs_refresh_recent_timestamp() {
    let p = provider(vec![model(Some(current_iso_timestamp()))], None);
    assert!(!needs_refresh(&p, 24));
}

#[test]
fn needs_refresh_at_boundaries() {
    let p = provider(vec![model(Some("1970-01-02T00:00:00Z".to_string()))], None);
    let day_ms: i64 = 86_400_000;
    assert!(!needs_refresh_at(&p, 24, day_ms + 24 * 3_600_000 - 1));
    assert!(needs_refresh_at(&p, 24, day_ms + 24 * 3_600_000));
    // A refresh time in the future wraps to a huge elapsed time.
    assert!(needs_refresh_at(&p, 24, day_ms - 1000));
    let unreadable = provider(vec![model(Some("yesterday".to_string()))], None);
    assert!(needs_refresh_at(&unreadable, 24, day_ms));
    assert!(needs_refresh_at(&provider(vec![model(None)], None), 24, day_ms));
}

#[test]
fn test_codex_fallback_models_include_gpt_5_5_with_zero_cost() {
    let models = codex_hardcoded_models("2026-01-01T00:00:00Z");
    let model = models.iter().find(|m| m.id == "gpt-5.5").unwrap();
    assert_eq!(model.max_output_tokens, Some(DEFAULT_CODEX_MAX_OUTPUT_TOKENS));
}
