use coderouter_proxy::config_models::{Provider, ProviderModel};
use coderouter_proxy::json::parse_json;
use coderouter_proxy::refresher::{
    apply_model_detail, extract_from_raw_json, model_detail_endpoint, model_from_listing, model_source,
    models_endpoint, providers_due_at, refresh_target, set_provider_models, ListedModel, ModelDetailLimits,
    ModelSource,
};

fn blank(id: &str) -> ProviderModel {
    ProviderModel { id: id.to_string(), context_window: None, max_output_tokens: None, last_refreshed: None, protocol: None }
}

fn provider(id: &str, protocol: &str, enabled: bool, models: Vec<ProviderModel>) -> Provider {
    Provider {
        id: id.to_string(),
        name: id.to_uppercase(),
        protocol: protocol.to_string(),
        base_url: "https://api.test.com/v1".to_string(),
        credential_key: id.to_string(),
        daily_token_quota: None,
        daily_request_quota: None,
        quota_reset_utc_hour: 0,
        enabled,
        models,
        model_overrides: None,
    }
}

fn listed(id: &str) -> ListedModel {
    ListedModel {
        id: id.to_string(),
        context_window: None,
        context_length: None,
        max_output_tokens: None,
        max_completion_tokens: None,
        top_provider_context_length: None,
        top_provider_max_completion_tokens: None,
        spec_available_context_tokens: None,
        spec_max_completion_tokens: None,
    }
}

#[test]
fn endpoints_drop_trailing_slashes() {
    assert_eq!(models_endpoint("https://openrouter.ai/api/v1//"), "https://openrouter.ai/api/v1/models");
    assert_eq!(models_endpoint("https://api.test.com"), "https://api.test.com/models");
    assert_eq!(model_detail_endpoint("https://api.test.com/v1/", "gpt-4o"), "https://api.test.com/v1/models/gpt-4o");
}

#[test]
fn test_extract_from_raw_json_with_pricing() {
    let v = parse_json(r#"{"id":"test-model","context_window":128000,"max_output_tokens":8192,"pricing":{"prompt":0.000003,"completion":0.000015}}"#).unwrap();
    let r = extract_from_raw_json(&v, blank("test-model"), "2026-01-01T00:00:00Z");
    assert_eq!(r.context_window, Some(128000));
    assert_eq!(r.max_output_tokens, Some(8192));
    assert_eq!(r.last_refreshed.as_deref(), Some("2026-01-01T00:00:00Z"));
    assert_eq!(r.id, "test-model");
}

#[test]
fn test_extract_from_raw_json_with_cost_per_token() {
    let v = parse_json(r#"{"id":"test-model","context_length":200000,"max_completion_tokens":64000,"input_cost_per_token":0.000003,"output_cost_per_token":0.000015}"#).unwrap();
    let r = extract_from_raw_json(&v, blank("test-model"), "now");
    assert_eq!(r.context_window, Some(200000));
    assert_eq!(r.max_output_tokens, Some(64000));
}

#[test]
fn test_extract_from_raw_json_with_model_spec() {
    let v = parse_json(r#"{"id":"qwen3-235b-a22b","model_spec":{"availableContextTokens":131072,"maxCompletionTokens":24000,"pricing":{"input":{"usd":0.15},"output":{"usd":0.60}}}}"#).unwrap();
    let r = extract_from_raw_json(&v, blank("qwen3-235b-a22b"), "now");
    assert_eq!(r.context_window, Some(131072));
    assert_eq!(r.max_output_tokens, Some(24000));
}

#[test]
fn test_extract_from_raw_json_model_spec_preserves_existing() {
    let v = parse_json(r#"{"id":"test","context_window":64000,"model_spec":{"availableContextTokens":131072}}"#).unwrap();
    let mut m = blank("test");
    m.context_window = Some(64000);
    let r = extract_from_raw_json(&v, m, "now");
    assert_eq!(r.context_window, Some(64000));
}

#[test]
fn raw_json_length_fields_only_fill_missing_limits() {
    let v = parse_json(r#"{"context_length":9,"max_completion_tokens":7}"#).unwrap();
    let mut m = blank("m");
    m.context_window = Some(100);
    m.max_output_tokens = Some(50);
    let r = extract_from_raw_json(&v, m, "now");
    assert_eq!(r.context_window, Some(100));
    assert_eq!(r.max_output_tokens, Some(50));
    // context_window and max_output_tokens replace what was there.
    let v2 = parse_json(r#"{"context_window":9,"max_output_tokens":7}"#).unwrap();
    let mut m2 = blank("m");
    m2.context_window = Some(100);
    m2.max_output_tokens = Some(50);
    let r2 = extract_from_raw_json(&v2, m2, "now");
    assert_eq!(r2.context_window, Some(9));
    assert_eq!(r2.max_output_tokens, Some(7));
}

#[test]
fn raw_json_that_is_no_object_changes_only_the_time() {
    let v = parse_json("[1,2,3]").unwrap();
    let mut m = blank("m");
    m.context_window = Some(5);
    let r = extract_from_raw_json(&v, m, "later");
    assert_eq!(r.context_window, Some(5));
    assert_eq!(r.max_output_tokens, None);
    assert_eq!(r.last_refreshed.as_deref(), Some("later"));
    // A string or negative limit is not read.
    let v2 = parse_json(r#"{"context_window":"128000","max_output_tokens":-1}"#).unwrap();
    let r2 = extract_from_raw_json(&v2, blank("m"), "now");
    assert_eq!(r2.context_window, None);
    assert_eq!(r2.max_output_tokens, None);
}

#[test]
fn listing_prefers_the_most_specific_field() {
    let mut e = listed("anthropic/sonnet-4");
    e.context_length = Some(200000);
    e.top_provider_context_length = Some(100000);
    e.top_provider_max_completion_tokens = Some(64000);
    e.spec_max_completion_tokens = Some(1);
    let m = model_from_listing(&e, "t");
    assert_eq!(m.id, "anthropic/sonnet-4");
    assert_eq!(m.context_window, Some(200000));
    assert_eq!(m.max_output_tokens, Some(64000));
    assert_eq!(m.last_refreshed.as_deref(), Some("t"));
    assert_eq!(m.protocol, None);

    let mut f = listed("qwen");
    f.spec_available_context_tokens = Some(131072);
    f.spec_max_completion_tokens = Some(24000);
    let n = model_from_listing(&f, "t");
    assert_eq!(n.context_window, Some(131072));
    assert_eq!(n.max_output_tokens, Some(24000));
    assert_eq!(model_from_listing(&listed("x"), "t").context_window, None);
}

#[test]
fn detail_overrides_only_what_it_gives() {
    let mut m = blank("m");
    m.context_window = Some(1000);
    m.max_output_tokens = Some(100);
    let d = ModelDetailLimits { context_window: None, context_length: Some(2000), max_output_tokens: None, max_completion_tokens: None };
    let r = apply_model_detail(m, &d);
    assert_eq!(r.context_window, Some(2000));
    assert_eq!(r.max_output_tokens, Some(100));
    let d2 = ModelDetailLimits { context_window: Some(3), context_length: Some(4), max_output_tokens: Some(5), max_completion_tokens: Some(6) };
    let r2 = apply_model_detail(r, &d2);
    assert_eq!(r2.context_window, Some(3));
    assert_eq!(r2.max_output_tokens, Some(5));
}

#[test]
fn model_sources() {
    let mut codex = provider("c", "openai-codex", true, vec![]);
    codex.model_overrides = Some(vec![blank("x")]);
    assert_eq!(model_source(&codex), ModelSource::CodexDiscovery);
    let mut over = provider("o", "anthropic", true, vec![]);
    over.model_overrides = Some(vec![blank("x")]);
    assert_eq!(model_source(&over), ModelSource::Overrides);
    let mut empty = provider("a", "anthropic", true, vec![]);
    empty.model_overrides = Some(vec![]);
    assert_eq!(model_source(&empty), ModelSource::AnthropicCatalogue);
    assert_eq!(model_source(&provider("p", "openai", true, vec![])), ModelSource::OpenAiCompatible);
}

#[test]
fn due_providers_are_enabled_and_stale() {
    let mut fresh = blank("m");
    fresh.last_refreshed = Some("2026-01-01T00:00:00Z".to_string());
    let now_ms: i64 = 1_767_225_600_000 + 3_600_000; // one hour after the refresh
    let ps = vec![
        provider("a", "openai", true, vec![]),
        provider("b", "openai", false, vec![]),
        provider("c", "openai", true, vec![fresh.clone()]),
        provider("d", "openai", true, vec![blank("no-time")]),
    ];
    assert_eq!(providers_due_at(&ps, 24, now_ms), vec![0, 3]);
    assert_eq!(providers_due_at(&ps, 1, now_ms), vec![0, 2, 3]);
}

#[test]
fn refresh_target_errors() {
    let ps = vec![provider("a", "openai", false, vec![]), provider("b", "openai", true, vec![])];
    assert_eq!(refresh_target(&ps, "b"), Ok(1));
    assert_eq!(refresh_target(&ps, "a"), Err("Provider 'a' is disabled".to_string()));
    assert_eq!(refresh_target(&ps, "z"), Err("Provider 'z' not found".to_string()));
}

#[test]
fn set_provider_models_replaces_only_the_first_match() {
    let mut ps = vec![
        provider("a", "openai", true, vec![blank("old")]),
        provider("b", "openai", true, vec![]),
        provider("a", "openai", true, vec![blank("other")]),
    ];
    set_provider_models(&mut ps, "a", vec![blank("new1"), blank("new2")]);
    assert_eq!(ps.len(), 3);
    assert_eq!(ps[0].models.iter().map(|m| m.id.as_str()).collect::<Vec<_>>(), vec!["new1", "new2"]);
    assert_eq!(ps[0].name, "A");
    assert_eq!(ps[1].id, "b");
    assert_eq!(ps[2].models[0].id, "other");
    set_provider_models(&mut ps, "zzz", vec![]);
    assert_eq!(ps[0].models.len(), 2);
}

#[test]
fn test_extract_from_raw_json_model_spec_fills_missing() {
    let v = parse_json(r#"{"id":"test","model_spec":{"availableContextTokens":131072,"maxCompletionTokens":24000,"pricing":{"input":{"usd":0.15},"output":{"usd":0.60}}}}"#).unwrap();
    let r = extract_from_raw_json(&v, blank("test"), "now");
    assert_eq!(r.context_window, Some(131072));
    assert_eq!(r.max_output_tokens, Some(24000));
}

#[test]
fn test_extract_from_raw_json_string_pricing() {
    let v = parse_json(r#"{"id":"test-model","context_window":128000,"pricing":{"prompt":"0.000003","completion":"0.000015"}}"#).unwrap();
    let r = extract_from_raw_json(&v, blank("test-model"), "now");
    assert_eq!(r.context_window, Some(128000));
}
