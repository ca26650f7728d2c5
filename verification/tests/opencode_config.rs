use coderouter_proxy::config_models::{FailoverConfig, Group, GroupEntry, Provider, ProviderModel};
use coderouter_proxy::json::{as_bool, as_str, as_u64, get, parse_json, JsonValue};
use coderouter_proxy::json_model::to_pretty_string;
use coderouter_proxy::opencode_config::{
    build_provider_block, current_agent_mapping, inject_provider_into, is_group_alias_referenced,
    preview_opencode_config, remove_agent_models_from, remove_provider_from, set_agent_models_into, AgentMapping,
};

fn test_group() -> Group {
    Group {
        id: "glm-5-router".to_string(),
        alias: "glm-5-router".to_string(),
        display_name: "GLM-5 (Multi-Account)".to_string(),
        entries: vec![GroupEntry {
            provider_id: "test-provider".to_string(),
            model_id: "glm-4.5".to_string(),
            priority: 1,
            daily_token_quota_override: None,
            enabled: true,
            status: "active".to_string(),
            cooldown_until: None,
        }],
        failover_config: FailoverConfig {
            on_429: true,
            on_quota_exhausted: true,
            on_consecutive_errors: true,
            consecutive_error_threshold: 5,
            on_latency_timeout: true,
            latency_timeout_ms: 30000,
            latency_timeout_cooldown_ms: 300000,
            consecutive_error_cooldown_ms: 600000,
            max_response_duration_ms: 1_200_000,
        },
        aggregation_config: None,
    }
}

fn model(id: &str, context: Option<u64>, output: Option<u64>) -> ProviderModel {
    ProviderModel {
        id: id.to_string(),
        context_window: context,
        max_output_tokens: output,
        last_refreshed: None,
        protocol: None,
    }
}

fn provider_with(id: &str, models: Vec<ProviderModel>, overrides: Option<Vec<ProviderModel>>) -> Provider {
    Provider {
        id: id.to_string(),
        name: "Test Provider".to_string(),
        protocol: "openai".to_string(),
        base_url: "https://api.test.com/v1".to_string(),
        credential_key: id.to_string(),
        daily_token_quota: None,
        daily_request_quota: None,
        quota_reset_utc_hour: 0,
        enabled: true,
        models,
        model_overrides: overrides,
    }
}

fn test_provider() -> Provider {
    provider_with("test-provider", vec![model("glm-4.5", Some(128000), Some(8192))], None)
}

fn json(text: &str) -> JsonValue {
    parse_json(text).expect("valid JSON")
}

fn empty_config() -> JsonValue {
    JsonValue::Object(vec![])
}

/// The configuration after injecting the provider block, as it reads back
/// from the text that would be written.
fn injected(config: JsonValue, groups: &[Group], providers: &[Provider]) -> (JsonValue, String) {
    let mut config = config;
    let block = build_provider_block(groups, providers, 4141, &vec![]);
    inject_provider_into(&mut config, block);
    let text = to_pretty_string(&config);
    (json(&text), text)
}

fn reread(config: &JsonValue) -> JsonValue {
    json(&to_pretty_string(config))
}

fn at<'a>(v: &'a JsonValue, path: &[&str]) -> Option<&'a JsonValue> {
    let mut cur = v;
    for key in path {
        cur = get(cur, key)?;
    }
    Some(cur)
}

fn text_at<'a>(v: &'a JsonValue, path: &[&str]) -> Option<&'a str> {
    as_str(at(v, path))
}

fn mapping(build: Option<&str>, plan: Option<&str>, general: Option<&str>, explore: Option<&str>, small: Option<&str>) -> AgentMapping {
    AgentMapping {
        build: build.map(|s| s.to_string()),
        plan: plan.map(|s| s.to_string()),
        general: general.map(|s| s.to_string()),
        explore: explore.map(|s| s.to_string()),
        compaction: None,
        title: None,
        summary: None,
        small_model: small.map(|s| s.to_string()),
    }
}

#[test]
fn test_inject_provider_creates_new_config() {
    let (config, _) = injected(empty_config(), &[test_group()], &[test_provider()]);

    let provider = at(&config, &["provider", "coderouter"]).unwrap();
    assert_eq!(text_at(provider, &["npm"]), Some("@ai-sdk/openai-compatible"));
    assert_eq!(text_at(provider, &["name"]), Some("CodeRouter"));
    assert_eq!(text_at(provider, &["options", "baseURL"]), Some("http://localhost:4141/v1"));
    assert_eq!(text_at(provider, &["options", "apiKey"]), Some("coderouter"));

    let glm_model = at(provider, &["models", "glm-5-router"]).unwrap();
    assert_eq!(text_at(glm_model, &["name"]), Some("GLM-5 (Multi-Account)"));
    assert_eq!(as_u64(at(glm_model, &["limit", "context"])), Some(128000));
    assert_eq!(as_u64(at(glm_model, &["limit", "output"])), Some(8192));
}

#[test]
fn test_inject_provider_preserves_existing_keys() {
    let existing = json(
        r#"{"model": "anthropic/sonnet-4-5", "autoupdate": true, "provider": {"anthropic": {"options": {"apiKey": "sk-test"}}}}"#,
    );
    let (config, _) = injected(existing, &[test_group()], &[test_provider()]);

    assert_eq!(text_at(&config, &["model"]), Some("anthropic/sonnet-4-5"));
    assert_eq!(as_bool(get(&config, "autoupdate")), Some(true));
    assert!(at(&config, &["provider", "anthropic"]).is_some());
    assert!(at(&config, &["provider", "coderouter"]).is_some());
}

#[test]
fn test_inject_provider_overwrites_existing_coderouter() {
    let existing = json(
        r#"{"provider": {"coderouter": {"npm": "old-value", "name": "Old Router", "options": {"baseURL": "http://localhost:9999/v1", "apiKey": "old-key"}, "models": {}}}}"#,
    );
    let (config, _) = injected(existing, &[test_group()], &[test_provider()]);

    assert_eq!(text_at(&config, &["provider", "coderouter", "name"]), Some("CodeRouter"));
    assert_eq!(text_at(&config, &["provider", "coderouter", "options", "baseURL"]), Some("http://localhost:4141/v1"));
}

#[test]
fn test_remove_provider_removes_coderouter() {
    let mut config = json(
        r#"{"model": "anthropic/sonnet-4-5", "provider": {"anthropic": {"options": {"apiKey": "sk-test"}}, "coderouter": {"npm": "@ai-sdk/openai-compatible", "name": "CodeRouter", "options": {"baseURL": "http://localhost:4141/v1", "apiKey": "coderouter"}, "models": {}}}}"#,
    );
    remove_provider_from(&mut config);
    let config = reread(&config);

    assert!(at(&config, &["provider", "coderouter"]).is_none());
    assert!(at(&config, &["provider", "anthropic"]).is_some());
    assert_eq!(text_at(&config, &["model"]), Some("anthropic/sonnet-4-5"));
}

#[test]
fn test_remove_provider_cleans_up_empty_provider_object() {
    let mut config = json(
        r#"{"model": "anthropic/sonnet-4-5", "provider": {"coderouter": {"npm": "@ai-sdk/openai-compatible", "name": "CodeRouter", "options": {"baseURL": "http://localhost:4141/v1", "apiKey": "coderouter"}, "models": {}}}}"#,
    );
    remove_provider_from(&mut config);
    let config = reread(&config);

    assert!(get(&config, "provider").is_none());
    assert_eq!(text_at(&config, &["model"]), Some("anthropic/sonnet-4-5"));
}

#[test]
fn test_set_agent_models_sets_all_agents() {
    let mut config = json(r#"{"model": "anthropic/sonnet-4-5"}"#);
    let m = mapping(
        Some("glm-5-router"),
        Some("fast-model-router"),
        Some("glm-5-router"),
        Some("fast-model-router"),
        Some("fast-model-router"),
    );
    set_agent_models_into(&mut config, &m);
    let config = reread(&config);

    assert_eq!(text_at(&config, &["agent", "build", "model"]), Some("coderouter/glm-5-router"));
    assert_eq!(text_at(&config, &["agent", "plan", "model"]), Some("coderouter/fast-model-router"));
    assert_eq!(text_at(&config, &["agent", "general", "model"]), Some("coderouter/glm-5-router"));
    assert_eq!(text_at(&config, &["agent", "explore", "model"]), Some("coderouter/fast-model-router"));
    assert_eq!(text_at(&config, &["small_model"]), Some("coderouter/fast-model-router"));
    assert_eq!(text_at(&config, &["model"]), Some("anthropic/sonnet-4-5"));
}

#[test]
fn test_set_agent_models_partial_mapping() {
    let mut config = json(r#"{"agent": {"build": {"model": "openai/gpt-4", "tools": {"write": true}}}}"#);
    let m = mapping(Some("glm-5-router"), None, None, None, Some("fast-model-router"));
    set_agent_models_into(&mut config, &m);
    let config = reread(&config);

    assert_eq!(text_at(&config, &["agent", "build", "model"]), Some("coderouter/glm-5-router"));
    assert!(at(&config, &["agent", "build", "tools"]).is_some());
    assert_eq!(text_at(&config, &["small_model"]), Some("coderouter/fast-model-router"));
}

#[test]
fn test_remove_agent_models_removes_coderouter_models() {
    let mut config = json(
        r#"{"model": "anthropic/sonnet-4-5", "small_model": "coderouter/fast-model-router", "agent": {"build": {"model": "coderouter/glm-5-router", "tools": {"write": true}}, "plan": {"model": "coderouter/fast-model-router"}, "general": {"model": "openai/gpt-4"}}}"#,
    );
    remove_agent_models_from(&mut config);
    let config = reread(&config);

    assert!(at(&config, &["agent", "build", "model"]).is_none());
    assert!(at(&config, &["agent", "build", "tools"]).is_some());
    assert!(at(&config, &["agent", "plan"]).is_none());
    assert_eq!(text_at(&config, &["agent", "general", "model"]), Some("openai/gpt-4"));
    assert!(get(&config, "small_model").is_none());
}

#[test]
fn test_remove_agent_models_cleans_up_empty_agent_object() {
    let mut config = json(r#"{"model": "anthropic/sonnet-4-5", "agent": {"build": {"model": "coderouter/glm-5-router"}}}"#);
    remove_agent_models_from(&mut config);
    let config = reread(&config);

    assert!(get(&config, "agent").is_none());
    assert_eq!(text_at(&config, &["model"]), Some("anthropic/sonnet-4-5"));
}

#[test]
fn test_inject_provider_omits_limit_when_null() {
    let provider = provider_with("test-provider", vec![model("unknown-model", None, None)], None);
    let (config, _) = injected(empty_config(), &[test_group()], &[provider]);

    let glm_model = at(&config, &["provider", "coderouter", "models", "glm-5-router"]).unwrap();
    assert!(get(glm_model, "limit").is_none());
    assert_eq!(text_at(glm_model, &["name"]), Some("GLM-5 (Multi-Account)"));
}

#[test]
fn test_preview_opencode_config_returns_json_string() {
    let result = preview_opencode_config(empty_config(), &[test_group()], &[test_provider()], 4141, None, &vec![]);
    let config = json(&result);
    assert!(at(&config, &["provider", "coderouter"]).is_some());
}

#[test]
fn test_preview_opencode_config_with_agent_mapping() {
    let m = mapping(Some("glm-5-router"), None, None, None, Some("fast-model-router"));
    let result = preview_opencode_config(empty_config(), &[test_group()], &[test_provider()], 4141, Some(&m), &vec![]);
    let config = json(&result);
    assert_eq!(text_at(&config, &["agent", "build", "model"]), Some("coderouter/glm-5-router"));
    assert_eq!(text_at(&config, &["small_model"]), Some("coderouter/fast-model-router"));
}

#[test]
fn test_inject_provider_uses_2_space_indent() {
    let (_, contents) = injected(empty_config(), &[test_group()], &[test_provider()]);
    let lines: Vec<&str> = contents.lines().collect();
    assert!(lines.iter().any(|l| l.starts_with("  \"provider\"")));
    assert!(lines.iter().any(|l| l.starts_with("    \"coderouter\"")));
}

#[test]
fn test_inject_provider_skips_disabled_entries() {
    let mut group = test_group();
    group.entries[0].enabled = false;
    group.entries.push(GroupEntry {
        provider_id: "test-provider-2".to_string(),
        model_id: "glm-4.5-v2".to_string(),
        priority: 2,
        daily_token_quota_override: None,
        enabled: true,
        status: "active".to_string(),
        cooldown_until: None,
    });
    let provider2 = provider_with("test-provider-2", vec![model("glm-4.5-v2", Some(64000), Some(4096))], None);
    let (config, _) = injected(empty_config(), &[group], &[test_provider(), provider2]);

    let glm_model = at(&config, &["provider", "coderouter", "models", "glm-5-router"]).unwrap();
    assert_eq!(as_u64(at(glm_model, &["limit", "context"])), Some(64000));
    assert_eq!(as_u64(at(glm_model, &["limit", "output"])), Some(4096));
}

#[test]
fn test_get_current_agent_mapping_with_coderouter_assignments() {
    let config = json(
        r#"{"model": "anthropic/sonnet-4-5", "agent": {"build": {"model": "coderouter/glm-5-router"}, "plan": {"model": "coderouter/fast-model"}, "general": {"model": "coderouter/glm-5-router"}, "explore": {"model": "coderouter/fast-model"}, "compaction": {"model": "coderouter/small"}, "title": {"model": "coderouter/small"}, "summary": {"model": "coderouter/small"}}, "small_model": "coderouter/fast-model"}"#,
    );
    let mapping = current_agent_mapping(&config).unwrap();

    assert_eq!(mapping.build, Some("glm-5-router".to_string()));
    assert_eq!(mapping.plan, Some("fast-model".to_string()));
    assert_eq!(mapping.general, Some("glm-5-router".to_string()));
    assert_eq!(mapping.explore, Some("fast-model".to_string()));
    assert_eq!(mapping.compaction, Some("small".to_string()));
    assert_eq!(mapping.title, Some("small".to_string()));
    assert_eq!(mapping.summary, Some("small".to_string()));
    assert_eq!(mapping.small_model, Some("fast-model".to_string()));
}

#[test]
fn test_get_current_agent_mapping_no_coderouter_assignments() {
    let config = json(
        r#"{"model": "anthropic/sonnet-4-5", "agent": {"build": {"model": "openai/gpt-4"}, "plan": {"model": "anthropic/sonnet"}}}"#,
    );
    let mapping = current_agent_mapping(&config).unwrap();

    assert_eq!(mapping.build, None);
    assert_eq!(mapping.plan, None);
    assert_eq!(mapping.general, None);
    assert_eq!(mapping.explore, None);
    assert_eq!(mapping.compaction, None);
    assert_eq!(mapping.title, None);
    assert_eq!(mapping.summary, None);
    assert_eq!(mapping.small_model, None);
}

#[test]
fn test_get_current_agent_mapping_mixed_assignments() {
    let config = json(
        r#"{"agent": {"build": {"model": "coderouter/glm-5-router"}, "plan": {"model": "openai/gpt-4"}, "general": {"model": "coderouter/fast-model"}}}"#,
    );
    let mapping = current_agent_mapping(&config).unwrap();

    assert_eq!(mapping.build, Some("glm-5-router".to_string()));
    assert_eq!(mapping.plan, None);
    assert_eq!(mapping.general, Some("fast-model".to_string()));
}

#[test]
fn test_get_current_agent_mapping_small_model() {
    let config = json(r#"{"small_model": "coderouter/fast-model", "agent": {"build": {"model": "coderouter/glm-5-router"}}}"#);
    let mapping = current_agent_mapping(&config).unwrap();

    assert_eq!(mapping.build, Some("glm-5-router".to_string()));
    assert_eq!(mapping.small_model, Some("fast-model".to_string()));
}

#[test]
fn test_get_current_agent_mapping_empty_config() {
    let mapping = current_agent_mapping(&json("{}")).unwrap();

    assert_eq!(mapping.build, None);
    assert_eq!(mapping.plan, None);
    assert_eq!(mapping.general, None);
    assert_eq!(mapping.explore, None);
    assert_eq!(mapping.compaction, None);
    assert_eq!(mapping.title, None);
    assert_eq!(mapping.summary, None);
    assert_eq!(mapping.small_model, None);
}

#[test]
fn test_get_current_agent_mapping_non_coderouter_small_model() {
    let mapping = current_agent_mapping(&json(r#"{"small_model": "openai/gpt-4o-mini"}"#)).unwrap();
    assert_eq!(mapping.small_model, None);
}

#[test]
fn test_remove_agent_models_preserves_non_coderouter_agents() {
    let mut config = json(
        r#"{"agent": {"build": {"model": "coderouter/glm-5-router"}, "custom-helper": {"model": "anthropic/sonnet-4-5", "prompt": "Tidy code"}}}"#,
    );
    remove_agent_models_from(&mut config);
    let config = reread(&config);

    assert!(at(&config, &["agent", "build"]).is_none());
    assert_eq!(text_at(&config, &["agent", "custom-helper", "model"]), Some("anthropic/sonnet-4-5"));
    assert_eq!(text_at(&config, &["agent", "custom-helper", "prompt"]), Some("Tidy code"));
}

#[test]
fn test_resolve_model_meta_base_only() {
    let provider = provider_with("test", vec![model("gpt-4", Some(128000), Some(4096))], None);
    assert_eq!(provider.resolve_model_meta("gpt-4"), Some((Some(128000), Some(4096))));
}

#[test]
fn test_resolve_model_meta_override_only() {
    let provider = provider_with("test", vec![], Some(vec![model("gpt-4", Some(96000), Some(8192))]));
    assert_eq!(provider.resolve_model_meta("gpt-4"), Some((Some(96000), Some(8192))));
}

#[test]
fn test_resolve_model_meta_both_override_fills_gaps() {
    let provider = provider_with(
        "test",
        vec![model("gpt-4", Some(128000), None)],
        Some(vec![model("gpt-4", None, Some(16384))]),
    );
    assert_eq!(provider.resolve_model_meta("gpt-4"), Some((Some(128000), Some(16384))));
}

#[test]
fn test_resolve_model_meta_override_takes_precedence() {
    let provider = provider_with(
        "test",
        vec![model("gpt-4", Some(128000), Some(4096))],
        Some(vec![model("gpt-4", Some(96000), Some(8192))]),
    );
    assert_eq!(provider.resolve_model_meta("gpt-4"), Some((Some(96000), Some(8192))));
}

#[test]
fn test_resolve_model_meta_neither() {
    let provider = provider_with("test", vec![model("gpt-4", None, None)], None);
    assert_eq!(provider.resolve_model_meta("gpt-4"), Some((None, None)));
}

#[test]
fn test_resolve_model_meta_model_not_found() {
    let provider = provider_with("test", vec![], None);
    assert_eq!(provider.resolve_model_meta("nonexistent"), None);
}

#[test]
fn group_alias_reference_checks() {
    let config = json(r#"{"agent": {"build": {"model": "coderouter/fast"}}, "small_model": "coderouter/small"}"#);
    assert!(is_group_alias_referenced(&config, "fast"));
    assert!(is_group_alias_referenced(&config, "small"));
    assert!(!is_group_alias_referenced(&config, "other"));
    assert!(!is_group_alias_referenced(&json("[]"), "fast"));
}

#[test]
fn set_then_read_mapping_round_trip() {
    let mut config = json(r#"{"agent": {"build": {"model": "openai/gpt-4"}}}"#);
    let m = mapping(Some("a"), None, Some("b"), None, Some("c"));
    set_agent_models_into(&mut config, &m);
    let read = current_agent_mapping(&config).unwrap();
    assert_eq!(read.build, Some("a".to_string()));
    assert_eq!(read.plan, None);
    assert_eq!(read.general, Some("b".to_string()));
    assert_eq!(read.small_model, Some("c".to_string()));
    remove_agent_models_from(&mut config);
    let cleared = current_agent_mapping(&config).unwrap();
    assert_eq!(cleared.build, None);
    assert_eq!(cleared.small_model, None);
    assert_eq!(current_agent_mapping(&json("[1]")).unwrap_err(), "Config is not an object");
}
