use coderouter_proxy::config_models::{
    effective_moa_input_tokens, validate_group_aggregation, AggregationConfig, AppConfig,
    FailoverConfig, Group, GroupEntry, MoaFanoutMode, Provider, ProviderModel,
};

fn failover_config() -> FailoverConfig {
    FailoverConfig {
        on_429: true,
        on_quota_exhausted: true,
        on_consecutive_errors: true,
        consecutive_error_threshold: 5,
        on_latency_timeout: true,
        latency_timeout_ms: 90000,
        latency_timeout_cooldown_ms: 60000,
        consecutive_error_cooldown_ms: 600000,
        max_response_duration_ms: 1_200_000,
    }
}

fn group(id: &str, aggregation_config: Option<AggregationConfig>) -> Group {
    Group {
        id: id.to_string(),
        alias: id.to_string(),
        display_name: id.to_string(),
        entries: vec![],
        failover_config: failover_config(),
        aggregation_config,
    }
}

fn entry(provider_id: &str, model_id: &str, priority: u32) -> GroupEntry {
    GroupEntry {
        provider_id: provider_id.to_string(),
        model_id: model_id.to_string(),
        priority,
        daily_token_quota_override: None,
        enabled: true,
        status: "active".to_string(),
        cooldown_until: None,
    }
}

fn routed_group(id: &str, provider_id: &str, model_id: &str) -> Group {
    let mut group = group(id, None);
    group.entries.push(entry(provider_id, model_id, 1));
    group
}

fn model(id: &str, context: Option<u64>, output: Option<u64>, protocol: Option<&str>) -> ProviderModel {
    ProviderModel {
        id: id.to_string(),
        context_window: context,
        max_output_tokens: output,
        last_refreshed: None,
        protocol: protocol.map(|p| p.to_string()),
    }
}

fn provider(id: &str, model_id: &str, context: u64, output: u64, protocol: &str) -> Provider {
    Provider {
        id: id.to_string(),
        name: id.to_string(),
        protocol: protocol.to_string(),
        base_url: "https://api.example.com/v1".to_string(),
        credential_key: id.to_string(),
        daily_token_quota: None,
        daily_request_quota: None,
        quota_reset_utc_hour: 0,
        enabled: true,
        models: vec![model(model_id, Some(context), Some(output), None)],
        model_overrides: None,
    }
}

fn moa_config(refs: &[&str], aggregator: &str) -> AggregationConfig {
    let mut c = AggregationConfig::default();
    c.enabled = true;
    c.reference_group_ids = refs.iter().map(|r| r.to_string()).collect();
    c.aggregator_group_id = Some(aggregator.to_string());
    c
}

#[test]
fn test_model_protocol_override_takes_precedence() {
    let mut provider = provider("provider", "model", 100_000, 10_000, "openai");
    provider.models[0].protocol = Some("anthropic".to_string());
    provider.model_overrides = Some(vec![model("model", None, None, Some("openai-codex"))]);

    assert_eq!(provider.resolve_model_protocol("model"), "openai-codex");
    assert_eq!(provider.resolve_model_protocol("unknown"), "openai");
}

#[test]
fn test_effective_moa_input_reserves_reference_summary() {
    let groups = vec![
        group("moa", Some(moa_config(&["ref"], "agg"))),
        routed_group("agg", "agg-provider", "agg-model"),
        routed_group("ref", "ref-provider", "ref-model"),
    ];
    let providers = vec![
        provider("agg-provider", "agg-model", 100_000, 10_000, "openai"),
        provider("ref-provider", "ref-model", 200_000, 4_000, "openai"),
    ];
    assert_eq!(effective_moa_input_tokens(&groups[0], &groups, &providers), Some(89_202));
}

#[test]
fn test_effective_moa_input_honors_reference_context() {
    let groups = vec![
        group("moa", Some(moa_config(&["ref"], "agg"))),
        routed_group("agg", "agg-provider", "agg-model"),
        routed_group("ref", "ref-provider", "ref-model"),
    ];
    let providers = vec![
        provider("agg-provider", "agg-model", 100_000, 10_000, "openai"),
        provider("ref-provider", "ref-model", 20_000, 4_000, "openai"),
    ];
    assert_eq!(effective_moa_input_tokens(&groups[0], &groups, &providers), Some(18_376));
}

#[test]
fn test_effective_moa_input_pairs_context_and_output_per_route() {
    let mut aggregator = routed_group("agg", "small-provider", "small-model");
    aggregator.entries.push(entry("large-provider", "large-model", 2));
    let groups = vec![
        group("moa", Some(moa_config(&["ref"], "agg"))),
        aggregator,
        routed_group("ref", "ref-provider", "ref-model"),
    ];
    let providers = vec![
        provider("small-provider", "small-model", 128_000, 8_000, "openai"),
        provider("large-provider", "large-model", 1_000_000, 128_000, "openai"),
        provider("ref-provider", "ref-model", 500_000, 4_000, "openai"),
    ];
    assert_eq!(effective_moa_input_tokens(&groups[0], &groups, &providers), Some(119_202));
}

#[test]
fn test_effective_moa_input_uses_model_output_when_cap_is_unenforceable() {
    let mut config = moa_config(&["ref"], "agg");
    config.reference_max_tokens = Some(600);
    let groups = vec![
        group("moa", Some(config)),
        routed_group("agg", "agg-provider", "agg-model"),
        routed_group("ref", "ref-provider", "ref-model"),
    ];
    let providers = vec![
        provider("agg-provider", "agg-model", 100_000, 10_000, "openai"),
        provider("ref-provider", "ref-model", 200_000, 4_000, "openai-codex"),
    ];
    assert_eq!(effective_moa_input_tokens(&groups[0], &groups, &providers), Some(85_802));
}

#[test]
fn test_validate_group_aggregation_rejects_invalid_reference_reasoning_effort() {
    let mut config = moa_config(&["ref"], "ref");
    config.reference_reasoning_efforts = vec![("ref".to_string(), "extreme".to_string())];
    let groups = vec![group("moa", Some(config)), group("ref", None)];
    assert!(validate_group_aggregation(&groups)
        .unwrap_err()
        .contains("invalid reasoning effort"));
}

#[test]
fn test_validate_group_aggregation_rejects_invalid_aggregator_reasoning_effort() {
    let mut config = moa_config(&["ref"], "ref");
    config.aggregator_reasoning_effort = Some("extreme".to_string());
    let groups = vec![group("moa", Some(config)), group("ref", None)];
    assert!(validate_group_aggregation(&groups)
        .unwrap_err()
        .contains("invalid aggregator reasoning effort"));
}

#[test]
fn test_validate_group_aggregation_rejects_self_reference() {
    let groups = vec![group("moa", Some(moa_config(&["moa"], "ref"))), group("ref", None)];
    assert!(validate_group_aggregation(&groups)
        .unwrap_err()
        .contains("cannot reference itself"));
}

#[test]
fn test_validate_group_aggregation_rejects_missing_group() {
    let groups = vec![group("moa", Some(moa_config(&["missing"], "ref"))), group("ref", None)];
    assert!(validate_group_aggregation(&groups)
        .unwrap_err()
        .contains("missing group"));
}

#[test]
fn test_validate_group_aggregation_rejects_nested_moa() {
    let nested = group("nested", Some(moa_config(&["ref"], "ref")));
    let moa = group("moa", Some(moa_config(&["nested"], "ref")));
    let groups = vec![moa, nested, group("ref", None)];
    assert!(validate_group_aggregation(&groups)
        .unwrap_err()
        .contains("MoA-enabled group"));
}

#[test]
fn test_aggregation_config_nested_defaults() {
    let mut config = AggregationConfig::default();
    config.enabled = true;
    assert!(config.enabled);
    assert!(config.reference_group_ids.is_empty());
    assert!(config.aggregator_group_id.is_none());
    assert_eq!(config.fanout, MoaFanoutMode::PerIteration);
    assert_eq!(config.reference_max_tokens, Some(600));
    assert!(config.reference_reasoning_efforts.is_empty());
    assert!(config.aggregator_reasoning_effort.is_none());
    assert!(!config.require_all_references);
}

#[test]
fn test_app_config_defaults() {
    let config = AppConfig::default();
    assert_eq!(config.proxy_port, 4141);
    assert_eq!(config.proxy_host, "127.0.0.1");
    assert_eq!(config.refresh_interval_hours, 24);
}

#[test]
fn test_validate_group_aggregation_exact_messages() {
    let groups = vec![group("moa", Some(moa_config(&["moa"], "ref"))), group("ref", None)];
    assert_eq!(
        validate_group_aggregation(&groups).unwrap_err(),
        "MoA group 'moa' cannot reference itself"
    );
    let groups = vec![group("moa", Some(moa_config(&["ref"], "moa"))), group("ref", None)];
    assert_eq!(
        validate_group_aggregation(&groups).unwrap_err(),
        "MoA group 'moa' cannot use itself as the aggregator"
    );
    let groups = vec![group("moa", Some(moa_config(&["ref"], "gone"))), group("ref", None)];
    assert_eq!(
        validate_group_aggregation(&groups).unwrap_err(),
        "MoA group 'moa' uses missing aggregator group id 'gone'"
    );
    let mut config = moa_config(&["ref"], "ref");
    config.reference_max_tokens = Some(0);
    let groups = vec![group("moa", Some(config)), group("ref", None)];
    assert_eq!(
        validate_group_aggregation(&groups).unwrap_err(),
        "MoA group 'moa' reference max tokens must be greater than zero"
    );
    let groups = vec![group("moa", Some(moa_config(&[], "ref"))), group("ref", None)];
    assert_eq!(
        validate_group_aggregation(&groups).unwrap_err(),
        "MoA group 'moa' must reference at least one group"
    );
    let mut config = moa_config(&["ref"], "ref");
    config.aggregator_group_id = None;
    let groups = vec![group("moa", Some(config)), group("ref", None)];
    assert_eq!(
        validate_group_aggregation(&groups).unwrap_err(),
        "MoA group 'moa' must have an aggregator group"
    );
    let mut config = moa_config(&["ref"], "ref");
    config.aggregator_reasoning_effort = Some("ultra".to_string());
    let groups = vec![group("moa", Some(config)), group("ref", None)];
    assert_eq!(
        validate_group_aggregation(&groups).unwrap_err(),
        "MoA group 'moa' has invalid aggregator reasoning effort 'ultra' (allowed: none, low, medium, high, xhigh, max)"
    );
}

#[test]
fn test_validate_group_aggregation_accepts_valid_and_disabled_configs() {
    let mut config = moa_config(&["ref"], "agg");
    config.reference_reasoning_efforts = vec![("ref".to_string(), "high".to_string())];
    config.aggregator_reasoning_effort = Some("xhigh".to_string());
    let mut disabled = moa_config(&["missing"], "missing");
    disabled.enabled = false;
    let groups = vec![
        group("moa", Some(config)),
        group("ref", None),
        group("agg", None),
        group("off", Some(disabled)),
    ];
    assert!(validate_group_aggregation(&groups).is_ok());
    assert!(validate_group_aggregation(&[]).is_ok());
}

#[test]
fn test_resolve_model_meta_field_precedence() {
    let mut p = provider("p", "m", 100, 10, "openai");
    assert_eq!(p.resolve_model_meta("m"), Some((Some(100), Some(10))));
    assert_eq!(p.resolve_model_meta("x"), None);
    p.model_overrides = Some(vec![model("m", None, Some(20), None), model("o", Some(7), None, None)]);
    assert_eq!(p.resolve_model_meta("m"), Some((Some(100), Some(20))));
    assert_eq!(p.resolve_model_meta("o"), Some((Some(7), None)));
}

#[test]
fn test_effective_moa_input_none_cases() {
    let providers = vec![provider("agg-provider", "agg-model", 100_000, 10_000, "openai")];
    let plain = routed_group("agg", "agg-provider", "agg-model");
    assert_eq!(effective_moa_input_tokens(&plain, &[], &providers), None);
    let groups = vec![
        group("moa", Some(moa_config(&["missing"], "agg"))),
        routed_group("agg", "agg-provider", "agg-model"),
    ];
    assert_eq!(effective_moa_input_tokens(&groups[0], &groups, &providers), None);
    let groups = vec![
        group("moa", Some(moa_config(&["agg"], "agg"))),
        routed_group("agg", "agg-provider", "unknown-model"),
    ];
    assert_eq!(effective_moa_input_tokens(&groups[0], &groups, &providers), None);
}
