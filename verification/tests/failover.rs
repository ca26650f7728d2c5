use coderouter_proxy::config_models::{FailoverConfig, Group, GroupEntry, Provider, ProviderModel};
use coderouter_proxy::failover::{
    build_exhausted_response, outcome_fits_exec, stream_finished, AttemptOutcome, FailoverRun, Planned,
    Selection,
};
use coderouter_proxy::router::{entry_key, init_router_state_at, EntryStatus, RouterState};

const NOW: i64 = 1_700_000_000_000;

fn provider(id: &str, protocol: &str, base: &str) -> Provider {
    Provider {
        id: id.to_string(),
        name: id.to_string(),
        protocol: protocol.to_string(),
        base_url: base.to_string(),
        credential_key: id.to_string(),
        daily_token_quota: None,
        daily_request_quota: None,
        quota_reset_utc_hour: 0,
        enabled: true,
        models: vec![],
        model_overrides: None,
    }
}

fn entry(pid: &str, priority: u32) -> GroupEntry {
    GroupEntry {
        provider_id: pid.to_string(),
        model_id: "m".to_string(),
        priority,
        daily_token_quota_override: None,
        enabled: true,
        status: "active".to_string(),
        cooldown_until: None,
    }
}

fn group(entries: Vec<GroupEntry>) -> Group {
    Group {
        id: "g".to_string(),
        alias: "g".to_string(),
        display_name: "G".to_string(),
        entries,
        failover_config: FailoverConfig {
            on_429: true,
            on_quota_exhausted: true,
            on_consecutive_errors: true,
            consecutive_error_threshold: 3,
            on_latency_timeout: true,
            latency_timeout_ms: 30000,
            latency_timeout_cooldown_ms: 60000,
            consecutive_error_cooldown_ms: 300000,
            max_response_duration_ms: 600000,
        },
        aggregation_config: None,
    }
}

fn chosen(sel: Selection) -> (u32, usize) {
    match sel {
        Selection::Chosen { entry_index, provider_index } => (entry_index, provider_index),
        _ => panic!("expected an entry"),
    }
}

#[test]
fn test_build_exhausted_response() {
    let resp: serde_json::Value = serde_json::from_str(&build_exhausted_response("my-model")).unwrap();
    assert_eq!(resp["error"]["message"], "All providers for model 'my-model' are currently unavailable.");
    assert_eq!(resp["error"]["type"], "coderouter_error");
    assert_eq!(resp["error"]["code"], "all_providers_exhausted");
}

#[test]
fn failover_moves_to_the_next_entry_after_a_429() {
    let providers = vec![
        provider("p1", "openai", "https://api.one.com/v1/"),
        provider("p2", "anthropic", "https://api.two.com"),
    ];
    let g = group(vec![entry("p1", 0), entry("p2", 1)]);
    let mut state: RouterState = init_router_state_at(&[g.clone()], &providers, NOW);
    let mut run = FailoverRun::new(&g, "chat/completions");
    let (e1, p1) = chosen(run.select_next(&g, &mut state, &providers, NOW));
    assert_eq!((e1, p1), (0, 0));
    match run.plan(&g, &providers, e1, p1) {
        Planned::Send(plan) => {
            assert_eq!(plan.url, "https://api.one.com/v1/chat/completions");
            assert!(!plan.is_anthropic && !plan.is_codex);
            assert_eq!(plan.upstream_model, "m");
        },
        _ => panic!("expected a plan"),
    }
    assert!(!run.on_outcome(&g, &mut state, &providers, e1, p1, AttemptOutcome::RateLimited, NOW));
    assert_eq!(run.last_error.as_deref(), Some("provider p1 was rate limited"));
    assert_eq!(state.get(&entry_key("p1", 0)).unwrap().status, EntryStatus::Cooldown);
    let (e2, p2) = chosen(run.select_next(&g, &mut state, &providers, NOW));
    assert_eq!((e2, p2), (1, 1));
    match run.plan(&g, &providers, e2, p2) {
        Planned::Send(plan) => {
            assert_eq!(plan.url, "https://api.two.com/messages");
            assert!(plan.is_anthropic);
        },
        _ => panic!("expected a plan"),
    }
    let outcome = AttemptOutcome::NonStreaming { prompt_tokens: 10, output_tokens: 5 };
    assert!(outcome_fits_exec(&state, "p2", e2, &outcome));
    assert!(run.on_outcome(&g, &mut state, &providers, e2, p2, outcome, NOW));
    assert_eq!(state.get(&entry_key("p2", 1)).unwrap().daily_tokens_used, 15);
    assert!(matches!(run.select_next(&g, &mut state, &providers, NOW), Selection::Exhausted));
}

#[test]
fn completions_skip_anthropic_and_codex_entries() {
    let mut p = provider("p1", "openai", "https://api.one.com");
    p.models = vec![ProviderModel {
        id: "m".to_string(),
        context_window: None,
        max_output_tokens: None,
        last_refreshed: None,
        protocol: Some("openai-codex".to_string()),
    }];
    let providers = vec![p];
    let g = group(vec![entry("p1", 0)]);
    let mut state = init_router_state_at(&[g.clone()], &providers, NOW);
    let mut run = FailoverRun::new(&g, "completions");
    let (e, pi) = chosen(run.select_next(&g, &mut state, &providers, NOW));
    assert!(matches!(run.plan(&g, &providers, e, pi), Planned::Skip));
    assert!(run.skip_indices.contains(&0));
    assert!(matches!(run.select_next(&g, &mut state, &providers, NOW), Selection::Exhausted));
    let body: serde_json::Value = serde_json::from_str(&run.exhausted_response("g")).unwrap();
    assert_eq!(body["error"]["last_error"], "no eligible provider entries were active for this model");
    assert_eq!(
        body["error"]["message"],
        "All providers for model 'g' are currently unavailable. Last error: no eligible provider entries were active for this model"
    );
}

#[test]
fn failures_are_recorded_and_redacted() {
    let providers = vec![provider("p1", "openai", "https://api.one.com")];
    let g = group(vec![entry("p1", 0)]);
    let mut state = init_router_state_at(&[g.clone()], &providers, NOW);
    let mut run = FailoverRun::new(&g, "chat/completions");
    let (e, pi) = chosen(run.select_next(&g, &mut state, &providers, NOW));
    let outcome = AttemptOutcome::ServerError("HTTP 500: Bearer abc leaked".to_string());
    assert!(outcome_fits_exec(&state, "p1", e, &outcome));
    assert!(!run.on_outcome(&g, &mut state, &providers, e, pi, outcome, NOW));
    assert_eq!(run.last_error.as_deref(), Some("provider p1 upstream error: HTTP 500: [redacted] abc leaked"));
    assert_eq!(state.get(&entry_key("p1", 0)).unwrap().consecutive_errors, 1);
    let body: serde_json::Value = serde_json::from_str(&run.exhausted_response("g")).unwrap();
    assert_eq!(body["error"]["last_error"], "provider p1 upstream error: HTTP 500: [redacted] abc leaked");
}

#[test]
fn invalid_base_urls_and_missing_providers_stop_the_run() {
    let providers = vec![provider("p1", "openai", "http://127.0.0.1:8080")];
    let g = group(vec![entry("p1", 0), entry("ghost", 1)]);
    let mut state = init_router_state_at(&[g.clone()], &providers, NOW);
    let mut run = FailoverRun::new(&g, "chat/completions");
    let (e, pi) = chosen(run.select_next(&g, &mut state, &providers, NOW));
    match run.plan(&g, &providers, e, pi) {
        Planned::Invalid(m) => assert!(m.starts_with("invalid provider base_url: ")),
        _ => panic!("expected a refusal"),
    }
    run.skip_indices.insert(0);
    match run.select_next(&g, &mut state, &providers, NOW) {
        Selection::MissingProvider(m) => assert_eq!(m, "provider 'ghost' not found"),
        _ => panic!("expected a missing provider"),
    }
}

#[test]
fn stream_end_counts_tokens_or_errors() {
    let providers = vec![provider("p1", "openai", "https://api.one.com")];
    let g = group(vec![entry("p1", 0)]);
    let mut state = init_router_state_at(&[g.clone()], &providers, NOW);
    stream_finished(&g, &mut state, &providers, 0, 0, true, 3, 4, NOW);
    assert_eq!(state.get(&entry_key("p1", 0)).unwrap().daily_tokens_used, 7);
    stream_finished(&g, &mut state, &providers, 0, 0, true, 0, 0, NOW);
    assert_eq!(state.get(&entry_key("p1", 0)).unwrap().daily_requests_used, 1);
    stream_finished(&g, &mut state, &providers, 0, 0, false, 0, 0, NOW);
    assert_eq!(state.get(&entry_key("p1", 0)).unwrap().consecutive_errors, 1);
}
