use coderouter_proxy::config_edits::{
    check_save_protocol, remove_group, remove_provider, set_provider_enabled, strip_provider_entries, upsert_group,
    upsert_provider,
};
use coderouter_proxy::config_models::{FailoverConfig, Group, GroupEntry, Provider};

fn provider(id: &str, name: &str) -> Provider {
    Provider {
        id: id.to_string(),
        name: name.to_string(),
        protocol: "openai".to_string(),
        base_url: "https://api.test.com".to_string(),
        credential_key: id.to_string(),
        daily_token_quota: None,
        daily_request_quota: None,
        quota_reset_utc_hour: 0,
        enabled: true,
        models: vec![],
        model_overrides: None,
    }
}

fn entry(pid: &str, priority: u32) -> GroupEntry {
    GroupEntry {
        provider_id: pid.to_string(),
        model_id: format!("{pid}-model"),
        priority,
        daily_token_quota_override: None,
        enabled: true,
        status: "active".to_string(),
        cooldown_until: None,
    }
}

fn group(id: &str, entries: Vec<GroupEntry>) -> Group {
    Group {
        id: id.to_string(),
        alias: id.to_string(),
        display_name: id.to_uppercase(),
        entries,
        failover_config: FailoverConfig {
            on_429: true,
            on_quota_exhausted: true,
            on_consecutive_errors: true,
            consecutive_error_threshold: 5,
            on_latency_timeout: true,
            latency_timeout_ms: 30000,
            latency_timeout_cooldown_ms: 300000,
            consecutive_error_cooldown_ms: 600000,
            max_response_duration_ms: 1_200_000,
        },
        aggregation_config: None,
    }
}

fn ids(ps: &[Provider]) -> Vec<&str> {
    ps.iter().map(|p| p.id.as_str()).collect()
}

#[test]
fn save_protocol_check() {
    assert!(check_save_protocol("openai").is_ok());
    assert!(check_save_protocol("anthropic").is_ok());
    assert_eq!(
        check_save_protocol("openai-codex"),
        Err("Invalid protocol 'openai-codex'. Must be 'openai' or 'anthropic'.".to_string())
    );
}

#[test]
fn upsert_replaces_or_appends() {
    let mut ps = vec![provider("a", "A"), provider("b", "B")];
    upsert_provider(&mut ps, provider("b", "B2"));
    assert_eq!(ids(&ps), vec!["a", "b"]);
    assert_eq!(ps[1].name, "B2");
    upsert_provider(&mut ps, provider("c", "C"));
    assert_eq!(ids(&ps), vec!["a", "b", "c"]);

    let mut gs = vec![group("g1", vec![])];
    upsert_group(&mut gs, group("g1", vec![entry("a", 1)]));
    assert_eq!(gs.len(), 1);
    assert_eq!(gs[0].entries.len(), 1);
    upsert_group(&mut gs, group("g2", vec![]));
    assert_eq!(gs.len(), 2);
}

#[test]
fn enable_and_remove() {
    let mut ps = vec![provider("a", "A"), provider("b", "B"), provider("a", "A2")];
    set_provider_enabled(&mut ps, "a", false);
    assert!(!ps[0].enabled);
    assert!(ps[2].enabled);
    set_provider_enabled(&mut ps, "zzz", false);
    assert!(ps[1].enabled);
    remove_provider(&mut ps, "a");
    assert_eq!(ids(&ps), vec!["b"]);

    let mut gs = vec![group("g1", vec![]), group("g2", vec![]), group("g1", vec![])];
    remove_group(&mut gs, "g1");
    assert_eq!(gs.len(), 1);
    assert_eq!(gs[0].id, "g2");
}

#[test]
fn deleting_a_provider_strips_and_renumbers_entries() {
    let mut gs = vec![
        group("g1", vec![entry("a", 1), entry("b", 2), entry("a", 3), entry("c", 4)]),
        group("g2", vec![entry("a", 5)]),
    ];
    strip_provider_entries(&mut gs, "a");
    let g1: Vec<(&str, u32)> = gs[0].entries.iter().map(|e| (e.provider_id.as_str(), e.priority)).collect();
    assert_eq!(g1, vec![("b", 1), ("c", 2)]);
    assert_eq!(gs[0].entries[1].model_id, "c-model");
    assert!(gs[1].entries.is_empty());
    assert_eq!(gs[0].display_name, "G1");
}
