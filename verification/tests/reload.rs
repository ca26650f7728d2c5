use coderouter_proxy::config_models::{FailoverConfig, Group, GroupEntry, Provider};
use coderouter_proxy::json::to_json_string;
use coderouter_proxy::reload::{error_body, health_report, merge_reloaded_state, reload_router_state_at, uptime_seconds};
use coderouter_proxy::router::{EntryState, EntryStatus, RouterState};

fn st(status: EntryStatus, tokens: u64) -> EntryState {
    EntryState {
        status,
        cooldown_until: None,
        consecutive_errors: 0,
        daily_tokens_used: tokens,
        daily_requests_used: 0,
        daily_reset_at: 0,
        cooldown_duration_seconds: None,
    }
}

fn state(pairs: &[(&str, EntryState)]) -> RouterState {
    let mut s = RouterState::new();
    for (k, v) in pairs {
        s.entries.push((k.to_string(), *v));
    }
    s
}

fn group(id: &str, provider: &str) -> Group {
    Group {
        id: id.to_string(),
        alias: id.to_string(),
        display_name: id.to_string(),
        entries: vec![GroupEntry {
            provider_id: provider.to_string(),
            model_id: "m".to_string(),
            priority: 1,
            daily_token_quota_override: None,
            enabled: true,
            status: "active".to_string(),
            cooldown_until: None,
        }],
        failover_config: FailoverConfig {
            on_429: true,
            on_quota_exhausted: true,
            on_consecutive_errors: true,
            consecutive_error_threshold: 5,
            on_latency_timeout: true,
            latency_timeout_ms: 30000,
            latency_timeout_cooldown_ms: 300000,
            consecutive_error_cooldown_ms: 600000,
            max_response_duration_ms: 1_200_000,
        },
        aggregation_config: None,
    }
}

fn provider(id: &str) -> Provider {
    Provider {
        id: id.to_string(),
        name: format!("{id} name"),
        protocol: "openai".to_string(),
        base_url: "https://api.example.com/v1".to_string(),
        credential_key: id.to_string(),
        daily_token_quota: None,
        daily_request_quota: None,
        quota_reset_utc_hour: 0,
        enabled: true,
        models: vec![],
        model_overrides: None,
    }
}

#[test]
fn reload_keeps_existing_and_drops_removed_entries() {
    let old = state(&[("a:0", st(EntryStatus::Cooldown, 50)), ("gone:0", st(EntryStatus::Active, 1))]);
    let fresh = state(&[("a:0", st(EntryStatus::Active, 0)), ("b:0", st(EntryStatus::Active, 0))]);
    let merged = merge_reloaded_state(&old, fresh);
    assert_eq!(merged.entries.len(), 2);
    assert_eq!(merged.entries[0], ("a:0".to_string(), st(EntryStatus::Cooldown, 50)));
    assert_eq!(merged.entries[1], ("b:0".to_string(), st(EntryStatus::Active, 0)));
}

#[test]
fn reload_builds_state_for_new_groups() {
    let old = state(&[("p:0", st(EntryStatus::QuotaExhausted, 9))]);
    let merged = reload_router_state_at(&old, &[group("g", "p"), group("h", "q")], &[provider("p"), provider("q")], 1_000);
    let keys: Vec<&str> = merged.entries.iter().map(|(k, _)| k.as_str()).collect();
    assert_eq!(keys, vec!["p:0", "q:0"]);
    assert_eq!(merged.entries[0].1.status, EntryStatus::QuotaExhausted);
    assert_eq!(merged.entries[1].1.status, EntryStatus::Active);
}

#[test]
fn health_report_exact_text() {
    let mut cooling = st(EntryStatus::Cooldown, 0);
    cooling.cooldown_until = Some(1234);
    let s = state(&[("p:0", cooling)]);
    let report = health_report(&[provider("p")], &[group("g", "p"), group("h", "q")], &s, 42);
    assert_eq!(
        to_json_string(&report),
        [
            r#"{"failover_states":[{"cooldown_until":1234,"entry_index":0,"group_alias":"g","group_id":"g","model_id":"m","priority":1,"provider_id":"p","status":"cooldown"},"#,
            r#"{"cooldown_until":null,"entry_index":0,"group_alias":"h","group_id":"h","model_id":"m","priority":1,"provider_id":"q","status":"unknown"}],"#,
            r#""providers":[{"enabled":true,"id":"p","name":"p name","protocol":"openai"}],"proxy":"coderouter","status":"ok","uptime_seconds":42}"#,
        ]
        .concat()
    );
    assert_eq!(uptime_seconds(0, 500), 0);
    assert_eq!(uptime_seconds(100, 500), 400);
}

#[test]
fn error_body_exact_text() {
    assert_eq!(
        to_json_string(&error_body("no group found for model 'x'", 404)),
        r#"{"error":{"code":404,"message":"no group found for model 'x'","type":"coderouter_error"}}"#
    );
}
