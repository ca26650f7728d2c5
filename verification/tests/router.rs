use coderouter_proxy::config_models::{FailoverConfig, Group, GroupEntry, Provider};
use coderouter_proxy::router::{
    entry_key, get_router_status, get_router_status_at, group_has_available_entry,
    init_router_state, init_router_state_at, next_daily_reset, record_429, record_429_at,
    record_consecutive_error, record_latency_timeout, record_quota_exhausted, record_success,
    run_quota_reset_at, select_entry, select_entry_at, set_entry_enabled, handle_probe_result_at,
    collect_probes_at, EntryStatus, ProbeResult,
};
use std::collections::HashSet;
use coderouter_proxy::clock::{after_millis, after_seconds, MAX_TIMESTAMP_MILLIS};
use coderouter_proxy::router::{
    error_cooldown_fits_exec, rate_limit_fits_exec, record_consecutive_error_at, record_latency_timeout_at,
    timeout_fits_exec,
};

fn test_provider(id: &str, quota: Option<u64>) -> Provider {
    Provider {
        id: id.to_string(),
        name: id.to_string(),
        protocol: "openai".to_string(),
        base_url: "https://api.test.com/v1".to_string(),
        credential_key: id.to_string(),
        daily_token_quota: quota,
        daily_request_quota: None,
        quota_reset_utc_hour: 0,
        enabled: true,
        models: vec![],
        model_overrides: None,
    }
}

fn test_group_with_entries(entries: Vec<GroupEntry>) -> Group {
    Group {
        id: "test-group".to_string(),
        alias: "test-group".to_string(),
        display_name: "Test Group".to_string(),
        entries,
        failover_config: FailoverConfig {
            on_429: true,
            on_quota_exhausted: true,
            on_consecutive_errors: true,
            consecutive_error_threshold: 3,
            on_latency_timeout: true,
            latency_timeout_ms: 30000,
            latency_timeout_cooldown_ms: 300000,
            consecutive_error_cooldown_ms: 600000,
            max_response_duration_ms: 1_200_000,
        },
        aggregation_config: None,
    }
}

fn make_entry(provider_id: &str, priority: u32, enabled: bool) -> GroupEntry {
    GroupEntry {
        provider_id: provider_id.to_string(),
        model_id: "test-model".to_string(),
        priority,
        daily_token_quota_override: None,
        enabled,
        status: "active".to_string(),
        cooldown_until: None,
    }
}

#[test]
fn test_select_entry_returns_lowest_priority() {
    let providers = vec![test_provider("p1", None), test_provider("p2", None)];
    let entries = vec![make_entry("p1", 2, true), make_entry("p2", 1, true)];
    let group = test_group_with_entries(entries);
    let mut state = init_router_state(&[group.clone()], &providers);
    let skip = HashSet::new();

    let (entry, idx) = select_entry(&group, &mut state, &providers, &skip).unwrap();
    assert_eq!(idx, 1);
    assert_eq!(entry.provider_id, "p2");
}

#[test]
fn test_select_entry_skips_disabled() {
    let providers = vec![test_provider("p1", None)];
    let entries = vec![make_entry("p1", 1, false)];
    let group = test_group_with_entries(entries);
    let mut state = init_router_state(&[group.clone()], &providers);
    let skip = HashSet::new();

    assert!(select_entry(&group, &mut state, &providers, &skip).is_none());
}

#[test]
fn test_select_entry_skips_cooldown() {
    let providers = vec![test_provider("p1", None)];
    let entries = vec![make_entry("p1", 1, true)];
    let group = test_group_with_entries(entries);
    let mut state = init_router_state(&[group.clone()], &providers);
    record_429(&mut state, "p1", 0, 60);
    let skip = HashSet::new();

    assert!(select_entry(&group, &mut state, &providers, &skip).is_none());
}

#[test]
fn test_select_entry_skips_quota_exhausted() {
    let providers = vec![test_provider("p1", Some(100))];
    let entries = vec![make_entry("p1", 1, true)];
    let group = test_group_with_entries(entries);
    let mut state = init_router_state(&[group.clone()], &providers);
    record_success(&mut state, "p1", 0, 100, Some(100), None, true);
    let skip = HashSet::new();

    assert!(select_entry(&group, &mut state, &providers, &skip).is_none());
}

#[test]
fn test_record_success_resets_errors() {
    let providers = vec![test_provider("p1", None)];
    let entries = vec![make_entry("p1", 1, true)];
    let group = test_group_with_entries(entries);
    let mut s = init_router_state(&[group.clone()], &providers);
    record_consecutive_error(&mut s, "p1", 0, 3, true, 600000);
    record_consecutive_error(&mut s, "p1", 0, 3, true, 600000);
    record_success(&mut s, "p1", 0, 50, None, None, false);
    let entry = s.get("p1:0").unwrap();
    assert_eq!(entry.consecutive_errors, 0);
    assert_eq!(entry.daily_tokens_used, 50);
}

#[test]
fn test_record_429_sets_cooldown() {
    let providers = vec![test_provider("p1", None)];
    let entries = vec![make_entry("p1", 1, true)];
    let group = test_group_with_entries(entries);
    let mut s = init_router_state(&[group.clone()], &providers);
    record_429(&mut s, "p1", 0, 60);
    let entry = s.get("p1:0").unwrap();
    assert_eq!(entry.status, EntryStatus::Cooldown);
    assert!(entry.cooldown_until.is_some());
}

#[test]
fn test_record_consecutive_error_triggers_cooldown() {
    let providers = vec![test_provider("p1", None)];
    let entries = vec![make_entry("p1", 1, true)];
    let group = test_group_with_entries(entries);
    let mut s = init_router_state(&[group.clone()], &providers);
    record_consecutive_error(&mut s, "p1", 0, 3, true, 600000);
    record_consecutive_error(&mut s, "p1", 0, 3, true, 600000);
    record_consecutive_error(&mut s, "p1", 0, 3, true, 600000);
    let entry = s.get("p1:0").unwrap();
    assert_eq!(entry.status, EntryStatus::Cooldown);
    assert_eq!(entry.consecutive_errors, 0);
}

#[test]
fn test_record_quota_exhausted() {
    let providers = vec![test_provider("p1", None)];
    let entries = vec![make_entry("p1", 1, true)];
    let group = test_group_with_entries(entries);
    let mut s = init_router_state(&[group.clone()], &providers);
    record_quota_exhausted(&mut s, "p1", 0);
    let entry = s.get("p1:0").unwrap();
    assert_eq!(entry.status, EntryStatus::QuotaExhausted);
}

#[test]
fn test_record_latency_timeout() {
    let providers = vec![test_provider("p1", None)];
    let entries = vec![make_entry("p1", 1, true)];
    let group = test_group_with_entries(entries);
    let mut s = init_router_state(&[group.clone()], &providers);
    let result = record_latency_timeout(&mut s, "p1", 0, 300000);
    assert!(result.is_ok());
    let entry = s.get("p1:0").unwrap();
    assert_eq!(entry.status, EntryStatus::Cooldown);
}

#[test]
fn test_select_entry_with_skip_indices() {
    let providers = vec![test_provider("p1", None), test_provider("p2", None)];
    let entries = vec![make_entry("p1", 1, true), make_entry("p2", 2, true)];
    let group = test_group_with_entries(entries);
    let mut state = init_router_state(&[group.clone()], &providers);
    let mut skip = HashSet::new();
    skip.insert(0);

    let (entry, idx) = select_entry(&group, &mut state, &providers, &skip).unwrap();
    assert_eq!(idx, 1);
    assert_eq!(entry.provider_id, "p2");
}

#[test]
fn test_get_router_status() {
    let providers = vec![test_provider("p1", None)];
    let entries = vec![make_entry("p1", 1, true)];
    let group = test_group_with_entries(entries);
    let state = init_router_state(&[group.clone()], &providers);

    let status = get_router_status(&[group.clone()], &state);
    assert_eq!(status.entries.len(), 1);
    assert_eq!(status.entries[0].group_alias, "test-group");
    assert_eq!(status.entries[0].provider_id, "p1");
    assert_eq!(status.entries[0].status, "active");
}

#[test]
fn test_record_success_transitions_cooldown_to_active() {
    let providers = vec![test_provider("p1", None)];
    let entries = vec![make_entry("p1", 1, true)];
    let group = test_group_with_entries(entries);
    let mut s = init_router_state(&[group.clone()], &providers);
    record_429(&mut s, "p1", 0, 60);
    let entry = s.get("p1:0").unwrap();
    assert_eq!(entry.status, EntryStatus::Cooldown);
    assert!(entry.cooldown_until.is_some());
    record_success(&mut s, "p1", 0, 50, None, None, false);
    let entry = s.get("p1:0").unwrap();
    assert_eq!(entry.status, EntryStatus::Active);
    assert!(entry.cooldown_until.is_none());
}

#[test]
fn test_record_429_first_backoff_starts_at_base() {
    let providers = vec![test_provider("p1", None)];
    let entries = vec![make_entry("p1", 1, true)];
    let group = test_group_with_entries(entries);
    let mut s = init_router_state(&[group.clone()], &providers);
    record_429(&mut s, "p1", 0, 60);
    let entry = s.get("p1:0").unwrap();
    assert_eq!(entry.cooldown_duration_seconds, Some(60));
}

#[test]
fn test_record_429_subsequent_backoff_doubles() {
    let providers = vec![test_provider("p1", None)];
    let entries = vec![make_entry("p1", 1, true)];
    let group = test_group_with_entries(entries);
    let mut s = init_router_state(&[group.clone()], &providers);
    record_429(&mut s, "p1", 0, 60);
    record_429(&mut s, "p1", 0, 60);
    let entry = s.get("p1:0").unwrap();
    assert_eq!(entry.cooldown_duration_seconds, Some(120));
}

#[test]
fn test_record_quota_exhausted_clears_cooldown_until() {
    let providers = vec![test_provider("p1", None)];
    let entries = vec![make_entry("p1", 1, true)];
    let group = test_group_with_entries(entries);
    let mut s = init_router_state(&[group.clone()], &providers);
    record_429(&mut s, "p1", 0, 60);
    let entry = s.get("p1:0").unwrap();
    assert!(entry.cooldown_until.is_some());
    record_quota_exhausted(&mut s, "p1", 0);
    let entry = s.get("p1:0").unwrap();
    assert_eq!(entry.status, EntryStatus::QuotaExhausted);
    assert!(entry.cooldown_until.is_none());
}

#[test]
fn test_record_success_sets_quota_exhausted_when_exceeded() {
    let providers = vec![test_provider("p1", Some(100))];
    let entries = vec![make_entry("p1", 1, true)];
    let group = test_group_with_entries(entries);
    let mut s = init_router_state(&[group.clone()], &providers);
    record_success(&mut s, "p1", 0, 60, Some(100), None, true);
    let entry = s.get("p1:0").unwrap();
    assert_eq!(entry.status, EntryStatus::Active);
    assert_eq!(entry.daily_tokens_used, 60);
    record_success(&mut s, "p1", 0, 50, Some(100), None, true);
    let entry = s.get("p1:0").unwrap();
    assert_eq!(entry.status, EntryStatus::QuotaExhausted);
    assert_eq!(entry.daily_tokens_used, 110);
}

#[test]
fn test_record_success_does_not_set_quota_exhausted_when_disabled() {
    let providers = vec![test_provider("p1", Some(100))];
    let entries = vec![make_entry("p1", 1, true)];
    let group = test_group_with_entries(entries);
    let mut s = init_router_state(&[group.clone()], &providers);
    record_success(&mut s, "p1", 0, 150, Some(100), None, false);
    let entry = s.get("p1:0").unwrap();
    assert_eq!(entry.status, EntryStatus::Active);
    assert_eq!(entry.daily_tokens_used, 150);
}

#[test]
fn test_record_success_sets_quota_exhausted_on_request_quota() {
    let mut prov = test_provider("p1", None);
    prov.daily_request_quota = Some(2);
    let providers = vec![prov];
    let entries = vec![make_entry("p1", 1, true)];
    let group = test_group_with_entries(entries);
    let mut s = init_router_state(&[group.clone()], &providers);
    record_success(&mut s, "p1", 0, 10, None, Some(2), true);
    let entry = s.get("p1:0").unwrap();
    assert_eq!(entry.status, EntryStatus::Active);
    assert_eq!(entry.daily_requests_used, 1);
    record_success(&mut s, "p1", 0, 10, None, Some(2), true);
    let entry = s.get("p1:0").unwrap();
    assert_eq!(entry.status, EntryStatus::QuotaExhausted);
    assert_eq!(entry.daily_requests_used, 2);
}

#[test]
fn test_select_entry_skips_request_quota_exhausted() {
    let mut prov = test_provider("p1", None);
    prov.daily_request_quota = Some(1);
    let providers = vec![prov];
    let entries = vec![make_entry("p1", 1, true)];
    let group = test_group_with_entries(entries);
    let mut state = init_router_state(&[group.clone()], &providers);
    record_success(&mut state, "p1", 0, 10, None, Some(1), true);
    let skip = HashSet::new();
    assert!(select_entry(&group, &mut state, &providers, &skip).is_none());
}

#[test]
fn test_record_success_syncs_counters_across_provider_entries() {
    let providers = vec![test_provider("p1", None)];
    let entries = vec![make_entry("p1", 1, true), make_entry("p1", 2, true)];
    let group = test_group_with_entries(entries);
    let mut s = init_router_state(&[group.clone()], &providers);
    record_consecutive_error(&mut s, "p1", 0, 3, true, 600000);
    record_consecutive_error(&mut s, "p1", 1, 3, true, 600000);
    record_success(&mut s, "p1", 0, 50, None, None, false);
    let entry0 = s.get("p1:0").unwrap();
    let entry1 = s.get("p1:1").unwrap();
    assert_eq!(entry0.daily_tokens_used, 50);
    assert_eq!(entry0.daily_requests_used, 1);
    assert_eq!(entry0.consecutive_errors, 0);
    assert_eq!(entry1.daily_tokens_used, 50);
    assert_eq!(entry1.daily_requests_used, 1);
    assert_eq!(entry1.consecutive_errors, 1);
}

#[test]
fn test_record_success_syncs_request_counters_across_provider_entries() {
    let mut prov = test_provider("p1", None);
    prov.daily_request_quota = Some(5);
    let providers = vec![prov];
    let entries = vec![make_entry("p1", 1, true), make_entry("p1", 2, true)];
    let group = test_group_with_entries(entries);
    let mut s = init_router_state(&[group.clone()], &providers);
    record_success(&mut s, "p1", 0, 10, None, Some(5), false);
    let entry0 = s.get("p1:0").unwrap();
    let entry1 = s.get("p1:1").unwrap();
    assert_eq!(entry0.daily_requests_used, 1);
    assert_eq!(entry1.daily_requests_used, 1);
}

#[test]
fn test_record_success_quota_check_only_on_specific_entry() {
    let providers = vec![test_provider("p1", Some(100))];
    let entries = vec![make_entry("p1", 1, true), {
        let mut e = make_entry("p1", 2, true);
        e.daily_token_quota_override = Some(200);
        e
    }];
    let group = test_group_with_entries(entries);
    let mut s = init_router_state(&[group.clone()], &providers);
    record_success(&mut s, "p1", 0, 100, Some(100), None, true);
    let entry0 = s.get("p1:0").unwrap();
    let entry1 = s.get("p1:1").unwrap();
    assert_eq!(entry0.status, EntryStatus::QuotaExhausted);
    assert_eq!(entry1.status, EntryStatus::Active);
}

// ---- further cases ----

#[test]
fn entry_key_formats_provider_and_index() {
    assert_eq!(entry_key("p1", 0), "p1:0");
    assert_eq!(entry_key("openai", 4294967295), "openai:4294967295");
}

#[test]
fn next_daily_reset_is_next_reset_hour() {
    // 2024-01-01T10:00:00Z
    let now: i64 = 1_704_103_200_000;
    let day_start: i64 = 1_704_067_200_000;
    assert_eq!(next_daily_reset(now, 12), day_start + 12 * 3_600_000);
    assert_eq!(next_daily_reset(now, 10), day_start + 86_400_000 + 10 * 3_600_000);
    assert_eq!(next_daily_reset(now, 0), day_start + 86_400_000);
    assert_eq!(next_daily_reset(now, 99), day_start + 23 * 3_600_000);
}

#[test]
fn backoff_doubles_up_to_cap_and_expired_cooldown_reactivates() {
    let now: i64 = 1_000_000_000;
    let providers = vec![test_provider("p1", None)];
    let group = test_group_with_entries(vec![make_entry("p1", 1, true)]);
    let mut s = init_router_state_at(&[group.clone()], &providers, now);
    for _ in 0..10 {
        record_429_at(&mut s, "p1", 0, 60, now);
    }
    let st = *s.get("p1:0").unwrap();
    assert_eq!(st.cooldown_duration_seconds, Some(3600));
    assert_eq!(st.cooldown_until, Some(now + 3_600_000));
    let skip = HashSet::new();
    assert!(select_entry_at(&group, &mut s, &providers, &skip, now + 3_599_999).is_none());
    let (_, idx) = select_entry_at(&group, &mut s, &providers, &skip, now + 3_600_000).unwrap();
    assert_eq!(idx, 0);
    assert_eq!(s.get("p1:0").unwrap().status, EntryStatus::Active);
    assert!(group_has_available_entry(&group, &providers, &s));
}

#[test]
fn status_reports_each_entry_with_default_for_missing_state() {
    let now: i64 = 5_000;
    let providers = vec![test_provider("p1", None)];
    let group = test_group_with_entries(vec![make_entry("p1", 1, true), make_entry("missing", 3, false)]);
    let s = init_router_state_at(&[group.clone()], &providers, now);
    let status = get_router_status_at(&[group.clone()], &s, now);
    assert_eq!(status.entries.len(), 2);
    assert_eq!(status.entries[1].provider_id, "missing");
    assert_eq!(status.entries[1].entry_index, 1);
    assert_eq!(status.entries[1].status, "active");
    assert_eq!(status.entries[1].daily_reset_at, now);
}

#[test]
fn disabled_entry_starts_manually_disabled_and_can_be_toggled() {
    let now: i64 = 1_000;
    let providers = vec![test_provider("p1", None)];
    let group = test_group_with_entries(vec![make_entry("p1", 1, false)]);
    let groups = vec![group];
    let mut s = init_router_state_at(&groups, &providers, now);
    assert_eq!(s.get("p1:0").unwrap().status, EntryStatus::ManuallyDisabled);
    let status = get_router_status_at(&groups, &s, now);
    assert_eq!(status.entries[0].status, "manuallydisabled");
    assert!(set_entry_enabled(&mut s, &groups, "test-group", 0, true).is_ok());
    assert_eq!(s.get("p1:0").unwrap().status, EntryStatus::Active);
    assert_eq!(
        set_entry_enabled(&mut s, &groups, "nope", 0, true).unwrap_err(),
        "Group 'nope' not found"
    );
    assert_eq!(
        set_entry_enabled(&mut s, &groups, "test-group", 5, true).unwrap_err(),
        "Entry index 5 out of range for group 'test-group'"
    );
}

#[test]
fn quota_reset_restarts_counters_when_due() {
    let now: i64 = 1_704_103_200_000;
    let providers = vec![test_provider("p1", Some(10))];
    let group = test_group_with_entries(vec![make_entry("p1", 1, true)]);
    let groups = vec![group];
    let mut s = init_router_state_at(&groups, &providers, now);
    record_success(&mut s, "p1", 0, 10, Some(10), None, true);
    assert_eq!(s.get("p1:0").unwrap().status, EntryStatus::QuotaExhausted);
    run_quota_reset_at(&mut s, &groups, &providers, now);
    assert_eq!(s.get("p1:0").unwrap().status, EntryStatus::QuotaExhausted);
    let later = now + 86_400_000;
    run_quota_reset_at(&mut s, &groups, &providers, later);
    let st = s.get("p1:0").unwrap();
    assert_eq!(st.status, EntryStatus::Active);
    assert_eq!(st.daily_tokens_used, 0);
    assert_eq!(st.daily_reset_at, 1_704_067_200_000 + 2 * 86_400_000);
}

#[test]
fn probes_collect_due_cooldowns_and_results_apply() {
    let now: i64 = 10_000_000;
    let providers = vec![test_provider("p1", None)];
    let group = test_group_with_entries(vec![make_entry("p1", 1, true)]);
    let groups = vec![group];
    let mut s = init_router_state_at(&groups, &providers, now);
    record_429_at(&mut s, "p1", 0, 60, now);
    assert!(collect_probes_at(&s, &groups, &providers, now).is_empty());
    let probes = collect_probes_at(&s, &groups, &providers, now + 60_000);
    assert_eq!(probes.len(), 1);
    assert_eq!(probes[0].key, "p1:0");
    assert_eq!(probes[0].cooldown_seconds, 60);
    handle_probe_result_at(&mut s, "p1:0", ProbeResult::RateLimited, 60, now);
    assert_eq!(s.get("p1:0").unwrap().cooldown_duration_seconds, Some(120));
    handle_probe_result_at(&mut s, "p1:0", ProbeResult::Error, 120, now);
    assert_eq!(s.get("p1:0").unwrap().cooldown_until, Some(now + 120_000));
    handle_probe_result_at(&mut s, "p1:0", ProbeResult::Success, 120, now);
    let st = s.get("p1:0").unwrap();
    assert_eq!(st.status, EntryStatus::Active);
    assert_eq!(st.cooldown_duration_seconds, Some(60));
}

#[test]
fn latency_timeout_on_unknown_entry_fails() {
    let mut s = coderouter_proxy::router::RouterState::new();
    assert_eq!(record_latency_timeout(&mut s, "p9", 0, 1000).unwrap_err(), "entry state not found");
}

#[test]
fn cooldowns_reach_the_last_representable_instant() {
    let now: i64 = 1_700_000_000_000;
    let providers = vec![test_provider("p1", None)];
    let groups = vec![test_group_with_entries(vec![make_entry("p1", 1, true)])];
    let mut s = init_router_state_at(&groups, &providers, now);
    // A cooldown far past any round cap still ends within chrono's range.
    let long: u64 = (MAX_TIMESTAMP_MILLIS - now) as u64;
    assert!(timeout_fits_exec(&s, "p1", 0, long, now));
    assert!(!timeout_fits_exec(&s, "p1", 0, long + 1, now));
    record_latency_timeout_at(&mut s, "p1", 0, long, now).unwrap();
    assert_eq!(s.get("p1:0").unwrap().cooldown_until, Some(MAX_TIMESTAMP_MILLIS));
    // A count above i64::MAX is read as a negative offset, as `as i64` does.
    assert!(error_cooldown_fits_exec(&s, "p1", 0, 1, true, u64::MAX, now));
    record_consecutive_error_at(&mut s, "p1", 0, 1, true, u64::MAX, now);
    assert_eq!(s.get("p1:0").unwrap().cooldown_until, Some(now - 1));
    assert_eq!(after_millis(now, 1u64 << 63), None);
    assert_eq!(after_seconds(0, MAX_TIMESTAMP_MILLIS / 1000), Some(MAX_TIMESTAMP_MILLIS / 1000 * 1000));
    assert_eq!(after_seconds(now, i64::MAX), None);
}

#[test]
fn rate_limit_past_the_range_is_refused_by_the_check() {
    let providers = vec![test_provider("p1", None)];
    let groups = vec![test_group_with_entries(vec![make_entry("p1", 1, true)])];
    let s = init_router_state_at(&groups, &providers, 0);
    assert!(rate_limit_fits_exec(&s, "p1", 0, 60, MAX_TIMESTAMP_MILLIS - 60_000));
    assert!(!rate_limit_fits_exec(&s, "p1", 0, 60, MAX_TIMESTAMP_MILLIS - 59_999));
    assert!(rate_limit_fits_exec(&s, "p9", 0, i64::MAX, 0));
}
