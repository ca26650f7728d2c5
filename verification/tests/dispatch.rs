use coderouter_proxy::config_models::{AggregationConfig, FailoverConfig, Group};
use coderouter_proxy::dispatch::{dispatch_request, Dispatch, DispatchError};
use coderouter_proxy::json::{parse_json, JsonValue};
use coderouter_proxy::moa::{plan_moa, MoaError};

fn group(id: &str, aggregation: Option<AggregationConfig>) -> Group {
    Group {
        id: id.to_string(),
        alias: format!("{id}-alias"),
        display_name: id.to_string(),
        entries: vec![],
        failover_config: FailoverConfig {
            on_429: true,
            on_quota_exhausted: true,
            on_consecutive_errors: true,
            consecutive_error_threshold: 5,
            on_latency_timeout: true,
            latency_timeout_ms: 30000,
            latency_timeout_cooldown_ms: 300000,
            consecutive_error_cooldown_ms: 600000,
            max_response_duration_ms: 1_200_000,
        },
        aggregation_config: aggregation,
    }
}

fn moa_config(refs: &[&str], aggregator: Option<&str>) -> AggregationConfig {
    let mut c = AggregationConfig::default();
    c.enabled = true;
    c.reference_group_ids = refs.iter().map(|r| r.to_string()).collect();
    c.aggregator_group_id = aggregator.map(|a| a.to_string());
    c
}

fn json(text: &str) -> JsonValue {
    parse_json(text).expect("valid JSON")
}

fn bad_request(r: Result<Dispatch, DispatchError>) -> String {
    match r {
        Err(DispatchError::BadRequest(m)) => m,
        _ => panic!("expected a bad request"),
    }
}

#[test]
fn dispatch_by_alias() {
    let groups = vec![group("plain", None), group("moa", Some(moa_config(&["plain"], Some("plain"))))];
    assert_eq!(dispatch_request(&json(r#"{"model":"plain-alias"}"#), &groups).ok(), Some(Dispatch::Failover(0)));
    assert_eq!(dispatch_request(&json(r#"{"model":"moa-alias"}"#), &groups).ok(), Some(Dispatch::MixtureOfAgents(1)));
    assert_eq!(bad_request(dispatch_request(&json("[1]"), &groups)), "request body must be a JSON object");
    assert_eq!(bad_request(dispatch_request(&json(r#"{"model":5}"#), &groups)), "missing model field");
    match dispatch_request(&json(r#"{"model":"nope"}"#), &groups) {
        Err(DispatchError::NotFound(m)) => assert_eq!(m, "no group found for model 'nope'"),
        _ => panic!("expected not found"),
    }
}

#[test]
fn moa_plan_checks() {
    let moa = group("moa", Some(moa_config(&["r1", "r2"], Some("agg"))));
    let groups = vec![moa.clone(), group("agg", None), group("r1", None), group("r2", None)];
    let body = json(r#"{"messages":[]}"#);
    let plan = plan_moa(&body, "chat/completions", &moa, &groups).ok().unwrap();
    assert_eq!(plan.aggregator, 1);
    assert_eq!(plan.references, vec![2, 3]);

    let msg = |r: Result<_, MoaError>| match r {
        Err(MoaError::BadRequest(m)) | Err(MoaError::Internal(m)) | Err(MoaError::Unavailable(m)) => m,
        Ok(_) => panic!("expected an error"),
    };
    assert_eq!(msg(plan_moa(&body, "completions", &moa, &groups)), "Mixture of Agents groups only support /v1/chat/completions");
    assert_eq!(
        msg(plan_moa(&json(r#"{"stream":true}"#), "chat/completions", &moa, &groups)),
        "Mixture of Agents streaming is not supported yet; send stream:false"
    );
    let plain = group("plain", None);
    assert_eq!(
        msg(plan_moa(&body, "chat/completions", &plain, &groups)),
        "group 'plain-alias' was routed as MoA without enabled aggregation config"
    );
    let no_agg = group("moa", Some(moa_config(&["r1"], None)));
    assert_eq!(
        msg(plan_moa(&body, "chat/completions", &no_agg, &[group("r1", None)])),
        "MoA group 'moa-alias' must have an aggregator group"
    );
}
