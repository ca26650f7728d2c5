use coderouter_proxy::commands::{
    agent_permissions_from_response, agent_permissions_response, AgentModeResponse,
    BashPermissionResponse, OpenCodeAgentMapping, PermissionLevelResponse,
};
use coderouter_proxy::custom_agents::{AgentMode, AgentPermissions, BashPermission, PermissionLevel};
use coderouter_proxy::opencode_config::AgentMapping;

#[test]
fn test_open_code_agent_mapping_from_mapping() {
    let input = OpenCodeAgentMapping {
        build: Some("glm-5-router".to_string()),
        plan: Some("fast-model".to_string()),
        general: None,
        explore: None,
        compaction: None,
        title: None,
        summary: None,
        small_model: Some("small-model".to_string()),
    };
    let mapping: AgentMapping = input.into();
    assert_eq!(mapping.build, Some("glm-5-router".to_string()));
    assert_eq!(mapping.plan, Some("fast-model".to_string()));
    assert_eq!(mapping.general, None);
    assert_eq!(mapping.small_model, Some("small-model".to_string()));
}

#[test]
fn test_open_code_agent_mapping_all_none() {
    let input = OpenCodeAgentMapping {
        build: None,
        plan: None,
        general: None,
        explore: None,
        compaction: None,
        title: None,
        summary: None,
        small_model: None,
    };
    let mapping: AgentMapping = input.into();
    assert_eq!(mapping.build, None);
    assert_eq!(mapping.plan, None);
    assert_eq!(mapping.small_model, None);
}

#[test]
fn test_open_code_agent_mapping_all_fields() {
    let input = OpenCodeAgentMapping {
        build: Some("a".to_string()),
        plan: Some("b".to_string()),
        general: Some("c".to_string()),
        explore: Some("d".to_string()),
        compaction: Some("e".to_string()),
        title: Some("f".to_string()),
        summary: Some("g".to_string()),
        small_model: Some("h".to_string()),
    };
    let mapping: AgentMapping = input.into();
    assert_eq!(mapping.build, Some("a".to_string()));
    assert_eq!(mapping.plan, Some("b".to_string()));
    assert_eq!(mapping.general, Some("c".to_string()));
    assert_eq!(mapping.explore, Some("d".to_string()));
    assert_eq!(mapping.compaction, Some("e".to_string()));
    assert_eq!(mapping.title, Some("f".to_string()));
    assert_eq!(mapping.summary, Some("g".to_string()));
    assert_eq!(mapping.small_model, Some("h".to_string()));
    let back: OpenCodeAgentMapping = mapping.into();
    assert_eq!(back.small_model, Some("h".to_string()));
}

#[test]
fn permission_conversions_round_trip() {
    let perms = AgentPermissions {
        edit: Some(PermissionLevel::Deny),
        bash: Some(BashPermission::Commands(vec![("git *".to_string(), PermissionLevel::Ask)])),
        webfetch: None,
        task: Some(vec![("t".to_string(), PermissionLevel::Allow)]),
    };
    let resp = agent_permissions_response(&perms);
    assert_eq!(resp.edit, Some(PermissionLevelResponse::Deny));
    match &resp.bash {
        Some(BashPermissionResponse::Commands(v)) => {
            assert_eq!(v.len(), 1);
            assert_eq!(v[0].0, "git *");
            assert_eq!(v[0].1, PermissionLevelResponse::Ask);
        },
        _ => panic!("expected commands"),
    }
    let back = agent_permissions_from_response(&resp);
    assert_eq!(back.edit, Some(PermissionLevel::Deny));
    assert!(back.webfetch.is_none());
    assert_eq!(back.task.unwrap()[0].1, PermissionLevel::Allow);
    let mode: AgentModeResponse = AgentMode::All.into();
    assert_eq!(mode, AgentModeResponse::All);
    let m2: AgentMode = AgentModeResponse::default().into();
    assert_eq!(m2, AgentMode::Subagent);
}
