use coderouter_proxy::custom_agents::{
    agent_model, candidate_file_name, check_agent_write, file_flag, file_mode, file_model,
    find_agent_name, names_match, require_description, sanitize_filename, split_frontmatter,
    AgentMode, AgentPermissions, PermissionLevel,
};

#[test]
fn test_split_frontmatter() {
    let input = "---\ndescription: Test agent\nmode: subagent\n---\n\nHello world";
    let (yaml, body) = split_frontmatter(input).unwrap();
    assert!(yaml.contains("description: Test agent"));
    assert!(yaml.contains("mode: subagent"));
    assert_eq!(body, "Hello world");
}

#[test]
fn test_split_frontmatter_missing_opening() {
    let input = "description: Test\n---\n\nHello";
    assert!(split_frontmatter(input).is_err());
}

#[test]
fn test_split_frontmatter_missing_closing() {
    let input = "---\ndescription: Test\n\nHello";
    assert!(split_frontmatter(input).is_err());
}

#[test]
fn split_frontmatter_edge_cases() {
    assert_eq!(
        split_frontmatter("  \r\n---\r\ndescription: x\r\n---\r\nbody\r\n").unwrap(),
        ("description: x".to_string(), "body".to_string())
    );
    assert_eq!(split_frontmatter("---\ndescription: x\n---").unwrap(), ("description: x".to_string(), String::new()));
    assert_eq!(
        split_frontmatter("---\na\n---x\n---").unwrap_err(),
        "Missing frontmatter closing delimiter"
    );
    assert_eq!(split_frontmatter("nope").unwrap_err(), "Missing frontmatter opening delimiter");
}

#[test]
fn test_sanitize_filename() {
    assert_eq!(sanitize_filename("My Agent"), "my-agent");
    assert_eq!(sanitize_filename("Code_Helper"), "code-helper");
    assert_eq!(sanitize_filename("Test!@#Agent"), "testagent");
}

#[test]
fn sanitize_filename_trims_and_keeps_unicode_letters() {
    assert_eq!(sanitize_filename("  Äpfel Agent  "), "äpfel-agent");
    assert_eq!(sanitize_filename("!!!"), "");
}

#[test]
fn permission_and_mode_names() {
    assert_eq!(PermissionLevel::Allow.as_str(), "allow");
    assert_eq!(PermissionLevel::Deny.as_str(), "deny");
    assert_eq!(PermissionLevel::Ask.as_str(), "ask");
    assert_eq!(AgentMode::Primary.to_string(), "primary");
    assert_eq!(AgentMode::default().to_string(), "subagent");
    assert_eq!(AgentMode::All.to_string(), "all");
    let p = AgentPermissions::default();
    assert!(p.edit.is_none() && p.bash.is_none() && p.webfetch.is_none() && p.task.is_none());
}

#[test]
fn agent_write_checks() {
    let existing = vec!["helper".to_string(), "My-Agent".to_string()];
    assert_eq!(check_agent_write("New Agent", "d", "p", &existing, None), Ok("new-agent".to_string()));
    assert_eq!(
        check_agent_write("my agent", "d", "p", &existing, None),
        Err("Agent 'my agent' already exists".to_string())
    );
    assert_eq!(check_agent_write("my agent", "d", "p", &existing, Some("MY-AGENT")), Ok("my-agent".to_string()));
    assert_eq!(
        check_agent_write("???", "d", "p", &existing, None),
        Err("Agent name is empty after sanitization".to_string())
    );
    assert_eq!(
        check_agent_write("x", "  ", "p", &existing, None),
        Err("Agent description must not be empty".to_string())
    );
    assert_eq!(check_agent_write("x", "d", "\n", &existing, None), Err("Agent prompt must not be empty".to_string()));
}

#[test]
fn agent_lookup_ignores_ascii_case() {
    let existing = vec!["helper".to_string(), "My-Agent".to_string()];
    assert_eq!(find_agent_name("my-agent", &existing), Ok("My-Agent".to_string()));
    assert_eq!(find_agent_name("other", &existing), Err("Agent 'other' not found".to_string()));
    assert!(names_match("ABC", "abc"));
    assert!(!names_match("abc", "abcd"));
}

#[test]
fn file_values() {
    assert_eq!(candidate_file_name("agent", 0), "agent.md");
    assert_eq!(candidate_file_name("agent", 12), "agent-12.md");
    assert_eq!(file_model("fast"), "coderouter/fast");
    assert_eq!(file_model("coderouter/fast"), "coderouter/fast");
    assert_eq!(agent_model("coderouter/fast-model"), "fast-model");
    assert_eq!(agent_model("other/x"), "other/x");
    assert_eq!(file_mode(AgentMode::Subagent), None);
    assert_eq!(file_mode(AgentMode::Primary), Some(AgentMode::Primary));
    assert_eq!(file_flag(Some(true)), Some(true));
    assert_eq!(file_flag(Some(false)), None);
    assert_eq!(file_flag(None), None);
    assert!(require_description(" \n").is_err());
    assert!(require_description("description: x").is_ok());
}
