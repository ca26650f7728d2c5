use coderouter_proxy::json::{as_bool, as_str, get, parse_json, JsonNumber, JsonValue};
use coderouter_proxy::moa::{
    append_text_to_message_content, build_moa_aggregator_request, build_moa_reference_request,
    build_moa_reference_summary, combine_references, content_value_to_text, extract_assistant_text,
    reference_output, reference_response_json, sanitize_reference_message, MoaReferenceOutput,
};

fn json(text: &str) -> JsonValue {
    parse_json(text).expect("valid JSON")
}

fn field<'a>(v: &'a JsonValue, key: &str) -> &'a JsonValue {
    get(v, key).unwrap_or_else(|| panic!("missing {key}"))
}

fn text<'a>(v: &'a JsonValue, key: &str) -> &'a str {
    as_str(get(v, key)).unwrap_or_else(|| panic!("{key} is not a string"))
}

fn items(v: &JsonValue) -> &Vec<JsonValue> {
    match v {
        JsonValue::Array(items) => items,
        _ => panic!("not an array"),
    }
}

fn temperature(t: &str) -> Option<JsonNumber> {
    Some(JsonNumber::Float(t.to_string()))
}

fn reference(alias: &str, name: &str, content: &str) -> MoaReferenceOutput {
    MoaReferenceOutput {
        group_alias: alias.to_string(),
        display_name: name.to_string(),
        content: content.to_string(),
    }
}

#[test]
fn test_moa_reference_request_strips_tools_and_forces_non_streaming() {
    let body = json(
        r#"{
            "model": "moa",
            "stream": true,
            "temperature": 0.9,
            "tools": [{"type": "function", "function": {"name": "lookup"}}],
            "tool_choice": "auto",
            "parallel_tool_calls": true,
            "messages": [
                {"role": "system", "content": "system text"},
                {"role": "user", "content": "question"},
                {"role": "assistant", "content": null, "tool_calls": [{"id": "call_1"}]},
                {"role": "tool", "tool_call_id": "call_1", "content": "tool result"},
                {"role": "assistant", "content": "answer so far", "tool_calls": [{"id": "call_2"}]}
            ]
        }"#,
    );

    let request = build_moa_reference_request(&body, "reference", temperature("0.2")).unwrap();

    assert_eq!(text(&request, "model"), "reference");
    assert_eq!(as_bool(get(&request, "stream")), Some(false));
    assert!(matches!(field(&request, "temperature"), JsonValue::Number(JsonNumber::Float(t)) if t == "0.2"));
    assert!(get(&request, "tools").is_none());
    assert!(get(&request, "tool_choice").is_none());
    assert!(get(&request, "parallel_tool_calls").is_none());

    let messages = items(field(&request, "messages"));
    assert_eq!(messages.len(), 3);
    assert_eq!(text(&messages[0], "role"), "system");
    assert_eq!(text(&messages[1], "role"), "user");
    assert_eq!(text(&messages[2], "role"), "assistant");
    assert_eq!(text(&messages[2], "content"), "answer so far");
    assert!(get(&messages[2], "tool_calls").is_none());
}

#[test]
fn test_moa_aggregator_request_augments_latest_user_message() {
    let body = json(
        r#"{
            "model": "moa",
            "messages": [
                {"role": "user", "content": "first question"},
                {"role": "assistant", "content": "context"},
                {"role": "user", "content": "final question"}
            ],
            "tools": [{"type": "function", "function": {"name": "lookup"}}]
        }"#,
    );
    let references = vec![
        reference("code-large", "Code Large", "reference answer"),
        reference("deep", "Deep", "second answer"),
    ];

    let request = build_moa_aggregator_request(&body, "aggregator", &references, temperature("0.4")).unwrap();

    assert_eq!(text(&request, "model"), "aggregator");
    assert_eq!(as_bool(get(&request, "stream")), Some(false));
    assert!(matches!(field(&request, "temperature"), JsonValue::Number(JsonNumber::Float(t)) if t == "0.4"));
    assert!(get(&request, "tools").is_some());
    let messages = items(field(&request, "messages"));
    assert_eq!(text(&messages[0], "content"), "first question");

    let latest_user = text(&messages[2], "content");
    assert!(latest_user.contains("final question"));
    assert!(latest_user.contains("Mixture of Agents reference outputs"));
    assert!(latest_user.contains("Code Large (code-large)"));
    assert!(latest_user.contains("reference answer"));
    assert!(latest_user.contains("Deep (deep)"));
    assert!(latest_user.contains("second answer"));
}

#[test]
fn test_moa_aggregator_request_appends_text_part_to_array_content() {
    let body = json(
        r#"{
            "model": "moa",
            "messages": [{
                "role": "user",
                "content": [{"type": "text", "text": "question"}]
            }]
        }"#,
    );
    let references = vec![reference("ref", "Ref", "output")];

    let request = build_moa_aggregator_request(&body, "aggregator", &references, None).unwrap();
    let messages = items(field(&request, "messages"));
    let parts = items(field(&messages[0], "content"));

    assert_eq!(parts.len(), 2);
    assert_eq!(text(&parts[1], "type"), "text");
    assert!(text(&parts[1], "text").contains("output"));
}

#[test]
fn test_moa_reference_summary_exact_text() {
    let references = vec![reference("a", "Alpha", "  first  "), reference("b", "Beta", "second\n")];
    assert_eq!(
        build_moa_reference_summary(&references),
        "Mixture of Agents reference outputs (advisory; use only if helpful):\n\n[Reference 1: Alpha (a)]\nfirst\n\n[Reference 2: Beta (b)]\nsecond"
    );
    assert_eq!(
        build_moa_reference_summary(&[]),
        "Mixture of Agents reference outputs (advisory; use only if helpful):"
    );
}

#[test]
fn test_moa_reference_request_errors() {
    let no_messages = json(r#"{"model": "moa"}"#);
    assert_eq!(
        build_moa_reference_request(&no_messages, "r", None).unwrap_err(),
        "MoA requests require a messages array"
    );
    let only_tools = json(r#"{"messages": [{"role": "tool", "content": "x"}, {"role": "user", "content": "   "}]}"#);
    assert_eq!(
        build_moa_reference_request(&only_tools, "r", None).unwrap_err(),
        "MoA reference request has no text messages after stripping tool messages"
    );
}

#[test]
fn test_moa_aggregator_request_errors() {
    let refs = vec![reference("a", "A", "x")];
    assert_eq!(
        build_moa_aggregator_request(&json("[1]"), "agg", &refs, None).unwrap_err(),
        "MoA request body must be a JSON object"
    );
    assert_eq!(
        build_moa_aggregator_request(&json(r#"{"messages": 3}"#), "agg", &refs, None).unwrap_err(),
        "MoA requests require a messages array"
    );
    assert_eq!(
        build_moa_aggregator_request(&json(r#"{"messages": [{"role": "assistant", "content": "x"}]}"#), "agg", &refs, None)
            .unwrap_err(),
        "MoA requests require at least one user message"
    );
    assert_eq!(
        build_moa_aggregator_request(&json(r#"{"messages": ["user"]}"#), "agg", &refs, None).unwrap_err(),
        "MoA requests require at least one user message"
    );
}

#[test]
fn test_append_text_to_message_content_cases() {
    let mut blank = json(r#"{"role": "user", "content": "  "}"#);
    append_text_to_message_content(&mut blank, "added").unwrap();
    assert_eq!(text(&blank, "content"), "added");

    let mut existing = json(r#"{"role": "user", "content": "hello"}"#);
    append_text_to_message_content(&mut existing, "added").unwrap();
    assert_eq!(text(&existing, "content"), "hello\n\nadded");

    let mut missing = json(r#"{"role": "user"}"#);
    append_text_to_message_content(&mut missing, "added").unwrap();
    assert_eq!(text(&missing, "content"), "added");

    let mut object = json(r#"{"role": "user", "content": {"text": "inner"}}"#);
    append_text_to_message_content(&mut object, "added").unwrap();
    assert_eq!(text(&object, "content"), "inner\n\nadded");

    let mut not_object = json(r#""text""#);
    assert_eq!(
        append_text_to_message_content(&mut not_object, "added").unwrap_err(),
        "message must be a JSON object"
    );
}

#[test]
fn test_content_value_to_text_forms() {
    assert_eq!(content_value_to_text(&json(r#""plain""#)), "plain");
    assert_eq!(
        content_value_to_text(&json(r#"["a", {"text": "b"}, {"input_text": "c"}, {"image": "x"}]"#)),
        "a\nb\nc"
    );
    assert_eq!(content_value_to_text(&json(r#"{"text": "t"}"#)), "t");
    assert_eq!(content_value_to_text(&json("null")), "");
    assert_eq!(content_value_to_text(&json("true")), "true");
    assert_eq!(content_value_to_text(&json("42")), "42");
}

#[test]
fn test_sanitize_reference_message_roles() {
    let kept = sanitize_reference_message(&json(r#"{"role": "user", "content": "hi", "name": "x"}"#)).unwrap();
    assert_eq!(text(&kept, "role"), "user");
    assert_eq!(text(&kept, "content"), "hi");
    assert!(get(&kept, "name").is_none());
    assert!(sanitize_reference_message(&json(r#"{"role": "tool", "content": "hi"}"#)).is_none());
    assert!(sanitize_reference_message(&json(r#"{"role": "user", "content": " "}"#)).is_none());
    assert!(sanitize_reference_message(&json(r#"{"role": "user"}"#)).is_none());
}

#[test]
fn test_extract_assistant_text_and_reference_output() {
    let answer = json(
        r#"{"choices": [{"message": {"content": "  "}}, {"message": {"content": "second"}}]}"#,
    );
    assert_eq!(extract_assistant_text(&answer), Some("second".to_string()));
    let empty = json(r#"{"choices": [{"message": {"role": "assistant"}}]}"#);
    assert_eq!(extract_assistant_text(&empty), None);

    let out = reference_output("deep", "Deep", &answer).unwrap();
    assert_eq!(out.group_alias, "deep");
    assert_eq!(out.display_name, "Deep");
    assert_eq!(out.content, "second");
    assert_eq!(
        reference_output("deep", "Deep", &empty).unwrap_err(),
        "reference group 'deep' returned no assistant content"
    );
}

#[test]
fn test_combine_references_outcomes() {
    let ok = Ok(reference("a", "A", "x"));
    let failed: Result<MoaReferenceOutput, String> = Err("boom".to_string());

    let refs = combine_references(vec![ok.clone(), failed.clone()], false, "moa").unwrap();
    assert_eq!(refs.len(), 1);
    assert_eq!(refs[0].group_alias, "a");

    assert_eq!(
        combine_references(vec![ok.clone(), failed.clone()], true, "moa").unwrap_err(),
        "MoA reference failure(s) for group 'moa': boom"
    );
    assert_eq!(
        combine_references(vec![failed.clone(), Err("late".to_string())], false, "moa").unwrap_err(),
        "All MoA references failed for group 'moa': boom; late"
    );
    assert_eq!(
        combine_references(vec![], false, "moa").unwrap_err(),
        "All MoA references failed for group 'moa': no reference groups were configured"
    );
}

#[test]
fn test_reference_response_json_statuses() {
    let ok = reference_response_json(200, br#"{"a": 1}"#, "g").unwrap().unwrap();
    assert!(get(&ok, "a").is_some());
    let invalid = reference_response_json(200, b"nope", "g").unwrap().unwrap_err();
    assert!(invalid.starts_with("group 'g' returned invalid JSON: "));
    let failed = reference_response_json(502, b"bad gateway", "g").unwrap().unwrap_err();
    assert_eq!(failed, "group 'g' returned HTTP 502: bad gateway");
}
