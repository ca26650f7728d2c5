use coderouter_proxy::codex_aggregate::CodexAggregate;
use coderouter_proxy::json::{as_str, as_u64, get, to_json_string, JsonValue};
use coderouter_proxy::response::{
    extract_openai_tokens, http_error_message, openai_json_response, response_route, ResponseRoute,
};

fn aggregate(chunks: &[&[u8]]) -> Result<JsonValue, String> {
    let mut agg = CodexAggregate::new("codex-test".to_string());
    for chunk in chunks {
        agg.on_chunk(chunk)?;
    }
    agg.on_end()?;
    Ok(agg.response_with("chatcmpl-fixed", 7))
}

fn at<'a>(v: &'a JsonValue, path: &[&str]) -> &'a JsonValue {
    let mut cur = v;
    for key in path {
        cur = match (key.parse::<usize>(), cur) {
            (Ok(i), JsonValue::Array(items)) => &items[i],
            _ => get(cur, key).unwrap_or_else(|| panic!("missing {key}")),
        };
    }
    cur
}

fn text_at<'a>(v: &'a JsonValue, path: &[&str]) -> &'a str {
    as_str(Some(at(v, path))).expect("string")
}

#[test]
fn test_aggregate_codex_stream_handles_split_sse_line() {
    let event = r#"data: {"type":"response.output_text.delta","delta":"hello"}

data: {"type":"response.completed","response":{"usage":{"input_tokens":2,"output_tokens":3}}}

"#
    .as_bytes();
    let json = aggregate(&[&event[..20], &event[20..55], &event[55..]]).unwrap();

    assert_eq!(text_at(&json, &["choices", "0", "message", "content"]), "hello");
    assert_eq!(text_at(&json, &["choices", "0", "finish_reason"]), "stop");
    assert_eq!(as_u64(Some(at(&json, &["usage", "prompt_tokens"]))), Some(2));
    assert_eq!(as_u64(Some(at(&json, &["usage", "completion_tokens"]))), Some(3));
}

#[test]
fn test_aggregate_codex_stream_errors_on_failed_event() {
    let err = aggregate(&[
        br#"data: {"type":"response.failed","response":{"status_details":"do not expose token abc"}}

"#,
    ])
    .unwrap_err();
    assert_eq!(err, "codex upstream response failed");
}

#[test]
fn test_aggregate_codex_stream_incomplete_finishes_with_length() {
    let json = aggregate(&[br#"data: {"type":"response.output_text.delta","delta":"hello"}

data: {"type":"response.incomplete","response":{"incomplete_details":{"reason":"max_output_tokens"}}}

"#])
    .unwrap();

    assert_eq!(text_at(&json, &["choices", "0", "message", "content"]), "hello");
    assert_eq!(text_at(&json, &["choices", "0", "finish_reason"]), "length");
}

#[test]
fn test_aggregate_codex_stream_collects_function_calls() {
    let json = aggregate(&[br#"data: {"type":"response.output_text.delta","delta":"I'll call a tool."}

data: {"type":"response.output_item.done","item":{"type":"function_call","call_id":"call_1","name":"lookup","arguments":"{\"q\":\"rust\"}"}}

data: {"type":"response.completed"}

"#])
    .unwrap();

    assert_eq!(text_at(&json, &["choices", "0", "message", "content"]), "I'll call a tool.");
    assert_eq!(text_at(&json, &["choices", "0", "message", "tool_calls", "0", "id"]), "call_1");
    assert_eq!(text_at(&json, &["choices", "0", "message", "tool_calls", "0", "type"]), "function");
    assert_eq!(text_at(&json, &["choices", "0", "message", "tool_calls", "0", "function", "name"]), "lookup");
    assert_eq!(
        text_at(&json, &["choices", "0", "message", "tool_calls", "0", "function", "arguments"]),
        r#"{"q":"rust"}"#
    );
    assert_eq!(text_at(&json, &["choices", "0", "finish_reason"]), "tool_calls");
}

#[test]
fn test_aggregate_response_exact_text() {
    let json = aggregate(&[b"data: {\"type\":\"response.output_text.delta\",\"delta\":\"hi\"}\r\n", b"data: {\"usage\":{\"input_tokens\":4,\"output_tokens\":1}}"]).unwrap();
    assert_eq!(
        to_json_string(&json),
        r#"{"choices":[{"finish_reason":"stop","index":0,"message":{"content":"hi","role":"assistant"}}],"created":7,"id":"chatcmpl-fixed","model":"codex-test","object":"chat.completion","usage":{"completion_tokens":1,"prompt_tokens":4,"total_tokens":5}}"#
    );
}

#[test]
fn test_aggregate_fresh_response_id() {
    let agg = CodexAggregate::new("g".to_string());
    let json = agg.response();
    let id = text_at(&json, &["id"]);
    assert!(id.starts_with("chatcmpl-"));
    assert_eq!(id.len(), "chatcmpl-".len() + 32);
}

#[test]
fn test_response_route_decisions() {
    assert_eq!(response_route(429, true, false, true, ""), ResponseRoute::RateLimited);
    assert_eq!(response_route(500, false, false, false, ""), ResponseRoute::Failed);
    assert_eq!(response_route(200, true, false, true, "application/json"), ResponseRoute::CodexStream);
    assert_eq!(response_route(200, false, false, true, "text/event-stream"), ResponseRoute::CodexAggregate);
    assert_eq!(response_route(200, true, true, false, "text/event-stream; charset=utf-8"), ResponseRoute::AnthropicStream);
    assert_eq!(response_route(200, true, false, false, "text/event-stream"), ResponseRoute::OpenAIStream);
    assert_eq!(response_route(200, true, true, false, "application/json"), ResponseRoute::AnthropicBody);
    assert_eq!(response_route(204, false, false, false, "text/event-stream"), ResponseRoute::OpenAIBody);
}

#[test]
fn test_openai_json_response_relabels_model() {
    let (body, prompt, completion) = openai_json_response(
        br#"{"id":"x","model":"upstream","usage":{"prompt_tokens":11,"completion_tokens":5}}"#,
        "my-group",
    )
    .unwrap();
    assert_eq!(
        to_json_string(&body),
        r#"{"id":"x","model":"my-group","usage":{"completion_tokens":5,"prompt_tokens":11}}"#
    );
    assert_eq!((prompt, completion), (11, 5));
    let err = openai_json_response(b"not json", "g").unwrap_err();
    assert!(err.starts_with("invalid upstream JSON: "));
    assert_eq!(extract_openai_tokens(&JsonValue::Null), (0, 0));
    assert_eq!(http_error_message("404 Not Found", "nope"), "HTTP 404 Not Found: nope");
}
