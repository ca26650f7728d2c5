use coderouter_proxy::json::{parse_json, JsonNumber, JsonValue};
use coderouter_proxy::translator::{
    anthropic_headers, anthropic_to_openai, build_openai_response, openai_to_anthropic,
    AnthropicContentBlock, AnthropicToOpenAIStream, AnthropicUsage, MessagesResponse,
};

fn body(text: &str) -> JsonValue {
    parse_json(text).expect("valid JSON")
}

fn response(text: Option<&str>, stop: Option<&str>, input: u64, output: u64) -> MessagesResponse {
    MessagesResponse {
        id: "msg_abc123".to_string(),
        response_type: "message".to_string(),
        role: "assistant".to_string(),
        content: vec![AnthropicContentBlock {
            text: text.map(|t| t.to_string()),
            content_type: "text".to_string(),
        }],
        model: "sonnet-4-20250514".to_string(),
        stop_reason: stop.map(|s| s.to_string()),
        stop_sequence: None,
        usage: AnthropicUsage { input_tokens: input, output_tokens: output },
    }
}

fn float_value(n: &Option<JsonNumber>) -> Option<f64> {
    match n {
        Some(JsonNumber::Float(t)) => Some(t.parse::<f64>().unwrap()),
        Some(JsonNumber::PosInt(u)) => Some(*u as f64),
        Some(JsonNumber::NegInt(i)) => Some(*i as f64),
        None => None,
    }
}

#[test]
fn test_openai_to_anthropic_basic() {
    let openai_req = body(
        r#"{"model":"test-model","messages":[{"role":"system","content":"You are helpful."},{"role":"user","content":"Hello"}],"max_tokens":100,"temperature":0.7,"stream":true}"#,
    );
    let result = openai_to_anthropic(&openai_req, "sonnet-4-20250514");
    assert_eq!(result.model, "sonnet-4-20250514");
    assert_eq!(result.system, Some("You are helpful.".to_string()));
    assert_eq!(result.messages.len(), 1);
    assert_eq!(result.messages[0].role, "user");
    assert_eq!(result.messages[0].content, "Hello");
    assert_eq!(result.max_tokens, 100);
    assert_eq!(float_value(&result.temperature), Some(0.7));
    assert_eq!(result.stream, Some(true));
}

#[test]
fn test_openai_to_anthropic_multiple_system_messages() {
    let openai_req = body(
        r#"{"messages":[{"role":"system","content":"Part 1"},{"role":"system","content":"Part 2"},{"role":"user","content":"Hi"},{"role":"assistant","content":"Hey"},{"role":"user","content":"Bye"}]}"#,
    );
    let result = openai_to_anthropic(&openai_req, "sonnet-model");
    assert_eq!(result.system, Some("Part 1\n\nPart 2".to_string()));
    assert_eq!(result.messages.len(), 3);
    assert_eq!(result.messages[0].role, "user");
    assert_eq!(result.messages[1].role, "assistant");
    assert_eq!(result.messages[2].role, "user");
}

#[test]
fn test_openai_to_anthropic_default_max_tokens() {
    let openai_req = body(r#"{"messages":[{"role":"user","content":"test"}]}"#);
    let result = openai_to_anthropic(&openai_req, "model");
    assert_eq!(result.max_tokens, 4096);
}

#[test]
fn test_openai_to_anthropic_drops_unsupported_fields() {
    let openai_req = body(
        r#"{"messages":[{"role":"user","content":"test"}],"n":2,"logprobs":true,"presence_penalty":0.5}"#,
    );
    let result = openai_to_anthropic(&openai_req, "model");
    assert!(result.temperature.is_none());
    assert!(result.top_p.is_none());
}

#[test]
fn openai_to_anthropic_serializes_non_string_content() {
    let openai_req = body(
        r#"{"messages":[{"role":"user","content":[{"type":"text","text":"hi"}]},{"role":"tool","content":"dropped"}],"stream":"yes"}"#,
    );
    let result = openai_to_anthropic(&openai_req, "m");
    assert_eq!(result.messages.len(), 1);
    assert_eq!(result.messages[0].content, r#"[{"text":"hi","type":"text"}]"#);
    assert_eq!(result.system, None);
    assert_eq!(result.stream, None);
}

#[test]
fn test_anthropic_to_openai_non_streaming() {
    let anthropic_resp = response(Some("Hello, world!"), Some("end_turn"), 10, 5);
    let result = anthropic_to_openai(&anthropic_resp, "my-group");
    assert_eq!(result.object, "chat.completion");
    assert_eq!(result.model, "my-group");
    assert_eq!(result.choices.len(), 1);
    assert_eq!(result.choices[0].message.role, "assistant");
    assert_eq!(result.choices[0].message.content, "Hello, world!");
    assert_eq!(result.choices[0].finish_reason, "stop");
    assert_eq!(result.usage.prompt_tokens, 10);
    assert_eq!(result.usage.completion_tokens, 5);
    assert_eq!(result.usage.total_tokens, 15);
    assert!(result.id.starts_with("chatcmpl-"));
}

#[test]
fn test_anthropic_to_openai_max_tokens_stop() {
    let anthropic_resp = response(Some("truncated"), Some("max_tokens"), 100, 4096);
    let result = anthropic_to_openai(&anthropic_resp, "group");
    assert_eq!(result.choices[0].finish_reason, "length");
}

#[test]
fn build_openai_response_maps_stop_reasons_and_missing_text() {
    let r = build_openai_response(&response(None, Some("tool_use"), 1, 2), "g", "id-1".to_string(), 7);
    assert_eq!(r.choices[0].finish_reason, "tool_calls");
    assert_eq!(r.choices[0].message.content, "");
    assert_eq!(r.id, "id-1");
    assert_eq!(r.created, 7);
    let r2 = build_openai_response(&response(Some("x"), None, 1, 2), "g", "id-2".to_string(), 8);
    assert_eq!(r2.choices[0].finish_reason, "stop");
    let r3 = build_openai_response(&response(Some("x"), Some("other"), 1, 2), "g", "id-3".to_string(), 8);
    assert_eq!(r3.choices[0].finish_reason, "stop");
}

#[test]
fn test_anthropic_headers() {
    let headers = anthropic_headers("sk-ant-test-key");
    assert_eq!(headers.len(), 3);
    assert_eq!(headers[0], ("x-api-key".to_string(), "sk-ant-test-key".to_string()));
    assert_eq!(headers[1], ("anthropic-version".to_string(), "2024-06-01".to_string()));
    assert_eq!(headers[2], ("content-type".to_string(), "application/json".to_string()));
}

fn streamer() -> AnthropicToOpenAIStream {
    let mut s = AnthropicToOpenAIStream::new("test-group".to_string());
    s.chat_id = "chatcmpl-test".to_string();
    s
}

#[test]
fn test_stream_translation_message_start() {
    let streamer = streamer();
    let data = r#"{"type":"message_start","message":{"id":"msg_123"}}"#;
    let result = streamer.translate_event(data).unwrap();
    assert!(result.contains("chatcmpl-test"));
    assert!(result.contains("chat.completion.chunk"));
    assert!(result.contains("test-group"));
    assert!(result.contains("\"role\":\"assistant\""));
}

#[test]
fn test_stream_translation_content_delta() {
    let streamer = streamer();
    let data = r#"{"type":"content_block_delta","index":0,"delta":{"type":"text_delta","text":"Hello"}}"#;
    let result = streamer.translate_event(data).unwrap();
    assert!(result.contains("\"content\":\"Hello\""));
    assert!(result.contains("chatcmpl-test"));
}

#[test]
fn test_stream_translation_message_delta_stop() {
    let streamer = streamer();
    let data = r#"{"type":"message_delta","delta":{"stop_reason":"end_turn","stop_sequence":null},"usage":{"output_tokens":10}}"#;
    let result = streamer.translate_event(data).unwrap();
    assert!(result.contains("\"finish_reason\":\"stop\""));
}

#[test]
fn test_stream_translation_message_stop() {
    let streamer = AnthropicToOpenAIStream::new("test-group".to_string());
    let data = r#"{"type":"message_stop"}"#;
    let result = streamer.translate_event(data).unwrap();
    assert!(result.contains("[DONE]"));
}

#[test]
fn test_stream_translation_unknown_event_skipped() {
    let streamer = AnthropicToOpenAIStream::new("test-group".to_string());
    let data = r#"{"type":"ping"}"#;
    let result = streamer.translate_event(data);
    assert!(result.is_none());
}

#[test]
fn stream_chunk_text_is_exact() {
    let streamer = streamer();
    let out = streamer
        .translate_event(r#"{"type":"content_block_delta","delta":{"text":"a\"b"}}"#)
        .unwrap();
    assert_eq!(
        out,
        "data: {\"id\":\"chatcmpl-test\",\"object\":\"chat.completion.chunk\",\"model\":\"test-group\",\"choices\":[{\"index\":0,\"delta\":{\"content\":\"a\\\"b\"},\"finish_reason\":null}]}\n\n"
    );
    let start = streamer.translate_event(r#"{"type":"message_start"}"#).unwrap();
    assert_eq!(
        start,
        "data: {\"id\":\"chatcmpl-test\",\"object\":\"chat.completion.chunk\",\"model\":\"test-group\",\"choices\":[{\"index\":0,\"delta\":{\"role\":\"assistant\",\"content\":\"\"},\"finish_reason\":null}]}\n\n"
    );
}

#[test]
fn stream_skips_empty_text_bad_json_and_unknown_stop_reasons() {
    let streamer = streamer();
    assert!(streamer.translate_event(r#"{"type":"content_block_delta","delta":{"text":""}}"#).is_none());
    assert!(streamer.translate_event("not json").is_none());
    assert!(streamer.translate_event(r#"{"kind":"message_stop"}"#).is_none());
    assert!(streamer.translate_event(r#"{"type":"message_delta","delta":{"stop_reason":"tool_use"}}"#).is_none());
    assert!(streamer.translate_event(r#"{"type":"message_stop","index":-1}"#).is_none());
    let len = streamer
        .translate_event(r#"{"type":"message_delta","delta":{"stop_reason":"max_tokens"}}"#)
        .unwrap();
    assert!(len.contains("\"finish_reason\":\"length\""));
    assert_eq!(streamer.translate_event(r#"["message_stop"]"#).unwrap(), "data: [DONE]\n\n");
}

#[test]
fn stream_lines_are_framed_by_newlines() {
    let mut s = streamer();
    assert!(s.push_chunk(b"data: {\"type\":\"message_st").is_none());
    assert_eq!(s.buffer.len(), "data: {\"type\":\"message_st".len());
    let out = s.push_chunk(b"op\"}\r\nrest").unwrap();
    assert_eq!(out, "data: [DONE]\n\n");
    assert_eq!(s.buffer, b"rest".to_vec());
    assert!(s.push_chunk(b"\n").is_none());
    assert!(s.buffer.is_empty());
    assert!(s.push_chunk(b"data:{\"type\":\"message_stop\"}\n").is_some());
    assert!(s.push_chunk(b"event: ping\n").is_none());
}

#[test]
fn stream_finish_translates_what_is_left() {
    let mut s = streamer();
    assert!(s.push_chunk(b"data: {\"type\":\"message_stop\"}").is_none());
    assert_eq!(s.finish().unwrap(), "data: [DONE]\n\n");
    assert!(s.done);
    assert!(s.buffer.is_empty());
    assert!(s.finish().is_none());
    assert!(s.push_chunk(b"data: {\"type\":\"message_stop\"}\n").is_none());
}
