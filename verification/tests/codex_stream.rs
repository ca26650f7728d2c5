use coderouter_proxy::codex_stream::{apply_sse_event_type, CodexStreamState, CodexToOpenAIStream, PollStep};
use coderouter_proxy::translator::StreamTokenCounts;

fn make_streamer() -> CodexToOpenAIStream {
    let counts = StreamTokenCounts { input_tokens: 0, output_tokens: 0 };
    let mut streamer = CodexToOpenAIStream::new("test-group".to_string(), counts);
    streamer.chat_id = "chatcmpl-test".to_string();
    streamer
}

fn emitted(step: PollStep) -> String {
    match step {
        PollStep::Emit(s) => s,
        _ => panic!("expected output"),
    }
}

#[test]
fn test_codex_stream_translation_delta() {
    let mut streamer = make_streamer();
    let data = r#"{"type":"response.output_text.delta","delta":"Hello"}"#;
    let result = streamer.translate_event(data).unwrap().unwrap();
    assert!(result.contains("chat.completion.chunk"));
    assert!(result.contains("Hello"));
    assert!(result.contains("assistant"));
}

#[test]
fn test_codex_stream_translation_delta_without_type() {
    let mut streamer = make_streamer();
    let data = r#"{"delta":"Hello"}"#;
    let result = streamer.translate_event(data).unwrap().unwrap();
    assert!(result.contains("chat.completion.chunk"));
    assert!(result.contains("Hello"));
}

#[test]
fn test_apply_sse_event_type_adds_missing_type() {
    let typed = apply_sse_event_type(r#"{"delta":"Hello"}"#, "response.output_text.delta");
    let value: serde_json::Value = serde_json::from_str(&typed).unwrap();
    assert_eq!(value["type"], "response.output_text.delta");
    assert_eq!(value["delta"], "Hello");
}

#[test]
fn apply_sse_event_type_variants() {
    assert_eq!(apply_sse_event_type(r#"{"a":1,"z":2}"#, "t"), r#"{"a":1,"type":"t","z":2}"#);
    assert_eq!(apply_sse_event_type(r#"{"type":"keep","a":1}"#, "t"), r#"{"a":1,"type":"keep"}"#);
    assert_eq!(apply_sse_event_type(r#""hi""#, "x.delta"), r#"{"delta":"hi","type":"x.delta"}"#);
    assert_eq!(apply_sse_event_type(r#""hi""#, "x.done"), r#"{"data":"hi","type":"x.done"}"#);
    assert_eq!(apply_sse_event_type("[1,2]", "x.done"), r#"{"data":[1,2],"type":"x.done"}"#);
    assert_eq!(apply_sse_event_type("raw text", "x.delta"), r#"{"delta":"raw text","type":"x.delta"}"#);
    assert_eq!(apply_sse_event_type("raw text", "other"), r#"{"data":"raw text","type":"other"}"#);
}

#[test]
fn test_codex_stream_translation_completed_nested_usage() {
    let mut streamer = make_streamer();
    let data = r#"{"type":"response.completed","response":{"usage":{"input_tokens":10,"output_tokens":5}}}"#;
    let result = streamer.translate_event(data).unwrap().unwrap();
    assert!(result.contains("[DONE]"));
    assert!(result.contains("\"finish_reason\":\"stop\""));
    assert_eq!(streamer.token_counts.input_tokens, 10);
    assert_eq!(streamer.token_counts.output_tokens, 5);
}

#[test]
fn test_codex_stream_translation_completed_top_level_usage() {
    let mut streamer = make_streamer();
    let data = r#"{"type":"response.completed","usage":{"input_tokens":7,"output_tokens":3}}"#;
    let result = streamer.translate_event(data).unwrap().unwrap();
    assert!(result.contains("[DONE]"));
    assert_eq!(streamer.token_counts.input_tokens, 7);
    assert_eq!(streamer.token_counts.output_tokens, 3);
}

#[test]
fn test_codex_stream_translation_failed_is_error() {
    let mut streamer = make_streamer();
    let data = r#"{"type":"response.failed","response":{"status_details":"rate_limit_exceeded"}}"#;
    let result = streamer.translate_event(data);
    assert!(result.is_err());
    let err = result.unwrap_err();
    assert!(err.to_string().contains("rate_limit_exceeded"));
}

#[test]
fn test_codex_stream_translation_incomplete_finishes_with_length() {
    let mut streamer = make_streamer();
    let data = r#"{"type":"response.incomplete","response":{"incomplete_details":{"reason":"max_output_tokens"}}}"#;
    let result = streamer.translate_event(data).unwrap().unwrap();
    assert!(result.contains("[DONE]"));
    assert!(result.contains("\"finish_reason\":\"length\""));
}

#[test]
fn codex_chunks_are_exact() {
    let mut s = make_streamer();
    let out = s.translate_event(r#"{"type":"response.output_text.delta","delta":"Hi"}"#).unwrap().unwrap();
    let role = "data: {\"choices\":[{\"delta\":{\"role\":\"assistant\"},\"finish_reason\":null,\"index\":0}],\"id\":\"chatcmpl-test\",\"model\":\"test-group\",\"object\":\"chat.completion.chunk\"}\n\n";
    let content = "data: {\"choices\":[{\"delta\":{\"content\":\"Hi\"},\"finish_reason\":null,\"index\":0}],\"id\":\"chatcmpl-test\",\"model\":\"test-group\",\"object\":\"chat.completion.chunk\"}\n\n";
    assert_eq!(out, format!("{role}{content}"));
    assert!(s.has_sent_role);
    assert!(s.translate_event(r#"{"type":"response.output_text.delta","delta":""}"#).unwrap().is_none());
    let tool = s
        .translate_event(r#"{"type":"response.output_item.done","item":{"name":"f","call_id":"c1"}}"#)
        .unwrap()
        .unwrap();
    assert_eq!(
        tool,
        "data: {\"choices\":[{\"delta\":{\"tool_calls\":[{\"function\":{\"arguments\":\"{}\",\"name\":\"f\"},\"id\":\"c1\",\"index\":0,\"type\":\"function\"}]},\"finish_reason\":null,\"index\":0}],\"id\":\"chatcmpl-test\",\"model\":\"test-group\",\"object\":\"chat.completion.chunk\"}\n\n"
    );
    assert!(s.translate_event(r#"{"type":"response.output_item.done","item":{"type":"message"}}"#).unwrap().is_none());
}

#[test]
fn codex_error_messages() {
    let mut s = make_streamer();
    let e = s.translate_event(r#"{"type":"error","code":"bad","message":"broken"}"#).unwrap_err();
    assert_eq!(e, "codex upstream error: bad: broken");
    let e = s.translate_event(r#"{"type":"error","response":{"error":{"code":"c"}}}"#).unwrap_err();
    assert_eq!(e, "codex upstream error: c");
    let e = s.translate_event(r#"{"type":"response.failed"}"#).unwrap_err();
    assert_eq!(e, "codex upstream error: response.failed");
    let f = s
        .translate_event(r#"{"type":"response.incomplete","response":{"incomplete_details":{"reason":"content_filter"}}}"#)
        .unwrap()
        .unwrap();
    assert!(f.contains("\"finish_reason\":\"content_filter\""));
}

#[test]
fn codex_poll_lines_events_and_end() {
    let mut s = make_streamer();
    assert!(matches!(s.resume(), PollStep::Pending));
    assert!(matches!(s.on_chunk(b"event: response.output_text.delta\n"), PollStep::Pending));
    assert_eq!(s.pending_event_type.as_deref(), Some("response.output_text.delta"));
    assert!(matches!(s.on_chunk(b"data: \"Hel"), PollStep::Pending));
    let out = emitted(s.on_chunk(b"lo\"\n"));
    assert!(out.contains("\"content\":\"Hello\""));
    assert!(s.pending_event_type.is_none());
    let end = emitted(s.on_end());
    assert!(end.contains("\"finish_reason\":\"stop\""));
    assert!(end.ends_with("data: [DONE]\n\n"));
    assert!(matches!(s.state, CodexStreamState::Done));
    assert!(matches!(s.resume(), PollStep::End));
}

#[test]
fn codex_poll_failure_repeats_once() {
    let mut s = make_streamer();
    match s.on_chunk(b"data: {\"type\":\"error\",\"message\":\"boom\"}\n") {
        PollStep::Fail(e) => assert_eq!(e, "codex upstream error: boom"),
        _ => panic!("expected failure"),
    }
    match s.resume() {
        PollStep::Fail(e) => assert_eq!(e, "codex upstream error: boom"),
        _ => panic!("expected repeated failure"),
    }
    assert!(matches!(s.resume(), PollStep::End));
}

#[test]
fn codex_end_drains_remaining_lines() {
    let mut s = make_streamer();
    assert!(matches!(s.on_chunk(b"data: {\"delta\":\"a\"}\r"), PollStep::Pending));
    let out = emitted(s.on_end());
    assert!(out.contains("\"content\":\"a\""));
    assert!(s.buffer.is_empty());
    let end = emitted(s.on_end());
    assert!(!end.contains("assistant"));
    assert!(end.contains("[DONE]"));
}
