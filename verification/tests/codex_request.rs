use coderouter_proxy::codex_request::{
    openai_to_codex_request, openai_to_codex_request_with_id, supports_codex_sampling_params,
    uses_openai_gpt5_defaults, uses_openai_gpt5_text_verbosity,
};
use coderouter_proxy::json::{parse_json, JsonValue};
use serde_json::Value;

fn body(text: &str) -> JsonValue {
    parse_json(text).expect("valid JSON")
}

fn value(text: &str) -> Value {
    serde_json::from_str(text).expect("the request is JSON")
}

#[test]
fn test_openai_to_codex_request_basic() {
    let openai_req = body(
        r#"{"model":"gpt-5-codex","messages":[{"role":"system","content":"You are helpful."},{"role":"user","content":"Hello"}],"max_tokens":100,"temperature":0.7}"#,
    );
    let result = value(&openai_to_codex_request_with_id(&openai_req, "gpt-5-codex", "request-123"));
    assert_eq!(result["model"], "gpt-5-codex");
    assert_eq!(result["stream"], true);
    assert_eq!(result["store"], false);
    assert_eq!(result["include"][0], "reasoning.encrypted_content");
    assert_eq!(result["reasoning"]["effort"], "medium");
    assert_eq!(result["reasoning"]["summary"], "auto");
    assert!(result.get("tools").is_none());
    assert!(result.get("tool_choice").is_none());
    assert!(result.get("parallel_tool_calls").is_none());
    assert_eq!(result["prompt_cache_key"], "request-123");
    assert!(result.get("client_metadata").is_none());
    assert_eq!(result["instructions"], "You are helpful.");
    assert_eq!(result["input"].as_array().unwrap().len(), 1);
    assert_eq!(result["input"][0]["role"], "user");
    assert_eq!(result["input"][0]["content"][0]["text"], "Hello");
    assert!(result.get("max_output_tokens").is_none());
    assert_eq!(result["temperature"], 0.7);
}

#[test]
fn test_openai_to_codex_request_drops_sampling_for_gpt_5_dot_models() {
    let openai_req = body(r#"{"messages":[{"role":"user","content":"Hello"}],"temperature":0.2,"top_p":0.9}"#);
    let result = value(&openai_to_codex_request(&openai_req, "gpt-5.5"));
    assert!(result.get("temperature").is_none());
    assert!(result.get("top_p").is_none());
}

#[test]
fn test_openai_to_codex_request_defaults_instructions() {
    let openai_req = body(r#"{"messages":[{"role":"user","content":"test"}]}"#);
    let result = value(&openai_to_codex_request(&openai_req, "model"));
    assert_eq!(result["instructions"], "You are a helpful assistant.");
}

#[test]
fn test_openai_to_codex_request_tools() {
    let openai_req = body(
        r#"{"messages":[{"role":"user","content":"test"}],"tools":[{"type":"function","function":{"name":"get_weather","description":"Get weather","parameters":{"type":"object","properties":{}}}}]}"#,
    );
    let result = value(&openai_to_codex_request(&openai_req, "model"));
    assert!(result.get("parallel_tool_calls").is_none());
    let tools = result["tools"].as_array().unwrap();
    assert_eq!(tools.len(), 1);
    assert_eq!(tools[0]["type"], "function");
    assert_eq!(tools[0]["name"], "get_weather");
}

#[test]
fn test_openai_to_codex_request_reasoning() {
    let openai_req = body(r#"{"messages":[{"role":"user","content":"test"}],"reasoning_effort":"high"}"#);
    let result = value(&openai_to_codex_request(&openai_req, "model"));
    assert_eq!(result["reasoning"]["effort"], "high");
}

#[test]
fn test_openai_to_codex_request_existing_reasoning_object() {
    let openai_req = body(
        r#"{"messages":[{"role":"user","content":"test"}],"reasoning":{"effort":"medium","summary":"auto"}}"#,
    );
    let result = value(&openai_to_codex_request(&openai_req, "model"));
    assert_eq!(result["reasoning"]["effort"], "medium");
    assert_eq!(result["reasoning"]["summary"], "auto");
}

#[test]
fn codex_request_text_is_exact_for_a_small_request() {
    let openai_req = body(r#"{"messages":[{"role":"user","content":"hi"}]}"#);
    assert_eq!(
        openai_to_codex_request_with_id(&openai_req, "m", "id-1"),
        r#"{"input":[{"content":[{"text":"hi","type":"input_text"}],"role":"user"}],"instructions":"You are a helpful assistant.","model":"m","prompt_cache_key":"id-1","store":false,"stream":true}"#
    );
}

#[test]
fn codex_request_matches_serde_for_a_rich_request() {
    let text = r#"{"instructions":"Top","messages":[{"role":"developer","content":[{"type":"text","text":"A"},{"type":"text","text":"B"}]},{"role":"user","content":[{"type":"text","text":"look"},{"type":"image_url","image_url":{"url":"http://x/y.png"}},{"type":"audio"}]},{"role":"assistant","content":"ok","tool_calls":[{"id":"c1","function":{"name":"f","arguments":{"a":1}}}]},{"role":"tool","tool_call_id":"c1","content":{"r":2}},{"role":"other","content":"skip"}],"tool_choice":{"type":"function","function":{"name":"f"}},"store":true,"prompt_cache_key":"pk","include":[],"text":{"verbosity":"high"},"tools":[{"type":"function","function":{"name":"","description":"x"}},{"type":"function","function":{"name":"g","strict":true}},{"type":"web"}]}"#;
    let r = value(&openai_to_codex_request_with_id(&body(text), "gpt-5.1", "id"));
    assert_eq!(r["instructions"], "Top\n\nAB");
    assert_eq!(r["input"][0]["content"][1]["type"], "input_image");
    assert_eq!(r["input"][0]["content"][1]["image_url"], "http://x/y.png");
    assert_eq!(r["input"][0]["content"].as_array().unwrap().len(), 2);
    assert_eq!(r["input"][1]["content"][0]["type"], "output_text");
    assert_eq!(r["input"][2]["type"], "function_call");
    assert_eq!(r["input"][2]["arguments"], r#"{"a":1}"#);
    assert_eq!(r["input"][3]["type"], "function_call_output");
    assert_eq!(r["input"][3]["output"], r#"{"r":2}"#);
    assert_eq!(r["input"].as_array().unwrap().len(), 4);
    assert_eq!(r["tool_choice"]["name"], "f");
    assert_eq!(r["store"], true);
    assert_eq!(r["prompt_cache_key"], "pk");
    assert!(r.get("include").is_none());
    assert_eq!(r["text"]["verbosity"], "high");
    assert_eq!(r["tools"].as_array().unwrap().len(), 1);
    assert_eq!(r["tools"][0]["strict"], true);
    assert_eq!(r["tools"][0]["parameters"]["type"], "object");
    assert_eq!(r["reasoning"]["effort"], "medium");
    let reparsed: Value = serde_json::from_str(&serde_json::to_string(&r).unwrap()).unwrap();
    assert_eq!(serde_json::to_string(&reparsed).unwrap(), openai_to_codex_request_with_id(&body(text), "gpt-5.1", "id"));
}

#[test]
fn model_families() {
    assert!(uses_openai_gpt5_defaults("GPT-5-codex"));
    assert!(!uses_openai_gpt5_defaults("gpt-5-chat-latest"));
    assert!(!uses_openai_gpt5_defaults("gpt-5-pro"));
    assert!(uses_openai_gpt5_text_verbosity("gpt-5.1"));
    assert!(!uses_openai_gpt5_text_verbosity("gpt-5.1-codex"));
    assert!(!supports_codex_sampling_params("gpt-5.5"));
    assert!(supports_codex_sampling_params("gpt-5"));
}
