//! What the proxy does with an upstream response: which way it is handled,
//! the error it becomes, and the client body made of a JSON answer.

use vstd::prelude::*;
use crate::json::{JsonValue, get, as_u64, get_member, u64_of, parse_json_bytes, json_parse_bytes};
use crate::json_model::{JsonModel, model_of, model_members, m_set, obj_set};
use crate::codex::member_opt;
use crate::codex_stream::member_ref;
use crate::translator::MessagesResponse;
use crate::text::{cat, cat3, find_seq, find_chars, chars_of};

verus! {

/// How an upstream response is handled.
#[derive(Clone, Copy, Debug, PartialEq, Eq, Structural)]
pub enum ResponseRoute {
    /// HTTP 429: the entry is rate limited.
    RateLimited,
    /// Any other status outside 2xx: a server error with the body's text.
    Failed,
    /// A Codex response stream translated into chat-completion chunks.
    CodexStream,
    /// A Codex response stream gathered into one chat completion.
    CodexAggregate,
    /// An Anthropic event stream translated into chat-completion chunks.
    AnthropicStream,
    /// An OpenAI-compatible event stream passed on.
    OpenAIStream,
    /// An Anthropic JSON answer translated into a chat completion.
    AnthropicBody,
    /// An OpenAI-compatible JSON answer, relabelled with the group alias.
    OpenAIBody,
}

/// Whether a status is a success (2xx).
pub open spec fn is_success(status: u16) -> bool {
    200 <= status <= 299
}

/// The route for a response's status, whether the client asked for a
/// stream, the upstream protocol and the response's content type. Codex
/// always answers with a stream; other upstreams stream only when the
/// client asked and the content type is `text/event-stream`.
pub open spec fn route_of(status: u16, stream: bool, is_anthropic: bool, is_codex: bool, content_type: Seq<char>) -> ResponseRoute {
    if status == 429 {
        ResponseRoute::RateLimited
    } else if !is_success(status) {
        ResponseRoute::Failed
    } else if is_codex {
        if stream {
            ResponseRoute::CodexStream
        } else {
            ResponseRoute::CodexAggregate
        }
    } else if stream && find_seq(content_type, "text/event-stream"@) is Some {
        if is_anthropic {
            ResponseRoute::AnthropicStream
        } else {
            ResponseRoute::OpenAIStream
        }
    } else if is_anthropic {
        ResponseRoute::AnthropicBody
    } else {
        ResponseRoute::OpenAIBody
    }
}

/// Chooses how a response is handled; see [`route_of`].
pub fn response_route(status: u16, stream: bool, is_anthropic: bool, is_codex: bool, content_type: &str) -> (r: ResponseRoute)
    ensures
        r == route_of(status, stream, is_anthropic, is_codex, content_type@),
{
    if status == 429 {
        ResponseRoute::RateLimited
    } else if status < 200 || status > 299 {
        ResponseRoute::Failed
    } else if is_codex {
        if stream {
            ResponseRoute::CodexStream
        } else {
            ResponseRoute::CodexAggregate
        }
    } else {
        let event_stream = stream && {
            let ct = chars_of(content_type);
            let pat = chars_of("text/event-stream");
            find_chars(&ct, &pat).is_some()
        };
        if event_stream {
            if is_anthropic {
                ResponseRoute::AnthropicStream
            } else {
                ResponseRoute::OpenAIStream
            }
        } else if is_anthropic {
            ResponseRoute::AnthropicBody
        } else {
            ResponseRoute::OpenAIBody
        }
    }
}

/// The server error of a failed status: `HTTP <status>: <body>`, with the
/// status as it displays (code and reason).
pub fn http_error_message(status: &str, body: &str) -> (r: String)
    ensures
        r@ == "HTTP "@ + status@ + ": "@ + body@,
{
    let head = cat("HTTP ", status);
    cat3(head.as_str(), ": ", body)
}

/// A count under `usage`, or zero.
pub open spec fn usage_count(json: JsonValue, key: Seq<char>) -> u64 {
    match u64_of(member_opt(get_member(json, "usage"@), key)) {
        Some(n) => n,
        None => 0,
    }
}

/// The prompt and completion token counts of an OpenAI-style answer's
/// `usage`; a count that is missing is zero.
pub fn extract_openai_tokens(json: &JsonValue) -> (r: (u64, u64))
    ensures
        r == (usage_count(*json, "prompt_tokens"@), usage_count(*json, "completion_tokens"@)),
{
    let usage = get(json, "usage");
    let prompt = match as_u64(member_ref(usage, "prompt_tokens")) {
        Some(n) => n,
        None => 0,
    };
    let completion = match as_u64(member_ref(usage, "completion_tokens")) {
        Some(n) => n,
        None => 0,
    };
    (prompt, completion)
}

/// The input and output token counts of an Anthropic answer.
pub fn extract_anthropic_tokens(resp: &MessagesResponse) -> (r: (u64, u64))
    ensures
        r == (resp.usage.input_tokens, resp.usage.output_tokens),
{
    (resp.usage.input_tokens, resp.usage.output_tokens)
}

/// An answer relabelled with the group alias: an object gets its `model`
/// set; anything else stays as it is.
pub open spec fn relabelled(v: JsonModel, alias: Seq<char>) -> JsonModel {
    match v {
        JsonModel::Obj(ms) => JsonModel::Obj(m_set(ms, "model"@, JsonModel::Str(alias))),
        _ => v,
    }
}

/// The client body of an OpenAI-compatible JSON answer: the parsed answer
/// relabelled with the group alias, with its prompt and completion token
/// counts; text that is not JSON is a server error
/// `invalid upstream JSON: <parse error>`.
pub fn openai_json_response(bytes: &[u8], group_alias: &str) -> (r: Result<(JsonValue, u64, u64), String>)
    ensures
        match json_parse_bytes(bytes@) {
            Ok(v) => r matches Ok((b, p, c)) && model_of(b) == relabelled(model_of(v), group_alias@)
                && p == usage_count(v, "prompt_tokens"@) && c == usage_count(v, "completion_tokens"@),
            Err(e) => r matches Err(m) && m@ == "invalid upstream JSON: "@ + e,
        },
{
    match parse_json_bytes(bytes) {
        Err(e) => Err(cat("invalid upstream JSON: ", e.as_str())),
        Ok(json) => {
            let (p, c) = extract_openai_tokens(&json);
            match json {
                JsonValue::Object(mut members) => {
                    obj_set(&mut members, String::from_str("model"), JsonValue::Str(String::from_str(group_alias)));
                    Ok((JsonValue::Object(members), p, c))
                },
                other => Ok((other, p, c)),
            }
        },
    }
}

} // verus!
