//! Translation between the Anthropic Messages API and the OpenAI chat
//! completion API: request messages, non-streaming responses, and the
//! streaming event protocol (Anthropic SSE events to OpenAI SSE chunks).

use vstd::prelude::*;
use crate::json::{
    JsonValue, JsonNumber, parse_json, json_parse, get, get_member, member_of, deref_opt, as_str,
    as_u64, as_bool, str_of, u64_of, bool_of, json_text, quoted, push_quoted, to_json_string,
};
use crate::text::{
    str_eq, cat, chars_of, append_str, string_from_chars, trim_chars, trim_ws, chars_slice,
    has_prefix, chars_starts_with,
};
use crate::ids::{uuid_short, short_id, system_time_millis};
use crate::seqs::{first_index, lemma_first_index_spec, lemma_first_index_unique, lemma_first_index_none};

verus! {

// ---------------------------------------------------------------------------
// Wire types
// ---------------------------------------------------------------------------

/// Token counts reported by a streamed response.
#[derive(Clone, Copy, Debug)]
pub struct StreamTokenCounts {
    pub input_tokens: u64,
    pub output_tokens: u64,
}

/// One message of an Anthropic request.
#[derive(Clone, Debug)]
pub struct AnthropicMessage {
    pub role: String,
    pub content: String,
}

/// A content block of an Anthropic response.
#[derive(Clone, Debug)]
pub struct AnthropicContentBlock {
    pub text: Option<String>,
    pub content_type: String,
}

/// Token usage of an Anthropic response.
#[derive(Clone, Copy, Debug)]
pub struct AnthropicUsage {
    pub input_tokens: u64,
    pub output_tokens: u64,
}

/// A non-streaming Anthropic response.
#[derive(Clone, Debug)]
pub struct MessagesResponse {
    pub id: String,
    pub response_type: String,
    pub role: String,
    pub content: Vec<AnthropicContentBlock>,
    pub model: String,
    pub stop_reason: Option<String>,
    pub stop_sequence: Option<String>,
    pub usage: AnthropicUsage,
}

/// An OpenAI chat message.
#[derive(Clone, Debug)]
pub struct OpenAIMessage {
    pub role: String,
    pub content: String,
}

/// One choice of an OpenAI chat completion.
#[derive(Clone, Debug)]
pub struct OpenAIChoice {
    pub index: u32,
    pub message: OpenAIMessage,
    pub finish_reason: String,
}

/// Token usage of an OpenAI chat completion.
#[derive(Clone, Copy, Debug)]
pub struct OpenAIUsage {
    pub prompt_tokens: u64,
    pub completion_tokens: u64,
    pub total_tokens: u64,
}

/// A non-streaming OpenAI chat completion.
#[derive(Clone, Debug)]
pub struct ChatCompletionResponse {
    pub id: String,
    pub object: String,
    pub created: u64,
    pub model: String,
    pub choices: Vec<OpenAIChoice>,
    pub usage: OpenAIUsage,
}

/// The delta of a streaming chunk.
#[derive(Clone, Debug)]
pub struct OpenAIChunkDelta {
    pub role: Option<String>,
    pub content: Option<String>,
}

/// One choice of a streaming chunk.
#[derive(Clone, Debug)]
pub struct OpenAIChunkChoice {
    pub index: u32,
    pub delta: OpenAIChunkDelta,
    pub finish_reason: Option<String>,
}

/// A streaming OpenAI chat completion chunk.
#[derive(Clone, Debug)]
pub struct ChatCompletionChunk {
    pub id: String,
    pub object: String,
    pub model: String,
    pub choices: Vec<OpenAIChunkChoice>,
}

// ---------------------------------------------------------------------------
// Non-streaming response
// ---------------------------------------------------------------------------

/// The OpenAI finish reason for an Anthropic stop reason.
pub open spec fn finish_reason_for(stop: Option<Seq<char>>) -> Seq<char> {
    match stop {
        Some(s) => if s == "end_turn"@ {
            "stop"@
        } else if s == "max_tokens"@ {
            "length"@
        } else if s == "stop_sequence"@ {
            "stop"@
        } else if s == "tool_use"@ {
            "tool_calls"@
        } else {
            "stop"@
        },
        None => "stop"@,
    }
}

pub open spec fn opt_view(s: Option<String>) -> Option<Seq<char>> {
    match s {
        Some(x) => Some(x@),
        None => None,
    }
}

fn finish_reason_exec(stop: &Option<String>) -> (r: &'static str)
    ensures
        r@ == finish_reason_for(opt_view(*stop)),
{
    match stop {
        Some(s) => {
            if str_eq(s.as_str(), "end_turn") {
                "stop"
            } else if str_eq(s.as_str(), "max_tokens") {
                "length"
            } else if str_eq(s.as_str(), "stop_sequence") {
                "stop"
            } else if str_eq(s.as_str(), "tool_use") {
                "tool_calls"
            } else {
                "stop"
            }
        },
        None => "stop",
    }
}

/// The text of the first content block, or empty.
pub open spec fn first_text(resp: MessagesResponse) -> Seq<char> {
    if resp.content@.len() > 0 && resp.content@[0].text is Some {
        resp.content@[0].text.unwrap()@
    } else {
        Seq::empty()
    }
}

/// An OpenAI response carrying an Anthropic response: the first block's
/// text as the one assistant choice, the mapped finish reason, the group
/// alias as model, and the token usage with its total.
pub open spec fn converts(r: ChatCompletionResponse, resp: MessagesResponse, alias: Seq<char>) -> bool {
    &&& r.object@ == "chat.completion"@
    &&& r.model@ == alias
    &&& r.choices@.len() == 1
    &&& r.choices@[0].index == 0
    &&& r.choices@[0].message.role@ == "assistant"@
    &&& r.choices@[0].message.content@ == first_text(resp)
    &&& r.choices@[0].finish_reason@ == finish_reason_for(opt_view(resp.stop_reason))
    &&& r.usage.prompt_tokens == resp.usage.input_tokens
    &&& r.usage.completion_tokens == resp.usage.output_tokens
    &&& r.usage.total_tokens == resp.usage.input_tokens + resp.usage.output_tokens
}

/// Builds the OpenAI response for an Anthropic response with the given id
/// and creation time.
pub fn build_openai_response(anthropic_resp: &MessagesResponse, group_alias: &str, id: String, created: u64) -> (r: ChatCompletionResponse)
    requires
        anthropic_resp.usage.input_tokens + anthropic_resp.usage.output_tokens <= u64::MAX,
    ensures
        converts(r, *anthropic_resp, group_alias@),
        r.id@ == id@,
        r.created == created,
{
    let text = if anthropic_resp.content.len() > 0 {
        match &anthropic_resp.content[0].text {
            Some(t) => t.clone(),
            None => String::new(),
        }
    } else {
        String::new()
    };
    let finish = finish_reason_exec(&anthropic_resp.stop_reason);
    let choice = OpenAIChoice {
        index: 0,
        message: OpenAIMessage { role: String::from_str("assistant"), content: text },
        finish_reason: String::from_str(finish),
    };
    let mut choices: Vec<OpenAIChoice> = Vec::new();
    choices.push(choice);
    ChatCompletionResponse {
        id,
        object: String::from_str("chat.completion"),
        created,
        model: String::from_str(group_alias),
        choices,
        usage: OpenAIUsage {
            prompt_tokens: anthropic_resp.usage.input_tokens,
            completion_tokens: anthropic_resp.usage.output_tokens,
            total_tokens: anthropic_resp.usage.input_tokens + anthropic_resp.usage.output_tokens,
        },
    }
}

/// Translates a non-streaming Anthropic response into an OpenAI chat
/// completion for the group alias, with a fresh `chatcmpl-` id and the
/// current time (seconds) as creation time.
pub fn anthropic_to_openai(anthropic_resp: &MessagesResponse, group_alias: &str) -> (r: ChatCompletionResponse)
    requires
        anthropic_resp.usage.input_tokens + anthropic_resp.usage.output_tokens <= u64::MAX,
    ensures
        converts(r, *anthropic_resp, group_alias@),
        exists|ts: u128, rand: u64| r.id@ == "chatcmpl-"@ + #[trigger] short_id(ts, rand),
{
    let suffix = uuid_short();
    let id = cat("chatcmpl-", suffix.as_str());
    let millis = system_time_millis();
    let secs = millis / 1000;
    let created: u64 = if secs <= u64::MAX as u128 {
        secs as u64
    } else {
        u64::MAX
    };
    build_openai_response(anthropic_resp, group_alias, id, created)
}

/// The headers of an Anthropic API request.
pub fn anthropic_headers(api_key: &str) -> (r: Vec<(String, String)>)
    ensures
        r@.len() == 3,
        r@[0].0@ == "x-api-key"@ && r@[0].1@ == api_key@,
        r@[1].0@ == "anthropic-version"@ && r@[1].1@ == "2024-06-01"@,
        r@[2].0@ == "content-type"@ && r@[2].1@ == "application/json"@,
{
    let mut v: Vec<(String, String)> = Vec::new();
    v.push((String::from_str("x-api-key"), String::from_str(api_key)));
    v.push((String::from_str("anthropic-version"), String::from_str("2024-06-01")));
    v.push((String::from_str("content-type"), String::from_str("application/json")));
    v
}

// ---------------------------------------------------------------------------
// Request messages
// ---------------------------------------------------------------------------

/// The role of an OpenAI message, or empty.
pub open spec fn msg_role(m: JsonValue) -> Seq<char> {
    match str_of(get_member(m, "role"@)) {
        Some(r) => r,
        None => Seq::empty(),
    }
}

/// The content of an OpenAI message as text: a string as is, any other
/// value as its JSON text, nothing as empty.
pub open spec fn msg_content(m: JsonValue) -> Seq<char> {
    match get_member(m, "content"@) {
        Some(JsonValue::Str(s)) => s@,
        Some(v) => json_text(v),
        None => Seq::empty(),
    }
}

/// The system texts of a message list, in order.
pub open spec fn system_parts(ms: Seq<JsonValue>) -> Seq<Seq<char>>
    decreases ms.len(),
{
    if ms.len() == 0 {
        Seq::empty()
    } else {
        let rest = system_parts(ms.drop_last());
        if msg_role(ms.last()) == "system"@ {
            rest.push(msg_content(ms.last()))
        } else {
            rest
        }
    }
}

/// The user and assistant turns of a message list, in order.
pub open spec fn conversation(ms: Seq<JsonValue>) -> Seq<(Seq<char>, Seq<char>)>
    decreases ms.len(),
{
    if ms.len() == 0 {
        Seq::empty()
    } else {
        let rest = conversation(ms.drop_last());
        let r = msg_role(ms.last());
        if r == "user"@ || r == "assistant"@ {
            rest.push((r, msg_content(ms.last())))
        } else {
            rest
        }
    }
}

/// Texts joined by a separator.
pub open spec fn join(parts: Seq<Seq<char>>, sep: Seq<char>) -> Seq<char>
    decreases parts.len(),
{
    if parts.len() == 0 {
        Seq::empty()
    } else if parts.len() == 1 {
        parts[0]
    } else {
        join(parts.drop_last(), sep) + sep + parts.last()
    }
}

/// An Anthropic Messages request. The sampling settings are JSON numbers,
/// carried as the request body gave them.
pub struct MessagesRequest {
    pub model: String,
    pub system: Option<String>,
    pub messages: Vec<AnthropicMessage>,
    pub max_tokens: u64,
    pub temperature: Option<JsonNumber>,
    pub top_p: Option<JsonNumber>,
    pub stream: Option<bool>,
}

/// A number member of a value.
pub open spec fn number_of(v: Option<JsonValue>) -> Option<JsonNumber> {
    match v {
        Some(JsonValue::Number(n)) => Some(n),
        _ => None,
    }
}

fn number_member(v: &JsonValue, key: &str) -> (r: Option<JsonNumber>)
    ensures
        r == number_of(get_member(*v, key@)),
{
    match get(v, key) {
        Some(JsonValue::Number(n)) => Some(crate::json::copy_number(n)),
        _ => None,
    }
}

/// The messages of a request body: its `messages` array, or none.
pub open spec fn body_messages(body: JsonValue) -> Seq<JsonValue> {
    match get_member(body, "messages"@) {
        Some(JsonValue::Array(a)) => a@,
        _ => Seq::empty(),
    }
}

fn message_content(m: &JsonValue) -> (r: String)
    ensures
        r@ == msg_content(*m),
{
    match get(m, "content") {
        Some(JsonValue::Str(s)) => s.clone(),
        Some(v) => to_json_string(v),
        None => String::new(),
    }
}

/// Whether `r` is the Anthropic request for an OpenAI request body; see
/// [`openai_to_anthropic`].
pub open spec fn anthropic_request_of(r: MessagesRequest, body: JsonValue, model: Seq<char>) -> bool {
    &&& (r.model@ == model)
    &&& (system_parts(body_messages(body)).len() == 0 ==> r.system is None)
    &&& (system_parts(body_messages(body)).len() > 0 ==> (r.system matches Some(s) && s@ == join(
        system_parts(body_messages(body)),
        seq!['\n', '\n'],
    )))
    &&& (r.messages@.len() == conversation(body_messages(body)).len())
    &&& (forall|i: int|
        0 <= i < r.messages@.len() ==> (#[trigger] r.messages@[i]).role@ == conversation(body_messages(body))[i].0
            && r.messages@[i].content@ == conversation(body_messages(body))[i].1)
    &&& (r.max_tokens == match u64_of(get_member(body, "max_tokens"@)) {
        Some(n) => n,
        None => 4096u64,
    })
    &&& (r.stream == bool_of(get_member(body, "stream"@)))
    &&& (r.temperature == number_of(get_member(body, "temperature"@)))
    &&& (r.top_p == number_of(get_member(body, "top_p"@)))
}

/// Builds the Anthropic request for an OpenAI request body: system
/// messages joined by blank lines into the system prompt, user and
/// assistant messages kept in order (others dropped), `max_tokens`
/// defaulting to 4096, and the `stream` flag when it is a boolean.
pub fn openai_to_anthropic(openai_body: &JsonValue, upstream_model: &str) -> (r: MessagesRequest)
    ensures
        anthropic_request_of(r, *openai_body, upstream_model@),
{
    let empty: Vec<JsonValue> = Vec::new();
    let msgs: &Vec<JsonValue> = match get(openai_body, "messages") {
        Some(JsonValue::Array(a)) => a,
        _ => &empty,
    };
    assert(msgs@ == body_messages(*openai_body));
    let mut system: Vec<char> = Vec::new();
    let mut n_system: usize = 0;
    let mut out: Vec<AnthropicMessage> = Vec::new();
    let mut i: usize = 0;
    while i < msgs.len()
        invariant
            i <= msgs@.len(),
            n_system <= i,
            n_system == system_parts(msgs@.take(i as int)).len(),
            n_system == 0 ==> system@.len() == 0,
            n_system > 0 ==> system@ == join(system_parts(msgs@.take(i as int)), seq!['\n', '\n']),
            out@.len() == conversation(msgs@.take(i as int)).len(),
            forall|j: int|
                0 <= j < out@.len() ==> (#[trigger] out@[j]).role@ == conversation(msgs@.take(i as int))[j].0
                    && out@[j].content@ == conversation(msgs@.take(i as int))[j].1,
        decreases msgs.len() - i,
    {
        let m = &msgs[i];
        let role_opt = as_str(get(m, "role"));
        let role: &str = match role_opt {
            Some(r) => r,
            None => "",
        };
        proof {
            let t = msgs@.take(i + 1);
            assert(t.drop_last() =~= msgs@.take(i as int));
            assert(t.last() == msgs@[i as int]);
            if role_opt is None {
                reveal_strlit("");
                assert(""@ =~= Seq::<char>::empty());
            }
            reveal_strlit("system");
            reveal_strlit("user");
            reveal_strlit("assistant");
        }
        assert(role@ == msg_role(*m));
        if str_eq(role, "system") {
            let content = message_content(m);
            let ghost parts_before = system_parts(msgs@.take(i as int));
            proof {
                let parts_after = system_parts(msgs@.take(i + 1));
                assert(parts_after == parts_before.push(content@));
                assert(parts_after.drop_last() =~= parts_before);
            }
            if n_system > 0 {
                system.push('\n');
                system.push('\n');
            }
            append_str(&mut system, content.as_str());
            n_system = n_system + 1;
            proof {
                if n_system == 1 {
                    assert(system@ =~= content@);
                } else {
                    assert(system@ =~= join(parts_before, seq!['\n', '\n']) + seq!['\n', '\n'] + content@);
                }
            }
        } else if str_eq(role, "user") || str_eq(role, "assistant") {
            let content = message_content(m);
            let ghost before = out@;
            out.push(AnthropicMessage { role: String::from_str(role), content });
            proof {
                assert forall|j: int| 0 <= j < before.len() implies out@[j] == before[j] by {}
            }
        }
        i = i + 1;
    }
    assert(msgs@.take(msgs@.len() as int) =~= msgs@);
    let max_tokens = match as_u64(get(openai_body, "max_tokens")) {
        Some(n) => n,
        None => 4096,
    };
    MessagesRequest {
        model: String::from_str(upstream_model),
        system: if n_system == 0 {
            None
        } else {
            Some(string_from_chars(&system))
        },
        messages: out,
        max_tokens,
        temperature: number_member(openai_body, "temperature"),
        top_p: number_member(openai_body, "top_p"),
        stream: as_bool(get(openai_body, "stream")),
    }
}


// ---------------------------------------------------------------------------
// Streaming translation
// ---------------------------------------------------------------------------

/// A server-sent event line carrying a payload.
pub open spec fn sse_data(payload: Seq<char>) -> Seq<char> {
    "data: "@ + payload + "\n\n"@
}

/// An event's text is never empty.
pub proof fn lemma_sse_data_nonempty(payload: Seq<char>)
    ensures
        sse_data(payload).len() > 0,
{
    reveal_strlit("\n\n");
}

/// A string literal, or `null`.
pub open spec fn opt_quoted(v: Option<Seq<char>>) -> Seq<char> {
    match v {
        Some(s) => quoted(s),
        None => "null"@,
    }
}

/// The members of a chunk delta; absent fields are left out.
pub open spec fn delta_text(role: Option<Seq<char>>, content: Option<Seq<char>>) -> Seq<char> {
    match (role, content) {
        (Some(r), Some(c)) => "\"role\":"@ + quoted(r) + ",\"content\":"@ + quoted(c),
        (Some(r), None) => "\"role\":"@ + quoted(r),
        (None, Some(c)) => "\"content\":"@ + quoted(c),
        (None, None) => Seq::empty(),
    }
}

/// The compact JSON text of a chunk with one choice (index 0).
pub open spec fn chunk_text(
    id: Seq<char>,
    model: Seq<char>,
    role: Option<Seq<char>>,
    content: Option<Seq<char>>,
    finish: Option<Seq<char>>,
) -> Seq<char> {
    "{\"id\":"@ + quoted(id) + ",\"object\":\"chat.completion.chunk\",\"model\":"@ + quoted(model)
        + ",\"choices\":[{\"index\":0,\"delta\":{"@ + delta_text(role, content)
        + "},\"finish_reason\":"@ + opt_quoted(finish) + "}]}"@
}

/// An event's `index` field is acceptable: absent, null, or an integer
/// that fits `u32`.
pub open spec fn index_ok(v: Option<JsonValue>) -> bool {
    match v {
        None => true,
        Some(JsonValue::Null) => true,
        Some(JsonValue::Number(JsonNumber::PosInt(n))) => n <= u32::MAX,
        _ => false,
    }
}

/// An optional value with null taken as absent.
pub open spec fn non_null(v: Option<JsonValue>) -> Option<JsonValue> {
    match v {
        Some(JsonValue::Null) => None,
        _ => v,
    }
}

/// The type and delta of a stream event as it deserializes: an object with
/// a string `type` (and an acceptable `index`), or the same fields given as
/// an array of one to five elements in the order type, delta, message,
/// content block, index. Anything else is no event.
pub open spec fn stream_event(v: JsonValue) -> Option<(Seq<char>, Option<JsonValue>)> {
    match v {
        JsonValue::Object(m) => match member_of(m@, "type"@) {
            Some(JsonValue::Str(t)) => if index_ok(member_of(m@, "index"@)) {
                Some((t@, non_null(member_of(m@, "delta"@))))
            } else {
                None
            },
            _ => None,
        },
        JsonValue::Array(a) => if 1 <= a@.len() <= 5 && a@[0] is Str && (a@.len() < 5 || index_ok(
            Some(a@[4]),
        )) {
            Some(
                (
                    a@[0]->Str_0@,
                    if a@.len() >= 2 {
                        non_null(Some(a@[1]))
                    } else {
                        None
                    },
                ),
            )
        } else {
            None
        },
        _ => None,
    }
}

/// A string member of an event's delta.
pub open spec fn delta_str(delta: Option<JsonValue>, key: Seq<char>) -> Option<Seq<char>> {
    match delta {
        Some(d) => str_of(get_member(d, key)),
        None => None,
    }
}

/// The finish reason a streamed stop reason maps to; other reasons give none.
pub open spec fn stream_finish_reason(stop: Option<Seq<char>>) -> Option<Seq<char>> {
    match stop {
        Some(s) => if s == "end_turn"@ {
            Some("stop"@)
        } else if s == "max_tokens"@ {
            Some("length"@)
        } else if s == "stop_sequence"@ {
            Some("stop"@)
        } else {
            None
        },
        None => None,
    }
}

/// What one event of the given type and delta becomes: the opening chunk
/// with the assistant role, a content chunk for non-empty text, a finish
/// chunk for a known stop reason, the `[DONE]` marker for the stop event,
/// and nothing for anything else.
pub open spec fn event_reply(chat_id: Seq<char>, alias: Seq<char>, t: Seq<char>, delta: Option<JsonValue>) -> Option<Seq<char>> {
    if t == "message_start"@ {
        Some(sse_data(chunk_text(chat_id, alias, Some("assistant"@), Some(Seq::empty()), None)))
    } else if t == "content_block_delta"@ {
        match delta_str(delta, "text"@) {
            Some(text) => if text.len() > 0 {
                Some(sse_data(chunk_text(chat_id, alias, None, Some(text), None)))
            } else {
                None
            },
            None => None,
        }
    } else if t == "message_delta"@ {
        match stream_finish_reason(delta_str(delta, "stop_reason"@)) {
            Some(reason) => Some(sse_data(chunk_text(chat_id, alias, None, None, Some(reason)))),
            None => None,
        }
    } else if t == "message_stop"@ {
        Some("data: [DONE]\n\n"@)
    } else {
        None
    }
}

/// What the data of one event becomes; text that is not JSON, or JSON that
/// is no event, becomes nothing.
pub open spec fn event_output(chat_id: Seq<char>, alias: Seq<char>, data: Seq<char>) -> Option<Seq<char>> {
    match json_parse(data) {
        Some(v) => match stream_event(v) {
            Some((t, delta)) => event_reply(chat_id, alias, t, delta),
            None => None,
        },
        None => None,
    }
}

/// What `String::from_utf8_lossy` makes of bytes.
pub uninterp spec fn utf8_lossy(bytes: Seq<u8>) -> Seq<char>;

/// Decodes bytes with `String::from_utf8_lossy`; the result is named
/// [`utf8_lossy`] of the bytes.
#[verifier::external_body]
pub(crate) fn decode_lossy(bytes: &[u8]) -> (r: String)
    ensures
        r@ == utf8_lossy(bytes@),
{
    String::from_utf8_lossy(bytes).into_owned()
}

/// The payload of an SSE `data:` field (with or without the space).
pub open spec fn data_field(line: Seq<char>) -> Option<Seq<char>> {
    if has_prefix(line, "data: "@) {
        Some(line.skip(6))
    } else if has_prefix(line, "data:"@) {
        Some(line.skip(5))
    } else {
        None
    }
}

/// What one received line becomes: its trimmed text's non-empty `data:`
/// payload, translated; any other line becomes nothing.
pub open spec fn line_output(chat_id: Seq<char>, alias: Seq<char>, line: Seq<u8>) -> Option<Seq<char>> {
    match data_field(trim_ws(utf8_lossy(line))) {
        Some(d) => if d.len() > 0 {
            event_output(chat_id, alias, d)
        } else {
            None
        },
        None => None,
    }
}

pub open spec fn is_newline(b: u8) -> bool {
    b == 10u8
}

/// The stream translator's state: the group alias and chat id that every
/// chunk carries, the bytes received but not yet ended by a newline, and
/// whether the upstream stream has ended.
pub struct AnthropicToOpenAIStream {
    pub group_alias: String,
    pub chat_id: String,
    pub buffer: Vec<u8>,
    pub done: bool,
}

fn index_field_ok(v: Option<&JsonValue>) -> (r: bool)
    ensures
        r == index_ok(deref_opt(v)),
{
    match v {
        None => true,
        Some(JsonValue::Null) => true,
        Some(JsonValue::Number(JsonNumber::PosInt(n))) => *n <= 4294967295u64,
        _ => false,
    }
}

fn non_null_ref<'a>(v: Option<&'a JsonValue>) -> (r: Option<&'a JsonValue>)
    ensures
        deref_opt(r) == non_null(deref_opt(v)),
{
    match v {
        Some(JsonValue::Null) => None,
        _ => v,
    }
}

fn read_event<'a>(v: &'a JsonValue) -> (r: Option<(&'a str, Option<&'a JsonValue>)>)
    ensures
        match stream_event(*v) {
            Some((t, d)) => r matches Some((rt, rd)) && rt@ == t && deref_opt(rd) == d,
            None => r is None,
        },
{
    match v {
        JsonValue::Object(_) => {
            match get(v, "type") {
                Some(JsonValue::Str(t)) => {
                    if index_field_ok(get(v, "index")) {
                        Some((t.as_str(), non_null_ref(get(v, "delta"))))
                    } else {
                        None
                    }
                },
                _ => None,
            }
        },
        JsonValue::Array(a) => {
            if a.len() >= 1 && a.len() <= 5 {
                match &a[0] {
                    JsonValue::Str(t) => {
                        let ok = if a.len() < 5 {
                            true
                        } else {
                            index_field_ok(Some(&a[4]))
                        };
                        if ok {
                            let d = if a.len() >= 2 {
                                non_null_ref(Some(&a[1]))
                            } else {
                                None
                            };
                            Some((t.as_str(), d))
                        } else {
                            None
                        }
                    },
                    _ => None,
                }
            } else {
                None
            }
        },
        _ => None,
    }
}

fn delta_string<'a>(delta: Option<&'a JsonValue>, key: &str) -> (r: Option<&'a str>)
    ensures
        match r {
            Some(s) => delta_str(deref_opt(delta), key@) == Some(s@),
            None => delta_str(deref_opt(delta), key@) is None,
        },
{
    match delta {
        Some(d) => as_str(get(d, key)),
        None => None,
    }
}

fn push_delta_text(out: &mut Vec<char>, role: Option<&str>, content: Option<&str>)
    ensures
        final(out)@ == old(out)@ + delta_text(
            match role {
                Some(x) => Some(x@),
                None => None,
            },
            match content {
                Some(x) => Some(x@),
                None => None,
            },
        ),
{
    let ghost o = out@;
    match role {
        Some(r) => {
            append_str(out, "\"role\":");
            push_quoted(out, r);
            match content {
                Some(c) => {
                    append_str(out, ",\"content\":");
                    push_quoted(out, c);
                },
                None => {},
            }
        },
        None => {
            match content {
                Some(c) => {
                    append_str(out, "\"content\":");
                    push_quoted(out, c);
                },
                None => {},
            }
        },
    }
    assert(out@ =~= o + delta_text(
        match role {
            Some(x) => Some(x@),
            None => None,
        },
        match content {
            Some(x) => Some(x@),
            None => None,
        },
    ));
}

#[verifier::rlimit(30)]
fn push_chunk_text(
    out: &mut Vec<char>,
    id: &str,
    model: &str,
    role: Option<&str>,
    content: Option<&str>,
    finish: Option<&str>,
)
    ensures
        final(out)@ == old(out)@ + chunk_text(
            id@,
            model@,
            match role {
                Some(x) => Some(x@),
                None => None,
            },
            match content {
                Some(x) => Some(x@),
                None => None,
            },
            match finish {
                Some(x) => Some(x@),
                None => None,
            },
        ),
{
    let ghost o = out@;
    append_str(out, "{\"id\":");
    push_quoted(out, id);
    append_str(out, ",\"object\":\"chat.completion.chunk\",\"model\":");
    push_quoted(out, model);
    append_str(out, ",\"choices\":[{\"index\":0,\"delta\":{");
    push_delta_text(out, role, content);
    append_str(out, "},\"finish_reason\":");
    let ghost f0 = out@;
    match finish {
        Some(f) => push_quoted(out, f),
        None => append_str(out, "null"),
    }
    assert(out@ =~= f0 + opt_quoted(
        match finish {
            Some(x) => Some(x@),
            None => None,
        },
    ));
    append_str(out, "}]}");
    assert(out@ =~= o + chunk_text(
        id@,
        model@,
        match role {
            Some(x) => Some(x@),
            None => None,
        },
        match content {
            Some(x) => Some(x@),
            None => None,
        },
        match finish {
            Some(x) => Some(x@),
            None => None,
        },
    ));
}

fn sse_chunk(id: &str, model: &str, role: Option<&str>, content: Option<&str>, finish: Option<&str>) -> (r: String)
    ensures
        r@ == sse_data(
            chunk_text(
                id@,
                model@,
                match role {
                    Some(x) => Some(x@),
                    None => None,
                },
                match content {
                    Some(x) => Some(x@),
                    None => None,
                },
                match finish {
                    Some(x) => Some(x@),
                    None => None,
                },
            ),
        ),
{
    let mut out: Vec<char> = Vec::new();
    append_str(&mut out, "data: ");
    let ghost a = out@;
    push_chunk_text(&mut out, id, model, role, content, finish);
    let ghost b = out@;
    append_str(&mut out, "\n\n");
    assert(out@ =~= "data: "@ + (b.skip(a.len() as int)) + "\n\n"@);
    assert(b.skip(a.len() as int) =~= chunk_text(
        id@,
        model@,
        match role {
            Some(x) => Some(x@),
            None => None,
        },
        match content {
            Some(x) => Some(x@),
            None => None,
        },
        match finish {
            Some(x) => Some(x@),
            None => None,
        },
    ));
    string_from_chars(&out)
}

fn stream_finish_exec(stop: Option<&str>) -> (r: Option<&'static str>)
    ensures
        match r {
            Some(x) => stream_finish_reason(
                match stop {
                    Some(s) => Some(s@),
                    None => None,
                },
            ) == Some(x@),
            None => stream_finish_reason(
                match stop {
                    Some(s) => Some(s@),
                    None => None,
                },
            ) is None,
        },
{
    match stop {
        Some(s) => {
            if str_eq(s, "end_turn") {
                Some("stop")
            } else if str_eq(s, "max_tokens") {
                Some("length")
            } else if str_eq(s, "stop_sequence") {
                Some("stop")
            } else {
                None
            }
        },
        None => None,
    }
}

impl AnthropicToOpenAIStream {
    /// A translator for the group alias, with a fresh `chatcmpl-` chat id
    /// and nothing received yet.
    pub fn new(group_alias: String) -> (r: Self)
        ensures
            r.group_alias@ == group_alias@,
            exists|ts: u128, rand: u64| r.chat_id@ == "chatcmpl-"@ + #[trigger] short_id(ts, rand),
            r.buffer@.len() == 0,
            !r.done,
    {
        let suffix = uuid_short();
        let chat_id = cat("chatcmpl-", suffix.as_str());
        AnthropicToOpenAIStream { group_alias, chat_id, buffer: Vec::new(), done: false }
    }

    /// Translates the data of one Anthropic event into the SSE text of the
    /// OpenAI chunk it becomes, if any.
    pub fn translate_event(&self, data: &str) -> (r: Option<String>)
        ensures
            opt_view(r) == event_output(self.chat_id@, self.group_alias@, data@),
    {
        let parsed = parse_json(data);
        match &parsed {
            None => None,
            Some(v) => {
                match read_event(v) {
                    None => None,
                    Some((t, delta)) => {
                        let id = self.chat_id.as_str();
                        let alias = self.group_alias.as_str();
                        proof {
                            reveal_strlit("");
                            assert(""@ =~= Seq::<char>::empty());
                        }
                        if str_eq(t, "message_start") {
                            Some(sse_chunk(id, alias, Some("assistant"), Some(""), None))
                        } else if str_eq(t, "content_block_delta") {
                            match delta_string(delta, "text") {
                                Some(text) => {
                                    if text.unicode_len() > 0 {
                                        Some(sse_chunk(id, alias, None, Some(text), None))
                                    } else {
                                        None
                                    }
                                },
                                None => None,
                            }
                        } else if str_eq(t, "message_delta") {
                            match stream_finish_exec(delta_string(delta, "stop_reason")) {
                                Some(reason) => Some(sse_chunk(id, alias, None, None, Some(reason))),
                                None => None,
                            }
                        } else if str_eq(t, "message_stop") {
                            Some(String::from_str("data: [DONE]\n\n"))
                        } else {
                            None
                        }
                    },
                }
            },
        }
    }

    /// Translates one received line (without its newline).
    fn translate_line(&self, line: &[u8]) -> (r: Option<String>)
        ensures
            opt_view(r) == line_output(self.chat_id@, self.group_alias@, line@),
    {
        let text = decode_lossy(line);
        let cs = chars_of(text.as_str());
        let trimmed = trim_chars(&cs);
        let p6 = chars_of("data: ");
        let p5 = chars_of("data:");
        proof {
            reveal_strlit("data: ");
            reveal_strlit("data:");
        }
        let start: usize = if chars_starts_with(&trimmed, &p6) {
            6
        } else if chars_starts_with(&trimmed, &p5) {
            5
        } else {
            return None;
        };
        let payload = chars_slice(&trimmed, start, trimmed.len());
        assert(payload@ =~= trimmed@.skip(start as int));
        if payload.len() == 0 {
            return None;
        }
        let data = string_from_chars(&payload);
        self.translate_event(data.as_str())
    }

    /// Takes in bytes from the upstream stream. The bytes join those kept
    /// from before; where they now hold a newline, the text up to the first
    /// one is taken out and translated, and the rest is kept. Once the
    /// stream has ended, nothing more is taken in.
    pub fn push_chunk(&mut self, chunk: &[u8]) -> (r: Option<String>)
        ensures
            final(self).group_alias@ == old(self).group_alias@,
            final(self).chat_id@ == old(self).chat_id@,
            final(self).done == old(self).done,
            old(self).done ==> r is None && final(self).buffer@ == old(self).buffer@,
            !old(self).done ==> match first_index(old(self).buffer@ + chunk@, |b: u8| is_newline(b)) {
                Some(p) => final(self).buffer@ == (old(self).buffer@ + chunk@).skip(p + 1)
                    && opt_view(r) == line_output(
                    old(self).chat_id@,
                    old(self).group_alias@,
                    (old(self).buffer@ + chunk@).take(p),
                ),
                None => final(self).buffer@ == old(self).buffer@ + chunk@ && r is None,
            },
    {
        if self.done {
            return None;
        }
        let ghost all = old(self).buffer@ + chunk@;
        let mut k: usize = 0;
        while k < chunk.len()
            invariant
                k <= chunk@.len(),
                self.buffer@ == old(self).buffer@ + chunk@.take(k as int),
                self.group_alias@ == old(self).group_alias@,
                self.chat_id@ == old(self).chat_id@,
                self.done == old(self).done,
            decreases chunk.len() - k,
        {
            self.buffer.push(chunk[k]);
            k = k + 1;
            assert(self.buffer@ =~= old(self).buffer@ + chunk@.take(k as int));
        }
        assert(chunk@.take(k as int) =~= chunk@);
        assert(self.buffer@ == all);
        let mut pos: usize = 0;
        while pos < self.buffer.len() && self.buffer[pos] != 10u8
            invariant
                pos <= self.buffer@.len(),
                self.buffer@ == all,
                forall|j: int| 0 <= j < pos ==> !is_newline(#[trigger] all[j]),
            decreases self.buffer.len() - pos,
        {
            pos = pos + 1;
        }
        proof {
            lemma_first_index_spec(all, |b: u8| is_newline(b));
        }
        if pos == self.buffer.len() {
            proof {
                lemma_first_index_none(all, |b: u8| is_newline(b));
            }
            return None;
        }
        proof {
            lemma_first_index_unique(all, |b: u8| is_newline(b), pos as int);
        }
        let mut line: Vec<u8> = Vec::new();
        let mut i: usize = 0;
        while i < pos
            invariant
                i <= pos,
                pos < self.buffer@.len(),
                self.buffer@ == all,
                line@ == all.take(i as int),
            decreases pos - i,
        {
            line.push(self.buffer[i]);
            i = i + 1;
            assert(line@ =~= all.take(i as int));
        }
        let mut rest: Vec<u8> = Vec::new();
        let mut j: usize = pos + 1;
        while j < self.buffer.len()
            invariant
                pos + 1 <= j <= self.buffer@.len(),
                self.buffer@ == all,
                rest@ == all.subrange(pos + 1, j as int),
            decreases self.buffer.len() - j,
        {
            rest.push(self.buffer[j]);
            j = j + 1;
            assert(rest@ =~= all.subrange(pos + 1, j as int));
        }
        assert(rest@ =~= all.skip(pos + 1));
        self.buffer = rest;
        self.translate_line(line.as_slice())
    }

    /// Ends the stream: whatever is left in the buffer is translated as one
    /// line, the buffer is emptied and no more bytes are taken in.
    pub fn finish(&mut self) -> (r: Option<String>)
        ensures
            final(self).group_alias@ == old(self).group_alias@,
            final(self).chat_id@ == old(self).chat_id@,
            final(self).done,
            final(self).buffer@.len() == 0,
            opt_view(r) == if old(self).done || old(self).buffer@.len() == 0 {
                None
            } else {
                line_output(old(self).chat_id@, old(self).group_alias@, old(self).buffer@)
            },
    {
        if self.done {
            self.buffer = Vec::new();
            return None;
        }
        let out = if self.buffer.len() > 0 {
            self.translate_line(self.buffer.as_slice())
        } else {
            None
        };
        self.buffer = Vec::new();
        self.done = true;
        out
    }
}

} // verus!
