//! Translation of the Codex Responses event stream into OpenAI chat
//! completion chunks: one event at a time, and the line framing of the
//! server-sent event stream around it.

use vstd::prelude::*;
use crate::json::{
    JsonValue, json_parse, parse_json, get, get_member, member_of, str_of, u64_of, as_str, as_u64,
    json_text, quoted, members_text, push_quoted, write_json, deref_opt,
};
use crate::text::{matches_at, append_str, string_from_chars, str_eq, chars_of, has_prefix, trim_ws, trim_chars,
    chars_starts_with, chars_slice, cat};
use crate::translator::{sse_data, opt_quoted, opt_view, utf8_lossy, decode_lossy, is_newline, StreamTokenCounts};
use crate::codex::member_opt;
use crate::ids::{uuid_v4_simple, is_lower_hex};
use crate::seqs::{first_index, lemma_first_index_spec, lemma_first_index_unique, lemma_first_index_none};

verus! {

// ---------------------------------------------------------------------------
// Chunk texts (keys in sorted order, as `serde_json`'s map writes them)
// ---------------------------------------------------------------------------

/// The members of a chunk delta, keys sorted; absent fields are left out.
pub open spec fn sorted_delta_text(role: Option<Seq<char>>, content: Option<Seq<char>>) -> Seq<char> {
    match (role, content) {
        (Some(r), Some(c)) => "\"content\":"@ + quoted(c) + ",\"role\":"@ + quoted(r),
        (Some(r), None) => "\"role\":"@ + quoted(r),
        (None, Some(c)) => "\"content\":"@ + quoted(c),
        (None, None) => Seq::empty(),
    }
}

/// The SSE text of a chunk with one choice.
pub open spec fn codex_chunk(
    id: Seq<char>,
    model: Seq<char>,
    role: Option<Seq<char>>,
    content: Option<Seq<char>>,
    finish: Option<Seq<char>>,
) -> Seq<char> {
    sse_data(
        "{\"choices\":[{\"delta\":{"@ + sorted_delta_text(role, content) + "},\"finish_reason\":"@
            + opt_quoted(finish) + ",\"index\":0}],\"id\":"@ + quoted(id) + ",\"model\":"@ + quoted(
            model,
        ) + ",\"object\":\"chat.completion.chunk\"}"@,
    )
}

/// The SSE text of a chunk that carries one function call.
pub open spec fn tool_chunk(
    id: Seq<char>,
    model: Seq<char>,
    call_id: Seq<char>,
    name: Seq<char>,
    arguments: Seq<char>,
) -> Seq<char> {
    sse_data(
        "{\"choices\":[{\"delta\":{\"tool_calls\":[{\"function\":{\"arguments\":"@ + quoted(arguments)
            + ",\"name\":"@ + quoted(name) + "},\"id\":"@ + quoted(call_id)
            + ",\"index\":0,\"type\":\"function\"}]},\"finish_reason\":null,\"index\":0}],\"id\":"@
            + quoted(id) + ",\"model\":"@ + quoted(model) + ",\"object\":\"chat.completion.chunk\"}"@,
    )
}

/// The opening chunk with the assistant role, unless it was sent already.
pub open spec fn role_prefix(id: Seq<char>, model: Seq<char>, sent: bool) -> Seq<char> {
    if sent {
        Seq::empty()
    } else {
        codex_chunk(id, model, Some("assistant"@), None, None)
    }
}

// ---------------------------------------------------------------------------
// Reading events
// ---------------------------------------------------------------------------

/// The first of two optional values that is present.
pub open spec fn or_else_value(a: Option<JsonValue>, b: Option<JsonValue>) -> Option<JsonValue> {
    match a {
        Some(x) => Some(x),
        None => b,
    }
}

/// An event's type; an untyped event with a string delta counts as a text
/// delta.
pub open spec fn codex_event_type(v: JsonValue) -> Seq<char> {
    let t = match str_of(get_member(v, "type"@)) {
        Some(t) => t,
        None => Seq::empty(),
    };
    if t.len() == 0 && str_of(get_member(v, "delta"@)) is Some {
        "response.output_text.delta"@
    } else {
        t
    }
}

/// The finish reason of a finished response: `length` when it ran out of
/// output tokens, `content_filter` when filtered, `stop` otherwise.
pub open spec fn codex_finish(v: JsonValue) -> Seq<char> {
    match str_of(member_opt(member_opt(get_member(v, "response"@), "incomplete_details"@), "reason"@)) {
        Some(r) => if r == "max_output_tokens"@ {
            "length"@
        } else if r == "content_filter"@ {
            "content_filter"@
        } else {
            "stop"@
        },
        None => "stop"@,
    }
}

/// The message of a failure event: code and message when both are given,
/// else whichever is given, else the fallback. The message is the event's
/// `message`, else that of `response.error`, else `response.status_details`;
/// the code is the event's `code`, else that of `response.error`.
pub open spec fn codex_error_message(v: JsonValue, fallback: Seq<char>) -> Seq<char> {
    let response = get_member(v, "response"@);
    let nested = member_opt(response, "error"@);
    let message = str_of(
        or_else_value(
            get_member(v, "message"@),
            or_else_value(member_opt(nested, "message"@), member_opt(response, "status_details"@)),
        ),
    );
    let code = str_of(or_else_value(get_member(v, "code"@), member_opt(nested, "code"@)));
    if code is Some && code.unwrap().len() > 0 && message is Some && message.unwrap().len() > 0 {
        code.unwrap() + ": "@ + message.unwrap()
    } else if message is Some && message.unwrap().len() > 0 {
        message.unwrap()
    } else if code is Some && code.unwrap().len() > 0 {
        code.unwrap()
    } else {
        fallback
    }
}

/// The usage of a finished response: under `response`, else at the top.
pub open spec fn codex_usage(v: JsonValue) -> Option<JsonValue> {
    or_else_value(member_opt(get_member(v, "response"@), "usage"@), get_member(v, "usage"@))
}

// ---------------------------------------------------------------------------
// The translation state and one event
// ---------------------------------------------------------------------------

/// Where a translation stands.
pub enum StatusView {
    Waiting,
    Done,
    Errored(Seq<char>),
}

/// The state a translation carries between events.
pub struct CodexView {
    pub sent_role: bool,
    pub input_tokens: u64,
    pub output_tokens: u64,
    pub status: StatusView,
    pub pending: Option<Seq<char>>,
}

/// What one event gives: nothing, output text, or a failure message.
pub enum EventOutcome {
    Skip,
    Out(Seq<char>),
    Failure(Seq<char>),
}

/// One event: a text delta gives the role chunk (once) and a content chunk
/// for non-empty text; a finished function call gives the role chunk (once)
/// and a tool-call chunk; a completed or incomplete response records its
/// token usage, gives the finish chunk and the `[DONE]` marker, and ends the
/// translation; a failure gives its message; anything else, or text that is
/// not JSON, gives nothing.
pub open spec fn event_step(id: Seq<char>, model: Seq<char>, m: CodexView, parsed: Option<JsonValue>) -> (CodexView, EventOutcome) {
    match parsed {
        None => (m, EventOutcome::Skip),
        Some(v) => {
            let t = codex_event_type(v);
            if t == "response.output_text.delta"@ {
                delta_step(id, model, m, v)
            } else if t == "response.output_item.done"@ {
                item_step(id, model, m, v)
            } else if t == "response.completed"@ || t == "response.incomplete"@ {
                completed_step(id, model, m, v)
            } else if t == "response.failed"@ || t == "error"@ {
                (m, EventOutcome::Failure("codex upstream error: "@ + codex_error_message(v, t)))
            } else {
                (m, EventOutcome::Skip)
            }
        },
    }
}

/// A text delta: the role chunk (once) and a content chunk for non-empty
/// text.
pub open spec fn delta_step(id: Seq<char>, model: Seq<char>, m: CodexView, v: JsonValue) -> (CodexView, EventOutcome) {
    let text = match str_of(get_member(v, "delta"@)) {
        Some(x) => x,
        None => Seq::empty(),
    };
    let out = role_prefix(id, model, m.sent_role) + if text.len() > 0 {
        codex_chunk(id, model, None, Some(text), None)
    } else {
        Seq::empty()
    };
    (
        CodexView { sent_role: true, ..m },
        if out.len() == 0 {
            EventOutcome::Skip
        } else {
            EventOutcome::Out(out)
        },
    )
}

/// A finished output item: for a named function call, the role chunk
/// (once) and a tool-call chunk with its call id (default empty) and
/// arguments (default `{}`).
pub open spec fn item_step(id: Seq<char>, model: Seq<char>, m: CodexView, v: JsonValue) -> (CodexView, EventOutcome) {
    let item = get_member(v, "item"@);
    match str_of(member_opt(item, "name"@)) {
        Some(name) => {
            let call_id = match str_of(member_opt(item, "call_id"@)) {
                Some(c) => c,
                None => Seq::empty(),
            };
            let arguments = match str_of(member_opt(item, "arguments"@)) {
                Some(a) => a,
                None => "{}"@,
            };
            (
                CodexView { sent_role: true, ..m },
                EventOutcome::Out(role_prefix(id, model, m.sent_role) + tool_chunk(id, model, call_id, name, arguments)),
            )
        },
        None => (m, EventOutcome::Skip),
    }
}

/// A finished response: its reported token counts are recorded, the finish
/// chunk and the `[DONE]` marker go out, and the translation is done.
pub open spec fn completed_step(id: Seq<char>, model: Seq<char>, m: CodexView, v: JsonValue) -> (CodexView, EventOutcome) {
    let usage = codex_usage(v);
    let input = match u64_of(member_opt(usage, "input_tokens"@)) {
        Some(n) => n,
        None => m.input_tokens,
    };
    let output = match u64_of(member_opt(usage, "output_tokens"@)) {
        Some(n) => n,
        None => m.output_tokens,
    };
    (
        CodexView { input_tokens: input, output_tokens: output, status: StatusView::Done, ..m },
        EventOutcome::Out(codex_chunk(id, model, None, None, Some(codex_finish(v))) + "data: [DONE]\n\n"@),
    )
}

/// The state of a stream translation.
pub enum CodexStreamState {
    Waiting,
    Done,
    Errored(String),
}

/// Translates a Codex Responses event stream into OpenAI chunks for a group
/// alias, under one chat id: the bytes received but not yet ended by a
/// newline, where the translation stands, the token counts reported, whether
/// the role chunk went out, and the type an `event:` line announced for the
/// next data line.
pub struct CodexToOpenAIStream {
    pub group_alias: String,
    pub chat_id: String,
    pub buffer: Vec<u8>,
    pub state: CodexStreamState,
    pub token_counts: StreamTokenCounts,
    pub has_sent_role: bool,
    pub pending_event_type: Option<String>,
}

pub open spec fn status_view(s: CodexStreamState) -> StatusView {
    match s {
        CodexStreamState::Waiting => StatusView::Waiting,
        CodexStreamState::Done => StatusView::Done,
        CodexStreamState::Errored(e) => StatusView::Errored(e@),
    }
}

impl View for CodexToOpenAIStream {
    type V = CodexView;

    open spec fn view(&self) -> CodexView {
        CodexView {
            sent_role: self.has_sent_role,
            input_tokens: self.token_counts.input_tokens,
            output_tokens: self.token_counts.output_tokens,
            status: status_view(self.state),
            pending: opt_view(self.pending_event_type),
        }
    }
}

pub open spec fn outcome_of(r: Result<Option<String>, String>) -> EventOutcome {
    match r {
        Ok(Some(s)) => EventOutcome::Out(s@),
        Ok(None) => EventOutcome::Skip,
        Err(e) => EventOutcome::Failure(e@),
    }
}

pub open spec fn opt_str(v: Option<&str>) -> Option<Seq<char>> {
    match v {
        Some(x) => Some(x@),
        None => None,
    }
}

fn push_sorted_delta(out: &mut Vec<char>, role: Option<&str>, content: Option<&str>)
    ensures
        final(out)@ == old(out)@ + sorted_delta_text(opt_str(role), opt_str(content)),
{
    let ghost o = out@;
    match content {
        Some(c) => {
            append_str(out, "\"content\":");
            push_quoted(out, c);
            match role {
                Some(r) => {
                    append_str(out, ",\"role\":");
                    push_quoted(out, r);
                },
                None => {},
            }
        },
        None => {
            match role {
                Some(r) => {
                    append_str(out, "\"role\":");
                    push_quoted(out, r);
                },
                None => {},
            }
        },
    }
    assert(out@ =~= o + sorted_delta_text(opt_str(role), opt_str(content)));
}

#[verifier::rlimit(30)]
fn push_codex_chunk(out: &mut Vec<char>, id: &str, model: &str, role: Option<&str>, content: Option<&str>, finish: Option<&str>)
    ensures
        final(out)@ == old(out)@ + codex_chunk(id@, model@, opt_str(role), opt_str(content), opt_str(finish)),
{
    let ghost o = out@;
    append_str(out, "data: ");
    append_str(out, "{\"choices\":[{\"delta\":{");
    push_sorted_delta(out, role, content);
    append_str(out, "},\"finish_reason\":");
    let ghost f0 = out@;
    match finish {
        Some(f) => push_quoted(out, f),
        None => append_str(out, "null"),
    }
    assert(out@ =~= f0 + opt_quoted(opt_str(finish)));
    append_str(out, ",\"index\":0}],\"id\":");
    push_quoted(out, id);
    append_str(out, ",\"model\":");
    push_quoted(out, model);
    append_str(out, ",\"object\":\"chat.completion.chunk\"}");
    append_str(out, "\n\n");
    assert(out@ =~= o + codex_chunk(id@, model@, opt_str(role), opt_str(content), opt_str(finish)));
}

fn push_tool_chunk(out: &mut Vec<char>, id: &str, model: &str, call_id: &str, name: &str, arguments: &str)
    ensures
        final(out)@ == old(out)@ + tool_chunk(id@, model@, call_id@, name@, arguments@),
{
    let ghost o = out@;
    append_str(out, "data: ");
    append_str(out, "{\"choices\":[{\"delta\":{\"tool_calls\":[{\"function\":{\"arguments\":");
    push_quoted(out, arguments);
    append_str(out, ",\"name\":");
    push_quoted(out, name);
    append_str(out, "},\"id\":");
    push_quoted(out, call_id);
    append_str(out, ",\"index\":0,\"type\":\"function\"}]},\"finish_reason\":null,\"index\":0}],\"id\":");
    push_quoted(out, id);
    append_str(out, ",\"model\":");
    push_quoted(out, model);
    append_str(out, ",\"object\":\"chat.completion.chunk\"}");
    append_str(out, "\n\n");
    assert(out@ =~= o + tool_chunk(id@, model@, call_id@, name@, arguments@));
}

pub(crate) fn member_ref<'a>(v: Option<&'a JsonValue>, key: &str) -> (r: Option<&'a JsonValue>)
    ensures
        deref_opt(r) == member_opt(deref_opt(v), key@),
{
    match v {
        Some(x) => get(x, key),
        None => None,
    }
}

pub(crate) fn or_else_ref<'a>(a: Option<&'a JsonValue>, b: Option<&'a JsonValue>) -> (r: Option<&'a JsonValue>)
    ensures
        deref_opt(r) == or_else_value(deref_opt(a), deref_opt(b)),
{
    match a {
        Some(x) => Some(x),
        None => b,
    }
}

pub(crate) fn str_or<'a>(v: Option<&'a JsonValue>, default: &'a str) -> (r: &'a str)
    ensures
        r@ == match str_of(deref_opt(v)) {
            Some(s) => s,
            None => default@,
        },
{
    match as_str(v) {
        Some(s) => s,
        None => default,
    }
}

fn event_type_of<'a>(v: &'a JsonValue) -> (r: &'a str)
    ensures
        r@ == codex_event_type(*v),
{
    let t = str_or(get(v, "type"), "");
    proof {
        reveal_strlit("");
        assert(""@ =~= Seq::<char>::empty());
    }
    if t.unicode_len() == 0 && as_str(get(v, "delta")).is_some() {
        "response.output_text.delta"
    } else {
        t
    }
}

pub(crate) fn finish_of(v: &JsonValue) -> (r: &'static str)
    ensures
        r@ == codex_finish(*v),
{
    match as_str(member_ref(member_ref(get(v, "response"), "incomplete_details"), "reason")) {
        Some(r) => {
            if str_eq(r, "max_output_tokens") {
                "length"
            } else if str_eq(r, "content_filter") {
                "content_filter"
            } else {
                "stop"
            }
        },
        None => "stop",
    }
}

fn error_message_of(v: &JsonValue, fallback: &str) -> (r: String)
    ensures
        r@ == codex_error_message(*v, fallback@),
{
    let response = get(v, "response");
    let nested = member_ref(response, "error");
    let message = as_str(or_else_ref(get(v, "message"), or_else_ref(member_ref(nested, "message"), member_ref(response, "status_details"))));
    let code = as_str(or_else_ref(get(v, "code"), member_ref(nested, "code")));
    match (code, message) {
        (Some(c), Some(msg)) => {
            if c.unicode_len() > 0 && msg.unicode_len() > 0 {
                return crate::text::cat3(c, ": ", msg);
            }
        },
        _ => {},
    }
    match message {
        Some(msg) => {
            if msg.unicode_len() > 0 {
                return String::from_str(msg);
            }
        },
        None => {},
    }
    match code {
        Some(c) => {
            if c.unicode_len() > 0 {
                return String::from_str(c);
            }
        },
        None => {},
    }
    String::from_str(fallback)
}

impl CodexToOpenAIStream {
    /// A translator for the group alias with the given starting token
    /// counts, a fresh `chatcmpl-` chat id, nothing received and nothing sent.
    pub fn new(group_alias: String, token_counts: StreamTokenCounts) -> (r: Self)
        ensures
            r.group_alias@ == group_alias@,
            r.chat_id@.len() == 41,
            r.chat_id@.take(9) == "chatcmpl-"@,
            forall|i: int| 9 <= i < 41 ==> is_lower_hex(#[trigger] r.chat_id@[i]),
            r.buffer@.len() == 0,
            r@ == (CodexView {
                sent_role: false,
                input_tokens: token_counts.input_tokens,
                output_tokens: token_counts.output_tokens,
                status: StatusView::Waiting,
                pending: None,
            }),
    {
        let suffix = uuid_v4_simple();
        let chat_id = cat("chatcmpl-", suffix.as_str());
        proof {
            reveal_strlit("chatcmpl-");
            assert(chat_id@.take(9) =~= "chatcmpl-"@);
            assert forall|i: int| 9 <= i < 41 implies is_lower_hex(#[trigger] chat_id@[i]) by {
                assert(chat_id@[i] == suffix@[i - 9]);
            }
        }
        CodexToOpenAIStream {
            group_alias,
            chat_id,
            buffer: Vec::new(),
            state: CodexStreamState::Waiting,
            token_counts,
            has_sent_role: false,
            pending_event_type: None,
        }
    }

    fn translate_delta(&mut self, v: &JsonValue) -> (r: Result<Option<String>, String>)
        ensures
            final(self).group_alias@ == old(self).group_alias@,
            final(self).chat_id@ == old(self).chat_id@,
            final(self).buffer@ == old(self).buffer@,
            (final(self)@, outcome_of(r)) == delta_step(old(self).chat_id@, old(self).group_alias@, old(self)@, *v),
    {
        let text = str_or(get(v, "delta"), "");
        proof {
            reveal_strlit("");
            assert(""@ =~= Seq::<char>::empty());
        }
        let mut out: Vec<char> = Vec::new();
        if !self.has_sent_role {
            push_codex_chunk(&mut out, self.chat_id.as_str(), self.group_alias.as_str(), Some("assistant"), None, None);
            self.has_sent_role = true;
        }
        let ghost id = old(self).chat_id@;
        let ghost al = old(self).group_alias@;
        assert(out@ =~= role_prefix(id, al, old(self).has_sent_role));
        if text.unicode_len() == 0 {
            assert(out@ =~= role_prefix(id, al, old(self).has_sent_role) + Seq::<char>::empty());
            return if out.len() == 0 {
                Ok(None)
            } else {
                Ok(Some(string_from_chars(&out)))
            };
        }
        push_codex_chunk(&mut out, self.chat_id.as_str(), self.group_alias.as_str(), None, Some(text), None);
        proof {
            crate::translator::lemma_sse_data_nonempty(
                "{\"choices\":[{\"delta\":{"@ + sorted_delta_text(None, Some(text@)) + "},\"finish_reason\":"@
                    + opt_quoted(None) + ",\"index\":0}],\"id\":"@ + quoted(id) + ",\"model\":"@ + quoted(al)
                    + ",\"object\":\"chat.completion.chunk\"}"@,
            );
        }
        Ok(Some(string_from_chars(&out)))
    }

    fn translate_item(&mut self, v: &JsonValue) -> (r: Result<Option<String>, String>)
        ensures
            final(self).group_alias@ == old(self).group_alias@,
            final(self).chat_id@ == old(self).chat_id@,
            final(self).buffer@ == old(self).buffer@,
            (final(self)@, outcome_of(r)) == item_step(old(self).chat_id@, old(self).group_alias@, old(self)@, *v),
    {
        let item = get(v, "item");
        match as_str(member_ref(item, "name")) {
            Some(name) => {
                let call_id = str_or(member_ref(item, "call_id"), "");
                let arguments = str_or(member_ref(item, "arguments"), "{}");
                proof {
                    reveal_strlit("");
                    assert(""@ =~= Seq::<char>::empty());
                }
                let mut out: Vec<char> = Vec::new();
                if !self.has_sent_role {
                    push_codex_chunk(&mut out, self.chat_id.as_str(), self.group_alias.as_str(), Some("assistant"), None, None);
                    self.has_sent_role = true;
                }
                let ghost id = old(self).chat_id@;
                let ghost al = old(self).group_alias@;
                assert(out@ =~= role_prefix(id, al, old(self).has_sent_role));
                push_tool_chunk(&mut out, self.chat_id.as_str(), self.group_alias.as_str(), call_id, name, arguments);
                Ok(Some(string_from_chars(&out)))
            },
            None => Ok(None),
        }
    }

    fn translate_completed(&mut self, v: &JsonValue) -> (r: Result<Option<String>, String>)
        ensures
            final(self).group_alias@ == old(self).group_alias@,
            final(self).chat_id@ == old(self).chat_id@,
            final(self).buffer@ == old(self).buffer@,
            (final(self)@, outcome_of(r)) == completed_step(old(self).chat_id@, old(self).group_alias@, old(self)@, *v),
    {
        let usage = or_else_ref(member_ref(get(v, "response"), "usage"), get(v, "usage"));
        match as_u64(member_ref(usage, "input_tokens")) {
            Some(n) => {
                self.token_counts.input_tokens = n;
            },
            None => {},
        }
        match as_u64(member_ref(usage, "output_tokens")) {
            Some(n) => {
                self.token_counts.output_tokens = n;
            },
            None => {},
        }
        let finish = finish_of(v);
        let mut out: Vec<char> = Vec::new();
        push_codex_chunk(&mut out, self.chat_id.as_str(), self.group_alias.as_str(), None, None, Some(finish));
        append_str(&mut out, "data: [DONE]\n\n");
        self.state = CodexStreamState::Done;
        Ok(Some(string_from_chars(&out)))
    }

    /// Translates one parsed event; see [`event_step`].
    fn translate_value(&mut self, v: &JsonValue) -> (r: Result<Option<String>, String>)
        ensures
            final(self).group_alias@ == old(self).group_alias@,
            final(self).chat_id@ == old(self).chat_id@,
            final(self).buffer@ == old(self).buffer@,
            (final(self)@, outcome_of(r)) == event_step(old(self).chat_id@, old(self).group_alias@, old(self)@, Some(*v)),
    {
        let t = event_type_of(v);
        if str_eq(t, "response.output_text.delta") {
            self.translate_delta(v)
        } else if str_eq(t, "response.output_item.done") {
            self.translate_item(v)
        } else if str_eq(t, "response.completed") || str_eq(t, "response.incomplete") {
            self.translate_completed(v)
        } else if str_eq(t, "response.failed") || str_eq(t, "error") {
            let detail = error_message_of(v, t);
            Err(cat("codex upstream error: ", detail.as_str()))
        } else {
            Ok(None)
        }
    }

    /// Translates the data of one event; see [`event_step`].
    pub fn translate_event(&mut self, data: &str) -> (r: Result<Option<String>, String>)
        ensures
            final(self).group_alias@ == old(self).group_alias@,
            final(self).chat_id@ == old(self).chat_id@,
            final(self).buffer@ == old(self).buffer@,
            (final(self)@, outcome_of(r)) == event_step(old(self).chat_id@, old(self).group_alias@, old(self)@, json_parse(data@)),
    {
        match parse_json(data) {
            Some(v) => self.translate_value(&v),
            None => Ok(None),
        }
    }
}


// ---------------------------------------------------------------------------
// Typing events announced by `event:` lines
// ---------------------------------------------------------------------------

/// Strict order of keys, character by character (the order of `String`).
pub open spec fn key_lt(a: Seq<char>, b: Seq<char>) -> bool
    decreases a.len(),
{
    if a.len() == 0 {
        b.len() > 0
    } else if b.len() == 0 {
        false
    } else if a[0] != b[0] {
        (a[0] as u32) < (b[0] as u32)
    } else {
        key_lt(a.drop_first(), b.drop_first())
    }
}

/// Whether `p` occurs in `s`.
pub open spec fn contains_seq(s: Seq<char>, p: Seq<char>) -> bool {
    exists|i: int| 0 <= i && i + p.len() <= s.len() && #[trigger] s.subrange(i, i + p.len()) == p
}

/// A two-member object: the given member, then the type.
pub open spec fn typed_pair(key: Seq<char>, value_text: Seq<char>, et: Seq<char>) -> Seq<char> {
    "{"@ + quoted(key) + ":"@ + value_text + ",\"type\":"@ + quoted(et) + "}"@
}

/// Where a `type` member goes among an object's members: before the first
/// member whose key orders after it.
pub open spec fn type_slot(m: Seq<(String, JsonValue)>) -> int {
    match first_index(m, |p: (String, JsonValue)| key_lt("type"@, p.0@)) {
        Some(i) => i,
        None => m.len() as int,
    }
}

/// An object's text with a `type` member added in key order.
pub open spec fn object_with_type(m: Seq<(String, JsonValue)>, et: Seq<char>) -> Seq<char> {
    let i = type_slot(m);
    "{"@ + members_text(m.subrange(0, i)) + (if i > 0 {
        ","@
    } else {
        Seq::empty()
    }) + "\"type\":"@ + quoted(et) + (if i < m.len() {
        ","@
    } else {
        Seq::empty()
    }) + members_text(m.subrange(i, m.len() as int)) + "}"@
}

/// The text of event data with an announced type: an object gains the type
/// unless it has one; a string becomes the delta of a typed object when the
/// type names a delta, and any other value, or text that is not JSON, the
/// data of one (text that is not JSON counts as a string).
pub open spec fn applied_text(parsed: Option<JsonValue>, data: Seq<char>, et: Seq<char>) -> Seq<char> {
    match parsed {
        Some(JsonValue::Object(m)) => if member_of(m@, "type"@) is Some {
            json_text(JsonValue::Object(m))
        } else {
            object_with_type(m@, et)
        },
        Some(JsonValue::Str(s)) => if contains_seq(et, "delta"@) {
            typed_pair("delta"@, quoted(s@), et)
        } else {
            typed_pair("data"@, quoted(s@), et)
        },
        Some(v) => typed_pair("data"@, json_text(v), et),
        None => if contains_seq(et, "delta"@) {
            typed_pair("delta"@, quoted(data), et)
        } else {
            typed_pair("data"@, quoted(data), et)
        },
    }
}

pub(crate) fn key_less(a: &Vec<char>, b: &Vec<char>) -> (r: bool)
    ensures
        r == key_lt(a@, b@),
{
    let mut i: usize = 0;
    assert(a@.skip(0) =~= a@);
    assert(b@.skip(0) =~= b@);
    while i < a.len() && i < b.len() && a[i] == b[i]
        invariant
            i <= a@.len(),
            i <= b@.len(),
            key_lt(a@, b@) == key_lt(a@.skip(i as int), b@.skip(i as int)),
        decreases a.len() - i,
    {
        assert(a@.skip(i as int).drop_first() =~= a@.skip(i + 1));
        assert(b@.skip(i as int).drop_first() =~= b@.skip(i + 1));
        i = i + 1;
    }
    if i == a.len() {
        i < b.len()
    } else if i == b.len() {
        false
    } else {
        (a[i] as u32) < (b[i] as u32)
    }
}

fn contains_str(s: &str, p: &str) -> (r: bool)
    ensures
        r == contains_seq(s@, p@),
{
    let cs = chars_of(s);
    let cp = chars_of(p);
    if cp.len() > cs.len() {
        return false;
    }
    if cp.len() == 0 {
        assert(cs@.subrange(0, 0 + cp@.len() as int) =~= cp@);
        assert(s@.subrange(0, 0 + p@.len() as int) == p@);
        return true;
    }
    let n: usize = cs.len() - cp.len();
    let mut i: usize = 0;
    while i <= n
        invariant
            cs@ == s@,
            cp@ == p@,
            cp@.len() <= cs@.len(),
            n == cs@.len() - cp@.len(),
            n < cs.len(),
            i <= n + 1,
            forall|j: int| 0 <= j < i ==> #[trigger] cs@.subrange(j, j + cp@.len()) != cp@,
        decreases n + 1 - i,
    {
        if matches_at(&cs, &cp, i) {
            return true;
        }
        i = i + 1;
    }
    false
}

/// Appends the members from `lo` to `hi`.
fn write_members_range(out: &mut Vec<char>, members: &Vec<(String, JsonValue)>, lo: usize, hi: usize)
    requires
        lo <= hi <= members@.len(),
    ensures
        final(out)@ == old(out)@ + members_text(members@.subrange(lo as int, hi as int)),
{
    let ghost start = out@;
    let mut i: usize = lo;
    assert(members@.subrange(lo as int, lo as int) =~= Seq::<(String, JsonValue)>::empty());
    while i < hi
        invariant
            lo <= i <= hi,
            hi <= members@.len(),
            out@ == start + members_text(members@.subrange(lo as int, i as int)),
        decreases hi - i,
    {
        if i > lo {
            out.push(',');
        }
        push_quoted(out, members[i].0.as_str());
        out.push(':');
        write_json(out, &members[i].1);
        proof {
            let t = members@.subrange(lo as int, i + 1);
            assert(t.subrange(0, i - lo) =~= members@.subrange(lo as int, i as int));
            assert(t[i - lo] == members@[i as int]);
            if i == lo {
                assert(members@.subrange(lo as int, lo as int) =~= Seq::<(String, JsonValue)>::empty());
            }
        }
        i = i + 1;
    }
}

fn type_slot_exec(m: &Vec<(String, JsonValue)>) -> (r: usize)
    ensures
        r == type_slot(m@),
        r <= m@.len(),
{
    let key = chars_of("type");
    let mut i: usize = 0;
    while i < m.len() && !key_less(&key, &chars_of(m[i].0.as_str()))
        invariant
            i <= m@.len(),
            key@ == "type"@,
            forall|j: int| 0 <= j < i ==> !key_lt("type"@, (#[trigger] m@[j]).0@),
        decreases m.len() - i,
    {
        i = i + 1;
    }
    let ghost p = |q: (String, JsonValue)| key_lt("type"@, q.0@);
    proof {
        assert forall|j: int| 0 <= j < i implies !p(#[trigger] m@[j]) by {}
        if i < m@.len() {
            lemma_first_index_unique(m@, p, i as int);
        } else {
            lemma_first_index_none(m@, p);
        }
    }
    i
}

fn push_typed_pair(out: &mut Vec<char>, key: &str, value_text: &Vec<char>, et: &str)
    ensures
        final(out)@ == old(out)@ + typed_pair(key@, value_text@, et@),
{
    let ghost o = out@;
    append_str(out, "{");
    push_quoted(out, key);
    append_str(out, ":");
    let mut k: usize = 0;
    let ghost before = out@;
    while k < value_text.len()
        invariant
            k <= value_text@.len(),
            out@ == before + value_text@.take(k as int),
        decreases value_text.len() - k,
    {
        out.push(value_text[k]);
        k = k + 1;
        assert(out@ =~= before + value_text@.take(k as int));
    }
    assert(value_text@.take(k as int) =~= value_text@);
    append_str(out, ",\"type\":");
    push_quoted(out, et);
    append_str(out, "}");
    assert(out@ =~= o + typed_pair(key@, value_text@, et@));
}

/// Gives event data the type an `event:` line announced; see
/// [`applied_text`].
pub fn apply_sse_event_type(data: &str, event_type: &str) -> (r: String)
    ensures
        r@ == applied_text(json_parse(data@), data@, event_type@),
{
    let is_delta = contains_str(event_type, "delta");
    let parsed = parse_json(data);
    let mut out: Vec<char> = Vec::new();
    match &parsed {
        Some(v) => {
            match v {
                JsonValue::Object(m) => {
                    if get(v, "type").is_some() {
                        return crate::json::to_json_string(v);
                    }
                    let i = type_slot_exec(m);
                    append_str(&mut out, "{");
                    write_members_range(&mut out, m, 0, i);
                    let ghost a = out@;
                    if i > 0 {
                        append_str(&mut out, ",");
                    }
                    assert(out@ =~= a + (if i > 0 { ","@ } else { Seq::<char>::empty() }));
                    append_str(&mut out, "\"type\":");
                    push_quoted(&mut out, event_type);
                    let ghost b = out@;
                    if i < m.len() {
                        append_str(&mut out, ",");
                    }
                    assert(out@ =~= b + (if i < m@.len() { ","@ } else { Seq::<char>::empty() }));
                    write_members_range(&mut out, m, i, m.len());
                    append_str(&mut out, "}");
                    assert(out@ =~= object_with_type(m@, event_type@));
                },
                JsonValue::Str(s) => {
                    let mut q: Vec<char> = Vec::new();
                    push_quoted(&mut q, s.as_str());
                    if is_delta {
                        push_typed_pair(&mut out, "delta", &q, event_type);
                    } else {
                        push_typed_pair(&mut out, "data", &q, event_type);
                    }
                },
                _ => {
                    let mut t: Vec<char> = Vec::new();
                    write_json(&mut t, v);
                    push_typed_pair(&mut out, "data", &t, event_type);
                },
            }
        },
        None => {
            let mut q: Vec<char> = Vec::new();
            push_quoted(&mut q, data);
            if is_delta {
                push_typed_pair(&mut out, "delta", &q, event_type);
            } else {
                push_typed_pair(&mut out, "data", &q, event_type);
            }
        },
    }
    string_from_chars(&out)
}


// ---------------------------------------------------------------------------
// Lines and polls
// ---------------------------------------------------------------------------

/// One data payload: with an announced type pending, the data is typed with
/// it first (and the announcement used up).
pub open spec fn sse_data_step(id: Seq<char>, model: Seq<char>, m: CodexView, data: Seq<char>) -> (CodexView, EventOutcome) {
    match m.pending {
        Some(et) => event_step(
            id,
            model,
            CodexView { pending: None, ..m },
            json_parse(applied_text(json_parse(data), data, et)),
        ),
        None => event_step(id, model, m, json_parse(data)),
    }
}

/// What a trimmed line is: an `event:` announcement (its trimmed type), a
/// `data:` field (its payload), or something else.
pub enum LineKind {
    Event(Seq<char>),
    Data(Seq<char>),
    Other,
}

pub open spec fn line_kind(l: Seq<char>) -> LineKind {
    if has_prefix(l, "event: "@) {
        LineKind::Event(trim_ws(l.skip(7)))
    } else if has_prefix(l, "event:"@) {
        LineKind::Event(trim_ws(l.skip(6)))
    } else if has_prefix(l, "data: "@) {
        LineKind::Data(l.skip(6))
    } else if has_prefix(l, "data:"@) {
        LineKind::Data(l.skip(5))
    } else {
        LineKind::Other
    }
}

/// One line of the stream: an announcement is kept for the next data line;
/// a non-empty data payload is translated; anything else gives nothing.
pub open spec fn line_step(id: Seq<char>, model: Seq<char>, m: CodexView, line: Seq<char>) -> (CodexView, EventOutcome) {
    match line_kind(trim_ws(line)) {
        LineKind::Event(et) => (CodexView { pending: Some(et), ..m }, EventOutcome::Skip),
        LineKind::Data(d) => if d.len() > 0 {
            sse_data_step(id, model, m, d)
        } else {
            (m, EventOutcome::Skip)
        },
        LineKind::Other => (m, EventOutcome::Skip),
    }
}

/// What a poll of the translation gives: poll the upstream again, a piece
/// of output, an error, or the end of the stream.
pub enum PollView {
    Pending,
    Emit(Seq<char>),
    Fail(Seq<char>),
    End,
}

/// A step of the translation as the app drives it.
pub enum PollStep {
    Pending,
    Emit(String),
    Fail(String),
    End,
}

pub open spec fn poll_view(p: PollStep) -> PollView {
    match p {
        PollStep::Pending => PollView::Pending,
        PollStep::Emit(s) => PollView::Emit(s@),
        PollStep::Fail(e) => PollView::Fail(e@),
        PollStep::End => PollView::End,
    }
}

/// Before the upstream is polled: a finished translation ends, and an
/// errored one repeats its error once and then ends.
pub open spec fn resume_step(m: CodexView) -> (CodexView, PollView) {
    match m.status {
        StatusView::Done => (m, PollView::End),
        StatusView::Errored(e) => (CodexView { status: StatusView::Done, ..m }, PollView::Fail(e)),
        StatusView::Waiting => (m, PollView::Pending),
    }
}

/// Received bytes (joined to those kept): where they hold a newline, the
/// line before the first one is taken out and handled; a failure marks the
/// translation errored.
pub open spec fn chunk_step(id: Seq<char>, model: Seq<char>, m: CodexView, buf: Seq<u8>) -> (CodexView, Seq<u8>, PollView) {
    match first_index(buf, |b: u8| is_newline(b)) {
        None => (m, buf, PollView::Pending),
        Some(p) => {
            let (m2, o) = line_step(id, model, m, utf8_lossy(buf.take(p)));
            let rest = buf.skip(p + 1);
            match o {
                EventOutcome::Skip => (m2, rest, PollView::Pending),
                EventOutcome::Out(s) => (m2, rest, PollView::Emit(s)),
                EventOutcome::Failure(e) => (CodexView { status: StatusView::Errored(e), ..m2 }, rest, PollView::Fail(e)),
            }
        },
    }
}

/// The position of the first newline, or the length.
pub open spec fn nl_pos(s: Seq<char>) -> int
    decreases s.len(),
{
    if s.len() == 0 {
        0
    } else if s[0] == '\n' {
        0
    } else {
        1 + nl_pos(s.drop_first())
    }
}

pub proof fn lemma_nl_pos(s: Seq<char>)
    ensures
        0 <= nl_pos(s) <= s.len(),
        nl_pos(s) < s.len() ==> s[nl_pos(s)] == '\n',
        forall|k: int| 0 <= k < nl_pos(s) ==> s[k] != '\n',
    decreases s.len(),
{
    if s.len() > 0 && s[0] != '\n' {
        lemma_nl_pos(s.drop_first());
        assert forall|k: int| 0 <= k < nl_pos(s) implies s[k] != '\n' by {
            if k > 0 {
                assert(s[k] == s.drop_first()[k - 1]);
            }
        }
    }
}

pub proof fn lemma_nl_pos_is(s: Seq<char>, r: int)
    requires
        0 <= r <= s.len(),
        forall|k: int| 0 <= k < r ==> s[k] != '\n',
        r < s.len() ==> s[r] == '\n',
    ensures
        nl_pos(s) == r,
    decreases s.len(),
{
    if s.len() > 0 && r > 0 {
        lemma_nl_pos_is(s.drop_first(), r - 1);
    }
}

/// The rest of the stream's text, line by line, once the upstream has
/// ended: outputs are collected after `acc`; a failure stops the draining.
pub open spec fn drain(id: Seq<char>, model: Seq<char>, m: CodexView, text: Seq<char>, acc: Seq<char>) -> (CodexView, EventOutcome)
    decreases text.len(),
{
    let i = nl_pos(text);
    if i < text.len() {
        proof {
            lemma_nl_pos(text);
        }
        let (m2, o) = line_step(id, model, m, text.take(i));
        match o {
            EventOutcome::Failure(e) => (m2, EventOutcome::Failure(e)),
            EventOutcome::Out(s) => drain(id, model, m2, text.skip(i + 1), acc + s),
            EventOutcome::Skip => drain(id, model, m2, text.skip(i + 1), acc),
        }
    } else {
        let (m2, o) = line_step(id, model, m, text);
        match o {
            EventOutcome::Failure(e) => (m2, EventOutcome::Failure(e)),
            EventOutcome::Out(s) => (m2, EventOutcome::Out(acc + s)),
            EventOutcome::Skip => (m2, EventOutcome::Out(acc)),
        }
    }
}

/// The closing output: the role chunk (once), a `stop` finish chunk and the
/// `[DONE]` marker; the translation is done.
pub open spec fn final_stop(id: Seq<char>, model: Seq<char>, m: CodexView) -> (CodexView, PollView) {
    (
        CodexView { status: StatusView::Done, sent_role: true, ..m },
        PollView::Emit(
            role_prefix(id, model, m.sent_role) + codex_chunk(id, model, None, None, Some("stop"@))
                + "data: [DONE]\n\n"@,
        ),
    )
}

/// The upstream has ended: the kept bytes are drained as lines; what they
/// give goes out, or, when they give nothing, the closing output does; a
/// failure marks the translation errored.
pub open spec fn end_step(id: Seq<char>, model: Seq<char>, m: CodexView, buf: Seq<u8>) -> (CodexView, PollView) {
    let (m1, r) = if buf.len() > 0 {
        drain(id, model, m, utf8_lossy(buf), Seq::empty())
    } else {
        (m, EventOutcome::Out(Seq::empty()))
    };
    match r {
        EventOutcome::Failure(e) => (CodexView { status: StatusView::Errored(e), ..m1 }, PollView::Fail(e)),
        EventOutcome::Out(acc) => if acc.len() > 0 {
            (m1, PollView::Emit(acc))
        } else {
            final_stop(id, model, m1)
        },
        EventOutcome::Skip => final_stop(id, model, m1),
    }
}

impl CodexToOpenAIStream {
    /// Translates one data payload; see [`sse_data_step`].
    pub fn translate_sse_data(&mut self, data: &str) -> (r: Result<Option<String>, String>)
        ensures
            final(self).group_alias@ == old(self).group_alias@,
            final(self).chat_id@ == old(self).chat_id@,
            final(self).buffer@ == old(self).buffer@,
            (final(self)@, outcome_of(r)) == sse_data_step(old(self).chat_id@, old(self).group_alias@, old(self)@, data@),
    {
        let mut pending: Option<String> = None;
        std::mem::swap(&mut pending, &mut self.pending_event_type);
        match pending {
            Some(et) => {
                let typed = apply_sse_event_type(data, et.as_str());
                self.translate_event(typed.as_str())
            },
            None => self.translate_event(data),
        }
    }

    /// Handles one line (without its newline); see [`line_step`].
    fn handle_line(&mut self, line: &Vec<char>) -> (r: Result<Option<String>, String>)
        ensures
            final(self).group_alias@ == old(self).group_alias@,
            final(self).chat_id@ == old(self).chat_id@,
            final(self).buffer@ == old(self).buffer@,
            (final(self)@, outcome_of(r)) == line_step(old(self).chat_id@, old(self).group_alias@, old(self)@, line@),
    {
        let t = trim_chars(line);
        let e7 = chars_of("event: ");
        let e6 = chars_of("event:");
        let d6 = chars_of("data: ");
        let d5 = chars_of("data:");
        proof {
            reveal_strlit("event: ");
            reveal_strlit("event:");
            reveal_strlit("data: ");
            reveal_strlit("data:");
        }
        if chars_starts_with(&t, &e7) || chars_starts_with(&t, &e6) {
            let start: usize = if chars_starts_with(&t, &e7) {
                7
            } else {
                6
            };
            let rest = chars_slice(&t, start, t.len());
            assert(rest@ =~= t@.skip(start as int));
            let et = trim_chars(&rest);
            self.pending_event_type = Some(string_from_chars(&et));
            return Ok(None);
        }
        let start: usize = if chars_starts_with(&t, &d6) {
            6
        } else if chars_starts_with(&t, &d5) {
            5
        } else {
            return Ok(None);
        };
        let payload = chars_slice(&t, start, t.len());
        assert(payload@ =~= t@.skip(start as int));
        if payload.len() == 0 {
            return Ok(None);
        }
        let data = string_from_chars(&payload);
        self.translate_sse_data(data.as_str())
    }

    /// Before the upstream is polled; see [`resume_step`]. `Pending` means
    /// the upstream is to be polled.
    pub fn resume(&mut self) -> (r: PollStep)
        ensures
            final(self).group_alias@ == old(self).group_alias@,
            final(self).chat_id@ == old(self).chat_id@,
            final(self).buffer@ == old(self).buffer@,
            (final(self)@, poll_view(r)) == resume_step(old(self)@),
    {
        let mut st = CodexStreamState::Done;
        std::mem::swap(&mut st, &mut self.state);
        match st {
            CodexStreamState::Done => PollStep::End,
            CodexStreamState::Errored(e) => PollStep::Fail(e),
            CodexStreamState::Waiting => {
                self.state = CodexStreamState::Waiting;
                PollStep::Pending
            },
        }
    }

    /// Takes in bytes the upstream sent; see [`chunk_step`].
    pub fn on_chunk(&mut self, chunk: &[u8]) -> (r: PollStep)
        ensures
            final(self).group_alias@ == old(self).group_alias@,
            final(self).chat_id@ == old(self).chat_id@,
            (final(self)@, final(self).buffer@, poll_view(r)) == chunk_step(
                old(self).chat_id@,
                old(self).group_alias@,
                old(self)@,
                old(self).buffer@ + chunk@,
            ),
    {
        let ghost all = old(self).buffer@ + chunk@;
        let mut k: usize = 0;
        while k < chunk.len()
            invariant
                k <= chunk@.len(),
                self.buffer@ == old(self).buffer@ + chunk@.take(k as int),
                self.group_alias@ == old(self).group_alias@,
                self.chat_id@ == old(self).chat_id@,
                self@ == old(self)@,
            decreases chunk.len() - k,
        {
            self.buffer.push(chunk[k]);
            k = k + 1;
            assert(self.buffer@ =~= old(self).buffer@ + chunk@.take(k as int));
        }
        assert(chunk@.take(k as int) =~= chunk@);
        let mut pos: usize = 0;
        while pos < self.buffer.len() && self.buffer[pos] != 10u8
            invariant
                pos <= self.buffer@.len(),
                self.buffer@ == all,
                forall|j: int| 0 <= j < pos ==> !is_newline(#[trigger] all[j]),
            decreases self.buffer.len() - pos,
        {
            pos = pos + 1;
        }
        if pos == self.buffer.len() {
            proof {
                lemma_first_index_none(all, |b: u8| is_newline(b));
            }
            return PollStep::Pending;
        }
        proof {
            lemma_first_index_unique(all, |b: u8| is_newline(b), pos as int);
        }
        let mut line: Vec<u8> = Vec::new();
        let mut i: usize = 0;
        while i < pos
            invariant
                i <= pos,
                pos < self.buffer@.len(),
                self.buffer@ == all,
                line@ == all.take(i as int),
            decreases pos - i,
        {
            line.push(self.buffer[i]);
            i = i + 1;
            assert(line@ =~= all.take(i as int));
        }
        let mut rest: Vec<u8> = Vec::new();
        let mut j: usize = pos + 1;
        while j < self.buffer.len()
            invariant
                pos + 1 <= j <= self.buffer@.len(),
                self.buffer@ == all,
                rest@ == all.subrange(pos + 1, j as int),
            decreases self.buffer.len() - j,
        {
            rest.push(self.buffer[j]);
            j = j + 1;
            assert(rest@ =~= all.subrange(pos + 1, j as int));
        }
        assert(rest@ =~= all.skip(pos + 1));
        self.buffer = rest;
        let text = decode_lossy(line.as_slice());
        let cs = chars_of(text.as_str());
        match self.handle_line(&cs) {
            Ok(None) => PollStep::Pending,
            Ok(Some(out)) => PollStep::Emit(out),
            Err(e) => {
                self.state = CodexStreamState::Errored(e.clone());
                PollStep::Fail(e)
            },
        }
    }

    /// Drains text line by line; see [`drain`].
    fn drain_text(&mut self, text: &Vec<char>) -> (r: Result<String, String>)
        ensures
            final(self).group_alias@ == old(self).group_alias@,
            final(self).chat_id@ == old(self).chat_id@,
            final(self).buffer@ == old(self).buffer@,
            (final(self)@, match r {
                Ok(s) => EventOutcome::Out(s@),
                Err(e) => EventOutcome::Failure(e@),
            }) == drain(old(self).chat_id@, old(self).group_alias@, old(self)@, text@, Seq::empty()),
    {
        let ghost id = old(self).chat_id@;
        let ghost al = old(self).group_alias@;
        let mut acc: Vec<char> = Vec::new();
        let mut pos: usize = 0;
        assert(text@.skip(0) =~= text@);
        loop
            invariant
                pos <= text@.len(),
                al == old(self).group_alias@,
                id == old(self).chat_id@,
                self.group_alias@ == al,
                self.chat_id@ == id,
                self.buffer@ == old(self).buffer@,
                drain(id, al, old(self)@, text@, Seq::empty()) == drain(id, al, self@, text@.skip(pos as int), acc@),
            decreases text@.len() - pos,
        {
            let mut j: usize = pos;
            while j < text.len() && text[j] != '\n'
                invariant
                    pos <= j <= text@.len(),
                    forall|k: int| pos <= k < j ==> text@[k] != '\n',
                decreases text.len() - j,
            {
                j = j + 1;
            }
            let ghost rest = text@.skip(pos as int);
            proof {
                assert forall|k: int| 0 <= k < j - pos implies rest[k] != '\n' by {
                    assert(rest[k] == text@[pos + k]);
                }
                if j < text@.len() {
                    assert(rest[j - pos] == text@[j as int]);
                }
                lemma_nl_pos_is(rest, j - pos);
            }
            let line = chars_slice(text, pos, j);
            let ghost before = self@;
            let res = self.handle_line(&line);
            if j < text.len() {
                proof {
                    assert(rest.take(j - pos) =~= line@);
                    assert(rest.skip(j - pos + 1) =~= text@.skip(j + 1));
                }
                match res {
                    Err(e) => {
                        return Err(e);
                    },
                    Ok(Some(s)) => {
                        let ghost acc0 = acc@;
                        crate::text::append_str(&mut acc, s.as_str());
                        assert(acc@ == acc0 + s@);
                    },
                    Ok(None) => {},
                }
                pos = j + 1;
            } else {
                proof {
                    assert(rest =~= line@);
                }
                match res {
                    Err(e) => {
                        return Err(e);
                    },
                    Ok(Some(s)) => {
                        crate::text::append_str(&mut acc, s.as_str());
                    },
                    Ok(None) => {},
                }
                return Ok(string_from_chars(&acc));
            }
        }
    }

    /// The upstream has ended; see [`end_step`]. The kept bytes are used up.
    pub fn on_end(&mut self) -> (r: PollStep)
        ensures
            final(self).group_alias@ == old(self).group_alias@,
            final(self).chat_id@ == old(self).chat_id@,
            final(self).buffer@.len() == 0,
            (final(self)@, poll_view(r)) == end_step(old(self).chat_id@, old(self).group_alias@, old(self)@, old(self).buffer@),
    {
        let ghost id = old(self).chat_id@;
        let ghost al = old(self).group_alias@;
        let mut collected: Vec<char> = Vec::new();
        if self.buffer.len() > 0 {
            let text = decode_lossy(self.buffer.as_slice());
            self.buffer = Vec::new();
            let cs = chars_of(text.as_str());
            match self.drain_text(&cs) {
                Err(e) => {
                    self.state = CodexStreamState::Errored(e.clone());
                    return PollStep::Fail(e);
                },
                Ok(s) => {
                    if s.unicode_len() > 0 {
                        return PollStep::Emit(s);
                    }
                },
            }
        }
        self.state = CodexStreamState::Done;
        let mut out: Vec<char> = Vec::new();
        if !self.has_sent_role {
            push_codex_chunk(&mut out, self.chat_id.as_str(), self.group_alias.as_str(), Some("assistant"), None, None);
            self.has_sent_role = true;
        }
        push_codex_chunk(&mut out, self.chat_id.as_str(), self.group_alias.as_str(), None, None, Some("stop"));
        append_str(&mut out, "data: [DONE]\n\n");
        PollStep::Emit(string_from_chars(&out))
    }
}

} // verus!
