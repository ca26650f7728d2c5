//! A Codex response stream gathered into one chat completion, for local
//! clients that did not ask for a stream: text deltas are joined, finished
//! function calls collected, the finish reason and token usage kept.

use vstd::prelude::*;
use crate::json::{JsonValue, JsonNumber, get, as_str, as_u64, get_member, str_of, u64_of, parse_json, json_parse};
use crate::json_model::{JsonModel, model_of, model_members, model_items, lemma_model_members, lemma_model_items, num, jstr, jnum, copy_value};
use crate::codex_stream::{
    or_else_value, codex_finish, codex_usage, member_ref, or_else_ref, str_or, finish_of, nl_pos, lemma_nl_pos,
    lemma_nl_pos_is,
};
use crate::translator::{utf8_lossy, decode_lossy, data_field};
use crate::text::{has_prefix, chars_of, chars_slice, chars_starts_with, append_str, str_eq, string_from_chars, cat};
use crate::ids::{is_lower_hex, uuid_v4_simple, system_time_secs};

verus! {

/// The message every failure event of the stream ends the gathering with.
pub open spec fn failed_message() -> Seq<char> {
    "codex upstream response failed"@
}

/// What has been gathered: the joined text, the collected calls, the finish
/// reason, and the input and output token counts last reported.
pub struct AggView {
    pub content: Seq<char>,
    pub calls: Seq<JsonModel>,
    pub finish: Seq<char>,
    pub input: u64,
    pub output: u64,
}

/// A string member's text, or a default.
pub open spec fn text_or(v: Option<JsonValue>, d: Seq<char>) -> Seq<char> {
    match str_of(v) {
        Some(s) => s,
        None => d,
    }
}

/// The chat-completion tool call for a finished function-call item: its
/// `call_id` (else `id`), name and arguments (`{}` when missing).
pub open spec fn call_model(item: JsonValue) -> JsonModel {
    JsonModel::Obj(
        seq![
            ("function"@, JsonModel::Obj(seq![
                ("arguments"@, JsonModel::Str(text_or(get_member(item, "arguments"@), "{}"@))),
                ("name"@, JsonModel::Str(text_or(get_member(item, "name"@), Seq::empty()))),
            ])),
            ("id"@, JsonModel::Str(text_or(or_else_value(get_member(item, "call_id"@), get_member(item, "id"@)), Seq::empty()))),
            ("type"@, JsonModel::Str("function"@)),
        ],
    )
}

/// One event: a failure ends the gathering (`None`); an incomplete
/// response sets the finish reason; a finished function-call item adds a
/// call; a string delta is appended; reported usage replaces the counts it
/// gives.
pub open spec fn agg_event(m: AggView, ev: JsonValue) -> Option<AggView> {
    let t = text_or(get_member(ev, "type"@), Seq::empty());
    if t == "response.failed"@ || t == "error"@ {
        None
    } else {
        let m1 = if t == "response.incomplete"@ {
            AggView { finish: codex_finish(ev), ..m }
        } else if t == "response.output_item.done"@ {
            match get_member(ev, "item"@) {
                Some(item) => if str_of(get_member(item, "type"@)) == Some("function_call"@) {
                    AggView { calls: m.calls.push(call_model(item)), ..m }
                } else {
                    m
                },
                None => m,
            }
        } else {
            m
        };
        let m2 = match str_of(get_member(ev, "delta"@)) {
            Some(d) => AggView { content: m1.content + d, ..m1 },
            None => m1,
        };
        Some(
            match codex_usage(ev) {
                Some(u) => AggView {
                    input: match u64_of(get_member(u, "input_tokens"@)) {
                        Some(n) => n,
                        None => m2.input,
                    },
                    output: match u64_of(get_member(u, "output_tokens"@)) {
                        Some(n) => n,
                        None => m2.output,
                    },
                    ..m2
                },
                None => m2,
            },
        )
    }
}

/// One data payload: an empty one, the `[DONE]` marker and text that is not
/// JSON change nothing.
pub open spec fn agg_data(m: AggView, data: Seq<char>) -> Option<AggView> {
    if data.len() == 0 || data == "[DONE]"@ {
        Some(m)
    } else {
        match json_parse(data) {
            Some(ev) => agg_event(m, ev),
            None => Some(m),
        }
    }
}

/// A line without the carriage returns and newlines at its end.
pub open spec fn trim_line_end(s: Seq<char>) -> Seq<char>
    decreases s.len(),
{
    if s.len() > 0 && (s.last() == '\r' || s.last() == '\n') {
        trim_line_end(s.drop_last())
    } else {
        s
    }
}

/// One line: its `data:` payload, if it has one, is handled.
pub open spec fn agg_line(m: AggView, line: Seq<char>) -> Option<AggView> {
    match data_field(trim_line_end(line)) {
        Some(d) => agg_data(m, d),
        None => Some(m),
    }
}

/// The complete lines of buffered text, each with its newline, handled in
/// order; what follows the last newline is kept. A failure ends it.
pub open spec fn agg_lines(m: AggView, buf: Seq<char>) -> (Option<AggView>, Seq<char>)
    decreases buf.len(),
{
    let i = nl_pos(buf);
    if i < buf.len() {
        proof {
            lemma_nl_pos(buf);
        }
        match agg_line(m, buf.take(i + 1)) {
            Some(m2) => agg_lines(m2, buf.skip(i + 1)),
            None => (None, buf.skip(i + 1)),
        }
    } else {
        (Some(m), buf)
    }
}

/// The end of the stream: text kept without a newline is handled as a
/// last line.
pub open spec fn agg_end(m: AggView, buf: Seq<char>) -> Option<AggView> {
    if buf.len() > 0 {
        agg_line(m, buf)
    } else {
        Some(m)
    }
}

/// The chat completion made of what was gathered: with calls, the message
/// carries them and the finish reason is `tool_calls`. Keys are in the
/// order `serde_json` writes a map in.
pub open spec fn response_model(id: Seq<char>, created: u64, alias: Seq<char>, m: AggView) -> JsonModel {
    let message = if m.calls.len() == 0 {
        JsonModel::Obj(seq![("content"@, JsonModel::Str(m.content)), ("role"@, JsonModel::Str("assistant"@))])
    } else {
        JsonModel::Obj(
            seq![
                ("content"@, JsonModel::Str(m.content)),
                ("role"@, JsonModel::Str("assistant"@)),
                ("tool_calls"@, JsonModel::Arr(m.calls)),
            ],
        )
    };
    let finish = if m.calls.len() == 0 {
        m.finish
    } else {
        "tool_calls"@
    };
    JsonModel::Obj(
        seq![
            ("choices"@, JsonModel::Arr(seq![JsonModel::Obj(seq![
                ("finish_reason"@, JsonModel::Str(finish)),
                ("index"@, num(0)),
                ("message"@, message),
            ])])),
            ("created"@, num(created)),
            ("id"@, JsonModel::Str(id)),
            ("model"@, JsonModel::Str(alias)),
            ("object"@, JsonModel::Str("chat.completion"@)),
            ("usage"@, JsonModel::Obj(seq![
                ("completion_tokens"@, num(m.output)),
                ("prompt_tokens"@, num(m.input)),
                ("total_tokens"@, num((m.input + m.output) as u64)),
            ])),
        ],
    )
}

/// The gathering state: the group alias the response is labelled with,
/// what has been gathered, and received text not yet ended by a newline.
pub struct CodexAggregate {
    pub group_alias: String,
    pub content: Vec<char>,
    pub tool_calls: Vec<JsonValue>,
    pub finish_reason: String,
    pub input_tokens: u64,
    pub output_tokens: u64,
    pub buffer: Vec<char>,
}

impl View for CodexAggregate {
    type V = AggView;

    open spec fn view(&self) -> AggView {
        AggView {
            content: self.content@,
            calls: model_items(self.tool_calls@),
            finish: self.finish_reason@,
            input: self.input_tokens,
            output: self.output_tokens,
        }
    }
}

fn obj3(k1: &str, v1: JsonValue, k2: &str, v2: JsonValue, k3: &str, v3: JsonValue) -> (r: JsonValue)
    ensures
        model_of(r) == JsonModel::Obj(seq![(k1@, model_of(v1)), (k2@, model_of(v2)), (k3@, model_of(v3))]),
{
    let ghost m1 = model_of(v1);
    let ghost m2 = model_of(v2);
    let ghost m3 = model_of(v3);
    let mut m: Vec<(String, JsonValue)> = Vec::new();
    m.push((String::from_str(k1), v1));
    m.push((String::from_str(k2), v2));
    m.push((String::from_str(k3), v3));
    proof {
        lemma_model_members(m@);
        assert(model_members(m@) =~= seq![(k1@, m1), (k2@, m2), (k3@, m3)]);
    }
    JsonValue::Object(m)
}

fn obj2(k1: &str, v1: JsonValue, k2: &str, v2: JsonValue) -> (r: JsonValue)
    ensures
        model_of(r) == JsonModel::Obj(seq![(k1@, model_of(v1)), (k2@, model_of(v2))]),
{
    crate::json_model::jobj2(k1, v1, k2, v2)
}

fn call_of(item: &JsonValue) -> (r: JsonValue)
    ensures
        model_of(r) == call_model(*item),
{
    let args = str_or(get(item, "arguments"), "{}");
    let name = str_or(get(item, "name"), "");
    let id = str_or(or_else_ref(get(item, "call_id"), get(item, "id")), "");
    proof {
        reveal_strlit("");
        assert(args@ == text_or(get_member(*item, "arguments"@), "{}"@));
        assert(name@ == text_or(get_member(*item, "name"@), Seq::empty()));
        assert(id@ == text_or(or_else_value(get_member(*item, "call_id"@), get_member(*item, "id"@)), Seq::empty()));
    }
    let f = obj2("arguments", jstr(args), "name", jstr(name));
    obj3("function", f, "id", jstr(id), "type", jstr("function"))
}

proof fn lemma_items_push(s: Seq<JsonValue>, x: JsonValue)
    ensures
        model_items(s.push(x)) == model_items(s).push(model_of(x)),
{
    assert(s.push(x).subrange(0, s.len() as int) =~= s);
}

impl CodexAggregate {
    /// Nothing gathered yet for the group alias: no text, no calls, finish
    /// reason `stop`, zero counts.
    pub fn new(group_alias: String) -> (r: Self)
        ensures
            r.group_alias@ == group_alias@,
            r@ == (AggView { content: Seq::empty(), calls: Seq::empty(), finish: "stop"@, input: 0, output: 0 }),
            r.buffer@ == Seq::<char>::empty(),
    {
        let r = CodexAggregate {
            group_alias,
            content: Vec::new(),
            tool_calls: Vec::new(),
            finish_reason: String::from_str("stop"),
            input_tokens: 0,
            output_tokens: 0,
            buffer: Vec::new(),
        };
        assert(model_items(r.tool_calls@) =~= Seq::<JsonModel>::empty());
        r
    }

    /// Handles one event; `false` when it is a failure.
    pub fn handle_event(&mut self, ev: &JsonValue) -> (r: bool)
        ensures
            final(self).group_alias@ == old(self).group_alias@,
            final(self).buffer@ == old(self).buffer@,
            match agg_event(old(self)@, *ev) {
                Some(m) => r && final(self)@ == m,
                None => !r,
            },
    {
        let t = str_or(get(ev, "type"), "");
        proof {
            reveal_strlit("");
            assert(t@ == text_or(get_member(*ev, "type"@), Seq::empty()));
        }
        if str_eq(t, "response.failed") || str_eq(t, "error") {
            return false;
        }
        if str_eq(t, "response.incomplete") {
            self.finish_reason = String::from_str(finish_of(ev));
        } else if str_eq(t, "response.output_item.done") {
            match get(ev, "item") {
                Some(item) => {
                    let is_call = match as_str(get(item, "type")) {
                        Some(ty) => str_eq(ty, "function_call"),
                        None => false,
                    };
                    if is_call {
                        let c = call_of(item);
                        proof {
                            lemma_items_push(self.tool_calls@, c);
                        }
                        self.tool_calls.push(c);
                    }
                },
                None => {},
            }
        }
        match as_str(get(ev, "delta")) {
            Some(d) => append_str(&mut self.content, d),
            None => {},
        }
        match or_else_ref(member_ref(get(ev, "response"), "usage"), get(ev, "usage")) {
            Some(u) => {
                match as_u64(get(u, "input_tokens")) {
                    Some(n) => self.input_tokens = n,
                    None => {},
                }
                match as_u64(get(u, "output_tokens")) {
                    Some(n) => self.output_tokens = n,
                    None => {},
                }
            },
            None => {},
        }
        true
    }

    /// Handles one data payload; see [`agg_data`].
    pub fn handle_data(&mut self, data: &str) -> (r: Result<(), String>)
        ensures
            final(self).group_alias@ == old(self).group_alias@,
            final(self).buffer@ == old(self).buffer@,
            match agg_data(old(self)@, data@) {
                Some(m) => r is Ok && final(self)@ == m,
                None => r matches Err(e) && e@ == failed_message(),
            },
    {
        proof {
            reveal_strlit("[DONE]");
        }
        if data.unicode_len() == 0 || str_eq(data, "[DONE]") {
            return Ok(());
        }
        match parse_json(data) {
            Some(ev) => {
                if self.handle_event(&ev) {
                    Ok(())
                } else {
                    Err(String::from_str("codex upstream response failed"))
                }
            },
            None => Ok(()),
        }
    }

    fn handle_line(&mut self, line: &Vec<char>) -> (r: Result<(), String>)
        ensures
            final(self).group_alias@ == old(self).group_alias@,
            final(self).buffer@ == old(self).buffer@,
            match agg_line(old(self)@, line@) {
                Some(m) => r is Ok && final(self)@ == m,
                None => r matches Err(e) && e@ == failed_message(),
            },
    {
        let mut end: usize = line.len();
        assert(line@.take(end as int) =~= line@);
        while end > 0 && (line[end - 1] == '\r' || line[end - 1] == '\n')
            invariant
                end <= line@.len(),
                trim_line_end(line@) == trim_line_end(line@.take(end as int)),
            decreases end,
        {
            assert(line@.take(end as int).drop_last() =~= line@.take(end - 1));
            end = end - 1;
        }
        let trimmed = chars_slice(line, 0, end);
        assert(trimmed@ =~= line@.take(end as int));
        assert(trim_line_end(trimmed@) == trimmed@);
        let p6 = chars_of("data: ");
        let p5 = chars_of("data:");
        proof {
            reveal_strlit("data: ");
            reveal_strlit("data:");
        }
        let start: usize = if chars_starts_with(&trimmed, &p6) {
            6
        } else if chars_starts_with(&trimmed, &p5) {
            5
        } else {
            return Ok(());
        };
        let payload = chars_slice(&trimmed, start, trimmed.len());
        assert(payload@ =~= trimmed@.skip(start as int));
        let data = string_from_chars(&payload);
        self.handle_data(data.as_str())
    }

    /// Takes in bytes of the stream: they are decoded (lossily) and joined
    /// to the kept text, and its complete lines are handled; see
    /// [`agg_lines`].
    pub fn on_chunk(&mut self, chunk: &[u8]) -> (r: Result<(), String>)
        ensures
            final(self).group_alias@ == old(self).group_alias@,
            match agg_lines(old(self)@, old(self).buffer@ + utf8_lossy(chunk@)) {
                (Some(m), rest) => r is Ok && final(self)@ == m && final(self).buffer@ == rest,
                (None, _) => r matches Err(e) && e@ == failed_message(),
            },
    {
        let text = decode_lossy(chunk);
        let cs = chars_of(text.as_str());
        let ghost all = old(self).buffer@ + cs@;
        assert(all == old(self).buffer@ + utf8_lossy(chunk@));
        let mut k: usize = 0;
        while k < cs.len()
            invariant
                k <= cs@.len(),
                self.buffer@ == old(self).buffer@ + cs@.take(k as int),
                self.group_alias@ == old(self).group_alias@,
                self@ == old(self)@,
            decreases cs.len() - k,
        {
            self.buffer.push(cs[k]);
            k = k + 1;
            assert(self.buffer@ =~= old(self).buffer@ + cs@.take(k as int));
        }
        assert(cs@.take(k as int) =~= cs@);
        loop
            invariant
                self.group_alias@ == old(self).group_alias@,
                all == old(self).buffer@ + utf8_lossy(chunk@),
                agg_lines(old(self)@, all) == agg_lines(self@, self.buffer@),
            decreases self.buffer@.len(),
        {
            let mut j: usize = 0;
            while j < self.buffer.len() && self.buffer[j] != '\n'
                invariant
                    j <= self.buffer@.len(),
                    forall|q: int| 0 <= q < j ==> self.buffer@[q] != '\n',
                decreases self.buffer.len() - j,
            {
                j = j + 1;
            }
            proof {
                lemma_nl_pos_is(self.buffer@, j as int);
            }
            if j == self.buffer.len() {
                assert(agg_lines(self@, self.buffer@) == (Some(self@), self.buffer@));
                return Ok(());
            }
            let ghost m0 = self@;
            let ghost b0 = self.buffer@;
            let line = chars_slice(&self.buffer, 0, j + 1);
            let rest = chars_slice(&self.buffer, j + 1, self.buffer.len());
            assert(line@ =~= b0.take(j + 1));
            assert(rest@ =~= b0.skip(j + 1));
            assert(agg_lines(m0, b0) == match agg_line(m0, b0.take(j + 1)) {
                Some(m2) => agg_lines(m2, b0.skip(j + 1)),
                None => (None, b0.skip(j + 1)),
            });
            self.buffer = rest;
            match self.handle_line(&line) {
                Ok(()) => {},
                Err(e) => {
                    assert(agg_line(m0, b0.take(j + 1)) is None);
                    return Err(e);
                },
            }
        }
    }

    /// The stream has ended: kept text is handled as a last line; see
    /// [`agg_end`].
    pub fn on_end(&mut self) -> (r: Result<(), String>)
        ensures
            final(self).group_alias@ == old(self).group_alias@,
            match agg_end(old(self)@, old(self).buffer@) {
                Some(m) => r is Ok && final(self)@ == m,
                None => r matches Err(e) && e@ == failed_message(),
            },
    {
        if self.buffer.len() > 0 {
            let line = chars_slice(&self.buffer, 0, self.buffer.len());
            assert(line@ =~= self.buffer@);
            self.handle_line(&line)
        } else {
            Ok(())
        }
    }

    /// The chat completion for what was gathered, with the given id and
    /// creation time; see [`response_model`].
    pub fn response_with(&self, id: &str, created: u64) -> (r: JsonValue)
        requires
            self.input_tokens + self.output_tokens <= u64::MAX,
        ensures
            model_of(r) == response_model(id@, created, self.group_alias@, self@),
    {
        let ghost calls = model_items(self.tool_calls@);
        let content = string_from_chars(&self.content);
        let has_calls = self.tool_calls.len() > 0;
        proof {
            lemma_model_items(self.tool_calls@);
        }
        let message = if has_calls {
            let mut items: Vec<JsonValue> = Vec::new();
            let mut i: usize = 0;
            while i < self.tool_calls.len()
                invariant
                    i <= self.tool_calls@.len(),
                    model_items(items@) == model_items(self.tool_calls@.take(i as int)),
                decreases self.tool_calls.len() - i,
            {
                let c = copy_value(&self.tool_calls[i]);
                proof {
                    lemma_items_push(items@, c);
                    assert(self.tool_calls@.take(i + 1) =~= self.tool_calls@.take(i as int).push(self.tool_calls@[i as int]));
                    lemma_items_push(self.tool_calls@.take(i as int), self.tool_calls@[i as int]);
                }
                items.push(c);
                i = i + 1;
            }
            assert(self.tool_calls@.take(i as int) =~= self.tool_calls@);
            obj3("content", JsonValue::Str(content), "role", jstr("assistant"), "tool_calls", JsonValue::Array(items))
        } else {
            obj2("content", JsonValue::Str(content), "role", jstr("assistant"))
        };
        let finish = if has_calls {
            jstr("tool_calls")
        } else {
            JsonValue::Str(self.finish_reason.clone())
        };
        let choice = obj3("finish_reason", finish, "index", jnum(0), "message", message);
        let ghost cm = model_of(choice);
        let mut choices: Vec<JsonValue> = Vec::new();
        choices.push(choice);
        proof {
            lemma_model_items(choices@);
            assert(model_items(choices@) =~= seq![cm]);
        }
        let usage = obj3(
            "completion_tokens",
            jnum(self.output_tokens),
            "prompt_tokens",
            jnum(self.input_tokens),
            "total_tokens",
            jnum(self.input_tokens + self.output_tokens),
        );
        let v1 = JsonValue::Array(choices);
        let v2 = jnum(created);
        let v3 = jstr(id);
        let v4 = JsonValue::Str(self.group_alias.clone());
        let v5 = jstr("chat.completion");
        let ghost ms = seq![
            ("choices"@, model_of(v1)),
            ("created"@, model_of(v2)),
            ("id"@, model_of(v3)),
            ("model"@, model_of(v4)),
            ("object"@, model_of(v5)),
            ("usage"@, model_of(usage)),
        ];
        let mut m: Vec<(String, JsonValue)> = Vec::new();
        m.push((String::from_str("choices"), v1));
        m.push((String::from_str("created"), v2));
        m.push((String::from_str("id"), v3));
        m.push((String::from_str("model"), v4));
        m.push((String::from_str("object"), v5));
        m.push((String::from_str("usage"), usage));
        proof {
            lemma_model_members(m@);
            assert(model_members(m@) =~= ms);
        }
        JsonValue::Object(m)
    }

    /// The chat completion for what was gathered, with a fresh `chatcmpl-`
    /// id (a random UUID's 32 hex digits) and the current time in seconds.
    pub fn response(&self) -> (r: JsonValue)
        requires
            self.input_tokens + self.output_tokens <= u64::MAX,
        ensures
            exists|u: Seq<char>, created: u64|
                u.len() == 32 && (forall|i: int| 0 <= i < 32 ==> is_lower_hex(#[trigger] u[i]))
                && model_of(r) == #[trigger] response_model("chatcmpl-"@ + u, created, self.group_alias@, self@),
    {
        let u = uuid_v4_simple();
        let id = cat("chatcmpl-", u.as_str());
        let created = system_time_secs();
        let r = self.response_with(id.as_str(), created);
        proof {
            reveal_strlit("chatcmpl-");
            assert(id@ =~= "chatcmpl-"@ + u@);
        }
        r
    }
}


/// The call carries `id` as its id: its one `id` member holds that text.
pub open spec fn call_has_id(c: JsonModel, id: Seq<char>) -> bool {
    &&& c matches JsonModel::Obj(fs)
    &&& exists|j: int| 0 <= j < c->Obj_0.len() && c->Obj_0[j] == ("id"@, JsonModel::Str(id))
    &&& forall|j: int| 0 <= j < c->Obj_0.len() && (#[trigger] c->Obj_0[j]).0 == "id"@ ==> c->Obj_0[j].1 == JsonModel::Str(id)
}

/// A finished function-call item adds one tool call, whose id is the item's
/// `call_id` (the id the client echoes back as `tool_call_id`); the item's
/// own `id` stands in only when it has no `call_id`.
pub proof fn law_tool_call_id_is_the_call_id(m: AggView, ev: JsonValue, item: JsonValue)
    requires
        str_of(get_member(ev, "type"@)) == Some("response.output_item.done"@),
        get_member(ev, "item"@) == Some(item),
        str_of(get_member(item, "type"@)) == Some("function_call"@),
    ensures
        agg_event(m, ev) is Some,
        agg_event(m, ev).unwrap().calls.len() == m.calls.len() + 1,
        agg_event(m, ev).unwrap().calls.subrange(0, m.calls.len() as int) == m.calls,
        str_of(get_member(item, "call_id"@)) matches Some(c) ==> call_has_id(agg_event(m, ev).unwrap().calls.last(), c),
        get_member(item, "call_id"@) is None ==> (str_of(get_member(item, "id"@)) matches Some(d) ==> call_has_id(
            agg_event(m, ev).unwrap().calls.last(),
            d,
        )),
{
    reveal_strlit("response.output_item.done");
    reveal_strlit("response.failed");
    reveal_strlit("response.incomplete");
    reveal_strlit("error");
    reveal_strlit("function");
    reveal_strlit("id");
    reveal_strlit("type");
    assert("response.output_item.done"@ != "response.failed"@) by {
        assert("response.output_item.done"@[9] != "response.failed"@[9]);
    }
    assert("response.output_item.done"@ != "response.incomplete"@) by {
        assert("response.output_item.done"@[9] != "response.incomplete"@[9]);
    }
    assert("response.output_item.done"@ != "error"@) by {
        assert("response.output_item.done"@.len() != "error"@.len());
    }
    assert("function"@ != "id"@) by {
        assert("function"@.len() != "id"@.len());
    }
    assert("type"@ != "id"@) by {
        assert("type"@[0] != "id"@[0]);
    }
    let r = agg_event(m, ev).unwrap();
    let c = call_model(item);
    let m1 = AggView { calls: m.calls.push(c), ..m };
    assert(r.calls == m1.calls);
    assert(r.calls.subrange(0, m.calls.len() as int) =~= m.calls);
    let fs = c->Obj_0;
    assert(fs[1] == ("id"@, JsonModel::Str(text_or(or_else_value(get_member(item, "call_id"@), get_member(item, "id"@)), Seq::empty()))));
    assert forall|j: int| 0 <= j < fs.len() && (#[trigger] fs[j]).0 == "id"@ implies j == 1 by {
        if j == 0 {
            assert(fs[0].0 == "function"@);
        } else if j == 2 {
            assert(fs[2].0 == "type"@);
        }
    }
}

} // verus!
