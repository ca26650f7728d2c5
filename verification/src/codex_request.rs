//! Translation of an OpenAI chat-completion request into a Codex Responses
//! request, written as the compact JSON text `serde_json` gives (object keys
//! in sorted order).

use vstd::prelude::*;
use crate::json::{JsonValue, get, get_member, str_of, bool_of, json_text, quoted, as_str, as_bool, to_json_string};
use crate::jsonw::{
    strs_view, kv, obj, arr, opt_kv, bool_text, obj_of, arr_of, kv_of, kv_str, quote, push_str_item,
    push_opt_kv, push_joined,
};
use crate::text::{chars_of, append_str, string_from_chars, trim_chars, trim_ws, str_eq};
use crate::translator::{join, body_messages};
use crate::upstream::{ascii_lowercase, occurs};
use crate::codex::member_opt;
use crate::codex_stream::or_else_value;

verus! {

// ---------------------------------------------------------------------------
// Model families
// ---------------------------------------------------------------------------

/// GPT-5 models other than the chat and pro variants get reasoning
/// defaults.
pub open spec fn gpt5_defaults(model: Seq<char>) -> bool {
    let id = ascii_lowercase(model);
    occurs(id, "gpt-5"@) && !occurs(id, "gpt-5-chat"@) && !occurs(id, "gpt-5-pro"@)
}

/// Dotted GPT-5 versions other than Codex and chat models get low text
/// verbosity.
pub open spec fn gpt5_text_verbosity(model: Seq<char>) -> bool {
    let id = ascii_lowercase(model);
    occurs(id, "gpt-5."@) && !occurs(id, "codex"@) && !occurs(id, "-chat"@)
}

/// Dotted GPT-5 versions take no sampling settings.
pub open spec fn codex_sampling(model: Seq<char>) -> bool {
    !occurs(ascii_lowercase(model), "gpt-5."@)
}

fn lowered(s: &str) -> (r: Vec<char>)
    ensures
        r@ == ascii_lowercase(s@),
{
    let cs = chars_of(s);
    let mut out: Vec<char> = Vec::new();
    let mut i: usize = 0;
    while i < cs.len()
        invariant
            i <= cs@.len(),
            cs@ == s@,
            out@ == ascii_lowercase(cs@.take(i as int)),
        decreases cs.len() - i,
    {
        let c = cs[i];
        let l = if 'A' <= c && c <= 'Z' {
            ((c as u32 + 32) as u8) as char
        } else {
            c
        };
        out.push(l);
        i = i + 1;
        assert(out@ =~= ascii_lowercase(cs@.take(i as int)));
    }
    assert(cs@.take(i as int) =~= cs@);
    out
}

fn occurs_in(s: &Vec<char>, p: &str) -> (r: bool)
    ensures
        r == occurs(s@, p@),
{
    crate::text::find_chars(s, &chars_of(p)).is_some()
}

/// Whether the model gets GPT-5 reasoning defaults.
pub fn uses_openai_gpt5_defaults(model: &str) -> (r: bool)
    ensures
        r == gpt5_defaults(model@),
{
    let id = lowered(model);
    occurs_in(&id, "gpt-5") && !occurs_in(&id, "gpt-5-chat") && !occurs_in(&id, "gpt-5-pro")
}

/// Whether the model gets low text verbosity.
pub fn uses_openai_gpt5_text_verbosity(model: &str) -> (r: bool)
    ensures
        r == gpt5_text_verbosity(model@),
{
    let id = lowered(model);
    occurs_in(&id, "gpt-5.") && !occurs_in(&id, "codex") && !occurs_in(&id, "-chat")
}

/// Whether the model takes sampling settings.
pub fn supports_codex_sampling_params(model: &str) -> (r: bool)
    ensures
        r == codex_sampling(model@),
{
    let id = lowered(model);
    !occurs_in(&id, "gpt-5.")
}

// ---------------------------------------------------------------------------
// Message content
// ---------------------------------------------------------------------------

/// The text of a string, or nothing.
pub open spec fn str_or_empty(v: Option<JsonValue>) -> Seq<char> {
    match str_of(v) {
        Some(s) => s,
        None => Seq::empty(),
    }
}

/// The `text` strings of content parts, run together.
pub open spec fn concat_texts(parts: Seq<JsonValue>) -> Seq<char>
    decreases parts.len(),
{
    if parts.len() == 0 {
        Seq::empty()
    } else {
        concat_texts(parts.drop_last()) + str_or_empty(get_member(parts.last(), "text"@))
    }
}

/// The text of a message: string content as is, array content as its parts'
/// texts run together, anything else as nothing.
pub open spec fn text_content(m: JsonValue) -> Seq<char> {
    match get_member(m, "content"@) {
        Some(JsonValue::Str(s)) => s@,
        Some(JsonValue::Array(a)) => concat_texts(a@),
        _ => Seq::empty(),
    }
}

/// The output of a tool message: string content as is, other content as its
/// JSON text, no content as nothing.
pub open spec fn tool_content(m: JsonValue) -> Seq<char> {
    match get_member(m, "content"@) {
        Some(JsonValue::Str(s)) => s@,
        Some(v) => json_text(v),
        None => Seq::empty(),
    }
}

/// A value as a string: a string as is, anything else as its JSON text.
pub open spec fn value_as_string(v: JsonValue) -> Seq<char> {
    match v {
        JsonValue::Str(s) => s@,
        _ => json_text(v),
    }
}

/// A text content part of the given type.
pub open spec fn text_part(t: Seq<char>, text: Seq<char>) -> Seq<char> {
    obj(seq![kv("text"@, quoted(text)), kv("type"@, quoted(t))])
}

/// An image content part.
pub open spec fn image_part(url: Seq<char>) -> Seq<char> {
    obj(seq![kv("image_url"@, quoted(url)), kv("type"@, quoted("input_image"@))])
}

/// The URL of an image part: `image_url` as a string, or its `url`.
pub open spec fn image_url_of(part: JsonValue) -> Option<Seq<char>> {
    match get_member(part, "image_url"@) {
        Some(JsonValue::Str(s)) => Some(s@),
        Some(img) => str_of(get_member(img, "url"@)),
        None => None,
    }
}

/// A user content part as Codex input: text parts with string text and
/// image parts with a URL; other parts are dropped.
pub open spec fn lowered_part(part: JsonValue) -> Option<Seq<char>> {
    match str_of(get_member(part, "type"@)) {
        Some(t) => if t == "text"@ || t == "input_text"@ {
            match str_of(get_member(part, "text"@)) {
                Some(x) => Some(text_part("input_text"@, x)),
                None => None,
            }
        } else if t == "image_url"@ || t == "input_image"@ {
            match image_url_of(part) {
                Some(u) => Some(image_part(u)),
                None => None,
            }
        } else {
            None
        },
        None => None,
    }
}

/// The kept parts, in order.
pub open spec fn lowered_parts(parts: Seq<JsonValue>) -> Seq<Seq<char>>
    decreases parts.len(),
{
    if parts.len() == 0 {
        Seq::empty()
    } else {
        lowered_parts(parts.drop_last()) + match lowered_part(parts.last()) {
            Some(p) => seq![p],
            None => Seq::empty(),
        }
    }
}

/// The content of a user message as Codex input parts: one text part for
/// string or missing content, the kept parts of array content, and
/// otherwise one text part with the message's text.
pub open spec fn user_content(m: JsonValue) -> Seq<Seq<char>> {
    match get_member(m, "content"@) {
        None => seq![text_part("input_text"@, Seq::empty())],
        Some(JsonValue::Str(s)) => seq![text_part("input_text"@, s@)],
        Some(JsonValue::Array(a)) => if lowered_parts(a@).len() > 0 {
            lowered_parts(a@)
        } else {
            seq![text_part("input_text"@, text_content(m))]
        },
        Some(_) => seq![text_part("input_text"@, text_content(m))],
    }
}

/// A tool call of an assistant message as a Codex function call.
pub open spec fn tool_call_item(tc: JsonValue) -> Seq<char> {
    let func = get_member(tc, "function"@);
    let arguments = match member_opt(func, "arguments"@) {
        Some(v) => value_as_string(v),
        None => "{}"@,
    };
    obj(
        seq![
            kv("arguments"@, quoted(arguments)),
            kv("call_id"@, quoted(str_or_empty(get_member(tc, "id"@)))),
            kv("name"@, quoted(str_or_empty(member_opt(func, "name"@)))),
            kv("type"@, quoted("function_call"@)),
        ],
    )
}

pub open spec fn tool_call_items(tcs: Seq<JsonValue>) -> Seq<Seq<char>>
    decreases tcs.len(),
{
    if tcs.len() == 0 {
        Seq::empty()
    } else {
        tool_call_items(tcs.drop_last()).push(tool_call_item(tcs.last()))
    }
}

/// The role of a message, or nothing.
pub open spec fn role_of(m: JsonValue) -> Seq<char> {
    str_or_empty(get_member(m, "role"@))
}

/// The Codex input items of one message: a user message with its content;
/// an assistant message with its text (when any) and its tool calls; a tool
/// message as a function call output; others give none.
pub open spec fn message_items(m: JsonValue) -> Seq<Seq<char>> {
    let role = role_of(m);
    if role == "user"@ {
        seq![obj(seq![kv("content"@, arr(user_content(m))), kv("role"@, quoted("user"@))])]
    } else if role == "assistant"@ {
        let c = text_content(m);
        (if c.len() > 0 {
            seq![obj(seq![kv("content"@, arr(seq![text_part("output_text"@, c)])), kv("role"@, quoted("assistant"@))])]
        } else {
            Seq::empty()
        }) + match get_member(m, "tool_calls"@) {
            Some(JsonValue::Array(tcs)) => tool_call_items(tcs@),
            _ => Seq::empty(),
        }
    } else if role == "tool"@ {
        seq![
            obj(
                seq![
                    kv("call_id"@, quoted(str_or_empty(get_member(m, "tool_call_id"@)))),
                    kv("output"@, quoted(tool_content(m))),
                    kv("type"@, quoted("function_call_output"@)),
                ],
            ),
        ]
    } else {
        Seq::empty()
    }
}

/// The instruction a system or developer message gives, when its text is
/// not empty.
pub open spec fn message_instruction(m: JsonValue) -> Seq<Seq<char>> {
    let role = role_of(m);
    if (role == "system"@ || role == "developer"@) && text_content(m).len() > 0 {
        seq![text_content(m)]
    } else {
        Seq::empty()
    }
}

pub open spec fn all_items(ms: Seq<JsonValue>) -> Seq<Seq<char>>
    decreases ms.len(),
{
    if ms.len() == 0 {
        Seq::empty()
    } else {
        all_items(ms.drop_last()) + message_items(ms.last())
    }
}

pub open spec fn all_instructions(ms: Seq<JsonValue>) -> Seq<Seq<char>>
    decreases ms.len(),
{
    if ms.len() == 0 {
        Seq::empty()
    } else {
        all_instructions(ms.drop_last()) + message_instruction(ms.last())
    }
}


// ---------------------------------------------------------------------------
// Message content, executable
// ---------------------------------------------------------------------------

fn str_member<'a>(v: Option<&'a JsonValue>, key: &str) -> (r: &'a str)
    ensures
        r@ == str_or_empty(member_opt(crate::json::deref_opt(v), key@)),
{
    proof {
        reveal_strlit("");
    }
    match v {
        Some(x) => match as_str(get(x, key)) {
            Some(s) => s,
            None => "",
        },
        None => "",
    }
}

fn concat_texts_exec(parts: &Vec<JsonValue>) -> (r: Vec<char>)
    ensures
        r@ == concat_texts(parts@),
{
    let mut out: Vec<char> = Vec::new();
    let mut i: usize = 0;
    while i < parts.len()
        invariant
            i <= parts@.len(),
            out@ == concat_texts(parts@.take(i as int)),
        decreases parts.len() - i,
    {
        let t = str_member(Some(&parts[i]), "text");
        append_str(&mut out, t);
        proof {
            assert(parts@.take(i + 1).drop_last() =~= parts@.take(i as int));
        }
        i = i + 1;
    }
    assert(parts@.take(i as int) =~= parts@);
    out
}

fn text_content_exec(m: &JsonValue) -> (r: String)
    ensures
        r@ == text_content(*m),
{
    match get(m, "content") {
        Some(JsonValue::Str(s)) => s.clone(),
        Some(JsonValue::Array(a)) => string_from_chars(&concat_texts_exec(a)),
        _ => String::new(),
    }
}

fn tool_content_exec(m: &JsonValue) -> (r: String)
    ensures
        r@ == tool_content(*m),
{
    match get(m, "content") {
        Some(JsonValue::Str(s)) => s.clone(),
        Some(v) => to_json_string(v),
        None => String::new(),
    }
}

fn value_as_string_exec(v: &JsonValue) -> (r: String)
    ensures
        r@ == value_as_string(*v),
{
    match v {
        JsonValue::Str(s) => s.clone(),
        _ => to_json_string(v),
    }
}

fn two_members(a: String, b: String) -> (r: String)
    ensures
        r@ == obj(seq![a@, b@]),
{
    let ghost av = a@;
    let ghost bv = b@;
    let mut v: Vec<String> = Vec::new();
    push_str_item(&mut v, a);
    push_str_item(&mut v, b);
    assert(strs_view(v@) =~= seq![av, bv]);
    obj_of(&v)
}

fn text_part_exec(t: &str, text: &str) -> (r: String)
    ensures
        r@ == text_part(t@, text@),
{
    two_members(kv_str("text", text), kv_str("type", t))
}

fn image_part_exec(url: &str) -> (r: String)
    ensures
        r@ == image_part(url@),
{
    two_members(kv_str("image_url", url), kv_str("type", "input_image"))
}

fn image_url_exec<'a>(part: &'a JsonValue) -> (r: Option<&'a str>)
    ensures
        match r {
            Some(u) => image_url_of(*part) == Some(u@),
            None => image_url_of(*part) is None,
        },
{
    match get(part, "image_url") {
        Some(JsonValue::Str(s)) => Some(s.as_str()),
        Some(img) => as_str(get(img, "url")),
        None => None,
    }
}

fn lowered_part_exec(part: &JsonValue) -> (r: Option<String>)
    ensures
        match r {
            Some(x) => lowered_part(*part) == Some(x@),
            None => lowered_part(*part) is None,
        },
{
    match as_str(get(part, "type")) {
        Some(t) => {
            if str_eq(t, "text") || str_eq(t, "input_text") {
                match as_str(get(part, "text")) {
                    Some(x) => Some(text_part_exec("input_text", x)),
                    None => None,
                }
            } else if str_eq(t, "image_url") || str_eq(t, "input_image") {
                match image_url_exec(part) {
                    Some(u) => Some(image_part_exec(u)),
                    None => None,
                }
            } else {
                None
            }
        },
        None => None,
    }
}

fn lowered_parts_exec(parts: &Vec<JsonValue>) -> (r: Vec<String>)
    ensures
        strs_view(r@) == lowered_parts(parts@),
{
    let mut out: Vec<String> = Vec::new();
    let mut i: usize = 0;
    while i < parts.len()
        invariant
            i <= parts@.len(),
            strs_view(out@) == lowered_parts(parts@.take(i as int)),
        decreases parts.len() - i,
    {
        let ghost before = strs_view(out@);
        match lowered_part_exec(&parts[i]) {
            Some(x) => {
                push_str_item(&mut out, x);
            },
            None => {},
        }
        proof {
            assert(parts@.take(i + 1).drop_last() =~= parts@.take(i as int));
            assert(parts@.take(i + 1).last() == parts@[i as int]);
            match lowered_part(parts@[i as int]) {
                Some(p) => assert(strs_view(out@) =~= before + seq![p]),
                None => assert(strs_view(out@) =~= before + Seq::<Seq<char>>::empty()),
            }
        }
        i = i + 1;
    }
    assert(parts@.take(i as int) =~= parts@);
    out
}

fn single(x: String) -> (r: Vec<String>)
    ensures
        strs_view(r@) == seq![x@],
{
    let mut v: Vec<String> = Vec::new();
    push_str_item(&mut v, x);
    assert(strs_view(v@) =~= seq![x@]);
    v
}

fn user_content_exec(m: &JsonValue) -> (r: Vec<String>)
    ensures
        strs_view(r@) == user_content(*m),
{
    proof {
        reveal_strlit("");
    }
    match get(m, "content") {
        None => {
            assert(""@ =~= Seq::<char>::empty());
            single(text_part_exec("input_text", ""))
        },
        Some(JsonValue::Str(s)) => single(text_part_exec("input_text", s.as_str())),
        Some(JsonValue::Array(a)) => {
            let parts = lowered_parts_exec(a);
            if parts.len() > 0 {
                parts
            } else {
                let t = text_content_exec(m);
                single(text_part_exec("input_text", t.as_str()))
            }
        },
        Some(_) => {
            let t = text_content_exec(m);
            single(text_part_exec("input_text", t.as_str()))
        },
    }
}

fn tool_call_item_exec(tc: &JsonValue) -> (r: String)
    ensures
        r@ == tool_call_item(*tc),
{
    let func = get(tc, "function");
    let arguments = match crate::codex_stream::member_ref(func, "arguments") {
        Some(v) => value_as_string_exec(v),
        None => String::from_str("{}"),
    };
    let mut v: Vec<String> = Vec::new();
    push_str_item(&mut v, kv_str("arguments", arguments.as_str()));
    push_str_item(&mut v, kv_str("call_id", str_member(Some(tc), "id")));
    push_str_item(&mut v, kv_str("name", str_member(func, "name")));
    push_str_item(&mut v, kv_str("type", "function_call"));
    assert(strs_view(v@) =~= seq![
        kv("arguments"@, quoted(arguments@)),
        kv("call_id"@, quoted(str_or_empty(get_member(*tc, "id"@)))),
        kv("name"@, quoted(str_or_empty(member_opt(crate::json::deref_opt(func), "name"@)))),
        kv("type"@, quoted("function_call"@)),
    ]);
    obj_of(&v)
}

fn push_tool_call_items(items: &mut Vec<String>, tcs: &Vec<JsonValue>)
    ensures
        strs_view(final(items)@) == strs_view(old(items)@) + tool_call_items(tcs@),
{
    let mut i: usize = 0;
    while i < tcs.len()
        invariant
            i <= tcs@.len(),
            strs_view(items@) == strs_view(old(items)@) + tool_call_items(tcs@.take(i as int)),
        decreases tcs.len() - i,
    {
        let item = tool_call_item_exec(&tcs[i]);
        push_str_item(items, item);
        proof {
            assert(tcs@.take(i + 1).drop_last() =~= tcs@.take(i as int));
            assert(tcs@.take(i + 1).last() == tcs@[i as int]);
        }
        i = i + 1;
    }
    assert(tcs@.take(i as int) =~= tcs@);
}

fn push_message_items(items: &mut Vec<String>, m: &JsonValue)
    ensures
        strs_view(final(items)@) == strs_view(old(items)@) + message_items(*m),
{
    proof {
        reveal_strlit("");
    }
    let role = str_member(Some(m), "role");
    assert(role@ == role_of(*m));
    if str_eq(role, "user") {
        let content = arr_of(&user_content_exec(m));
        let item = two_members(kv_of("content", content.as_str()), kv_str("role", "user"));
        push_str_item(items, item);
        assert(strs_view(items@) =~= strs_view(old(items)@) + message_items(*m));
    } else if str_eq(role, "assistant") {
        let c = text_content_exec(m);
        let ghost first: Seq<Seq<char>> = if c@.len() > 0 {
            seq![obj(seq![kv("content"@, arr(seq![text_part("output_text"@, c@)])), kv("role"@, quoted("assistant"@))])]
        } else {
            Seq::empty()
        };
        if c.unicode_len() > 0 {
            let content = arr_of(&single(text_part_exec("output_text", c.as_str())));
            let item = two_members(kv_of("content", content.as_str()), kv_str("role", "assistant"));
            push_str_item(items, item);
        }
        assert(strs_view(items@) =~= strs_view(old(items)@) + first);
        let ghost rest: Seq<Seq<char>> = match get_member(*m, "tool_calls"@) {
            Some(JsonValue::Array(tcs)) => tool_call_items(tcs@),
            _ => Seq::empty(),
        };
        match get(m, "tool_calls") {
            Some(JsonValue::Array(tcs)) => {
                push_tool_call_items(items, tcs);
            },
            _ => {},
        }
        assert(strs_view(items@) =~= strs_view(old(items)@) + first + rest);
        assert(message_items(*m) == first + rest);
    } else if str_eq(role, "tool") {
        let mut v: Vec<String> = Vec::new();
        push_str_item(&mut v, kv_str("call_id", str_member(Some(m), "tool_call_id")));
        let out = tool_content_exec(m);
        push_str_item(&mut v, kv_str("output", out.as_str()));
        push_str_item(&mut v, kv_str("type", "function_call_output"));
        assert(strs_view(v@) =~= seq![
            kv("call_id"@, quoted(str_or_empty(get_member(*m, "tool_call_id"@)))),
            kv("output"@, quoted(tool_content(*m))),
            kv("type"@, quoted("function_call_output"@)),
        ]);
        proof {
            reveal_strlit("tool");
            reveal_strlit("user");
            reveal_strlit("assistant");
        }
        let item = obj_of(&v);
        push_str_item(items, item);
        assert(strs_view(items@) =~= strs_view(old(items)@) + message_items(*m));
    } else {
        assert(strs_view(items@) =~= strs_view(old(items)@) + message_items(*m));
    }
}


fn push_message_instruction(parts: &mut Vec<String>, m: &JsonValue)
    ensures
        strs_view(final(parts)@) == strs_view(old(parts)@) + message_instruction(*m),
{
    let role = str_member(Some(m), "role");
    if str_eq(role, "system") || str_eq(role, "developer") {
        let c = text_content_exec(m);
        if c.unicode_len() > 0 {
            push_str_item(parts, c);
            assert(strs_view(parts@) =~= strs_view(old(parts)@) + message_instruction(*m));
            return;
        }
    }
    assert(strs_view(parts@) =~= strs_view(old(parts)@) + message_instruction(*m));
}


// ---------------------------------------------------------------------------
// The request
// ---------------------------------------------------------------------------

/// A chat function tool as a Codex function tool: name (required, not
/// empty), description (default empty), parameters (default an empty object
/// schema) and strictness when given.
pub open spec fn codex_tool(t: JsonValue) -> Option<Seq<char>> {
    if str_of(get_member(t, "type"@)) == Some("function"@) {
        match get_member(t, "function"@) {
            Some(func) => {
                let name = str_or_empty(get_member(func, "name"@));
                if name.len() == 0 {
                    None
                } else {
                    let params = match get_member(func, "parameters"@) {
                        Some(p) => json_text(p),
                        None => "{\"properties\":{},\"type\":\"object\"}"@,
                    };
                    Some(
                        obj(
                            seq![
                                kv("description"@, quoted(str_or_empty(get_member(func, "description"@)))),
                                kv("name"@, quoted(name)),
                                kv("parameters"@, params),
                            ] + opt_kv(
                                "strict"@,
                                match bool_of(get_member(func, "strict"@)) {
                                    Some(b) => Some(bool_text(b)),
                                    None => None,
                                },
                            ) + seq![kv("type"@, quoted("function"@))],
                        ),
                    )
                }
            },
            None => None,
        }
    } else {
        None
    }
}

pub open spec fn codex_tools(ts: Seq<JsonValue>) -> Seq<Seq<char>>
    decreases ts.len(),
{
    if ts.len() == 0 {
        Seq::empty()
    } else {
        codex_tools(ts.drop_last()) + match codex_tool(ts.last()) {
            Some(t) => seq![t],
            None => Seq::empty(),
        }
    }
}

/// The tool choice: a string as is, a function choice by its name.
pub open spec fn tool_choice_text(v: Option<JsonValue>) -> Option<Seq<char>> {
    match v {
        None => None,
        Some(JsonValue::Str(s)) => Some(quoted(s@)),
        Some(x) => if str_of(get_member(x, "type"@)) == Some("function"@) {
            match str_of(or_else_value(member_opt(get_member(x, "function"@), "name"@), get_member(x, "name"@))) {
                Some(n) => Some(obj(seq![kv("name"@, quoted(n)), kv("type"@, quoted("function"@))])),
                None => None,
            }
        } else {
            None
        },
    }
}

/// The reasoning setting: the request's own, else one with its effort
/// (and an automatic summary when asked for or for GPT-5), else the GPT-5
/// default.
pub open spec fn reasoning_text(body: JsonValue, model: Seq<char>) -> Option<Seq<char>> {
    match get_member(body, "reasoning"@) {
        Some(r) => Some(json_text(r)),
        None => match str_of(get_member(body, "reasoning_effort"@)) {
            Some(e) => Some(
                obj(
                    seq![kv("effort"@, quoted(e))] + if str_of(get_member(body, "reasoning_summary"@)) == Some("auto"@)
                        || gpt5_defaults(model) {
                        seq![kv("summary"@, quoted("auto"@))]
                    } else {
                        Seq::empty()
                    },
                ),
            ),
            None => if gpt5_defaults(model) {
                Some(obj(seq![kv("effort"@, quoted("medium"@)), kv("summary"@, quoted("auto"@))]))
            } else {
                None
            },
        },
    }
}

/// What to include: the request's non-empty list (any other value given
/// drops the setting), else the GPT-5 default.
pub open spec fn include_text(body: JsonValue, model: Seq<char>) -> Option<Seq<char>> {
    match get_member(body, "include"@) {
        Some(v) => match v {
            JsonValue::Array(a) => if a@.len() > 0 {
                Some(json_text(v))
            } else {
                None
            },
            _ => None,
        },
        None => if gpt5_defaults(model) {
            Some(arr(seq![quoted("reasoning.encrypted_content"@)]))
        } else {
            None
        },
    }
}

/// The text setting: the request's object, else low verbosity where the
/// model takes it.
pub open spec fn text_setting(body: JsonValue, model: Seq<char>) -> Option<Seq<char>> {
    match get_member(body, "text"@) {
        Some(JsonValue::Object(m)) => Some(json_text(JsonValue::Object(m))),
        _ => if gpt5_defaults(model) && gpt5_text_verbosity(model) {
            Some(obj(seq![kv("verbosity"@, quoted("low"@))]))
        } else {
            None
        },
    }
}

/// A sampling setting passed through where the model takes it.
pub open spec fn sampling_text(body: JsonValue, model: Seq<char>, key: Seq<char>) -> Option<Seq<char>> {
    if codex_sampling(model) {
        match get_member(body, key) {
            Some(v) => Some(json_text(v)),
            None => None,
        }
    } else {
        None
    }
}

/// The instructions: the request's own (when not blank) before those of
/// system and developer messages.
pub open spec fn instruction_parts(body: JsonValue) -> Seq<Seq<char>> {
    let parts = all_instructions(body_messages(body));
    match str_of(get_member(body, "instructions"@)) {
        Some(s) => if trim_ws(s).len() > 0 {
            seq![s] + parts
        } else {
            parts
        },
        None => parts,
    }
}

/// The instructions joined by blank lines, or a default prompt.
pub open spec fn instructions_text(body: JsonValue) -> Seq<char> {
    let p = instruction_parts(body);
    if p.len() == 0 {
        "You are a helpful assistant."@
    } else {
        join(p, "\n\n"@)
    }
}

/// The function tools, when there are any.
pub open spec fn tools_text(body: JsonValue) -> Option<Seq<char>> {
    match get_member(body, "tools"@) {
        Some(JsonValue::Array(ts)) => if codex_tools(ts@).len() > 0 {
            Some(arr(codex_tools(ts@)))
        } else {
            None
        },
        _ => None,
    }
}

/// The members of the Codex request, in key order.
pub open spec fn codex_request_members(body: JsonValue, model: Seq<char>, request_id: Seq<char>) -> Seq<Seq<char>> {
    request_head(body, model, request_id) + request_tail(body, model)
}

/// The members from `include` to `model`.
pub open spec fn request_head(body: JsonValue, model: Seq<char>, request_id: Seq<char>) -> Seq<Seq<char>> {
    opt_kv("include"@, include_text(body, model)) + seq![
        kv("input"@, arr(all_items(body_messages(body)))),
        kv("instructions"@, quoted(instructions_text(body))),
        kv("model"@, quoted(model)),
        kv(
            "prompt_cache_key"@,
            quoted(
                match str_of(get_member(body, "prompt_cache_key"@)) {
                    Some(k) => k,
                    None => request_id,
                },
            ),
        ),
    ]
}

/// The members from `reasoning` on.
pub open spec fn request_tail(body: JsonValue, model: Seq<char>) -> Seq<Seq<char>> {
    tail_settings(body, model) + tail_tools(body, model)
}

/// The members from `reasoning` to `temperature`.
pub open spec fn tail_settings(body: JsonValue, model: Seq<char>) -> Seq<Seq<char>> {
    opt_kv("reasoning"@, reasoning_text(body, model)) + seq![
        kv(
            "store"@,
            bool_text(
                match bool_of(get_member(body, "store"@)) {
                    Some(b) => b,
                    None => false,
                },
            ),
        ),
        kv("stream"@, "true"@),
    ] + opt_kv("temperature"@, sampling_text(body, model, "temperature"@))
}

/// The members from `text` on.
pub open spec fn tail_tools(body: JsonValue, model: Seq<char>) -> Seq<Seq<char>> {
    opt_kv("text"@, text_setting(body, model)) + opt_kv(
        "tool_choice"@,
        tool_choice_text(get_member(body, "tool_choice"@)),
    ) + opt_kv("tools"@, tools_text(body)) + opt_kv("top_p"@, sampling_text(body, model, "top_p"@))
}

/// The Codex request for a chat request, as JSON text.
pub open spec fn codex_request_text(body: JsonValue, model: Seq<char>, request_id: Seq<char>) -> Seq<char> {
    obj(codex_request_members(body, model, request_id))
}

pub open spec fn opt_str_view(v: Option<String>) -> Option<Seq<char>> {
    match v {
        Some(x) => Some(x@),
        None => None,
    }
}

fn codex_tool_exec(t: &JsonValue) -> (r: Option<String>)
    ensures
        opt_str_view(r) == codex_tool(*t),
{
    match as_str(get(t, "type")) {
        Some(ty) => {
            if !str_eq(ty, "function") {
                proof {
                    reveal_strlit("function");
                }
                return None;
            }
        },
        None => {
            return None;
        },
    }
    let func = match get(t, "function") {
        Some(f) => f,
        None => {
            return None;
        },
    };
    let name = str_member(Some(func), "name");
    if name.unicode_len() == 0 {
        return None;
    }
    let params = match get(func, "parameters") {
        Some(p) => to_json_string(p),
        None => String::from_str("{\"properties\":{},\"type\":\"object\"}"),
    };
    let mut v: Vec<String> = Vec::new();
    push_str_item(&mut v, kv_str("description", str_member(Some(func), "description")));
    push_str_item(&mut v, kv_str("name", name));
    push_str_item(&mut v, kv_of("parameters", params.as_str()));
    let strict = match as_bool(get(func, "strict")) {
        Some(b) => Some(if b {
            String::from_str("true")
        } else {
            String::from_str("false")
        }),
        None => None,
    };
    push_opt_kv(&mut v, "strict", strict);
    push_str_item(&mut v, kv_str("type", "function"));
    assert(strs_view(v@) =~= seq![
        kv("description"@, quoted(str_or_empty(get_member(*func, "description"@)))),
        kv("name"@, quoted(name@)),
        kv("parameters"@, params@),
    ] + opt_kv(
        "strict"@,
        match bool_of(get_member(*func, "strict"@)) {
            Some(b) => Some(bool_text(b)),
            None => None,
        },
    ) + seq![kv("type"@, quoted("function"@))]);
    Some(obj_of(&v))
}

fn codex_tools_exec(ts: &Vec<JsonValue>) -> (r: Vec<String>)
    ensures
        strs_view(r@) == codex_tools(ts@),
{
    let mut out: Vec<String> = Vec::new();
    let mut i: usize = 0;
    while i < ts.len()
        invariant
            i <= ts@.len(),
            strs_view(out@) == codex_tools(ts@.take(i as int)),
        decreases ts.len() - i,
    {
        let ghost before = strs_view(out@);
        match codex_tool_exec(&ts[i]) {
            Some(x) => {
                push_str_item(&mut out, x);
            },
            None => {},
        }
        proof {
            assert(ts@.take(i + 1).drop_last() =~= ts@.take(i as int));
            assert(ts@.take(i + 1).last() == ts@[i as int]);
            match codex_tool(ts@[i as int]) {
                Some(p) => assert(strs_view(out@) =~= before + seq![p]),
                None => assert(strs_view(out@) =~= before + Seq::<Seq<char>>::empty()),
            }
        }
        i = i + 1;
    }
    assert(ts@.take(i as int) =~= ts@);
    out
}

fn tool_choice_exec(v: Option<&JsonValue>) -> (r: Option<String>)
    ensures
        opt_str_view(r) == tool_choice_text(crate::json::deref_opt(v)),
{
    match v {
        None => None,
        Some(JsonValue::Str(s)) => Some(quote(s.as_str())),
        Some(x) => {
            let is_fn = match as_str(get(x, "type")) {
                Some(t) => str_eq(t, "function"),
                None => false,
            };
            if !is_fn {
                return None;
            }
            let name = as_str(
                crate::codex_stream::or_else_ref(crate::codex_stream::member_ref(get(x, "function"), "name"), get(x, "name")),
            );
            match name {
                Some(n) => Some(two_members(kv_str("name", n), kv_str("type", "function"))),
                None => None,
            }
        },
    }
}

fn reasoning_exec(body: &JsonValue, model: &str) -> (r: Option<String>)
    ensures
        opt_str_view(r) == reasoning_text(*body, model@),
{
    match get(body, "reasoning") {
        Some(r) => Some(to_json_string(r)),
        None => match as_str(get(body, "reasoning_effort")) {
            Some(e) => {
                let mut v: Vec<String> = Vec::new();
                push_str_item(&mut v, kv_str("effort", e));
                let summary = match as_str(get(body, "reasoning_summary")) {
                    Some(s) => str_eq(s, "auto"),
                    None => false,
                };
                proof {
                    reveal_strlit("auto");
                }
                let ghost before = strs_view(v@);
                if summary || uses_openai_gpt5_defaults(model) {
                    push_str_item(&mut v, kv_str("summary", "auto"));
                }
                assert(strs_view(v@) =~= seq![kv("effort"@, quoted(e@))] + if str_of(get_member(*body, "reasoning_summary"@)) == Some("auto"@)
                    || gpt5_defaults(model@) {
                    seq![kv("summary"@, quoted("auto"@))]
                } else {
                    Seq::<Seq<char>>::empty()
                });
                Some(obj_of(&v))
            },
            None => {
                if uses_openai_gpt5_defaults(model) {
                    Some(two_members(kv_str("effort", "medium"), kv_str("summary", "auto")))
                } else {
                    None
                }
            },
        },
    }
}

fn include_exec(body: &JsonValue, model: &str) -> (r: Option<String>)
    ensures
        opt_str_view(r) == include_text(*body, model@),
{
    match get(body, "include") {
        Some(v) => match v {
            JsonValue::Array(a) => {
                if a.len() > 0 {
                    Some(to_json_string(v))
                } else {
                    None
                }
            },
            _ => None,
        },
        None => {
            if uses_openai_gpt5_defaults(model) {
                Some(arr_of(&single(quote("reasoning.encrypted_content"))))
            } else {
                None
            }
        },
    }
}

fn text_setting_exec(body: &JsonValue, model: &str) -> (r: Option<String>)
    ensures
        opt_str_view(r) == text_setting(*body, model@),
{
    match get(body, "text") {
        Some(t) => match t {
            JsonValue::Object(_) => {
                return Some(to_json_string(t));
            },
            _ => {},
        },
        None => {},
    }
    if uses_openai_gpt5_defaults(model) && uses_openai_gpt5_text_verbosity(model) {
        let mut v: Vec<String> = Vec::new();
        push_str_item(&mut v, kv_str("verbosity", "low"));
        assert(strs_view(v@) =~= seq![kv("verbosity"@, quoted("low"@))]);
        Some(obj_of(&v))
    } else {
        None
    }
}

fn sampling_exec(body: &JsonValue, model: &str, key: &str) -> (r: Option<String>)
    ensures
        opt_str_view(r) == sampling_text(*body, model@, key@),
{
    if supports_codex_sampling_params(model) {
        match get(body, key) {
            Some(v) => Some(to_json_string(v)),
            None => None,
        }
    } else {
        None
    }
}

fn instructions_exec(body: &JsonValue, msgs: &Vec<JsonValue>) -> (r: String)
    requires
        msgs@ == body_messages(*body),
    ensures
        r@ == instructions_text(*body),
{
    let mut parts: Vec<String> = Vec::new();
    match as_str(get(body, "instructions")) {
        Some(s) => {
            if trim_chars(&chars_of(s)).len() > 0 {
                push_str_item(&mut parts, String::from_str(s));
            }
        },
        None => {},
    }
    let ghost first = strs_view(parts@);
    let mut i: usize = 0;
    while i < msgs.len()
        invariant
            i <= msgs@.len(),
            strs_view(parts@) == first + all_instructions(msgs@.take(i as int)),
        decreases msgs.len() - i,
    {
        push_message_instruction(&mut parts, &msgs[i]);
        proof {
            assert(msgs@.take(i + 1).drop_last() =~= msgs@.take(i as int));
            assert(msgs@.take(i + 1).last() == msgs@[i as int]);
        }
        i = i + 1;
    }
    assert(msgs@.take(i as int) =~= msgs@);
    assert(strs_view(parts@) =~= instruction_parts(*body));
    if parts.len() == 0 {
        String::from_str("You are a helpful assistant.")
    } else {
        let mut out: Vec<char> = Vec::new();
        push_joined(&mut out, &parts, "\n\n");
        string_from_chars(&out)
    }
}

fn items_exec(msgs: &Vec<JsonValue>) -> (r: Vec<String>)
    ensures
        strs_view(r@) == all_items(msgs@),
{
    let mut items: Vec<String> = Vec::new();
    let mut i: usize = 0;
    assert(strs_view(items@) =~= Seq::<Seq<char>>::empty());
    while i < msgs.len()
        invariant
            i <= msgs@.len(),
            strs_view(items@) == all_items(msgs@.take(i as int)),
        decreases msgs.len() - i,
    {
        push_message_items(&mut items, &msgs[i]);
        proof {
            assert(msgs@.take(i + 1).drop_last() =~= msgs@.take(i as int));
            assert(msgs@.take(i + 1).last() == msgs@[i as int]);
        }
        i = i + 1;
    }
    assert(msgs@.take(i as int) =~= msgs@);
    items
}

fn push_request_head(m: &mut Vec<String>, openai_body: &JsonValue, upstream_model: &str, request_id: &str)
    ensures
        strs_view(final(m)@) == strs_view(old(m)@) + request_head(*openai_body, upstream_model@, request_id@),
{
    let empty: Vec<JsonValue> = Vec::new();
    let msgs: &Vec<JsonValue> = match get(openai_body, "messages") {
        Some(JsonValue::Array(a)) => a,
        _ => &empty,
    };
    let ghost start = strs_view(m@);
    push_opt_kv(m, "include", include_exec(openai_body, upstream_model));
    let ghost a = strs_view(m@);
    let input = arr_of(&items_exec(msgs));
    push_str_item(m, kv_of("input", input.as_str()));
    let instructions = instructions_exec(openai_body, msgs);
    push_str_item(m, kv_str("instructions", instructions.as_str()));
    push_str_item(m, kv_str("model", upstream_model));
    let key = match as_str(get(openai_body, "prompt_cache_key")) {
        Some(k) => k,
        None => request_id,
    };
    push_str_item(m, kv_str("prompt_cache_key", key));
    assert(strs_view(m@) =~= strs_view(old(m)@) + request_head(*openai_body, upstream_model@, request_id@));
}

fn tools_exec(body: &JsonValue) -> (r: Option<String>)
    ensures
        opt_str_view(r) == tools_text(*body),
{
    match get(body, "tools") {
        Some(JsonValue::Array(ts)) => {
            let list = codex_tools_exec(ts);
            if list.len() > 0 {
                Some(arr_of(&list))
            } else {
                None
            }
        },
        _ => None,
    }
}

fn push_tail_settings(m: &mut Vec<String>, openai_body: &JsonValue, upstream_model: &str)
    ensures
        strs_view(final(m)@) == strs_view(old(m)@) + tail_settings(*openai_body, upstream_model@),
{
    push_opt_kv(m, "reasoning", reasoning_exec(openai_body, upstream_model));
    let store = match as_bool(get(openai_body, "store")) {
        Some(b) => b,
        None => false,
    };
    push_str_item(m, kv_of("store", if store {
        "true"
    } else {
        "false"
    }));
    push_str_item(m, kv_of("stream", "true"));
    push_opt_kv(m, "temperature", sampling_exec(openai_body, upstream_model, "temperature"));
    assert(strs_view(m@) =~= strs_view(old(m)@) + tail_settings(*openai_body, upstream_model@));
}

fn push_tail_tools(m: &mut Vec<String>, openai_body: &JsonValue, upstream_model: &str)
    ensures
        strs_view(final(m)@) == strs_view(old(m)@) + tail_tools(*openai_body, upstream_model@),
{
    push_opt_kv(m, "text", text_setting_exec(openai_body, upstream_model));
    push_opt_kv(m, "tool_choice", tool_choice_exec(get(openai_body, "tool_choice")));
    push_opt_kv(m, "tools", tools_exec(openai_body));
    push_opt_kv(m, "top_p", sampling_exec(openai_body, upstream_model, "top_p"));
    assert(strs_view(m@) =~= strs_view(old(m)@) + tail_tools(*openai_body, upstream_model@));
}

fn push_request_tail(m: &mut Vec<String>, openai_body: &JsonValue, upstream_model: &str)
    ensures
        strs_view(final(m)@) == strs_view(old(m)@) + request_tail(*openai_body, upstream_model@),
{
    push_tail_settings(m, openai_body, upstream_model);
    push_tail_tools(m, openai_body, upstream_model);
    assert(strs_view(m@) =~= strs_view(old(m)@) + request_tail(*openai_body, upstream_model@));
}

/// Translates a chat request into a Codex Responses request with the given
/// request id as default prompt cache key; see [`codex_request_text`].
/// Messages map as follows: system and developer messages become the
/// instructions, user messages input items, assistant messages output text
/// and function calls, tool messages function call outputs; streaming is
/// always on.
pub fn openai_to_codex_request_with_id(openai_body: &JsonValue, upstream_model: &str, request_id: &str) -> (r: String)
    ensures
        r@ == codex_request_text(*openai_body, upstream_model@, request_id@),
{
    let mut m: Vec<String> = Vec::new();
    assert(strs_view(m@) =~= Seq::<Seq<char>>::empty());
    push_request_head(&mut m, openai_body, upstream_model, request_id);
    push_request_tail(&mut m, openai_body, upstream_model);
    assert(strs_view(m@) =~= codex_request_members(*openai_body, upstream_model@, request_id@));
    obj_of(&m)
}

/// Translates a chat request into a Codex Responses request under a fresh
/// request id.
pub fn openai_to_codex_request(openai_body: &JsonValue, upstream_model: &str) -> (r: String)
    ensures
        exists|id: Seq<char>|
            id.len() == 32 && (forall|i: int| 0 <= i < 32 ==> crate::ids::is_lower_hex(#[trigger] id[i]))
                && r@ == codex_request_text(*openai_body, upstream_model@, id),
{
    let request_id = crate::codex::new_codex_request_id();
    openai_to_codex_request_with_id(openai_body, upstream_model, request_id.as_str())
}

} // verus!
