//! Mixture of Agents: the requests sent to reference groups and to the
//! aggregator group, the advisory summary of the references' answers, and
//! the decisions that set a Mixture-of-Agents turn up and close it.

use vstd::prelude::*;
use crate::json::{JsonValue, JsonNumber, number_text, get, as_bool, get_member, bool_of};
use crate::config_models::{Group, group_has_id, agg_enabled, groups_agg_error, validate_group_aggregation};
use crate::translator::{utf8_lossy, decode_lossy};
use crate::redact::{sanitize_checked, cut_on_boundary, redact_words, words, sanitized_message};
use crate::response::is_success;
use crate::json::{parse_json_bytes, json_parse_bytes};
use crate::seqs::{first_index, lemma_first_index_unique, lemma_first_index_none};
use crate::json_model::{
    JsonModel, model_of, model_members, model_items, lemma_model_members, lemma_model_items, m_get, m_set,
    m_remove, obj_set, obj_remove, member_index, copy_value, jstr,
};
use crate::text::{
    trim_ws, trim_chars, chars_of, append_str, string_from_chars, str_eq, decimal, append_decimal, cat, cat3,
};

verus! {

// ---------------------------------------------------------------------------
// Reading documents
// ---------------------------------------------------------------------------

/// A member of an object document.
pub open spec fn mget(v: JsonModel, k: Seq<char>) -> Option<JsonModel> {
    match v {
        JsonModel::Obj(ms) => m_get(ms, k),
        _ => None,
    }
}

/// The text of a string document.
pub open spec fn mstr(v: Option<JsonModel>) -> Option<Seq<char>> {
    match v {
        Some(JsonModel::Str(s)) => Some(s),
        _ => None,
    }
}

/// Looks up a member of an object value; see [`mget`].
pub fn mget_ref<'a>(v: &'a JsonValue, k: &str) -> (r: Option<&'a JsonValue>)
    ensures
        match r {
            Some(x) => mget(model_of(*v), k@) == Some(model_of(*x)),
            None => mget(model_of(*v), k@) is None,
        },
{
    match v {
        JsonValue::Object(ms) => {
            proof {
                lemma_model_members(ms@);
            }
            match member_index(ms, k) {
                Some(i) => Some(&ms[i].1),
                None => None,
            }
        },
        _ => None,
    }
}

/// The text of an optional string value; see [`mstr`].
pub fn mstr_ref<'a>(v: Option<&'a JsonValue>) -> (r: Option<&'a str>)
    ensures
        match v {
            Some(x) => match r {
                Some(s) => mstr(Some(model_of(*x))) == Some(s@),
                None => mstr(Some(model_of(*x))) is None,
            },
            None => r is None,
        },
{
    match v {
        Some(JsonValue::Str(s)) => Some(s.as_str()),
        _ => None,
    }
}

// ---------------------------------------------------------------------------
// Message content as text
// ---------------------------------------------------------------------------

/// The text of one content part: a string part, else its `text` (or, when
/// missing, `input_text`) string.
pub open spec fn part_text(p: JsonModel) -> Option<Seq<char>> {
    match p {
        JsonModel::Str(t) => Some(t),
        _ => mstr(
            match mget(p, "text"@) {
                Some(x) => Some(x),
                None => mget(p, "input_text"@),
            },
        ),
    }
}

/// The texts of the parts that have one, in order.
pub open spec fn part_texts(parts: Seq<JsonModel>) -> Seq<Seq<char>>
    decreases parts.len(),
{
    if parts.len() == 0 {
        Seq::empty()
    } else {
        let rest = part_texts(parts.drop_last());
        match part_text(parts.last()) {
            Some(t) => rest.push(t),
            None => rest,
        }
    }
}

/// Texts joined with newlines.
pub open spec fn join_lines(ts: Seq<Seq<char>>) -> Seq<char>
    decreases ts.len(),
{
    if ts.len() == 0 {
        Seq::empty()
    } else if ts.len() == 1 {
        ts[0]
    } else {
        join_lines(ts.drop_last()) + "\n"@ + ts.last()
    }
}

/// A message's content as plain text: a string as it is, the texts of an
/// array's parts joined with newlines, an object's `text`, nothing for
/// null, and the JSON text of a boolean or number.
pub open spec fn content_text(c: JsonModel) -> Seq<char> {
    match c {
        JsonModel::Str(t) => t,
        JsonModel::Arr(parts) => join_lines(part_texts(parts)),
        JsonModel::Obj(ms) => match mstr(m_get(ms, "text"@)) {
            Some(t) => t,
            None => Seq::empty(),
        },
        JsonModel::Null => Seq::empty(),
        JsonModel::Bool(b) => if b {
            "true"@
        } else {
            "false"@
        },
        JsonModel::Num(t) => t,
    }
}

fn part_text_exec(p: &JsonValue) -> (r: Option<&str>)
    ensures
        match r {
            Some(s) => part_text(model_of(*p)) == Some(s@),
            None => part_text(model_of(*p)) is None,
        },
{
    match p {
        JsonValue::Str(s) => Some(s.as_str()),
        _ => {
            let t = match mget_ref(p, "text") {
                Some(x) => Some(x),
                None => mget_ref(p, "input_text"),
            };
            mstr_ref(t)
        },
    }
}

/// The content of a message as plain text; see [`content_text`].
pub fn content_value_to_text(content: &JsonValue) -> (r: String)
    ensures
        r@ == content_text(model_of(*content)),
{
    match content {
        JsonValue::Str(t) => t.clone(),
        JsonValue::Array(parts) => {
            proof {
                lemma_model_items(parts@);
            }
            let ghost ms = model_items(parts@);
            let mut out: Vec<char> = Vec::new();
            let mut any = false;
            let mut i: usize = 0;
            while i < parts.len()
                invariant
                    i <= parts@.len(),
                    ms == model_items(parts@),
                    ms.len() == parts@.len(),
                    forall|k: int| 0 <= k < parts@.len() ==> #[trigger] ms[k] == model_of(parts@[k]),
                    out@ == join_lines(part_texts(ms.take(i as int))),
                    any == (part_texts(ms.take(i as int)).len() > 0),
                decreases parts.len() - i,
            {
                let ghost before = part_texts(ms.take(i as int));
                assert(ms.take(i + 1).drop_last() =~= ms.take(i as int));
                assert(ms.take(i + 1).last() == ms[i as int]);
                match part_text_exec(&parts[i]) {
                    Some(t) => {
                        if any {
                            append_str(&mut out, "\n");
                        }
                        append_str(&mut out, t);
                        any = true;
                        proof {
                            let after = before.push(t@);
                            assert(after.drop_last() =~= before);
                            if before.len() == 0 {
                                assert(out@ =~= join_lines(after));
                            } else {
                                assert(out@ =~= join_lines(after));
                            }
                        }
                    },
                    None => {},
                }
                i = i + 1;
            }
            assert(ms.take(i as int) =~= ms);
            string_from_chars(&out)
        },
        JsonValue::Object(members) => {
            proof {
                lemma_model_members(members@);
            }
            match member_index(members, "text") {
                Some(i) => match &members[i].1 {
                    JsonValue::Str(t) => t.clone(),
                    _ => String::new(),
                },
                None => String::new(),
            }
        },
        JsonValue::Null => String::new(),
        JsonValue::Bool(b) => {
            if *b {
                String::from_str("true")
            } else {
                String::from_str("false")
            }
        },
        JsonValue::Number(n) => {
            let mut out: Vec<char> = Vec::new();
            crate::json::write_json(&mut out, content);
            string_from_chars(&out)
        },
    }
}

// ---------------------------------------------------------------------------
// Reference requests
// ---------------------------------------------------------------------------

/// Whether a text has something besides white space.
pub open spec fn has_text(s: Seq<char>) -> bool {
    trim_ws(s).len() > 0
}

/// A message as a reference group sees it: only system, user and assistant
/// messages with non-blank text content, reduced to their role and text.
pub open spec fn sanitized(m: JsonModel) -> Option<JsonModel> {
    match mstr(mget(m, "role"@)) {
        Some(role) => if role == "system"@ || role == "user"@ || role == "assistant"@ {
            match mget(m, "content"@) {
                Some(c) => if has_text(content_text(c)) {
                    Some(JsonModel::Obj(seq![("content"@, JsonModel::Str(content_text(c))), ("role"@, JsonModel::Str(role))]))
                } else {
                    None
                },
                None => None,
            }
        } else {
            None
        },
        None => None,
    }
}

/// The sanitized messages, in order.
pub open spec fn sanitized_all(ms: Seq<JsonModel>) -> Seq<JsonModel>
    decreases ms.len(),
{
    if ms.len() == 0 {
        Seq::empty()
    } else {
        let rest = sanitized_all(ms.drop_last());
        match sanitized(ms.last()) {
            Some(x) => rest.push(x),
            None => rest,
        }
    }
}

fn is_blank(s: &str) -> (r: bool)
    ensures
        r == !has_text(s@),
{
    let cs = chars_of(s);
    let t = trim_chars(&cs);
    t.len() == 0
}

/// Reduces a message for a reference group; see [`sanitized`].
pub fn sanitize_reference_message(message: &JsonValue) -> (r: Option<JsonValue>)
    ensures
        match r {
            Some(x) => sanitized(model_of(*message)) == Some(model_of(x)),
            None => sanitized(model_of(*message)) is None,
        },
{
    let role = match mstr_ref(mget_ref(message, "role")) {
        Some(r) => r,
        None => return None,
    };
    if !(str_eq(role, "system") || str_eq(role, "user") || str_eq(role, "assistant")) {
        return None;
    }
    let content = match mget_ref(message, "content") {
        Some(c) => content_value_to_text(c),
        None => return None,
    };
    if is_blank(content.as_str()) {
        return None;
    }
    let r = crate::json_model::jobj2("content", JsonValue::Str(content), "role", jstr(role));
    Some(r)
}

/// The keys a reference request loses: reference groups answer in text
/// and are not offered tools.
pub open spec fn strip_tools(ms: Seq<(Seq<char>, JsonModel)>) -> Seq<(Seq<char>, JsonModel)> {
    m_remove(
        m_remove(
            m_remove(m_remove(m_remove(ms, "tools"@), "tool_choice"@), "parallel_tool_calls"@),
            "functions"@,
        ),
        "function_call"@,
    )
}

/// Members with the temperature set, when one is given.
pub open spec fn with_temperature(ms: Seq<(Seq<char>, JsonModel)>, t: Option<JsonNumber>) -> Seq<(Seq<char>, JsonModel)> {
    match t {
        Some(n) => m_set(ms, "temperature"@, JsonModel::Num(number_text(n))),
        None => ms,
    }
}

pub open spec fn no_messages_error() -> Seq<char> {
    "MoA requests require a messages array"@
}

pub open spec fn not_object_error() -> Seq<char> {
    "MoA request body must be a JSON object"@
}

/// The request sent to a reference group: the client's body addressed to
/// the reference alias, not streamed, with only its sanitized messages,
/// without tools, and with the reference temperature when one is set.
pub open spec fn reference_request(body: JsonModel, alias: Seq<char>, t: Option<JsonNumber>) -> Result<JsonModel, Seq<char>> {
    match mget(body, "messages"@) {
        Some(JsonModel::Arr(items)) => {
            let kept = sanitized_all(items);
            if kept.len() == 0 {
                Err("MoA reference request has no text messages after stripping tool messages"@)
            } else {
                match body {
                    JsonModel::Obj(ms) => Ok(
                        JsonModel::Obj(
                            with_temperature(
                                strip_tools(
                                    m_set(
                                        m_set(m_set(ms, "model"@, JsonModel::Str(alias)), "stream"@, JsonModel::Bool(false)),
                                        "messages"@,
                                        JsonModel::Arr(kept),
                                    ),
                                ),
                                t,
                            ),
                        ),
                    ),
                    _ => Err(not_object_error()),
                }
            }
        },
        _ => Err(no_messages_error()),
    }
}

fn set_temperature(members: &mut Vec<(String, JsonValue)>, t: &Option<JsonNumber>)
    ensures
        model_members(final(members)@) == with_temperature(model_members(old(members)@), *t),
{
    match t {
        Some(n) => {
            let v = JsonValue::Number(crate::json::copy_number(n));
            obj_set(members, String::from_str("temperature"), v);
        },
        None => {},
    }
}

/// Builds the request for a reference group; see [`reference_request`].
pub fn build_moa_reference_request(body: &JsonValue, reference_alias: &str, temperature: Option<JsonNumber>) -> (r: Result<JsonValue, String>)
    ensures
        match r {
            Ok(v) => reference_request(model_of(*body), reference_alias@, temperature) == Ok::<JsonModel, Seq<char>>(model_of(v)),
            Err(e) => reference_request(model_of(*body), reference_alias@, temperature) == Err::<JsonModel, Seq<char>>(e@),
        },
{
    let items = match mget_ref(body, "messages") {
        Some(JsonValue::Array(items)) => items,
        _ => return Err(String::from_str("MoA requests require a messages array")),
    };
    proof {
        lemma_model_items(items@);
    }
    let ghost ms = model_items(items@);
    let mut kept: Vec<JsonValue> = Vec::new();
    let mut i: usize = 0;
    while i < items.len()
        invariant
            i <= items@.len(),
            ms == model_items(items@),
            ms.len() == items@.len(),
            forall|k: int| 0 <= k < items@.len() ==> #[trigger] ms[k] == model_of(items@[k]),
            model_items(kept@) == sanitized_all(ms.take(i as int)),
        decreases items.len() - i,
    {
        assert(ms.take(i + 1).drop_last() =~= ms.take(i as int));
        assert(ms.take(i + 1).last() == ms[i as int]);
        match sanitize_reference_message(&items[i]) {
            Some(x) => {
                proof {
                    assert(kept@.push(x).subrange(0, kept@.len() as int) =~= kept@);
                }
                kept.push(x);
            },
            None => {},
        }
        i = i + 1;
    }
    assert(ms.take(i as int) =~= ms);
    if kept.len() == 0 {
        proof {
            lemma_model_items(kept@);
        }
        return Err(String::from_str("MoA reference request has no text messages after stripping tool messages"));
    }
    let mut members = match body {
        JsonValue::Object(members) => crate::json_model::copy_members(members),
        _ => return Err(String::from_str("MoA request body must be a JSON object")),
    };
    obj_set(&mut members, String::from_str("model"), JsonValue::Str(String::from_str(reference_alias)));
    obj_set(&mut members, String::from_str("stream"), JsonValue::Bool(false));
    obj_set(&mut members, String::from_str("messages"), JsonValue::Array(kept));
    obj_remove(&mut members, "tools");
    obj_remove(&mut members, "tool_choice");
    obj_remove(&mut members, "parallel_tool_calls");
    obj_remove(&mut members, "functions");
    obj_remove(&mut members, "function_call");
    set_temperature(&mut members, &temperature);
    Ok(JsonValue::Object(members))
}

// ---------------------------------------------------------------------------
// The aggregator request
// ---------------------------------------------------------------------------

/// A reference group's answer.
#[derive(Clone, Debug)]
pub struct MoaReferenceOutput {
    pub group_alias: String,
    pub display_name: String,
    pub content: String,
}

pub open spec fn summary_header() -> Seq<char> {
    "Mixture of Agents reference outputs (advisory; use only if helpful):"@
}

/// The block of the reference at position `i` (counted from one in the
/// text): its display name, alias and trimmed answer.
pub open spec fn ref_block(i: nat, r: MoaReferenceOutput) -> Seq<char> {
    "\n\n[Reference "@ + decimal(i + 1) + ": "@ + r.display_name@ + " ("@ + r.group_alias@ + ")]\n"@ + trim_ws(
        r.content@,
    )
}

/// The advisory summary: the header and one block per reference, in order.
pub open spec fn summary_of(refs: Seq<MoaReferenceOutput>) -> Seq<char>
    decreases refs.len(),
{
    if refs.len() == 0 {
        summary_header()
    } else {
        summary_of(refs.drop_last()) + ref_block((refs.len() - 1) as nat, refs.last())
    }
}

/// Writes the advisory summary of the references; see [`summary_of`].
pub fn build_moa_reference_summary(references: &[MoaReferenceOutput]) -> (r: String)
    ensures
        r@ == summary_of(references@),
{
    let mut out: Vec<char> = Vec::new();
    append_str(&mut out, "Mixture of Agents reference outputs (advisory; use only if helpful):");
    let mut i: usize = 0;
    while i < references.len()
        invariant
            i <= references@.len(),
            out@ == summary_of(references@.take(i as int)),
        decreases references.len() - i,
    {
        let ghost before = out@;
        let r = &references[i];
        append_str(&mut out, "\n\n[Reference ");
        append_decimal(&mut out, (i as u64) + 1);
        append_str(&mut out, ": ");
        append_str(&mut out, r.display_name.as_str());
        append_str(&mut out, " (");
        append_str(&mut out, r.group_alias.as_str());
        append_str(&mut out, ")]\n");
        let cs = chars_of(r.content.as_str());
        let t = trim_chars(&cs);
        let ts = string_from_chars(&t);
        append_str(&mut out, ts.as_str());
        proof {
            assert(references@.take(i + 1).drop_last() =~= references@.take(i as int));
            assert(references@.take(i + 1).last() == references@[i as int]);
            assert(out@ =~= before + ref_block(i as nat, references@[i as int]));
        }
        i = i + 1;
    }
    assert(references@.take(i as int) =~= references@);
    string_from_chars(&out)
}

/// Text added after existing text, or in its place when that is blank.
pub open spec fn with_text(existing: Seq<char>, text: Seq<char>) -> Seq<char> {
    if has_text(existing) {
        existing + "\n\n"@ + text
    } else {
        text
    }
}

/// A text content part.
pub open spec fn text_part(text: Seq<char>) -> JsonModel {
    JsonModel::Obj(seq![("text"@, JsonModel::Str(text)), ("type"@, JsonModel::Str("text"@))])
}

/// A message with text added to its content: after string content (or in
/// its place when blank), as a new text part of array content, after the
/// text of any other content, or as the content when there is none.
pub open spec fn appended(m: JsonModel, text: Seq<char>) -> Result<JsonModel, Seq<char>> {
    match m {
        JsonModel::Obj(ms) => Ok(
            JsonModel::Obj(
                match m_get(ms, "content"@) {
                    Some(JsonModel::Str(e)) => m_set(ms, "content"@, JsonModel::Str(with_text(e, text))),
                    Some(JsonModel::Arr(parts)) => m_set(ms, "content"@, JsonModel::Arr(parts.push(text_part(text)))),
                    Some(other) => m_set(ms, "content"@, JsonModel::Str(with_text(content_text(other), text))),
                    None => m_set(ms, "content"@, JsonModel::Str(text)),
                },
            ),
        ),
        _ => Err("message must be a JSON object"@),
    }
}

fn joined_text(existing: &str, text: &str) -> (r: String)
    ensures
        r@ == with_text(existing@, text@),
{
    if is_blank(existing) {
        String::from_str(text)
    } else {
        cat3(existing, "\n\n", text)
    }
}

/// Adds text to a message's content; see [`appended`]. A message that is
/// not an object is left as it is.
pub fn append_text_to_message_content(message: &mut JsonValue, text: &str) -> (r: Result<(), String>)
    ensures
        match appended(model_of(*old(message)), text@) {
            Ok(m) => r is Ok && model_of(*final(message)) == m,
            Err(e) => r matches Err(x) && x@ == e && model_of(*final(message)) == model_of(*old(message)),
        },
{
    match message {
        JsonValue::Object(ms) => {
            proof {
                lemma_model_members(ms@);
            }
            let v = match member_index(ms, "content") {
                Some(i) => match &ms[i].1 {
                    JsonValue::Str(e) => JsonValue::Str(joined_text(e.as_str(), text)),
                    JsonValue::Array(parts) => {
                        let mut copy = crate::json_model::copy_items(parts);
                        let p = crate::json_model::jobj2("text", jstr(text), "type", jstr("text"));
                        proof {
                            assert(copy@.push(p).subrange(0, copy@.len() as int) =~= copy@);
                        }
                        copy.push(p);
                        JsonValue::Array(copy)
                    },
                    other => {
                        let t = content_value_to_text(other);
                        JsonValue::Str(joined_text(t.as_str(), text))
                    },
                },
                None => jstr(text),
            };
            obj_set(ms, String::from_str("content"), v);
            Ok(())
        },
        _ => Err(String::from_str("message must be a JSON object")),
    }
}

/// Whether a message is from the user.
pub open spec fn is_user(m: JsonModel) -> bool {
    mstr(mget(m, "role"@)) == Some("user"@)
}

/// The position of the last user message.
pub open spec fn last_user(items: Seq<JsonModel>) -> Option<int>
    decreases items.len(),
{
    if items.len() == 0 {
        None
    } else if is_user(items.last()) {
        Some(items.len() - 1)
    } else {
        last_user(items.drop_last())
    }
}

/// The request sent to the aggregator group: the client's body addressed
/// to the aggregator alias, not streamed, with the aggregator temperature
/// when one is set, and the advisory summary added to the last user
/// message. Tools are kept.
pub open spec fn aggregator_request(
    body: JsonModel,
    alias: Seq<char>,
    refs: Seq<MoaReferenceOutput>,
    t: Option<JsonNumber>,
) -> Result<JsonModel, Seq<char>> {
    match body {
        JsonModel::Obj(ms) => {
            let ms1 = with_temperature(m_set(m_set(ms, "model"@, JsonModel::Str(alias)), "stream"@, JsonModel::Bool(false)), t);
            match m_get(ms1, "messages"@) {
                Some(JsonModel::Arr(items)) => match last_user(items) {
                    Some(k) => match appended(items[k], summary_of(refs)) {
                        Ok(m2) => Ok(JsonModel::Obj(m_set(ms1, "messages"@, JsonModel::Arr(items.update(k, m2))))),
                        Err(e) => Err(e),
                    },
                    None => Err("MoA requests require at least one user message"@),
                },
                _ => Err(no_messages_error()),
            }
        },
        _ => Err(not_object_error()),
    }
}

fn is_user_exec(m: &JsonValue) -> (r: bool)
    ensures
        r == is_user(model_of(*m)),
{
    match mstr_ref(mget_ref(m, "role")) {
        Some(role) => str_eq(role, "user"),
        None => false,
    }
}

/// Builds the request for the aggregator group; see [`aggregator_request`].
pub fn build_moa_aggregator_request(
    body: &JsonValue,
    aggregator_alias: &str,
    references: &[MoaReferenceOutput],
    temperature: Option<JsonNumber>,
) -> (r: Result<JsonValue, String>)
    ensures
        match r {
            Ok(v) => aggregator_request(model_of(*body), aggregator_alias@, references@, temperature) == Ok::<JsonModel, Seq<char>>(model_of(v)),
            Err(e) => aggregator_request(model_of(*body), aggregator_alias@, references@, temperature) == Err::<JsonModel, Seq<char>>(e@),
        },
{
    let mut members = match body {
        JsonValue::Object(members) => crate::json_model::copy_members(members),
        _ => return Err(String::from_str("MoA request body must be a JSON object")),
    };
    obj_set(&mut members, String::from_str("model"), JsonValue::Str(String::from_str(aggregator_alias)));
    obj_set(&mut members, String::from_str("stream"), JsonValue::Bool(false));
    set_temperature(&mut members, &temperature);
    let summary = build_moa_reference_summary(references);
    proof {
        lemma_model_members(members@);
    }
    let idx = match member_index(&members, "messages") {
        Some(i) => i,
        None => return Err(String::from_str("MoA requests require a messages array")),
    };
    let mut items = match &members[idx].1 {
        JsonValue::Array(items) => crate::json_model::copy_items(items),
        _ => return Err(String::from_str("MoA requests require a messages array")),
    };
    proof {
        lemma_model_items(items@);
    }
    let ghost ms = model_items(items@);
    let mut k: usize = items.len();
    assert(ms.take(k as int) =~= ms);
    while k > 0 && !is_user_exec(&items[k - 1])
        invariant
            k <= items@.len(),
            ms == model_items(items@),
            ms.len() == items@.len(),
            forall|q: int| 0 <= q < items@.len() ==> #[trigger] ms[q] == model_of(items@[q]),
            last_user(ms) == last_user(ms.take(k as int)),
        decreases k,
    {
        assert(ms.take(k as int).drop_last() =~= ms.take(k - 1));
        assert(ms.take(k as int).last() == ms[k - 1]);
        k = k - 1;
    }
    if k == 0 {
        assert(ms.take(0) =~= Seq::<JsonModel>::empty());
        return Err(String::from_str("MoA requests require at least one user message"));
    }
    let u = k - 1;
    proof {
        assert(ms.take(k as int).last() == ms[u as int]);
        assert(last_user(ms) == Some(u as int));
    }
    let mut msg = items.remove(u);
    let res = append_text_to_message_content(&mut msg, summary.as_str());
    match res {
        Ok(()) => {},
        Err(e) => {
            return Err(e);
        },
    }
    let ghost mm = model_of(msg);
    items.insert(u, msg);
    proof {
        lemma_model_items(items@);
        assert(model_items(items@) =~= ms.update(u as int, mm));
    }
    obj_set(&mut members, String::from_str("messages"), JsonValue::Array(items));
    Ok(JsonValue::Object(members))
}

// ---------------------------------------------------------------------------
// Reference answers
// ---------------------------------------------------------------------------

/// The text of a choice's message content, when it has content.
pub open spec fn choice_text(c: JsonModel) -> Option<Seq<char>> {
    match mget(c, "message"@) {
        Some(m) => match mget(m, "content"@) {
            Some(x) => Some(content_text(x)),
            None => None,
        },
        None => None,
    }
}

/// The first non-blank message text among choices.
pub open spec fn first_text(cs: Seq<JsonModel>) -> Option<Seq<char>>
    decreases cs.len(),
{
    if cs.len() == 0 {
        None
    } else {
        match choice_text(cs[0]) {
            Some(t) => if has_text(t) {
                Some(t)
            } else {
                first_text(cs.drop_first())
            },
            None => first_text(cs.drop_first()),
        }
    }
}

/// The assistant's text in a chat completion: the first non-blank message
/// content among its `choices`.
pub open spec fn assistant_text(json: JsonModel) -> Option<Seq<char>> {
    match mget(json, "choices"@) {
        Some(JsonModel::Arr(cs)) => first_text(cs),
        _ => None,
    }
}

/// Finds the assistant's text in a chat completion; see [`assistant_text`].
pub fn extract_assistant_text(json: &JsonValue) -> (r: Option<String>)
    ensures
        match r {
            Some(s) => assistant_text(model_of(*json)) == Some(s@),
            None => assistant_text(model_of(*json)) is None,
        },
{
    let cs = match mget_ref(json, "choices") {
        Some(JsonValue::Array(cs)) => cs,
        _ => return None,
    };
    proof {
        lemma_model_items(cs@);
    }
    let ghost ms = model_items(cs@);
    let mut i: usize = 0;
    assert(ms.skip(0) =~= ms);
    while i < cs.len()
        invariant
            i <= cs@.len(),
            ms == model_items(cs@),
            ms.len() == cs@.len(),
            forall|q: int| 0 <= q < cs@.len() ==> #[trigger] ms[q] == model_of(cs@[q]),
            first_text(ms) == first_text(ms.skip(i as int)),
            assistant_text(model_of(*json)) == first_text(ms),
        decreases cs.len() - i,
    {
        assert(ms.skip(i as int).drop_first() =~= ms.skip(i + 1));
        assert(ms.skip(i as int)[0] == ms[i as int]);
        let content = match mget_ref(&cs[i], "message") {
            Some(m) => mget_ref(m, "content"),
            None => None,
        };
        match content {
            Some(x) => {
                let t = content_value_to_text(x);
                proof {
                    assert(choice_text(ms[i as int]) == Some(t@));
                }
                if !is_blank(t.as_str()) {
                    return Some(t);
                }
            },
            None => {},
        }
        i = i + 1;
    }
    assert(ms.skip(i as int) =~= Seq::<JsonModel>::empty());
    None
}

/// A reference group's answer from its chat completion: its alias and
/// display name with the assistant's text; an answer without text is
/// refused with `reference group '<alias>' returned no assistant content`.
pub fn reference_output(group_alias: &str, display_name: &str, json: &JsonValue) -> (r: Result<MoaReferenceOutput, String>)
    ensures
        match assistant_text(model_of(*json)) {
            Some(t) => r matches Ok(o) && o.group_alias@ == group_alias@ && o.display_name@ == display_name@
                && o.content@ == t,
            None => r matches Err(e) && e@ == "reference group '"@ + group_alias@ + "' returned no assistant content"@,
        },
{
    match extract_assistant_text(json) {
        Some(t) => Ok(
            MoaReferenceOutput {
                group_alias: String::from_str(group_alias),
                display_name: String::from_str(display_name),
                content: t,
            },
        ),
        None => Err(cat3("reference group '", group_alias, "' returned no assistant content")),
    }
}

/// Texts joined with `; `.
pub open spec fn join_semi(ts: Seq<Seq<char>>) -> Seq<char>
    decreases ts.len(),
{
    if ts.len() == 0 {
        Seq::empty()
    } else if ts.len() == 1 {
        ts[0]
    } else {
        join_semi(ts.drop_last()) + "; "@ + ts.last()
    }
}

/// The answers among reference results, in order.
pub open spec fn oks(rs: Seq<Result<MoaReferenceOutput, String>>) -> Seq<MoaReferenceOutput>
    decreases rs.len(),
{
    if rs.len() == 0 {
        Seq::empty()
    } else {
        match rs.last() {
            Ok(o) => oks(rs.drop_last()).push(o),
            Err(_) => oks(rs.drop_last()),
        }
    }
}

/// The failure messages among reference results, in order.
pub open spec fn errs(rs: Seq<Result<MoaReferenceOutput, String>>) -> Seq<Seq<char>>
    decreases rs.len(),
{
    if rs.len() == 0 {
        Seq::empty()
    } else {
        match rs.last() {
            Ok(_) => errs(rs.drop_last()),
            Err(e) => errs(rs.drop_last()).push(e@),
        }
    }
}

/// What the reference results come to: their answers; or, when every
/// reference is required and one failed, or when no answer came, the
/// reason the turn is unavailable.
pub open spec fn combined(rs: Seq<Result<MoaReferenceOutput, String>>, require_all: bool, alias: Seq<char>) -> Result<Seq<MoaReferenceOutput>, Seq<char>> {
    if require_all && errs(rs).len() > 0 {
        Err("MoA reference failure(s) for group '"@ + alias + "': "@ + join_semi(errs(rs)))
    } else if oks(rs).len() == 0 {
        Err(
            "All MoA references failed for group '"@ + alias + "': "@ + (if errs(rs).len() == 0 {
                "no reference groups were configured"@
            } else {
                join_semi(errs(rs))
            }),
        )
    } else {
        Ok(oks(rs))
    }
}

/// Combines the reference results; see [`combined`].
pub fn combine_references(results: Vec<Result<MoaReferenceOutput, String>>, require_all: bool, group_alias: &str) -> (r: Result<Vec<MoaReferenceOutput>, String>)
    ensures
        match combined(results@, require_all, group_alias@) {
            Ok(os) => r matches Ok(v) && v@ == os,
            Err(e) => r matches Err(m) && m@ == e,
        },
{
    let ghost rs = results@;
    let mut references: Vec<MoaReferenceOutput> = Vec::new();
    let mut failures: Vec<char> = Vec::new();
    let mut n_failures: usize = 0;
    let mut results = results;
    let mut taken: Vec<Result<MoaReferenceOutput, String>> = Vec::new();
    let mut i: usize = 0;
    let n = results.len();
    while i < n
        invariant
            n == rs.len(),
            i <= n,
            results@ == rs.skip(i as int),
            references@ == oks(rs.take(i as int)),
            failures@ == join_semi(errs(rs.take(i as int))),
            n_failures == errs(rs.take(i as int)).len(),
            n_failures <= i,
        decreases n - i,
    {
        let item = results.remove(0);
        proof {
            assert(item == rs[i as int]);
            assert(rs.take(i + 1).drop_last() =~= rs.take(i as int));
            assert(rs.take(i + 1).last() == rs[i as int]);
            assert(rs.skip(i as int).drop_first() =~= rs.skip(i + 1));
        }
        match item {
            Ok(o) => {
                references.push(o);
            },
            Err(e) => {
                let ghost before = errs(rs.take(i as int));
                if n_failures > 0 {
                    append_str(&mut failures, "; ");
                }
                append_str(&mut failures, e.as_str());
                n_failures = n_failures + 1;
                proof {
                    let after = before.push(e@);
                    assert(after.drop_last() =~= before);
                    assert(errs(rs.take(i + 1)) == after);
                    assert(failures@ =~= join_semi(after));
                }
            },
        }
        i = i + 1;
    }
    assert(rs.take(i as int) =~= rs);
    let detail = string_from_chars(&failures);
    if require_all && n_failures > 0 {
        let head = cat3("MoA reference failure(s) for group '", group_alias, "': ");
        return Err(cat(head.as_str(), detail.as_str()));
    }
    if references.len() == 0 {
        let d = if n_failures == 0 {
            String::from_str("no reference groups were configured")
        } else {
            detail
        };
        let head = cat3("All MoA references failed for group '", group_alias, "': ");
        return Err(cat(head.as_str(), d.as_str()));
    }
    Ok(references)
}

// ---------------------------------------------------------------------------
// Setting a turn up
// ---------------------------------------------------------------------------

/// Why a Mixture-of-Agents turn cannot go on, by the HTTP answer it gets.
pub enum MoaError {
    /// The client's request or the configuration is at fault (400).
    BadRequest(String),
    /// The proxy's own state is inconsistent (500).
    Internal(String),
    /// The references gave nothing to aggregate (503).
    Unavailable(String),
}

/// The view of a [`MoaError`].
pub enum MoaErrorView {
    BadRequest(Seq<char>),
    Internal(Seq<char>),
    Unavailable(Seq<char>),
}

pub open spec fn moa_error_view(e: MoaError) -> MoaErrorView {
    match e {
        MoaError::BadRequest(m) => MoaErrorView::BadRequest(m@),
        MoaError::Internal(m) => MoaErrorView::Internal(m@),
        MoaError::Unavailable(m) => MoaErrorView::Unavailable(m@),
    }
}

/// The groups a turn runs on, as positions in the group list: the
/// aggregator and the references in configuration order.
pub struct MoaPlan {
    pub aggregator: usize,
    pub references: Vec<usize>,
}

/// The position of the first group with an id.
pub open spec fn group_index(gs: Seq<Group>, id: Seq<char>) -> Option<int> {
    first_index(gs, group_has_id(id))
}

/// The positions of the groups with the given ids, or the first id that
/// no group has.
pub open spec fn ref_indices(gs: Seq<Group>, ids: Seq<String>) -> Result<Seq<int>, Seq<char>>
    decreases ids.len(),
{
    if ids.len() == 0 {
        Ok(Seq::empty())
    } else {
        match ref_indices(gs, ids.drop_last()) {
            Err(e) => Err(e),
            Ok(s) => match group_index(gs, ids.last()@) {
                Some(k) => Ok(s.push(k)),
                None => Err(ids.last()@),
            },
        }
    }
}

/// How a turn for a Mixture-of-Agents group is set up: only chat
/// completions, never streamed; the group list must pass the aggregation
/// checks; the group's config must be enabled, name an aggregator, and
/// every group it names must exist.
pub open spec fn moa_plan(body: JsonValue, endpoint: Seq<char>, group: Group, groups: Seq<Group>) -> Result<(int, Seq<int>), MoaErrorView> {
    let alias = group.alias@;
    if endpoint != "chat/completions"@ {
        Err(MoaErrorView::BadRequest("Mixture of Agents groups only support /v1/chat/completions"@))
    } else if bool_of(get_member(body, "stream"@)) == Some(true) {
        Err(MoaErrorView::BadRequest("Mixture of Agents streaming is not supported yet; send stream:false"@))
    } else if groups_agg_error(groups, groups) is Some {
        Err(MoaErrorView::BadRequest(groups_agg_error(groups, groups).unwrap()))
    } else if !agg_enabled(group) {
        Err(MoaErrorView::Internal("group '"@ + alias + "' was routed as MoA without enabled aggregation config"@))
    } else {
        let c = group.aggregation_config.unwrap();
        match c.aggregator_group_id {
            None => Err(MoaErrorView::BadRequest("MoA group '"@ + alias + "' must have an aggregator group"@)),
            Some(aid) => match group_index(groups, aid@) {
                None => Err(
                    MoaErrorView::BadRequest("MoA group '"@ + alias + "' uses missing aggregator group id '"@ + aid@ + "'"@),
                ),
                Some(a) => match ref_indices(groups, c.reference_group_ids@) {
                    Err(rid) => Err(
                        MoaErrorView::BadRequest("MoA group '"@ + alias + "' references missing group id '"@ + rid + "'"@),
                    ),
                    Ok(rs) => Ok((a, rs)),
                },
            },
        }
    }
}

fn group_index_exec(gs: &[Group], id: &str) -> (r: Option<usize>)
    ensures
        match r {
            Some(k) => group_index(gs@, id@) == Some(k as int) && k < gs@.len(),
            None => group_index(gs@, id@) is None,
        },
{
    let mut i: usize = 0;
    assert(gs@.skip(0) =~= gs@);
    while i < gs.len()
        invariant
            i <= gs@.len(),
            forall|q: int| 0 <= q < i ==> gs@[q].id@ != id@,
        decreases gs.len() - i,
    {
        if str_eq(gs[i].id.as_str(), id) {
            proof {
                lemma_first_index_unique(gs@, group_has_id(id@), i as int);
            }
            return Some(i);
        }
        i = i + 1;
    }
    proof {
        lemma_first_index_none(gs@, group_has_id(id@));
    }
    None
}

/// Sets a turn up; see [`moa_plan`].
pub fn plan_moa(body: &JsonValue, endpoint: &str, group: &Group, groups: &[Group]) -> (r: Result<MoaPlan, MoaError>)
    ensures
        match moa_plan(*body, endpoint@, *group, groups@) {
            Ok((a, rs)) => r matches Ok(p) && p.aggregator == a && p.references@.len() == rs.len()
                && forall|k: int| 0 <= k < rs.len() ==> #[trigger] p.references@[k] == rs[k],
            Err(e) => r matches Err(x) && moa_error_view(x) == e,
        },
{
    if !str_eq(endpoint, "chat/completions") {
        return Err(MoaError::BadRequest(String::from_str("Mixture of Agents groups only support /v1/chat/completions")));
    }
    match as_bool(get(body, "stream")) {
        Some(true) => {
            return Err(MoaError::BadRequest(String::from_str("Mixture of Agents streaming is not supported yet; send stream:false")));
        },
        _ => {},
    }
    match validate_group_aggregation(groups) {
        Err(m) => {
            return Err(MoaError::BadRequest(m));
        },
        Ok(()) => {},
    }
    let alias = group.alias.as_str();
    let c = match &group.aggregation_config {
        Some(c) => {
            if c.enabled {
                c
            } else {
                return Err(MoaError::Internal(cat3("group '", alias, "' was routed as MoA without enabled aggregation config")));
            }
        },
        None => {
            return Err(MoaError::Internal(cat3("group '", alias, "' was routed as MoA without enabled aggregation config")));
        },
    };
    let aid = match &c.aggregator_group_id {
        Some(aid) => aid,
        None => {
            return Err(MoaError::BadRequest(cat3("MoA group '", alias, "' must have an aggregator group")));
        },
    };
    let a = match group_index_exec(groups, aid.as_str()) {
        Some(a) => a,
        None => {
            let head = cat3("MoA group '", alias, "' uses missing aggregator group id '");
            return Err(MoaError::BadRequest(cat3(head.as_str(), aid.as_str(), "'")));
        },
    };
    let ids = &c.reference_group_ids;
    let mut refs: Vec<usize> = Vec::new();
    let mut i: usize = 0;
    let ghost plan = match ref_indices(groups@, ids@) {
        Err(rid) => Err(MoaErrorView::BadRequest("MoA group '"@ + alias@ + "' references missing group id '"@ + rid + "'"@)),
        Ok(rs) => Ok((a as int, rs)),
    };
    assert(moa_plan(*body, endpoint@, *group, groups@) == plan);
    assert(ids@.take(0) =~= Seq::<String>::empty());
    assert(refs@.map_values(|k: usize| k as int) =~= Seq::<int>::empty());
    while i < ids.len()
        invariant
            i <= ids@.len(),
            moa_plan(*body, endpoint@, *group, groups@) == plan,
            plan == match ref_indices(groups@, ids@) {
                Err(rid) => Err(MoaErrorView::BadRequest("MoA group '"@ + alias@ + "' references missing group id '"@ + rid + "'"@)),
                Ok(rs) => Ok((a as int, rs)),
            },
            ref_indices(groups@, ids@.take(i as int)) == Ok::<Seq<int>, Seq<char>>(refs@.map_values(|k: usize| k as int)),
        decreases ids.len() - i,
    {
        proof {
            assert(ids@.take(i + 1).drop_last() =~= ids@.take(i as int));
            assert(ids@.take(i + 1).last() == ids@[i as int]);
        }
        match group_index_exec(groups, ids[i].as_str()) {
            Some(k) => {
                proof {
                    assert(refs@.push(k).map_values(|q: usize| q as int) =~= refs@.map_values(|q: usize| q as int).push(k as int));
                }
                refs.push(k);
            },
            None => {
                let head = cat3("MoA group '", alias, "' references missing group id '");
                proof {
                    lemma_ref_indices_stop(groups@, ids@, i as int);
                }
                return Err(MoaError::BadRequest(cat3(head.as_str(), ids[i].as_str(), "'")));
            },
        }
        i = i + 1;
    }
    assert(ids@.take(i as int) =~= ids@);
    proof {
        assert(forall|k: int| 0 <= k < refs@.len() ==> #[trigger] refs@[k] as int == refs@.map_values(|q: usize| q as int)[k]);
    }
    Ok(MoaPlan { aggregator: a, references: refs })
}

/// Once an id is missing, the ids after it do not matter.
proof fn lemma_ref_indices_stop(gs: Seq<Group>, ids: Seq<String>, i: int)
    requires
        0 <= i < ids.len(),
        ref_indices(gs, ids.take(i)) is Ok,
        group_index(gs, ids[i]@) is None,
    ensures
        ref_indices(gs, ids) == Err::<Seq<int>, Seq<char>>(ids[i]@),
    decreases ids.len() - i,
{
    if i + 1 == ids.len() {
        assert(ids.take(i + 1) =~= ids);
        assert(ids.drop_last() =~= ids.take(i));
    } else {
        assert(ids.drop_last().take(i) =~= ids.take(i));
        lemma_ref_indices_stop(gs, ids.drop_last(), i);
    }
}

/// What a reference group's HTTP answer gives: for a success, its parsed
/// JSON, or `group '<alias>' returned invalid JSON: <parse error>`; for
/// any other status, `group '<alias>' returned HTTP <code>: <body>` with
/// the (lossily decoded) body redacted. `None` where redacting the body
/// would cut a character in two, where the proxy panics.
pub fn reference_response_json(status: u16, bytes: &[u8], group_alias: &str) -> (r: Option<Result<JsonValue, String>>)
    ensures
        !is_success(status) ==> {
            let body = utf8_lossy(bytes@);
            &&& (r is None <==> !cut_on_boundary(redact_words(words(body), false), Seq::empty()))
            &&& (r matches Some(x) ==> x matches Err(m) && m@ == "group '"@ + group_alias@ + "' returned HTTP "@
                + decimal(status as nat) + ": "@ + sanitized_message(body))
        },
        is_success(status) ==> match json_parse_bytes(bytes@) {
            Ok(v) => r matches Some(Ok(x)) && x == v,
            Err(e) => r matches Some(Err(m)) && m@ == "group '"@ + group_alias@ + "' returned invalid JSON: "@ + e,
        },
{
    if status < 200 || status > 299 {
        let body = decode_lossy(bytes);
        let clean = match sanitize_checked(body.as_str()) {
            Some(c) => c,
            None => return None,
        };
        let mut out: Vec<char> = Vec::new();
        append_str(&mut out, "group '");
        append_str(&mut out, group_alias);
        append_str(&mut out, "' returned HTTP ");
        append_decimal(&mut out, status as u64);
        append_str(&mut out, ": ");
        append_str(&mut out, clean.as_str());
        return Some(Err(string_from_chars(&out)));
    }
    match parse_json_bytes(bytes) {
        Ok(v) => Some(Ok(v)),
        Err(e) => {
            let head = cat3("group '", group_alias, "' returned invalid JSON: ");
            Some(Err(cat(head.as_str(), e.as_str())))
        },
    }
}

} // verus!
