//! A JSON document model, its compact text (arrays and objects framed as
//! JSON's grammar writes them, string literals written by
//! `serde_json::to_string`), and parsing of JSON text through `serde_json`.
//!
//! Objects keep their members in order; an object parsed from text holds
//! them in the order `serde_json`'s map yields them.

use vstd::prelude::*;
use crate::text::{decimal, append_decimal, chars_of};

verus! {

/// A JSON number: a non-negative integer, a negative integer, or any other
/// number as the text `serde_json` writes for it.
#[derive(Clone, Debug, PartialEq, Eq)]
pub enum JsonNumber {
    PosInt(u64),
    NegInt(i64),
    Float(String),
}

/// A copy of a number.
pub fn copy_number(n: &JsonNumber) -> (r: JsonNumber)
    ensures
        r == *n,
{
    match n {
        JsonNumber::PosInt(u) => JsonNumber::PosInt(*u),
        JsonNumber::NegInt(i) => JsonNumber::NegInt(*i),
        JsonNumber::Float(t) => JsonNumber::Float(t.clone()),
    }
}

/// A JSON value.
#[derive(Debug)]
pub enum JsonValue {
    Null,
    Bool(bool),
    Number(JsonNumber),
    Str(String),
    Array(Vec<JsonValue>),
    Object(Vec<(String, JsonValue)>),
}

#[verifier::external_type_specification]
#[verifier::external_body]
pub struct ExSerdeJsonValue(serde_json::Value);

/// What `serde_json::from_str::<serde_json::Value>` makes of a text, as a
/// [`JsonValue`]; `None` when the text is not JSON.
pub uninterp spec fn json_parse(text: Seq<char>) -> Option<JsonValue>;

#[verifier::external_type_specification]
#[verifier::external_body]
pub struct ExSerdeJsonNumber(serde_json::Number);

/// Converts a `serde_json::Number`: an integer that fits `u64` or `i64`
/// stays an integer, any other number keeps the text `serde_json` writes
/// for it. Nothing is stated of the result.
#[verifier::external_body]
fn number_from_serde(n: &serde_json::Number) -> JsonNumber {
    match (n.as_u64(), n.as_i64()) {
        (Some(u), _) => JsonNumber::PosInt(u),
        (None, Some(i)) => JsonNumber::NegInt(i),
        (None, None) => JsonNumber::Float(n.to_string()),
    }
}

/// Converts a `serde_json::Value` into a [`JsonValue`], variant by variant:
/// integers that fit `u64` or `i64` stay integers, other numbers keep the
/// text `serde_json` writes for them, and object members keep the order of
/// `serde_json`'s map. Nothing is stated of the result.
#[verifier::external_body]
fn json_from_serde(v: &serde_json::Value) -> JsonValue {
    match v {
        serde_json::Value::Null => JsonValue::Null,
        serde_json::Value::Bool(b) => JsonValue::Bool(*b),
        serde_json::Value::Number(n) => JsonValue::Number(number_from_serde(n)),
        serde_json::Value::String(s) => JsonValue::Str(s.clone()),
        serde_json::Value::Array(a) => JsonValue::Array(a.iter().map(json_from_serde).collect()),
        serde_json::Value::Object(m) => JsonValue::Object(m.iter().map(|(k, x)| (k.clone(), json_from_serde(x))).collect()),
    }
}

/// Parses JSON text with `serde_json::from_str`; the result is named
/// [`json_parse`] of the text (what JSON a text denotes is not stated here).
#[verifier::external_body]
pub fn parse_json(text: &str) -> (r: Option<JsonValue>)
    ensures
        r == json_parse(text@),
{
    match serde_json::from_str::<serde_json::Value>(text) {
        Ok(v) => Some(json_from_serde(&v)),
        Err(_) => None,
    }
}

/// What `serde_json::from_slice::<serde_json::Value>` makes of bytes: the
/// value as a [`JsonValue`], or the text its error displays when the bytes
/// are not UTF-8 JSON text.
pub uninterp spec fn json_parse_bytes(bytes: Seq<u8>) -> Result<JsonValue, Seq<char>>;

/// Parses JSON bytes with `serde_json::from_slice`; the result is named
/// [`json_parse_bytes`] of the bytes.
#[verifier::external_body]
pub fn parse_json_bytes(bytes: &[u8]) -> (r: Result<JsonValue, String>)
    ensures
        match r {
            Ok(v) => json_parse_bytes(bytes@) == Ok::<JsonValue, Seq<char>>(v),
            Err(e) => json_parse_bytes(bytes@) == Err::<JsonValue, Seq<char>>(e@),
        },
{
    match serde_json::from_slice::<serde_json::Value>(bytes) {
        Ok(v) => Ok(json_from_serde(&v)),
        Err(e) => Err(e.to_string()),
    }
}

// ---------------------------------------------------------------------------
// Reading values
// ---------------------------------------------------------------------------

/// The first member of an object with the given key; `None` for a missing
/// key or a value that is not an object.
pub open spec fn get_member(v: JsonValue, key: Seq<char>) -> Option<JsonValue> {
    match v {
        JsonValue::Object(m) => member_of(m@, key),
        _ => None,
    }
}

pub open spec fn member_of(m: Seq<(String, JsonValue)>, key: Seq<char>) -> Option<JsonValue>
    decreases m.len(),
{
    if m.len() == 0 {
        None
    } else if m[0].0@ == key {
        Some(m[0].1)
    } else {
        member_of(m.drop_first(), key)
    }
}

/// The value behind an optional reference.
pub open spec fn deref_opt(v: Option<&JsonValue>) -> Option<JsonValue> {
    match v {
        Some(x) => Some(*x),
        None => None,
    }
}

/// The text of a string value.
pub open spec fn str_of(v: Option<JsonValue>) -> Option<Seq<char>> {
    match v {
        Some(JsonValue::Str(s)) => Some(s@),
        _ => None,
    }
}

/// The value of a boolean.
pub open spec fn bool_of(v: Option<JsonValue>) -> Option<bool> {
    match v {
        Some(JsonValue::Bool(b)) => Some(b),
        _ => None,
    }
}

/// The value of a non-negative integer.
pub open spec fn u64_of(v: Option<JsonValue>) -> Option<u64> {
    match v {
        Some(JsonValue::Number(JsonNumber::PosInt(n))) => Some(n),
        _ => None,
    }
}

/// Looks up a member of an object value.
pub fn get<'a>(v: &'a JsonValue, key: &str) -> (r: Option<&'a JsonValue>)
    ensures
        match r {
            Some(x) => get_member(*v, key@) == Some(*x),
            None => get_member(*v, key@) is None,
        },
{
    match v {
        JsonValue::Object(m) => {
            let mut i: usize = 0;
            assert(m@.skip(0) =~= m@);
            while i < m.len()
                invariant
                    i <= m@.len(),
                    get_member(*v, key@) == member_of(m@, key@),
                    member_of(m@, key@) == member_of(m@.skip(i as int), key@),
                decreases m.len() - i,
            {
                assert(m@.skip(i as int).drop_first() =~= m@.skip(i + 1));
                if crate::text::str_eq(m[i].0.as_str(), key) {
                    return Some(&m[i].1);
                }
                i = i + 1;
            }
            assert(m@.skip(i as int) =~= Seq::<(String, JsonValue)>::empty());
            None
        },
        _ => None,
    }
}

/// The text of a string value.
pub fn as_str<'a>(v: Option<&'a JsonValue>) -> (r: Option<&'a str>)
    ensures
        match r {
            Some(s) => str_of(deref_opt(v)) == Some(s@),
            None => str_of(deref_opt(v)) is None,
        },
{
    match v {
        Some(JsonValue::Str(s)) => Some(s.as_str()),
        _ => None,
    }
}

/// The value of a boolean.
pub fn as_bool(v: Option<&JsonValue>) -> (r: Option<bool>)
    ensures
        r == bool_of(deref_opt(v)),
{
    match v {
        Some(JsonValue::Bool(b)) => Some(*b),
        _ => None,
    }
}

/// The value of a non-negative integer.
pub fn as_u64(v: Option<&JsonValue>) -> (r: Option<u64>)
    ensures
        r == u64_of(deref_opt(v)),
{
    match v {
        Some(JsonValue::Number(JsonNumber::PosInt(n))) => Some(*n),
        _ => None,
    }
}

// ---------------------------------------------------------------------------
// Writing text
// ---------------------------------------------------------------------------

/// The string literal `serde_json::to_string` writes for a text: the text
/// between double quotes, with the characters JSON requires escaped in
/// `serde_json`'s way.
pub uninterp spec fn json_string_literal(s: Seq<char>) -> Seq<char>;

/// A string literal of a text (see [`json_string_literal`]).
pub open spec fn quoted(s: Seq<char>) -> Seq<char> {
    json_string_literal(s)
}

/// Writes a text as a JSON string literal with `serde_json::to_string`; the
/// result is named [`json_string_literal`] of the text.
#[verifier::external_body]
fn serde_string_literal(s: &str) -> (r: String)
    ensures
        r@ == json_string_literal(s@),
{
    match serde_json::to_string(s) {
        Ok(t) => t,
        Err(_) => String::new(),
    }
}

pub open spec fn number_text(n: JsonNumber) -> Seq<char> {
    match n {
        JsonNumber::PosInt(u) => decimal(u as nat),
        JsonNumber::NegInt(i) => if i < 0 {
            seq!['-'] + decimal((-i) as nat)
        } else {
            decimal(i as nat)
        },
        JsonNumber::Float(t) => t@,
    }
}

/// The compact text of a value, as `serde_json::to_string` writes it.
pub open spec fn json_text(v: JsonValue) -> Seq<char>
    decreases v,
{
    match v {
        JsonValue::Null => seq!['n', 'u', 'l', 'l'],
        JsonValue::Bool(b) => if b {
            seq!['t', 'r', 'u', 'e']
        } else {
            seq!['f', 'a', 'l', 's', 'e']
        },
        JsonValue::Number(n) => number_text(n),
        JsonValue::Str(s) => quoted(s@),
        JsonValue::Array(items) => seq!['['] + items_text(items@) + seq![']'],
        JsonValue::Object(members) => seq!['{'] + members_text(members@) + seq!['}'],
    }
}

/// Array elements separated by commas.
pub open spec fn items_text(items: Seq<JsonValue>) -> Seq<char>
    decreases items,
{
    if items.len() == 0 {
        Seq::empty()
    } else if items.len() == 1 {
        json_text(items[0])
    } else {
        items_text(items.subrange(0, items.len() - 1)) + seq![','] + json_text(items[items.len() - 1])
    }
}

/// Object members `"key":value` separated by commas.
pub open spec fn members_text(members: Seq<(String, JsonValue)>) -> Seq<char>
    decreases members,
{
    if members.len() == 0 {
        Seq::empty()
    } else if members.len() == 1 {
        quoted(members[0].0@) + seq![':'] + json_text(members[0].1)
    } else {
        members_text(members.subrange(0, members.len() - 1)) + seq![','] + quoted(
            members[members.len() - 1].0@,
        ) + seq![':'] + json_text(members[members.len() - 1].1)
    }
}

/// Appends a string literal.
pub fn push_quoted(out: &mut Vec<char>, s: &str)
    ensures
        final(out)@ == old(out)@ + quoted(s@),
{
    let q = serde_string_literal(s);
    crate::text::append_str(out, q.as_str());
}

fn push_number(out: &mut Vec<char>, n: &JsonNumber)
    ensures
        final(out)@ == old(out)@ + number_text(*n),
{
    match n {
        JsonNumber::PosInt(u) => append_decimal(out, *u),
        JsonNumber::NegInt(i) => {
            if *i < 0 {
                out.push('-');
                let m: u64 = if *i == i64::MIN {
                    9223372036854775808u64
                } else {
                    (-*i) as u64
                };
                append_decimal(out, m);
                assert(out@ =~= old(out)@ + number_text(*n));
            } else {
                append_decimal(out, *i as u64);
            }
        },
        JsonNumber::Float(t) => crate::text::append_str(out, t.as_str()),
    }
}

/// Appends array elements separated by commas.
pub fn write_items(out: &mut Vec<char>, items: &Vec<JsonValue>)
    ensures
        final(out)@ == old(out)@ + items_text(items@),
    decreases items,
{
    let ghost start = out@;
    let mut i: usize = 0;
    while i < items.len()
        invariant
            i <= items@.len(),
            out@ == start + items_text(items@.subrange(0, i as int)),
        decreases items.len() - i,
    {
        proof {
            assert(decreases_to!(*items => items@));
            assert(decreases_to!(items@ => items@[i as int]));
        }
        if i > 0 {
            out.push(',');
        }
        write_json(out, &items[i]);
        proof {
            let t = items@.subrange(0, i + 1);
            assert(t.subrange(0, i as int) =~= items@.subrange(0, i as int));
            assert(t[i as int] == items@[i as int]);
            if i == 0 {
                assert(items@.subrange(0, 0) =~= Seq::<JsonValue>::empty());
            }
        }
        i = i + 1;
    }
    assert(items@.subrange(0, i as int) =~= items@);
}

/// Appends object members separated by commas.
pub fn write_members(out: &mut Vec<char>, members: &Vec<(String, JsonValue)>)
    ensures
        final(out)@ == old(out)@ + members_text(members@),
    decreases members,
{
    let ghost start = out@;
    let mut i: usize = 0;
    while i < members.len()
        invariant
            i <= members@.len(),
            out@ == start + members_text(members@.subrange(0, i as int)),
        decreases members.len() - i,
    {
        proof {
            assert(decreases_to!(*members => members@));
            assert(decreases_to!(members@ => members@[i as int]));
            assert(decreases_to!(members@[i as int] => members@[i as int].1));
        }
        if i > 0 {
            out.push(',');
        }
        push_quoted(out, members[i].0.as_str());
        out.push(':');
        write_json(out, &members[i].1);
        proof {
            let t = members@.subrange(0, i + 1);
            assert(t.subrange(0, i as int) =~= members@.subrange(0, i as int));
            assert(t[i as int] == members@[i as int]);
            if i == 0 {
                assert(members@.subrange(0, 0) =~= Seq::<(String, JsonValue)>::empty());
            }
        }
        i = i + 1;
    }
    assert(members@.subrange(0, i as int) =~= members@);
}

/// Appends the compact text of a value.
pub fn write_json(out: &mut Vec<char>, v: &JsonValue)
    ensures
        final(out)@ == old(out)@ + json_text(*v),
    decreases v,
{
    match v {
        JsonValue::Null => {
            out.push('n');
            out.push('u');
            out.push('l');
            out.push('l');
            assert(out@ =~= old(out)@ + json_text(*v));
        },
        JsonValue::Bool(b) => {
            if *b {
                out.push('t');
                out.push('r');
                out.push('u');
                out.push('e');
            } else {
                out.push('f');
                out.push('a');
                out.push('l');
                out.push('s');
                out.push('e');
            }
            assert(out@ =~= old(out)@ + json_text(*v));
        },
        JsonValue::Number(n) => push_number(out, n),
        JsonValue::Str(s) => push_quoted(out, s.as_str()),
        JsonValue::Array(items) => {
            out.push('[');
            write_items(out, items);
            out.push(']');
            assert(out@ =~= old(out)@ + json_text(*v));
        },
        JsonValue::Object(members) => {
            out.push('{');
            write_members(out, members);
            out.push('}');
            assert(out@ =~= old(out)@ + json_text(*v));
        },
    }
}

/// The compact text of a value, as `serde_json::to_string` writes it.
pub fn to_json_string(v: &JsonValue) -> (r: String)
    ensures
        r@ == json_text(*v),
{
    let mut out: Vec<char> = Vec::new();
    write_json(&mut out, v);
    assert(out@ =~= json_text(*v));
    crate::text::string_from_chars(&out)
}

} // verus!
