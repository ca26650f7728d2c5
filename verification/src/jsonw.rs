//! Building compact JSON text from pieces: members `"key":value`, objects
//! and arrays, written as `serde_json` writes them.

use vstd::prelude::*;
use crate::json::{quoted, push_quoted};
use crate::text::{append_str, string_from_chars};
use crate::translator::join;

verus! {

/// The texts of a list of strings.
pub open spec fn strs_view(v: Seq<String>) -> Seq<Seq<char>> {
    v.map_values(|s: String| s@)
}

/// A member `"key":value`.
pub open spec fn kv(k: Seq<char>, v: Seq<char>) -> Seq<char> {
    quoted(k) + ":"@ + v
}

/// An object of members (given in the order they are written).
pub open spec fn obj(members: Seq<Seq<char>>) -> Seq<char> {
    "{"@ + join(members, ","@) + "}"@
}

/// An array of item texts.
pub open spec fn arr(items: Seq<Seq<char>>) -> Seq<char> {
    "["@ + join(items, ","@) + "]"@
}

/// A member when there is a value, none otherwise.
pub open spec fn opt_kv(k: Seq<char>, v: Option<Seq<char>>) -> Seq<Seq<char>> {
    match v {
        Some(x) => seq![kv(k, x)],
        None => Seq::empty(),
    }
}

/// The text of a boolean.
pub open spec fn bool_text(b: bool) -> Seq<char> {
    if b {
        "true"@
    } else {
        "false"@
    }
}

/// Appends texts joined by a separator.
pub fn push_joined(out: &mut Vec<char>, parts: &Vec<String>, sep: &str)
    ensures
        final(out)@ == old(out)@ + join(strs_view(parts@), sep@),
{
    let ghost start = out@;
    let mut i: usize = 0;
    while i < parts.len()
        invariant
            i <= parts@.len(),
            out@ == start + join(strs_view(parts@.take(i as int)), sep@),
        decreases parts.len() - i,
    {
        let ghost before = out@;
        if i > 0 {
            append_str(out, sep);
        }
        append_str(out, parts[i].as_str());
        proof {
            let t = strs_view(parts@.take(i + 1));
            assert(t.drop_last() =~= strs_view(parts@.take(i as int)));
            assert(t.last() == parts@[i as int]@);
            if i == 0 {
                assert(strs_view(parts@.take(0)) =~= Seq::<Seq<char>>::empty());
                assert(t.len() == 1);
                assert(out@ =~= start + t[0]);
            } else {
                assert(out@ =~= start + join(strs_view(parts@.take(i as int)), sep@) + sep@ + t.last());
            }
        }
        i = i + 1;
    }
    assert(parts@.take(i as int) =~= parts@);
}

/// An object from member texts.
pub fn obj_of(members: &Vec<String>) -> (r: String)
    ensures
        r@ == obj(strs_view(members@)),
{
    let mut out: Vec<char> = Vec::new();
    append_str(&mut out, "{");
    push_joined(&mut out, members, ",");
    append_str(&mut out, "}");
    string_from_chars(&out)
}

/// An array from item texts.
pub fn arr_of(items: &Vec<String>) -> (r: String)
    ensures
        r@ == arr(strs_view(items@)),
{
    let mut out: Vec<char> = Vec::new();
    append_str(&mut out, "[");
    push_joined(&mut out, items, ",");
    append_str(&mut out, "]");
    string_from_chars(&out)
}

/// A member from a key and a value text.
pub fn kv_of(k: &str, v: &str) -> (r: String)
    ensures
        r@ == kv(k@, v@),
{
    let mut out: Vec<char> = Vec::new();
    push_quoted(&mut out, k);
    append_str(&mut out, ":");
    append_str(&mut out, v);
    string_from_chars(&out)
}

/// A string literal.
pub fn quote(s: &str) -> (r: String)
    ensures
        r@ == quoted(s@),
{
    let mut out: Vec<char> = Vec::new();
    push_quoted(&mut out, s);
    string_from_chars(&out)
}

/// A member whose value is a string literal.
pub fn kv_str(k: &str, s: &str) -> (r: String)
    ensures
        r@ == kv(k@, quoted(s@)),
{
    let q = quote(s);
    kv_of(k, q.as_str())
}

/// Appends a string to a list, keeping the texts in step.
pub fn push_str_item(v: &mut Vec<String>, s: String)
    ensures
        strs_view(final(v)@) == strs_view(old(v)@).push(s@),
{
    let ghost s_view = s@;
    v.push(s);
    assert(strs_view(v@) =~= strs_view(old(v)@).push(s_view));
}

/// Appends a member when there is a value.
pub fn push_opt_kv(v: &mut Vec<String>, k: &str, val: Option<String>)
    ensures
        strs_view(final(v)@) == strs_view(old(v)@) + opt_kv(
            k@,
            match val {
                Some(x) => Some(x@),
                None => None,
            },
        ),
{
    match val {
        Some(x) => {
            let m = kv_of(k, x.as_str());
            push_str_item(v, m);
            assert(strs_view(v@) =~= strs_view(old(v)@) + seq![kv(k@, x@)]);
        },
        None => {
            assert(strs_view(v@) =~= strs_view(old(v)@) + Seq::<Seq<char>>::empty());
        },
    }
}

} // verus!
