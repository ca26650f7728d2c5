//! JSON documents as mathematical values: the model of a [`JsonValue`],
//! edits of objects as `serde_json`'s sorted maps make them, and the pretty
//! text `serde_json::to_string_pretty` writes.

use vstd::prelude::*;
use crate::json::{JsonValue, JsonNumber, number_text, quoted, push_quoted};
use crate::text::{append_str, str_eq, decimal};
use crate::codex_stream::key_lt;

verus! {

/// A JSON document with texts as character sequences.
pub enum JsonModel {
    Null,
    Bool(bool),
    Num(Seq<char>),
    Str(Seq<char>),
    Arr(Seq<JsonModel>),
    Obj(Seq<(Seq<char>, JsonModel)>),
}

/// The model of a value.
pub open spec fn model_of(v: JsonValue) -> JsonModel
    decreases v,
{
    match v {
        JsonValue::Null => JsonModel::Null,
        JsonValue::Bool(b) => JsonModel::Bool(b),
        JsonValue::Number(n) => JsonModel::Num(number_text(n)),
        JsonValue::Str(s) => JsonModel::Str(s@),
        JsonValue::Array(items) => JsonModel::Arr(model_items(items@)),
        JsonValue::Object(members) => JsonModel::Obj(model_members(members@)),
    }
}

/// The models of array items.
pub open spec fn model_items(items: Seq<JsonValue>) -> Seq<JsonModel>
    decreases items,
{
    if items.len() == 0 {
        Seq::empty()
    } else {
        model_items(items.subrange(0, items.len() - 1)).push(model_of(items[items.len() - 1]))
    }
}

/// The models of object members.
pub open spec fn model_members(members: Seq<(String, JsonValue)>) -> Seq<(Seq<char>, JsonModel)>
    decreases members,
{
    if members.len() == 0 {
        Seq::empty()
    } else {
        model_members(members.subrange(0, members.len() - 1)).push(
            (members[members.len() - 1].0@, model_of(members[members.len() - 1].1)),
        )
    }
}

pub proof fn lemma_model_members(s: Seq<(String, JsonValue)>)
    ensures
        model_members(s).len() == s.len(),
        forall|i: int| 0 <= i < s.len() ==> #[trigger] model_members(s)[i] == (s[i].0@, model_of(s[i].1)),
    decreases s.len(),
{
    if s.len() > 0 {
        let t = s.subrange(0, s.len() - 1);
        lemma_model_members(t);
        assert forall|i: int| 0 <= i < s.len() implies #[trigger] model_members(s)[i] == (s[i].0@, model_of(s[i].1)) by {
            if i < s.len() - 1 {
                assert(t[i] == s[i]);
            }
        }
    }
}

pub proof fn lemma_model_items(s: Seq<JsonValue>)
    ensures
        model_items(s).len() == s.len(),
        forall|i: int| 0 <= i < s.len() ==> #[trigger] model_items(s)[i] == model_of(s[i]),
    decreases s.len(),
{
    if s.len() > 0 {
        let t = s.subrange(0, s.len() - 1);
        lemma_model_items(t);
        assert forall|i: int| 0 <= i < s.len() implies #[trigger] model_items(s)[i] == model_of(s[i]) by {
            if i < s.len() - 1 {
                assert(t[i] == s[i]);
            }
        }
    }
}

/// The model of a non-negative integer.
pub open spec fn num(n: u64) -> JsonModel {
    JsonModel::Num(decimal(n as nat))
}

/// A string value.
pub fn jstr(s: &str) -> (r: JsonValue)
    ensures
        model_of(r) == JsonModel::Str(s@),
{
    JsonValue::Str(String::from_str(s))
}

/// A non-negative integer value.
pub fn jnum(n: u64) -> (r: JsonValue)
    ensures
        model_of(r) == num(n),
{
    JsonValue::Number(JsonNumber::PosInt(n))
}

/// An object with one member.
pub fn jobj1(k: &str, v: JsonValue) -> (r: JsonValue)
    ensures
        model_of(r) == JsonModel::Obj(seq![(k@, model_of(v))]),
{
    let ghost vm = model_of(v);
    let mut m: Vec<(String, JsonValue)> = Vec::new();
    m.push((String::from_str(k), v));
    proof {
        lemma_model_members(m@);
        assert(model_members(m@) =~= seq![(k@, vm)]);
    }
    JsonValue::Object(m)
}

/// An object with two members.
pub fn jobj2(k1: &str, v1: JsonValue, k2: &str, v2: JsonValue) -> (r: JsonValue)
    ensures
        model_of(r) == JsonModel::Obj(seq![(k1@, model_of(v1)), (k2@, model_of(v2))]),
{
    let ghost m1 = model_of(v1);
    let ghost m2 = model_of(v2);
    let mut m: Vec<(String, JsonValue)> = Vec::new();
    m.push((String::from_str(k1), v1));
    m.push((String::from_str(k2), v2));
    proof {
        lemma_model_members(m@);
        assert(model_members(m@) =~= seq![(k1@, m1), (k2@, m2)]);
    }
    JsonValue::Object(m)
}

/// A copy of a value.
pub fn copy_value(v: &JsonValue) -> (r: JsonValue)
    ensures
        model_of(r) == model_of(*v),
    decreases v, 0nat,
{
    match v {
        JsonValue::Null => JsonValue::Null,
        JsonValue::Bool(b) => JsonValue::Bool(*b),
        JsonValue::Number(n) => JsonValue::Number(crate::json::copy_number(n)),
        JsonValue::Str(s) => JsonValue::Str(s.clone()),
        JsonValue::Array(items) => JsonValue::Array(copy_items(items)),
        JsonValue::Object(members) => JsonValue::Object(copy_members(members)),
    }
}

/// A copy of array items.
pub fn copy_items(items: &Vec<JsonValue>) -> (r: Vec<JsonValue>)
    ensures
        model_items(r@) == model_items(items@),
    decreases items, 1nat,
{
    let mut out: Vec<JsonValue> = Vec::new();
    let mut i: usize = 0;
    while i < items.len()
        invariant
            i <= items@.len(),
            model_items(out@) == model_items(items@.take(i as int)),
        decreases items.len() - i,
    {
        proof {
            assert(decreases_to!(*items => items@));
            assert(decreases_to!(items@ => items@[i as int]));
        }
        let c = copy_value(&items[i]);
        proof {
            assert(out@.push(c).subrange(0, out@.len() as int) =~= out@);
            let t = items@.take(i + 1);
            assert(t.subrange(0, i as int) =~= items@.take(i as int));
        }
        out.push(c);
        i = i + 1;
    }
    assert(items@.take(i as int) =~= items@);
    out
}

/// A copy of object members.
pub fn copy_members(members: &Vec<(String, JsonValue)>) -> (r: Vec<(String, JsonValue)>)
    ensures
        model_members(r@) == model_members(members@),
    decreases members, 1nat,
{
    let mut out: Vec<(String, JsonValue)> = Vec::new();
    let mut i: usize = 0;
    while i < members.len()
        invariant
            i <= members@.len(),
            model_members(out@) == model_members(members@.take(i as int)),
        decreases members.len() - i,
    {
        proof {
            assert(decreases_to!(*members => members@));
            assert(decreases_to!(members@ => members@[i as int]));
            assert(decreases_to!(members@[i as int] => members@[i as int].1));
        }
        let c = copy_value(&members[i].1);
        let k = members[i].0.clone();
        proof {
            assert(out@.push((k, c)).subrange(0, out@.len() as int) =~= out@);
            let t = members@.take(i + 1);
            assert(t.subrange(0, i as int) =~= members@.take(i as int));
        }
        out.push((k, c));
        i = i + 1;
    }
    assert(members@.take(i as int) =~= members@);
    out
}

// ---------------------------------------------------------------------------
// Object edits
// ---------------------------------------------------------------------------

/// The position of the first member with a key.
pub open spec fn m_index(ms: Seq<(Seq<char>, JsonModel)>, k: Seq<char>) -> Option<int> {
    crate::seqs::first_index(ms, key_pred(k))
}

/// Whether a member has a key.
pub open spec fn key_pred(k: Seq<char>) -> spec_fn((Seq<char>, JsonModel)) -> bool {
    |p: (Seq<char>, JsonModel)| p.0 == k
}

/// Whether a member's key orders after a key.
pub open spec fn after_pred(k: Seq<char>) -> spec_fn((Seq<char>, JsonModel)) -> bool {
    |p: (Seq<char>, JsonModel)| key_lt(k, p.0)
}

/// The value of a key.
pub open spec fn m_get(ms: Seq<(Seq<char>, JsonModel)>, k: Seq<char>) -> Option<JsonModel> {
    match m_index(ms, k) {
        Some(i) => Some(ms[i].1),
        None => None,
    }
}

/// Where a new key goes: before the first key that orders after it.
pub open spec fn m_slot(ms: Seq<(Seq<char>, JsonModel)>, k: Seq<char>) -> int {
    match crate::seqs::first_index(ms, after_pred(k)) {
        Some(i) => i,
        None => ms.len() as int,
    }
}

/// A key set to a value, as a sorted map sets it: in place when the key is
/// there, in key order otherwise.
pub open spec fn m_set(ms: Seq<(Seq<char>, JsonModel)>, k: Seq<char>, v: JsonModel) -> Seq<(Seq<char>, JsonModel)> {
    match m_index(ms, k) {
        Some(i) => ms.update(i, (k, v)),
        None => ms.insert(m_slot(ms, k), (k, v)),
    }
}

/// A key removed.
pub open spec fn m_remove(ms: Seq<(Seq<char>, JsonModel)>, k: Seq<char>) -> Seq<(Seq<char>, JsonModel)> {
    match m_index(ms, k) {
        Some(i) => ms.remove(i),
        None => ms,
    }
}

/// Reading a key just set gives the value set.
pub proof fn lemma_get_set_same(ms: Seq<(Seq<char>, JsonModel)>, k: Seq<char>, v: JsonModel)
    ensures
        m_get(m_set(ms, k, v), k) == Some(v),
{
    let p = key_pred(k);
    crate::seqs::lemma_first_index_spec(ms, p);
    match m_index(ms, k) {
        Some(i) => {
            let r = ms.update(i, (k, v));
            assert forall|j: int| 0 <= j < i implies !p(#[trigger] r[j]) by {
                assert(r[j] == ms[j]);
            }
            crate::seqs::lemma_first_index_unique(r, p, i);
        },
        None => {
            let lt = after_pred(k);
            crate::seqs::lemma_first_index_spec(ms, lt);
            let s = m_slot(ms, k);
            assert(0 <= s <= ms.len());
            let r = ms.insert(s, (k, v));
            assert forall|j: int| 0 <= j < s implies !p(#[trigger] r[j]) by {
                assert(r[j] == ms[j]);
            }
            assert(r[s] == (k, v));
            crate::seqs::lemma_first_index_unique(r, p, s);
        },
    }
}

/// Setting a key leaves the values of other keys.
pub proof fn lemma_get_set_other(ms: Seq<(Seq<char>, JsonModel)>, k: Seq<char>, v: JsonModel, k2: Seq<char>)
    requires
        k2 != k,
    ensures
        m_get(m_set(ms, k, v), k2) == m_get(ms, k2),
{
    let p = key_pred(k);
    let p2 = key_pred(k2);
    crate::seqs::lemma_first_index_spec(ms, p);
    crate::seqs::lemma_first_index_spec(ms, p2);
    match m_index(ms, k) {
        Some(i) => {
            let r = ms.update(i, (k, v));
            match m_index(ms, k2) {
                Some(j) => {
                    assert forall|q: int| 0 <= q < j implies !p2(#[trigger] r[q]) by {
                        if q != i {
                            assert(r[q] == ms[q]);
                        }
                    }
                    assert(j != i);
                    assert(r[j] == ms[j]);
                    crate::seqs::lemma_first_index_unique(r, p2, j);
                },
                None => {
                    assert forall|q: int| 0 <= q < r.len() implies !p2(#[trigger] r[q]) by {
                        if q != i {
                            assert(r[q] == ms[q]);
                        }
                    }
                    crate::seqs::lemma_first_index_none(r, p2);
                },
            }
        },
        None => {
            let lt = after_pred(k);
            crate::seqs::lemma_first_index_spec(ms, lt);
            let s = m_slot(ms, k);
            assert(0 <= s <= ms.len());
            let r = ms.insert(s, (k, v));
            match m_index(ms, k2) {
                Some(j) => {
                    if j < s {
                        assert forall|q: int| 0 <= q < j implies !p2(#[trigger] r[q]) by {
                            assert(r[q] == ms[q]);
                        }
                        assert(r[j] == ms[j]);
                        crate::seqs::lemma_first_index_unique(r, p2, j);
                    } else {
                        assert forall|q: int| 0 <= q < j + 1 implies !p2(#[trigger] r[q]) by {
                            if q < s {
                                assert(r[q] == ms[q]);
                            } else if q > s {
                                assert(r[q] == ms[q - 1]);
                            }
                        }
                        assert(r[j + 1] == ms[j]);
                        crate::seqs::lemma_first_index_unique(r, p2, j + 1);
                    }
                },
                None => {
                    assert forall|q: int| 0 <= q < r.len() implies !p2(#[trigger] r[q]) by {
                        if q < s {
                            assert(r[q] == ms[q]);
                        } else if q > s {
                            assert(r[q] == ms[q - 1]);
                        }
                    }
                    crate::seqs::lemma_first_index_none(r, p2);
                },
            }
        },
    }
}

/// The position of the first member with a key.
pub fn member_index(members: &Vec<(String, JsonValue)>, key: &str) -> (r: Option<usize>)
    ensures
        r matches Some(i) ==> i < members@.len() && m_index(model_members(members@), key@) == Some(i as int)
            && members@[i as int].0@ == key@,
        r is None ==> m_index(model_members(members@), key@) is None,
{
    proof {
        lemma_model_members(members@);
    }
    let ghost ms = model_members(members@);
    let mut i: usize = 0;
    while i < members.len()
        invariant
            i <= members@.len(),
            ms == model_members(members@),
            ms.len() == members@.len(),
            forall|j: int| 0 <= j < members@.len() ==> #[trigger] ms[j] == (members@[j].0@, model_of(members@[j].1)),
            forall|j: int| 0 <= j < i ==> (#[trigger] ms[j]).0 != key@,
        decreases members.len() - i,
    {
        if str_eq(members[i].0.as_str(), key) {
            proof {
                crate::seqs::lemma_first_index_unique(ms, |p: (Seq<char>, JsonModel)| p.0 == key@, i as int);
            }
            return Some(i);
        }
        i = i + 1;
    }
    proof {
        crate::seqs::lemma_first_index_none(ms, |p: (Seq<char>, JsonModel)| p.0 == key@);
    }
    None
}

fn member_slot(members: &Vec<(String, JsonValue)>, key: &str) -> (r: usize)
    ensures
        r as int == m_slot(model_members(members@), key@),
        r <= members@.len(),
{
    proof {
        lemma_model_members(members@);
    }
    let ghost ms = model_members(members@);
    let kc = crate::text::chars_of(key);
    let mut i: usize = 0;
    while i < members.len() && !crate::codex_stream::key_less(&kc, &crate::text::chars_of(members[i].0.as_str()))
        invariant
            i <= members@.len(),
            kc@ == key@,
            ms == model_members(members@),
            ms.len() == members@.len(),
            forall|j: int| 0 <= j < members@.len() ==> #[trigger] ms[j] == (members@[j].0@, model_of(members@[j].1)),
            forall|j: int| 0 <= j < i ==> !key_lt(key@, (#[trigger] ms[j]).0),
        decreases members.len() - i,
    {
        i = i + 1;
    }
    proof {
        if i < members@.len() {
            crate::seqs::lemma_first_index_unique(ms, |p: (Seq<char>, JsonModel)| key_lt(key@, p.0), i as int);
        } else {
            crate::seqs::lemma_first_index_none(ms, |p: (Seq<char>, JsonModel)| key_lt(key@, p.0));
        }
    }
    i
}

/// Sets a key of an object; see [`m_set`].
pub fn obj_set(members: &mut Vec<(String, JsonValue)>, key: String, value: JsonValue)
    ensures
        model_members(final(members)@) == m_set(model_members(old(members)@), key@, model_of(value)),
{
    let ghost kv = key@;
    let ghost vm = model_of(value);
    let ghost pair = (key, value);
    match member_index(members, key.as_str()) {
        Some(i) => {
            members.remove(i);
            members.insert(i, (key, value));
            proof {
                assert(members@ =~= old(members)@.update(i as int, pair));
                lemma_model_members(members@);
                lemma_model_members(old(members)@);
                assert(model_members(members@) =~= model_members(old(members)@).update(i as int, (kv, vm)));
            }
        },
        None => {
            let s = member_slot(members, key.as_str());
            members.insert(s, (key, value));
            proof {
                lemma_model_members(members@);
                lemma_model_members(old(members)@);
                assert(model_members(members@) =~= model_members(old(members)@).insert(s as int, (kv, vm)));
            }
        },
    }
}

/// Removes a key of an object; see [`m_remove`].
pub fn obj_remove(members: &mut Vec<(String, JsonValue)>, key: &str)
    ensures
        model_members(final(members)@) == m_remove(model_members(old(members)@), key@),
{
    match member_index(members, key) {
        Some(i) => {
            members.remove(i);
            proof {
                lemma_model_members(members@);
                lemma_model_members(old(members)@);
                assert(model_members(members@) =~= model_members(old(members)@).remove(i as int));
            }
        },
        None => {},
    }
}

// ---------------------------------------------------------------------------
// Pretty text
// ---------------------------------------------------------------------------

/// Two spaces per level.
pub open spec fn indent(d: nat) -> Seq<char>
    decreases d,
{
    if d == 0 {
        Seq::empty()
    } else {
        indent((d - 1) as nat) + "  "@
    }
}

/// The pretty text of a document at nesting depth `d`, as
/// `serde_json::to_string_pretty` writes it: two-space indentation, one
/// member or item per line, `": "` after keys, and `[]` and `{}` for empty
/// containers.
pub open spec fn pretty(m: JsonModel, d: nat) -> Seq<char>
    decreases m,
{
    match m {
        JsonModel::Null => "null"@,
        JsonModel::Bool(b) => if b {
            "true"@
        } else {
            "false"@
        },
        JsonModel::Num(t) => t,
        JsonModel::Str(s) => quoted(s),
        JsonModel::Arr(items) => if items.len() == 0 {
            "[]"@
        } else {
            "["@ + pretty_items(items, d + 1) + "\n"@ + indent(d) + "]"@
        },
        JsonModel::Obj(ms) => if ms.len() == 0 {
            "{}"@
        } else {
            "{"@ + pretty_members(ms, d + 1) + "\n"@ + indent(d) + "}"@
        },
    }
}

/// Items, each on its own line at depth `d`, separated by commas.
pub open spec fn pretty_items(items: Seq<JsonModel>, d: nat) -> Seq<char>
    decreases items,
{
    if items.len() == 0 {
        Seq::empty()
    } else {
        pretty_items(items.subrange(0, items.len() - 1), d) + (if items.len() > 1 {
            ","@
        } else {
            Seq::empty()
        }) + "\n"@ + indent(d) + pretty(items[items.len() - 1], d)
    }
}

/// Members, each on its own line at depth `d`, separated by commas.
pub open spec fn pretty_members(ms: Seq<(Seq<char>, JsonModel)>, d: nat) -> Seq<char>
    decreases ms,
{
    if ms.len() == 0 {
        Seq::empty()
    } else {
        pretty_members(ms.subrange(0, ms.len() - 1), d) + (if ms.len() > 1 {
            ","@
        } else {
            Seq::empty()
        }) + "\n"@ + indent(d) + quoted(ms[ms.len() - 1].0) + ": "@ + pretty(ms[ms.len() - 1].1, d)
    }
}

fn push_chars(out: &mut Vec<char>, t: &Vec<char>)
    ensures
        final(out)@ == old(out)@ + t@,
{
    let ghost o = out@;
    let mut k: usize = 0;
    while k < t.len()
        invariant
            k <= t@.len(),
            out@ == o + t@.take(k as int),
        decreases t.len() - k,
    {
        out.push(t[k]);
        k = k + 1;
        assert(out@ =~= o + t@.take(k as int));
    }
    assert(t@.take(k as int) =~= t@);
}

fn deeper(ind: &Vec<char>, d: Ghost<nat>) -> (r: Vec<char>)
    requires
        ind@ == indent(d@),
    ensures
        r@ == indent(d@ + 1),
{
    let mut r: Vec<char> = Vec::new();
    push_chars(&mut r, ind);
    append_str(&mut r, "  ");
    assert(r@ =~= indent(d@ + 1));
    r
}

/// Appends the pretty text of a value at the depth whose indentation is
/// `ind`.
pub fn write_pretty(out: &mut Vec<char>, v: &JsonValue, ind: &Vec<char>, d: Ghost<nat>)
    requires
        ind@ == indent(d@),
    ensures
        final(out)@ == old(out)@ + pretty(model_of(*v), d@),
    decreases v, 0nat,
{
    match v {
        JsonValue::Null => append_str(out, "null"),
        JsonValue::Bool(b) => {
            if *b {
                append_str(out, "true");
            } else {
                append_str(out, "false");
            }
        },
        JsonValue::Number(_) => {
            let mut t: Vec<char> = Vec::new();
            crate::json::write_json(&mut t, v);
            push_chars(out, &t);
        },
        JsonValue::Str(s) => push_quoted(out, s.as_str()),
        JsonValue::Array(items) => {
            proof {
                lemma_model_items(items@);
            }
            if items.len() == 0 {
                append_str(out, "[]");
            } else {
                append_str(out, "[");
                write_pretty_items(out, items, ind, d);
                append_str(out, "\n");
                push_chars(out, ind);
                append_str(out, "]");
            }
        },
        JsonValue::Object(members) => {
            proof {
                lemma_model_members(members@);
            }
            if members.len() == 0 {
                append_str(out, "{}");
            } else {
                append_str(out, "{");
                write_pretty_members(out, members, ind, d);
                append_str(out, "\n");
                push_chars(out, ind);
                append_str(out, "}");
            }
        },
    }
}

/// Appends array items one level deeper than `ind`.
pub fn write_pretty_items(out: &mut Vec<char>, items: &Vec<JsonValue>, ind: &Vec<char>, d: Ghost<nat>)
    requires
        ind@ == indent(d@),
    ensures
        final(out)@ == old(out)@ + pretty_items(model_items(items@), d@ + 1),
    decreases items, 1nat,
{
    let inner = deeper(ind, d);
    let ghost start = out@;
    let mut i: usize = 0;
    assert(items@.subrange(0, 0) =~= Seq::<JsonValue>::empty());
    while i < items.len()
        invariant
            i <= items@.len(),
            inner@ == indent(d@ + 1),
            out@ == start + pretty_items(model_items(items@.subrange(0, i as int)), d@ + 1),
        decreases items.len() - i,
    {
        proof {
            assert(decreases_to!(*items => items@));
            assert(decreases_to!(items@ => items@[i as int]));
        }
        if i > 0 {
            append_str(out, ",");
        }
        append_str(out, "\n");
        push_chars(out, &inner);
        write_pretty(out, &items[i], &inner, Ghost(d@ + 1));
        proof {
            let t = items@.subrange(0, i + 1);
            lemma_model_items(t);
            lemma_model_items(items@.subrange(0, i as int));
            let mt = model_items(t);
            assert(mt.subrange(0, i as int) =~= model_items(items@.subrange(0, i as int)));
            assert(t[i as int] == items@[i as int]);
            assert(mt[i as int] == model_of(items@[i as int]));
            assert(out@ =~= start + pretty_items(mt, d@ + 1));
        }
        i = i + 1;
    }
    assert(items@.subrange(0, i as int) =~= items@);
}

/// Appends object members one level deeper than `ind`.
pub fn write_pretty_members(out: &mut Vec<char>, members: &Vec<(String, JsonValue)>, ind: &Vec<char>, d: Ghost<nat>)
    requires
        ind@ == indent(d@),
    ensures
        final(out)@ == old(out)@ + pretty_members(model_members(members@), d@ + 1),
    decreases members, 1nat,
{
    let inner = deeper(ind, d);
    let ghost start = out@;
    let mut i: usize = 0;
    assert(members@.subrange(0, 0) =~= Seq::<(String, JsonValue)>::empty());
    while i < members.len()
        invariant
            i <= members@.len(),
            inner@ == indent(d@ + 1),
            out@ == start + pretty_members(model_members(members@.subrange(0, i as int)), d@ + 1),
        decreases members.len() - i,
    {
        proof {
            assert(decreases_to!(*members => members@));
            assert(decreases_to!(members@ => members@[i as int]));
            assert(decreases_to!(members@[i as int] => members@[i as int].1));
        }
        if i > 0 {
            append_str(out, ",");
        }
        append_str(out, "\n");
        push_chars(out, &inner);
        push_quoted(out, members[i].0.as_str());
        append_str(out, ": ");
        write_pretty(out, &members[i].1, &inner, Ghost(d@ + 1));
        proof {
            let t = members@.subrange(0, i + 1);
            lemma_model_members(t);
            lemma_model_members(members@.subrange(0, i as int));
            let mt = model_members(t);
            assert(mt.subrange(0, i as int) =~= model_members(members@.subrange(0, i as int)));
            assert(t[i as int] == members@[i as int]);
            assert(mt[i as int] == (members@[i as int].0@, model_of(members@[i as int].1)));
            assert(out@ =~= start + pretty_members(mt, d@ + 1));
        }
        i = i + 1;
    }
    assert(members@.subrange(0, i as int) =~= members@);
}

/// The pretty text of a value, as `serde_json::to_string_pretty` writes it.
pub fn to_pretty_string(v: &JsonValue) -> (r: String)
    ensures
        r@ == pretty(model_of(*v), 0),
{
    let mut out: Vec<char> = Vec::new();
    let ind: Vec<char> = Vec::new();
    assert(ind@ =~= indent(0));
    write_pretty(&mut out, v, &ind, Ghost(0));
    assert(out@ =~= pretty(model_of(*v), 0));
    crate::text::string_from_chars(&out)
}

} // verus!
