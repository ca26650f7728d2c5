//! Redaction of upstream error messages before they reach logs or clients:
//! words that look like credentials become `[redacted]`, and long messages
//! are cut.

use vstd::prelude::*;
use crate::text::{is_ws, char_is_whitespace, chars_of, string_from_chars, append_str, has_prefix, has_suffix,
    chars_starts_with, chars_ends_with};
use crate::upstream::{ascii_lowercase, lower_chars};

verus! {

/// The number of UTF-8 bytes of a character.
pub open spec fn char_utf8_len(c: char) -> nat {
    let u = c as u32;
    if u < 0x80 {
        1
    } else if u < 0x800 {
        2
    } else if u < 0x10000 {
        3
    } else {
        4
    }
}

/// The number of UTF-8 bytes of a text (what `str::len` gives).
pub open spec fn utf8_len(s: Seq<char>) -> nat
    decreases s.len(),
{
    if s.len() == 0 {
        0
    } else {
        utf8_len(s.drop_last()) + char_utf8_len(s.last())
    }
}

/// The length of the leading run of non-white-space characters.
pub open spec fn word_end(s: Seq<char>) -> int
    decreases s.len(),
{
    if s.len() == 0 {
        0
    } else if is_ws(s[0]) {
        0
    } else {
        1 + word_end(s.drop_first())
    }
}

pub proof fn lemma_word_end(s: Seq<char>)
    ensures
        0 <= word_end(s) <= s.len(),
        s.len() > 0 && !is_ws(s[0]) ==> word_end(s) >= 1,
        forall|k: int| 0 <= k < word_end(s) ==> !is_ws(#[trigger] s[k]),
        word_end(s) < s.len() ==> is_ws(s[word_end(s)]),
    decreases s.len(),
{
    if s.len() > 0 && !is_ws(s[0]) {
        lemma_word_end(s.drop_first());
        assert forall|k: int| 0 <= k < word_end(s) implies !is_ws(#[trigger] s[k]) by {
            if k > 0 {
                assert(s[k] == s.drop_first()[k - 1]);
            }
        }
        if word_end(s) < s.len() {
            assert(s[word_end(s)] == s.drop_first()[word_end(s) - 1]);
        }
    }
}

/// The words of a text, as `str::split_whitespace` gives them.
pub open spec fn words(s: Seq<char>) -> Seq<Seq<char>>
    decreases s.len(),
{
    if s.len() == 0 {
        Seq::empty()
    } else if is_ws(s[0]) {
        words(s.drop_first())
    } else {
        proof {
            lemma_word_end(s);
        }
        seq![s.take(word_end(s))] + words(s.skip(word_end(s)))
    }
}

/// The number of dots in a text.
pub open spec fn dot_count(s: Seq<char>) -> nat
    decreases s.len(),
{
    if s.len() == 0 {
        0
    } else {
        dot_count(s.drop_last()) + if s.last() == '.' {
            1nat
        } else {
            0nat
        }
    }
}

/// A value that looks like a JWT: over 80 bytes with at least two dots.
pub open spec fn jwt_like(w: Seq<char>) -> bool {
    utf8_len(w) > 80 && dot_count(w) >= 2
}

/// One word: a bearer marker, an `sk-` key, a JWT-like value, or the word
/// after one ending in `token` or `authorization` (case aside in ASCII) is
/// redacted; the second result says whether the next word is.
pub open spec fn redact_step(w: Seq<char>, redact_next: bool) -> (Seq<char>, bool) {
    let lower = ascii_lowercase(w);
    if redact_next || has_prefix(lower, "bearer"@) || has_prefix(lower, "sk-"@) || jwt_like(w) {
        ("[redacted]"@, false)
    } else {
        (w, has_suffix(lower, "token"@) || has_suffix(lower, "authorization"@))
    }
}

/// The words after redaction.
pub open spec fn redact_words(ws: Seq<Seq<char>>, redact_next: bool) -> Seq<Seq<char>>
    decreases ws.len(),
{
    if ws.len() == 0 {
        Seq::empty()
    } else {
        let (r, next) = redact_step(ws[0], redact_next);
        seq![r] + redact_words(ws.drop_first(), next)
    }
}

/// The fewest leading characters, from `j` on, that make up at least `n`
/// bytes (or all of them).
pub open spec fn reach_from(s: Seq<char>, n: nat, j: int) -> int
    decreases s.len() - j,
{
    if j >= s.len() || utf8_len(s.take(j)) >= n {
        j
    } else {
        reach_from(s, n, j + 1)
    }
}

/// The fewest leading characters that make up at least `n` bytes.
pub open spec fn reach(s: Seq<char>, n: nat) -> int {
    reach_from(s, n, 0)
}

/// The text after the words are appended one by one, separated by spaces:
/// once it reaches 600 bytes it is cut to its first 600 bytes and `...` is
/// added.
pub open spec fn joined_capped(parts: Seq<Seq<char>>, out: Seq<char>) -> Seq<char>
    decreases parts.len(),
{
    if parts.len() == 0 {
        out
    } else {
        let o2 = (if out.len() > 0 {
            out + " "@
        } else {
            out
        }) + parts[0];
        if utf8_len(o2) >= 600 {
            o2.take(reach(o2, 600)) + "..."@
        } else {
            joined_capped(parts.drop_first(), o2)
        }
    }
}

/// Where the text is cut, byte 600 falls between two characters (cutting
/// inside a character is a panic of `String::truncate`).
pub open spec fn cut_on_boundary(parts: Seq<Seq<char>>, out: Seq<char>) -> bool
    decreases parts.len(),
{
    if parts.len() == 0 {
        true
    } else {
        let o2 = (if out.len() > 0 {
            out + " "@
        } else {
            out
        }) + parts[0];
        if utf8_len(o2) >= 600 {
            utf8_len(o2.take(reach(o2, 600))) == 600
        } else {
            cut_on_boundary(parts.drop_first(), o2)
        }
    }
}

/// The redacted message.
pub open spec fn sanitized_message(message: Seq<char>) -> Seq<char> {
    joined_capped(redact_words(words(message), false), Seq::empty())
}


// ---------------------------------------------------------------------------
// Executable
// ---------------------------------------------------------------------------

pub open spec fn vecs_view(v: Seq<Vec<char>>) -> Seq<Seq<char>> {
    v.map_values(|x: Vec<char>| x@)
}

proof fn lemma_word_end_is(s: Seq<char>, r: int)
    requires
        0 <= r <= s.len(),
        forall|k: int| 0 <= k < r ==> !is_ws(#[trigger] s[k]),
        r < s.len() ==> is_ws(s[r]),
    ensures
        word_end(s) == r,
    decreases s.len(),
{
    if s.len() > 0 && r > 0 {
        assert forall|k: int| 0 <= k < r - 1 implies !is_ws(#[trigger] s.drop_first()[k]) by {
            assert(s.drop_first()[k] == s[k + 1]);
        }
        if r - 1 < s.len() - 1 {
            assert(s.drop_first()[r - 1] == s[r]);
        }
        lemma_word_end_is(s.drop_first(), r - 1);
    }
}

fn split_words(s: &Vec<char>) -> (r: Vec<Vec<char>>)
    ensures
        vecs_view(r@) == words(s@),
{
    let mut out: Vec<Vec<char>> = Vec::new();
    let mut i: usize = 0;
    assert(s@.skip(0) =~= s@);
    assert(vecs_view(out@) =~= Seq::<Seq<char>>::empty());
    while i < s.len()
        invariant
            i <= s@.len(),
            words(s@) == vecs_view(out@) + words(s@.skip(i as int)),
        decreases s.len() - i,
    {
        let ghost rest = s@.skip(i as int);
        if char_is_whitespace(s[i]) {
            assert(rest.drop_first() =~= s@.skip(i + 1));
            i = i + 1;
        } else {
            let mut j: usize = i;
            while j < s.len() && !char_is_whitespace(s[j])
                invariant
                    i <= j <= s@.len(),
                    forall|k: int| i <= k < j ==> !is_ws(#[trigger] s@[k]),
                decreases s.len() - j,
            {
                j = j + 1;
            }
            proof {
                assert forall|k: int| 0 <= k < j - i implies !is_ws(#[trigger] rest[k]) by {
                    assert(rest[k] == s@[i + k]);
                }
                if j < s@.len() {
                    assert(rest[j - i] == s@[j as int]);
                }
                lemma_word_end_is(rest, j - i);
                assert(rest.take(j - i) =~= s@.subrange(i as int, j as int));
                assert(rest.skip(j - i) =~= s@.skip(j as int));
            }
            let w = crate::text::chars_slice(s, i, j);
            let ghost before = vecs_view(out@);
            out.push(w);
            assert(vecs_view(out@) =~= before.push(s@.subrange(i as int, j as int)));
            i = j;
        }
    }
    assert(s@.skip(i as int) =~= Seq::<char>::empty());
    assert(vecs_view(out@) + Seq::<Seq<char>>::empty() =~= vecs_view(out@));
    out
}

fn char_len(c: char) -> (r: usize)
    ensures
        r == char_utf8_len(c),
{
    let u = c as u32;
    if u < 0x80 {
        1
    } else if u < 0x800 {
        2
    } else if u < 0x10000 {
        3
    } else {
        4
    }
}

proof fn lemma_utf8_len_take(s: Seq<char>, k: int)
    requires
        0 <= k < s.len(),
    ensures
        utf8_len(s.take(k + 1)) == utf8_len(s.take(k)) + char_utf8_len(s[k]),
{
    assert(s.take(k + 1).drop_last() =~= s.take(k));
}

proof fn lemma_utf8_len_mono(s: Seq<char>, k: int)
    requires
        0 <= k <= s.len(),
    ensures
        utf8_len(s.take(k)) <= utf8_len(s),
    decreases s.len() - k,
{
    if k < s.len() {
        lemma_utf8_len_take(s, k);
        lemma_utf8_len_mono(s, k + 1);
    } else {
        assert(s.take(k) =~= s);
    }
}

proof fn lemma_dots_take(s: Seq<char>, k: int)
    requires
        0 <= k < s.len(),
    ensures
        dot_count(s.take(k + 1)) == dot_count(s.take(k)) + if s[k] == '.' {
            1nat
        } else {
            0nat
        },
{
    assert(s.take(k + 1).drop_last() =~= s.take(k));
}

proof fn lemma_dots_mono(s: Seq<char>, k: int)
    requires
        0 <= k <= s.len(),
    ensures
        dot_count(s.take(k)) <= dot_count(s),
    decreases s.len() - k,
{
    if k < s.len() {
        lemma_dots_take(s, k);
        lemma_dots_mono(s, k + 1);
    } else {
        assert(s.take(k) =~= s);
    }
}

/// Whether a text has more than `n` bytes.
fn utf8_exceeds(s: &Vec<char>, n: usize) -> (r: bool)
    requires
        n <= 1_000_000,
    ensures
        r == (utf8_len(s@) > n),
{
    let mut acc: usize = 0;
    let mut k: usize = 0;
    assert(s@.take(0) =~= Seq::<char>::empty());
    while k < s.len() && acc <= n
        invariant
            k <= s@.len(),
            acc == utf8_len(s@.take(k as int)),
            acc <= n + 4,
            n <= 1_000_000,
        decreases s.len() - k,
    {
        proof {
            lemma_utf8_len_take(s@, k as int);
        }
        acc = acc + char_len(s[k]);
        k = k + 1;
    }
    proof {
        lemma_utf8_len_mono(s@, k as int);
        if k == s@.len() {
            assert(s@.take(k as int) =~= s@);
        }
    }
    acc > n
}

fn two_dots(s: &Vec<char>) -> (r: bool)
    ensures
        r == (dot_count(s@) >= 2),
{
    let mut acc: usize = 0;
    let mut k: usize = 0;
    assert(s@.take(0) =~= Seq::<char>::empty());
    while k < s.len() && acc < 2
        invariant
            k <= s@.len(),
            acc == dot_count(s@.take(k as int)),
            acc <= 2,
        decreases s.len() - k,
    {
        proof {
            lemma_dots_take(s@, k as int);
        }
        if s[k] == '.' {
            acc = acc + 1;
        }
        k = k + 1;
    }
    proof {
        lemma_dots_mono(s@, k as int);
        if k == s@.len() {
            assert(s@.take(k as int) =~= s@);
        }
    }
    acc >= 2
}

fn redact_word(w: &Vec<char>, redact_next: bool) -> (r: (Vec<char>, bool))
    ensures
        (r.0@, r.1) == redact_step(w@, redact_next),
{
    let lower = lower_chars(w);
    let jwt = utf8_exceeds(w, 80) && two_dots(w);
    if redact_next || chars_starts_with(&lower, &chars_of("bearer")) || chars_starts_with(&lower, &chars_of("sk-"))
        || jwt {
        (chars_of("[redacted]"), false)
    } else {
        let next = chars_ends_with(&lower, &chars_of("token")) || chars_ends_with(&lower, &chars_of("authorization"));
        (crate::text::chars_slice(w, 0, w.len()), next)
    }
}

proof fn lemma_reach_step(s: Seq<char>, n: nat, j: int)
    requires
        0 <= j < s.len(),
        utf8_len(s.take(j)) < n,
    ensures
        reach_from(s, n, j) == reach_from(s, n, j + 1),
{
}

/// The first `n` bytes of a text when byte `n` falls between characters;
/// `None` when it falls inside one.
fn cut_at(s: &Vec<char>, n: usize) -> (r: Option<Vec<char>>)
    requires
        utf8_len(s@) >= n,
        n <= 1_000_000,
    ensures
        utf8_len(s@.take(reach(s@, n as nat))) == n <==> r is Some,
        r matches Some(v) ==> v@ == s@.take(reach(s@, n as nat)),
{
    let mut acc: usize = 0;
    let mut k: usize = 0;
    assert(s@.take(0) =~= Seq::<char>::empty());
    while k < s.len() && acc < n
        invariant
            k <= s@.len(),
            acc == utf8_len(s@.take(k as int)),
            acc < n + 4,
            n <= 1_000_000,
            reach(s@, n as nat) == reach_from(s@, n as nat, k as int),
        decreases s.len() - k,
    {
        proof {
            lemma_utf8_len_take(s@, k as int);
            lemma_reach_step(s@, n as nat, k as int);
        }
        acc = acc + char_len(s[k]);
        k = k + 1;
    }
    proof {
        if k == s@.len() {
            assert(s@.take(k as int) =~= s@);
        }
        assert(reach_from(s@, n as nat, k as int) == k);
    }
    if acc == n {
        Some(crate::text::chars_slice(s, 0, k))
    } else {
        None
    }
}

/// Redacts an upstream error message, or `None` when the message would be
/// cut inside a character; see [`sanitized_message`] and
/// [`cut_on_boundary`].
pub fn sanitize_checked(message: &str) -> (r: Option<String>)
    ensures
        r is Some <==> cut_on_boundary(redact_words(words(message@), false), Seq::empty()),
        r matches Some(s) ==> s@ == sanitized_message(message@),
{
    let ws = split_words(&chars_of(message));
    let ghost all = redact_words(words(message@), false);
    let mut out: Vec<char> = Vec::new();
    let mut redact_next = false;
    let mut i: usize = 0;
    let mut out_bytes: usize = 0;
    assert(vecs_view(ws@).skip(0) =~= vecs_view(ws@));
    while i < ws.len()
        invariant
            i <= ws@.len(),
            out_bytes == utf8_len(out@),
            out_bytes < 600,
            joined_capped(all, Seq::empty()) == joined_capped(redact_words(vecs_view(ws@).skip(i as int), redact_next), out@),
            cut_on_boundary(all, Seq::empty()) == cut_on_boundary(redact_words(vecs_view(ws@).skip(i as int), redact_next), out@),
            all == redact_words(vecs_view(ws@), false),
            all == redact_words(words(message@), false),
        decreases ws.len() - i,
    {
        let ghost rest = vecs_view(ws@).skip(i as int);
        let ghost rn0 = redact_next;
        assert(rest[0] == ws@[i as int]@);
        assert(rest.drop_first() =~= vecs_view(ws@).skip(i + 1));
        let (r, next) = redact_word(&ws[i], redact_next);
        let ghost rw = redact_words(rest, rn0);
        let ghost tail = redact_words(vecs_view(ws@).skip(i + 1), next);
        assert(rw == seq![r@] + tail);
        assert(rw[0] == r@);
        assert(rw.drop_first() =~= tail);
        let ghost o_old = out@;
        if out.len() > 0 {
            out.push(' ');
        }
        let mut k: usize = 0;
        let ghost mid = out@;
        while k < r.len()
            invariant
                k <= r@.len(),
                out@ == mid + r@.take(k as int),
            decreases r.len() - k,
        {
            out.push(r[k]);
            k = k + 1;
            assert(out@ =~= mid + r@.take(k as int));
        }
        assert(r@.take(k as int) =~= r@);
        assert(out@ =~= (if o_old.len() > 0 {
            o_old + " "@
        } else {
            o_old
        }) + r@) by {
            reveal_strlit(" ");
        }
        redact_next = next;
        i = i + 1;
        assert(joined_capped(rw, o_old) == (if utf8_len(out@) >= 600 {
            out@.take(reach(out@, 600)) + "..."@
        } else {
            joined_capped(tail, out@)
        }));
        assert(cut_on_boundary(rw, o_old) == (if utf8_len(out@) >= 600 {
            utf8_len(out@.take(reach(out@, 600))) == 600
        } else {
            cut_on_boundary(tail, out@)
        }));
        if utf8_exceeds(&out, 599) {
            match cut_at(&out, 600) {
                Some(mut cut) => {
                    append_str(&mut cut, "...");
                    return Some(string_from_chars(&cut));
                },
                None => {
                    return None;
                },
            }
        }
        out_bytes = count_bytes(&out);
    }
    assert(vecs_view(ws@).skip(i as int) =~= Seq::<Seq<char>>::empty());
    Some(string_from_chars(&out))
}

fn count_bytes(s: &Vec<char>) -> (r: usize)
    requires
        utf8_len(s@) < 600,
    ensures
        r == utf8_len(s@),
{
    let mut acc: usize = 0;
    let mut k: usize = 0;
    assert(s@.take(0) =~= Seq::<char>::empty());
    while k < s.len()
        invariant
            k <= s@.len(),
            acc == utf8_len(s@.take(k as int)),
            utf8_len(s@) < 600,
        decreases s.len() - k,
    {
        proof {
            lemma_utf8_len_take(s@, k as int);
            lemma_utf8_len_mono(s@, k + 1);
        }
        acc = acc + char_len(s[k]);
        k = k + 1;
    }
    assert(s@.take(k as int) =~= s@);
    acc
}

/// Redacts an upstream error message; see [`sanitized_message`].
pub fn sanitize_upstream_error(message: &str) -> (r: String)
    requires
        cut_on_boundary(redact_words(words(message@), false), Seq::empty()),
    ensures
        r@ == sanitized_message(message@),
{
    match sanitize_checked(message) {
        Some(s) => s,
        None => String::new(),
    }
}

/// Whether a value looks like a JWT.
pub fn looks_like_jwt(value: &str) -> (r: bool)
    ensures
        r == jwt_like(value@),
{
    let cs = chars_of(value);
    utf8_exceeds(&cs, 80) && two_dots(&cs)
}

} // verus!
