//! Facts about upstream requests that depend only on the model and the
//! endpoint, and the errors of dispatching a request.

use vstd::prelude::*;
use crate::text::{chars_of, find_seq, find_chars, has_prefix, chars_starts_with, chars_slice};
use crate::custom_agents::ascii_lower;
use crate::json::{JsonValue, JsonNumber, get, get_member, str_of, u64_of, as_str, as_u64};
use crate::json_model::{JsonModel, model_of, model_members, m_set, m_remove, obj_set, obj_remove, num, copy_value, copy_members, lemma_model_members};
use crate::translator::{MessagesRequest, anthropic_request_of, openai_to_anthropic, anthropic_headers};
use crate::codex::{codex_auth_headers, pairs_view, build_codex_auth_headers, build_codex_responses_headers, new_codex_request_id};
use crate::codex_request::{codex_request_text, openai_to_codex_request_with_id};

verus! {

/// Errors of dispatching an upstream request.
#[derive(Clone, Debug)]
pub enum UpstreamError {
    /// A network-level error (DNS, connection refused, TLS and the like).
    Network(String),
    /// The upstream did not answer within the latency timeout.
    Timeout,
}

/// A text lower-cased in ASCII, as `str::to_ascii_lowercase` gives it.
pub open spec fn ascii_lowercase(s: Seq<char>) -> Seq<char> {
    s.map_values(|c: char| ascii_lower(c))
}

/// Whether `p` occurs in `s`, as `str::contains` decides.
pub open spec fn occurs(s: Seq<char>, p: Seq<char>) -> bool {
    find_seq(s, p) is Some
}

/// The position of the last `c` in `s`.
pub open spec fn last_index_of(s: Seq<char>, c: char) -> Option<int>
    decreases s.len(),
{
    if s.len() == 0 {
        None
    } else if s.last() == c {
        Some(s.len() - 1)
    } else {
        last_index_of(s.drop_last(), c)
    }
}

/// A model name without its provider: the text after the last `/`.
pub open spec fn model_basename(m: Seq<char>) -> Seq<char> {
    match last_index_of(m, '/') {
        Some(i) => m.skip(i + 1),
        None => m,
    }
}

/// Models that take `max_completion_tokens` in place of `max_tokens`: the
/// GPT-5 family and the o1, o3 and o4 reasoning models (case aside).
pub open spec fn needs_max_completion_tokens(model: Seq<char>) -> bool {
    let m = ascii_lowercase(model_basename(model));
    occurs(m, "gpt-5"@) || has_prefix(m, "o1"@) || has_prefix(m, "o3"@) || has_prefix(m, "o4"@)
}

/// Upstreams that reject sampling settings: Kimi K2.7 on OpenCode Zen Go.
pub open spec fn needs_default_sampling(model: Seq<char>, url: Seq<char>) -> bool {
    let m = ascii_lowercase(model);
    let u = ascii_lowercase(url);
    occurs(u, "opencode.ai/zen/go"@) && (occurs(m, "kimi-k2.7"@) || occurs(m, "kimi-k2-7"@))
}

pub fn lower_chars(s: &Vec<char>) -> (r: Vec<char>)
    ensures
        r@ == ascii_lowercase(s@),
{
    let mut out: Vec<char> = Vec::new();
    let mut i: usize = 0;
    while i < s.len()
        invariant
            i <= s@.len(),
            out@ == ascii_lowercase(s@.take(i as int)),
        decreases s.len() - i,
    {
        let c = s[i];
        let l = if 'A' <= c && c <= 'Z' {
            ((c as u32 + 32) as u8) as char
        } else {
            c
        };
        out.push(l);
        i = i + 1;
        assert(out@ =~= ascii_lowercase(s@.take(i as int)));
    }
    assert(s@.take(i as int) =~= s@);
    out
}

fn basename_chars(s: &Vec<char>) -> (r: Vec<char>)
    ensures
        r@ == model_basename(s@),
{
    let mut j: usize = s.len();
    assert(s@.take(s@.len() as int) =~= s@);
    while j > 0 && s[j - 1] != '/'
        invariant
            j <= s@.len(),
            last_index_of(s@, '/') == last_index_of(s@.take(j as int), '/'),
        decreases j,
    {
        assert(s@.take(j as int).drop_last() =~= s@.take(j - 1));
        j = j - 1;
    }
    assert(s@.take(s@.len() as int) =~= s@);
    if j == 0 {
        assert(s@.take(0) =~= Seq::<char>::empty());
        let r = chars_slice(s, 0, s.len());
        assert(r@ =~= s@);
        r
    } else {
        assert(last_index_of(s@.take(j as int), '/') == Some(j - 1));
        let r = chars_slice(s, j, s.len());
        assert(r@ =~= s@.skip(j as int));
        r
    }
}

fn occurs_in(s: &Vec<char>, p: &str) -> (r: bool)
    ensures
        r == occurs(s@, p@),
{
    let cp = chars_of(p);
    find_chars(s, &cp).is_some()
}

/// Whether the model takes `max_completion_tokens`; see
/// [`needs_max_completion_tokens`].
pub fn requires_max_completion_tokens(model: &str) -> (r: bool)
    ensures
        r == needs_max_completion_tokens(model@),
{
    let m = lower_chars(&basename_chars(&chars_of(model)));
    occurs_in(&m, "gpt-5") || chars_starts_with(&m, &chars_of("o1")) || chars_starts_with(&m, &chars_of("o3"))
        || chars_starts_with(&m, &chars_of("o4"))
}

/// Whether sampling settings are to be dropped; see
/// [`needs_default_sampling`].
pub fn requires_default_sampling(model: &str, url: &str) -> (r: bool)
    ensures
        r == needs_default_sampling(model@, url@),
{
    let m = lower_chars(&chars_of(model));
    let u = lower_chars(&chars_of(url));
    occurs_in(&u, "opencode.ai/zen/go") && (occurs_in(&m, "kimi-k2.7") || occurs_in(&m, "kimi-k2-7"))
}

// ---------------------------------------------------------------------------
// Request bodies
// ---------------------------------------------------------------------------

/// Whether a body can take a key set by indexing: an object, or null
/// (which becomes an object).
pub open spec fn indexable(v: JsonModel) -> bool {
    v is Obj || v is Null
}

/// A key set by indexing: into an object, or into a fresh object for null.
pub open spec fn index_set(v: JsonModel, k: Seq<char>, x: JsonModel) -> JsonModel {
    match v {
        JsonModel::Obj(ms) => JsonModel::Obj(m_set(ms, k, x)),
        _ => JsonModel::Obj(seq![(k, x)]),
    }
}

/// The body sent to an OpenAI-compatible upstream: the request with the
/// upstream model, without `temperature` and `top_p` where the upstream
/// rejects sampling settings.
pub open spec fn openai_body(body: JsonModel, model: Seq<char>, url: Seq<char>) -> JsonModel {
    match index_set(body, "model"@, JsonModel::Str(model)) {
        JsonModel::Obj(ms) => if needs_default_sampling(model, url) {
            JsonModel::Obj(m_remove(m_remove(ms, "temperature"@), "top_p"@))
        } else {
            JsonModel::Obj(ms)
        },
        other => other,
    }
}

fn indexed_members(body: &JsonValue) -> (r: Vec<(String, JsonValue)>)
    requires
        indexable(model_of(*body)),
    ensures
        JsonModel::Obj(model_members(r@)) == match model_of(*body) {
            JsonModel::Obj(ms) => JsonModel::Obj(ms),
            _ => JsonModel::Obj(Seq::empty()),
        },
{
    match body {
        JsonValue::Object(ms) => copy_members(ms),
        _ => {
            let r: Vec<(String, JsonValue)> = Vec::new();
            assert(model_members(r@) =~= Seq::<(Seq<char>, JsonModel)>::empty());
            r
        },
    }
}

/// Builds the body for an OpenAI-compatible upstream; see [`openai_body`].
/// Indexing a body that is neither an object nor null panics, so such a
/// body is not taken.
pub fn build_openai_compatible_body(body: &JsonValue, upstream_model: &str, url: &str) -> (r: JsonValue)
    requires
        indexable(model_of(*body)),
    ensures
        model_of(r) == openai_body(model_of(*body), upstream_model@, url@),
{
    let mut ms = indexed_members(body);
    proof {
        if model_of(*body) is Null {
            assert(m_set(Seq::<(Seq<char>, JsonModel)>::empty(), "model"@, JsonModel::Str(upstream_model@)) =~= seq![
                ("model"@, JsonModel::Str(upstream_model@)),
            ]) by {
                crate::seqs::lemma_first_index_none(Seq::<(Seq<char>, JsonModel)>::empty(), |p: (Seq<char>, JsonModel)| p.0 == "model"@);
                crate::seqs::lemma_first_index_none(
                    Seq::<(Seq<char>, JsonModel)>::empty(),
                    |p: (Seq<char>, JsonModel)| crate::codex_stream::key_lt("model"@, p.0),
                );
            }
        }
    }
    obj_set(&mut ms, String::from_str("model"), JsonValue::Str(String::from_str(upstream_model)));
    if requires_default_sampling(upstream_model, url) {
        obj_remove(&mut ms, "temperature");
        obj_remove(&mut ms, "top_p");
    }
    JsonValue::Object(ms)
}

/// The output token field an upstream takes: `max_completion_tokens` for
/// non-Anthropic models that need it, `max_tokens` otherwise.
pub open spec fn limit_field(model: Seq<char>, is_anthropic: bool) -> Seq<char> {
    if !is_anthropic && needs_max_completion_tokens(model) {
        "max_completion_tokens"@
    } else {
        "max_tokens"@
    }
}

/// A body with an output token limit: both limit fields are dropped and,
/// except for Codex (whose endpoint takes no limit), the upstream's field
/// is set. A body that is not an object is left as it is.
pub open spec fn limited_body(body: JsonModel, model: Seq<char>, is_anthropic: bool, is_codex: bool, limit: u32) -> JsonModel {
    match body {
        JsonModel::Obj(ms) => {
            let ms1 = m_remove(m_remove(ms, "max_tokens"@), "max_completion_tokens"@);
            if is_codex {
                JsonModel::Obj(ms1)
            } else {
                JsonModel::Obj(m_set(ms1, limit_field(model, is_anthropic), num(limit as u64)))
            }
        },
        _ => body,
    }
}

/// Applies an output token limit to a body; see [`limited_body`].
pub fn apply_output_token_limit(body: &JsonValue, upstream_model: &str, is_anthropic: bool, is_codex: bool, limit: u32) -> (r: JsonValue)
    ensures
        model_of(r) == limited_body(model_of(*body), upstream_model@, is_anthropic, is_codex, limit),
{
    let mut ms = match body {
        JsonValue::Object(ms) => copy_members(ms),
        _ => return copy_value(body),
    };
    obj_remove(&mut ms, "max_tokens");
    obj_remove(&mut ms, "max_completion_tokens");
    if is_codex {
        return JsonValue::Object(ms);
    }
    let field = if !is_anthropic && requires_max_completion_tokens(upstream_model) {
        "max_completion_tokens"
    } else {
        "max_tokens"
    };
    obj_set(&mut ms, String::from_str(field), JsonValue::Number(crate::json::JsonNumber::PosInt(limit as u64)));
    JsonValue::Object(ms)
}

// ---------------------------------------------------------------------------
// Upstream requests
// ---------------------------------------------------------------------------

/// What an upstream request carries.
pub enum UpstreamPayload {
    /// A Codex Responses request, as JSON text.
    Codex(String),
    /// An Anthropic Messages request.
    Anthropic(MessagesRequest),
    /// A JSON body.
    Json(JsonValue),
}

/// The headers and payload of an upstream request.
pub struct UpstreamRequest {
    pub headers: Vec<(String, String)>,
    pub payload: UpstreamPayload,
}

/// The body after the output token limit, when one is given.
pub open spec fn limited_of(body: JsonModel, model: Seq<char>, is_anthropic: bool, is_codex: bool, limit: Option<u32>) -> JsonModel {
    match limit {
        Some(l) => limited_body(body, model, is_anthropic, is_codex, l),
        None => body,
    }
}

/// The bearer authorization header of an API key.
pub open spec fn bearer_headers(api_key: Seq<char>) -> Seq<(Seq<char>, Seq<char>)> {
    seq![("Authorization"@, "Bearer "@ + api_key)]
}

/// The Anthropic headers of an API key.
pub open spec fn anthropic_header_pairs(api_key: Seq<char>) -> Seq<(Seq<char>, Seq<char>)> {
    seq![("x-api-key"@, api_key), ("anthropic-version"@, "2024-06-01"@), ("content-type"@, "application/json"@)]
}

fn bearer(api_key: &str) -> (r: Vec<(String, String)>)
    ensures
        pairs_view(r@) == bearer_headers(api_key@),
{
    let mut v: Vec<(String, String)> = Vec::new();
    v.push((String::from_str("Authorization"), crate::text::cat("Bearer ", api_key)));
    assert(pairs_view(v@) =~= bearer_headers(api_key@));
    v
}

fn anthropic_pairs(api_key: &str) -> (r: Vec<(String, String)>)
    ensures
        pairs_view(r@) == anthropic_header_pairs(api_key@),
{
    let v = anthropic_headers(api_key);
    assert(pairs_view(v@) =~= anthropic_header_pairs(api_key@));
    v
}

fn opt_str_view(o: Option<&str>) -> (r: Option<&str>)
    ensures
        r == o,
{
    o
}

pub open spec fn opt_seq(o: Option<&str>) -> Option<Seq<char>> {
    match o {
        Some(s) => Some(s@),
        None => None,
    }
}

/// Builds the request for a chat completion upstream. With Codex tokens
/// (account id, id token) the body becomes a Codex Responses request under
/// the given session (or a fresh one), which also becomes the prompt cache
/// key when given; Anthropic upstreams get a Messages request; others get
/// the OpenAI-compatible body with a bearer key. An output token limit is
/// applied first. Indexing a body that is neither an object nor null
/// panics, so where the body is indexed such a body is not taken.
pub fn build_upstream_request(
    body: &JsonValue,
    api_key: &str,
    upstream_model: &str,
    url: &str,
    is_anthropic: bool,
    codex_tokens: Option<(Option<&str>, Option<&str>)>,
    codex_session_id: Option<&str>,
    output_token_limit: Option<u32>,
    user_agent: &str,
) -> (r: UpstreamRequest)
    requires
        (codex_tokens is Some && codex_session_id is Some) || (codex_tokens is None && !is_anthropic) ==> indexable(
            model_of(*body),
        ),
    ensures
        ({
            let lim = limited_of(model_of(*body), upstream_model@, is_anthropic, codex_tokens is Some, output_token_limit);
            match codex_tokens {
                Some((acct, idt)) => r.payload matches UpstreamPayload::Codex(text) && exists|session: Seq<char>, v: JsonValue|
                    {
                        &&& (match codex_session_id {
                            Some(s) => session == s@ && model_of(v) == index_set(lim, "prompt_cache_key"@, JsonModel::Str(s@)),
                            None => session.len() == 32 && model_of(v) == lim,
                        })
                        &&& text@ == #[trigger] codex_request_text(v, upstream_model@, session)
                        &&& pairs_view(r.headers@) == codex_auth_headers(api_key@, opt_seq(acct), opt_seq(idt), user_agent@)
                            + seq![("session-id"@, session)]
                    },
                None => if is_anthropic {
                    r.payload matches UpstreamPayload::Anthropic(m) && pairs_view(r.headers@) == anthropic_header_pairs(api_key@)
                        && exists|v: JsonValue| model_of(v) == lim && #[trigger] anthropic_request_of(m, v, upstream_model@)
                } else {
                    r.payload matches UpstreamPayload::Json(b) && model_of(b) == openai_body(lim, upstream_model@, url@)
                        && pairs_view(r.headers@) == bearer_headers(api_key@)
                },
            }
        }),
{
    let limited = match output_token_limit {
        Some(limit) => apply_output_token_limit(body, upstream_model, is_anthropic, codex_tokens.is_some(), limit),
        None => copy_value(body),
    };
    match codex_tokens {
        Some((account_id, id_token)) => {
            let (session, codex_body) = match codex_session_id {
                Some(s) => {
                    let mut ms = indexed_members(&limited);
                    proof {
                        if model_of(limited) is Null {
                            assert(m_set(Seq::<(Seq<char>, JsonModel)>::empty(), "prompt_cache_key"@, JsonModel::Str(s@)) =~= seq![
                                ("prompt_cache_key"@, JsonModel::Str(s@)),
                            ]) by {
                                crate::seqs::lemma_first_index_none(
                                    Seq::<(Seq<char>, JsonModel)>::empty(),
                                    |p: (Seq<char>, JsonModel)| p.0 == "prompt_cache_key"@,
                                );
                                crate::seqs::lemma_first_index_none(
                                    Seq::<(Seq<char>, JsonModel)>::empty(),
                                    |p: (Seq<char>, JsonModel)| crate::codex_stream::key_lt("prompt_cache_key"@, p.0),
                                );
                            }
                        }
                    }
                    obj_set(&mut ms, String::from_str("prompt_cache_key"), JsonValue::Str(String::from_str(s)));
                    (String::from_str(s), JsonValue::Object(ms))
                },
                None => (new_codex_request_id(), limited),
            };
            let text = openai_to_codex_request_with_id(&codex_body, upstream_model, session.as_str());
            let mut headers = build_codex_auth_headers(api_key, opt_str_view(account_id), opt_str_view(id_token), user_agent);
            let extra = build_codex_responses_headers(session.as_str());
            let ghost h0 = headers@;
            headers.push((String::from_str("session-id"), session.clone()));
            proof {
                assert(pairs_view(headers@) =~= pairs_view(h0) + seq![("session-id"@, session@)]);
                assert(text@ == codex_request_text(codex_body, upstream_model@, session@));
            }
            UpstreamRequest { headers, payload: UpstreamPayload::Codex(text) }
        },
        None => {
            if is_anthropic {
                let m = openai_to_anthropic(&limited, upstream_model);
                assert(anthropic_request_of(m, limited, upstream_model@));
                UpstreamRequest { headers: anthropic_pairs(api_key), payload: UpstreamPayload::Anthropic(m) }
            } else {
                let b = build_openai_compatible_body(&limited, upstream_model, url);
                UpstreamRequest { headers: bearer(api_key), payload: UpstreamPayload::Json(b) }
            }
        },
    }
}

/// The body of a legacy completion sent to Anthropic: the request's model
/// (else the upstream model), its prompt as one user message (a prompt
/// that is not a string becomes empty), and its `max_tokens` when it is a
/// non-negative integer; keys in the order `serde_json` writes a map in.
pub open spec fn completion_anthropic_body(body: JsonValue, model: Seq<char>) -> JsonModel {
    let ms0 = seq![(
        "model"@,
        JsonModel::Str(
            match str_of(get_member(body, "model"@)) {
                Some(m) => m,
                None => model,
            },
        ),
    )];
    let ms1 = match get_member(body, "prompt"@) {
        Some(p) => m_set(
            ms0,
            "messages"@,
            JsonModel::Arr(seq![JsonModel::Obj(seq![
                ("content"@, JsonModel::Str(match str_of(Some(p)) { Some(t) => t, None => Seq::empty() })),
                ("role"@, JsonModel::Str("user"@)),
            ])]),
        ),
        None => ms0,
    };
    JsonModel::Obj(
        match u64_of(get_member(body, "max_tokens"@)) {
            Some(n) => m_set(ms1, "max_tokens"@, num(n)),
            None => ms1,
        },
    )
}

/// Builds the request for a legacy completion upstream: Anthropic gets the
/// prompt as a one-message Messages body (see [`completion_anthropic_body`]),
/// others the OpenAI-compatible body with a bearer key.
pub fn build_completion_request(body: &JsonValue, api_key: &str, upstream_model: &str, url: &str, is_anthropic: bool) -> (r: UpstreamRequest)
    requires
        !is_anthropic ==> indexable(model_of(*body)),
    ensures
        is_anthropic ==> (r.payload matches UpstreamPayload::Json(b) && model_of(b) == completion_anthropic_body(
            *body,
            upstream_model@,
        ) && pairs_view(r.headers@) == anthropic_header_pairs(api_key@)),
        !is_anthropic ==> (r.payload matches UpstreamPayload::Json(b) && model_of(b) == openai_body(
            model_of(*body),
            upstream_model@,
            url@,
        ) && pairs_view(r.headers@) == bearer_headers(api_key@)),
{
    if is_anthropic {
        let model: &str = match as_str(get(body, "model")) {
            Some(m) => m,
            None => upstream_model,
        };
        let mut ms: Vec<(String, JsonValue)> = Vec::new();
        ms.push((String::from_str("model"), JsonValue::Str(String::from_str(model))));
        let ghost ms0 = seq![(
            "model"@,
            JsonModel::Str(
                match str_of(get_member(*body, "model"@)) {
                    Some(m) => m,
                    None => upstream_model@,
                },
            ),
        )];
        proof {
            lemma_model_members(ms@);
            assert(model_members(ms@) =~= ms0);
        }
        let ghost ms1 = match get_member(*body, "prompt"@) {
            Some(p) => m_set(
                ms0,
                "messages"@,
                JsonModel::Arr(seq![JsonModel::Obj(seq![
                    ("content"@, JsonModel::Str(match str_of(Some(p)) { Some(t) => t, None => Seq::empty() })),
                    ("role"@, JsonModel::Str("user"@)),
                ])]),
            ),
            None => ms0,
        };
        match get(body, "prompt") {
            Some(p) => {
                let t: &str = match as_str(Some(p)) {
                    Some(t) => t,
                    None => "",
                };
                proof {
                    reveal_strlit("");
                }
                let msg = crate::json_model::jobj2("content", JsonValue::Str(String::from_str(t)), "role", crate::json_model::jstr("user"));
                let ghost mm = model_of(msg);
                assert(get_member(*body, "prompt"@) == Some(*p));
                assert(t@ == match str_of(Some(*p)) {
                    Some(x) => x,
                    None => Seq::<char>::empty(),
                });
                assert(mm == JsonModel::Obj(seq![
                    ("content"@, JsonModel::Str(t@)),
                    ("role"@, JsonModel::Str("user"@)),
                ]));
                let mut items: Vec<JsonValue> = Vec::new();
                items.push(msg);
                proof {
                    crate::json_model::lemma_model_items(items@);
                    assert(crate::json_model::model_items(items@) =~= seq![mm]);
                }
                let arr = JsonValue::Array(items);
                assert(model_of(arr) == JsonModel::Arr(seq![mm]));
                obj_set(&mut ms, String::from_str("messages"), arr);
                assert(model_members(ms@) == m_set(ms0, "messages"@, JsonModel::Arr(seq![mm])));
                let ghost inner = seq![
                    ("content"@, JsonModel::Str(match str_of(Some(*p)) {
                        Some(x) => x,
                        None => Seq::<char>::empty(),
                    })),
                    ("role"@, JsonModel::Str("user"@)),
                ];
                assert(inner =~= seq![("content"@, JsonModel::Str(t@)), ("role"@, JsonModel::Str("user"@))]);
                assert(seq![mm] =~= seq![JsonModel::Obj(inner)]);
                assert(model_members(ms@) == ms1);
            },
            None => {},
        }
        assert(model_members(ms@) == ms1);
        match as_u64(get(body, "max_tokens")) {
            Some(n) => {
                obj_set(&mut ms, String::from_str("max_tokens"), JsonValue::Number(JsonNumber::PosInt(n)));
            },
            None => {},
        }
        UpstreamRequest { headers: anthropic_pairs(api_key), payload: UpstreamPayload::Json(JsonValue::Object(ms)) }
    } else {
        let b = build_openai_compatible_body(body, upstream_model, url);
        UpstreamRequest { headers: bearer(api_key), payload: UpstreamPayload::Json(b) }
    }
}

} // verus!
