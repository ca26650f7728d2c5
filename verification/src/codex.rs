//! The OpenAI Codex (ChatGPT sign-in) provider: credential fields, the
//! claims of its JWTs, and the headers of its requests.

use vstd::prelude::*;
use base64::Engine;
use crate::json::{
    JsonValue, JsonNumber, get, get_member, str_of, bool_of, parse_json_bytes, json_parse_bytes,
    as_str, as_bool, deref_opt,
};
use crate::text::{cat, cat3, str_eq, chars_of, string_from_chars, trim_chars, trim_ws};
use crate::ids::{uuid_v4_simple, is_lower_hex};
use crate::seqs::{first_index, lemma_first_index_spec, lemma_first_index_unique, lemma_first_index_none};

verus! {

/// The client name Codex requests identify themselves with.
pub const CODEX_ORIGINATOR: &'static str = "opencode";

/// The client version reported when none is configured.
pub const DEFAULT_CODEX_CLIENT_VERSION: &'static str = "0.135.0";

/// This package's version, as the user agent reports it.
pub const PACKAGE_VERSION: &'static str = "0.1.0";

/// The token fields of a Codex `auth.json`.
#[derive(Clone, Debug)]
pub struct CodexTokens {
    pub access_token: String,
    pub refresh_token: Option<String>,
    pub account_id: Option<String>,
    pub id_token: Option<String>,
}

/// A Codex `auth.json`.
#[derive(Clone, Debug)]
pub struct CodexAuth {
    pub tokens: CodexTokens,
}

/// The start of a device sign-in: where to go and which code to enter.
#[derive(Clone, Debug)]
pub struct CodexDeviceAuthStart {
    pub verification_url: String,
    pub user_code: String,
    pub device_auth_id: String,
    pub interval: u64,
    pub expires_in: u64,
}

/// One poll of a device sign-in.
#[derive(Clone, Debug)]
pub struct CodexDeviceAuthPoll {
    pub status: String,
    pub credential: Option<String>,
    pub message: Option<String>,
}

// ---------------------------------------------------------------------------
// JWT claims
// ---------------------------------------------------------------------------

/// What the URL-safe, unpadded base64 engine of the `base64` crate decodes
/// a text to; `None` when the text is not such base64.
pub uninterp spec fn b64url_decode(text: Seq<char>) -> Option<Seq<u8>>;

/// Decodes text with `base64::engine::general_purpose::URL_SAFE_NO_PAD`;
/// the result is named [`b64url_decode`] of the text.
#[verifier::external_body]
pub(crate) fn decode_b64url(text: &str) -> (r: Option<Vec<u8>>)
    ensures
        match r {
            Some(b) => b64url_decode(text@) == Some(b@),
            None => b64url_decode(text@) is None,
        },
{
    base64::engine::general_purpose::URL_SAFE_NO_PAD.decode(text).ok()
}

pub open spec fn is_dot(c: char) -> bool {
    c == '.'
}

/// The second dot-separated segment of a text (the payload of a JWT), or
/// `None` when the text holds no dot.
pub open spec fn second_segment(s: Seq<char>) -> Option<Seq<char>> {
    match first_index(s, |c: char| is_dot(c)) {
        Some(i) => {
            let rest = s.skip(i + 1);
            match first_index(rest, |c: char| is_dot(c)) {
                Some(j) => Some(rest.take(j)),
                None => Some(rest),
            }
        },
        None => None,
    }
}

/// A member of an optional value.
pub open spec fn member_opt(v: Option<JsonValue>, key: Seq<char>) -> Option<JsonValue> {
    match v {
        Some(x) => get_member(x, key),
        None => None,
    }
}

/// The namespace Codex JWTs carry their account claims in.
pub open spec fn auth_namespace() -> Seq<char> {
    "https://api.openai.com/auth"@
}

/// The `id` of the first entry of the `organizations` array.
pub open spec fn first_org_id(v: JsonValue) -> Option<Seq<char>> {
    match get_member(v, "organizations"@) {
        Some(JsonValue::Array(items)) => if items@.len() > 0 {
            str_of(get_member(items@[0], "id"@))
        } else {
            None
        },
        _ => None,
    }
}

/// The account id and FedRAMP flag a JWT payload claims: the top-level
/// `chatgpt_account_id` and `fedramp`, each overridden by its counterpart in
/// the OpenAI namespace, and the first organization's id as last resort.
pub open spec fn payload_claims(v: JsonValue) -> (Option<Seq<char>>, bool) {
    let ns = get_member(v, auth_namespace());
    let acct0 = str_of(get_member(v, "chatgpt_account_id"@));
    let fr0 = match bool_of(get_member(v, "fedramp"@)) {
        Some(b) => b,
        None => false,
    };
    let acct1 = match str_of(member_opt(ns, "chatgpt_account_id"@)) {
        Some(a) => Some(a),
        None => acct0,
    };
    let fr1 = match bool_of(member_opt(ns, "chatgpt_account_is_fedramp"@)) {
        Some(b) => b,
        None => fr0,
    };
    let acct = match acct1 {
        Some(a) => Some(a),
        None => first_org_id(v),
    };
    (acct, fr1)
}

/// The claims of an optional token: those of its decoded payload, or no
/// account and no FedRAMP when there is no non-empty token, no payload
/// segment, or the segment does not decode to JSON.
pub open spec fn token_claims(token: Option<Seq<char>>) -> (Option<Seq<char>>, bool) {
    match token {
        Some(t) => if t.len() == 0 {
            (None, false)
        } else {
            match second_segment(t) {
                Some(seg) => match b64url_decode(seg) {
                    Some(bytes) => match json_parse_bytes(bytes) {
                        Ok(v) => payload_claims(v),
                        Err(_) => (None, false),
                    },
                    None => (None, false),
                },
                None => (None, false),
            }
        },
        None => (None, false),
    }
}

/// The first dot at or after `from`, or the length.
fn find_dot(cs: &Vec<char>, from: usize) -> (r: usize)
    requires
        from <= cs@.len(),
    ensures
        from <= r <= cs@.len(),
        forall|k: int| from <= k < r ==> !is_dot(#[trigger] cs@[k]),
        r < cs@.len() ==> is_dot(cs@[r as int]),
{
    let mut i = from;
    while i < cs.len() && cs[i] != '.'
        invariant
            from <= i <= cs@.len(),
            forall|k: int| from <= k < i ==> !is_dot(#[trigger] cs@[k]),
        decreases cs.len() - i,
    {
        i = i + 1;
    }
    i
}

proof fn lemma_first_dot(s: Seq<char>, from: int, r: int)
    requires
        0 <= from <= r <= s.len(),
        forall|k: int| from <= k < r ==> !is_dot(#[trigger] s[k]),
        r < s.len() ==> is_dot(s[r]),
    ensures
        r < s.len() ==> first_index(s.skip(from), |c: char| is_dot(c)) == Some(r - from),
        r == s.len() ==> first_index(s.skip(from), |c: char| is_dot(c)) is None,
{
    let t = s.skip(from);
    let p = |c: char| is_dot(c);
    assert forall|k: int| 0 <= k < r - from implies !p(#[trigger] t[k]) by {
        assert(t[k] == s[from + k]);
    }
    if r < s.len() {
        assert(t[r - from] == s[r]);
        lemma_first_index_unique(t, p, r - from);
    } else {
        lemma_first_index_none(t, p);
    }
}

/// The payload segment of a token.
pub(crate) fn payload_segment(token: &str) -> (r: Option<String>)
    ensures
        match r {
            Some(x) => second_segment(token@) == Some(x@),
            None => second_segment(token@) is None,
        },
{
    let cs = chars_of(token);
    let i = find_dot(&cs, 0);
    proof {
        lemma_first_dot(cs@, 0, i as int);
        assert(cs@.skip(0) =~= cs@);
    }
    if i == cs.len() {
        return None;
    }
    let j = find_dot(&cs, i + 1);
    proof {
        lemma_first_dot(cs@, i + 1, j as int);
    }
    let seg = crate::text::chars_slice(&cs, i + 1, j);
    proof {
        let rest = cs@.skip(i + 1);
        if j < cs@.len() {
            assert(seg@ =~= rest.take(j - i - 1));
        } else {
            assert(seg@ =~= rest);
        }
    }
    Some(string_from_chars(&seg))
}

/// The claims of a decoded payload.
fn claims_of(v: &JsonValue) -> (r: (Option<String>, bool))
    ensures
        (match r.0 {
            Some(a) => Some(a@),
            None => None,
        }) == payload_claims(*v).0,
        r.1 == payload_claims(*v).1,
{
    let mut account_id: Option<String> = match as_str(get(v, "chatgpt_account_id")) {
        Some(a) => Some(String::from_str(a)),
        None => None,
    };
    let mut is_fedramp = match as_bool(get(v, "fedramp")) {
        Some(b) => b,
        None => false,
    };
    match get(v, "https://api.openai.com/auth") {
        Some(ns) => {
            match as_str(get(ns, "chatgpt_account_id")) {
                Some(a) => {
                    account_id = Some(String::from_str(a));
                },
                None => {},
            }
            match as_bool(get(ns, "chatgpt_account_is_fedramp")) {
                Some(b) => {
                    is_fedramp = b;
                },
                None => {},
            }
        },
        None => {},
    }
    if account_id.is_none() {
        match get(v, "organizations") {
            Some(JsonValue::Array(items)) => {
                if items.len() > 0 {
                    match as_str(get(&items[0], "id")) {
                        Some(a) => {
                            account_id = Some(String::from_str(a));
                        },
                        None => {},
                    }
                }
            },
            _ => {},
        }
    }
    (account_id, is_fedramp)
}

/// The account id and FedRAMP flag an optional token claims; see
/// [`token_claims`].
pub fn decode_id_token_claims(id_token: Option<&str>) -> (r: (Option<String>, bool))
    ensures
        (match r.0 {
            Some(a) => Some(a@),
            None => None,
        }) == token_claims(
            match id_token {
                Some(t) => Some(t@),
                None => None,
            },
        ).0,
        r.1 == token_claims(
            match id_token {
                Some(t) => Some(t@),
                None => None,
            },
        ).1,
{
    let id = match id_token {
        Some(t) => {
            if t.unicode_len() == 0 {
                return (None, false);
            }
            t
        },
        None => return (None, false),
    };
    let seg = match payload_segment(id) {
        Some(s) => s,
        None => return (None, false),
    };
    let bytes = match decode_b64url(seg.as_str()) {
        Some(b) => b,
        None => return (None, false),
    };
    let value = match parse_json_bytes(bytes.as_slice()) {
        Ok(v) => v,
        Err(_) => return (None, false),
    };
    claims_of(&value)
}

/// Whether a token's payload claims FedRAMP.
pub fn check_fedramp(id_token: &str) -> (r: bool)
    ensures
        r == token_claims(Some(id_token@)).1,
{
    let (_, fed) = decode_id_token_claims(Some(id_token));
    fed
}

// ---------------------------------------------------------------------------
// Request headers
// ---------------------------------------------------------------------------

/// The user agent of Codex requests: the originator, this package's version,
/// and the platform (operating system, its release, architecture).
pub open spec fn user_agent_text(os: Seq<char>, release: Seq<char>, arch: Seq<char>) -> Seq<char> {
    "opencode/"@ + "0.1.0"@ + " ("@ + os + " "@ + release + "; "@ + arch + ")"@
}

/// Formats the Codex user agent for a platform.
pub fn codex_user_agent(os: &str, release: &str, arch: &str) -> (r: String)
    ensures
        r@ == user_agent_text(os@, release@, arch@),
{
    let mut out: Vec<char> = Vec::new();
    crate::text::append_str(&mut out, "opencode/");
    crate::text::append_str(&mut out, PACKAGE_VERSION);
    crate::text::append_str(&mut out, " (");
    crate::text::append_str(&mut out, os);
    crate::text::append_str(&mut out, " ");
    crate::text::append_str(&mut out, release);
    crate::text::append_str(&mut out, "; ");
    crate::text::append_str(&mut out, arch);
    crate::text::append_str(&mut out, ")");
    assert(out@ =~= user_agent_text(os@, release@, arch@));
    string_from_chars(&out)
}

/// The platform release from the kernel's release file: its trimmed text,
/// or `unknown` when it could not be read or is blank.
pub fn platform_release_from(contents: Option<&str>) -> (r: String)
    ensures
        r@ == match contents {
            Some(c) => if trim_ws(c@).len() > 0 {
                trim_ws(c@)
            } else {
                "unknown"@
            },
            None => "unknown"@,
        },
{
    match contents {
        Some(c) => {
            let t = trim_chars(&chars_of(c));
            if t.len() > 0 {
                string_from_chars(&t)
            } else {
                String::from_str("unknown")
            }
        },
        None => String::from_str("unknown"),
    }
}

/// The headers of a Codex request: bearer authorization, JSON content type,
/// the originator and the user agent; then the account id when one is given
/// and non-empty; then the FedRAMP marker when the id token claims it.
pub open spec fn codex_auth_headers(
    access_token: Seq<char>,
    account_id: Option<Seq<char>>,
    id_token: Option<Seq<char>>,
    user_agent: Seq<char>,
) -> Seq<(Seq<char>, Seq<char>)> {
    let base = seq![
        ("Authorization"@, "Bearer "@ + access_token),
        ("content-type"@, "application/json"@),
        ("originator"@, "opencode"@),
        ("User-Agent"@, user_agent),
    ];
    let with_account = match account_id {
        Some(a) => if a.len() > 0 {
            base.push(("ChatGPT-Account-Id"@, a))
        } else {
            base
        },
        None => base,
    };
    match id_token {
        Some(t) => if token_claims(Some(t)).1 {
            with_account.push(("X-OpenAI-Fedramp"@, "true"@))
        } else {
            with_account
        },
        None => with_account,
    }
}

pub open spec fn pairs_view(v: Seq<(String, String)>) -> Seq<(Seq<char>, Seq<char>)> {
    v.map_values(|p: (String, String)| (p.0@, p.1@))
}

/// Builds the headers of a Codex request; see [`codex_auth_headers`].
pub fn build_codex_auth_headers(
    access_token: &str,
    account_id: Option<&str>,
    id_token: Option<&str>,
    user_agent: &str,
) -> (r: Vec<(String, String)>)
    ensures
        pairs_view(r@) == codex_auth_headers(
            access_token@,
            match account_id {
                Some(a) => Some(a@),
                None => None,
            },
            match id_token {
                Some(t) => Some(t@),
                None => None,
            },
            user_agent@,
        ),
{
    let mut headers: Vec<(String, String)> = Vec::new();
    headers.push((String::from_str("Authorization"), cat("Bearer ", access_token)));
    headers.push((String::from_str("content-type"), String::from_str("application/json")));
    headers.push((String::from_str("originator"), String::from_str(CODEX_ORIGINATOR)));
    headers.push((String::from_str("User-Agent"), String::from_str(user_agent)));
    match account_id {
        Some(aid) => {
            if aid.unicode_len() > 0 {
                headers.push((String::from_str("ChatGPT-Account-Id"), String::from_str(aid)));
            }
        },
        None => {},
    }
    match id_token {
        Some(id) => {
            if check_fedramp(id) {
                headers.push((String::from_str("X-OpenAI-Fedramp"), String::from_str("true")));
            }
        },
        None => {},
    }
    proof {
        assert(pairs_view(headers@) =~= codex_auth_headers(
            access_token@,
            match account_id {
                Some(a) => Some(a@),
                None => None,
            },
            match id_token {
                Some(t) => Some(t@),
                None => None,
            },
            user_agent@,
        ));
    }
    headers
}

/// A fresh request id: a random version-4 UUID in simple form.
pub fn new_codex_request_id() -> (r: String)
    ensures
        r@.len() == 32,
        forall|i: int| 0 <= i < 32 ==> is_lower_hex(#[trigger] r@[i]),
{
    uuid_v4_simple()
}

/// The headers of a Codex responses request: the session id.
pub fn build_codex_responses_headers(request_id: &str) -> (r: Vec<(String, String)>)
    ensures
        pairs_view(r@) == seq![("session-id"@, request_id@)],
{
    let mut v: Vec<(String, String)> = Vec::new();
    v.push((String::from_str("session-id"), String::from_str(request_id)));
    assert(pairs_view(v@) =~= seq![("session-id"@, request_id@)]);
    v
}

} // verus!
