//! Codex credentials: reading the stored credential, deciding when its
//! access token is due for a refresh, writing the `auth.json` text that is
//! stored back, and the device sign-in answers.

use vstd::prelude::*;
use crate::json::{JsonValue, JsonNumber, get, get_member, str_of, as_str, parse_json, json_parse, push_quoted, quoted};
use crate::json::{parse_json_bytes, json_parse_bytes};
use crate::codex::{
    CodexTokens, CodexDeviceAuthStart, CodexDeviceAuthPoll, member_opt, token_claims, second_segment, b64url_decode,
    decode_id_token_claims,
};
use crate::codex_stream::{or_else_value, or_else_ref, member_ref};
use crate::config_models::or_opt;
use crate::translator::opt_view;
use crate::text::{append_str, append_decimal, chars_of, trim_chars, trim_ws, has_prefix, string_from_chars, cat, str_eq};
use crate::ids::system_time_secs;

verus! {

/// The fields a credential yields: access token, account id, id token and
/// refresh token.
pub open spec fn fields_view(r: (String, Option<String>, Option<String>, Option<String>)) -> (
    Seq<char>,
    Option<Seq<char>>,
    Option<Seq<char>>,
    Option<Seq<char>>,
) {
    (r.0@, opt_view(r.1), opt_view(r.2), opt_view(r.3))
}

/// The account a token claims, if any.
pub open spec fn claimed(token: Option<Seq<char>>) -> Option<Seq<char>> {
    token_claims(token).0
}

/// The fields of typed tokens: the stored account id, else the one the id
/// token claims, else the one the access token claims.
pub open spec fn from_tokens(t: CodexTokens) -> (Seq<char>, Option<Seq<char>>, Option<Seq<char>>, Option<Seq<char>>) {
    let id = opt_view(t.id_token);
    (
        t.access_token@,
        or_opt(or_opt(opt_view(t.account_id), claimed(id)), claimed(Some(t.access_token@))),
        id,
        opt_view(t.refresh_token),
    )
}

/// A field at the top of a document, else under `tokens`.
pub open spec fn either_member(v: JsonValue, k: Seq<char>) -> Option<JsonValue> {
    or_else_value(get_member(v, k), member_opt(get_member(v, "tokens"@), k))
}

/// The raw credential as the access token alone.
pub open spec fn raw_fields(credential: Seq<char>) -> (Seq<char>, Option<Seq<char>>, Option<Seq<char>>, Option<Seq<char>>) {
    (credential, None, None, None)
}

/// The fields read from any JSON document: string fields at the top or
/// under `tokens`; without a non-empty access token the credential is raw.
pub open spec fn from_value(credential: Seq<char>, v: JsonValue) -> (Seq<char>, Option<Seq<char>>, Option<Seq<char>>, Option<Seq<char>>) {
    let access = match str_of(either_member(v, "access_token"@)) {
        Some(a) => a,
        None => Seq::empty(),
    };
    if access.len() == 0 {
        raw_fields(credential)
    } else {
        let id = str_of(either_member(v, "id_token"@));
        (
            access,
            or_opt(or_opt(str_of(either_member(v, "account_id"@)), claimed(id)), claimed(Some(access))),
            id,
            str_of(either_member(v, "refresh_token"@)),
        )
    }
}

/// What a stored credential yields. Text that starts (after white space)
/// with `{` is read as an `auth.json` (`as_auth`, its tokens when it reads
/// as one), else as bare tokens (`as_tokens`), else as any JSON document;
/// anything else is a raw access token.
pub open spec fn credential_fields(
    credential: Seq<char>,
    as_auth: Option<CodexTokens>,
    as_tokens: Option<CodexTokens>,
) -> (Seq<char>, Option<Seq<char>>, Option<Seq<char>>, Option<Seq<char>>) {
    if has_prefix(trim_ws(credential), "{"@) {
        match as_auth {
            Some(t) => from_tokens(t),
            None => match as_tokens {
                Some(t) => from_tokens(t),
                None => match json_parse(credential) {
                    Some(v) => from_value(credential, v),
                    None => raw_fields(credential),
                },
            },
        }
    } else {
        raw_fields(credential)
    }
}

fn copy_opt(s: &Option<String>) -> (r: Option<String>)
    ensures
        opt_view(r) == opt_view(*s),
{
    match s {
        Some(x) => Some(x.clone()),
        None => None,
    }
}

fn or_string(a: Option<String>, b: Option<String>) -> (r: Option<String>)
    ensures
        opt_view(r) == or_opt(opt_view(a), opt_view(b)),
{
    match a {
        Some(x) => Some(x),
        None => b,
    }
}

fn claimed_exec(token: Option<&str>) -> (r: Option<String>)
    ensures
        opt_view(r) == claimed(
            match token {
                Some(t) => Some(t@),
                None => None,
            },
        ),
{
    let (a, _) = decode_id_token_claims(token);
    a
}

fn fields_from_tokens(t: &CodexTokens) -> (r: (String, Option<String>, Option<String>, Option<String>))
    ensures
        fields_view(r) == from_tokens(*t),
{
    let id = copy_opt(&t.id_token);
    let from_id = claimed_exec(
        match &id {
            Some(x) => Some(x.as_str()),
            None => None,
        },
    );
    let from_access = claimed_exec(Some(t.access_token.as_str()));
    let account = or_string(or_string(copy_opt(&t.account_id), from_id), from_access);
    (t.access_token.clone(), account, id, copy_opt(&t.refresh_token))
}

fn either_str<'a>(v: &'a JsonValue, k: &str) -> (r: Option<&'a str>)
    ensures
        match r {
            Some(s) => str_of(either_member(*v, k@)) == Some(s@),
            None => str_of(either_member(*v, k@)) is None,
        },
{
    as_str(or_else_ref(get(v, k), member_ref(get(v, "tokens"), k)))
}

fn owned(s: Option<&str>) -> (r: Option<String>)
    ensures
        opt_view(r) == match s {
            Some(x) => Some(x@),
            None => None,
        },
{
    match s {
        Some(x) => Some(String::from_str(x)),
        None => None,
    }
}

fn fields_from_value(credential: &str, v: &JsonValue) -> (r: (String, Option<String>, Option<String>, Option<String>))
    ensures
        fields_view(r) == from_value(credential@, *v),
{
    let access = match either_str(v, "access_token") {
        Some(a) => a,
        None => "",
    };
    proof {
        reveal_strlit("");
    }
    if access.unicode_len() == 0 {
        return (String::from_str(credential), None, None, None);
    }
    let id = owned(either_str(v, "id_token"));
    let from_id = claimed_exec(
        match &id {
            Some(x) => Some(x.as_str()),
            None => None,
        },
    );
    let from_access = claimed_exec(Some(access));
    let account = or_string(or_string(owned(either_str(v, "account_id")), from_id), from_access);
    (String::from_str(access), account, id, owned(either_str(v, "refresh_token")))
}

/// Reads a stored credential; see [`credential_fields`]. `as_auth` and
/// `as_tokens` are what `serde` makes of the text as an `auth.json` (its
/// tokens) and as bare tokens, `None` where it does not read as one.
pub fn parse_codex_credential(
    credential: &str,
    as_auth: Option<CodexTokens>,
    as_tokens: Option<CodexTokens>,
) -> (r: (String, Option<String>, Option<String>, Option<String>))
    ensures
        fields_view(r) == credential_fields(credential@, as_auth, as_tokens),
{
    let cs = chars_of(credential);
    let t = trim_chars(&cs);
    if t.len() > 0 && t[0] == '{' {
        proof {
            reveal_strlit("{");
            assert(t@.take(1) =~= "{"@);
            assert(has_prefix(trim_ws(credential@), "{"@));
        }
        match &as_auth {
            Some(tk) => return fields_from_tokens(tk),
            None => {},
        }
        match &as_tokens {
            Some(tk) => return fields_from_tokens(tk),
            None => {},
        }
        match parse_json(credential) {
            Some(v) => fields_from_value(credential, &v),
            None => (String::from_str(credential), None, None, None),
        }
    } else {
        proof {
            reveal_strlit("{");
            if t@.len() > 0 {
                assert(!has_prefix(trim_ws(credential@), "{"@)) by {
                    if has_prefix(trim_ws(credential@), "{"@) {
                        assert(t@.take(1)[0] == t@[0]);
                    }
                }
            }
        }
        (String::from_str(credential), None, None, None)
    }
}

// ---------------------------------------------------------------------------
// Expiry
// ---------------------------------------------------------------------------

/// The value of an integer that fits `i64`, as `serde_json`'s `as_i64`
/// reads it.
pub open spec fn i64_of(v: Option<JsonValue>) -> Option<i64> {
    match v {
        Some(JsonValue::Number(JsonNumber::PosInt(n))) => if n <= i64::MAX {
            Some(n as i64)
        } else {
            None
        },
        Some(JsonValue::Number(JsonNumber::NegInt(i))) => Some(i),
        _ => None,
    }
}

/// Whether an access token is due for a refresh at `now` (seconds since
/// the epoch) with `skew` seconds of margin: a token without a dot cannot
/// be checked and is not due; a payload that is not base64 JSON is due; a
/// payload without an integer `exp` is not due; otherwise it is due once
/// `now + skew` reaches `exp`.
pub open spec fn needs_refresh(token: Seq<char>, skew: i64, now: i64) -> bool {
    match second_segment(token) {
        None => false,
        Some(seg) => match b64url_decode(seg) {
            None => true,
            Some(bytes) => match json_parse_bytes(bytes) {
                Err(_) => true,
                Ok(v) => match i64_of(get_member(v, "exp"@)) {
                    None => false,
                    Some(exp) => now + skew >= exp,
                },
            },
        },
    }
}

fn exp_of(v: &JsonValue) -> (r: Option<i64>)
    ensures
        r == i64_of(get_member(*v, "exp"@)),
{
    match get(v, "exp") {
        Some(JsonValue::Number(JsonNumber::PosInt(n))) => {
            if *n <= 0x7fff_ffff_ffff_ffffu64 {
                Some(*n as i64)
            } else {
                None
            }
        },
        Some(JsonValue::Number(JsonNumber::NegInt(i))) => Some(*i),
        _ => None,
    }
}

/// Whether an access token is due for a refresh at a given time; see
/// [`needs_refresh`].
pub fn token_needs_refresh_at(access_token: &str, skew_secs: i64, now_secs: i64) -> (r: bool)
    ensures
        r == needs_refresh(access_token@, skew_secs, now_secs),
{
    let seg = match crate::codex::payload_segment(access_token) {
        Some(s) => s,
        None => return false,
    };
    let bytes = match crate::codex::decode_b64url(seg.as_str()) {
        Some(b) => b,
        None => return true,
    };
    let v = match parse_json_bytes(bytes.as_slice()) {
        Ok(v) => v,
        Err(_) => return true,
    };
    match exp_of(&v) {
        None => false,
        Some(exp) => (now_secs as i128) + (skew_secs as i128) >= (exp as i128),
    }
}

/// Whether an access token is due for a refresh now, by the system clock
/// read in whole seconds; see [`needs_refresh`].
pub fn token_needs_refresh(access_token: &str, skew_secs: i64) -> (r: bool)
    ensures
        exists|secs: u64| r == #[trigger] needs_refresh(access_token@, skew_secs, secs as i64),
{
    let secs = system_time_secs();
    let r = token_needs_refresh_at(access_token, skew_secs, secs as i64);
    assert(r == needs_refresh(access_token@, skew_secs, secs as i64));
    r
}

// ---------------------------------------------------------------------------
// Writing credentials
// ---------------------------------------------------------------------------

/// An optional member `,"key":"value"`.
pub open spec fn opt_member(key: Seq<char>, v: Option<Seq<char>>) -> Seq<char> {
    match v {
        Some(s) => ","@ + quoted(key) + ":"@ + quoted(s),
        None => Seq::empty(),
    }
}

/// The `auth.json` text of tokens, compact, with the token keys in the
/// order `serde_json` writes a map in.
pub open spec fn auth_json(
    access: Seq<char>,
    refresh: Option<Seq<char>>,
    account: Option<Seq<char>>,
    id: Option<Seq<char>>,
) -> Seq<char> {
    "{\"tokens\":{\"access_token\":"@ + quoted(access) + opt_member("account_id"@, account) + opt_member("id_token"@, id)
        + opt_member("refresh_token"@, refresh) + "}}"@
}

fn push_opt_member(out: &mut Vec<char>, key: &str, v: Option<&str>)
    ensures
        final(out)@ == old(out)@ + opt_member(
            key@,
            match v {
                Some(s) => Some(s@),
                None => None,
            },
        ),
{
    match v {
        Some(s) => {
            let ghost o = out@;
            append_str(out, ",");
            push_quoted(out, key);
            append_str(out, ":");
            push_quoted(out, s);
            proof {
                reveal_strlit(",");
                reveal_strlit(":");
            }
            assert(out@ =~= o + opt_member(key@, Some(s@)));
        },
        None => {
            assert(out@ =~= old(out)@ + Seq::<char>::empty());
        },
    }
}

fn sv(v: Option<&str>) -> (r: Option<&str>)
    ensures
        r == v,
{
    v
}

/// Writes the `auth.json` text of tokens; see [`auth_json`].
pub fn build_auth_json(access_token: &str, refresh_token: Option<&str>, account_id: Option<&str>, id_token: Option<&str>) -> (r: String)
    ensures
        r@ == auth_json(
            access_token@,
            match refresh_token {
                Some(s) => Some(s@),
                None => None,
            },
            match account_id {
                Some(s) => Some(s@),
                None => None,
            },
            match id_token {
                Some(s) => Some(s@),
                None => None,
            },
        ),
{
    let mut out: Vec<char> = Vec::new();
    append_str(&mut out, "{\"tokens\":{\"access_token\":");
    push_quoted(&mut out, access_token);
    push_opt_member(&mut out, "account_id", sv(account_id));
    push_opt_member(&mut out, "id_token", sv(id_token));
    push_opt_member(&mut out, "refresh_token", sv(refresh_token));
    append_str(&mut out, "}}");
    string_from_chars(&out)
}

/// The tokens a device sign-in ends with.
#[derive(Clone, Debug)]
pub struct AuthCodeTokenResponse {
    pub access_token: String,
    pub refresh_token: String,
    pub id_token: String,
}

/// The credential stored after a device sign-in: all three tokens, with the
/// account the id token claims.
pub fn credential_from_device_tokens(token: &AuthCodeTokenResponse) -> (r: String)
    ensures
        r@ == auth_json(
            token.access_token@,
            Some(token.refresh_token@),
            claimed(Some(token.id_token@)),
            Some(token.id_token@),
        ),
{
    let account = claimed_exec(Some(token.id_token.as_str()));
    build_auth_json(
        token.access_token.as_str(),
        Some(token.refresh_token.as_str()),
        match &account {
            Some(a) => Some(a.as_str()),
            None => None,
        },
        Some(token.id_token.as_str()),
    )
}

// ---------------------------------------------------------------------------
// Refreshing a stored credential
// ---------------------------------------------------------------------------

/// The margin, in seconds, before expiry at which a token is refreshed.
pub const REFRESH_SKEW_SECS: i64 = 60;

/// The refresh token to use at `now`: only a credential with a non-empty
/// refresh token whose access token is due is refreshed.
pub open spec fn refresh_due(access: Seq<char>, refresh: Option<Seq<char>>, now: i64) -> Option<Seq<char>> {
    match refresh {
        Some(rt) => if rt.len() > 0 && needs_refresh(access, REFRESH_SKEW_SECS, now) {
            Some(rt)
        } else {
            None
        },
        None => None,
    }
}

/// Decides whether a stored credential is refreshed at `now`; see
/// [`refresh_due`].
pub fn codex_refresh_due(access_token: &str, refresh_token: &Option<String>, now_secs: i64) -> (r: Option<String>)
    ensures
        opt_view(r) == refresh_due(access_token@, opt_view(*refresh_token), now_secs),
{
    match refresh_token {
        Some(rt) => {
            if rt.unicode_len() > 0 && token_needs_refresh_at(access_token, REFRESH_SKEW_SECS, now_secs) {
                Some(rt.clone())
            } else {
                None
            }
        },
        None => None,
    }
}

/// After a refresh: the new access token; the new id token, else the old
/// one; the stored account, else the one that id token claims; and the
/// `auth.json` to store, keeping the old refresh token when no new one
/// came.
pub open spec fn refreshed(
    account: Option<Seq<char>>,
    id: Option<Seq<char>>,
    rt: Seq<char>,
    new_access: Seq<char>,
    new_refresh: Option<Seq<char>>,
    new_id: Option<Seq<char>>,
) -> (Seq<char>, Option<Seq<char>>, Option<Seq<char>>, Seq<char>) {
    let idt = or_opt(new_id, id);
    let acct = or_opt(account, claimed(idt));
    (new_access, acct, idt, auth_json(new_access, Some(or_opt(new_refresh, Some(rt)).unwrap()), acct, idt))
}

/// The credential after a successful refresh; see [`refreshed`]. The
/// result is the access token, account id, id token and the text to store.
pub fn after_token_refresh(
    account_id: Option<String>,
    id_token: Option<String>,
    refresh_token: &str,
    new_access: String,
    new_refresh: Option<String>,
    new_id: Option<String>,
) -> (r: (String, Option<String>, Option<String>, String))
    ensures
        (r.0@, opt_view(r.1), opt_view(r.2), r.3@) == refreshed(
            opt_view(account_id),
            opt_view(id_token),
            refresh_token@,
            new_access@,
            opt_view(new_refresh),
            opt_view(new_id),
        ),
{
    let idt = or_string(new_id, id_token);
    let from_id = claimed_exec(
        match &idt {
            Some(x) => Some(x.as_str()),
            None => None,
        },
    );
    let acct = or_string(account_id, from_id);
    let rt: &str = match &new_refresh {
        Some(x) => x.as_str(),
        None => refresh_token,
    };
    let json = build_auth_json(
        new_access.as_str(),
        Some(rt),
        match &acct {
            Some(a) => Some(a.as_str()),
            None => None,
        },
        match &idt {
            Some(x) => Some(x.as_str()),
            None => None,
        },
    );
    (new_access, acct, idt, json)
}

// ---------------------------------------------------------------------------
// Device sign-in
// ---------------------------------------------------------------------------

/// How long a device code stays valid, in seconds.
pub const CODEX_DEVICE_EXPIRES_IN_SECONDS: u64 = 900;

/// The start of a device sign-in for a user code: the Codex device page,
/// the poll interval (at least one second) and the code's lifetime.
pub fn device_auth_start(user_code: String, device_auth_id: String, interval: u64) -> (r: CodexDeviceAuthStart)
    ensures
        r.verification_url@ == "https://auth.openai.com/codex/device"@,
        r.user_code@ == user_code@,
        r.device_auth_id@ == device_auth_id@,
        r.interval == if interval < 1 { 1 } else { interval },
        r.expires_in == CODEX_DEVICE_EXPIRES_IN_SECONDS,
{
    CodexDeviceAuthStart {
        verification_url: String::from_str("https://auth.openai.com/codex/device"),
        user_code,
        device_auth_id,
        interval: if interval < 1 {
            1
        } else {
            interval
        },
        expires_in: CODEX_DEVICE_EXPIRES_IN_SECONDS,
    }
}

/// Whether a poll's HTTP status means the user has not approved the code
/// yet (403 or 404).
pub fn device_poll_waiting(status: u16) -> (r: bool)
    ensures
        r == (status == 403 || status == 404),
{
    status == 403 || status == 404
}

/// The answer to a poll while approval is pending.
pub fn device_poll_pending() -> (r: CodexDeviceAuthPoll)
    ensures
        r.status@ == "pending"@,
        r.credential is None,
        r.message matches Some(m) && m@ == "Waiting for ChatGPT approval"@,
{
    CodexDeviceAuthPoll {
        status: String::from_str("pending"),
        credential: None,
        message: Some(String::from_str("Waiting for ChatGPT approval")),
    }
}

/// The answer to a poll once sign-in is complete, with the credential.
pub fn device_poll_authorized(credential: String) -> (r: CodexDeviceAuthPoll)
    ensures
        r.status@ == "authorized"@,
        r.credential matches Some(c) && c@ == credential@,
        r.message matches Some(m) && m@ == "ChatGPT sign-in complete"@,
{
    CodexDeviceAuthPoll {
        status: String::from_str("authorized"),
        credential: Some(credential),
        message: Some(String::from_str("ChatGPT sign-in complete")),
    }
}

/// An ASCII decimal digit.
pub open spec fn is_digit(c: char) -> bool {
    '0' <= c && c <= '9'
}

pub open spec fn invalid_digit() -> Seq<char> {
    "invalid digit found in string"@
}

pub open spec fn too_large() -> Seq<char> {
    "number too large to fit in target type"@
}

/// Digits read left to right onto `acc`: the first character that is not
/// a digit, or the first digit that takes the value past `u64::MAX`, is the
/// error.
pub open spec fn digits_value(ds: Seq<char>, acc: int) -> Result<int, Seq<char>>
    decreases ds.len(),
{
    if ds.len() == 0 {
        Ok(acc)
    } else if !is_digit(ds[0]) {
        Err(invalid_digit())
    } else if acc * 10 + (ds[0] as int - '0' as int) > u64::MAX {
        Err(too_large())
    } else {
        digits_value(ds.drop_first(), acc * 10 + (ds[0] as int - '0' as int))
    }
}

/// How `str::parse::<u64>` reads a text, with the error as it displays: an
/// optional leading `+` and decimal digits.
pub open spec fn parse_u64(s: Seq<char>) -> Result<int, Seq<char>> {
    if s.len() == 0 {
        Err("cannot parse integer from empty string"@)
    } else if s[0] == '+' {
        if s.len() == 1 {
            Err(invalid_digit())
        } else {
            digits_value(s.drop_first(), 0)
        }
    } else if s.len() == 1 && s[0] == '-' {
        Err(invalid_digit())
    } else {
        digits_value(s, 0)
    }
}

/// Reads a text as `str::parse::<u64>` does; see [`parse_u64`].
pub fn parse_u64_text(s: &str) -> (r: Result<u64, String>)
    ensures
        match parse_u64(s@) {
            Ok(n) => r matches Ok(x) && x == n,
            Err(e) => r matches Err(m) && m@ == e,
        },
{
    let cs = chars_of(s);
    if cs.len() == 0 {
        return Err(String::from_str("cannot parse integer from empty string"));
    }
    let start: usize = if cs[0] == '+' {
        if cs.len() == 1 {
            return Err(String::from_str("invalid digit found in string"));
        }
        1
    } else {
        0
    };
    let ghost ds = cs@.skip(start as int);
    assert(cs@.skip(0) =~= cs@);
    assert(cs@.skip(1) =~= cs@.drop_first());
    assert(parse_u64(s@) == digits_value(ds, 0));
    let mut acc: u64 = 0;
    let mut i: usize = start;
    while i < cs.len()
        invariant
            start <= i <= cs@.len(),
            ds == cs@.skip(start as int),
            parse_u64(s@) == digits_value(ds, 0),
            digits_value(ds, 0) == digits_value(cs@.skip(i as int), acc as int),
        decreases cs.len() - i,
    {
        let c = cs[i];
        assert(cs@.skip(i as int)[0] == c);
        assert(cs@.skip(i as int).drop_first() =~= cs@.skip(i + 1));
        if !('0' <= c && c <= '9') {
            return Err(String::from_str("invalid digit found in string"));
        }
        let d = (c as u32 - '0' as u32) as u64;
        if acc > (u64::MAX - d) / 10 {
            assert(acc * 10 + d > u64::MAX) by (nonlinear_arith)
                requires
                    acc > (u64::MAX - d) / 10,
                    d <= 9,
            ;
            return Err(String::from_str("number too large to fit in target type"));
        }
        assert(acc * 10 + d <= u64::MAX) by (nonlinear_arith)
            requires
                acc <= (u64::MAX - d) / 10,
                d <= 9,
        ;
        acc = acc * 10 + d;
        i = i + 1;
    }
    assert(cs@.skip(i as int) =~= Seq::<char>::empty());
    Ok(acc)
}

/// The poll interval of a device code answer, as it is read: a
/// non-negative integer, or a text (trimmed) that parses as one.
pub open spec fn interval_of(v: JsonValue) -> Result<int, Seq<char>> {
    match v {
        JsonValue::Number(JsonNumber::PosInt(n)) => Ok(n as int),
        JsonValue::Number(_) => Err("interval must be a positive integer"@),
        JsonValue::Str(s) => match parse_u64(trim_ws(s@)) {
            Ok(n) => Ok(n),
            Err(e) => Err("invalid interval: "@ + e),
        },
        _ => Err("interval must be a string or integer"@),
    }
}

/// Reads the poll interval of a device code answer; see [`interval_of`].
pub fn interval_from_value(v: &JsonValue) -> (r: Result<u64, String>)
    ensures
        match interval_of(*v) {
            Ok(n) => r matches Ok(x) && x == n,
            Err(e) => r matches Err(m) && m@ == e,
        },
{
    match v {
        JsonValue::Number(JsonNumber::PosInt(n)) => Ok(*n),
        JsonValue::Number(_) => Err(String::from_str("interval must be a positive integer")),
        JsonValue::Str(s) => {
            let cs = chars_of(s.as_str());
            let t = trim_chars(&cs);
            let ts = string_from_chars(&t);
            match parse_u64_text(ts.as_str()) {
                Ok(n) => Ok(n),
                Err(e) => Err(cat("invalid interval: ", e.as_str())),
            }
        },
        _ => Err(String::from_str("interval must be a string or integer")),
    }
}

} // verus!
