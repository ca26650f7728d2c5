//! What the desktop app decides around its calls to providers and to the
//! local proxy: the steps of a connection test, the request that improves
//! an agent's text and what is read from its answer, the proxy's health,
//! and the live entry statuses the OpenCode provider block is built with.

use vstd::prelude::*;
use crate::commands::{TestConnectionResult, HealthCheckResult, AgentEnhanceRequest};
use crate::json::{JsonValue, get, as_str, as_u64, get_member, str_of, u64_of, quoted, push_quoted};
use crate::router::EntryStatusResponse;
use crate::text::{append_str, append_decimal, chars_of, decimal, has_prefix, str_eq, str_starts_with, string_from_chars, trim_chars, trim_ws};

verus! {

/// At most the first `n` characters of a text.
pub open spec fn first_chars(s: Seq<char>, n: nat) -> Seq<char> {
    if s.len() <= n {
        s
    } else {
        s.take(n as int)
    }
}

/// The first `n` characters of a text, or all of it when shorter.
pub fn take_chars(s: &str, n: usize) -> (r: String)
    ensures
        r@ == first_chars(s@, n as nat),
{
    let cs = chars_of(s);
    if cs.len() <= n {
        return String::from_str(s);
    }
    let part = crate::text::chars_slice(&cs, 0, n);
    string_from_chars(&part)
}

/// A URL of the local proxy: `http://`, host, `:`, port and path.
pub open spec fn proxy_url(host: Seq<char>, port: u16, path: Seq<char>) -> Seq<char> {
    "http://"@ + host + ":"@ + decimal(port as nat) + path
}

/// Builds a URL of the local proxy; see [`proxy_url`].
pub fn proxy_endpoint(host: &str, port: u16, path: &str) -> (r: String)
    ensures
        r@ == proxy_url(host@, port, path@),
{
    let mut out: Vec<char> = Vec::new();
    append_str(&mut out, "http://");
    append_str(&mut out, host);
    append_str(&mut out, ":");
    append_decimal(&mut out, port as u64);
    append_str(&mut out, path);
    string_from_chars(&out)
}

// ---------------------------------------------------------------------------
// Provider connection test
// ---------------------------------------------------------------------------

/// The headers a connection test sends: Anthropic's key header and API
/// version for Anthropic providers, a bearer token for all others.
pub open spec fn connection_headers_of(protocol: Seq<char>, key: Seq<char>) -> Seq<(Seq<char>, Seq<char>)> {
    if protocol == "anthropic"@ {
        seq![("x-api-key"@, key), ("anthropic-version"@, "2024-06-01"@)]
    } else {
        seq![("Authorization"@, "Bearer "@ + key)]
    }
}

/// The headers of a connection test; see [`connection_headers_of`].
pub fn connection_headers(protocol: &str, api_key: &str) -> (r: Vec<(String, String)>)
    ensures
        r@.len() == connection_headers_of(protocol@, api_key@).len(),
        forall|i: int| 0 <= i < r@.len() ==> (#[trigger] r@[i]).0@ == connection_headers_of(protocol@, api_key@)[i].0
            && r@[i].1@ == connection_headers_of(protocol@, api_key@)[i].1,
{
    let mut r: Vec<(String, String)> = Vec::new();
    if str_eq(protocol, "anthropic") {
        r.push((String::from_str("x-api-key"), String::from_str(api_key)));
        r.push((String::from_str("anthropic-version"), String::from_str("2024-06-01")));
    } else {
        r.push((String::from_str("Authorization"), crate::text::cat("Bearer ", api_key)));
    }
    r
}

/// What a connection test does after the `/models` answer: report it, or
/// try the base URL when the endpoint does not exist.
#[derive(Clone, Debug)]
pub enum ConnectionStep {
    Finished(TestConnectionResult),
    ProbeBaseUrl,
}

/// Whether an HTTP status is a success (2xx).
pub open spec fn is_success_status(status: u16) -> bool {
    200 <= status <= 299
}

/// The step after the `/models` answer with the given status and body: a
/// success reports it; 404 moves on to the base URL; any other status is a
/// failure that quotes the first 200 characters of the body.
pub open spec fn connection_step_spec(status: u16, body: Seq<char>, r: ConnectionStep) -> bool {
    if is_success_status(status) {
        r matches ConnectionStep::Finished(t) && t.success && t.status_code == Some(status)
            && t.message@ == "Connection successful (HTTP "@ + decimal(status as nat) + ")"@
    } else if status == 404 {
        r is ProbeBaseUrl
    } else {
        r matches ConnectionStep::Finished(t) && !t.success && t.status_code == Some(status)
            && t.message@ == "Connection failed (HTTP "@ + decimal(status as nat) + "): "@ + first_chars(body, 200)
    }
}

/// Decides the step after the `/models` answer; see [`connection_step_spec`].
pub fn connection_step(status: u16, body: &str) -> (r: ConnectionStep)
    ensures
        connection_step_spec(status, body@, r),
{
    if 200 <= status && status <= 299 {
        let mut m: Vec<char> = Vec::new();
        append_str(&mut m, "Connection successful (HTTP ");
        append_decimal(&mut m, status as u64);
        append_str(&mut m, ")");
        ConnectionStep::Finished(TestConnectionResult { success: true, status_code: Some(status), message: string_from_chars(&m) })
    } else if status == 404 {
        ConnectionStep::ProbeBaseUrl
    } else {
        let mut m: Vec<char> = Vec::new();
        append_str(&mut m, "Connection failed (HTTP ");
        append_decimal(&mut m, status as u64);
        append_str(&mut m, "): ");
        let part = take_chars(body, 200);
        append_str(&mut m, part.as_str());
        ConnectionStep::Finished(TestConnectionResult { success: false, status_code: Some(status), message: string_from_chars(&m) })
    }
}

/// The result once the base URL was tried after a missing `/models`
/// endpoint: any answer but 404 shows the base URL reachable; no answer, or
/// 404, still counts the provider as reachable.
pub fn connection_after_base_probe(models_status: u16, base_status: Option<u16>) -> (r: TestConnectionResult)
    ensures
        r.success,
        match base_status {
            Some(s) if s != 404 => r.status_code == Some(s)
                && r.message@ == "Base URL reachable (HTTP "@ + decimal(s as nat) + ") \u{2014} no /models endpoint"@,
            _ => r.status_code == Some(models_status)
                && r.message@ == "Provider reachable \u{2014} no /models endpoint (OK if using model overrides)"@,
        },
{
    match base_status {
        Some(s) => {
            if s != 404 {
                let mut m: Vec<char> = Vec::new();
                append_str(&mut m, "Base URL reachable (HTTP ");
                append_decimal(&mut m, s as u64);
                append_str(&mut m, ") \u{2014} no /models endpoint");
                return TestConnectionResult { success: true, status_code: Some(s), message: string_from_chars(&m) };
            }
        },
        None => {},
    }
    TestConnectionResult {
        success: true,
        status_code: Some(models_status),
        message: String::from_str("Provider reachable \u{2014} no /models endpoint (OK if using model overrides)"),
    }
}

/// The result when the `/models` request itself failed, with the error's text.
pub fn connection_failed(error_text: &str) -> (r: TestConnectionResult)
    ensures
        !r.success,
        r.status_code is None,
        r.message@ == "Connection failed: "@ + error_text@,
{
    TestConnectionResult { success: false, status_code: None, message: crate::text::cat("Connection failed: ", error_text) }
}

// ---------------------------------------------------------------------------
// Proxy health
// ---------------------------------------------------------------------------

/// The health of a proxy that answered `/health` with success and the given
/// body (`null` when the body was no JSON): running, with the body's
/// `status` text and `uptime_seconds` count where it has them.
pub fn health_from_body(body: &JsonValue) -> (r: HealthCheckResult)
    ensures
        r.running,
        match r.status {
            Some(s) => str_of(get_member(*body, "status"@)) == Some(s@),
            None => str_of(get_member(*body, "status"@)) is None,
        },
        r.uptime_seconds == u64_of(get_member(*body, "uptime_seconds"@)),
{
    let status = match as_str(get(body, "status")) {
        Some(s) => Some(String::from_str(s)),
        None => None,
    };
    HealthCheckResult { running: true, status, uptime_seconds: as_u64(get(body, "uptime_seconds")) }
}

/// The health of a proxy that did not answer with success in time.
pub fn proxy_not_running() -> (r: HealthCheckResult)
    ensures
        !r.running,
        r.status is None,
        r.uptime_seconds is None,
{
    HealthCheckResult { running: false, status: None, uptime_seconds: None }
}

// ---------------------------------------------------------------------------
// Live entry statuses
// ---------------------------------------------------------------------------

/// The key of an entry's status: provider id, `:`, entry index.
pub open spec fn status_key(provider_id: Seq<char>, entry_index: u32) -> Seq<char> {
    provider_id + ":"@ + decimal(entry_index as nat)
}

/// The live status of every entry, keyed by [`status_key`], the last row
/// first: a lookup of the first pair with a key finds the status the last
/// row with that key gives, as a map filled row by row holds it.
pub fn entry_statuses(rows: &Vec<EntryStatusResponse>) -> (r: Vec<(String, String)>)
    ensures
        r@.len() == rows@.len(),
        forall|i: int| 0 <= i < r@.len() ==> {
            let row = #[trigger] rows@[rows@.len() - 1 - i];
            r@[i].0@ == status_key(row.provider_id@, row.entry_index) && r@[i].1@ == row.status@
        },
{
    let mut r: Vec<(String, String)> = Vec::new();
    let mut k: usize = rows.len();
    while k > 0
        invariant
            k <= rows@.len(),
            r@.len() == rows@.len() - k,
            forall|i: int| 0 <= i < r@.len() ==> {
                let row = #[trigger] rows@[rows@.len() - 1 - i];
                r@[i].0@ == status_key(row.provider_id@, row.entry_index) && r@[i].1@ == row.status@
            },
        decreases k,
    {
        k = k - 1;
        let row = &rows[k];
        let mut key: Vec<char> = Vec::new();
        append_str(&mut key, row.provider_id.as_str());
        append_str(&mut key, ":");
        append_decimal(&mut key, row.entry_index as u64);
        r.push((string_from_chars(&key), row.status.clone()));
    }
    r
}

/// Whether an OpenCode configuration holds the CodeRouter provider.
pub fn has_coderouter_provider(config: &JsonValue) -> (r: bool)
    ensures
        r == (match get_member(*config, "provider"@) {
            Some(p) => get_member(p, "coderouter"@) is Some,
            None => false,
        }),
{
    match get(config, "provider") {
        Some(p) => get(p, "coderouter").is_some(),
        None => false,
    }
}

// ---------------------------------------------------------------------------
// Improving an agent's text
// ---------------------------------------------------------------------------

/// The system prompt for improving an agent's description.
pub const DESCRIPTION_PROMPT: &'static str = "You are an expert at writing clear, concise descriptions for AI coding agents.\nImprove the given description to be more specific about what the agent does and when to use it.\nKeep it to 1-2 sentences. Return ONLY the improved description text, no explanations.";

/// The system prompt for improving an agent's prompt.
pub const PROMPT_PROMPT: &'static str = "You are an expert at writing effective system prompts for AI coding agents.\nImprove the given prompt to be more structured, specific, and actionable.\nUse clear sections and bullet points where appropriate.\nReturn ONLY the improved prompt text, no explanations.";

/// The system prompt for suggesting an agent's settings.
pub const SUGGESTIONS_PROMPT: &'static str = "You are an expert at configuring AI coding agents.\nBased on the following agent configuration, suggest optimal settings.\nReturn a JSON object with these optional keys: \"temperature\" (0.0-1.0), \"edit_permission\" (\"allow\"/\"deny\"/\"ask\"), \"bash_permission\" (\"allow\"/\"deny\"/\"ask\"), \"webfetch_permission\" (\"allow\"/\"deny\"/\"ask\").\nOnly include keys where you have a specific recommendation.\nReturn ONLY the JSON object, no explanations.";

/// The system prompt for a kind of improvement, `None` for an unknown kind.
pub open spec fn enhance_prompt(kind: Seq<char>) -> Option<Seq<char>> {
    if kind == "description"@ {
        Some(DESCRIPTION_PROMPT@)
    } else if kind == "prompt"@ {
        Some(PROMPT_PROMPT@)
    } else if kind == "suggestions"@ {
        Some(SUGGESTIONS_PROMPT@)
    } else {
        None
    }
}

/// The model a request is sent to: the group alias without a leading
/// `coderouter/`.
pub open spec fn enhance_model(group: Seq<char>) -> Seq<char> {
    if has_prefix(group, "coderouter/"@) {
        group.skip(11)
    } else {
        group
    }
}

/// The JSON body of an improvement request, as `serde_json` writes it (keys
/// sorted): a system and a user message, temperature 0.3, at most 2000
/// tokens.
pub open spec fn enhance_body(prompt: Seq<char>, text: Seq<char>, model: Seq<char>) -> Seq<char> {
    "{\"max_tokens\":2000,\"messages\":[{\"content\":"@ + quoted(prompt) + ",\"role\":\"system\"},{\"content\":"@
        + quoted(text) + ",\"role\":\"user\"}],\"model\":"@ + quoted(model) + ",\"temperature\":0.3}"@
}

/// The call that improves an agent's text: where it goes and its body.
#[derive(Clone, Debug)]
pub struct EnhanceCall {
    pub url: String,
    pub body: String,
}

/// The call for an improvement request, through the proxy at the given
/// host and port. A blank model group and an unknown kind are refused, in
/// that order.
pub fn enhance_call(request: &AgentEnhanceRequest, proxy_host: &str, proxy_port: u16) -> (r: Result<EnhanceCall, String>)
    ensures
        if trim_ws(request.model_group@).len() == 0 {
            r matches Err(m) && m@ == "model_group must not be empty"@
        } else {
            match enhance_prompt(request.enhance_type@) {
                None => r matches Err(m) && m@ == "Unknown enhance_type: "@ + request.enhance_type@,
                Some(p) => r matches Ok(c) && c.url@ == proxy_url(proxy_host@, proxy_port, "/v1/chat/completions"@)
                    && c.body@ == enhance_body(p, request.text@, enhance_model(request.model_group@)),
            }
        },
{
    let group = chars_of(request.model_group.as_str());
    if trim_chars(&group).len() == 0 {
        return Err(String::from_str("model_group must not be empty"));
    }
    let url = proxy_endpoint(proxy_host, proxy_port, "/v1/chat/completions");
    let kind = request.enhance_type.as_str();
    let prompt: &str = if str_eq(kind, "description") {
        DESCRIPTION_PROMPT
    } else if str_eq(kind, "prompt") {
        PROMPT_PROMPT
    } else if str_eq(kind, "suggestions") {
        SUGGESTIONS_PROMPT
    } else {
        return Err(crate::text::cat("Unknown enhance_type: ", kind));
    };
    let mut model: Vec<char> = Vec::new();
    if str_starts_with(request.model_group.as_str(), "coderouter/") {
        proof {
            reveal_strlit("coderouter/");
        }
        let rest = crate::text::chars_slice(&group, 11, group.len());
        model = rest;
    } else {
        model = group;
    }
    let model_text = string_from_chars(&model);
    let mut b: Vec<char> = Vec::new();
    append_str(&mut b, "{\"max_tokens\":2000,\"messages\":[{\"content\":");
    push_quoted(&mut b, prompt);
    append_str(&mut b, ",\"role\":\"system\"},{\"content\":");
    push_quoted(&mut b, request.text.as_str());
    append_str(&mut b, ",\"role\":\"user\"}],\"model\":");
    push_quoted(&mut b, model_text.as_str());
    append_str(&mut b, ",\"temperature\":0.3}");
    proof {
        assert(b@ =~= enhance_body(prompt@, request.text@, enhance_model(request.model_group@)));
    }
    Ok(EnhanceCall { url, body: string_from_chars(&b) })
}

/// The text of the first choice's message in a chat answer.
pub open spec fn first_choice_content(v: JsonValue) -> Option<Seq<char>> {
    match get_member(v, "choices"@) {
        Some(JsonValue::Array(items)) => if items@.len() > 0 {
            match get_member(items@[0], "message"@) {
                Some(m) => str_of(get_member(m, "content"@)),
                None => None,
            }
        } else {
            None
        },
        _ => None,
    }
}

/// The improved text an answer of the proxy gives: the first choice's
/// message content, or `No response content`.
pub fn enhanced_text(answer: &JsonValue) -> (r: String)
    ensures
        r@ == match first_choice_content(*answer) {
            Some(t) => t,
            None => "No response content"@,
        },
{
    match get(answer, "choices") {
        Some(JsonValue::Array(items)) => {
            if items.len() > 0 {
                match get(&items[0], "message") {
                    Some(m) => match as_str(get(m, "content")) {
                        Some(t) => return String::from_str(t),
                        None => {},
                    },
                    None => {},
                }
            }
        },
        _ => {},
    }
    String::from_str("No response content")
}

/// The error for an improvement request the proxy refused: its status line
/// and the first 200 characters of its body.
pub fn proxy_refusal(status_text: &str, body: &str) -> (r: String)
    ensures
        r@ == "Proxy returned "@ + status_text@ + ": "@ + first_chars(body@, 200),
{
    let part = take_chars(body, 200);
    let mut m: Vec<char> = Vec::new();
    append_str(&mut m, "Proxy returned ");
    append_str(&mut m, status_text);
    append_str(&mut m, ": ");
    append_str(&mut m, part.as_str());
    string_from_chars(&m)
}

} // verus!
