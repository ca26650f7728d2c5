//! The decisions of routing one request through a group with failover:
//! which entry to try next, where to send it, what each outcome does to the
//! router state, and the answer when every entry failed. The caller performs
//! the network work between the steps.

use vstd::prelude::*;
use std::collections::HashSet;
use crate::config_models::{FailoverConfig, Group, GroupEntry, Provider, find_model, find_override, find_provider, model_protocol_opt};
use crate::router::{
    RouterState, RouterView, select_entry_at, select_from, record_success, record_429_at,
    record_quota_exhausted, record_consecutive_error_at, record_latency_timeout_at, after_success,
    success_fits, error_fits, update_key, key_of, lookup, rate_limited, quota_exhausted, errored,
    timed_out, entry_token_quota, provider_request_quota, find_provider_index, provider_prefix,
    entry_key, rate_limit_fits_at, error_cooldown_fits, timeout_fits, rate_limit_fits_exec,
    error_cooldown_fits_exec, timeout_fits_exec,
};
use crate::clock::{is_instant, MAX_TIMESTAMP_MILLIS};
use crate::ssrf::{validate_base_url, base_url_error};
use crate::text::{cat, cat3, str_eq, chars_of, string_from_chars, append_str, has_prefix, chars_starts_with};
use crate::json::quoted;
use crate::jsonw::{kv, obj, kv_str, kv_of, obj_of, push_str_item, strs_view};
use crate::redact::{sanitize_upstream_error, sanitized_message, cut_on_boundary, redact_words, words};

verus! {

broadcast use vstd::std_specs::hash::group_hash_axioms;

/// The protocol a route uses for a model: the provider's model entry's
/// protocol, else the override's, else the provider's own.
pub open spec fn route_protocol(p: Provider, model_id: Seq<char>) -> Seq<char> {
    match model_protocol_opt(find_model(p.models@, model_id)) {
        Some(pr) => pr,
        None => match model_protocol_opt(find_override(p, model_id)) {
            Some(pr) => pr,
            None => p.protocol@,
        },
    }
}

/// A base URL without trailing slashes.
pub open spec fn trim_slashes(s: Seq<char>) -> Seq<char>
    decreases s.len(),
{
    if s.len() > 0 && s.last() == '/' {
        trim_slashes(s.drop_last())
    } else {
        s
    }
}

/// The upstream endpoint: `/responses` for Codex, `/messages` for
/// Anthropic, otherwise `/completions` or `/chat/completions` as requested.
pub open spec fn upstream_url(base: Seq<char>, is_codex: bool, is_anthropic: bool, completions: bool) -> Seq<char> {
    trim_slashes(base) + if is_codex {
        "/responses"@
    } else if is_anthropic {
        "/messages"@
    } else if completions {
        "/completions"@
    } else {
        "/chat/completions"@
    }
}

/// Where a failover run stands: whether the legacy completions endpoint is
/// served, how many attempts it may make and has made, the entries ruled
/// out, and the last failure.
pub struct FailoverRun {
    pub completions: bool,
    pub max_retries: usize,
    pub attempts: usize,
    pub skip_indices: HashSet<u32>,
    pub last_error: Option<String>,
}

/// The entry chosen for the next attempt.
pub enum Selection {
    /// No attempt is left, or no entry is eligible.
    Exhausted,
    /// Entry `entry_index` of the group, served by provider `provider_index`.
    Chosen { entry_index: u32, provider_index: usize },
    /// The entry names a provider that does not exist.
    MissingProvider(String),
}

/// Where and how an attempt is sent.
pub struct AttemptPlan {
    pub url: String,
    pub upstream_model: String,
    pub is_anthropic: bool,
    pub is_codex: bool,
}

/// What is done with a chosen entry.
pub enum Planned {
    /// The entry cannot serve the endpoint; it is ruled out.
    Skip,
    /// The provider's base URL is refused.
    Invalid(String),
    /// Send the request.
    Send(AttemptPlan),
}

/// What came of an attempt.
pub enum AttemptOutcome {
    Timeout,
    Streaming,
    NonStreaming { prompt_tokens: u64, output_tokens: u64 },
    RateLimited,
    QuotaExhausted,
    Network(String),
    ServerError(String),
}

impl FailoverRun {
    /// A run over a group's entries for an endpoint.
    pub fn new(group: &Group, endpoint: &str) -> (r: Self)
        ensures
            r.completions == (endpoint@ == "completions"@),
            r.max_retries == group.entries@.len(),
            r.attempts == 0,
            r.skip_indices@.len() == 0,
            r.last_error is None,
    {
        FailoverRun {
            completions: str_eq(endpoint, "completions"),
            max_retries: group.entries.len(),
            attempts: 0,
            skip_indices: HashSet::new(),
            last_error: None,
        }
    }

    /// Chooses the entry of the next attempt: none when the attempts are used
    /// up; otherwise the router's selection at `now` (which may return a
    /// cooled-down entry to service), with the provider it names.
    pub fn select_next(&mut self, group: &Group, state: &mut RouterState, providers: &[Provider], now: i64) -> (r: Selection)
        requires
            group.entries@.len() <= u32::MAX,
        ensures
            final(self).completions == old(self).completions,
            final(self).max_retries == old(self).max_retries,
            final(self).skip_indices@ == old(self).skip_indices@,
            final(self).last_error == old(self).last_error,
            old(self).attempts >= old(self).max_retries ==> r is Exhausted && final(state)@ == old(state)@
                && final(self).attempts == old(self).attempts,
            old(self).attempts < old(self).max_retries ==> {
                let sel = select_from(group.entries@, 0, old(state)@, providers@, old(self).skip_indices@, now, None);
                &&& final(self).attempts == old(self).attempts + 1
                &&& final(state)@ == sel.0
                &&& match sel.1 {
                    None => r is Exhausted,
                    Some(k) => match find_provider(providers@, group.entries@[k].provider_id@) {
                        None => r matches Selection::MissingProvider(m) && m@ == "provider '"@
                            + group.entries@[k].provider_id@ + "' not found"@,
                        Some(p) => r matches Selection::Chosen { entry_index, provider_index } && entry_index
                            == k && provider_index < providers@.len() && providers@[provider_index as int] == p,
                    },
                }
            },
            old(state).wf() ==> final(state).wf(),
    {
        if self.attempts >= self.max_retries {
            return Selection::Exhausted;
        }
        self.attempts = self.attempts + 1;
        match select_entry_at(group, state, providers, &self.skip_indices, now) {
            None => Selection::Exhausted,
            Some((entry, idx)) => match find_provider_index(providers, entry.provider_id.as_str()) {
                Some(i) => Selection::Chosen { entry_index: idx, provider_index: i },
                None => Selection::MissingProvider(cat3("provider '", entry.provider_id.as_str(), "' not found")),
            },
        }
    }

    /// Plans an attempt on a chosen entry: its protocol decides the endpoint;
    /// an Anthropic or Codex entry cannot serve legacy completions and is
    /// ruled out; a refused base URL stops the run.
    pub fn plan(&mut self, group: &Group, providers: &[Provider], entry_index: u32, provider_index: usize) -> (r: Planned)
        requires
            entry_index < group.entries@.len(),
            provider_index < providers@.len(),
        ensures
            final(self).completions == old(self).completions,
            final(self).max_retries == old(self).max_retries,
            final(self).attempts == old(self).attempts,
            final(self).last_error == old(self).last_error,
            ({
                let p = providers@[provider_index as int];
                let e = group.entries@[entry_index as int];
                let protocol = route_protocol(p, e.model_id@);
                let is_anthropic = protocol == "anthropic"@;
                let is_codex = protocol == "openai-codex"@;
                match base_url_error(p.base_url@) {
                    Some(msg) => r matches Planned::Invalid(m) && m@ == "invalid provider base_url: "@ + msg
                        && final(self).skip_indices@ == old(self).skip_indices@,
                    None => if old(self).completions && (is_anthropic || is_codex) {
                        r is Skip && final(self).skip_indices@ == old(self).skip_indices@.insert(entry_index)
                    } else {
                        r matches Planned::Send(plan) && plan.url@ == upstream_url(
                            p.base_url@,
                            is_codex,
                            is_anthropic,
                            old(self).completions,
                        ) && plan.upstream_model@ == e.model_id@ && plan.is_anthropic == is_anthropic
                            && plan.is_codex == is_codex && final(self).skip_indices@
                            == old(self).skip_indices@
                    },
                }
            }),
    {
        let p = &providers[provider_index];
        let e = &group.entries[entry_index as usize];
        let protocol = route_protocol_exec(p, e.model_id.as_str());
        let is_anthropic = str_eq(protocol, "anthropic");
        let is_codex = str_eq(protocol, "openai-codex");
        match validate_base_url(p.base_url.as_str()) {
            Err(msg) => {
                return Planned::Invalid(cat("invalid provider base_url: ", msg.as_str()));
            },
            Ok(()) => {},
        }
        if self.completions && (is_anthropic || is_codex) {
            self.skip_indices.insert(entry_index);
            return Planned::Skip;
        }
        let url = upstream_url_exec(p.base_url.as_str(), is_codex, is_anthropic, self.completions);
        Planned::Send(
            AttemptPlan { url, upstream_model: String::from_str(e.model_id.as_str()), is_anthropic, is_codex },
        )
    }
}

fn model_protocol_of(m: Option<&crate::config_models::ProviderModel>) -> (r: Option<&str>)
    ensures
        match r {
            Some(x) => model_protocol_opt(match m {
                Some(y) => Some(*y),
                None => None,
            }) == Some(x@),
            None => model_protocol_opt(match m {
                Some(y) => Some(*y),
                None => None,
            }) is None,
        },
{
    match m {
        Some(x) => match &x.protocol {
            Some(pr) => Some(pr.as_str()),
            None => None,
        },
        None => None,
    }
}

fn route_protocol_exec<'a>(p: &'a Provider, model_id: &str) -> (r: &'a str)
    ensures
        r@ == route_protocol(*p, model_id@),
{
    match model_protocol_of(crate::config_models::find_model_exec(&p.models, model_id)) {
        Some(pr) => pr,
        None => {
            let over = match &p.model_overrides {
                Some(v) => crate::config_models::find_model_exec(v, model_id),
                None => None,
            };
            match model_protocol_of(over) {
                Some(pr) => pr,
                None => p.protocol.as_str(),
            }
        },
    }
}

/// The characters of a base URL without its trailing slashes.
pub fn trimmed_base(base: &str) -> (r: Vec<char>)
    ensures
        r@ == trim_slashes(base@),
{
    let cs = chars_of(base);
    let mut j: usize = cs.len();
    assert(cs@.take(j as int) =~= cs@);
    while j > 0 && cs[j - 1] == '/'
        invariant
            j <= cs@.len(),
            cs@ == base@,
            trim_slashes(base@) == trim_slashes(cs@.take(j as int)),
        decreases j,
    {
        assert(cs@.take(j as int).drop_last() =~= cs@.take(j - 1));
        j = j - 1;
    }
    let out = crate::text::chars_slice(&cs, 0, j);
    assert(out@ =~= cs@.take(j as int));
    out
}

fn upstream_url_exec(base: &str, is_codex: bool, is_anthropic: bool, completions: bool) -> (r: String)
    ensures
        r@ == upstream_url(base@, is_codex, is_anthropic, completions),
{
    let mut out = trimmed_base(base);
    let suffix = if is_codex {
        "/responses"
    } else if is_anthropic {
        "/messages"
    } else if completions {
        "/completions"
    } else {
        "/chat/completions"
    };
    append_str(&mut out, suffix);
    string_from_chars(&out)
}


/// What an outcome may need of the router state and the message: counters
/// that fit one more success or error, and a message that can be redacted.
pub open spec fn outcome_fits(v: RouterView, pid: Seq<char>, entry_index: u32, outcome: AttemptOutcome) -> bool {
    match outcome {
        AttemptOutcome::NonStreaming { prompt_tokens, output_tokens } => prompt_tokens + output_tokens <= u64::MAX
            && success_fits(v, pid, (prompt_tokens + output_tokens) as u64),
        AttemptOutcome::Network(m) => error_fits(v, key_of(pid, entry_index)) && cut_on_boundary(
            redact_words(words(m@), false),
            Seq::empty(),
        ),
        AttemptOutcome::ServerError(m) => error_fits(v, key_of(pid, entry_index)) && cut_on_boundary(
            redact_words(words(m@), false),
            Seq::empty(),
        ),
        _ => true,
    }
}

/// Whether the cooldown an outcome may start at `now` can be formed within
/// `chrono`'s range: a latency timeout's, a 429's (when the group fails over
/// on 429s) and the one a further error may trip.
pub open spec fn outcome_times_fit(
    v: RouterView,
    pid: Seq<char>,
    entry_index: u32,
    outcome: AttemptOutcome,
    fc: FailoverConfig,
    now: i64,
) -> bool {
    let key = key_of(pid, entry_index);
    match outcome {
        AttemptOutcome::Timeout => timeout_fits(v, key, fc.latency_timeout_cooldown_ms, now),
        AttemptOutcome::RateLimited => fc.on_429 ==> rate_limit_fits_at(v, key, 60, now),
        AttemptOutcome::Network(_) => error_cooldown_fits(
            v,
            key,
            fc.consecutive_error_threshold,
            fc.on_consecutive_errors,
            fc.consecutive_error_cooldown_ms,
            now,
        ),
        AttemptOutcome::ServerError(_) => error_cooldown_fits(
            v,
            key,
            fc.consecutive_error_threshold,
            fc.on_consecutive_errors,
            fc.consecutive_error_cooldown_ms,
            now,
        ),
        _ => true,
    }
}

/// The last error an outcome leaves, if it fails the attempt.
pub open spec fn outcome_error(pid: Seq<char>, outcome: AttemptOutcome) -> Option<Seq<char>> {
    match outcome {
        AttemptOutcome::Timeout => Some("provider "@ + pid + " timed out"@),
        AttemptOutcome::RateLimited => Some("provider "@ + pid + " was rate limited"@),
        AttemptOutcome::QuotaExhausted => Some("provider "@ + pid + " quota exhausted"@),
        AttemptOutcome::Network(m) => Some("provider "@ + pid + " network error: "@ + sanitized_message(m@)),
        AttemptOutcome::ServerError(m) => Some("provider "@ + pid + " upstream error: "@ + sanitized_message(m@)),
        _ => None,
    }
}

/// The router state after an outcome: a timeout cools the entry down; a
/// non-streaming success is counted; a 429 or a used-up quota marks the entry
/// where the group's failover settings say so; network and upstream errors
/// count as consecutive errors; a streaming answer changes nothing yet.
pub open spec fn outcome_state(
    v: RouterView,
    group: Group,
    providers: Seq<Provider>,
    entry_index: u32,
    pid: Seq<char>,
    outcome: AttemptOutcome,
    now: i64,
) -> RouterView {
    let fc = group.failover_config;
    let key = key_of(pid, entry_index);
    let e = group.entries@[entry_index as int];
    match outcome {
        AttemptOutcome::Timeout => update_key(v, key, |st| timed_out(st, fc.latency_timeout_cooldown_ms, now)),
        AttemptOutcome::Streaming => v,
        AttemptOutcome::NonStreaming { prompt_tokens, output_tokens } => after_success(
            v,
            pid,
            entry_index,
            (prompt_tokens + output_tokens) as u64,
            entry_token_quota(e, providers),
            provider_request_quota(providers, e.provider_id@),
            fc.on_quota_exhausted,
        ),
        AttemptOutcome::RateLimited => if fc.on_429 {
            update_key(v, key, |st| rate_limited(st, 60, now))
        } else {
            v
        },
        AttemptOutcome::QuotaExhausted => if fc.on_quota_exhausted {
            update_key(v, key, |st| quota_exhausted(st))
        } else {
            v
        },
        AttemptOutcome::Network(_) => update_key(
            v,
            key,
            |st| errored(st, fc.consecutive_error_threshold, fc.on_consecutive_errors, fc.consecutive_error_cooldown_ms, now),
        ),
        AttemptOutcome::ServerError(_) => update_key(
            v,
            key,
            |st| errored(st, fc.consecutive_error_threshold, fc.on_consecutive_errors, fc.consecutive_error_cooldown_ms, now),
        ),
    }
}

impl FailoverRun {
    /// Takes in what came of an attempt on a chosen entry at instant `now`
    /// and updates the router state (see [`outcome_state`]). Returns whether
    /// the response goes to the client; otherwise the entry is ruled out,
    /// its failure becomes the last error, and the next attempt follows.
    pub fn on_outcome(
        &mut self,
        group: &Group,
        state: &mut RouterState,
        providers: &[Provider],
        entry_index: u32,
        provider_index: usize,
        outcome: AttemptOutcome,
        now: i64,
    ) -> (respond: bool)
        requires
            entry_index < group.entries@.len(),
            provider_index < providers@.len(),
            old(state).wf(),
            is_instant(now),
            outcome_fits(old(state)@, providers@[provider_index as int].id@, entry_index, outcome),
            outcome_times_fit(
                old(state)@,
                providers@[provider_index as int].id@,
                entry_index,
                outcome,
                group.failover_config,
                now,
            ),
        ensures
            final(self).completions == old(self).completions,
            final(self).max_retries == old(self).max_retries,
            final(self).attempts == old(self).attempts,
            final(state)@ == outcome_state(
                old(state)@,
                *group,
                providers@,
                entry_index,
                providers@[provider_index as int].id@,
                outcome,
                now,
            ),
            final(state).wf(),
            respond == (outcome is Streaming || outcome is NonStreaming),
            respond ==> final(self).skip_indices@ == old(self).skip_indices@ && final(self).last_error == old(self).last_error,
            !respond ==> final(self).skip_indices@ == old(self).skip_indices@.insert(entry_index)
                && opt_view(final(self).last_error) == outcome_error(providers@[provider_index as int].id@, outcome),
    {
        let pid = providers[provider_index].id.as_str();
        let fc = &group.failover_config;
        match outcome {
            AttemptOutcome::Streaming => {
                return true;
            },
            AttemptOutcome::NonStreaming { prompt_tokens, output_tokens } => {
                let e = &group.entries[entry_index as usize];
                let quota = match e.daily_token_quota_override {
                    Some(q) => Some(q),
                    None => match crate::config_models::find_provider_exec(providers, e.provider_id.as_str()) {
                        Some(p) => p.daily_token_quota,
                        None => None,
                    },
                };
                let request_quota = match crate::config_models::find_provider_exec(providers, e.provider_id.as_str()) {
                    Some(p) => p.daily_request_quota,
                    None => None,
                };
                record_success(
                    state,
                    pid,
                    entry_index,
                    prompt_tokens + output_tokens,
                    quota,
                    request_quota,
                    fc.on_quota_exhausted,
                );
                return true;
            },
            AttemptOutcome::Timeout => {
                self.last_error = Some(cat3("provider ", pid, " timed out"));
                let _ = record_latency_timeout_at(state, pid, entry_index, fc.latency_timeout_cooldown_ms, now);
            },
            AttemptOutcome::RateLimited => {
                self.last_error = Some(cat3("provider ", pid, " was rate limited"));
                if fc.on_429 {
                    record_429_at(state, pid, entry_index, 60, now);
                }
            },
            AttemptOutcome::QuotaExhausted => {
                self.last_error = Some(cat3("provider ", pid, " quota exhausted"));
                if fc.on_quota_exhausted {
                    record_quota_exhausted(state, pid, entry_index);
                }
            },
            AttemptOutcome::Network(m) => {
                let clean = sanitize_upstream_error(m.as_str());
                let head = cat3("provider ", pid, " network error: ");
                self.last_error = Some(cat(head.as_str(), clean.as_str()));
                record_consecutive_error_at(
                    state,
                    pid,
                    entry_index,
                    fc.consecutive_error_threshold,
                    fc.on_consecutive_errors,
                    fc.consecutive_error_cooldown_ms,
                    now,
                );
            },
            AttemptOutcome::ServerError(m) => {
                let clean = sanitize_upstream_error(m.as_str());
                let head = cat3("provider ", pid, " upstream error: ");
                self.last_error = Some(cat(head.as_str(), clean.as_str()));
                record_consecutive_error_at(
                    state,
                    pid,
                    entry_index,
                    fc.consecutive_error_threshold,
                    fc.on_consecutive_errors,
                    fc.consecutive_error_cooldown_ms,
                    now,
                );
            },
        }
        self.skip_indices.insert(entry_index);
        false
    }
}

pub open spec fn opt_view(s: Option<String>) -> Option<Seq<char>> {
    match s {
        Some(x) => Some(x@),
        None => None,
    }
}


/// The router state after a streamed answer ends: a success with tokens is
/// counted; a failed stream counts as a consecutive error.
pub open spec fn stream_end_state(
    v: RouterView,
    group: Group,
    providers: Seq<Provider>,
    entry_index: u32,
    pid: Seq<char>,
    success: bool,
    tokens: u64,
    now: i64,
) -> RouterView {
    let fc = group.failover_config;
    let e = group.entries@[entry_index as int];
    if success {
        if tokens > 0 {
            after_success(
                v,
                pid,
                entry_index,
                tokens,
                entry_token_quota(e, providers),
                provider_request_quota(providers, e.provider_id@),
                fc.on_quota_exhausted,
            )
        } else {
            v
        }
    } else {
        update_key(
            v,
            key_of(pid, entry_index),
            |st| errored(st, fc.consecutive_error_threshold, fc.on_consecutive_errors, fc.consecutive_error_cooldown_ms, now),
        )
    }
}

/// Records the end of a streamed answer at instant `now`; see
/// [`stream_end_state`].
pub fn stream_finished(
    group: &Group,
    state: &mut RouterState,
    providers: &[Provider],
    entry_index: u32,
    provider_index: usize,
    success: bool,
    prompt_tokens: u64,
    output_tokens: u64,
    now: i64,
)
    requires
        entry_index < group.entries@.len(),
        provider_index < providers@.len(),
        is_instant(now),
        success ==> prompt_tokens + output_tokens <= u64::MAX && success_fits(
            old(state)@,
            providers@[provider_index as int].id@,
            (prompt_tokens + output_tokens) as u64,
        ),
        !success ==> error_fits(old(state)@, key_of(providers@[provider_index as int].id@, entry_index))
            && error_cooldown_fits(
            old(state)@,
            key_of(providers@[provider_index as int].id@, entry_index),
            group.failover_config.consecutive_error_threshold,
            group.failover_config.on_consecutive_errors,
            group.failover_config.consecutive_error_cooldown_ms,
            now,
        ),
    ensures
        final(state)@ == stream_end_state(
            old(state)@,
            *group,
            providers@,
            entry_index,
            providers@[provider_index as int].id@,
            success,
            (if success {
                (prompt_tokens + output_tokens) as u64
            } else {
                0u64
            }),
            now,
        ),
        old(state).wf() ==> final(state).wf(),
{
    let pid = providers[provider_index].id.as_str();
    let fc = &group.failover_config;
    if success {
        let tokens = prompt_tokens + output_tokens;
        if tokens > 0 {
            let e = &group.entries[entry_index as usize];
            let quota = match e.daily_token_quota_override {
                Some(q) => Some(q),
                None => match crate::config_models::find_provider_exec(providers, e.provider_id.as_str()) {
                    Some(p) => p.daily_token_quota,
                    None => None,
                },
            };
            let request_quota = match crate::config_models::find_provider_exec(providers, e.provider_id.as_str()) {
                Some(p) => p.daily_request_quota,
                None => None,
            };
            record_success(state, pid, entry_index, tokens, quota, request_quota, fc.on_quota_exhausted);
        }
    } else {
        record_consecutive_error_at(
            state,
            pid,
            entry_index,
            fc.consecutive_error_threshold,
            fc.on_consecutive_errors,
            fc.consecutive_error_cooldown_ms,
            now,
        );
    }
}

/// The message of the answer when a model has no provider left.
pub open spec fn exhausted_message(alias: Seq<char>) -> Seq<char> {
    "All providers for model '"@ + alias + "' are currently unavailable."@
}

/// The JSON text of the answer when a model has no provider left.
pub open spec fn exhausted_text(alias: Seq<char>) -> Seq<char> {
    obj(
        seq![
            kv(
                "error"@,
                obj(
                    seq![
                        kv("code"@, quoted("all_providers_exhausted"@)),
                        kv("message"@, quoted(exhausted_message(alias))),
                        kv("type"@, quoted("coderouter_error"@)),
                    ],
                ),
            ),
        ],
    )
}

/// The JSON text of that answer with the last failure added to the message
/// and given on its own.
pub open spec fn exhausted_text_with(alias: Seq<char>, detail: Seq<char>) -> Seq<char> {
    obj(
        seq![
            kv(
                "error"@,
                obj(
                    seq![
                        kv("code"@, quoted("all_providers_exhausted"@)),
                        kv("last_error"@, quoted(detail)),
                        kv("message"@, quoted(exhausted_message(alias) + " Last error: "@ + detail)),
                        kv("type"@, quoted("coderouter_error"@)),
                    ],
                ),
            ),
        ],
    )
}

fn error_object(members: Vec<String>) -> (r: String)
    ensures
        r@ == obj(seq![kv("error"@, obj(strs_view(members@)))]),
{
    let inner = obj_of(&members);
    let mut outer: Vec<String> = Vec::new();
    push_str_item(&mut outer, kv_of("error", inner.as_str()));
    assert(strs_view(outer@) =~= seq![kv("error"@, obj(strs_view(members@)))]);
    obj_of(&outer)
}

/// The answer when a model has no provider left, as JSON text.
pub fn build_exhausted_response(alias: &str) -> (r: String)
    ensures
        r@ == exhausted_text(alias@),
{
    let message = cat3("All providers for model '", alias, "' are currently unavailable.");
    let mut m: Vec<String> = Vec::new();
    push_str_item(&mut m, kv_str("code", "all_providers_exhausted"));
    push_str_item(&mut m, kv_str("message", message.as_str()));
    push_str_item(&mut m, kv_str("type", "coderouter_error"));
    assert(strs_view(m@) =~= seq![
        kv("code"@, quoted("all_providers_exhausted"@)),
        kv("message"@, quoted(exhausted_message(alias@))),
        kv("type"@, quoted("coderouter_error"@)),
    ]);
    error_object(m)
}

impl FailoverRun {
    /// The detail of the exhausted answer: the last failure, or that no entry
    /// was active.
    pub open spec fn detail(&self) -> Seq<char> {
        match self.last_error {
            Some(e) => e@,
            None => "no eligible provider entries were active for this model"@,
        }
    }

    /// The answer when every attempt failed, as JSON text; see
    /// [`exhausted_text_with`].
    pub fn exhausted_response(&self, alias: &str) -> (r: String)
        ensures
            r@ == exhausted_text_with(alias@, self.detail()),
    {
        let detail: &str = match &self.last_error {
            Some(e) => e.as_str(),
            None => "no eligible provider entries were active for this model",
        };
        let base = cat3("All providers for model '", alias, "' are currently unavailable.");
        let message = cat3(base.as_str(), " Last error: ", detail);
        let mut m: Vec<String> = Vec::new();
        push_str_item(&mut m, kv_str("code", "all_providers_exhausted"));
        push_str_item(&mut m, kv_str("last_error", detail));
        push_str_item(&mut m, kv_str("message", message.as_str()));
        push_str_item(&mut m, kv_str("type", "coderouter_error"));
        assert(strs_view(m@) =~= seq![
            kv("code"@, quoted("all_providers_exhausted"@)),
            kv("last_error"@, quoted(detail@)),
            kv("message"@, quoted(exhausted_message(alias@) + " Last error: "@ + detail@)),
            kv("type"@, quoted("coderouter_error"@)),
        ]);
        error_object(m)
    }
}


/// Whether every entry of a provider fits one more success of `tokens`.
pub fn success_fits_exec(state: &RouterState, provider_id: &str, tokens: u64) -> (r: bool)
    ensures
        r == success_fits(state@, provider_id@, tokens),
{
    let prefix = cat(provider_id, ":");
    let pc = chars_of(prefix.as_str());
    let mut i: usize = 0;
    while i < state.entries.len()
        invariant
            i <= state@.len(),
            pc@ == provider_prefix(provider_id@),
            forall|j: int|
                0 <= j < i && has_prefix(#[trigger] state@[j].0, provider_prefix(provider_id@)) ==> state@[j].1.daily_tokens_used
                    + tokens <= u64::MAX && state@[j].1.daily_requests_used + 1 <= u64::MAX,
        decreases state.entries.len() - i,
    {
        let kc = chars_of(state.entries[i].0.as_str());
        assert(state@[i as int].0 == kc@);
        if chars_starts_with(&kc, &pc) {
            let st = &state.entries[i].1;
            assert(state@[i as int].1 == *st);
            if st.daily_tokens_used > u64::MAX - tokens || st.daily_requests_used == u64::MAX {
                assert(has_prefix(state@[i as int].0, provider_prefix(provider_id@)));
                return false;
            }
        }
        i = i + 1;
    }
    true
}

/// Whether the entry's error counter fits one more error.
pub fn error_fits_exec(state: &RouterState, provider_id: &str, entry_index: u32) -> (r: bool)
    ensures
        r == error_fits(state@, key_of(provider_id@, entry_index)),
{
    let key = entry_key(provider_id, entry_index);
    match state.get(key.as_str()) {
        Some(st) => st.consecutive_errors < u32::MAX,
        None => true,
    }
}

/// Whether an outcome can be taken in; see [`outcome_fits`].
pub fn outcome_fits_exec(state: &RouterState, provider_id: &str, entry_index: u32, outcome: &AttemptOutcome) -> (r: bool)
    ensures
        r == outcome_fits(state@, provider_id@, entry_index, *outcome),
{
    match outcome {
        AttemptOutcome::NonStreaming { prompt_tokens, output_tokens } => {
            *prompt_tokens <= u64::MAX - *output_tokens && success_fits_exec(state, provider_id, *prompt_tokens + *output_tokens)
        },
        AttemptOutcome::Network(m) => error_fits_exec(state, provider_id, entry_index)
            && crate::redact::sanitize_checked(m.as_str()).is_some(),
        AttemptOutcome::ServerError(m) => error_fits_exec(state, provider_id, entry_index)
            && crate::redact::sanitize_checked(m.as_str()).is_some(),
        _ => true,
    }
}

/// Computes [`outcome_times_fit`].
pub fn outcome_times_fit_exec(
    state: &RouterState,
    provider_id: &str,
    entry_index: u32,
    outcome: &AttemptOutcome,
    fc: &FailoverConfig,
    now: i64,
) -> (r: bool)
    requires
        is_instant(now),
    ensures
        r == outcome_times_fit(state@, provider_id@, entry_index, *outcome, *fc, now),
{
    match outcome {
        AttemptOutcome::Timeout => timeout_fits_exec(state, provider_id, entry_index, fc.latency_timeout_cooldown_ms, now),
        AttemptOutcome::RateLimited => !fc.on_429 || rate_limit_fits_exec(state, provider_id, entry_index, 60, now),
        AttemptOutcome::Network(_) | AttemptOutcome::ServerError(_) => error_cooldown_fits_exec(
            state,
            provider_id,
            entry_index,
            fc.consecutive_error_threshold,
            fc.on_consecutive_errors,
            fc.consecutive_error_cooldown_ms,
            now,
        ),
        _ => true,
    }
}

} // verus!
