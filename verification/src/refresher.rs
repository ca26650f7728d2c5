//! Keeping providers' model lists current: when a list is due for a
//! refresh, the Codex model catalogue, and which models of a Codex model
//! discovery answer are kept and in what order.

use vstd::prelude::*;
use crate::config_models::{Provider, ProviderModel};
use crate::json::{JsonValue, get, as_u64, get_member, u64_of};
use crate::text::{str_eq, append_str, string_from_chars, cat3};
use crate::failover::{trim_slashes, trimmed_base};
use crate::seqs::{first_index, lemma_first_index_unique, lemma_first_index_none};

verus! {

/// The output limit a Codex model has when its answer gives none.
pub const DEFAULT_CODEX_MAX_OUTPUT_TOKENS: u64 = 128_000;

/// The context window of the Codex catalogue's models.
pub const CODEX_CONTEXT_WINDOW: u64 = 400_000;

// ---------------------------------------------------------------------------
// When a refresh is due
// ---------------------------------------------------------------------------

/// What `chrono::DateTime::parse_from_rfc3339` makes of a text, as
/// milliseconds since the epoch (`timestamp_millis`); `None` when the text
/// is not an RFC 3339 date-time.
pub uninterp spec fn rfc3339_millis(text: Seq<char>) -> Option<i64>;

/// Parses an RFC 3339 date-time with `chrono`; the result is named
/// [`rfc3339_millis`] of the text. The format's year has four digits and
/// its offset stays within a day, so a parsed instant lies between the
/// years 0 and 9999, about -6.3e13 and 2.6e14 milliseconds.
#[verifier::external_body]
fn parse_rfc3339_millis(text: &str) -> (r: Option<i64>)
    ensures
        r == rfc3339_millis(text@),
        r matches Some(t) ==> -100_000_000_000_000 <= t <= 300_000_000_000_000,
{
    chrono::DateTime::parse_from_rfc3339(text).ok().map(|d| d.timestamp_millis())
}

/// Whole seconds of a span of milliseconds, truncated toward zero.
pub open spec fn whole_seconds(ms: int) -> int {
    if ms >= 0 {
        ms / 1000
    } else {
        -((-ms) / 1000)
    }
}

/// Whether a provider's model list is due for a refresh at `now` (in
/// milliseconds): an empty list, or one whose first model has no (or no
/// readable) refresh time, is due; otherwise it is due once the whole hours
/// elapsed since that time reach the interval. A refresh time in the future
/// gives a negative span, which wraps to a huge number of hours, as the
/// `u64` cast of the proxy does.
pub open spec fn refresh_due(p: Provider, hours: u32, now: i64) -> bool {
    if p.models@.len() == 0 {
        true
    } else {
        match p.models@[0].last_refreshed {
            None => true,
            Some(ts) => match rfc3339_millis(ts@) {
                None => true,
                Some(t) => (whole_seconds(now - t) as u64) / 3600 >= hours,
            },
        }
    }
}

/// Decides whether a provider's model list is due for a refresh at a
/// given time; see [`refresh_due`].
pub fn needs_refresh_at(provider: &Provider, refresh_interval_hours: u32, now_ms: i64) -> (r: bool)
    requires
        crate::clock::is_instant(now_ms),
    ensures
        r == refresh_due(*provider, refresh_interval_hours, now_ms),
{
    if provider.models.len() == 0 {
        return true;
    }
    let ts = match &provider.models[0].last_refreshed {
        Some(ts) => ts,
        None => return true,
    };
    match parse_rfc3339_millis(ts.as_str()) {
        None => true,
        Some(t) => {
            let d: i64 = now_ms - t;
            let secs: i64 = if d >= 0 {
                d / 1000
            } else {
                -((-d) / 1000)
            };
            ((secs as u64) / 3600) >= (refresh_interval_hours as u64)
        },
    }
}

/// Decides whether a provider's model list is due for a refresh now, by
/// the system clock; see [`refresh_due`].
pub fn needs_refresh(provider: &Provider, refresh_interval_hours: u32) -> (r: bool)
    ensures
        exists|now: i64| crate::clock::is_instant(now) && r == #[trigger] refresh_due(*provider, refresh_interval_hours, now),
{
    let now = crate::clock::now_millis();
    needs_refresh_at(provider, refresh_interval_hours, now)
}

/// The current UTC time as `chrono` writes it in RFC 3339
/// (`Utc::now().to_rfc3339()`). Nothing is stated of the value.
#[verifier::external_body]
pub fn current_iso_timestamp() -> String {
    chrono::Utc::now().to_rfc3339()
}

// ---------------------------------------------------------------------------
// The Codex catalogue
// ---------------------------------------------------------------------------

/// The ids of the Codex catalogue, in order.
pub open spec fn codex_ids() -> Seq<Seq<char>> {
    seq![
        "gpt-5.5"@, "gpt-5.4"@, "gpt-5.4-mini"@, "gpt-5.3-codex"@, "gpt-5.3-codex-spark"@, "gpt-5.2"@,
        "gpt-5.2-codex"@, "gpt-5.1-codex"@, "gpt-5.1-codex-mini"@, "gpt-5.1-codex-max"@, "gpt-5-codex"@,
    ]
}

/// A catalogue model: a 400k context window, the default output limit,
/// refreshed at `now`.
pub open spec fn catalogue_model(m: ProviderModel, id: Seq<char>, now: Seq<char>) -> bool {
    &&& m.id@ == id
    &&& m.context_window == Some(CODEX_CONTEXT_WINDOW)
    &&& m.max_output_tokens == Some(DEFAULT_CODEX_MAX_OUTPUT_TOKENS)
    &&& m.last_refreshed matches Some(t) && t@ == now
    &&& m.protocol is None
}

fn codex_model(id: &str, now: &str) -> (r: ProviderModel)
    ensures
        catalogue_model(r, id@, now@),
{
    ProviderModel {
        id: String::from_str(id),
        context_window: Some(CODEX_CONTEXT_WINDOW),
        max_output_tokens: Some(DEFAULT_CODEX_MAX_OUTPUT_TOKENS),
        last_refreshed: Some(String::from_str(now)),
        protocol: None,
    }
}

/// The Codex model catalogue, refreshed at `now`.
pub fn codex_hardcoded_models(now: &str) -> (r: Vec<ProviderModel>)
    ensures
        r@.len() == codex_ids().len(),
        forall|i: int| 0 <= i < r@.len() ==> catalogue_model(#[trigger] r@[i], codex_ids()[i], now@),
{
    let mut v: Vec<ProviderModel> = Vec::new();
    v.push(codex_model("gpt-5.5", now));
    v.push(codex_model("gpt-5.4", now));
    v.push(codex_model("gpt-5.4-mini", now));
    v.push(codex_model("gpt-5.3-codex", now));
    v.push(codex_model("gpt-5.3-codex-spark", now));
    v.push(codex_model("gpt-5.2", now));
    v.push(codex_model("gpt-5.2-codex", now));
    v.push(codex_model("gpt-5.1-codex", now));
    v.push(codex_model("gpt-5.1-codex-mini", now));
    v.push(codex_model("gpt-5.1-codex-max", now));
    v.push(codex_model("gpt-5-codex", now));
    v
}

/// A model as a refresh restates it: unchanged but for its refresh time.
pub open spec fn restated(m: ProviderModel, o: ProviderModel, now: Seq<char>) -> bool {
    &&& m.id == o.id
    &&& m.context_window == o.context_window
    &&& m.max_output_tokens == o.max_output_tokens
    &&& m.protocol == o.protocol
    &&& m.last_refreshed matches Some(t) && t@ == now
}

/// The Codex models offered when discovery fails, at `now`: the provider's
/// model overrides (restated at `now`) when it has any, else the catalogue.
pub fn codex_models_at(provider: &Provider, now: &str) -> (r: Vec<ProviderModel>)
    ensures
        match provider.model_overrides {
            Some(os) if os@.len() > 0 => r@.len() == os@.len() && forall|i: int|
                0 <= i < r@.len() ==> restated(#[trigger] r@[i], os@[i], now@),
            _ => r@.len() == codex_ids().len() && forall|i: int|
                0 <= i < r@.len() ==> catalogue_model(#[trigger] r@[i], codex_ids()[i], now@),
        },
{
    match &provider.model_overrides {
        Some(os) => {
            if os.len() > 0 {
                return restated_overrides(os, now);
            }
        },
        None => {},
    }
    codex_hardcoded_models(now)
}

/// A provider's overrides, each restated at `now`.
fn restated_overrides(os: &Vec<ProviderModel>, now: &str) -> (r: Vec<ProviderModel>)
    ensures
        r@.len() == os@.len(),
        forall|i: int| 0 <= i < r@.len() ==> restated(#[trigger] r@[i], os@[i], now@),
{
    let mut r: Vec<ProviderModel> = Vec::new();
    let mut i: usize = 0;
    while i < os.len()
        invariant
            i <= os@.len(),
            r@.len() == i,
            forall|j: int| 0 <= j < i ==> restated(#[trigger] r@[j], os@[j], now@),
        decreases os.len() - i,
    {
        let o = &os[i];
        r.push(ProviderModel {
            id: o.id.clone(),
            context_window: o.context_window,
            max_output_tokens: o.max_output_tokens,
            last_refreshed: Some(String::from_str(now)),
            protocol: match &o.protocol {
                Some(p) => Some(p.clone()),
                None => None,
            },
        });
        i = i + 1;
    }
    r
}

// ---------------------------------------------------------------------------
// Codex model discovery
// ---------------------------------------------------------------------------

/// A model of a Codex model discovery answer, without its prices.
#[derive(Clone, Debug)]
pub struct CodexModelEntry {
    pub slug: String,
    pub visibility: Option<String>,
    pub priority: Option<i64>,
    pub context_window: Option<i64>,
    pub max_context_window: Option<i64>,
    pub max_output_tokens: Option<i64>,
    pub max_completion_tokens: Option<i64>,
}

/// The order key of an entry: its priority, with none after every other.
pub open spec fn prio_key(e: CodexModelEntry) -> int {
    match e.priority {
        Some(p) => p as int,
        None => i64::MAX as int,
    }
}

/// Whether entry `a` comes before entry `b`: a lower key, or the same key
/// and an earlier place (the sort is stable).
pub open spec fn before(es: Seq<CodexModelEntry>, a: int, b: int) -> bool {
    prio_key(es[a]) < prio_key(es[b]) || (prio_key(es[a]) == prio_key(es[b]) && a < b)
}

/// An entry the answer lists for users.
pub open spec fn is_listed(e: CodexModelEntry) -> bool {
    e.visibility matches Some(v) && v@ == "list"@
}

/// Whether any entry is listed.
pub open spec fn any_listed(es: Seq<CodexModelEntry>) -> bool {
    exists|i: int| 0 <= i < es.len() && #[trigger] is_listed(es[i])
}

/// The entries kept: the listed ones when there are any, else all.
pub open spec fn kept_entry(es: Seq<CodexModelEntry>, i: int) -> bool {
    !any_listed(es) || is_listed(es[i])
}

/// Whether `r` holds the kept entries' positions, each once, sorted by
/// priority (stably).
pub open spec fn is_selection(es: Seq<CodexModelEntry>, r: Seq<usize>) -> bool {
    &&& forall|j: int| 0 <= j < r.len() ==> (#[trigger] r[j]) < es.len() && kept_entry(es, r[j] as int)
    &&& forall|i: int| 0 <= i < es.len() && kept_entry(es, i) ==> exists|j: int| 0 <= j < r.len() && #[trigger] r[j] == i
    &&& forall|j: int, k: int| 0 <= j < k < r.len() ==> before(es, #[trigger] r[j] as int, #[trigger] r[k] as int)
}

fn key_exec(e: &CodexModelEntry) -> (r: i64)
    ensures
        r as int == prio_key(*e),
{
    match e.priority {
        Some(p) => p,
        None => i64::MAX,
    }
}

fn listed_exec(e: &CodexModelEntry) -> (r: bool)
    ensures
        r == is_listed(*e),
{
    match &e.visibility {
        Some(v) => str_eq(v.as_str(), "list"),
        None => false,
    }
}

/// The entries of a Codex model discovery answer that are kept, as their
/// positions in the answer, sorted by priority; see [`is_selection`].
#[verifier::spinoff_prover]
#[verifier::rlimit(40)]
pub fn select_codex_models(entries: &Vec<CodexModelEntry>) -> (r: Vec<usize>)
    ensures
        is_selection(entries@, r@),
{
    let ghost es = entries@;
    let mut prefer = false;
    let mut i: usize = 0;
    while i < entries.len()
        invariant
            i <= es.len(),
            es == entries@,
            prefer == exists|q: int| 0 <= q < i && #[trigger] is_listed(es[q]),
        decreases entries.len() - i,
    {
        if listed_exec(&entries[i]) {
            prefer = true;
        }
        i = i + 1;
    }
    assert(prefer == any_listed(es));
    let mut r: Vec<usize> = Vec::new();
    let mut i: usize = 0;
    while i < entries.len()
        invariant
            i <= es.len(),
            es == entries@,
            prefer == any_listed(es),
            forall|j: int| 0 <= j < r@.len() ==> (#[trigger] r@[j]) < i && kept_entry(es, r@[j] as int),
            forall|q: int| 0 <= q < i && kept_entry(es, q) ==> exists|j: int| 0 <= j < r@.len() && #[trigger] r@[j] == q,
            forall|j: int, k: int| 0 <= j < k < r@.len() ==> before(es, #[trigger] r@[j] as int, #[trigger] r@[k] as int),
        decreases entries.len() - i,
    {
        if !prefer || listed_exec(&entries[i]) {
            let key = key_exec(&entries[i]);
            let mut p: usize = 0;
            while p < r.len() && key_exec(&entries[r[p]]) <= key
                invariant
                    p <= r@.len(),
                    forall|j: int| 0 <= j < r@.len() ==> (#[trigger] r@[j]) < i,
                    i < es.len(),
                    es == entries@,
                    key as int == prio_key(es[i as int]),
                    forall|j: int| 0 <= j < p ==> prio_key(es[#[trigger] r@[j] as int]) <= key,
                decreases r.len() - p,
            {
                p = p + 1;
            }
            let ghost old_r = r@;
            proof {
                // Entries from `p` on order after `i`: their keys are larger, as
                // the keys along `r` do not decrease.
                assert forall|j: int| p <= j < old_r.len() implies prio_key(es[#[trigger] old_r[j] as int]) > key by {
                    if p < old_r.len() {
                        assert(prio_key(es[old_r[p as int] as int]) > key);
                        if j > p {
                            assert(before(es, old_r[p as int] as int, old_r[j] as int));
                        }
                    }
                }
            }
            r.insert(p, i);
            proof {
                assert forall|j: int| 0 <= j < r@.len() implies (#[trigger] r@[j]) < i + 1 && kept_entry(es, r@[j] as int) by {
                    if j < p {
                        assert(r@[j] == old_r[j]);
                    } else if j > p {
                        assert(r@[j] == old_r[j - 1]);
                    }
                }
                assert forall|q: int| 0 <= q < i + 1 && kept_entry(es, q) implies exists|j: int| 0 <= j < r@.len() && #[trigger] r@[j] == q by {
                    if q == i {
                        assert(r@[p as int] == q);
                    } else {
                        let j0 = choose|j: int| 0 <= j < old_r.len() && #[trigger] old_r[j] == q;
                        if j0 < p {
                            assert(r@[j0] == q);
                        } else {
                            assert(r@[j0 + 1] == q);
                        }
                    }
                }
                assert forall|j: int, k: int| 0 <= j < k < r@.len() implies before(es, #[trigger] r@[j] as int, #[trigger] r@[k] as int) by {
                    let a = if j < p { old_r[j] } else if j == p { i } else { old_r[j - 1] };
                    let b = if k < p { old_r[k] } else if k == p { i } else { old_r[k - 1] };
                    assert(r@[j] == a);
                    assert(r@[k] == b);
                    if j < p && k < p {
                        assert(before(es, old_r[j] as int, old_r[k] as int));
                    } else if j < p && k == p {
                        assert(prio_key(es[old_r[j] as int]) <= key);
                        assert(old_r[j] < i);
                    } else if j < p && k > p {
                        assert(before(es, old_r[j] as int, old_r[k - 1] as int));
                    } else if j == p && k > p {
                        assert(prio_key(es[old_r[k - 1] as int]) > key);
                    } else {
                        assert(before(es, old_r[j - 1] as int, old_r[k - 1] as int));
                    }
                }
            }
        }
        i = i + 1;
    }
    r
}

/// A count that is positive, as a `u64`.
pub open spec fn positive(v: Option<i64>) -> Option<u64> {
    match v {
        Some(n) => if n > 0 {
            Some(n as u64)
        } else {
            None
        },
        None => None,
    }
}

/// The first of two options that is present.
pub open spec fn or_else<T>(a: Option<T>, b: Option<T>) -> Option<T> {
    match a {
        Some(x) => Some(x),
        None => b,
    }
}

/// The model a discovery entry describes, refreshed at `now`: the larger
/// context window when given (else the plain one), the output limit (else
/// the completion limit, else the default), positive counts only.
pub open spec fn discovered_model(m: ProviderModel, e: CodexModelEntry, now: Seq<char>) -> bool {
    &&& m.id@ == e.slug@
    &&& m.context_window == or_else(positive(e.max_context_window), positive(e.context_window))
    &&& m.max_output_tokens == or_else(
        or_else(positive(e.max_output_tokens), positive(e.max_completion_tokens)),
        Some(DEFAULT_CODEX_MAX_OUTPUT_TOKENS),
    )
    &&& m.last_refreshed matches Some(t) && t@ == now
    &&& m.protocol is None
}

fn positive_exec(v: Option<i64>) -> (r: Option<u64>)
    ensures
        r == positive(v),
{
    match v {
        Some(n) => {
            if n > 0 {
                Some(n as u64)
            } else {
                None
            }
        },
        None => None,
    }
}

/// The model a discovery entry describes; see [`discovered_model`].
pub fn codex_model_from_entry(e: &CodexModelEntry, now: &str) -> (r: ProviderModel)
    ensures
        discovered_model(r, *e, now@),
{
    let context_window = match positive_exec(e.max_context_window) {
        Some(n) => Some(n),
        None => positive_exec(e.context_window),
    };
    let max_output_tokens = match positive_exec(e.max_output_tokens) {
        Some(n) => Some(n),
        None => match positive_exec(e.max_completion_tokens) {
            Some(n) => Some(n),
            None => Some(DEFAULT_CODEX_MAX_OUTPUT_TOKENS),
        },
    };
    ProviderModel {
        id: e.slug.clone(),
        context_window,
        max_output_tokens,
        last_refreshed: Some(String::from_str(now)),
        protocol: None,
    }
}

/// The models of a Codex discovery answer, refreshed at `now`: the kept
/// entries in priority order (see [`select_codex_models`]), each described
/// by [`codex_model_from_entry`].
pub fn codex_models_from_entries(entries: &Vec<CodexModelEntry>, now: &str) -> (r: Vec<ProviderModel>)
    ensures
        exists|sel: Seq<usize>|
            #[trigger] is_selection(entries@, sel) && r@.len() == sel.len() && forall|j: int|
                0 <= j < sel.len() ==> discovered_model(#[trigger] r@[j], entries@[sel[j] as int], now@),
{
    let sel = select_codex_models(entries);
    let mut r: Vec<ProviderModel> = Vec::new();
    let mut j: usize = 0;
    while j < sel.len()
        invariant
            j <= sel@.len(),
            is_selection(entries@, sel@),
            r@.len() == j,
            forall|q: int| 0 <= q < j ==> discovered_model(#[trigger] r@[q], entries@[sel@[q] as int], now@),
        decreases sel.len() - j,
    {
        assert(sel@[j as int] < entries@.len());
        r.push(codex_model_from_entry(&entries[sel[j]], now));
        j = j + 1;
    }
    r
}

// ---------------------------------------------------------------------------
// OpenAI-compatible model discovery
// ---------------------------------------------------------------------------

/// The first of two optional limits that is present.
pub open spec fn or_opt(a: Option<u64>, b: Option<u64>) -> Option<u64> {
    match a {
        Some(x) => Some(x),
        None => b,
    }
}

fn or_opt_exec(a: Option<u64>, b: Option<u64>) -> (r: Option<u64>)
    ensures
        r == or_opt(a, b),
{
    match a {
        Some(x) => Some(x),
        None => b,
    }
}

/// The list endpoint of an OpenAI-compatible provider: its base URL without
/// trailing slashes, then `/models`.
pub fn models_endpoint(base_url: &str) -> (r: String)
    ensures
        r@ == trim_slashes(base_url@) + "/models"@,
{
    let mut out = trimmed_base(base_url);
    append_str(&mut out, "/models");
    string_from_chars(&out)
}

/// The detail endpoint of one model: the list endpoint, `/` and its id.
pub fn model_detail_endpoint(base_url: &str, id: &str) -> (r: String)
    ensures
        r@ == trim_slashes(base_url@) + "/models/"@ + id@,
{
    let mut out = trimmed_base(base_url);
    append_str(&mut out, "/models/");
    append_str(&mut out, id);
    string_from_chars(&out)
}

/// The limits one entry of a model list answer gives, field by field as the
/// answer names them (OpenRouter adds `top_provider` and `model_spec`).
#[derive(Clone, Debug)]
pub struct ListedModel {
    pub id: String,
    pub context_window: Option<u64>,
    pub context_length: Option<u64>,
    pub max_output_tokens: Option<u64>,
    pub max_completion_tokens: Option<u64>,
    pub top_provider_context_length: Option<u64>,
    pub top_provider_max_completion_tokens: Option<u64>,
    pub spec_available_context_tokens: Option<u64>,
    pub spec_max_completion_tokens: Option<u64>,
}

/// A listed model's context window: `context_window`, else
/// `context_length`, else the top provider's, else the model spec's.
pub open spec fn listed_context(e: ListedModel) -> Option<u64> {
    or_opt(
        or_opt(or_opt(e.context_window, e.context_length), e.top_provider_context_length),
        e.spec_available_context_tokens,
    )
}

/// A listed model's output limit: `max_output_tokens`, else
/// `max_completion_tokens`, else the top provider's, else the model spec's.
pub open spec fn listed_max_output(e: ListedModel) -> Option<u64> {
    or_opt(
        or_opt(or_opt(e.max_output_tokens, e.max_completion_tokens), e.top_provider_max_completion_tokens),
        e.spec_max_completion_tokens,
    )
}

/// The model a list entry describes, refreshed at `now`.
pub fn model_from_listing(e: &ListedModel, now: &str) -> (r: ProviderModel)
    ensures
        r.id@ == e.id@,
        r.context_window == listed_context(*e),
        r.max_output_tokens == listed_max_output(*e),
        r.last_refreshed matches Some(t) && t@ == now@,
        r.protocol is None,
{
    let context_window = or_opt_exec(
        or_opt_exec(or_opt_exec(e.context_window, e.context_length), e.top_provider_context_length),
        e.spec_available_context_tokens,
    );
    let max_output_tokens = or_opt_exec(
        or_opt_exec(or_opt_exec(e.max_output_tokens, e.max_completion_tokens), e.top_provider_max_completion_tokens),
        e.spec_max_completion_tokens,
    );
    ProviderModel {
        id: e.id.clone(),
        context_window,
        max_output_tokens,
        last_refreshed: Some(String::from_str(now)),
        protocol: None,
    }
}

/// The limits a model's detail answer gives.
#[derive(Clone, Debug)]
pub struct ModelDetailLimits {
    pub context_window: Option<u64>,
    pub context_length: Option<u64>,
    pub max_output_tokens: Option<u64>,
    pub max_completion_tokens: Option<u64>,
}

/// A listed model with what its detail answer gives: the detail's context
/// window (`context_window`, else `context_length`) and output limit
/// (`max_output_tokens`, else `max_completion_tokens`) replace the listed
/// ones where the detail has them.
pub fn apply_model_detail(model: ProviderModel, d: &ModelDetailLimits) -> (r: ProviderModel)
    ensures
        r.id == model.id,
        r.protocol == model.protocol,
        r.last_refreshed == model.last_refreshed,
        r.context_window == or_opt(or_opt(d.context_window, d.context_length), model.context_window),
        r.max_output_tokens == or_opt(or_opt(d.max_output_tokens, d.max_completion_tokens), model.max_output_tokens),
{
    let mut m = model;
    m.context_window = or_opt_exec(or_opt_exec(d.context_window, d.context_length), m.context_window);
    m.max_output_tokens = or_opt_exec(or_opt_exec(d.max_output_tokens, d.max_completion_tokens), m.max_output_tokens);
    m
}

/// A non-negative integer member of a JSON object.
pub open spec fn u64_at(v: JsonValue, key: Seq<char>) -> Option<u64> {
    u64_of(get_member(v, key))
}

/// A non-negative integer member of an object member of a JSON object.
pub open spec fn u64_at2(v: JsonValue, outer: Seq<char>, key: Seq<char>) -> Option<u64> {
    match get_member(v, outer) {
        Some(inner) => u64_of(get_member(inner, key)),
        None => None,
    }
}

/// The context window read from a raw detail answer over `old`:
/// `context_window` replaces it; `context_length`, then the model spec's
/// `availableContextTokens`, only fill it when it is missing.
pub open spec fn raw_context(v: JsonValue, old: Option<u64>) -> Option<u64> {
    or_opt(
        or_opt(or_opt(u64_at(v, "context_window"@), old), u64_at(v, "context_length"@)),
        u64_at2(v, "model_spec"@, "availableContextTokens"@),
    )
}

/// The output limit read from a raw detail answer over `old`:
/// `max_output_tokens` replaces it; `max_completion_tokens`, then the model
/// spec's `maxCompletionTokens`, only fill it when it is missing.
pub open spec fn raw_max_output(v: JsonValue, old: Option<u64>) -> Option<u64> {
    or_opt(
        or_opt(or_opt(u64_at(v, "max_output_tokens"@), old), u64_at(v, "max_completion_tokens"@)),
        u64_at2(v, "model_spec"@, "maxCompletionTokens"@),
    )
}

fn u64_at2_exec(v: &JsonValue, outer: &str, key: &str) -> (r: Option<u64>)
    ensures
        r == u64_at2(*v, outer@, key@),
{
    match get(v, outer) {
        Some(inner) => as_u64(get(inner, key)),
        None => None,
    }
}

/// The limits of a model read from a detail answer that is JSON of no
/// known shape (see [`raw_context`] and [`raw_max_output`]), refreshed at
/// `now`. A value that is not an object changes only the refresh time.
pub fn extract_from_raw_json(value: &JsonValue, model: ProviderModel, now: &str) -> (r: ProviderModel)
    ensures
        r.id == model.id,
        r.protocol == model.protocol,
        r.context_window == raw_context(*value, model.context_window),
        r.max_output_tokens == raw_max_output(*value, model.max_output_tokens),
        r.last_refreshed matches Some(t) && t@ == now@,
{
    let mut m = model;
    m.context_window = or_opt_exec(
        or_opt_exec(or_opt_exec(as_u64(get(value, "context_window")), m.context_window), as_u64(get(value, "context_length"))),
        u64_at2_exec(value, "model_spec", "availableContextTokens"),
    );
    m.max_output_tokens = or_opt_exec(
        or_opt_exec(
            or_opt_exec(as_u64(get(value, "max_output_tokens")), m.max_output_tokens),
            as_u64(get(value, "max_completion_tokens")),
        ),
        u64_at2_exec(value, "model_spec", "maxCompletionTokens"),
    );
    m.last_refreshed = Some(String::from_str(now));
    m
}

// ---------------------------------------------------------------------------
// Which providers are refreshed, and how
// ---------------------------------------------------------------------------

/// Where a provider's model list comes from.
#[derive(Clone, Copy, Debug, PartialEq, Eq, Structural)]
pub enum ModelSource {
    /// ChatGPT's Codex model discovery, with the catalogue when it fails.
    CodexDiscovery,
    /// The provider's own model overrides, unchanged.
    Overrides,
    /// The built-in Anthropic catalogue (Anthropic lists no models).
    AnthropicCatalogue,
    /// The provider's OpenAI-compatible `/models` endpoint.
    OpenAiCompatible,
}

/// Where a provider's model list comes from: Codex providers always use
/// discovery; otherwise non-empty model overrides are taken as they are;
/// otherwise Anthropic providers use the catalogue and all others their
/// `/models` endpoint.
pub open spec fn model_source_of(p: Provider) -> ModelSource {
    if p.protocol@ == "openai-codex"@ {
        ModelSource::CodexDiscovery
    } else if p.model_overrides matches Some(os) && os@.len() > 0 {
        ModelSource::Overrides
    } else if p.protocol@ == "anthropic"@ {
        ModelSource::AnthropicCatalogue
    } else {
        ModelSource::OpenAiCompatible
    }
}

/// Decides where a provider's model list comes from; see
/// [`model_source_of`].
pub fn model_source(p: &Provider) -> (r: ModelSource)
    ensures
        r == model_source_of(*p),
{
    if str_eq(p.protocol.as_str(), "openai-codex") {
        return ModelSource::CodexDiscovery;
    }
    match &p.model_overrides {
        Some(os) => {
            if os.len() > 0 {
                return ModelSource::Overrides;
            }
        },
        None => {},
    }
    if str_eq(p.protocol.as_str(), "anthropic") {
        ModelSource::AnthropicCatalogue
    } else {
        ModelSource::OpenAiCompatible
    }
}

/// The places, in order, of the first `n` providers that are enabled and
/// whose model list is due for a refresh at `now`.
pub open spec fn due_indices(ps: Seq<Provider>, hours: u32, now: i64, n: int) -> Seq<usize>
    decreases n,
{
    if n <= 0 {
        Seq::empty()
    } else {
        let rest = due_indices(ps, hours, now, n - 1);
        if ps[n - 1].enabled && refresh_due(ps[n - 1], hours, now) {
            rest.push((n - 1) as usize)
        } else {
            rest
        }
    }
}

/// The places, in order, of the providers that are enabled and due for a
/// refresh at `now` (in milliseconds).
pub fn providers_due_at(providers: &Vec<Provider>, refresh_interval_hours: u32, now_ms: i64) -> (r: Vec<usize>)
    requires
        crate::clock::is_instant(now_ms),
    ensures
        r@ == due_indices(providers@, refresh_interval_hours, now_ms, providers@.len() as int),
{
    let mut r: Vec<usize> = Vec::new();
    let mut i: usize = 0;
    while i < providers.len()
        invariant
            i <= providers@.len(),
            crate::clock::is_instant(now_ms),
            r@ == due_indices(providers@, refresh_interval_hours, now_ms, i as int),
        decreases providers.len() - i,
    {
        if providers[i].enabled && needs_refresh_at(&providers[i], refresh_interval_hours, now_ms) {
            r.push(i);
        }
        i = i + 1;
    }
    r
}

/// The places of the providers that are enabled and due for a refresh now,
/// by the system clock; see [`due_indices`].
pub fn providers_due(providers: &Vec<Provider>, refresh_interval_hours: u32) -> (r: Vec<usize>)
    ensures
        exists|now: i64| crate::clock::is_instant(now)
            && r@ == #[trigger] due_indices(providers@, refresh_interval_hours, now, providers@.len() as int),
{
    let now = crate::clock::now_millis();
    providers_due_at(providers, refresh_interval_hours, now)
}

/// Whether a provider has the given id.
pub open spec fn has_id(id: Seq<char>) -> spec_fn(Provider) -> bool {
    |p: Provider| p.id@ == id
}

/// The provider a refresh on request is for: the place of the first
/// provider with the id, which must be enabled.
pub fn refresh_target(providers: &Vec<Provider>, provider_id: &str) -> (r: Result<usize, String>)
    ensures
        match first_index(providers@, has_id(provider_id@)) {
            None => r matches Err(m) && m@ == "Provider '"@ + provider_id@ + "' not found"@,
            Some(i) => if providers@[i].enabled {
                r == Ok::<usize, String>(i as usize)
            } else {
                r matches Err(m) && m@ == "Provider '"@ + provider_id@ + "' is disabled"@
            },
        },
{
    let mut i: usize = 0;
    while i < providers.len()
        invariant
            i <= providers@.len(),
            forall|j: int| 0 <= j < i ==> !has_id(provider_id@)(#[trigger] providers@[j]),
        decreases providers.len() - i,
    {
        if str_eq(providers[i].id.as_str(), provider_id) {
            proof {
                lemma_first_index_unique(providers@, has_id(provider_id@), i as int);
            }
            if providers[i].enabled {
                return Ok(i);
            } else {
                return Err(cat3("Provider '", provider_id, "' is disabled"));
            }
        }
        i = i + 1;
    }
    proof {
        lemma_first_index_none(providers@, has_id(provider_id@));
    }
    Err(cat3("Provider '", provider_id, "' not found"))
}

/// Two providers that agree in everything but their model list.
pub open spec fn same_but_models(a: Provider, b: Provider) -> bool {
    &&& a.id == b.id
    &&& a.name == b.name
    &&& a.protocol == b.protocol
    &&& a.base_url == b.base_url
    &&& a.credential_key == b.credential_key
    &&& a.daily_token_quota == b.daily_token_quota
    &&& a.daily_request_quota == b.daily_request_quota
    &&& a.quota_reset_utc_hour == b.quota_reset_utc_hour
    &&& a.enabled == b.enabled
    &&& a.model_overrides == b.model_overrides
}

/// Stores a refreshed model list: the first provider with the id gets it,
/// everything else stays as it was (no provider with the id: no change).
pub fn set_provider_models(providers: &mut Vec<Provider>, provider_id: &str, models: Vec<ProviderModel>)
    ensures
        match first_index(old(providers)@, has_id(provider_id@)) {
            None => final(providers)@ == old(providers)@,
            Some(i) => {
                &&& final(providers)@.len() == old(providers)@.len()
                &&& forall|j: int| 0 <= j < old(providers)@.len() && j != i ==> final(providers)@[j] == old(providers)@[j]
                &&& same_but_models(final(providers)@[i], old(providers)@[i])
                &&& final(providers)@[i].models@ == models@
            },
        },
{
    let mut i: usize = 0;
    while i < providers.len()
        invariant
            i <= providers@.len(),
            providers@ == old(providers)@,
            forall|j: int| 0 <= j < i ==> !has_id(provider_id@)(#[trigger] providers@[j]),
        decreases providers.len() - i,
    {
        if str_eq(providers[i].id.as_str(), provider_id) {
            proof {
                lemma_first_index_unique(providers@, has_id(provider_id@), i as int);
            }
            let mut p = providers.remove(i);
            p.models = models;
            providers.insert(i, p);
            return;
        }
        i = i + 1;
    }
    proof {
        lemma_first_index_none(providers@, has_id(provider_id@));
    }
}

} // verus!
