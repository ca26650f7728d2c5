//! Configuration data models: providers, model groups, failover rules,
//! Mixture-of-Agents settings and application settings, with the checks and
//! capacity calculations the proxy runs over them.
//!
//! Prices and sampling temperatures are floating-point settings that none of
//! the logic here reads; they live beside these types in the serialised
//! configuration and are not part of this model.

use vstd::prelude::*;
use crate::seqs::{first_match, lemma_first_match_step, lemma_skip_zero, lemma_first_match_end};
use crate::text::{str_eq, cat, cat3, cat5, cat7};
use vstd::utf8::encode_utf8;

verus! {

/// Model metadata offered by a provider.
#[derive(Clone, Debug)]
pub struct ProviderModel {
    /// The model identifier as the upstream provider knows it.
    pub id: String,
    /// Maximum combined input and output tokens in one request.
    pub context_window: Option<u64>,
    /// Maximum number of tokens generated in one response.
    pub max_output_tokens: Option<u64>,
    /// ISO-8601 time of the last metadata refresh.
    pub last_refreshed: Option<String>,
    /// Protocol override for this model (e.g. `"anthropic"`).
    pub protocol: Option<String>,
}

/// An upstream AI provider.
#[derive(Clone, Debug)]
pub struct Provider {
    pub id: String,
    pub name: String,
    /// Wire protocol (`"openai"`, `"anthropic"`, `"openai-codex"`).
    pub protocol: String,
    pub base_url: String,
    pub credential_key: String,
    pub daily_token_quota: Option<u64>,
    pub daily_request_quota: Option<u64>,
    /// UTC hour at which daily counters reset.
    pub quota_reset_utc_hour: u32,
    pub enabled: bool,
    pub models: Vec<ProviderModel>,
    /// Local corrections that take precedence over `models`.
    pub model_overrides: Option<Vec<ProviderModel>>,
}

/// A provider + model pair at a priority level inside a group.
#[derive(Clone, Debug)]
pub struct GroupEntry {
    pub provider_id: String,
    pub model_id: String,
    /// Lower values are tried first.
    pub priority: u32,
    pub daily_token_quota_override: Option<u64>,
    pub enabled: bool,
    pub status: String,
    pub cooldown_until: Option<String>,
}

/// How often Mixture-of-Agents advisors are refreshed during a turn.
#[derive(Clone, Copy, Debug, PartialEq, Eq, Structural)]
pub enum MoaFanoutMode {
    /// Once per user turn.
    UserTurn,
    /// Whenever the advisory view of the conversation changes.
    PerIteration,
}

/// Group-level Mixture-of-Agents settings.
#[derive(Clone, Debug)]
pub struct AggregationConfig {
    pub enabled: bool,
    pub reference_group_ids: Vec<String>,
    pub aggregator_group_id: Option<String>,
    pub fanout: MoaFanoutMode,
    pub reference_max_tokens: Option<u32>,
    /// Reasoning-effort override per reference group id, in configuration order.
    pub reference_reasoning_efforts: Vec<(String, String)>,
    pub aggregator_reasoning_effort: Option<String>,
    pub require_all_references: bool,
}

/// When and how the proxy fails over to the next entry.
#[derive(Clone, Debug)]
pub struct FailoverConfig {
    pub on_429: bool,
    pub on_quota_exhausted: bool,
    pub on_consecutive_errors: bool,
    pub consecutive_error_threshold: u32,
    pub on_latency_timeout: bool,
    pub latency_timeout_ms: u64,
    pub latency_timeout_cooldown_ms: u64,
    pub consecutive_error_cooldown_ms: u64,
    pub max_response_duration_ms: u64,
}

/// A named routing group: an alias mapped to prioritised entries.
#[derive(Clone, Debug)]
pub struct Group {
    pub id: String,
    pub alias: String,
    pub display_name: String,
    pub entries: Vec<GroupEntry>,
    pub failover_config: FailoverConfig,
    pub aggregation_config: Option<AggregationConfig>,
}

/// Top-level application settings.
#[derive(Clone, Debug)]
pub struct AppConfig {
    pub proxy_port: u16,
    pub proxy_host: String,
    pub refresh_interval_hours: u32,
    pub log_verbosity: String,
    pub opencode_config_path: Option<String>,
    pub onboarding_dismissed: bool,
}

pub const MOA_REFERENCE_INPUT_OVERHEAD_TOKENS: u64 = 1024;
pub const MOA_SUMMARY_BASE_OVERHEAD_TOKENS: u64 = 128;
pub const MOA_SUMMARY_PER_REFERENCE_OVERHEAD_TOKENS: u64 = 64;

// ---------------------------------------------------------------------------
// Defaults
// ---------------------------------------------------------------------------

pub fn default_quota_reset_hour() -> (r: u32)
    ensures
        r == 0,
{
    0
}

pub fn default_true() -> (r: bool)
    ensures
        r,
{
    true
}

pub fn default_active_status() -> (r: String)
    ensures
        r@ == "active"@,
{
    String::from_str("active")
}

pub fn default_moa_reference_max_tokens() -> (r: Option<u32>)
    ensures
        r == Some(600u32),
{
    Some(600)
}

pub fn default_error_threshold() -> (r: u32)
    ensures
        r == 5,
{
    5
}

pub fn default_latency_timeout_ms() -> (r: u64)
    ensures
        r == 90000,
{
    90000
}

pub fn default_latency_timeout_cooldown_ms() -> (r: u64)
    ensures
        r == 60000,
{
    60000
}

pub fn default_consecutive_error_cooldown_ms() -> (r: u64)
    ensures
        r == 600000,
{
    600000
}

pub fn default_max_response_duration_ms() -> (r: u64)
    ensures
        r == 1_200_000,
{
    1_200_000
}

pub fn default_proxy_port() -> (r: u16)
    ensures
        r == 4141,
{
    4141
}

pub fn default_proxy_host() -> (r: String)
    ensures
        r@ == "127.0.0.1"@,
{
    String::from_str("127.0.0.1")
}

pub fn default_refresh_interval() -> (r: u32)
    ensures
        r == 24,
{
    24
}

pub fn default_log_verbosity() -> (r: String)
    ensures
        r@ == "Info"@,
{
    String::from_str("Info")
}

impl AggregationConfig {
    /// The configuration a group has when it names only `enabled: false`.
    pub fn new_default() -> (r: Self)
        ensures
            !r.enabled,
            r.reference_group_ids@.len() == 0,
            r.aggregator_group_id is None,
            r.fanout == MoaFanoutMode::PerIteration,
            r.reference_max_tokens == Some(600u32),
            r.reference_reasoning_efforts@.len() == 0,
            r.aggregator_reasoning_effort is None,
            !r.require_all_references,
    {
        AggregationConfig {
            enabled: false,
            reference_group_ids: Vec::new(),
            aggregator_group_id: None,
            fanout: MoaFanoutMode::PerIteration,
            reference_max_tokens: default_moa_reference_max_tokens(),
            reference_reasoning_efforts: Vec::new(),
            aggregator_reasoning_effort: None,
            require_all_references: false,
        }
    }
}

impl MoaFanoutMode {
    /// The fan-out mode a configuration gets when it names none.
    pub fn new_default() -> (r: Self)
        ensures
            r == MoaFanoutMode::PerIteration,
    {
        MoaFanoutMode::PerIteration
    }
}

impl AppConfig {
    /// The settings written on first run.
    pub fn new_default() -> (r: Self)
        ensures
            r.proxy_port == 4141,
            r.proxy_host@ == "127.0.0.1"@,
            r.refresh_interval_hours == 24,
            r.log_verbosity@ == "Info"@,
            r.opencode_config_path is None,
            !r.onboarding_dismissed,
    {
        AppConfig {
            proxy_port: default_proxy_port(),
            proxy_host: default_proxy_host(),
            refresh_interval_hours: default_refresh_interval(),
            log_verbosity: default_log_verbosity(),
            opencode_config_path: None,
            onboarding_dismissed: false,
        }
    }
}

impl Default for AppConfig {
    fn default() -> (r: Self)
        ensures
            r.proxy_port == 4141,
            r.proxy_host@ == "127.0.0.1"@,
            r.refresh_interval_hours == 24,
            r.log_verbosity@ == "Info"@,
            r.opencode_config_path is None,
            !r.onboarding_dismissed,
    {
        AppConfig::new_default()
    }
}

impl Default for AggregationConfig {
    fn default() -> (r: Self)
        ensures
            !r.enabled,
            r.reference_group_ids@.len() == 0,
            r.aggregator_group_id is None,
            r.fanout == MoaFanoutMode::PerIteration,
            r.reference_max_tokens == Some(600u32),
            r.reference_reasoning_efforts@.len() == 0,
            r.aggregator_reasoning_effort is None,
            !r.require_all_references,
    {
        AggregationConfig::new_default()
    }
}

// ---------------------------------------------------------------------------
// Model metadata resolution
// ---------------------------------------------------------------------------

/// The predicate "has this model id".
pub open spec fn model_has_id(id: Seq<char>) -> spec_fn(ProviderModel) -> bool {
    |m: ProviderModel| m.id@ == id
}

/// The first model in `models` with the given id.
pub open spec fn find_model(models: Seq<ProviderModel>, id: Seq<char>) -> Option<ProviderModel> {
    first_match(models, model_has_id(id))
}

/// The override entry for a model id, if the provider has overrides.
pub open spec fn find_override(p: Provider, id: Seq<char>) -> Option<ProviderModel> {
    match p.model_overrides {
        Some(v) => find_model(v@, id),
        None => None,
    }
}

pub open spec fn or_opt<T>(a: Option<T>, b: Option<T>) -> Option<T> {
    match a {
        Some(x) => Some(x),
        None => b,
    }
}

/// `(context window, max output)` for a model: override fields win field by
/// field over the base entry; `None` when neither list has the model.
pub open spec fn model_meta(p: Provider, id: Seq<char>) -> Option<(Option<u64>, Option<u64>)> {
    match (find_model(p.models@, id), find_override(p, id)) {
        (Some(b), Some(o)) => Some(
            (or_opt(o.context_window, b.context_window), or_opt(o.max_output_tokens, b.max_output_tokens)),
        ),
        (Some(b), None) => Some((b.context_window, b.max_output_tokens)),
        (None, Some(o)) => Some((o.context_window, o.max_output_tokens)),
        (None, None) => None,
    }
}

pub open spec fn model_protocol_opt(m: Option<ProviderModel>) -> Option<Seq<char>> {
    match m {
        Some(x) => match x.protocol {
            Some(pr) => Some(pr@),
            None => None,
        },
        None => None,
    }
}

/// The wire protocol for a model: the override's protocol, else the base
/// entry's protocol, else the provider's protocol.
pub open spec fn model_protocol(p: Provider, id: Seq<char>) -> Seq<char> {
    match model_protocol_opt(find_override(p, id)) {
        Some(pr) => pr,
        None => match model_protocol_opt(find_model(p.models@, id)) {
            Some(pr) => pr,
            None => p.protocol@,
        },
    }
}

/// The first model in `models` whose id equals `id`.
pub fn find_model_exec<'a>(models: &'a Vec<ProviderModel>, id: &str) -> (r: Option<&'a ProviderModel>)
    ensures
        r is Some <==> find_model(models@, id@) is Some,
        match r {
            Some(m) => m == find_model(models@, id@).unwrap(),
            None => find_model(models@, id@) is None,
        },
{
    let mut i: usize = 0;
    proof {
        lemma_skip_zero(models@);
    }
    while i < models.len()
        invariant
            i <= models.len(),
            find_model(models@, id@) == first_match(models@.skip(i as int), model_has_id(id@)),
        decreases models.len() - i,
    {
        proof {
            lemma_first_match_step(models@, model_has_id(id@), i as int);
        }
        if str_eq(models[i].id.as_str(), id) {
            return Some(&models[i]);
        }
        i = i + 1;
    }
    proof {
        lemma_first_match_end(models@, model_has_id(id@));
    }
    None
}

impl Provider {
    /// Resolves `(context_window, max_output_tokens)` for a model, letting
    /// each override field take precedence over the base entry.
    pub fn resolve_model_meta(&self, model_id: &str) -> (r: Option<(Option<u64>, Option<u64>)>)
        ensures
            r == model_meta(*self, model_id@),
    {
        let base = find_model_exec(&self.models, model_id);
        let over = match &self.model_overrides {
            Some(v) => find_model_exec(v, model_id),
            None => None,
        };
        match (base, over) {
            (Some(b), Some(o)) => {
                let context = match o.context_window {
                    Some(c) => Some(c),
                    None => b.context_window,
                };
                let max_output = match o.max_output_tokens {
                    Some(c) => Some(c),
                    None => b.max_output_tokens,
                };
                Some((context, max_output))
            },
            (Some(b), None) => Some((b.context_window, b.max_output_tokens)),
            (None, Some(o)) => Some((o.context_window, o.max_output_tokens)),
            (None, None) => None,
        }
    }

    /// Resolves the wire protocol for a model, with local overrides taking
    /// precedence over the base entry and the provider default.
    pub fn resolve_model_protocol<'a>(&'a self, model_id: &str) -> (r: &'a str)
        ensures
            r@ == model_protocol(*self, model_id@),
    {
        let over = match &self.model_overrides {
            Some(v) => find_model_exec(v, model_id),
            None => None,
        };
        if let Some(o) = over {
            if let Some(pr) = &o.protocol {
                return pr.as_str();
            }
        }
        let base = find_model_exec(&self.models, model_id);
        if let Some(b) = base {
            if let Some(pr) = &b.protocol {
                return pr.as_str();
            }
        }
        self.protocol.as_str()
    }
}


// ---------------------------------------------------------------------------
// Lookups by id
// ---------------------------------------------------------------------------

pub open spec fn provider_has_id(id: Seq<char>) -> spec_fn(Provider) -> bool {
    |p: Provider| p.id@ == id
}

pub open spec fn group_has_id(id: Seq<char>) -> spec_fn(Group) -> bool {
    |g: Group| g.id@ == id
}

/// The first provider with the given id.
pub open spec fn find_provider(ps: Seq<Provider>, id: Seq<char>) -> Option<Provider> {
    first_match(ps, provider_has_id(id))
}

/// The first group with the given id.
pub open spec fn find_group(gs: Seq<Group>, id: Seq<char>) -> Option<Group> {
    first_match(gs, group_has_id(id))
}

/// The first provider in `ps` whose id equals `id`.
pub fn find_provider_exec<'a>(ps: &'a [Provider], id: &str) -> (r: Option<&'a Provider>)
    ensures
        r is Some <==> find_provider(ps@, id@) is Some,
        match r {
            Some(p) => *p == find_provider(ps@, id@).unwrap(),
            None => true,
        },
{
    let mut i: usize = 0;
    proof {
        lemma_skip_zero(ps@);
    }
    while i < ps.len()
        invariant
            i <= ps.len(),
            find_provider(ps@, id@) == first_match(ps@.skip(i as int), provider_has_id(id@)),
        decreases ps.len() - i,
    {
        proof {
            lemma_first_match_step(ps@, provider_has_id(id@), i as int);
        }
        if str_eq(ps[i].id.as_str(), id) {
            return Some(&ps[i]);
        }
        i = i + 1;
    }
    proof {
        lemma_first_match_end(ps@, provider_has_id(id@));
    }
    None
}

/// The first group in `gs` whose id equals `id`.
pub fn find_group_exec<'a>(gs: &'a [Group], id: &str) -> (r: Option<&'a Group>)
    ensures
        r is Some <==> find_group(gs@, id@) is Some,
        match r {
            Some(g) => *g == find_group(gs@, id@).unwrap(),
            None => true,
        },
{
    let mut i: usize = 0;
    proof {
        lemma_skip_zero(gs@);
    }
    while i < gs.len()
        invariant
            i <= gs.len(),
            find_group(gs@, id@) == first_match(gs@.skip(i as int), group_has_id(id@)),
        decreases gs.len() - i,
    {
        proof {
            lemma_first_match_step(gs@, group_has_id(id@), i as int);
        }
        if str_eq(gs[i].id.as_str(), id) {
            return Some(&gs[i]);
        }
        i = i + 1;
    }
    proof {
        lemma_first_match_end(gs@, group_has_id(id@));
    }
    None
}

// ---------------------------------------------------------------------------
// Mixture-of-Agents settings
// ---------------------------------------------------------------------------

/// True exactly when the group has an aggregation config that is enabled.
pub open spec fn agg_enabled(g: Group) -> bool {
    match g.aggregation_config {
        Some(c) => c.enabled,
        None => false,
    }
}

impl Group {
    /// Returns true only when an aggregation config exists and is enabled.
    pub fn aggregation_enabled(&self) -> (r: bool)
        ensures
            r == agg_enabled(*self),
    {
        match &self.aggregation_config {
            Some(c) => c.enabled,
            None => false,
        }
    }
}

/// The reasoning-effort values the upstream APIs accept.
pub open spec fn valid_effort(e: Seq<char>) -> bool {
    e == "none"@ || e == "low"@ || e == "medium"@ || e == "high"@ || e == "xhigh"@ || e
        == "max"@
}

pub fn validate_reasoning_effort(effort: &str) -> (r: bool)
    ensures
        r == valid_effort(effort@),
{
    str_eq(effort, "none") || str_eq(effort, "low") || str_eq(effort, "medium") || str_eq(
        effort,
        "high",
    ) || str_eq(effort, "xhigh") || str_eq(effort, "max")
}

pub open spec fn effort_label() -> Seq<char> {
    "none, low, medium, high, xhigh, max"@
}

pub fn allowed_reasoning_efforts_label() -> (r: &'static str)
    ensures
        r@ == effort_label(),
{
    "none, low, medium, high, xhigh, max"
}

pub open spec fn moa(alias: Seq<char>) -> Seq<char> {
    "MoA group '"@ + alias
}

/// The error for the first invalid reference reasoning effort, if any.
pub open spec fn efforts_error(alias: Seq<char>, effs: Seq<(String, String)>) -> Option<Seq<char>>
    decreases effs.len(),
{
    if effs.len() == 0 {
        None
    } else if !valid_effort(effs[0].1@) {
        Some(
            moa(alias) + "' has invalid reasoning effort '"@ + effs[0].1@
                + "' for reference group '"@ + effs[0].0@ + "' (allowed: "@ + effort_label()
                + ")"@,
        )
    } else {
        efforts_error(alias, effs.drop_first())
    }
}

/// The error for the first unusable reference group, if any.
pub open spec fn refs_error(g: Group, refs: Seq<String>, groups: Seq<Group>) -> Option<Seq<char>>
    decreases refs.len(),
{
    if refs.len() == 0 {
        None
    } else if refs[0]@ == g.id@ {
        Some(moa(g.alias@) + "' cannot reference itself"@)
    } else {
        match find_group(groups, refs[0]@) {
            None => Some(moa(g.alias@) + "' references missing group id '"@ + refs[0]@ + "'"@),
            Some(r) => if agg_enabled(r) {
                Some(moa(g.alias@) + "' cannot reference MoA-enabled group '"@ + r.alias@ + "'"@)
            } else {
                refs_error(g, refs.drop_first(), groups)
            },
        }
    }
}

/// The first problem with one group's enabled MoA config, in the order the
/// checks run; `None` when the group has no enabled config or it is valid.
pub open spec fn group_agg_error(g: Group, groups: Seq<Group>) -> Option<Seq<char>> {
    match g.aggregation_config {
        None => None,
        Some(c) => if !c.enabled {
            None
        } else if c.aggregator_reasoning_effort is Some && !valid_effort(
            c.aggregator_reasoning_effort.unwrap()@,
        ) {
            Some(
                moa(g.alias@) + "' has invalid aggregator reasoning effort '"@
                    + c.aggregator_reasoning_effort.unwrap()@ + "' (allowed: "@ + effort_label()
                    + ")"@,
            )
        } else if c.reference_max_tokens == Some(0u32) {
            Some(moa(g.alias@) + "' reference max tokens must be greater than zero"@)
        } else if efforts_error(g.alias@, c.reference_reasoning_efforts@) is Some {
            efforts_error(g.alias@, c.reference_reasoning_efforts@)
        } else if c.reference_group_ids@.len() == 0 {
            Some(moa(g.alias@) + "' must reference at least one group"@)
        } else if c.aggregator_group_id is None {
            Some(moa(g.alias@) + "' must have an aggregator group"@)
        } else if c.aggregator_group_id.unwrap()@ == g.id@ {
            Some(moa(g.alias@) + "' cannot use itself as the aggregator"@)
        } else if refs_error(g, c.reference_group_ids@, groups) is Some {
            refs_error(g, c.reference_group_ids@, groups)
        } else {
            match find_group(groups, c.aggregator_group_id.unwrap()@) {
                None => Some(
                    moa(g.alias@) + "' uses missing aggregator group id '"@
                        + c.aggregator_group_id.unwrap()@ + "'"@,
                ),
                Some(a) => if agg_enabled(a) {
                    Some(
                        moa(g.alias@) + "' cannot use MoA-enabled aggregator group '"@ + a.alias@
                            + "'"@,
                    )
                } else {
                    None
                },
            }
        },
    }
}

/// The error of the first group in `gs` whose MoA config is invalid.
pub open spec fn groups_agg_error(gs: Seq<Group>, all: Seq<Group>) -> Option<Seq<char>>
    decreases gs.len(),
{
    if gs.len() == 0 {
        None
    } else if group_agg_error(gs[0], all) is Some {
        group_agg_error(gs[0], all)
    } else {
        groups_agg_error(gs.drop_first(), all)
    }
}

fn check_efforts(alias: &str, effs: &Vec<(String, String)>) -> (r: Result<(), String>)
    ensures
        r is Ok <==> efforts_error(alias@, effs@) is None,
        r matches Err(m) ==> efforts_error(alias@, effs@) == Some(m@),
{
    let mut i: usize = 0;
    assert(effs@.skip(0) =~= effs@);
    while i < effs.len()
        invariant
            i <= effs.len(),
            efforts_error(alias@, effs@) == efforts_error(alias@, effs@.skip(i as int)),
        decreases effs.len() - i,
    {
        assert(effs@.skip(i as int).drop_first() =~= effs@.skip(i + 1));
        let (ref_id, effort) = &effs[i];
        if !validate_reasoning_effort(effort.as_str()) {
            let head = cat5("MoA group '", alias, "' has invalid reasoning effort '", effort.as_str(), "' for reference group '");
            let m = cat5(head.as_str(), ref_id.as_str(), "' (allowed: ", allowed_reasoning_efforts_label(), ")");
            return Err(m);
        }
        i = i + 1;
    }
    assert(effs@.skip(i as int) =~= Seq::<(String, String)>::empty());
    Ok(())
}

fn check_refs(g: &Group, refs: &Vec<String>, groups: &[Group]) -> (r: Result<(), String>)
    ensures
        r is Ok <==> refs_error(*g, refs@, groups@) is None,
        r matches Err(m) ==> refs_error(*g, refs@, groups@) == Some(m@),
{
    let mut i: usize = 0;
    assert(refs@.skip(0) =~= refs@);
    while i < refs.len()
        invariant
            i <= refs.len(),
            refs_error(*g, refs@, groups@) == refs_error(*g, refs@.skip(i as int), groups@),
        decreases refs.len() - i,
    {
        assert(refs@.skip(i as int).drop_first() =~= refs@.skip(i + 1));
        let rid = &refs[i];
        if str_eq(rid.as_str(), g.id.as_str()) {
            return Err(cat3("MoA group '", g.alias.as_str(), "' cannot reference itself"));
        }
        match find_group_exec(groups, rid.as_str()) {
            None => {
                return Err(cat5("MoA group '", g.alias.as_str(), "' references missing group id '", rid.as_str(), "'"));
            },
            Some(rg) => {
                if rg.aggregation_enabled() {
                    return Err(cat5("MoA group '", g.alias.as_str(), "' cannot reference MoA-enabled group '", rg.alias.as_str(), "'"));
                }
            },
        }
        i = i + 1;
    }
    assert(refs@.skip(i as int) =~= Seq::<String>::empty());
    Ok(())
}

fn check_group_aggregation(g: &Group, groups: &[Group]) -> (r: Result<(), String>)
    ensures
        r is Ok <==> group_agg_error(*g, groups@) is None,
        r matches Err(m) ==> group_agg_error(*g, groups@) == Some(m@),
{
    let config = match &g.aggregation_config {
        Some(c) => c,
        None => return Ok(()),
    };
    if !config.enabled {
        return Ok(());
    }
    if let Some(effort) = &config.aggregator_reasoning_effort {
        if !validate_reasoning_effort(effort.as_str()) {
            let head = cat5("MoA group '", g.alias.as_str(), "' has invalid aggregator reasoning effort '", effort.as_str(), "' (allowed: ");
            return Err(cat3(head.as_str(), allowed_reasoning_efforts_label(), ")"));
        }
    }
    if config.reference_max_tokens == Some(0u32) {
        return Err(cat3("MoA group '", g.alias.as_str(), "' reference max tokens must be greater than zero"));
    }
    check_efforts(g.alias.as_str(), &config.reference_reasoning_efforts)?;
    if config.reference_group_ids.len() == 0 {
        return Err(cat3("MoA group '", g.alias.as_str(), "' must reference at least one group"));
    }
    let aggregator_group_id = match &config.aggregator_group_id {
        Some(a) => a,
        None => return Err(cat3("MoA group '", g.alias.as_str(), "' must have an aggregator group")),
    };
    if str_eq(aggregator_group_id.as_str(), g.id.as_str()) {
        return Err(cat3("MoA group '", g.alias.as_str(), "' cannot use itself as the aggregator"));
    }
    check_refs(g, &config.reference_group_ids, groups)?;
    match find_group_exec(groups, aggregator_group_id.as_str()) {
        None => Err(cat5("MoA group '", g.alias.as_str(), "' uses missing aggregator group id '", aggregator_group_id.as_str(), "'")),
        Some(a) => {
            if a.aggregation_enabled() {
                Err(cat5("MoA group '", g.alias.as_str(), "' cannot use MoA-enabled aggregator group '", a.alias.as_str(), "'"))
            } else {
                Ok(())
            }
        },
    }
}

/// Validates every enabled group-level MoA config in a group list: effort
/// names are known, the reference cap is positive, references and the
/// aggregator exist, are not the group itself and are not MoA groups.
/// The error names the first problem found, in group order.
pub fn validate_group_aggregation(groups: &[Group]) -> (r: Result<(), String>)
    ensures
        r is Ok <==> groups_agg_error(groups@, groups@) is None,
        r matches Err(m) ==> groups_agg_error(groups@, groups@) == Some(m@),
{
    let mut i: usize = 0;
    assert(groups@.skip(0) =~= groups@);
    while i < groups.len()
        invariant
            i <= groups.len(),
            groups_agg_error(groups@, groups@) == groups_agg_error(groups@.skip(i as int), groups@),
        decreases groups.len() - i,
    {
        assert(groups@.skip(i as int).drop_first() =~= groups@.skip(i + 1));
        check_group_aggregation(&groups[i], groups)?;
        i = i + 1;
    }
    assert(groups@.skip(i as int) =~= Seq::<Group>::empty());
    Ok(())
}


// ---------------------------------------------------------------------------
// Context capacity
// ---------------------------------------------------------------------------

pub open spec fn min_u64(a: u64, b: u64) -> u64 {
    if a <= b {
        a
    } else {
        b
    }
}

pub open spec fn max_u64(a: u64, b: u64) -> u64 {
    if a >= b {
        a
    } else {
        b
    }
}

/// The output tokens reserved on one route: the model's maximum when the
/// route cannot enforce a cap (Codex) or no cap is configured, otherwise the
/// cap clipped to the model's maximum.
pub open spec fn route_output(p: Provider, model_id: Seq<char>, model_max: Option<u64>, cap: Option<u64>) -> Option<u64> {
    if model_protocol(p, model_id) == "openai-codex"@ || cap is None {
        model_max
    } else {
        match model_max {
            Some(m) => Some(min_u64(cap.unwrap(), m)),
            None => cap,
        }
    }
}

/// `(input capacity, output reserve)` of one enabled route, or `None` when
/// its provider, model, context window or output reserve is unknown or the
/// reserve exceeds the context window.
pub open spec fn route_capacity(e: GroupEntry, providers: Seq<Provider>, cap: Option<u64>) -> Option<(u64, u64)> {
    match find_provider(providers, e.provider_id@) {
        None => None,
        Some(p) => match model_meta(p, e.model_id@) {
            None => None,
            Some(meta) => match meta.0 {
                None => None,
                Some(context) => match route_output(p, e.model_id@, meta.1, cap) {
                    None => None,
                    Some(o) => if context >= o {
                        Some(((context - o) as u64, o))
                    } else {
                        None
                    },
                },
            },
        },
    }
}

/// Folds the enabled routes: the smallest input capacity and the largest
/// output reserve; `None` as soon as one route is unusable, and `None` when
/// no route is enabled.
pub open spec fn group_capacity_from(
    entries: Seq<GroupEntry>,
    providers: Seq<Provider>,
    cap: Option<u64>,
    acc: Option<(u64, u64)>,
) -> Option<(u64, u64)>
    decreases entries.len(),
{
    if entries.len() == 0 {
        acc
    } else if !entries[0].enabled {
        group_capacity_from(entries.drop_first(), providers, cap, acc)
    } else {
        match route_capacity(entries[0], providers, cap) {
            None => None,
            Some(rc) => group_capacity_from(
                entries.drop_first(),
                providers,
                cap,
                Some(
                    match acc {
                        None => rc,
                        Some(a) => (min_u64(a.0, rc.0), max_u64(a.1, rc.1)),
                    },
                ),
            ),
        }
    }
}

pub open spec fn group_capacity(g: Group, providers: Seq<Provider>, cap: Option<u64>) -> Option<(u64, u64)> {
    group_capacity_from(g.entries@, providers, cap, None)
}

fn route_capacity_exec(e: &GroupEntry, providers: &[Provider], cap: Option<u64>) -> (r: Option<(u64, u64)>)
    ensures
        r == route_capacity(*e, providers@, cap),
{
    let provider = find_provider_exec(providers, e.provider_id.as_str())?;
    let meta = provider.resolve_model_meta(e.model_id.as_str())?;
    let context = meta.0?;
    let protocol = provider.resolve_model_protocol(e.model_id.as_str());
    let output = if str_eq(protocol, "openai-codex") || cap.is_none() {
        meta.1?
    } else {
        let c = cap.unwrap();
        match meta.1 {
            Some(m) => if c <= m {
                c
            } else {
                m
            },
            None => c,
        }
    };
    if context >= output {
        Some((context - output, output))
    } else {
        None
    }
}

/// The smallest input capacity and largest output reserve over a group's
/// enabled routes, as [`group_capacity`] defines them.
pub fn conservative_group_input_capacity(group: &Group, providers: &[Provider], configured_cap: Option<u64>) -> (r: Option<(u64, u64)>)
    ensures
        r == group_capacity(*group, providers@, configured_cap),
{
    let mut acc: Option<(u64, u64)> = None;
    let mut i: usize = 0;
    assert(group.entries@.skip(0) =~= group.entries@);
    while i < group.entries.len()
        invariant
            i <= group.entries.len(),
            group_capacity(*group, providers@, configured_cap) == group_capacity_from(
                group.entries@.skip(i as int),
                providers@,
                configured_cap,
                acc,
            ),
        decreases group.entries.len() - i,
    {
        assert(group.entries@.skip(i as int).drop_first() =~= group.entries@.skip(i + 1));
        let entry = &group.entries[i];
        if entry.enabled {
            let rc = route_capacity_exec(entry, providers, configured_cap)?;
            acc = Some(
                match acc {
                    None => rc,
                    Some(a) => (if a.0 <= rc.0 {
                        a.0
                    } else {
                        rc.0
                    }, if a.1 >= rc.1 {
                        a.1
                    } else {
                        rc.1
                    }),
                },
            );
        }
        i = i + 1;
    }
    assert(group.entries@.skip(i as int) =~= Seq::<GroupEntry>::empty());
    acc
}

/// UTF-8 byte length of a text, as `str::len` reports it.
pub open spec fn byte_len(s: Seq<char>) -> nat {
    (encode_utf8(s).len() as usize) as nat
}

/// Folds the reference groups: `(summary reserve, smallest reference input
/// budget)`, or `None` as soon as a reference is missing, has no usable
/// capacity, cannot carry the advisory framing, or a sum overflows `u64`.
pub open spec fn moa_refs_from(
    refs: Seq<String>,
    groups: Seq<Group>,
    providers: Seq<Provider>,
    cap: Option<u64>,
    summary: u64,
    budget: Option<u64>,
) -> Option<(u64, Option<u64>)>
    decreases refs.len(),
{
    if refs.len() == 0 {
        Some((summary, budget))
    } else {
        match find_group(groups, refs[0]@) {
            None => None,
            Some(r) => match group_capacity(r, providers, cap) {
                None => None,
                Some(rc) => if rc.0 < MOA_REFERENCE_INPUT_OVERHEAD_TOKENS {
                    None
                } else {
                    let ib = (rc.0 - MOA_REFERENCE_INPUT_OVERHEAD_TOKENS) as u64;
                    let label = MOA_SUMMARY_PER_REFERENCE_OVERHEAD_TOKENS + byte_len(r.alias@)
                        + byte_len(r.display_name@);
                    if label > u64::MAX || summary + rc.1 + label > u64::MAX {
                        None
                    } else {
                        moa_refs_from(
                            refs.drop_first(),
                            groups,
                            providers,
                            cap,
                            (summary + rc.1 + label) as u64,
                            Some(
                                match budget {
                                    None => ib,
                                    Some(b) => min_u64(b, ib),
                                },
                            ),
                        )
                    }
                }
            },
        }
    }
}

pub open spec fn cap_of(c: AggregationConfig) -> Option<u64> {
    match c.reference_max_tokens {
        Some(t) => Some(t as u64),
        None => None,
    }
}

/// The conservative input-token limit of an enabled MoA group: the smallest
/// of the references' input budgets (after the advisory framing) and of the
/// aggregator's input capacity less every reference's output and label
/// reserve; `None` when it cannot be computed.
pub open spec fn moa_input_tokens(g: Group, groups: Seq<Group>, providers: Seq<Provider>) -> Option<u64> {
    match g.aggregation_config {
        None => None,
        Some(c) => if !c.enabled {
            None
        } else {
            match c.aggregator_group_id {
                None => None,
                Some(aid) => match find_group(groups, aid@) {
                    None => None,
                    Some(a) => match group_capacity(a, providers, None) {
                        None => None,
                        Some(ac) => match moa_refs_from(
                            c.reference_group_ids@,
                            groups,
                            providers,
                            cap_of(c),
                            MOA_SUMMARY_BASE_OVERHEAD_TOKENS,
                            None,
                        ) {
                            None => None,
                            Some(res) => if ac.0 < res.0 {
                                None
                            } else {
                                match res.1 {
                                    None => None,
                                    Some(b) => Some(min_u64((ac.0 - res.0) as u64, b)),
                                }
                            },
                        },
                    },
                },
            }
        },
    }
}

/// Returns a conservative input-context limit for an enabled MoA group, as
/// [`moa_input_tokens`] defines it.
pub fn effective_moa_input_tokens(group: &Group, groups: &[Group], providers: &[Provider]) -> (r: Option<u64>)
    ensures
        r == moa_input_tokens(*group, groups@, providers@),
{
    let config = match &group.aggregation_config {
        Some(c) => c,
        None => return None,
    };
    if !config.enabled {
        return None;
    }
    let aggregator_id = match &config.aggregator_group_id {
        Some(a) => a,
        None => return None,
    };
    let aggregator = find_group_exec(groups, aggregator_id.as_str())?;
    let ac = conservative_group_input_capacity(aggregator, providers, None)?;
    let cap: Option<u64> = match config.reference_max_tokens {
        Some(t) => Some(t as u64),
        None => None,
    };
    let mut summary_reserve: u64 = MOA_SUMMARY_BASE_OVERHEAD_TOKENS;
    let mut reference_budget: Option<u64> = None;
    let refs = &config.reference_group_ids;
    let mut i: usize = 0;
    assert(refs@.skip(0) =~= refs@);
    while i < refs.len()
        invariant
            i <= refs.len(),
            group.aggregation_config == Some(*config),
            config.enabled,
            config.aggregator_group_id == Some(*aggregator_id),
            find_group(groups@, aggregator_id@) == Some(*aggregator),
            group_capacity(*aggregator, providers@, None) == Some(ac),
            cap == cap_of(*config),
            *refs == config.reference_group_ids,
            moa_refs_from(refs@, groups@, providers@, cap, MOA_SUMMARY_BASE_OVERHEAD_TOKENS, None)
                == moa_refs_from(
                refs@.skip(i as int),
                groups@,
                providers@,
                cap,
                summary_reserve,
                reference_budget,
            ),
        decreases refs.len() - i,
    {
        assert(refs@.skip(i as int).drop_first() =~= refs@.skip(i + 1));
        let reference = find_group_exec(groups, refs[i].as_str())?;
        let rc = conservative_group_input_capacity(reference, providers, cap)?;
        if rc.0 < MOA_REFERENCE_INPUT_OVERHEAD_TOKENS {
            return None;
        }
        let input_budget = rc.0 - MOA_REFERENCE_INPUT_OVERHEAD_TOKENS;
        reference_budget = Some(
            match reference_budget {
                None => input_budget,
                Some(b) => if b <= input_budget {
                    b
                } else {
                    input_budget
                },
            },
        );
        let alias_len = reference.alias.as_str().len();
        let name_len = reference.display_name.as_str().len();
        let l1 = MOA_SUMMARY_PER_REFERENCE_OVERHEAD_TOKENS.checked_add(alias_len as u64)?;
        let label = l1.checked_add(name_len as u64)?;
        let s1 = summary_reserve.checked_add(rc.1)?;
        summary_reserve = s1.checked_add(label)?;
        i = i + 1;
    }
    assert(refs@.skip(i as int) =~= Seq::<String>::empty());
    if ac.0 < summary_reserve {
        return None;
    }
    let aggregator_budget = ac.0 - summary_reserve;
    let b = reference_budget?;
    Some(if aggregator_budget <= b {
        aggregator_budget
    } else {
        b
    })
}

} // verus!
