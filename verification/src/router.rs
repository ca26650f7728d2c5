//! Router state: per-entry health, cooldowns and daily quota counters, with
//! the priority-based selection of the next entry to try.
//!
//! Entries are keyed `"{provider_id}:{entry_index}"`. Instants are
//! milliseconds since the Unix epoch; durations stored in a state are
//! seconds.

use vstd::prelude::*;
use std::collections::HashSet;
use crate::config_models::{Group, GroupEntry, Provider, find_provider, find_provider_exec, or_opt};
use crate::seqs::{first_index, lemma_first_index_unique, lemma_first_index_none};
use crate::text::{decimal, has_prefix, u64_to_decimal, cat, cat3, chars_of, chars_starts_with, str_eq, string_from_chars};
use crate::clock::{
    now_millis, is_instant, after_millis, after_seconds, millis_fit, seconds_fit, signed_millis, MAX_TIMESTAMP_MILLIS,
    MIN_TIMESTAMP_MILLIS,
};

verus! {

broadcast use vstd::std_specs::hash::group_hash_axioms;

/// The operational status of a group entry.
#[derive(Clone, Copy, Debug, PartialEq, Eq, Structural)]
pub enum EntryStatus {
    /// Healthy and eligible for routing.
    Active,
    /// Temporarily excluded after a 429, consecutive errors or a timeout.
    Cooldown,
    /// Disabled through the internal API.
    ManuallyDisabled,
    /// Daily token or request quota used up.
    QuotaExhausted,
}

/// Per-entry runtime state.
#[derive(Clone, Copy, Debug, PartialEq, Eq, Structural)]
pub struct EntryState {
    pub status: EntryStatus,
    /// End of the cooldown, in milliseconds since the epoch.
    pub cooldown_until: Option<i64>,
    pub consecutive_errors: u32,
    pub daily_tokens_used: u64,
    pub daily_requests_used: u64,
    /// Next daily reset, in milliseconds since the epoch.
    pub daily_reset_at: i64,
    /// Current 429 backoff, in seconds.
    pub cooldown_duration_seconds: Option<i64>,
}

/// All entry states, as `(key, state)` pairs; a well-formed state (see
/// [`RouterState::wf`]) holds each key once.
pub struct RouterState {
    pub entries: Vec<(String, EntryState)>,
}

/// Starting 429 backoff and the value a successful probe restores.
pub const BASE_COOLDOWN_SECONDS: i64 = 60;

/// Ceiling of the doubling 429 backoff.
pub const MAX_COOLDOWN_SECONDS: i64 = 3600;

pub const DAY_MS: i64 = 86_400_000;

pub const HOUR_MS: i64 = 3_600_000;

// ---------------------------------------------------------------------------
// Keys and lookup
// ---------------------------------------------------------------------------

/// `"{provider_id}:{entry_index}"`.
pub open spec fn key_of(provider_id: Seq<char>, idx: u32) -> Seq<char> {
    provider_id + ":"@ + decimal(idx as nat)
}

/// The prefix shared by every key of one provider.
pub open spec fn provider_prefix(provider_id: Seq<char>) -> Seq<char> {
    provider_id + ":"@
}

/// A router state as its lookup view sees it: `(key text, state)` pairs.
pub type RouterView = Seq<(Seq<char>, EntryState)>;

pub open spec fn key_is(key: Seq<char>) -> spec_fn((Seq<char>, EntryState)) -> bool {
    |e: (Seq<char>, EntryState)| e.0 == key
}

/// The index of a key's pair.
pub open spec fn key_index(v: RouterView, key: Seq<char>) -> Option<int> {
    first_index(v, key_is(key))
}

/// The state stored for a key.
pub open spec fn lookup(v: RouterView, key: Seq<char>) -> Option<EntryState> {
    match key_index(v, key) {
        Some(i) => Some(v[i].1),
        None => None,
    }
}

/// A backoff, in seconds, that can have been applied at some instant after
/// the epoch without leaving `chrono`'s range.
pub open spec fn backoff_in_range(d: int) -> bool {
    MIN_TIMESTAMP_MILLIS - MAX_TIMESTAMP_MILLIS <= d * 1000 <= MAX_TIMESTAMP_MILLIS
}

/// The backoff stored in a state is one that has been applied.
pub open spec fn backoff_bounded(st: EntryState) -> bool {
    match st.cooldown_duration_seconds {
        Some(d) => backoff_in_range(d as int),
        None => true,
    }
}

/// No key is stored twice.
pub open spec fn keys_distinct(v: RouterView) -> bool {
    forall|a: int, b: int| 0 <= a < b < v.len() ==> (#[trigger] v[a]).0 != (#[trigger] v[b]).0
}

/// Each key is stored once, and every stored backoff is one that has been
/// applied.
pub open spec fn view_wf(v: RouterView) -> bool {
    &&& keys_distinct(v)
    &&& forall|i: int| 0 <= i < v.len() ==> backoff_bounded(#[trigger] v[i].1)
}

impl View for RouterState {
    type V = RouterView;

    open spec fn view(&self) -> RouterView {
        self.entries@.map_values(|e: (String, EntryState)| (e.0@, e.1))
    }
}

impl RouterState {
    /// Each key is held once, and every stored backoff is one that has been
    /// applied.
    pub open spec fn wf(&self) -> bool {
        view_wf(self@)
    }

    /// An empty router state.
    pub fn new() -> (r: Self)
        ensures
            r@.len() == 0,
            r.wf(),
    {
        RouterState { entries: Vec::new() }
    }

    /// The state stored for `key`.
    pub fn get(&self, key: &str) -> (r: Option<&EntryState>)
        ensures
            match r {
                Some(st) => lookup(self@, key@) == Some(*st),
                None => lookup(self@, key@) is None,
            },
    {
        match find_key(self, key) {
            Some(i) => Some(&self.entries[i].1),
            None => None,
        }
    }
}

/// Builds the lookup key for an entry: `"{provider_id}:{entry_index}"`.
pub fn entry_key(provider_id: &str, entry_index: u32) -> (r: String)
    ensures
        r@ == key_of(provider_id@, entry_index),
{
    let n = u64_to_decimal(entry_index as u64);
    cat3(provider_id, ":", n.as_str())
}

/// The index of the first pair whose key equals `key`.
pub fn find_key(state: &RouterState, key: &str) -> (r: Option<usize>)
    ensures
        match r {
            Some(i) => key_index(state@, key@) == Some(i as int) && i < state.entries@.len(),
            None => key_index(state@, key@) is None,
        },
{
    let mut i: usize = 0;
    while i < state.entries.len()
        invariant
            i <= state.entries.len(),
            forall|j: int| 0 <= j < i ==> !(key_is(key@))(#[trigger] state@[j]),
        decreases state.entries.len() - i,
    {
        if str_eq(state.entries[i].0.as_str(), key) {
            proof {
                lemma_first_index_unique(state@, key_is(key@), i as int);
            }
            return Some(i);
        }
        i = i + 1;
    }
    proof {
        lemma_first_index_none(state@, key_is(key@));
    }
    None
}

pub(crate) fn set_state(state: &mut RouterState, i: usize, st: EntryState)
    requires
        i < old(state).entries@.len(),
    ensures
        final(state)@ == old(state)@.update(i as int, (old(state)@[i as int].0, st)),
        final(state).entries@.len() == old(state).entries@.len(),
{
    let k = state.entries[i].0.clone();
    state.entries.set(i, (k, st));
    assert(state@ =~= old(state)@.update(i as int, (old(state)@[i as int].0, st)));
}

// ---------------------------------------------------------------------------
// Initialisation
// ---------------------------------------------------------------------------

/// The next daily reset after `now`: today's `min(reset_hour, 23)`:00 UTC,
/// or tomorrow's when that is not later than `now`.
pub open spec fn next_reset(now: i64, reset_hour: u32) -> i64 {
    let h: int = if reset_hour <= 23 {
        reset_hour as int
    } else {
        23
    };
    let t = now - (now % DAY_MS) + h * HOUR_MS;
    (if t <= now {
        t + DAY_MS
    } else {
        t
    }) as i64
}

/// Computes [`next_reset`].
pub fn next_daily_reset(now: i64, reset_hour: u32) -> (r: i64)
    requires
        0 <= now <= MAX_TIMESTAMP_MILLIS,
    ensures
        r == next_reset(now, reset_hour),
        now < r <= now + DAY_MS,
{
    let h: i64 = if reset_hour <= 23 {
        reset_hour as i64
    } else {
        23
    };
    let t = now - (now % DAY_MS) + h * HOUR_MS;
    if t <= now {
        t + DAY_MS
    } else {
        t
    }
}

/// The state of an entry that has just been created.
pub open spec fn fresh_state(reset_hour: u32, now: i64) -> EntryState {
    EntryState {
        status: EntryStatus::Active,
        cooldown_until: None,
        consecutive_errors: 0,
        daily_tokens_used: 0,
        daily_requests_used: 0,
        daily_reset_at: next_reset(now, reset_hour),
        cooldown_duration_seconds: Some(60),
    }
}

impl EntryState {
    /// A fresh `Active` state whose daily reset is the provider's next
    /// reset hour after `now`.
    pub fn new_at(provider: &Provider, now: i64) -> (r: Self)
        requires
            0 <= now <= MAX_TIMESTAMP_MILLIS,
        ensures
            r == fresh_state(provider.quota_reset_utc_hour, now),
    {
        EntryState {
            status: EntryStatus::Active,
            cooldown_until: None,
            consecutive_errors: 0,
            daily_tokens_used: 0,
            daily_requests_used: 0,
            daily_reset_at: next_daily_reset(now, provider.quota_reset_utc_hour),
            cooldown_duration_seconds: Some(60),
        }
    }
}

/// Stores `st` under `key`, replacing the key's state when present and
/// appending a pair otherwise.
pub open spec fn put(v: RouterView, key: Seq<char>, st: EntryState) -> RouterView {
    match key_index(v, key) {
        Some(i) => v.update(i, (v[i].0, st)),
        None => v.push((key, st)),
    }
}

/// Storing a bounded state keeps every backoff bounded.
pub proof fn lemma_put_wf(v: RouterView, key: Seq<char>, st: EntryState)
    requires
        view_wf(v),
        backoff_bounded(st),
    ensures
        view_wf(put(v, key, st)),
{
    let r = put(v, key, st);
    crate::seqs::lemma_first_index_spec(v, key_is(key));
    assert forall|i: int| 0 <= i < r.len() implies backoff_bounded(#[trigger] r[i].1) by {
        match key_index(v, key) {
            Some(k) => {
                if i != k {
                    assert(r[i] == v[i]);
                }
            },
            None => {
                if i < v.len() {
                    assert(r[i] == v[i]);
                }
            },
        }
    }
    assert forall|a: int, b: int| 0 <= a < b < r.len() implies (#[trigger] r[a]).0 != (#[trigger] r[b]).0 by {
        match key_index(v, key) {
            Some(k) => {
                assert(v[a].0 != v[b].0);
            },
            None => {
                if b < v.len() {
                    assert(v[a].0 != v[b].0);
                } else {
                    assert(!(key_is(key))(v[a]));
                }
            },
        }
    }
}

fn put_exec(state: &mut RouterState, key: String, st: EntryState)
    ensures
        final(state)@ == put(old(state)@, key@, st),
{
    match find_key(state, key.as_str()) {
        Some(i) => set_state(state, i, st),
        None => {
            let ghost k = key@;
            state.entries.push((key, st));
            assert(state@ =~= old(state)@.push((k, st)));
        },
    }
}

/// The states the entries of one group add, from entry `k` on.
pub open spec fn init_entries_from(
    es: RouterView,
    g: Group,
    k: int,
    providers: Seq<Provider>,
    now: i64,
) -> RouterView
    decreases g.entries@.len() - k,
{
    if k < 0 || k >= g.entries@.len() {
        es
    } else {
        let e = g.entries@[k];
        let es2 = match find_provider(providers, e.provider_id@) {
            None => es,
            Some(p) => {
                let st = fresh_state(p.quota_reset_utc_hour, now);
                let st2 = if e.enabled {
                    st
                } else {
                    EntryState { status: EntryStatus::ManuallyDisabled, ..st }
                };
                put(es, key_of(e.provider_id@, k as u32), st2)
            },
        };
        init_entries_from(es2, g, k + 1, providers, now)
    }
}

/// The states every group adds, group by group.
pub open spec fn init_groups(es: RouterView, gs: Seq<Group>, providers: Seq<Provider>, now: i64) -> RouterView
    decreases gs.len(),
{
    if gs.len() == 0 {
        es
    } else {
        init_groups(init_entries_from(es, gs[0], 0, providers, now), gs.drop_first(), providers, now)
    }
}


fn init_group_entries(state: &mut RouterState, g: &Group, providers: &[Provider], now: i64)
    requires
        0 <= now <= MAX_TIMESTAMP_MILLIS,
        g.entries@.len() <= u32::MAX,
        old(state).wf(),
    ensures
        final(state)@ == init_entries_from(old(state)@, *g, 0, providers@, now),
        final(state).wf(),
{
    let mut k: usize = 0;
    while k < g.entries.len()
        invariant
            0 <= now <= MAX_TIMESTAMP_MILLIS,
            g.entries@.len() <= u32::MAX,
            k <= g.entries@.len(),
            init_entries_from(old(state)@, *g, 0, providers@, now) == init_entries_from(state@, *g, k as int, providers@, now),
            state.wf(),
        decreases g.entries.len() - k,
    {
        let e = &g.entries[k];
        if let Some(p) = find_provider_exec(providers, e.provider_id.as_str()) {
            let key = entry_key(e.provider_id.as_str(), k as u32);
            let mut st = EntryState::new_at(p, now);
            if !e.enabled {
                st.status = EntryStatus::ManuallyDisabled;
            }
            proof {
                lemma_put_wf(state@, key@, st);
            }
            put_exec(state, key, st);
        }
        k = k + 1;
    }
}

/// Initialises a router state for the given groups at instant `now`: every
/// entry whose provider exists gets a fresh state under its key (a later
/// entry with the same key replaces an earlier one), and disabled entries
/// start `ManuallyDisabled`.
pub fn init_router_state_at(groups: &[Group], providers: &[Provider], now: i64) -> (r: RouterState)
    requires
        0 <= now <= MAX_TIMESTAMP_MILLIS,
        forall|i: int| 0 <= i < groups@.len() ==> (#[trigger] groups@[i]).entries@.len() <= u32::MAX,
    ensures
        r@ == init_groups(Seq::empty(), groups@, providers@, now),
        r.wf(),
{
    let mut state = RouterState::new();
    assert(state@ =~= Seq::<(Seq<char>, EntryState)>::empty());
    let mut gi: usize = 0;
    assert(groups@.skip(0) =~= groups@);
    while gi < groups.len()
        invariant
            0 <= now <= MAX_TIMESTAMP_MILLIS,
            forall|i: int| 0 <= i < groups@.len() ==> (#[trigger] groups@[i]).entries@.len() <= u32::MAX,
            gi <= groups@.len(),
            init_groups(Seq::empty(), groups@, providers@, now) == init_groups(state@, groups@.skip(gi as int), providers@, now),
            state.wf(),
        decreases groups.len() - gi,
    {
        assert(groups@.skip(gi as int).drop_first() =~= groups@.skip(gi + 1));
        assert(groups@.skip(gi as int)[0] == groups@[gi as int]);
        init_group_entries(&mut state, &groups[gi], providers, now);
        gi = gi + 1;
    }
    assert(groups@.skip(gi as int) =~= Seq::<Group>::empty());
    state
}

/// Initialises a router state from the given groups and providers at the
/// current time (see [`init_router_state_at`]).
pub fn init_router_state(groups: &[Group], providers: &[Provider]) -> (r: RouterState)
    requires
        forall|i: int| 0 <= i < groups@.len() ==> (#[trigger] groups@[i]).entries@.len() <= u32::MAX,
    ensures
        exists|now: i64| #[trigger] is_instant(now) && r@ == init_groups(Seq::empty(), groups@, providers@, now),
        r.wf(),
{
    let now = now_millis();
    init_router_state_at(groups, providers, now)
}

// ---------------------------------------------------------------------------
// Recording outcomes
// ---------------------------------------------------------------------------

/// A state after a success: counters of every entry of the provider grow.
pub open spec fn counted(st: EntryState, tokens: u64) -> EntryState {
    EntryState {
        daily_tokens_used: (st.daily_tokens_used + tokens) as u64,
        daily_requests_used: (st.daily_requests_used + 1) as u64,
        ..st
    }
}

/// The successful entry itself: errors cleared, a cooldown lifted, and the
/// entry marked `QuotaExhausted` when a given quota is reached and the
/// group fails over on exhausted quotas.
pub open spec fn succeeded(st: EntryState, token_quota: Option<u64>, request_quota: Option<u64>, on_quota_exhausted: bool) -> EntryState {
    let s1 = EntryState { consecutive_errors: 0, ..st };
    let s2 = if s1.status == EntryStatus::Cooldown {
        EntryState { status: EntryStatus::Active, cooldown_until: None, ..s1 }
    } else {
        s1
    };
    let s3 = if token_quota is Some && s2.daily_tokens_used >= token_quota.unwrap() && on_quota_exhausted {
        EntryState { status: EntryStatus::QuotaExhausted, cooldown_until: None, ..s2 }
    } else {
        s2
    };
    if request_quota is Some && s3.daily_requests_used >= request_quota.unwrap() && on_quota_exhausted {
        EntryState { status: EntryStatus::QuotaExhausted, cooldown_until: None, ..s3 }
    } else {
        s3
    }
}

/// Whether recording a success for the provider keeps every counter in range.
pub open spec fn success_fits(v: RouterView, provider_id: Seq<char>, tokens: u64) -> bool {
    forall|i: int|
        0 <= i < v.len() && has_prefix(#[trigger] v[i].0, provider_prefix(provider_id)) ==> v[i].1.daily_tokens_used + tokens <= u64::MAX
            && v[i].1.daily_requests_used + 1 <= u64::MAX
}

/// The view after a success of `(provider_id, entry_index)`.
pub open spec fn after_success(
    v: RouterView,
    provider_id: Seq<char>,
    entry_index: u32,
    tokens: u64,
    token_quota: Option<u64>,
    request_quota: Option<u64>,
    on_quota_exhausted: bool,
) -> RouterView {
    let counted_v = Seq::new(
        v.len(),
        |i: int|
            (v[i].0, if has_prefix(v[i].0, provider_prefix(provider_id)) {
                counted(v[i].1, tokens)
            } else {
                v[i].1
            }),
    );
    match key_index(v, key_of(provider_id, entry_index)) {
        Some(k) => counted_v.update(
            k,
            (counted_v[k].0, succeeded(counted_v[k].1, token_quota, request_quota, on_quota_exhausted)),
        ),
        None => counted_v,
    }
}

/// Records a successful request for an entry: token and request counters
/// grow on every entry of the same provider (quotas are per provider); the
/// entry itself has its errors cleared, leaves a cooldown, and becomes
/// `QuotaExhausted` when `on_quota_exhausted` holds and a given quota is
/// reached.
#[verifier::loop_isolation(false)]
pub fn record_success(
    state: &mut RouterState,
    provider_id: &str,
    entry_index: u32,
    tokens_used: u64,
    effective_quota: Option<u64>,
    effective_request_quota: Option<u64>,
    on_quota_exhausted: bool,
)
    requires
        success_fits(old(state)@, provider_id@, tokens_used),
    ensures
        final(state)@ == after_success(old(state)@, provider_id@, entry_index, tokens_used, effective_quota, effective_request_quota, on_quota_exhausted),
        old(state).wf() ==> final(state).wf(),
{
    let prefix = cat(provider_id, ":");
    let pc = chars_of(prefix.as_str());
    assert(pc@ == provider_prefix(provider_id@));
    let ghost v0 = state@;
    let ghost counted_v = Seq::new(
        v0.len(),
        |i: int|
            (v0[i].0, if has_prefix(v0[i].0, provider_prefix(provider_id@)) {
                counted(v0[i].1, tokens_used)
            } else {
                v0[i].1
            }),
    );
    let mut i: usize = 0;
    while i < state.entries.len()
        invariant
            state.entries@.len() == v0.len(),
            i <= v0.len(),
            pc@ == provider_prefix(provider_id@),
            success_fits(v0, provider_id@, tokens_used),
            forall|j: int| 0 <= j < i ==> #[trigger] state@[j] == counted_v[j],
            forall|j: int| i <= j < v0.len() ==> #[trigger] state@[j] == v0[j],
        decreases v0.len() - i,
    {
        let kc = chars_of(state.entries[i].0.as_str());
        assert(state@[i as int] == (state.entries@[i as int].0@, state.entries@[i as int].1));
        assert(kc@ == v0[i as int].0);
        if chars_starts_with(&kc, &pc) {
            let mut st = state.entries[i].1;
            st.daily_tokens_used = st.daily_tokens_used + tokens_used;
            st.daily_requests_used = st.daily_requests_used + 1;
            set_state(state, i, st);
        }
        assert(state@[i as int] == counted_v[i as int]);
        i = i + 1;
    }
    assert(state@ =~= counted_v);
    let key = entry_key(provider_id, entry_index);
    proof {
        lemma_key_index_same_keys(v0, counted_v, key@);
    }
    if let Some(k) = find_key(state, key.as_str()) {
        let mut st = state.entries[k].1;
        st.consecutive_errors = 0;
        if st.status == EntryStatus::Cooldown {
            st.status = EntryStatus::Active;
            st.cooldown_until = None;
        }
        if let Some(quota) = effective_quota {
            if st.daily_tokens_used >= quota && on_quota_exhausted {
                st.status = EntryStatus::QuotaExhausted;
                st.cooldown_until = None;
            }
        }
        if let Some(request_quota) = effective_request_quota {
            if st.daily_requests_used >= request_quota && on_quota_exhausted {
                st.status = EntryStatus::QuotaExhausted;
                st.cooldown_until = None;
            }
        }
        set_state(state, k, st);
    }
}

/// Two views with the same keys in the same order find a key at the same index.
pub proof fn lemma_key_index_same_keys(a: RouterView, b: RouterView, key: Seq<char>)
    requires
        a.len() == b.len(),
        forall|i: int| 0 <= i < a.len() ==> (#[trigger] a[i]).0 == b[i].0,
    ensures
        key_index(a, key) == key_index(b, key),
{
    crate::seqs::lemma_first_index_spec(a, key_is(key));
    crate::seqs::lemma_first_index_spec(b, key_is(key));
    match key_index(a, key) {
        Some(i) => {
            assert forall|j: int| 0 <= j < i implies !(key_is(key))(#[trigger] b[j]) by {
                assert(!(key_is(key))(a[j]));
            }
            assert((key_is(key))(a[i]));
            lemma_first_index_unique(b, key_is(key), i);
        },
        None => {
            assert forall|j: int| 0 <= j < b.len() implies !(key_is(key))(#[trigger] b[j]) by {
                assert(!(key_is(key))(a[j]));
            }
            lemma_first_index_none(b, key_is(key));
        },
    }
}


/// Replaces the state stored under `key`, when there is one.
pub open spec fn update_key(v: RouterView, key: Seq<char>, f: spec_fn(EntryState) -> EntryState) -> RouterView {
    match key_index(v, key) {
        Some(i) => v.update(i, (v[i].0, f(v[i].1))),
        None => v,
    }
}

/// The 429 backoff for the next cooldown: the base when the entry was not
/// cooling down, otherwise twice the current backoff capped at 3600 s and
/// never below the base.
pub open spec fn backoff_after_429(st: EntryState, base: i64) -> i64 {
    if st.status != EntryStatus::Cooldown {
        base
    } else {
        let cur = match st.cooldown_duration_seconds {
            Some(d) => d,
            None => base,
        };
        let doubled = cur * 2;
        let capped = if doubled <= MAX_COOLDOWN_SECONDS {
            doubled
        } else {
            MAX_COOLDOWN_SECONDS as int
        };
        (if capped >= base {
            capped
        } else {
            base as int
        }) as i64
    }
}

pub open spec fn rate_limited(st: EntryState, base: i64, now: i64) -> EntryState {
    let b = backoff_after_429(st, base);
    EntryState {
        cooldown_duration_seconds: Some(b),
        status: EntryStatus::Cooldown,
        cooldown_until: Some((now + b * 1000) as i64),
        ..st
    }
}

/// The backoff a 429 starts from: the stored one, or the base.
pub open spec fn current_backoff(st: EntryState, base: i64) -> i64 {
    match st.cooldown_duration_seconds {
        Some(d) => d,
        None => base,
    }
}

/// Whether a 429 at `now` can be taken in by this state: doubling the
/// current backoff fits an `i64`, and the cooldown ends within `chrono`'s
/// range.
pub open spec fn rate_limit_fits(st: EntryState, base: i64, now: i64) -> bool {
    &&& st.status == EntryStatus::Cooldown ==> i64::MIN <= 2 * current_backoff(st, base) <= i64::MAX
    &&& seconds_fit(now, backoff_after_429(st, base) as int)
}

/// [`rate_limit_fits`] for the state stored under `key`, if any.
pub open spec fn rate_limit_fits_at(v: RouterView, key: Seq<char>, base: i64, now: i64) -> bool {
    lookup(v, key) matches Some(st) ==> rate_limit_fits(st, base, now)
}

/// A lookup index is an index of the view.
pub proof fn lemma_key_index_in_range(v: RouterView, key: Seq<char>)
    ensures
        key_index(v, key) matches Some(i) ==> 0 <= i < v.len() && v[i].0 == key,
{
    crate::seqs::lemma_first_index_spec(v, key_is(key));
}

/// Updating one state with a bounded one keeps the view well formed.
pub proof fn lemma_update_wf(v: RouterView, i: int, k: Seq<char>, st: EntryState)
    requires
        view_wf(v),
        0 <= i < v.len(),
        v[i].0 == k,
        backoff_bounded(st),
    ensures
        view_wf(v.update(i, (k, st))),
{
    let r = v.update(i, (k, st));
    assert forall|j: int| 0 <= j < r.len() implies backoff_bounded(#[trigger] r[j].1) by {
        if j != i {
            assert(r[j] == v[j]);
        }
    }
    assert forall|a: int, b: int| 0 <= a < b < r.len() implies (#[trigger] r[a]).0 != (#[trigger] r[b]).0 by {
        assert(v[a].0 != v[b].0);
    }
}

/// The backoff a 429 sets, where doubling the current one fits an `i64`.
fn next_backoff(st: EntryState, base: i64) -> (r: Option<i64>)
    ensures
        r == (if st.status == EntryStatus::Cooldown ==> i64::MIN <= 2 * current_backoff(st, base) <= i64::MAX {
            Some(backoff_after_429(st, base))
        } else {
            None
        }),
{
    if st.status != EntryStatus::Cooldown {
        return Some(base);
    }
    let cur = match st.cooldown_duration_seconds {
        Some(d) => d,
        None => base,
    };
    if cur < -0x4000_0000_0000_0000i64 || cur > 0x3fff_ffff_ffff_ffffi64 {
        return None;
    }
    let doubled = cur * 2;
    let capped = if doubled <= MAX_COOLDOWN_SECONDS {
        doubled
    } else {
        MAX_COOLDOWN_SECONDS
    };
    if capped >= base {
        Some(capped)
    } else {
        Some(base)
    }
}

/// Whether a 429 for the entry can be recorded at `now`; see
/// [`rate_limit_fits_at`].
pub fn rate_limit_fits_exec(state: &RouterState, provider_id: &str, entry_index: u32, base: i64, now: i64) -> (r: bool)
    requires
        is_instant(now),
    ensures
        r == rate_limit_fits_at(state@, key_of(provider_id@, entry_index), base, now),
{
    let key = entry_key(provider_id, entry_index);
    proof {
        lemma_key_index_in_range(state@, key@);
    }
    match find_key(state, key.as_str()) {
        None => true,
        Some(i) => match next_backoff(state.entries[i].1, base) {
            Some(b) => after_seconds(now, b).is_some(),
            None => false,
        },
    }
}

/// Records an HTTP 429 at instant `now`: the entry enters `Cooldown` for a
/// backoff that starts at `base_backoff_seconds` and doubles on each
/// further 429, capped at 3600 s.
pub fn record_429_at(state: &mut RouterState, provider_id: &str, entry_index: u32, base_backoff_seconds: i64, now: i64)
    requires
        old(state).wf(),
        is_instant(now),
        rate_limit_fits_at(old(state)@, key_of(provider_id@, entry_index), base_backoff_seconds, now),
    ensures
        final(state)@ == update_key(old(state)@, key_of(provider_id@, entry_index), |st: EntryState| rate_limited(st, base_backoff_seconds, now)),
        final(state).wf(),
{
    let key = entry_key(provider_id, entry_index);
    proof {
        lemma_key_index_in_range(state@, key@);
    }
    if let Some(i) = find_key(state, key.as_str()) {
        let mut st = state.entries[i].1;
        let was_in_cooldown = st.status == EntryStatus::Cooldown;
        let current_backoff = match st.cooldown_duration_seconds {
            Some(d) => d,
            None => base_backoff_seconds,
        };
        let new_backoff = if !was_in_cooldown {
            base_backoff_seconds
        } else {
            let doubled = current_backoff * 2;
            let capped = if doubled <= MAX_COOLDOWN_SECONDS {
                doubled
            } else {
                MAX_COOLDOWN_SECONDS
            };
            if capped >= base_backoff_seconds {
                capped
            } else {
                base_backoff_seconds
            }
        };
        assert(new_backoff == backoff_after_429(st, base_backoff_seconds));
        st.cooldown_duration_seconds = Some(new_backoff);
        st.status = EntryStatus::Cooldown;
        st.cooldown_until = after_seconds(now, new_backoff);
        proof {
            lemma_update_wf(state@, i as int, state@[i as int].0, st);
        }
        set_state(state, i, st);
    }
}

/// Records an HTTP 429 now (see [`record_429_at`]). Where the cooldown
/// cannot be formed at the instant read (see [`rate_limit_fits`]) the state
/// is left as it was.
pub fn record_429(state: &mut RouterState, provider_id: &str, entry_index: u32, base_backoff_seconds: i64)
    requires
        old(state).wf(),
    ensures
        exists|now: i64|
            #[trigger] is_instant(now) && if rate_limit_fits_at(old(state)@, key_of(provider_id@, entry_index), base_backoff_seconds, now) {
                final(state)@ == update_key(
                    old(state)@,
                    key_of(provider_id@, entry_index),
                    |st: EntryState| rate_limited(st, base_backoff_seconds, now),
                )
            } else {
                final(state)@ == old(state)@
            },
        final(state).wf(),
{
    let now = now_millis();
    if rate_limit_fits_exec(state, provider_id, entry_index, base_backoff_seconds, now) {
        record_429_at(state, provider_id, entry_index, base_backoff_seconds, now);
    }
}

pub open spec fn quota_exhausted(st: EntryState) -> EntryState {
    EntryState { status: EntryStatus::QuotaExhausted, cooldown_until: None, ..st }
}

/// Marks an entry quota-exhausted, with no cooldown expiry.
pub fn record_quota_exhausted(state: &mut RouterState, provider_id: &str, entry_index: u32)
    ensures
        final(state)@ == update_key(old(state)@, key_of(provider_id@, entry_index), |st: EntryState| quota_exhausted(st)),
        old(state).wf() ==> final(state).wf(),
{
    let key = entry_key(provider_id, entry_index);
    proof {
        lemma_key_index_in_range(state@, key@);
    }
    if let Some(i) = find_key(state, key.as_str()) {
        let mut st = state.entries[i].1;
        st.status = EntryStatus::QuotaExhausted;
        st.cooldown_until = None;
        proof {
            if old(state).wf() {
                assert(backoff_bounded(state@[i as int].1));
                lemma_update_wf(state@, i as int, state@[i as int].0, st);
            }
        }
        set_state(state, i, st);
    }
}

/// Whether one more consecutive error trips the cooldown.
pub open spec fn error_trips(st: EntryState, threshold: u32, trigger_enabled: bool) -> bool {
    trigger_enabled && st.consecutive_errors + 1 >= threshold
}

/// One more consecutive error; at the threshold (when the trigger is
/// enabled) the entry cools down until `now + cooldown_ms` and the count
/// restarts.
pub open spec fn errored(st: EntryState, threshold: u32, trigger_enabled: bool, cooldown_ms: u64, now: i64) -> EntryState {
    let s1 = EntryState { consecutive_errors: (st.consecutive_errors + 1) as u32, ..st };
    if error_trips(st, threshold, trigger_enabled) {
        EntryState {
            status: EntryStatus::Cooldown,
            cooldown_until: Some((now + signed_millis(cooldown_ms)) as i64),
            consecutive_errors: 0,
            ..s1
        }
    } else {
        s1
    }
}

/// Whether one more error fits the entry's counter.
pub open spec fn error_fits(v: RouterView, key: Seq<char>) -> bool {
    lookup(v, key) matches Some(st) ==> st.consecutive_errors < u32::MAX
}

/// Whether, where one more error trips the cooldown, the cooldown can be
/// formed at `now` (see [`millis_fit`]).
pub open spec fn error_cooldown_fits(v: RouterView, key: Seq<char>, threshold: u32, trigger_enabled: bool, cooldown_ms: u64, now: i64) -> bool {
    lookup(v, key) matches Some(st) ==> (error_trips(st, threshold, trigger_enabled) ==> millis_fit(now, cooldown_ms))
}

/// Computes [`error_cooldown_fits`].
pub fn error_cooldown_fits_exec(
    state: &RouterState,
    provider_id: &str,
    entry_index: u32,
    threshold: u32,
    trigger_enabled: bool,
    cooldown_ms: u64,
    now: i64,
) -> (r: bool)
    ensures
        r == error_cooldown_fits(state@, key_of(provider_id@, entry_index), threshold, trigger_enabled, cooldown_ms, now),
{
    let key = entry_key(provider_id, entry_index);
    proof {
        lemma_key_index_in_range(state@, key@);
    }
    match find_key(state, key.as_str()) {
        None => true,
        Some(i) => {
            let next: u64 = state.entries[i].1.consecutive_errors as u64 + 1;
            if trigger_enabled && next >= threshold as u64 {
                after_millis(now, cooldown_ms).is_some()
            } else {
                true
            }
        },
    }
}

/// Records a consecutive error at instant `now` (see [`errored`]).
pub fn record_consecutive_error_at(
    state: &mut RouterState,
    provider_id: &str,
    entry_index: u32,
    threshold: u32,
    trigger_enabled: bool,
    cooldown_ms: u64,
    now: i64,
)
    requires
        error_fits(old(state)@, key_of(provider_id@, entry_index)),
        error_cooldown_fits(old(state)@, key_of(provider_id@, entry_index), threshold, trigger_enabled, cooldown_ms, now),
    ensures
        final(state)@ == update_key(old(state)@, key_of(provider_id@, entry_index), |st: EntryState| errored(st, threshold, trigger_enabled, cooldown_ms, now)),
        old(state).wf() ==> final(state).wf(),
{
    let key = entry_key(provider_id, entry_index);
    proof {
        lemma_key_index_in_range(state@, key@);
    }
    if let Some(i) = find_key(state, key.as_str()) {
        let mut st = state.entries[i].1;
        st.consecutive_errors = st.consecutive_errors + 1;
        if trigger_enabled && st.consecutive_errors >= threshold {
            st.status = EntryStatus::Cooldown;
            st.cooldown_until = after_millis(now, cooldown_ms);
            st.consecutive_errors = 0;
        }
        proof {
            if old(state).wf() {
                assert(backoff_bounded(state@[i as int].1));
                lemma_update_wf(state@, i as int, state@[i as int].0, st);
            }
        }
        set_state(state, i, st);
    }
}

/// Records a consecutive error now (see [`record_consecutive_error_at`]).
/// Where the cooldown it trips cannot be formed at the instant read (see
/// [`error_cooldown_fits`]) the state is left as it was.
pub fn record_consecutive_error(
    state: &mut RouterState,
    provider_id: &str,
    entry_index: u32,
    threshold: u32,
    trigger_enabled: bool,
    cooldown_ms: u64,
)
    requires
        error_fits(old(state)@, key_of(provider_id@, entry_index)),
    ensures
        exists|now: i64|
            #[trigger] is_instant(now) && if error_cooldown_fits(old(state)@, key_of(provider_id@, entry_index), threshold, trigger_enabled, cooldown_ms, now) {
                final(state)@ == update_key(
                    old(state)@,
                    key_of(provider_id@, entry_index),
                    |st: EntryState| errored(st, threshold, trigger_enabled, cooldown_ms, now),
                )
            } else {
                final(state)@ == old(state)@
            },
        old(state).wf() ==> final(state).wf(),
{
    let now = now_millis();
    if error_cooldown_fits_exec(state, provider_id, entry_index, threshold, trigger_enabled, cooldown_ms, now) {
        record_consecutive_error_at(state, provider_id, entry_index, threshold, trigger_enabled, cooldown_ms, now);
    }
}

pub open spec fn timed_out(st: EntryState, cooldown_ms: u64, now: i64) -> EntryState {
    EntryState {
        status: EntryStatus::Cooldown,
        cooldown_until: Some((now + signed_millis(cooldown_ms)) as i64),
        consecutive_errors: 0,
        ..st
    }
}

/// Whether, where the entry has a state, its timeout cooldown can be formed
/// at `now` (see [`millis_fit`]).
pub open spec fn timeout_fits(v: RouterView, key: Seq<char>, cooldown_ms: u64, now: i64) -> bool {
    lookup(v, key) is Some ==> millis_fit(now, cooldown_ms)
}

/// Computes [`timeout_fits`].
pub fn timeout_fits_exec(state: &RouterState, provider_id: &str, entry_index: u32, cooldown_ms: u64, now: i64) -> (r: bool)
    ensures
        r == timeout_fits(state@, key_of(provider_id@, entry_index), cooldown_ms, now),
{
    let key = entry_key(provider_id, entry_index);
    match find_key(state, key.as_str()) {
        None => true,
        Some(_) => after_millis(now, cooldown_ms).is_some(),
    }
}

/// Records a latency timeout at instant `now`: the entry cools down until
/// `now + cooldown_ms` and its error count restarts. Fails with
/// `"entry state not found"` when the key has no state.
pub fn record_latency_timeout_at(state: &mut RouterState, provider_id: &str, entry_index: u32, cooldown_ms: u64, now: i64) -> (r: Result<(), &'static str>)
    requires
        timeout_fits(old(state)@, key_of(provider_id@, entry_index), cooldown_ms, now),
    ensures
        final(state)@ == update_key(old(state)@, key_of(provider_id@, entry_index), |st: EntryState| timed_out(st, cooldown_ms, now)),
        r is Ok <==> lookup(old(state)@, key_of(provider_id@, entry_index)) is Some,
        r matches Err(m) ==> m@ == "entry state not found"@,
        old(state).wf() ==> final(state).wf(),
{
    let key = entry_key(provider_id, entry_index);
    proof {
        lemma_key_index_in_range(state@, key@);
    }
    if let Some(i) = find_key(state, key.as_str()) {
        let mut st = state.entries[i].1;
        st.status = EntryStatus::Cooldown;
        st.cooldown_until = after_millis(now, cooldown_ms);
        st.consecutive_errors = 0;
        proof {
            if old(state).wf() {
                assert(backoff_bounded(state@[i as int].1));
                lemma_update_wf(state@, i as int, state@[i as int].0, st);
            }
        }
        set_state(state, i, st);
        Ok(())
    } else {
        Err("entry state not found")
    }
}

/// Records a latency timeout now (see [`record_latency_timeout_at`]). Where
/// the cooldown cannot be formed at the instant read (see [`timeout_fits`])
/// the state is left as it was.
pub fn record_latency_timeout(state: &mut RouterState, provider_id: &str, entry_index: u32, cooldown_ms: u64) -> (r: Result<(), &'static str>)
    ensures
        exists|now: i64|
            #[trigger] is_instant(now) && if timeout_fits(old(state)@, key_of(provider_id@, entry_index), cooldown_ms, now) {
                final(state)@ == update_key(
                    old(state)@,
                    key_of(provider_id@, entry_index),
                    |st: EntryState| timed_out(st, cooldown_ms, now),
                )
            } else {
                final(state)@ == old(state)@
            },
        r is Ok <==> lookup(old(state)@, key_of(provider_id@, entry_index)) is Some,
        r matches Err(m) ==> m@ == "entry state not found"@,
        old(state).wf() ==> final(state).wf(),
{
    let now = now_millis();
    if timeout_fits_exec(state, provider_id, entry_index, cooldown_ms, now) {
        record_latency_timeout_at(state, provider_id, entry_index, cooldown_ms, now)
    } else {
        Ok(())
    }
}


// ---------------------------------------------------------------------------
// Selection
// ---------------------------------------------------------------------------

pub open spec fn provider_token_quota(ps: Seq<Provider>, pid: Seq<char>) -> Option<u64> {
    match find_provider(ps, pid) {
        Some(p) => p.daily_token_quota,
        None => None,
    }
}

pub open spec fn provider_request_quota(ps: Seq<Provider>, pid: Seq<char>) -> Option<u64> {
    match find_provider(ps, pid) {
        Some(p) => p.daily_request_quota,
        None => None,
    }
}

/// The entry's token quota: its own override, else its provider's.
pub open spec fn entry_token_quota(e: GroupEntry, ps: Seq<Provider>) -> Option<u64> {
    or_opt(e.daily_token_quota_override, provider_token_quota(ps, e.provider_id@))
}

/// Neither the token nor the request quota of the entry is used up.
pub open spec fn within_quota(e: GroupEntry, st: EntryState, ps: Seq<Provider>) -> bool {
    let tq = entry_token_quota(e, ps);
    let rq = provider_request_quota(ps, e.provider_id@);
    !(tq is Some && st.daily_tokens_used >= tq.unwrap()) && !(rq is Some && st.daily_requests_used
        >= rq.unwrap())
}

/// A cooled-down entry returning to service.
pub open spec fn reactivated(st: EntryState) -> EntryState {
    EntryState { status: EntryStatus::Active, cooldown_until: None, consecutive_errors: 0, ..st }
}

/// Examines entry `k` of a group: whether it is a candidate, and the view
/// after an expired cooldown is lifted.
pub open spec fn examine(e: GroupEntry, k: int, v: RouterView, ps: Seq<Provider>, skip: Set<u32>, now: i64) -> (RouterView, bool) {
    if skip.contains(k as u32) || !e.enabled {
        (v, false)
    } else {
        match key_index(v, key_of(e.provider_id@, k as u32)) {
            None => (v, true),
            Some(i) => {
                let st = v[i].1;
                if st.status == EntryStatus::Cooldown {
                    if st.cooldown_until is Some && now >= st.cooldown_until.unwrap() {
                        (v.update(i, (v[i].0, reactivated(st))), true)
                    } else {
                        (v, false)
                    }
                } else if st.status != EntryStatus::Active {
                    (v, false)
                } else {
                    (v, within_quota(e, st, ps))
                }
            },
        }
    }
}

/// Examines entries `k..` in order, keeping the first candidate of lowest
/// priority.
pub open spec fn select_from(
    es: Seq<GroupEntry>,
    k: int,
    v: RouterView,
    ps: Seq<Provider>,
    skip: Set<u32>,
    now: i64,
    best: Option<int>,
) -> (RouterView, Option<int>)
    decreases es.len() - k,
{
    if k < 0 || k >= es.len() {
        (v, best)
    } else {
        let ex = examine(es[k], k, v, ps, skip, now);
        let best2 = if ex.1 && (best is None || es[k].priority < es[best.unwrap()].priority) {
            Some(k)
        } else {
            best
        };
        select_from(es, k + 1, ex.0, ps, skip, now, best2)
    }
}

fn within_quota_exec(e: &GroupEntry, st: &EntryState, providers: &[Provider]) -> (r: bool)
    ensures
        r == within_quota(*e, *st, providers@),
{
    let provider = find_provider_exec(providers, e.provider_id.as_str());
    let tq = match e.daily_token_quota_override {
        Some(q) => Some(q),
        None => match provider {
            Some(p) => p.daily_token_quota,
            None => None,
        },
    };
    if let Some(q) = tq {
        if st.daily_tokens_used >= q {
            return false;
        }
    }
    let rq = match provider {
        Some(p) => p.daily_request_quota,
        None => None,
    };
    if let Some(q) = rq {
        if st.daily_requests_used >= q {
            return false;
        }
    }
    true
}

/// Selects the highest-priority eligible entry of a group at instant `now`.
///
/// An entry is eligible when it is enabled, not in `skip_indices`, and its
/// state (if any) is `Active` within its daily quotas, or is a `Cooldown`
/// whose end has passed, which returns the entry to `Active` on the way.
/// Among eligible entries the lowest priority wins, the earliest on ties.
pub fn select_entry_at<'a>(
    group: &'a Group,
    state: &mut RouterState,
    providers: &[Provider],
    skip_indices: &HashSet<u32>,
    now: i64,
) -> (r: Option<(&'a GroupEntry, u32)>)
    requires
        group.entries@.len() <= u32::MAX,
    ensures
        final(state)@ == select_from(group.entries@, 0, old(state)@, providers@, skip_indices@, now, None).0,
        match r {
            Some(p) => select_from(group.entries@, 0, old(state)@, providers@, skip_indices@, now, None).1
                == Some(p.1 as int) && p.1 < group.entries@.len() && *p.0 == group.entries@[p.1 as int],
            None => select_from(group.entries@, 0, old(state)@, providers@, skip_indices@, now, None).1 is None,
        },
        old(state).wf() ==> final(state).wf(),
{
    let mut best: Option<usize> = None;
    let mut k: usize = 0;
    while k < group.entries.len()
        invariant
            group.entries@.len() <= u32::MAX,
            k <= group.entries@.len(),
            best matches Some(b) ==> b < k,
            select_from(group.entries@, 0, old(state)@, providers@, skip_indices@, now, None) == select_from(
                group.entries@,
                k as int,
                state@,
                providers@,
                skip_indices@,
                now,
                match best {
                    Some(b) => Some(b as int),
                    None => None,
                },
            ),
            old(state).wf() ==> state.wf(),
        decreases group.entries.len() - k,
    {
        let e = &group.entries[k];
        let idx = k as u32;
        let mut candidate = false;
        if !skip_indices.contains(&idx) && e.enabled {
            let key = entry_key(e.provider_id.as_str(), idx);
            proof {
                lemma_key_index_in_range(state@, key@);
            }
            match find_key(state, key.as_str()) {
                None => {
                    candidate = true;
                },
                Some(i) => {
                    let st = state.entries[i].1;
                    if st.status == EntryStatus::Cooldown {
                        let expired = match st.cooldown_until {
                            Some(u) => now >= u,
                            None => false,
                        };
                        if expired {
                            let mut st2 = st;
                            st2.status = EntryStatus::Active;
                            st2.cooldown_until = None;
                            st2.consecutive_errors = 0;
                            proof {
                                if old(state).wf() {
                                    assert(backoff_bounded(state@[i as int].1));
                                    lemma_update_wf(state@, i as int, state@[i as int].0, st2);
                                }
                            }
                            set_state(state, i, st2);
                            candidate = true;
                        }
                    } else if st.status == EntryStatus::Active {
                        candidate = within_quota_exec(e, &st, providers);
                    }
                },
            }
        }
        if candidate {
            let better = match best {
                None => true,
                Some(b) => e.priority < group.entries[b].priority,
            };
            if better {
                best = Some(k);
            }
        }
        k = k + 1;
    }
    match best {
        Some(b) => Some((&group.entries[b], b as u32)),
        None => None,
    }
}

/// Selects the highest-priority eligible entry now (see [`select_entry_at`]).
pub fn select_entry<'a>(
    group: &'a Group,
    state: &mut RouterState,
    providers: &[Provider],
    skip_indices: &HashSet<u32>,
) -> (r: Option<(&'a GroupEntry, u32)>)
    requires
        group.entries@.len() <= u32::MAX,
    ensures
        exists|now: i64|
            #[trigger] is_instant(now) && final(state)@ == select_from(group.entries@, 0, old(state)@, providers@, skip_indices@, now, None).0
                && match r {
                Some(p) => select_from(group.entries@, 0, old(state)@, providers@, skip_indices@, now, None).1
                    == Some(p.1 as int) && p.1 < group.entries@.len() && *p.0 == group.entries@[p.1 as int],
                None => select_from(group.entries@, 0, old(state)@, providers@, skip_indices@, now, None).1 is None,
            },
        old(state).wf() ==> final(state).wf(),
{
    let now = now_millis();
    select_entry_at(group, state, providers, skip_indices, now)
}

/// Whether entry `k` can take a request without changing any state: enabled,
/// and either without a state or `Active` within its quotas.
pub open spec fn entry_available(e: GroupEntry, k: int, v: RouterView, ps: Seq<Provider>) -> bool {
    e.enabled && match lookup(v, key_of(e.provider_id@, k as u32)) {
        None => true,
        Some(st) => st.status == EntryStatus::Active && within_quota(e, st, ps),
    }
}

/// Whether some entry of the group can take a request right now.
pub fn group_has_available_entry(group: &Group, providers: &[Provider], router_state: &RouterState) -> (r: bool)
    requires
        group.entries@.len() <= u32::MAX,
    ensures
        r == exists|k: int| 0 <= k < group.entries@.len() && #[trigger] entry_available(group.entries@[k], k, router_state@, providers@),
{
    let mut k: usize = 0;
    while k < group.entries.len()
        invariant
            group.entries@.len() <= u32::MAX,
            k <= group.entries@.len(),
            forall|j: int| 0 <= j < k ==> !#[trigger] entry_available(group.entries@[j], j, router_state@, providers@),
        decreases group.entries.len() - k,
    {
        let e = &group.entries[k];
        if e.enabled {
            let key = entry_key(e.provider_id.as_str(), k as u32);
            match router_state.get(key.as_str()) {
                None => {
                    assert(entry_available(group.entries@[k as int], k as int, router_state@, providers@));
                    return true;
                },
                Some(st) => {
                    if st.status == EntryStatus::Active && within_quota_exec(e, st, providers) {
                        assert(entry_available(group.entries@[k as int], k as int, router_state@, providers@));
                        return true;
                    }
                },
            }
        }
        k = k + 1;
    }
    false
}


// ---------------------------------------------------------------------------
// Status report
// ---------------------------------------------------------------------------

/// Status snapshot of one group entry.
pub struct EntryStatusResponse {
    pub group_id: String,
    pub group_alias: String,
    pub provider_id: String,
    pub model_id: String,
    pub priority: u32,
    pub entry_index: u32,
    /// Lower-case status name.
    pub status: String,
    pub cooldown_until: Option<i64>,
    pub consecutive_errors: u32,
    pub daily_tokens_used: u64,
    pub daily_requests_used: u64,
    pub daily_reset_at: i64,
    pub cooldown_duration_seconds: Option<i64>,
}

/// Status snapshot of every group entry.
pub struct RouterStatusResponse {
    pub entries: Vec<EntryStatusResponse>,
}

/// The lower-case name of a status, as its `Debug` form lower-cased.
pub open spec fn status_name(s: EntryStatus) -> Seq<char> {
    match s {
        EntryStatus::Active => "active"@,
        EntryStatus::Cooldown => "cooldown"@,
        EntryStatus::ManuallyDisabled => "manuallydisabled"@,
        EntryStatus::QuotaExhausted => "quotaexhausted"@,
    }
}

pub fn status_name_exec(s: EntryStatus) -> (r: String)
    ensures
        r@ == status_name(s),
{
    match s {
        EntryStatus::Active => String::from_str("active"),
        EntryStatus::Cooldown => String::from_str("cooldown"),
        EntryStatus::ManuallyDisabled => String::from_str("manuallydisabled"),
        EntryStatus::QuotaExhausted => String::from_str("quotaexhausted"),
    }
}

/// The state reported for an entry that has none.
pub open spec fn reported_default(now: i64) -> EntryState {
    EntryState {
        status: EntryStatus::Active,
        cooldown_until: None,
        consecutive_errors: 0,
        daily_tokens_used: 0,
        daily_requests_used: 0,
        daily_reset_at: now,
        cooldown_duration_seconds: Some(60),
    }
}

/// Every `(group, entry index)` pair, group by group.
pub open spec fn status_rows(gs: Seq<Group>) -> Seq<(Group, int)>
    decreases gs.len(),
{
    if gs.len() == 0 {
        Seq::empty()
    } else {
        status_rows(gs.drop_last()) + Seq::new(gs.last().entries@.len(), |k: int| (gs.last(), k))
    }
}

/// The state reported for entry `k` of `g`.
pub open spec fn reported_state(g: Group, k: int, v: RouterView, now: i64) -> EntryState {
    match lookup(v, key_of(g.entries@[k].provider_id@, k as u32)) {
        Some(st) => st,
        None => reported_default(now),
    }
}

/// A status row describes entry `k` of group `g`.
pub open spec fn row_describes(r: EntryStatusResponse, g: Group, k: int, v: RouterView, now: i64) -> bool {
    let e = g.entries@[k];
    let st = reported_state(g, k, v, now);
    &&& r.group_id@ == g.id@
    &&& r.group_alias@ == g.alias@
    &&& r.provider_id@ == e.provider_id@
    &&& r.model_id@ == e.model_id@
    &&& r.priority == e.priority
    &&& r.entry_index == k
    &&& r.status@ == status_name(st.status)
    &&& r.cooldown_until == st.cooldown_until
    &&& r.consecutive_errors == st.consecutive_errors
    &&& r.daily_tokens_used == st.daily_tokens_used
    &&& r.daily_requests_used == st.daily_requests_used
    &&& r.daily_reset_at == st.daily_reset_at
    &&& r.cooldown_duration_seconds == st.cooldown_duration_seconds
}

/// Builds the status of every entry of every group at instant `now`, in
/// group and entry order; entries without a state are reported `Active`
/// with `now` as their reset time.
pub fn get_router_status_at(groups: &[Group], state: &RouterState, now: i64) -> (r: RouterStatusResponse)
    requires
        forall|i: int| 0 <= i < groups@.len() ==> (#[trigger] groups@[i]).entries@.len() <= u32::MAX,
    ensures
        r.entries@.len() == status_rows(groups@).len(),
        forall|i: int|
            0 <= i < r.entries@.len() ==> row_describes(
                #[trigger] r.entries@[i],
                status_rows(groups@)[i].0,
                status_rows(groups@)[i].1,
                state@,
                now,
            ),
{
    let mut out: Vec<EntryStatusResponse> = Vec::new();
    let mut gi: usize = 0;
    assert(groups@.take(0) =~= Seq::<Group>::empty());
    while gi < groups.len()
        invariant
            forall|i: int| 0 <= i < groups@.len() ==> (#[trigger] groups@[i]).entries@.len() <= u32::MAX,
            gi <= groups@.len(),
            out@.len() == status_rows(groups@.take(gi as int)).len(),
            forall|i: int|
                0 <= i < out@.len() ==> row_describes(
                    #[trigger] out@[i],
                    status_rows(groups@.take(gi as int))[i].0,
                    status_rows(groups@.take(gi as int))[i].1,
                    state@,
                    now,
                ),
        decreases groups.len() - gi,
    {
        let g = &groups[gi];
        let base = out.len();
        let ghost prev = status_rows(groups@.take(gi as int));
        let mut k: usize = 0;
        while k < g.entries.len()
            invariant
                g.entries@.len() <= u32::MAX,
                k <= g.entries@.len(),
                base == prev.len(),
                out@.len() == base + k,
                forall|i: int|
                    0 <= i < base ==> row_describes(#[trigger] out@[i], prev[i].0, prev[i].1, state@, now),
                forall|i: int|
                    base <= i < out@.len() ==> row_describes(#[trigger] out@[i], *g, i - base, state@, now),
            decreases g.entries.len() - k,
        {
            let e = &g.entries[k];
            let key = entry_key(e.provider_id.as_str(), k as u32);
            let st = match state.get(key.as_str()) {
                Some(s) => *s,
                None => EntryState {
                    status: EntryStatus::Active,
                    cooldown_until: None,
                    consecutive_errors: 0,
                    daily_tokens_used: 0,
                    daily_requests_used: 0,
                    daily_reset_at: now,
                    cooldown_duration_seconds: Some(60),
                },
            };
            let row = EntryStatusResponse {
                group_id: g.id.clone(),
                group_alias: g.alias.clone(),
                provider_id: e.provider_id.clone(),
                model_id: e.model_id.clone(),
                priority: e.priority,
                entry_index: k as u32,
                status: status_name_exec(st.status),
                cooldown_until: st.cooldown_until,
                consecutive_errors: st.consecutive_errors,
                daily_tokens_used: st.daily_tokens_used,
                daily_requests_used: st.daily_requests_used,
                daily_reset_at: st.daily_reset_at,
                cooldown_duration_seconds: st.cooldown_duration_seconds,
            };
            out.push(row);
            k = k + 1;
        }
        proof {
            let t1 = groups@.take(gi + 1);
            assert(t1.drop_last() =~= groups@.take(gi as int));
            assert(t1.last() == groups@[gi as int]);
            let rs = status_rows(t1);
            assert(rs =~= prev + Seq::new(g.entries@.len(), |k: int| (*g, k)));
            assert forall|i: int| 0 <= i < out@.len() implies row_describes(#[trigger] out@[i], rs[i].0, rs[i].1, state@, now) by {
                if i < base {
                    assert(rs[i] == prev[i]);
                } else {
                    assert(rs[i] == (*g, i - base));
                }
            }
        }
        gi = gi + 1;
    }
    assert(groups@.take(groups@.len() as int) =~= groups@);
    RouterStatusResponse { entries: out }
}

/// Builds the status of every entry now (see [`get_router_status_at`]).
pub fn get_router_status(groups: &[Group], state: &RouterState) -> (r: RouterStatusResponse)
    requires
        forall|i: int| 0 <= i < groups@.len() ==> (#[trigger] groups@[i]).entries@.len() <= u32::MAX,
    ensures
        exists|now: i64|
            #[trigger] is_instant(now) && r.entries@.len() == status_rows(groups@).len() && forall|i: int|
                0 <= i < r.entries@.len() ==> row_describes(
                    #[trigger] r.entries@[i],
                    status_rows(groups@)[i].0,
                    status_rows(groups@)[i].1,
                    state@,
                    now,
                ),
{
    let now = now_millis();
    get_router_status_at(groups, state, now)
}


// ---------------------------------------------------------------------------
// Scheduled maintenance
// ---------------------------------------------------------------------------

/// Today's `min(reset_hour, 23)`:00 UTC plus one day.
pub open spec fn following_reset(now: i64, reset_hour: u32) -> i64 {
    let h: int = if reset_hour <= 23 {
        reset_hour as int
    } else {
        23
    };
    (now - (now % DAY_MS) + h * HOUR_MS + DAY_MS) as i64
}

/// A state whose daily counters start over.
pub open spec fn daily_reset(st: EntryState, reset_hour: u32, now: i64) -> EntryState {
    EntryState {
        status: EntryStatus::Active,
        daily_tokens_used: 0,
        daily_requests_used: 0,
        consecutive_errors: 0,
        daily_reset_at: following_reset(now, reset_hour),
        ..st
    }
}

/// The view after entry `k` of a group is considered for its daily reset:
/// only a state that is not `ManuallyDisabled`, whose provider is known and
/// whose reset time has come, starts over.
pub open spec fn reset_entry(v: RouterView, e: GroupEntry, k: int, ps: Seq<Provider>, now: i64) -> RouterView {
    match key_index(v, key_of(e.provider_id@, k as u32)) {
        None => v,
        Some(i) => if v[i].1.status == EntryStatus::ManuallyDisabled {
            v
        } else {
            match find_provider(ps, e.provider_id@) {
                None => v,
                Some(p) => if now >= v[i].1.daily_reset_at {
                    v.update(i, (v[i].0, daily_reset(v[i].1, p.quota_reset_utc_hour, now)))
                } else {
                    v
                },
            }
        },
    }
}

pub open spec fn reset_entries_from(v: RouterView, g: Group, k: int, ps: Seq<Provider>, now: i64) -> RouterView
    decreases g.entries@.len() - k,
{
    if k < 0 || k >= g.entries@.len() {
        v
    } else {
        reset_entries_from(reset_entry(v, g.entries@[k], k, ps, now), g, k + 1, ps, now)
    }
}

pub open spec fn reset_groups(v: RouterView, gs: Seq<Group>, ps: Seq<Provider>, now: i64) -> RouterView
    decreases gs.len(),
{
    if gs.len() == 0 {
        v
    } else {
        reset_groups(reset_entries_from(v, gs[0], 0, ps, now), gs.drop_first(), ps, now)
    }
}

/// Resets the daily counters of every entry whose reset time has come, at
/// instant `now`, group by group (see [`reset_entry`]).
pub fn run_quota_reset_at(state: &mut RouterState, groups: &[Group], providers: &[Provider], now: i64)
    requires
        0 <= now <= MAX_TIMESTAMP_MILLIS,
        forall|i: int| 0 <= i < groups@.len() ==> (#[trigger] groups@[i]).entries@.len() <= u32::MAX,
    ensures
        final(state)@ == reset_groups(old(state)@, groups@, providers@, now),
        old(state).wf() ==> final(state).wf(),
{
    let mut gi: usize = 0;
    assert(groups@.skip(0) =~= groups@);
    while gi < groups.len()
        invariant
            0 <= now <= MAX_TIMESTAMP_MILLIS,
            forall|i: int| 0 <= i < groups@.len() ==> (#[trigger] groups@[i]).entries@.len() <= u32::MAX,
            gi <= groups@.len(),
            reset_groups(old(state)@, groups@, providers@, now) == reset_groups(state@, groups@.skip(gi as int), providers@, now),
            old(state).wf() ==> state.wf(),
        decreases groups.len() - gi,
    {
        assert(groups@.skip(gi as int).drop_first() =~= groups@.skip(gi + 1));
        assert(groups@.skip(gi as int)[0] == groups@[gi as int]);
        let g = &groups[gi];
        let mut k: usize = 0;
        let ghost v_g = state@;
        while k < g.entries.len()
            invariant
                0 <= now <= MAX_TIMESTAMP_MILLIS,
                g.entries@.len() <= u32::MAX,
                k <= g.entries@.len(),
                reset_entries_from(v_g, *g, 0, providers@, now) == reset_entries_from(state@, *g, k as int, providers@, now),
                old(state).wf() ==> state.wf(),
            decreases g.entries.len() - k,
        {
            let e = &g.entries[k];
            let key = entry_key(e.provider_id.as_str(), k as u32);
            proof {
                lemma_key_index_in_range(state@, key@);
            }
            if let Some(i) = find_key(state, key.as_str()) {
                let st = state.entries[i].1;
                if st.status != EntryStatus::ManuallyDisabled {
                    if let Some(p) = find_provider_exec(providers, e.provider_id.as_str()) {
                        if now >= st.daily_reset_at {
                            let h: i64 = if p.quota_reset_utc_hour <= 23 {
                                p.quota_reset_utc_hour as i64
                            } else {
                                23
                            };
                            let mut st2 = st;
                            st2.status = EntryStatus::Active;
                            st2.daily_tokens_used = 0;
                            st2.daily_requests_used = 0;
                            st2.consecutive_errors = 0;
                            st2.daily_reset_at = now - (now % DAY_MS) + h * HOUR_MS + DAY_MS;
                            proof {
                                if old(state).wf() {
                                    assert(backoff_bounded(state@[i as int].1));
                                    lemma_update_wf(state@, i as int, state@[i as int].0, st2);
                                }
                            }
                            set_state(state, i, st2);
                        }
                    }
                }
            }
            k = k + 1;
        }
        gi = gi + 1;
    }
    assert(groups@.skip(gi as int) =~= Seq::<Group>::empty());
}

/// Outcome of probing a provider in cooldown.
#[derive(Clone, Copy, Debug, PartialEq, Eq, Structural)]
pub enum ProbeResult {
    /// The provider answered successfully.
    Success,
    /// The provider answered HTTP 429.
    RateLimited,
    /// The request failed or answered another status.
    Error,
}

/// The state after a probe: a success returns the entry to service with the
/// base backoff; a 429 doubles the backoff (capped at 3600 s) and waits
/// again; another error waits the same backoff again.
pub open spec fn probed(st: EntryState, result: ProbeResult, current: i64, now: i64) -> EntryState {
    match result {
        ProbeResult::Success => EntryState {
            status: EntryStatus::Active,
            cooldown_until: None,
            consecutive_errors: 0,
            cooldown_duration_seconds: Some(BASE_COOLDOWN_SECONDS),
            ..st
        },
        ProbeResult::RateLimited => {
            let d = (if current * 2 <= MAX_COOLDOWN_SECONDS {
                current * 2
            } else {
                MAX_COOLDOWN_SECONDS as int
            }) as i64;
            EntryState { cooldown_until: Some((now + d * 1000) as i64), cooldown_duration_seconds: Some(d), ..st }
        },
        ProbeResult::Error => EntryState {
            cooldown_until: Some((now + current * 1000) as i64),
            cooldown_duration_seconds: Some(current),
            ..st
        },
    }
}

/// Whether a probe outcome can be applied to this state at `now`: a 429
/// doubles the current backoff within an `i64`, and the new cooldown ends
/// within `chrono`'s range.
pub open spec fn probe_fits(result: ProbeResult, current: i64, now: i64) -> bool {
    match result {
        ProbeResult::Success => true,
        ProbeResult::RateLimited => i64::MIN <= 2 * current <= i64::MAX && seconds_fit(
            now,
            if current * 2 <= MAX_COOLDOWN_SECONDS {
                current * 2
            } else {
                MAX_COOLDOWN_SECONDS as int
            },
        ),
        ProbeResult::Error => seconds_fit(now, current as int),
    }
}

/// [`probe_fits`] where `key` has a state.
pub open spec fn probe_fits_at(v: RouterView, key: Seq<char>, result: ProbeResult, current: i64, now: i64) -> bool {
    lookup(v, key) is Some ==> probe_fits(result, current, now)
}

/// Computes [`probe_fits_at`].
pub fn probe_fits_exec(state: &RouterState, key: &str, result: ProbeResult, current_cooldown: i64, now: i64) -> (r: bool)
    requires
        is_instant(now),
    ensures
        r == probe_fits_at(state@, key@, result, current_cooldown, now),
{
    if find_key(state, key).is_none() {
        return true;
    }
    match result {
        ProbeResult::Success => true,
        ProbeResult::RateLimited => {
            if current_cooldown < -0x4000_0000_0000_0000i64 || current_cooldown > 0x3fff_ffff_ffff_ffffi64 {
                false
            } else {
                let d = if current_cooldown * 2 <= MAX_COOLDOWN_SECONDS {
                    current_cooldown * 2
                } else {
                    MAX_COOLDOWN_SECONDS
                };
                after_seconds(now, d).is_some()
            }
        },
        ProbeResult::Error => after_seconds(now, current_cooldown).is_some(),
    }
}

/// Applies a probe outcome to the entry stored under `key`, at instant `now`.
pub fn handle_probe_result_at(state: &mut RouterState, key: &str, result: ProbeResult, current_cooldown: i64, now: i64)
    requires
        is_instant(now),
        probe_fits_at(old(state)@, key@, result, current_cooldown, now),
    ensures
        final(state)@ == update_key(old(state)@, key@, |st: EntryState| probed(st, result, current_cooldown, now)),
        old(state).wf() ==> final(state).wf(),
{
    proof {
        lemma_key_index_in_range(state@, key@);
    }
    if let Some(i) = find_key(state, key) {
        let mut st = state.entries[i].1;
        match result {
            ProbeResult::Success => {
                st.status = EntryStatus::Active;
                st.cooldown_until = None;
                st.consecutive_errors = 0;
                st.cooldown_duration_seconds = Some(BASE_COOLDOWN_SECONDS);
            },
            ProbeResult::RateLimited => {
                let d = if current_cooldown * 2 <= MAX_COOLDOWN_SECONDS {
                    current_cooldown * 2
                } else {
                    MAX_COOLDOWN_SECONDS
                };
                st.cooldown_until = after_seconds(now, d);
                st.cooldown_duration_seconds = Some(d);
            },
            ProbeResult::Error => {
                st.cooldown_until = after_seconds(now, current_cooldown);
                st.cooldown_duration_seconds = Some(current_cooldown);
            },
        }
        proof {
            if old(state).wf() {
                lemma_update_wf(state@, i as int, state@[i as int].0, st);
            }
        }
        set_state(state, i, st);
    }
}

/// Applies a probe outcome now (see [`handle_probe_result_at`]). Where the
/// outcome cannot be applied at the instant read (see [`probe_fits`]) the
/// state is left as it was.
pub fn handle_probe_result(state: &mut RouterState, key: &str, result: ProbeResult, current_cooldown: i64)
    ensures
        exists|now: i64|
            #[trigger] is_instant(now) && if probe_fits_at(old(state)@, key@, result, current_cooldown, now) {
                final(state)@ == update_key(
                    old(state)@,
                    key@,
                    |st: EntryState| probed(st, result, current_cooldown, now),
                )
            } else {
                final(state)@ == old(state)@
            },
        old(state).wf() ==> final(state).wf(),
{
    let now = now_millis();
    if probe_fits_exec(state, key, result, current_cooldown, now) {
        handle_probe_result_at(state, key, result, current_cooldown, now);
    }
}

/// An entry is due for a probe: it is cooling down and its cooldown has
/// ended.
pub open spec fn probe_due(st: EntryState, now: i64) -> bool {
    st.status == EntryStatus::Cooldown && st.cooldown_until is Some && now >= st.cooldown_until.unwrap()
}

/// A probe to run: the entry key, its provider's index, and the backoff it
/// is waiting out.
pub struct ProbeTarget {
    pub key: String,
    pub provider_index: usize,
    pub cooldown_seconds: i64,
}

pub open spec fn probe_cooldown(st: EntryState) -> i64 {
    match st.cooldown_duration_seconds {
        Some(d) => d,
        None => BASE_COOLDOWN_SECONDS,
    }
}

/// The probes due at instant `now`, group by group and entry by entry: one
/// per entry whose state is due (see [`probe_due`]) and whose provider is
/// known.
pub fn collect_probes_at(state: &RouterState, groups: &[Group], providers: &[Provider], now: i64) -> (r: Vec<ProbeTarget>)
    requires
        forall|i: int| 0 <= i < groups@.len() ==> (#[trigger] groups@[i]).entries@.len() <= u32::MAX,
    ensures
        forall|i: int|
            0 <= i < r@.len() ==> {
                let t = #[trigger] r@[i];
                &&& lookup(state@, t.key@) matches Some(st) && probe_due(st, now) && t.cooldown_seconds == probe_cooldown(st)
                &&& t.provider_index < providers@.len()
                &&& exists|gi: int, k: int|
                    0 <= gi < groups@.len() && 0 <= k < groups@[gi].entries@.len() && t.key@ == key_of(
                        groups@[gi].entries@[k].provider_id@,
                        k as u32,
                    ) && find_provider(providers@, groups@[gi].entries@[k].provider_id@) == Some(
                        providers@[t.provider_index as int],
                    )
            },
        forall|gi: int, k: int|
            0 <= gi < groups@.len() && 0 <= k < groups@[gi].entries@.len() && (lookup(
                state@,
                key_of(groups@[gi].entries@[k].provider_id@, k as u32),
            ) matches Some(st) && probe_due(st, now)) && find_provider(
                providers@,
                groups@[gi].entries@[k].provider_id@,
            ) is Some ==> exists|i: int|
                0 <= i < r@.len() && (#[trigger] r@[i]).key@ == key_of(groups@[gi].entries@[k].provider_id@, k as u32),
{
    let mut out: Vec<ProbeTarget> = Vec::new();
    let mut gi: usize = 0;
    while gi < groups.len()
        invariant
            forall|i: int| 0 <= i < groups@.len() ==> (#[trigger] groups@[i]).entries@.len() <= u32::MAX,
            gi <= groups@.len(),
            forall|i: int|
                0 <= i < out@.len() ==> {
                    let t = #[trigger] out@[i];
                    &&& lookup(state@, t.key@) matches Some(st) && probe_due(st, now) && t.cooldown_seconds == probe_cooldown(st)
                    &&& t.provider_index < providers@.len()
                    &&& exists|gj: int, k: int|
                        0 <= gj < groups@.len() && 0 <= k < groups@[gj].entries@.len() && t.key@ == key_of(
                            groups@[gj].entries@[k].provider_id@,
                            k as u32,
                        ) && find_provider(providers@, groups@[gj].entries@[k].provider_id@) == Some(
                            providers@[t.provider_index as int],
                        )
                },
            forall|gj: int, k: int|
                0 <= gj < gi && 0 <= k < groups@[gj].entries@.len() && (lookup(
                    state@,
                    key_of(groups@[gj].entries@[k].provider_id@, k as u32),
                ) matches Some(st) && probe_due(st, now)) && find_provider(
                    providers@,
                    groups@[gj].entries@[k].provider_id@,
                ) is Some ==> exists|i: int|
                    0 <= i < out@.len() && (#[trigger] out@[i]).key@ == key_of(groups@[gj].entries@[k].provider_id@, k as u32),
        decreases groups.len() - gi,
    {
        let g = &groups[gi];
        let mut k: usize = 0;
        while k < g.entries.len()
            invariant
                forall|i: int| 0 <= i < groups@.len() ==> (#[trigger] groups@[i]).entries@.len() <= u32::MAX,
                gi < groups@.len(),
                *g == groups@[gi as int],
                k <= g.entries@.len(),
                forall|i: int|
                    0 <= i < out@.len() ==> {
                        let t = #[trigger] out@[i];
                        &&& lookup(state@, t.key@) matches Some(st) && probe_due(st, now) && t.cooldown_seconds == probe_cooldown(st)
                        &&& t.provider_index < providers@.len()
                        &&& exists|gj: int, k: int|
                            0 <= gj < groups@.len() && 0 <= k < groups@[gj].entries@.len() && t.key@ == key_of(
                                groups@[gj].entries@[k].provider_id@,
                                k as u32,
                            ) && find_provider(providers@, groups@[gj].entries@[k].provider_id@) == Some(
                                providers@[t.provider_index as int],
                            )
                    },
                forall|gj: int, kk: int|
                    ((0 <= gj < gi && 0 <= kk < groups@[gj].entries@.len()) || (gj == gi && 0 <= kk < k)) && (lookup(
                        state@,
                        key_of(groups@[gj].entries@[kk].provider_id@, kk as u32),
                    ) matches Some(st) && probe_due(st, now)) && find_provider(
                        providers@,
                        groups@[gj].entries@[kk].provider_id@,
                    ) is Some ==> exists|i: int|
                        0 <= i < out@.len() && (#[trigger] out@[i]).key@ == key_of(groups@[gj].entries@[kk].provider_id@, kk as u32),
            decreases g.entries.len() - k,
        {
            let e = &g.entries[k];
            let key = entry_key(e.provider_id.as_str(), k as u32);
            if let Some(st) = state.get(key.as_str()) {
                let due = st.status == EntryStatus::Cooldown && match st.cooldown_until {
                    Some(u) => now >= u,
                    None => false,
                };
                if due {
                    if let Some(p_index) = find_provider_index(providers, e.provider_id.as_str()) {
                        let cd = match st.cooldown_duration_seconds {
                            Some(d) => d,
                            None => BASE_COOLDOWN_SECONDS,
                        };
                        let ghost old_out = out@;
                        let t = ProbeTarget { key: key, provider_index: p_index, cooldown_seconds: cd };
                        out.push(t);
                        proof {
                            assert(out@[out@.len() - 1].key@ == key_of(e.provider_id@, k as u32));
                            assert forall|i: int| 0 <= i < old_out.len() implies out@[i] == old_out[i] by {}
                        }
                    }
                }
            }
            proof {
                assert forall|gj: int, kk: int|
                    ((0 <= gj < gi && 0 <= kk < groups@[gj].entries@.len()) || (gj == gi && 0 <= kk < k + 1)) && (lookup(
                        state@,
                        key_of(groups@[gj].entries@[kk].provider_id@, kk as u32),
                    ) matches Some(st) && probe_due(st, now)) && find_provider(
                        providers@,
                        groups@[gj].entries@[kk].provider_id@,
                    ) is Some implies exists|i: int|
                        0 <= i < out@.len() && (#[trigger] out@[i]).key@ == key_of(groups@[gj].entries@[kk].provider_id@, kk as u32) by {
                    if gj == gi && kk == k {
                        assert(out@[out@.len() - 1].key@ == key_of(groups@[gj].entries@[kk].provider_id@, kk as u32));
                    }
                }
            }
            k = k + 1;
        }
        gi = gi + 1;
    }
    out
}

/// The index of the first provider with the given id.
pub fn find_provider_index(ps: &[Provider], id: &str) -> (r: Option<usize>)
    ensures
        match r {
            Some(i) => i < ps@.len() && find_provider(ps@, id@) == Some(ps@[i as int]),
            None => find_provider(ps@, id@) is None,
        },
{
    let mut i: usize = 0;
    proof {
        crate::seqs::lemma_skip_zero(ps@);
    }
    while i < ps.len()
        invariant
            i <= ps@.len(),
            find_provider(ps@, id@) == crate::seqs::first_match(ps@.skip(i as int), crate::config_models::provider_has_id(id@)),
        decreases ps.len() - i,
    {
        proof {
            crate::seqs::lemma_first_match_step(ps@, crate::config_models::provider_has_id(id@), i as int);
        }
        if str_eq(ps[i].id.as_str(), id) {
            return Some(i);
        }
        i = i + 1;
    }
    proof {
        crate::seqs::lemma_first_match_end(ps@, crate::config_models::provider_has_id(id@));
    }
    None
}

/// Enables or disables entry `entry_index` of group `group_id` in the router
/// state. Enabling returns it to `Active` with cooldowns cleared and the base
/// backoff; disabling makes it `ManuallyDisabled`.
pub fn set_entry_enabled(state: &mut RouterState, groups: &[Group], group_id: &str, entry_index: usize, enabled: bool) -> (r: Result<(), String>)
    requires
        old(state).wf(),
        entry_index <= u32::MAX,
    ensures
        final(state).wf(),
        match crate::config_models::find_group(groups@, group_id@) {
            None => r matches Err(m) && m@ == "Group '"@ + group_id@ + "' not found"@ && final(state)@ == old(state)@,
            Some(g) => if entry_index >= g.entries@.len() {
                r matches Err(m) && m@ == "Entry index "@ + decimal(entry_index as nat) + " out of range for group '"@ + group_id@ + "'"@
                    && final(state)@ == old(state)@
            } else {
                let key = key_of(g.entries@[entry_index as int].provider_id@, entry_index as u32);
                match lookup(old(state)@, key) {
                    None => r matches Err(m) && m@ == "Entry state not found"@ && final(state)@ == old(state)@,
                    Some(_) => r is Ok && final(state)@ == update_key(old(state)@, key, |st: EntryState| toggled(st, enabled)),
                }
            },
        },
{
    let group = match crate::config_models::find_group_exec(groups, group_id) {
        Some(g) => g,
        None => return Err(cat3("Group '", group_id, "' not found")),
    };
    if entry_index >= group.entries.len() {
        let n = u64_to_decimal(entry_index as u64);
        let m = crate::text::cat5("Entry index ", n.as_str(), " out of range for group '", group_id, "'");
        return Err(m);
    }
    let key = entry_key(group.entries[entry_index].provider_id.as_str(), entry_index as u32);
    proof {
        lemma_key_index_in_range(state@, key@);
    }
    match find_key(state, key.as_str()) {
        None => Err(String::from_str("Entry state not found")),
        Some(i) => {
            let mut st = state.entries[i].1;
            if enabled {
                st.status = EntryStatus::Active;
                st.cooldown_until = None;
                st.consecutive_errors = 0;
                st.cooldown_duration_seconds = Some(BASE_COOLDOWN_SECONDS);
            } else {
                st.status = EntryStatus::ManuallyDisabled;
                st.cooldown_until = None;
            }
            proof {
                assert(backoff_bounded(state@[i as int].1));
                lemma_update_wf(state@, i as int, state@[i as int].0, st);
            }
            set_state(state, i, st);
            Ok(())
        },
    }
}

/// The state after a manual toggle.
pub open spec fn toggled(st: EntryState, enabled: bool) -> EntryState {
    if enabled {
        EntryState {
            status: EntryStatus::Active,
            cooldown_until: None,
            consecutive_errors: 0,
            cooldown_duration_seconds: Some(BASE_COOLDOWN_SECONDS),
            ..st
        }
    } else {
        EntryState { status: EntryStatus::ManuallyDisabled, cooldown_until: None, ..st }
    }
}


// ---------------------------------------------------------------------------
// Laws
// ---------------------------------------------------------------------------

/// The 429 backoff never falls below the base and never exceeds the larger
/// of the base and 3600 s; a first 429 uses the base.
pub proof fn law_backoff_bounds(st: EntryState, base: i64)
    ensures
        base <= backoff_after_429(st, base),
        backoff_after_429(st, base) <= (if base >= MAX_COOLDOWN_SECONDS {
            base
        } else {
            MAX_COOLDOWN_SECONDS
        }),
        st.status != EntryStatus::Cooldown ==> backoff_after_429(st, base) == base,
{
}

/// Each further 429 doubles the backoff while the doubled value stays
/// within the 3600 s cap and above the base.
pub proof fn law_backoff_doubles(st: EntryState, base: i64, d: i64)
    requires
        st.status == EntryStatus::Cooldown,
        st.cooldown_duration_seconds == Some(d),
        base <= 2 * d <= MAX_COOLDOWN_SECONDS,
    ensures
        backoff_after_429(st, base) == 2 * d,
{
}

/// The entry `select_entry` picks is never skipped and never disabled.
pub proof fn law_selected_entry_is_enabled_and_not_skipped(
    es: Seq<GroupEntry>,
    k: int,
    v: RouterView,
    ps: Seq<Provider>,
    skip: Set<u32>,
    now: i64,
    best: Option<int>,
)
    requires
        0 <= k,
        best matches Some(b) ==> 0 <= b < es.len() && !skip.contains(b as u32) && es[b].enabled,
    ensures
        select_from(es, k, v, ps, skip, now, best).1 matches Some(b) ==> 0 <= b < es.len() && !skip.contains(b as u32)
            && es[b].enabled,
    decreases es.len() - k,
{
    if k < es.len() {
        let ex = examine(es[k], k, v, ps, skip, now);
        let best2 = if ex.1 && (best is None || es[k].priority < es[best.unwrap()].priority) {
            Some(k)
        } else {
            best
        };
        law_selected_entry_is_enabled_and_not_skipped(es, k + 1, ex.0, ps, skip, now, best2);
    }
}

/// A key of a provider starts with that provider's prefix.
pub proof fn lemma_key_has_provider_prefix(pid: Seq<char>, idx: u32)
    ensures
        has_prefix(key_of(pid, idx), provider_prefix(pid)),
{
    assert(key_of(pid, idx).take(provider_prefix(pid).len() as int) =~= provider_prefix(pid));
}

/// A success that brings an entry to its token quota leaves it
/// `QuotaExhausted` when the group fails over on exhausted quotas, and its
/// token count grows by exactly the tokens used.
pub proof fn law_success_reaching_quota_exhausts(
    v: RouterView,
    pid: Seq<char>,
    idx: u32,
    tokens: u64,
    quota: u64,
    request_quota: Option<u64>,
)
    requires
        lookup(v, key_of(pid, idx)) matches Some(st) && st.daily_tokens_used + tokens >= quota
            && st.daily_tokens_used + tokens <= u64::MAX,
    ensures
        lookup(after_success(v, pid, idx, tokens, Some(quota), request_quota, true), key_of(pid, idx)) matches Some(st2)
            && st2.status == EntryStatus::QuotaExhausted && st2.cooldown_until is None && st2.daily_tokens_used
            == lookup(v, key_of(pid, idx)).unwrap().daily_tokens_used + tokens,
{
    let key = key_of(pid, idx);
    let r = after_success(v, pid, idx, tokens, Some(quota), request_quota, true);
    let counted_v = Seq::new(
        v.len(),
        |i: int|
            (v[i].0, if has_prefix(v[i].0, provider_prefix(pid)) {
                counted(v[i].1, tokens)
            } else {
                v[i].1
            }),
    );
    lemma_key_index_in_range(v, key);
    lemma_key_has_provider_prefix(pid, idx);
    let i = key_index(v, key).unwrap();
    lemma_key_index_same_keys(v, counted_v, key);
    lemma_key_index_same_keys(v, r, key);
}

/// A success clears the entry's consecutive errors and lifts a cooldown.
pub proof fn law_success_clears_errors_and_cooldown(
    v: RouterView,
    pid: Seq<char>,
    idx: u32,
    tokens: u64,
    q: Option<u64>,
    rq: Option<u64>,
    onq: bool,
)
    requires
        lookup(v, key_of(pid, idx)) is Some,
    ensures
        lookup(after_success(v, pid, idx, tokens, q, rq, onq), key_of(pid, idx)) matches Some(st2)
            && st2.consecutive_errors == 0 && st2.status != EntryStatus::Cooldown,
{
    let key = key_of(pid, idx);
    let r = after_success(v, pid, idx, tokens, q, rq, onq);
    let counted_v = Seq::new(
        v.len(),
        |i: int|
            (v[i].0, if has_prefix(v[i].0, provider_prefix(pid)) {
                counted(v[i].1, tokens)
            } else {
                v[i].1
            }),
    );
    lemma_key_index_in_range(v, key);
    lemma_key_index_same_keys(v, counted_v, key);
    lemma_key_index_same_keys(v, r, key);
}


/// Replacing the state at index `i` (keeping its key) changes only what
/// that key finds.
pub proof fn lemma_lookup_update(v: RouterView, i: int, x: EntryState, key: Seq<char>)
    requires
        0 <= i < v.len(),
    ensures
        lookup(v.update(i, (v[i].0, x)), key) == (if key_index(v, key) == Some(i) {
            Some(x)
        } else {
            lookup(v, key)
        }),
{
    let w = v.update(i, (v[i].0, x));
    lemma_key_index_same_keys(v, w, key);
    lemma_key_index_in_range(v, key);
}

/// What a key finds while a group is examined: its state at the start, or,
/// for a state that was cooling down, that state returned to service.
pub open spec fn seen_or_reactivated(v: RouterView, v0: RouterView, key: Seq<char>) -> bool {
    ||| lookup(v, key) == lookup(v0, key)
    ||| lookup(v0, key) matches Some(s0) && s0.status == EntryStatus::Cooldown && lookup(v, key) == Some(reactivated(s0))
}

proof fn lemma_examine_keeps_seen(e: GroupEntry, k: int, v: RouterView, ps: Seq<Provider>, skip: Set<u32>, now: i64, v0: RouterView, key: Seq<char>)
    requires
        seen_or_reactivated(v, v0, key),
    ensures
        seen_or_reactivated(examine(e, k, v, ps, skip, now).0, v0, key),
{
    if !(skip.contains(k as u32) || !e.enabled) {
        let kk = key_of(e.provider_id@, k as u32);
        lemma_key_index_in_range(v, kk);
        if let Some(i) = key_index(v, kk) {
            let st = v[i].1;
            if st.status == EntryStatus::Cooldown && st.cooldown_until is Some && now >= st.cooldown_until.unwrap() {
                lemma_lookup_update(v, i, reactivated(st), key);
                lemma_key_index_in_range(v, key);
            }
        }
    }
}

proof fn lemma_used_up_never_chosen(
    es: Seq<GroupEntry>,
    k: int,
    v: RouterView,
    ps: Seq<Provider>,
    skip: Set<u32>,
    now: i64,
    best: Option<int>,
    v0: RouterView,
    b: int,
)
    requires
        0 <= k,
        0 <= b < es.len(),
        best != Some(b),
        seen_or_reactivated(v, v0, key_of(es[b].provider_id@, b as u32)),
        lookup(v0, key_of(es[b].provider_id@, b as u32)) matches Some(st) && st.status == EntryStatus::Active
            && !within_quota(es[b], st, ps),
    ensures
        select_from(es, k, v, ps, skip, now, best).1 != Some(b),
    decreases es.len() - k,
{
    let key = key_of(es[b].provider_id@, b as u32);
    if k < es.len() {
        let ex = examine(es[k], k, v, ps, skip, now);
        if k == b {
            lemma_key_index_in_range(v, key);
            assert(!ex.1);
        }
        lemma_examine_keeps_seen(es[k], k, v, ps, skip, now, v0, key);
        let best2 = if ex.1 && (best is None || es[k].priority < es[best.unwrap()].priority) {
            Some(k)
        } else {
            best
        };
        lemma_used_up_never_chosen(es, k + 1, ex.0, ps, skip, now, best2, v0, b);
    }
}

/// Selection never returns an `Active` entry that has used up its daily
/// token quota (its own override, else its provider's) or its provider's
/// daily request quota.
pub proof fn law_selection_skips_used_up_quotas(
    es: Seq<GroupEntry>,
    v: RouterView,
    ps: Seq<Provider>,
    skip: Set<u32>,
    now: i64,
    b: int,
)
    requires
        0 <= b < es.len(),
        lookup(v, key_of(es[b].provider_id@, b as u32)) matches Some(st) && st.status == EntryStatus::Active && (
        (match es[b].daily_token_quota_override {
            Some(q) => st.daily_tokens_used >= q,
            None => find_provider(ps, es[b].provider_id@) matches Some(p) && p.daily_token_quota matches Some(q)
                && st.daily_tokens_used >= q,
        }) || (find_provider(ps, es[b].provider_id@) matches Some(p) && p.daily_request_quota matches Some(q)
            && st.daily_requests_used >= q)),
    ensures
        select_from(es, 0, v, ps, skip, now, None).1 != Some(b),
{
    lemma_used_up_never_chosen(es, 0, v, ps, skip, now, None, v, b);
}

/// A state after its daily reset at `now`: in service, both daily counters
/// at zero, and the next reset still to come.
pub open spec fn freshly_reset(st: EntryState, now: i64) -> bool {
    &&& st.status == EntryStatus::Active
    &&& st.daily_tokens_used == 0
    &&& st.daily_requests_used == 0
    &&& st.daily_reset_at > now
}

/// The key holds a state freshly reset at `now`.
pub open spec fn reset_at(v: RouterView, key: Seq<char>, now: i64) -> bool {
    lookup(v, key) matches Some(s) && freshly_reset(s, now)
}

/// The key holds a state that the reset at `now` starts over: not manually
/// disabled, with its reset time come.
pub open spec fn due_for_reset(v: RouterView, key: Seq<char>, now: i64) -> bool {
    lookup(v, key) matches Some(s) && s.status != EntryStatus::ManuallyDisabled && now >= s.daily_reset_at
}

/// What a key finds during a reset run: its state at the start, or a state
/// freshly reset.
pub open spec fn kept_or_reset(v: RouterView, v0: RouterView, key: Seq<char>, now: i64) -> bool {
    ||| lookup(v, key) == lookup(v0, key)
    ||| reset_at(v, key, now)
}

proof fn lemma_reset_entry_step(v: RouterView, e: GroupEntry, k: int, ps: Seq<Provider>, now: i64, v0: RouterView, key: Seq<char>)
    requires
        0 <= now <= MAX_TIMESTAMP_MILLIS,
        kept_or_reset(v, v0, key, now),
    ensures
        kept_or_reset(reset_entry(v, e, k, ps, now), v0, key, now),
        reset_at(v, key, now) ==> lookup(reset_entry(v, e, k, ps, now), key) == lookup(v, key),
        key_of(e.provider_id@, k as u32) == key && find_provider(ps, e.provider_id@) is Some && due_for_reset(v, key, now)
            ==> reset_at(reset_entry(v, e, k, ps, now), key, now),
{
    let kk = key_of(e.provider_id@, k as u32);
    lemma_key_index_in_range(v, kk);
    lemma_key_index_in_range(v, key);
    if let Some(i) = key_index(v, kk) {
        if v[i].1.status != EntryStatus::ManuallyDisabled {
            if let Some(p) = find_provider(ps, e.provider_id@) {
                if now >= v[i].1.daily_reset_at {
                    let st2 = daily_reset(v[i].1, p.quota_reset_utc_hour, now);
                    lemma_lookup_update(v, i, st2, key);
                    assert(now % DAY_MS < DAY_MS);
                    assert(st2.daily_reset_at > now);
                }
            }
        }
    }
}

proof fn lemma_reset_entries_from(v: RouterView, g: Group, k: int, ps: Seq<Provider>, now: i64, v0: RouterView, key: Seq<char>, t: int)
    requires
        0 <= now <= MAX_TIMESTAMP_MILLIS,
        0 <= k,
        kept_or_reset(v, v0, key, now),
    ensures
        kept_or_reset(reset_entries_from(v, g, k, ps, now), v0, key, now),
        reset_at(v, key, now) ==> lookup(reset_entries_from(v, g, k, ps, now), key) == lookup(v, key),
        k <= t < g.entries@.len() && key_of(g.entries@[t].provider_id@, t as u32) == key && find_provider(ps, g.entries@[t].provider_id@) is Some
            && lookup(v, key) == lookup(v0, key) && due_for_reset(v0, key, now) ==> reset_at(reset_entries_from(v, g, k, ps, now), key, now),
    decreases g.entries@.len() - k,
{
    if k < g.entries@.len() {
        let v1 = reset_entry(v, g.entries@[k], k, ps, now);
        lemma_reset_entry_step(v, g.entries@[k], k, ps, now, v0, key);
        lemma_reset_entries_from(v1, g, k + 1, ps, now, v0, key, t);
    }
}

proof fn lemma_reset_groups(v: RouterView, gs: Seq<Group>, ps: Seq<Provider>, now: i64, v0: RouterView, key: Seq<char>, gi: int, t: int)
    requires
        0 <= now <= MAX_TIMESTAMP_MILLIS,
        kept_or_reset(v, v0, key, now),
    ensures
        kept_or_reset(reset_groups(v, gs, ps, now), v0, key, now),
        reset_at(v, key, now) ==> lookup(reset_groups(v, gs, ps, now), key) == lookup(v, key),
        0 <= gi < gs.len() && 0 <= t < gs[gi].entries@.len() && key_of(gs[gi].entries@[t].provider_id@, t as u32) == key
            && find_provider(ps, gs[gi].entries@[t].provider_id@) is Some && lookup(v, key) == lookup(v0, key) && due_for_reset(v0, key, now)
            ==> reset_at(reset_groups(v, gs, ps, now), key, now),
    decreases gs.len(),
{
    if gs.len() > 0 {
        let v1 = reset_entries_from(v, gs[0], 0, ps, now);
        lemma_reset_entries_from(v, gs[0], 0, ps, now, v0, key, if gi == 0 { t } else { -1 });
        lemma_reset_groups(v1, gs.drop_first(), ps, now, v0, key, gi - 1, t);
        if 0 < gi < gs.len() {
            assert(gs.drop_first()[gi - 1] == gs[gi]);
        }
    }
}

/// The daily reset run at `now` gives every entry whose reset time has come
/// (and that is not manually disabled, and whose provider is known) a state
/// in service with both daily counters, tokens and requests, back at zero.
pub proof fn law_daily_reset_clears_both_counters(v: RouterView, gs: Seq<Group>, ps: Seq<Provider>, now: i64, gi: int, k: int)
    requires
        0 <= now <= MAX_TIMESTAMP_MILLIS,
        0 <= gi < gs.len(),
        0 <= k < gs[gi].entries@.len(),
        find_provider(ps, gs[gi].entries@[k].provider_id@) is Some,
        lookup(v, key_of(gs[gi].entries@[k].provider_id@, k as u32)) matches Some(s) && s.status
            != EntryStatus::ManuallyDisabled && now >= s.daily_reset_at,
    ensures
        lookup(reset_groups(v, gs, ps, now), key_of(gs[gi].entries@[k].provider_id@, k as u32)) matches Some(s2)
            && s2.status == EntryStatus::Active && s2.daily_tokens_used == 0 && s2.daily_requests_used == 0,
{
    lemma_reset_groups(v, gs, ps, now, v, key_of(gs[gi].entries@[k].provider_id@, k as u32), gi, k);
}

/// The status text of an entry names its status: `active`, `cooldown`,
/// `manuallydisabled` or `quotaexhausted`, the status's name lower-cased,
/// each text standing for exactly one status.
pub proof fn law_status_text_names_the_status(s: EntryStatus)
    ensures
        (status_name(s) == "active"@) == (s == EntryStatus::Active),
        (status_name(s) == "cooldown"@) == (s == EntryStatus::Cooldown),
        (status_name(s) == "manuallydisabled"@) == (s == EntryStatus::ManuallyDisabled),
        (status_name(s) == "quotaexhausted"@) == (s == EntryStatus::QuotaExhausted),
{
    reveal_strlit("active");
    reveal_strlit("cooldown");
    reveal_strlit("manuallydisabled");
    reveal_strlit("quotaexhausted");
    assert("active"@ != "cooldown"@ && "active"@ != "manuallydisabled"@ && "active"@ != "quotaexhausted"@) by {
        assert("active"@[1] != "cooldown"@[1]);
    }
    assert("cooldown"@ != "manuallydisabled"@ && "cooldown"@ != "quotaexhausted"@ && "manuallydisabled"@ != "quotaexhausted"@) by {
        assert("cooldown"@[0] != "quotaexhausted"@[0]);
    }
}

/// With the consecutive-error trigger disabled, recording an error only
/// counts it: the entry keeps its status and cooldown, whatever the
/// threshold, and no other key changes.
pub proof fn law_disabled_trigger_only_counts(v: RouterView, key: Seq<char>, other: Seq<char>, threshold: u32, cooldown_ms: u64, now: i64)
    requires
        lookup(v, key) matches Some(st) && st.consecutive_errors < u32::MAX,
        other != key,
    ensures
        lookup(update_key(v, key, |st: EntryState| errored(st, threshold, false, cooldown_ms, now)), key) matches Some(st2)
            && st2 == (EntryState { consecutive_errors: (lookup(v, key).unwrap().consecutive_errors + 1) as u32, ..lookup(v, key).unwrap() }),
        lookup(update_key(v, key, |st: EntryState| errored(st, threshold, false, cooldown_ms, now)), other) == lookup(v, other),
{
    lemma_key_index_in_range(v, key);
    let i = key_index(v, key).unwrap();
    let st = v[i].1;
    lemma_lookup_update(v, i, errored(st, threshold, false, cooldown_ms, now), key);
    lemma_lookup_update(v, i, errored(st, threshold, false, cooldown_ms, now), other);
    lemma_key_index_in_range(v, other);
}

/// With the trigger enabled, an error below the threshold only counts; the
/// error that reaches the threshold puts the entry into `Cooldown` until
/// `now + cooldown_ms` and restarts the count.
pub proof fn law_enabled_trigger_cools_down_at_threshold(v: RouterView, key: Seq<char>, threshold: u32, cooldown_ms: u64, now: i64)
    requires
        lookup(v, key) matches Some(st) && st.consecutive_errors < u32::MAX,
        cooldown_ms <= i64::MAX,
        is_instant(now),
        now + cooldown_ms <= MAX_TIMESTAMP_MILLIS,
    ensures
        ({
            let st = lookup(v, key).unwrap();
            let st2 = lookup(update_key(v, key, |s: EntryState| errored(s, threshold, true, cooldown_ms, now)), key).unwrap();
            &&& st.consecutive_errors + 1 < threshold ==> st2 == (EntryState {
                consecutive_errors: (st.consecutive_errors + 1) as u32,
                ..st
            })
            &&& st.consecutive_errors + 1 >= threshold ==> st2.status == EntryStatus::Cooldown && st2.cooldown_until == Some(
                (now + cooldown_ms) as i64,
            ) && st2.consecutive_errors == 0 && st2.daily_tokens_used == st.daily_tokens_used
        }),
{
    lemma_key_index_in_range(v, key);
    let i = key_index(v, key).unwrap();
    let st = v[i].1;
    lemma_lookup_update(v, i, errored(st, threshold, true, cooldown_ms, now), key);
}

} // verus!
