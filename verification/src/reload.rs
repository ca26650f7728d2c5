//! Reloading the configuration while the proxy runs: the routing state of
//! entries that still exist is kept, entries that are gone are dropped and
//! new entries start fresh. Also the body of the health report.

use vstd::prelude::*;
use crate::router::{
    RouterState, RouterView, EntryState, EntryStatus, lookup, key_index, key_is, init_groups, init_router_state_at,
    lemma_key_index_same_keys, view_wf, backoff_bounded, key_of, entry_key,
};
use crate::config_models::{Group, Provider};
use crate::clock::{is_instant, MAX_TIMESTAMP_MILLIS};
use crate::json::{JsonValue, JsonNumber};
use crate::json_model::{JsonModel, model_of, model_members, model_items, lemma_model_members, lemma_model_items, num, jstr, jnum};

verus! {

/// The state an entry of the fresh state holds after a reload: the state
/// it had before, when it had one, else its fresh state.
pub open spec fn kept(old: RouterView, k: Seq<char>, fresh_st: EntryState) -> EntryState {
    match lookup(old, k) {
        Some(st) => st,
        None => fresh_st,
    }
}

/// The state after a reload: the fresh state's keys, each with its kept
/// state.
pub open spec fn merged(old: RouterView, fresh: RouterView) -> RouterView {
    fresh.map_values(|p: (Seq<char>, EntryState)| (p.0, kept(old, p.0, p.1)))
}

/// Merges the state before a reload into the fresh state built for the
/// reloaded configuration; see [`merged`].
pub fn merge_reloaded_state(old: &RouterState, fresh: RouterState) -> (r: RouterState)
    ensures
        r@ == merged(old@, fresh@),
        old.wf() && fresh.wf() ==> r.wf(),
{
    let mut entries: Vec<(String, EntryState)> = Vec::new();
    let mut i: usize = 0;
    while i < fresh.entries.len()
        invariant
            i <= fresh.entries@.len(),
            entries@.map_values(|e: (String, EntryState)| (e.0@, e.1)) =~= merged(old@, fresh@).take(i as int),
            old.wf() && fresh.wf() ==> forall|j: int| 0 <= j < entries@.len() ==> backoff_bounded(#[trigger] entries@[j].1),
        decreases fresh.entries.len() - i,
    {
        let k = fresh.entries[i].0.clone();
        let st = match old.get(k.as_str()) {
            Some(s) => *s,
            None => fresh.entries[i].1,
        };
        proof {
            assert(fresh@[i as int] == (fresh.entries@[i as int].0@, fresh.entries@[i as int].1));
            if old.wf() && fresh.wf() {
                crate::seqs::lemma_first_index_spec(old@, key_is(k@));
                assert(backoff_bounded(fresh@[i as int].1));
            }
        }
        let ghost before = entries@;
        entries.push((k, st));
        proof {
            let f = |e: (String, EntryState)| (e.0@, e.1);
            assert(entries@.map_values(f) =~= before.map_values(f).push((k@, st)));
            let mg = merged(old@, fresh@);
            assert(mg.take(i + 1) =~= mg.take(i as int).push(mg[i as int]));
            assert(mg[i as int] == (fresh@[i as int].0, kept(old@, fresh@[i as int].0, fresh@[i as int].1)));
        }
        i = i + 1;
    }
    let r = RouterState { entries };
    assert(merged(old@, fresh@).take(i as int) =~= merged(old@, fresh@));
    proof {
        if old.wf() && fresh.wf() {
            assert forall|j: int| 0 <= j < r@.len() implies backoff_bounded(#[trigger] r@[j].1) by {
                assert(r@[j].1 == r.entries@[j].1);
            }
        }
    }
    r
}

/// After a reload an entry that still exists keeps the routing state it had
/// (its status, cooldown, error count and daily usage), an entry that is
/// new starts with its fresh state, and an entry that is gone has none.
pub proof fn law_reload_keeps_existing_states(old: RouterView, fresh: RouterView, k: Seq<char>)
    ensures
        lookup(merged(old, fresh), k) == match lookup(fresh, k) {
            Some(st) => Some(kept(old, k, st)),
            None => None,
        },
        lookup(merged(old, fresh), k) is Some <==> lookup(fresh, k) is Some,
{
    let m = merged(old, fresh);
    assert forall|i: int| 0 <= i < m.len() implies (#[trigger] m[i]).0 == fresh[i].0 by {}
    lemma_key_index_same_keys(m, fresh, k);
    crate::seqs::lemma_first_index_spec(fresh, key_is(k));
}

/// The routing state after the configuration is reloaded at `now`: the
/// state for the reloaded groups, merged with the state before.
pub fn reload_router_state_at(old: &RouterState, groups: &[Group], providers: &[Provider], now: i64) -> (r: RouterState)
    requires
        is_instant(now),
        forall|i: int| 0 <= i < groups@.len() ==> (#[trigger] groups@[i]).entries@.len() <= u32::MAX,
    ensures
        r@ == merged(old@, init_groups(Seq::empty(), groups@, providers@, now)),
        old.wf() ==> r.wf(),
{
    let fresh = init_router_state_at(groups, providers, now);
    merge_reloaded_state(old, fresh)
}

// ---------------------------------------------------------------------------
// Health report
// ---------------------------------------------------------------------------

/// How a status is reported: its name in lower case.
pub open spec fn status_text(s: EntryStatus) -> Seq<char> {
    match s {
        EntryStatus::Active => "active"@,
        EntryStatus::Cooldown => "cooldown"@,
        EntryStatus::ManuallyDisabled => "manuallydisabled"@,
        EntryStatus::QuotaExhausted => "quotaexhausted"@,
    }
}

/// The JSON model of a signed integer.
pub open spec fn int_model(n: i64) -> JsonModel {
    JsonModel::Num(crate::json::number_text(if n >= 0 {
        JsonNumber::PosInt(n as u64)
    } else {
        JsonNumber::NegInt(n)
    }))
}

fn int_value(n: i64) -> (r: JsonValue)
    ensures
        model_of(r) == int_model(n),
{
    if n >= 0 {
        JsonValue::Number(JsonNumber::PosInt(n as u64))
    } else {
        JsonValue::Number(JsonNumber::NegInt(n))
    }
}

/// A provider as the health report lists it.
pub open spec fn provider_info(p: Provider) -> JsonModel {
    JsonModel::Obj(
        seq![
            ("enabled"@, JsonModel::Bool(p.enabled)),
            ("id"@, JsonModel::Str(p.id@)),
            ("name"@, JsonModel::Str(p.name@)),
            ("protocol"@, JsonModel::Str(p.protocol@)),
        ],
    )
}

/// An entry as the health report lists it: its group, provider, model,
/// priority and index, and its status (`unknown` without a state) and end
/// of cooldown.
pub open spec fn entry_info(g: Group, k: int, v: RouterView) -> JsonModel {
    let e = g.entries@[k];
    let st = lookup(v, key_of(e.provider_id@, k as u32));
    JsonModel::Obj(
        seq![
            ("cooldown_until"@, match st {
                Some(s) => match s.cooldown_until {
                    Some(t) => int_model(t),
                    None => JsonModel::Null,
                },
                None => JsonModel::Null,
            }),
            ("entry_index"@, num(k as u64)),
            ("group_alias"@, JsonModel::Str(g.alias@)),
            ("group_id"@, JsonModel::Str(g.id@)),
            ("model_id"@, JsonModel::Str(e.model_id@)),
            ("priority"@, num(e.priority as u64)),
            ("provider_id"@, JsonModel::Str(e.provider_id@)),
            ("status"@, JsonModel::Str(match st {
                Some(s) => status_text(s.status),
                None => "unknown"@,
            })),
        ],
    )
}

/// The entries of groups, group by group, each group's in order.
pub open spec fn entries_info(gs: Seq<Group>, v: RouterView) -> Seq<JsonModel>
    decreases gs.len(),
{
    if gs.len() == 0 {
        Seq::empty()
    } else {
        entries_info(gs.drop_last(), v) + Seq::new(gs.last().entries@.len(), |k: int| entry_info(gs.last(), k, v))
    }
}

/// The health report: status `ok`, the proxy's name, its uptime, the
/// providers and every entry's routing state. Keys are in the order
/// `serde_json` writes a map in.
pub open spec fn health_model(ps: Seq<Provider>, gs: Seq<Group>, v: RouterView, uptime: i64) -> JsonModel {
    JsonModel::Obj(
        seq![
            ("failover_states"@, JsonModel::Arr(entries_info(gs, v))),
            ("providers"@, JsonModel::Arr(Seq::new(ps.len(), |i: int| provider_info(ps[i])))),
            ("proxy"@, JsonModel::Str("coderouter"@)),
            ("status"@, JsonModel::Str("ok"@)),
            ("uptime_seconds"@, int_model(uptime)),
        ],
    )
}

fn status_value(s: EntryStatus) -> (r: JsonValue)
    ensures
        model_of(r) == JsonModel::Str(status_text(s)),
{
    match s {
        EntryStatus::Active => jstr("active"),
        EntryStatus::Cooldown => jstr("cooldown"),
        EntryStatus::ManuallyDisabled => jstr("manuallydisabled"),
        EntryStatus::QuotaExhausted => jstr("quotaexhausted"),
    }
}

fn obj_from(members: Vec<(String, JsonValue)>, ms: Ghost<Seq<(Seq<char>, JsonModel)>>) -> (r: JsonValue)
    requires
        members@.len() == ms@.len(),
        forall|i: int| 0 <= i < ms@.len() ==> #[trigger] ms@[i] == (members@[i].0@, model_of(members@[i].1)),
    ensures
        model_of(r) == JsonModel::Obj(ms@),
{
    proof {
        lemma_model_members(members@);
        assert(model_members(members@) =~= ms@);
    }
    JsonValue::Object(members)
}

fn entry_info_exec(g: &Group, k: usize, state: &RouterState) -> (r: JsonValue)
    requires
        k < g.entries@.len(),
        g.entries@.len() <= u32::MAX,
    ensures
        model_of(r) == entry_info(*g, k as int, state@),
{
    let e = &g.entries[k];
    let key = entry_key(e.provider_id.as_str(), k as u32);
    let st = state.get(key.as_str());
    let cooldown = match st {
        Some(s) => match s.cooldown_until {
            Some(t) => int_value(t),
            None => JsonValue::Null,
        },
        None => JsonValue::Null,
    };
    let status = match st {
        Some(s) => status_value(s.status),
        None => jstr("unknown"),
    };
    let v1 = cooldown;
    let v2 = jnum(k as u64);
    let v3 = JsonValue::Str(g.alias.clone());
    let v4 = JsonValue::Str(g.id.clone());
    let v5 = JsonValue::Str(e.model_id.clone());
    let v6 = jnum(e.priority as u64);
    let v7 = JsonValue::Str(e.provider_id.clone());
    let v8 = status;
    let ghost ms = seq![
        ("cooldown_until"@, model_of(v1)),
        ("entry_index"@, model_of(v2)),
        ("group_alias"@, model_of(v3)),
        ("group_id"@, model_of(v4)),
        ("model_id"@, model_of(v5)),
        ("priority"@, model_of(v6)),
        ("provider_id"@, model_of(v7)),
        ("status"@, model_of(v8)),
    ];
    let mut m: Vec<(String, JsonValue)> = Vec::new();
    m.push((String::from_str("cooldown_until"), v1));
    m.push((String::from_str("entry_index"), v2));
    m.push((String::from_str("group_alias"), v3));
    m.push((String::from_str("group_id"), v4));
    m.push((String::from_str("model_id"), v5));
    m.push((String::from_str("priority"), v6));
    m.push((String::from_str("provider_id"), v7));
    m.push((String::from_str("status"), v8));
    let r = obj_from(m, Ghost(ms));
    assert(ms =~= match entry_info(*g, k as int, state@) {
        JsonModel::Obj(x) => x,
        _ => ms,
    });
    r
}

fn provider_info_exec(p: &Provider) -> (r: JsonValue)
    ensures
        model_of(r) == provider_info(*p),
{
    let v1 = JsonValue::Bool(p.enabled);
    let v2 = JsonValue::Str(p.id.clone());
    let v3 = JsonValue::Str(p.name.clone());
    let v4 = JsonValue::Str(p.protocol.clone());
    let ghost ms = seq![
        ("enabled"@, model_of(v1)),
        ("id"@, model_of(v2)),
        ("name"@, model_of(v3)),
        ("protocol"@, model_of(v4)),
    ];
    let mut m: Vec<(String, JsonValue)> = Vec::new();
    m.push((String::from_str("enabled"), v1));
    m.push((String::from_str("id"), v2));
    m.push((String::from_str("name"), v3));
    m.push((String::from_str("protocol"), v4));
    obj_from(m, Ghost(ms))
}

/// Builds the health report; see [`health_model`].
pub fn health_report(providers: &[Provider], groups: &[Group], state: &RouterState, uptime_seconds: i64) -> (r: JsonValue)
    requires
        forall|i: int| 0 <= i < groups@.len() ==> (#[trigger] groups@[i]).entries@.len() <= u32::MAX,
    ensures
        model_of(r) == health_model(providers@, groups@, state@, uptime_seconds),
{
    let mut states: Vec<JsonValue> = Vec::new();
    let mut gi: usize = 0;
    while gi < groups.len()
        invariant
            gi <= groups@.len(),
            forall|i: int| 0 <= i < groups@.len() ==> (#[trigger] groups@[i]).entries@.len() <= u32::MAX,
            model_items(states@) == entries_info(groups@.take(gi as int), state@),
        decreases groups.len() - gi,
    {
        let g = &groups[gi];
        let ghost before = model_items(states@);
        assert(groups@[gi as int].entries@.len() <= u32::MAX);
        let mut k: usize = 0;
        while k < g.entries.len()
            invariant
                k <= g.entries@.len(),
                g.entries@.len() <= u32::MAX,
                model_items(states@) == before + Seq::new(k as nat, |q: int| entry_info(*g, q, state@)),
            decreases g.entries.len() - k,
        {
            let x = entry_info_exec(g, k, state);
            proof {
                assert(states@.push(x).subrange(0, states@.len() as int) =~= states@);
                assert(before + Seq::new((k + 1) as nat, |q: int| entry_info(*g, q, state@)) =~= (before + Seq::new(
                    k as nat,
                    |q: int| entry_info(*g, q, state@),
                )).push(entry_info(*g, k as int, state@)));
            }
            states.push(x);
            k = k + 1;
        }
        proof {
            assert(groups@.take(gi + 1).drop_last() =~= groups@.take(gi as int));
            assert(groups@.take(gi + 1).last() == groups@[gi as int]);
        }
        gi = gi + 1;
    }
    assert(groups@.take(gi as int) =~= groups@);
    let mut infos: Vec<JsonValue> = Vec::new();
    let mut pi: usize = 0;
    while pi < providers.len()
        invariant
            pi <= providers@.len(),
            model_items(infos@) == Seq::new(pi as nat, |i: int| provider_info(providers@[i])),
        decreases providers.len() - pi,
    {
        let x = provider_info_exec(&providers[pi]);
        proof {
            assert(infos@.push(x).subrange(0, infos@.len() as int) =~= infos@);
            assert(Seq::new((pi + 1) as nat, |i: int| provider_info(providers@[i])) =~= Seq::new(
                pi as nat,
                |i: int| provider_info(providers@[i]),
            ).push(provider_info(providers@[pi as int])));
        }
        infos.push(x);
        pi = pi + 1;
    }
    let v1 = JsonValue::Array(states);
    let v2 = JsonValue::Array(infos);
    let v3 = jstr("coderouter");
    let v4 = jstr("ok");
    let v5 = int_value(uptime_seconds);
    let ghost ms = seq![
        ("failover_states"@, model_of(v1)),
        ("providers"@, model_of(v2)),
        ("proxy"@, model_of(v3)),
        ("status"@, model_of(v4)),
        ("uptime_seconds"@, model_of(v5)),
    ];
    let mut m: Vec<(String, JsonValue)> = Vec::new();
    m.push((String::from_str("failover_states"), v1));
    m.push((String::from_str("providers"), v2));
    m.push((String::from_str("proxy"), v3));
    m.push((String::from_str("status"), v4));
    m.push((String::from_str("uptime_seconds"), v5));
    let r = obj_from(m, Ghost(ms));
    assert(Seq::new(providers@.len(), |i: int| provider_info(providers@[i])) =~= Seq::new(
        pi as nat,
        |i: int| provider_info(providers@[i]),
    ));
    r
}

/// The uptime a health report gives: the seconds since the start, or zero
/// before the start time is known (zero or less).
pub fn uptime_seconds(start: i64, now: i64) -> (r: i64)
    requires
        start > 0 ==> i64::MIN <= now - start <= i64::MAX,
    ensures
        r == if start > 0 {
            now - start
        } else {
            0
        },
{
    if start > 0 {
        now - start
    } else {
        0
    }
}

/// The body of an error answer: the message, the error type and the HTTP
/// status code.
pub fn error_body(message: &str, code: u16) -> (r: JsonValue)
    ensures
        model_of(r) == JsonModel::Obj(
            seq![
                ("error"@, JsonModel::Obj(seq![
                    ("code"@, num(code as u64)),
                    ("message"@, JsonModel::Str(message@)),
                    ("type"@, JsonModel::Str("coderouter_error"@)),
                ])),
            ],
        ),
{
    let v1 = jnum(code as u64);
    let v2 = jstr(message);
    let v3 = jstr("coderouter_error");
    let ghost ms = seq![("code"@, model_of(v1)), ("message"@, model_of(v2)), ("type"@, model_of(v3))];
    let mut m: Vec<(String, JsonValue)> = Vec::new();
    m.push((String::from_str("code"), v1));
    m.push((String::from_str("message"), v2));
    m.push((String::from_str("type"), v3));
    let inner = obj_from(m, Ghost(ms));
    crate::json_model::jobj1("error", inner)
}

} // verus!
