//! The OpenCode configuration file as CodeRouter edits it: which agent
//! roles use which group aliases.

use vstd::prelude::*;
use crate::json::{JsonValue, JsonNumber, number_text};
use crate::json_model::{
    JsonModel, model_of, model_members, m_get, m_set, m_remove, lemma_model_members, obj_set, obj_remove,
    lemma_get_set_same, lemma_get_set_other, key_pred, after_pred,
    member_index, pretty, to_pretty_string, num, jstr, jnum, jobj1, jobj2,
};
use crate::config_models::{Group, GroupEntry, Provider, find_provider, model_meta, find_provider_exec};
use crate::router::key_of;
use crate::text::{decimal, cat, cat3, str_eq, str_starts_with, has_prefix, chars_of, chars_slice, string_from_chars};

verus! {

/// Maps OpenCode agent roles to CodeRouter group aliases; a role that is
/// set uses the model `coderouter/<alias>`. `small_model` is a top-level
/// setting of the OpenCode file rather than an agent.
#[derive(Clone, Debug)]
pub struct AgentMapping {
    pub build: Option<String>,
    pub plan: Option<String>,
    pub general: Option<String>,
    pub explore: Option<String>,
    pub compaction: Option<String>,
    pub title: Option<String>,
    pub summary: Option<String>,
    pub small_model: Option<String>,
}

impl Default for AgentMapping {
    fn default() -> (r: Self)
        ensures
            r.build is None && r.plan is None && r.general is None && r.explore is None
                && r.compaction is None && r.title is None && r.summary is None && r.small_model is None,
    {
        AgentMapping {
            build: None,
            plan: None,
            general: None,
            explore: None,
            compaction: None,
            title: None,
            summary: None,
            small_model: None,
        }
    }
}


// ---------------------------------------------------------------------------
// The CodeRouter provider block
// ---------------------------------------------------------------------------

/// The reported status of an entry, by its `provider_id:index` key.
pub open spec fn status_of(statuses: Seq<(String, String)>, key: Seq<char>) -> Option<Seq<char>> {
    match crate::seqs::first_index(statuses, |p: (String, String)| p.0@ == key) {
        Some(i) => Some(statuses[i].1@),
        None => None,
    }
}

/// An entry that can serve: enabled, and active or without a reported
/// status.
pub open spec fn entry_usable(e: GroupEntry, k: int, statuses: Seq<(String, String)>) -> bool {
    e.enabled && match status_of(statuses, key_of(e.provider_id@, k as u32)) {
        Some(s) => s == "active"@,
        None => true,
    }
}

/// Whether a group has an entry that can serve.
pub open spec fn has_usable_entry(g: Group, statuses: Seq<(String, String)>) -> bool {
    exists|k: int| 0 <= k < g.entries@.len() && #[trigger] entry_usable(g.entries@[k], k, statuses)
}

/// The metadata of an entry's model at its provider.
pub open spec fn entry_meta(e: GroupEntry, ps: Seq<Provider>) -> Option<(Option<u64>, Option<u64>)> {
    match find_provider(ps, e.provider_id@) {
        Some(p) => model_meta(p, e.model_id@),
        None => None,
    }
}

pub open spec fn ctx_of(e: GroupEntry, ps: Seq<Provider>) -> Option<u64> {
    match entry_meta(e, ps) {
        Some((c, _)) => c,
        None => None,
    }
}

pub open spec fn out_of(e: GroupEntry, ps: Seq<Provider>) -> Option<u64> {
    match entry_meta(e, ps) {
        Some((_, o)) => o,
        None => None,
    }
}

/// The first enabled entry, in priority order (earlier entries first among
/// equal priorities), from `k` on, that has a value, given the best so far.
pub open spec fn pick_from(entries: Seq<GroupEntry>, k: int, best: Option<int>, has: spec_fn(GroupEntry) -> bool) -> Option<int>
    decreases entries.len() - k,
{
    if k < 0 || k >= entries.len() {
        best
    } else {
        let e = entries[k];
        let nb = if e.enabled && has(e) && (best is None || e.priority < entries[best.unwrap()].priority) {
            Some(k)
        } else {
            best
        };
        pick_from(entries, k + 1, nb, has)
    }
}

/// The context window reported for a group: that of its first enabled
/// entry, in priority order, whose model has one.
pub open spec fn group_context(g: Group, ps: Seq<Provider>) -> Option<u64> {
    match pick_from(g.entries@, 0, None, |e: GroupEntry| ctx_of(e, ps) is Some) {
        Some(k) => ctx_of(g.entries@[k], ps),
        None => None,
    }
}

/// The output limit reported for a group, chosen the same way.
pub open spec fn group_output(g: Group, ps: Seq<Provider>) -> Option<u64> {
    match pick_from(g.entries@, 0, None, |e: GroupEntry| out_of(e, ps) is Some) {
        Some(k) => out_of(g.entries@[k], ps),
        None => None,
    }
}

/// The `limit` members of a group's model entry.
pub open spec fn limit_members(g: Group, ps: Seq<Provider>) -> Seq<(Seq<char>, JsonModel)> {
    (match group_context(g, ps) {
        Some(c) => seq![("context"@, num(c))],
        None => Seq::empty(),
    }) + match group_output(g, ps) {
        Some(o) => seq![("output"@, num(o))],
        None => Seq::empty(),
    }
}

/// A group's model entry: its display name and, when known, its limits.
pub open spec fn group_model(g: Group, ps: Seq<Provider>) -> JsonModel {
    let lim = limit_members(g, ps);
    if lim.len() > 0 {
        JsonModel::Obj(seq![("limit"@, JsonModel::Obj(lim)), ("name"@, JsonModel::Str(g.display_name@))])
    } else {
        JsonModel::Obj(seq![("name"@, JsonModel::Str(g.display_name@))])
    }
}

/// The model entries of the groups that can serve, by alias (a later group
/// with the same alias replaces an earlier one).
pub open spec fn models_of(gs: Seq<Group>, ps: Seq<Provider>, statuses: Seq<(String, String)>) -> Seq<(Seq<char>, JsonModel)>
    decreases gs.len(),
{
    if gs.len() == 0 {
        Seq::empty()
    } else {
        let prev = models_of(gs.drop_last(), ps, statuses);
        let g = gs.last();
        if has_usable_entry(g, statuses) {
            m_set(prev, g.alias@, group_model(g, ps))
        } else {
            prev
        }
    }
}

/// The proxy's base URL for a port.
pub open spec fn proxy_base_url(port: u16) -> Seq<char> {
    "http://localhost:"@ + decimal(port as nat) + "/v1"@
}

/// The CodeRouter provider block of an OpenCode configuration.
pub open spec fn provider_block(gs: Seq<Group>, ps: Seq<Provider>, port: u16, statuses: Seq<(String, String)>) -> JsonModel {
    JsonModel::Obj(
        seq![
            ("models"@, JsonModel::Obj(models_of(gs, ps, statuses))),
            ("name"@, JsonModel::Str("CodeRouter"@)),
            ("npm"@, JsonModel::Str("@ai-sdk/openai-compatible"@)),
            (
                "options"@,
                JsonModel::Obj(
                    seq![("apiKey"@, JsonModel::Str("coderouter"@)), ("baseURL"@, JsonModel::Str(proxy_base_url(port)))],
                ),
            ),
        ],
    )
}

/// A configuration's members with the provider block set under
/// `provider.coderouter` (a `provider` value that is not an object is
/// replaced).
pub open spec fn with_provider(ms: Seq<(Seq<char>, JsonModel)>, block: JsonModel) -> Seq<(Seq<char>, JsonModel)> {
    match m_get(ms, "provider"@) {
        Some(JsonModel::Obj(pms)) => m_set(ms, "provider"@, JsonModel::Obj(m_set(pms, "coderouter"@, block))),
        _ => m_set(ms, "provider"@, JsonModel::Obj(seq![("coderouter"@, block)])),
    }
}

// ---------------------------------------------------------------------------
// Building the block
// ---------------------------------------------------------------------------

fn status_lookup<'a>(statuses: &'a Vec<(String, String)>, key: &str) -> (r: Option<&'a str>)
    ensures
        match r {
            Some(s) => status_of(statuses@, key@) == Some(s@),
            None => status_of(statuses@, key@) is None,
        },
{
    let mut i: usize = 0;
    while i < statuses.len()
        invariant
            i <= statuses@.len(),
            forall|j: int| 0 <= j < i ==> (#[trigger] statuses@[j]).0@ != key@,
        decreases statuses.len() - i,
    {
        if str_eq(statuses[i].0.as_str(), key) {
            proof {
                crate::seqs::lemma_first_index_unique(statuses@, |p: (String, String)| p.0@ == key@, i as int);
            }
            return Some(statuses[i].1.as_str());
        }
        i = i + 1;
    }
    proof {
        crate::seqs::lemma_first_index_none(statuses@, |p: (String, String)| p.0@ == key@);
    }
    None
}

fn has_usable_entry_exec(g: &Group, statuses: &Vec<(String, String)>) -> (r: bool)
    requires
        g.entries@.len() <= u32::MAX,
    ensures
        r == has_usable_entry(*g, statuses@),
{
    let mut k: usize = 0;
    while k < g.entries.len()
        invariant
            k <= g.entries@.len(),
            g.entries@.len() <= u32::MAX,
            forall|j: int| 0 <= j < k ==> !entry_usable(#[trigger] g.entries@[j], j, statuses@),
        decreases g.entries.len() - k,
    {
        let e = &g.entries[k];
        if e.enabled {
            let key = crate::router::entry_key(e.provider_id.as_str(), k as u32);
            let usable = match status_lookup(statuses, key.as_str()) {
                Some(s) => str_eq(s, "active"),
                None => true,
            };
            if usable {
                assert(entry_usable(g.entries@[k as int], k as int, statuses@));
                return true;
            }
        }
        k = k + 1;
    }
    false
}

fn entry_meta_exec(e: &GroupEntry, ps: &[Provider]) -> (r: Option<(Option<u64>, Option<u64>)>)
    ensures
        r == entry_meta(*e, ps@),
{
    match find_provider_exec(ps, e.provider_id.as_str()) {
        Some(p) => p.resolve_model_meta(e.model_id.as_str()),
        None => None,
    }
}

/// The context window (`which` false) or output limit (`which` true)
/// reported for a group.
fn group_limit(g: &Group, ps: &[Provider], which: bool) -> (r: Option<u64>)
    ensures
        r == (if which {
            group_output(*g, ps@)
        } else {
            group_context(*g, ps@)
        }),
{
    let ghost has = if which {
        |e: GroupEntry| out_of(e, ps@) is Some
    } else {
        |e: GroupEntry| ctx_of(e, ps@) is Some
    };
    let mut best: Option<usize> = None;
    let mut best_val: Option<u64> = None;
    let mut k: usize = 0;
    while k < g.entries.len()
        invariant
            k <= g.entries@.len(),
            has == (if which {
                |e: GroupEntry| out_of(e, ps@) is Some
            } else {
                |e: GroupEntry| ctx_of(e, ps@) is Some
            }),
            best matches Some(b) ==> b < k && best_val == (if which {
                out_of(g.entries@[b as int], ps@)
            } else {
                ctx_of(g.entries@[b as int], ps@)
            }),
            best is None ==> best_val is None,
            pick_from(g.entries@, 0, None, has) == pick_from(
                g.entries@,
                k as int,
                match best {
                    Some(b) => Some(b as int),
                    None => None,
                },
                has,
            ),
        decreases g.entries.len() - k,
    {
        let e = &g.entries[k];
        let v = match entry_meta_exec(e, ps) {
            Some((c, o)) => if which {
                o
            } else {
                c
            },
            None => None,
        };
        let better = match best {
            None => true,
            Some(b) => e.priority < g.entries[b].priority,
        };
        if e.enabled && v.is_some() && better {
            best = Some(k);
            best_val = v;
        }
        k = k + 1;
    }
    best_val
}

fn group_model_exec(g: &Group, ps: &[Provider]) -> (r: JsonValue)
    ensures
        model_of(r) == group_model(*g, ps@),
{
    let ctx = group_limit(g, ps, false);
    let out = group_limit(g, ps, true);
    let name = jstr(g.display_name.as_str());
    match (ctx, out) {
        (Some(c), Some(o)) => {
            let lim = jobj2("context", jnum(c), "output", jnum(o));
            proof {
                assert(limit_members(*g, ps@) =~= seq![("context"@, num(c)), ("output"@, num(o))]);
            }
            jobj2("limit", lim, "name", name)
        },
        (Some(c), None) => {
            let lim = jobj1("context", jnum(c));
            proof {
                assert(limit_members(*g, ps@) =~= seq![("context"@, num(c))]);
            }
            jobj2("limit", lim, "name", name)
        },
        (None, Some(o)) => {
            let lim = jobj1("output", jnum(o));
            proof {
                assert(limit_members(*g, ps@) =~= seq![("output"@, num(o))]);
            }
            jobj2("limit", lim, "name", name)
        },
        (None, None) => {
            proof {
                assert(limit_members(*g, ps@) =~= Seq::<(Seq<char>, JsonModel)>::empty());
            }
            jobj1("name", name)
        },
    }
}

/// Builds the CodeRouter provider block; see [`provider_block`].
pub fn build_provider_block(groups: &[Group], providers: &[Provider], proxy_port: u16, statuses: &Vec<(String, String)>) -> (r: JsonValue)
    requires
        forall|i: int| 0 <= i < groups@.len() ==> (#[trigger] groups@[i]).entries@.len() <= u32::MAX,
    ensures
        model_of(r) == provider_block(groups@, providers@, proxy_port, statuses@),
{
    let mut models: Vec<(String, JsonValue)> = Vec::new();
    let mut i: usize = 0;
    assert(model_members(models@) =~= Seq::<(Seq<char>, JsonModel)>::empty());
    assert(groups@.take(0) =~= Seq::<Group>::empty());
    while i < groups.len()
        invariant
            i <= groups@.len(),
            forall|j: int| 0 <= j < groups@.len() ==> (#[trigger] groups@[j]).entries@.len() <= u32::MAX,
            model_members(models@) == models_of(groups@.take(i as int), providers@, statuses@),
        decreases groups.len() - i,
    {
        let g = &groups[i];
        if has_usable_entry_exec(g, statuses) {
            let m = group_model_exec(g, providers);
            obj_set(&mut models, String::from_str(g.alias.as_str()), m);
        }
        proof {
            assert(groups@.take(i + 1).drop_last() =~= groups@.take(i as int));
        }
        i = i + 1;
    }
    assert(groups@.take(i as int) =~= groups@);
    let mut url: Vec<char> = Vec::new();
    crate::text::append_str(&mut url, "http://localhost:");
    crate::text::append_decimal(&mut url, proxy_port as u64);
    crate::text::append_str(&mut url, "/v1");
    let url_s = string_from_chars(&url);
    let options = jobj2("apiKey", jstr("coderouter"), "baseURL", jstr(url_s.as_str()));
    let ghost mm = model_members(models@);
    let mut block: Vec<(String, JsonValue)> = Vec::new();
    block.push((String::from_str("models"), JsonValue::Object(models)));
    let name = jstr("CodeRouter");
    let ghost nm = model_of(name);
    block.push((String::from_str("name"), name));
    let npm = jstr("@ai-sdk/openai-compatible");
    let ghost npmm = model_of(npm);
    block.push((String::from_str("npm"), npm));
    let ghost om = model_of(options);
    block.push((String::from_str("options"), options));
    proof {
        lemma_model_members(block@);
        assert(model_members(block@) =~= seq![
            ("models"@, JsonModel::Obj(mm)),
            ("name"@, nm),
            ("npm"@, npmm),
            ("options"@, om),
        ]);
    }
    JsonValue::Object(block)
}


// ---------------------------------------------------------------------------
// Editing a configuration
// ---------------------------------------------------------------------------

/// The members of an object document.
pub open spec fn obj_members(m: JsonModel) -> Seq<(Seq<char>, JsonModel)> {
    match m {
        JsonModel::Obj(ms) => ms,
        _ => Seq::empty(),
    }
}

fn replace_at(ms: &mut Vec<(String, JsonValue)>, i: usize, key: String, value: JsonValue)
    requires
        i < old(ms)@.len(),
    ensures
        model_members(final(ms)@) == model_members(old(ms)@).update(i as int, (key@, model_of(value))),
{
    let ghost kv = key@;
    let ghost vm = model_of(value);
    let ghost pair = (key, value);
    ms.remove(i);
    ms.insert(i, (key, value));
    proof {
        assert(ms@ =~= old(ms)@.update(i as int, pair));
        lemma_model_members(ms@);
        lemma_model_members(old(ms)@);
        assert(model_members(ms@) =~= model_members(old(ms)@).update(i as int, (kv, vm)));
    }
}

fn take_at(ms: &mut Vec<(String, JsonValue)>, i: usize) -> (r: (String, JsonValue))
    requires
        i < old(ms)@.len(),
    ensures
        r == old(ms)@[i as int],
        final(ms)@ == old(ms)@.remove(i as int),
{
    ms.remove(i)
}

/// Sets `provider.coderouter` in a configuration's members; see
/// [`with_provider`].
fn set_provider_block(ms: &mut Vec<(String, JsonValue)>, block: JsonValue)
    ensures
        model_members(final(ms)@) == with_provider(model_members(old(ms)@), model_of(block)),
{
    let ghost bm = model_of(block);
    proof {
        lemma_model_members(old(ms)@);
    }
    match member_index(ms, "provider") {
        Some(i) => {
            let (k, v) = take_at(ms, i);
            let ghost old_v = v;
            match v {
                JsonValue::Object(mut pms) => {
                    obj_set(&mut pms, String::from_str("coderouter"), block);
                    let ghost pm = model_members(pms@);
                    ms.insert(i, (k, JsonValue::Object(pms)));
                    proof {
                        lemma_model_members(ms@);
                        assert forall|j: int| 0 <= j < ms@.len() && j != i implies ms@[j] == old(ms)@[j] by {}
                        assert(ms@[i as int].0@ == "provider"@);
                        assert(model_members(ms@) =~= model_members(old(ms)@).update(i as int, ("provider"@, JsonModel::Obj(pm))));
                    }
                },
                other => {
                    ms.insert(i, (k, other));
                    assert(ms@ =~= old(ms)@);
                    let nb = jobj1("coderouter", block);
                    obj_set(ms, String::from_str("provider"), nb);
                },
            }
        },
        None => {
            let nb = jobj1("coderouter", block);
            obj_set(ms, String::from_str("provider"), nb);
        },
    }
}

/// Injects the CodeRouter provider block into a configuration object;
/// other keys are kept.
pub fn inject_provider_into(config: &mut JsonValue, block: JsonValue)
    requires
        *old(config) is Object,
    ensures
        model_of(*final(config)) == JsonModel::Obj(with_provider(obj_members(model_of(*old(config))), model_of(block))),
{
    match config {
        JsonValue::Object(ms) => set_provider_block(ms, block),
        _ => {},
    }
}

/// The model an agent role is set to.
pub open spec fn agent_model_text(alias: Seq<char>) -> Seq<char> {
    "coderouter/"@ + alias
}

/// A role of the `agent` object set to a model: the `agent` object and the
/// role's object are created when missing; a role or `agent` value that is
/// not an object is left alone.
pub open spec fn set_role(ms: Seq<(Seq<char>, JsonModel)>, role: Seq<char>, model: Seq<char>) -> Seq<(Seq<char>, JsonModel)> {
    let entry = JsonModel::Obj(seq![("model"@, JsonModel::Str(model))]);
    match m_get(ms, "agent"@) {
        None => m_set(ms, "agent"@, JsonModel::Obj(seq![(role, entry)])),
        Some(JsonModel::Obj(ams)) => m_set(
            ms,
            "agent"@,
            JsonModel::Obj(
                match m_get(ams, role) {
                    None => m_set(ams, role, entry),
                    Some(JsonModel::Obj(cms)) => m_set(ams, role, JsonModel::Obj(m_set(cms, "model"@, JsonModel::Str(model)))),
                    Some(_) => ams,
                },
            ),
        ),
        Some(_) => ms,
    }
}

fn set_role_in_agents(ams: &mut Vec<(String, JsonValue)>, role: &str, model: &str)
    ensures
        model_members(final(ams)@) == match m_get(model_members(old(ams)@), role@) {
            None => m_set(
                model_members(old(ams)@),
                role@,
                JsonModel::Obj(seq![("model"@, JsonModel::Str(model@))]),
            ),
            Some(JsonModel::Obj(cms)) => m_set(
                model_members(old(ams)@),
                role@,
                JsonModel::Obj(m_set(cms, "model"@, JsonModel::Str(model@))),
            ),
            Some(_) => model_members(old(ams)@),
        },
{
    proof {
        lemma_model_members(old(ams)@);
    }
    match member_index(ams, role) {
        None => {
            let entry = jobj1("model", jstr(model));
            obj_set(ams, String::from_str(role), entry);
        },
        Some(i) => {
            let (k, v) = take_at(ams, i);
            match v {
                JsonValue::Object(mut cms) => {
                    obj_set(&mut cms, String::from_str("model"), jstr(model));
                    let ghost cm = model_members(cms@);
                    ams.insert(i, (k, JsonValue::Object(cms)));
                    proof {
                        lemma_model_members(ams@);
                        assert forall|j: int| 0 <= j < ams@.len() && j != i implies ams@[j] == old(ams)@[j] by {}
                        assert(ams@[i as int].0@ == role@);
                        assert(model_members(ams@) =~= model_members(old(ams)@).update(i as int, (role@, JsonModel::Obj(cm))));
                    }
                },
                other => {
                    ams.insert(i, (k, other));
                    assert(ams@ =~= old(ams)@);
                },
            }
        },
    }
}

fn set_role_in_config(ms: &mut Vec<(String, JsonValue)>, role: &str, model: &str)
    ensures
        model_members(final(ms)@) == set_role(model_members(old(ms)@), role@, model@),
{
    proof {
        lemma_model_members(old(ms)@);
    }
    match member_index(ms, "agent") {
        None => {
            let entry = jobj1("model", jstr(model));
            let agents = jobj1(role, entry);
            obj_set(ms, String::from_str("agent"), agents);
        },
        Some(i) => {
            let (k, v) = take_at(ms, i);
            match v {
                JsonValue::Object(mut ams) => {
                    set_role_in_agents(&mut ams, role, model);
                    let ghost am = model_members(ams@);
                    ms.insert(i, (k, JsonValue::Object(ams)));
                    proof {
                        lemma_model_members(ms@);
                        assert forall|j: int| 0 <= j < ms@.len() && j != i implies ms@[j] == old(ms)@[j] by {}
                        assert(ms@[i as int].0@ == "agent"@);
                        assert(model_members(ms@) =~= model_members(old(ms)@).update(i as int, ("agent"@, JsonModel::Obj(am))));
                    }
                },
                other => {
                    ms.insert(i, (k, other));
                    assert(ms@ =~= old(ms)@);
                },
            }
        },
    }
}

pub open spec fn opt_alias(v: Option<String>) -> Option<Seq<char>> {
    match v {
        Some(x) => Some(x@),
        None => None,
    }
}

/// A role set when the mapping gives it an alias.
pub open spec fn set_role_opt(ms: Seq<(Seq<char>, JsonModel)>, role: Seq<char>, alias: Option<Seq<char>>) -> Seq<(Seq<char>, JsonModel)> {
    match alias {
        Some(a) => set_role(ms, role, agent_model_text(a)),
        None => ms,
    }
}

/// A configuration's members with the agent mapping applied: the roles in
/// the order build, plan, general, explore, compaction, title, summary, then
/// the top-level `small_model`.
pub open spec fn with_agents(ms: Seq<(Seq<char>, JsonModel)>, m: AgentMapping) -> Seq<(Seq<char>, JsonModel)> {
    let a1 = set_role_opt(ms, "build"@, opt_alias(m.build));
    let a2 = set_role_opt(a1, "plan"@, opt_alias(m.plan));
    let a3 = set_role_opt(a2, "general"@, opt_alias(m.general));
    let a4 = set_role_opt(a3, "explore"@, opt_alias(m.explore));
    let a5 = set_role_opt(a4, "compaction"@, opt_alias(m.compaction));
    let a6 = set_role_opt(a5, "title"@, opt_alias(m.title));
    let a7 = set_role_opt(a6, "summary"@, opt_alias(m.summary));
    match m.small_model {
        Some(s) => m_set(a7, "small_model"@, JsonModel::Str(agent_model_text(s@))),
        None => a7,
    }
}

// ---------------------------------------------------------------------------
// Setting roles and reading them back
// ---------------------------------------------------------------------------

/// The `agent` value of a configuration.
pub open spec fn agent_of(ms: Seq<(Seq<char>, JsonModel)>) -> Option<JsonModel> {
    m_get(ms, "agent"@)
}

/// The entry of a role in the `agent` value.
pub open spec fn role_entry(ms: Seq<(Seq<char>, JsonModel)>, role: Seq<char>) -> Option<JsonModel> {
    mget_opt(agent_of(ms), role)
}

/// Absent, or an object.
pub open spec fn absent_or_obj(v: Option<JsonModel>) -> bool {
    v is None || v matches Some(JsonModel::Obj(_))
}

/// A role entry that uses a model.
pub open spec fn uses_model(v: Option<JsonModel>, model: Seq<char>) -> bool {
    mget_opt(v, "model"@) == Some(JsonModel::Str(model))
}

proof fn lemma_set_role(ms: Seq<(Seq<char>, JsonModel)>, role: Seq<char>, model: Seq<char>)
    requires
        absent_or_obj(agent_of(ms)),
        absent_or_obj(role_entry(ms, role)),
    ensures
        agent_of(set_role(ms, role, model)) matches Some(JsonModel::Obj(_)),
        uses_model(role_entry(set_role(ms, role, model), role), model),
        role_entry(set_role(ms, role, model), role) matches Some(JsonModel::Obj(_)),
        forall|r2: Seq<char>| r2 != role ==> #[trigger] role_entry(set_role(ms, role, model), r2) == role_entry(ms, r2),
        forall|k: Seq<char>| k != "agent"@ ==> #[trigger] m_get(set_role(ms, role, model), k) == m_get(ms, k),
{
    let entry = JsonModel::Obj(seq![("model"@, JsonModel::Str(model))]);
    let ms2 = set_role(ms, role, model);
    assert forall|k: Seq<char>| k != "agent"@ implies #[trigger] m_get(ms2, k) == m_get(ms, k) by {
        match m_get(ms, "agent"@) {
            None => lemma_get_set_other(ms, "agent"@, JsonModel::Obj(seq![(role, entry)]), k),
            Some(JsonModel::Obj(ams)) => {
                let ams2 = match m_get(ams, role) {
                    None => m_set(ams, role, entry),
                    Some(JsonModel::Obj(cms)) => m_set(ams, role, JsonModel::Obj(m_set(cms, "model"@, JsonModel::Str(model)))),
                    Some(_) => ams,
                };
                lemma_get_set_other(ms, "agent"@, JsonModel::Obj(ams2), k);
            },
            Some(_) => {},
        }
    }
    match m_get(ms, "agent"@) {
        None => {
            lemma_get_set_same(ms, "agent"@, JsonModel::Obj(seq![(role, entry)]));
            lemma_get_set_same(Seq::empty(), role, entry);
            assert(m_set(Seq::<(Seq<char>, JsonModel)>::empty(), role, entry) == seq![(role, entry)]) by {
                crate::seqs::lemma_first_index_none(Seq::<(Seq<char>, JsonModel)>::empty(), key_pred(role));
                crate::seqs::lemma_first_index_none(Seq::<(Seq<char>, JsonModel)>::empty(), after_pred(role));
                assert(Seq::<(Seq<char>, JsonModel)>::empty().insert(0, (role, entry)) =~= seq![(role, entry)]);
            }
            lemma_get_set_same(seq![("model"@, JsonModel::Str(model))], "model"@, JsonModel::Str(model));
            assert(m_get(seq![("model"@, JsonModel::Str(model))], "model"@) == Some(JsonModel::Str(model))) by {
                crate::seqs::lemma_first_index_unique(seq![("model"@, JsonModel::Str(model))], key_pred("model"@), 0);
            }
            assert forall|r2: Seq<char>| r2 != role implies #[trigger] role_entry(ms2, r2) == role_entry(ms, r2) by {
                crate::seqs::lemma_first_index_none(seq![(role, entry)], key_pred(r2));
            }
        },
        Some(JsonModel::Obj(ams)) => {
            let ams2 = match m_get(ams, role) {
                None => m_set(ams, role, entry),
                Some(JsonModel::Obj(cms)) => m_set(ams, role, JsonModel::Obj(m_set(cms, "model"@, JsonModel::Str(model)))),
                Some(_) => ams,
            };
            lemma_get_set_same(ms, "agent"@, JsonModel::Obj(ams2));
            match m_get(ams, role) {
                None => {
                    lemma_get_set_same(ams, role, entry);
                    assert(m_get(seq![("model"@, JsonModel::Str(model))], "model"@) == Some(JsonModel::Str(model))) by {
                        crate::seqs::lemma_first_index_unique(seq![("model"@, JsonModel::Str(model))], key_pred("model"@), 0);
                    }
                    assert forall|r2: Seq<char>| r2 != role implies #[trigger] role_entry(ms2, r2) == role_entry(ms, r2) by {
                        lemma_get_set_other(ams, role, entry, r2);
                    }
                },
                Some(JsonModel::Obj(cms)) => {
                    let c2 = JsonModel::Obj(m_set(cms, "model"@, JsonModel::Str(model)));
                    lemma_get_set_same(ams, role, c2);
                    lemma_get_set_same(cms, "model"@, JsonModel::Str(model));
                    assert forall|r2: Seq<char>| r2 != role implies #[trigger] role_entry(ms2, r2) == role_entry(ms, r2) by {
                        lemma_get_set_other(ams, role, c2, r2);
                    }
                },
                Some(_) => {},
            }
        },
        Some(_) => {},
    }
}

proof fn lemma_set_role_opt(ms: Seq<(Seq<char>, JsonModel)>, role: Seq<char>, alias: Option<Seq<char>>)
    requires
        absent_or_obj(agent_of(ms)),
        absent_or_obj(role_entry(ms, role)),
    ensures
        absent_or_obj(agent_of(set_role_opt(ms, role, alias))),
        alias matches Some(a) ==> uses_model(role_entry(set_role_opt(ms, role, alias), role), agent_model_text(a)),
        absent_or_obj(role_entry(set_role_opt(ms, role, alias), role)),
        alias is None ==> set_role_opt(ms, role, alias) == ms,
        forall|r2: Seq<char>| r2 != role ==> #[trigger] role_entry(set_role_opt(ms, role, alias), r2) == role_entry(ms, r2),
        forall|k: Seq<char>| k != "agent"@ ==> #[trigger] m_get(set_role_opt(ms, role, alias), k) == m_get(ms, k),
{
    match alias {
        Some(a) => lemma_set_role(ms, role, agent_model_text(a)),
        None => {},
    }
}

/// The group alias a role entry's CodeRouter model names.
pub open spec fn entry_alias(v: Option<JsonModel>) -> Option<Seq<char>> {
    cr_alias(mget_opt(v, "model"@))
}

proof fn lemma_alias_of_text(a: Seq<char>)
    ensures
        cr_alias(Some(JsonModel::Str(agent_model_text(a)))) == Some(a),
{
    reveal_strlit("coderouter/");
    assert(agent_model_text(a).take(11) =~= "coderouter/"@);
    assert(agent_model_text(a).skip(11) =~= a);
}

/// Every role the mapping names, and the `agent` value, is absent or an
/// object: the configurations in which each role can be set.
pub open spec fn roles_settable(ms: Seq<(Seq<char>, JsonModel)>) -> bool {
    &&& absent_or_obj(agent_of(ms))
    &&& absent_or_obj(role_entry(ms, "build"@))
    &&& absent_or_obj(role_entry(ms, "plan"@))
    &&& absent_or_obj(role_entry(ms, "general"@))
    &&& absent_or_obj(role_entry(ms, "explore"@))
    &&& absent_or_obj(role_entry(ms, "compaction"@))
    &&& absent_or_obj(role_entry(ms, "title"@))
    &&& absent_or_obj(role_entry(ms, "summary"@))
}

/// What a role reads back after a mapping is applied: the alias the
/// mapping gives it, else what it read before.
pub open spec fn read_back(ms: Seq<(Seq<char>, JsonModel)>, m: AgentMapping, role: Seq<char>, given: Option<String>) -> bool {
    role_alias(with_agents(ms, m), role) == match given {
        Some(a) => Some(a@),
        None => role_alias(ms, role),
    }
}

/// Applying an agent mapping and reading the mapping back gives, for every
/// role the mapping sets (and for `small_model`), the alias it set; roles
/// it does not set read as before. This holds wherever the `agent` value
/// and the roles' entries are objects or absent (a role whose entry is some
/// other value is left alone when set).
pub proof fn law_agent_mapping_reads_back(ms: Seq<(Seq<char>, JsonModel)>, m: AgentMapping)
    requires
        roles_settable(ms),
    ensures
        read_back(ms, m, "build"@, m.build),
        read_back(ms, m, "plan"@, m.plan),
        read_back(ms, m, "general"@, m.general),
        read_back(ms, m, "explore"@, m.explore),
        read_back(ms, m, "compaction"@, m.compaction),
        read_back(ms, m, "title"@, m.title),
        read_back(ms, m, "summary"@, m.summary),
        cr_alias(m_get(with_agents(ms, m), "small_model"@)) == match m.small_model {
            Some(s) => Some(s@),
            None => cr_alias(m_get(ms, "small_model"@)),
        },
{
    reveal_strlit("build");
    reveal_strlit("plan");
    reveal_strlit("general");
    reveal_strlit("explore");
    reveal_strlit("compaction");
    reveal_strlit("title");
    reveal_strlit("summary");
    reveal_strlit("agent");
    reveal_strlit("small_model");
    let a1 = set_role_opt(ms, "build"@, opt_alias(m.build));
    lemma_set_role_opt(ms, "build"@, opt_alias(m.build));
    let a2 = set_role_opt(a1, "plan"@, opt_alias(m.plan));
    lemma_set_role_opt(a1, "plan"@, opt_alias(m.plan));
    let a3 = set_role_opt(a2, "general"@, opt_alias(m.general));
    lemma_set_role_opt(a2, "general"@, opt_alias(m.general));
    let a4 = set_role_opt(a3, "explore"@, opt_alias(m.explore));
    lemma_set_role_opt(a3, "explore"@, opt_alias(m.explore));
    let a5 = set_role_opt(a4, "compaction"@, opt_alias(m.compaction));
    lemma_set_role_opt(a4, "compaction"@, opt_alias(m.compaction));
    let a6 = set_role_opt(a5, "title"@, opt_alias(m.title));
    lemma_set_role_opt(a5, "title"@, opt_alias(m.title));
    let a7 = set_role_opt(a6, "summary"@, opt_alias(m.summary));
    lemma_set_role_opt(a6, "summary"@, opt_alias(m.summary));
    let fin = with_agents(ms, m);
    match m.small_model {
        Some(s) => {
            lemma_get_set_same(a7, "small_model"@, JsonModel::Str(agent_model_text(s@)));
            lemma_get_set_other(a7, "small_model"@, JsonModel::Str(agent_model_text(s@)), "agent"@);
            lemma_alias_of_text(s@);
        },
        None => {},
    }
    assert(agent_of(fin) == agent_of(a7));
    assert("build"@[0] != "plan"@[0]);
    assert("build"@ != "plan"@);
    assert("build"@[0] != "general"@[0]);
    assert("build"@ != "general"@);
    assert("build"@[0] != "explore"@[0]);
    assert("build"@ != "explore"@);
    assert("build"@[0] != "compaction"@[0]);
    assert("build"@ != "compaction"@);
    assert("build"@[0] != "title"@[0]);
    assert("build"@ != "title"@);
    assert("build"@[0] != "summary"@[0]);
    assert("build"@ != "summary"@);
    assert("plan"@[0] != "general"@[0]);
    assert("plan"@ != "general"@);
    assert("plan"@[0] != "explore"@[0]);
    assert("plan"@ != "explore"@);
    assert("plan"@[0] != "compaction"@[0]);
    assert("plan"@ != "compaction"@);
    assert("plan"@[0] != "title"@[0]);
    assert("plan"@ != "title"@);
    assert("plan"@[0] != "summary"@[0]);
    assert("plan"@ != "summary"@);
    assert("general"@[0] != "explore"@[0]);
    assert("general"@ != "explore"@);
    assert("general"@[0] != "compaction"@[0]);
    assert("general"@ != "compaction"@);
    assert("general"@[0] != "title"@[0]);
    assert("general"@ != "title"@);
    assert("general"@[0] != "summary"@[0]);
    assert("general"@ != "summary"@);
    assert("explore"@[0] != "compaction"@[0]);
    assert("explore"@ != "compaction"@);
    assert("explore"@[0] != "title"@[0]);
    assert("explore"@ != "title"@);
    assert("explore"@[0] != "summary"@[0]);
    assert("explore"@ != "summary"@);
    assert("compaction"@[0] != "title"@[0]);
    assert("compaction"@ != "title"@);
    assert("compaction"@[0] != "summary"@[0]);
    assert("compaction"@ != "summary"@);
    assert("title"@[0] != "summary"@[0]);
    assert("title"@ != "summary"@);
    assert(role_entry(a2, "build"@) == role_entry(a1, "build"@));
    assert(role_entry(a3, "build"@) == role_entry(a2, "build"@));
    assert(role_entry(a4, "build"@) == role_entry(a3, "build"@));
    assert(role_entry(a5, "build"@) == role_entry(a4, "build"@));
    assert(role_entry(a6, "build"@) == role_entry(a5, "build"@));
    assert(role_entry(a7, "build"@) == role_entry(a6, "build"@));
    assert(role_entry(fin, "build"@) == role_entry(a7, "build"@));
    assert(role_entry(a1, "plan"@) == role_entry(ms, "plan"@));
    assert(role_entry(a3, "plan"@) == role_entry(a2, "plan"@));
    assert(role_entry(a4, "plan"@) == role_entry(a3, "plan"@));
    assert(role_entry(a5, "plan"@) == role_entry(a4, "plan"@));
    assert(role_entry(a6, "plan"@) == role_entry(a5, "plan"@));
    assert(role_entry(a7, "plan"@) == role_entry(a6, "plan"@));
    assert(role_entry(fin, "plan"@) == role_entry(a7, "plan"@));
    assert(role_entry(a1, "general"@) == role_entry(ms, "general"@));
    assert(role_entry(a2, "general"@) == role_entry(a1, "general"@));
    assert(role_entry(a4, "general"@) == role_entry(a3, "general"@));
    assert(role_entry(a5, "general"@) == role_entry(a4, "general"@));
    assert(role_entry(a6, "general"@) == role_entry(a5, "general"@));
    assert(role_entry(a7, "general"@) == role_entry(a6, "general"@));
    assert(role_entry(fin, "general"@) == role_entry(a7, "general"@));
    assert(role_entry(a1, "explore"@) == role_entry(ms, "explore"@));
    assert(role_entry(a2, "explore"@) == role_entry(a1, "explore"@));
    assert(role_entry(a3, "explore"@) == role_entry(a2, "explore"@));
    assert(role_entry(a5, "explore"@) == role_entry(a4, "explore"@));
    assert(role_entry(a6, "explore"@) == role_entry(a5, "explore"@));
    assert(role_entry(a7, "explore"@) == role_entry(a6, "explore"@));
    assert(role_entry(fin, "explore"@) == role_entry(a7, "explore"@));
    assert(role_entry(a1, "compaction"@) == role_entry(ms, "compaction"@));
    assert(role_entry(a2, "compaction"@) == role_entry(a1, "compaction"@));
    assert(role_entry(a3, "compaction"@) == role_entry(a2, "compaction"@));
    assert(role_entry(a4, "compaction"@) == role_entry(a3, "compaction"@));
    assert(role_entry(a6, "compaction"@) == role_entry(a5, "compaction"@));
    assert(role_entry(a7, "compaction"@) == role_entry(a6, "compaction"@));
    assert(role_entry(fin, "compaction"@) == role_entry(a7, "compaction"@));
    assert(role_entry(a1, "title"@) == role_entry(ms, "title"@));
    assert(role_entry(a2, "title"@) == role_entry(a1, "title"@));
    assert(role_entry(a3, "title"@) == role_entry(a2, "title"@));
    assert(role_entry(a4, "title"@) == role_entry(a3, "title"@));
    assert(role_entry(a5, "title"@) == role_entry(a4, "title"@));
    assert(role_entry(a7, "title"@) == role_entry(a6, "title"@));
    assert(role_entry(fin, "title"@) == role_entry(a7, "title"@));
    assert(role_entry(a1, "summary"@) == role_entry(ms, "summary"@));
    assert(role_entry(a2, "summary"@) == role_entry(a1, "summary"@));
    assert(role_entry(a3, "summary"@) == role_entry(a2, "summary"@));
    assert(role_entry(a4, "summary"@) == role_entry(a3, "summary"@));
    assert(role_entry(a5, "summary"@) == role_entry(a4, "summary"@));
    assert(role_entry(a6, "summary"@) == role_entry(a5, "summary"@));
    assert(role_entry(fin, "summary"@) == role_entry(a7, "summary"@));

    assert(m_get(a7, "small_model"@) == m_get(ms, "small_model"@));
    match m.build {
        Some(a) => lemma_alias_of_text(a@),
        None => {},
    }
    match m.plan {
        Some(a) => lemma_alias_of_text(a@),
        None => {},
    }
    match m.general {
        Some(a) => lemma_alias_of_text(a@),
        None => {},
    }
    match m.explore {
        Some(a) => lemma_alias_of_text(a@),
        None => {},
    }
    match m.compaction {
        Some(a) => lemma_alias_of_text(a@),
        None => {},
    }
    match m.title {
        Some(a) => lemma_alias_of_text(a@),
        None => {},
    }
    match m.summary {
        Some(a) => lemma_alias_of_text(a@),
        None => {},
    }
}

fn set_role_opt_exec(ms: &mut Vec<(String, JsonValue)>, role: &str, alias: &Option<String>)
    ensures
        model_members(final(ms)@) == set_role_opt(model_members(old(ms)@), role@, opt_alias(*alias)),
{
    match alias {
        Some(a) => {
            let model = cat("coderouter/", a.as_str());
            set_role_in_config(ms, role, model.as_str());
        },
        None => {},
    }
}

/// Writes agent model assignments into a configuration object; see
/// [`with_agents`].
pub fn set_agent_models_into(config: &mut JsonValue, mapping: &AgentMapping)
    requires
        *old(config) is Object,
    ensures
        model_of(*final(config)) == JsonModel::Obj(with_agents(obj_members(model_of(*old(config))), *mapping)),
{
    match config {
        JsonValue::Object(ms) => {
            set_role_opt_exec(ms, "build", &mapping.build);
            set_role_opt_exec(ms, "plan", &mapping.plan);
            set_role_opt_exec(ms, "general", &mapping.general);
            set_role_opt_exec(ms, "explore", &mapping.explore);
            set_role_opt_exec(ms, "compaction", &mapping.compaction);
            set_role_opt_exec(ms, "title", &mapping.title);
            set_role_opt_exec(ms, "summary", &mapping.summary);
            match &mapping.small_model {
                Some(sm) => {
                    let model = cat("coderouter/", sm.as_str());
                    obj_set(ms, String::from_str("small_model"), jstr(model.as_str()));
                },
                None => {},
            }
        },
        _ => {},
    }
}


/// An agent entry whose model is a CodeRouter model.
pub open spec fn has_cr_model(v: JsonModel) -> bool {
    match v {
        JsonModel::Obj(cms) => match m_get(cms, "model"@) {
            Some(JsonModel::Str(s)) => has_prefix(s, "coderouter/"@),
            _ => false,
        },
        _ => false,
    }
}

/// The agent entries with their CodeRouter models removed; entries left
/// empty are dropped.
pub open spec fn strip_agents(ams: Seq<(Seq<char>, JsonModel)>) -> Seq<(Seq<char>, JsonModel)>
    decreases ams.len(),
{
    if ams.len() == 0 {
        Seq::empty()
    } else {
        let prev = strip_agents(ams.drop_last());
        let (k, v) = ams.last();
        if has_cr_model(v) {
            let c2 = m_remove(obj_members(v), "model"@);
            if c2.len() == 0 {
                prev
            } else {
                prev.push((k, JsonModel::Obj(c2)))
            }
        } else {
            prev.push((k, v))
        }
    }
}

/// A configuration's members without CodeRouter agent models: the `agent`
/// object is stripped (and dropped when left empty), and a CodeRouter
/// `small_model` is removed.
pub open spec fn without_agent_models(ms: Seq<(Seq<char>, JsonModel)>) -> Seq<(Seq<char>, JsonModel)> {
    let ms1 = match m_get(ms, "agent"@) {
        Some(JsonModel::Obj(ams)) => {
            let a2 = strip_agents(ams);
            if a2.len() == 0 {
                m_remove(ms, "agent"@)
            } else {
                m_set(ms, "agent"@, JsonModel::Obj(a2))
            }
        },
        _ => ms,
    };
    match m_get(ms1, "small_model"@) {
        Some(JsonModel::Str(s)) => if has_prefix(s, "coderouter/"@) {
            m_remove(ms1, "small_model"@)
        } else {
            ms1
        },
        _ => ms1,
    }
}

/// A configuration's members without the CodeRouter provider; the
/// `provider` object is dropped when left empty.
pub open spec fn without_provider(ms: Seq<(Seq<char>, JsonModel)>) -> Seq<(Seq<char>, JsonModel)> {
    match m_get(ms, "provider"@) {
        Some(JsonModel::Obj(pms)) => {
            let p2 = m_remove(pms, "coderouter"@);
            if p2.len() == 0 {
                m_remove(ms, "provider"@)
            } else {
                m_set(ms, "provider"@, JsonModel::Obj(p2))
            }
        },
        _ => ms,
    }
}

fn cr_model_exec(v: &JsonValue) -> (r: bool)
    ensures
        r == has_cr_model(model_of(*v)),
{
    match v {
        JsonValue::Object(cms) => {
            proof {
                lemma_model_members(cms@);
            }
            match member_index(cms, "model") {
                Some(i) => match &cms[i].1 {
                    JsonValue::Str(s) => str_starts_with(s.as_str(), "coderouter/"),
                    _ => false,
                },
                None => false,
            }
        },
        _ => false,
    }
}

fn strip_agents_exec(ams: Vec<(String, JsonValue)>) -> (r: Vec<(String, JsonValue)>)
    ensures
        model_members(r@) == strip_agents(model_members(ams@)),
{
    let ghost orig = ams@;
    proof {
        lemma_model_members(orig);
    }
    let mut src = ams;
    let mut rev: Vec<(String, JsonValue)> = Vec::new();
    let mut out: Vec<(String, JsonValue)> = Vec::new();
    let mut i: usize = 0;
    let n = src.len();
    assert(model_members(out@) =~= Seq::<(Seq<char>, JsonModel)>::empty());
    assert(model_members(orig).take(0) =~= Seq::<(Seq<char>, JsonModel)>::empty());
    while src.len() > 0
        invariant
            src@.len() + i == n,
            n == orig.len(),
            i <= n,
            forall|j: int| 0 <= j < src@.len() ==> #[trigger] src@[j] == orig[i + j],
            model_members(orig).len() == orig.len(),
            forall|j: int| 0 <= j < orig.len() ==> #[trigger] model_members(orig)[j] == (orig[j].0@, model_of(orig[j].1)),
            model_members(out@) == strip_agents(model_members(orig).take(i as int)),
        decreases src.len(),
    {
        let (k, v) = src.remove(0);
        let ghost entry = (k@, model_of(v));
        assert(entry == model_members(orig)[i as int]);
        proof {
            assert(model_members(orig).take(i + 1).drop_last() =~= model_members(orig).take(i as int));
            lemma_model_members(out@);
        }
        let ghost before = model_members(out@);
        if cr_model_exec(&v) {
            match v {
                JsonValue::Object(mut cms) => {
                    obj_remove(&mut cms, "model");
                    if cms.len() > 0 {
                        let ghost c2 = model_members(cms@);
                        proof {
                            lemma_model_members(cms@);
                        }
                        out.push((k, JsonValue::Object(cms)));
                        proof {
                            lemma_model_members(out@);
                            assert(model_members(out@) =~= before.push((entry.0, JsonModel::Obj(c2))));
                        }
                    } else {
                        proof {
                            lemma_model_members(cms@);
                        }
                    }
                },
                _ => {},
            }
        } else {
            out.push((k, v));
            proof {
                lemma_model_members(out@);
                assert(model_members(out@) =~= before.push(entry));
            }
        }
        i = i + 1;
    }
    assert(model_members(orig).take(i as int) =~= model_members(orig));
    out
}

/// Removes CodeRouter agent models from a configuration object; see
/// [`without_agent_models`].
pub fn remove_agent_models_from(config: &mut JsonValue)
    requires
        *old(config) is Object,
    ensures
        model_of(*final(config)) == JsonModel::Obj(without_agent_models(obj_members(model_of(*old(config))))),
{
    match config {
        JsonValue::Object(ms) => {
            let ghost ms0 = ms@;
            proof {
                lemma_model_members(ms@);
            }
            match member_index(ms, "agent") {
                Some(i) => {
                    let (k, v) = take_at(ms, i);
                    match v {
                        JsonValue::Object(ams) => {
                            let a2 = strip_agents_exec(ams);
                            if a2.len() == 0 {
                                proof {
                                    lemma_model_members(a2@);
                                    lemma_model_members(ms@);
                                    assert(model_members(ms@) =~= model_members(ms0).remove(i as int));
                                }
                            } else {
                                let ghost am = model_members(a2@);
                                proof {
                                    lemma_model_members(a2@);
                                }
                                ms.insert(i, (k, JsonValue::Object(a2)));
                                proof {
                                    lemma_model_members(ms@);
                                    assert forall|j: int| 0 <= j < ms@.len() && j != i implies ms@[j] == ms0[j] by {}
                                    assert(ms@[i as int].0@ == "agent"@);
                                    assert(model_members(ms@) =~= model_members(ms0).update(i as int, ("agent"@, JsonModel::Obj(am))));
                                }
                            }
                        },
                        other => {
                            ms.insert(i, (k, other));
                            assert(ms@ =~= ms0);
                        },
                    }
                },
                None => {},
            }
            let ghost mid = ms@;
            proof {
                lemma_model_members(ms@);
            }
            match member_index(ms, "small_model") {
                Some(i) => {
                    let is_cr = match &ms[i].1 {
                        JsonValue::Str(s) => str_starts_with(s.as_str(), "coderouter/"),
                        _ => false,
                    };
                    if is_cr {
                        obj_remove(ms, "small_model");
                    }
                },
                None => {},
            }
        },
        _ => {},
    }
}

/// Removes the CodeRouter provider from a configuration object; see
/// [`without_provider`].
pub fn remove_provider_from(config: &mut JsonValue)
    requires
        *old(config) is Object,
    ensures
        model_of(*final(config)) == JsonModel::Obj(without_provider(obj_members(model_of(*old(config))))),
{
    match config {
        JsonValue::Object(ms) => {
            let ghost ms0 = ms@;
            proof {
                lemma_model_members(ms@);
            }
            match member_index(ms, "provider") {
                Some(i) => {
                    let (k, v) = take_at(ms, i);
                    match v {
                        JsonValue::Object(mut pms) => {
                            obj_remove(&mut pms, "coderouter");
                            proof {
                                lemma_model_members(pms@);
                            }
                            if pms.len() == 0 {
                                proof {
                                    lemma_model_members(ms@);
                                    assert(model_members(ms@) =~= model_members(ms0).remove(i as int));
                                }
                            } else {
                                let ghost pm = model_members(pms@);
                                ms.insert(i, (k, JsonValue::Object(pms)));
                                proof {
                                    lemma_model_members(ms@);
                                    assert forall|j: int| 0 <= j < ms@.len() && j != i implies ms@[j] == ms0[j] by {}
                                    assert(ms@[i as int].0@ == "provider"@);
                                    assert(model_members(ms@) =~= model_members(ms0).update(i as int, ("provider"@, JsonModel::Obj(pm))));
                                }
                            }
                        },
                        other => {
                            ms.insert(i, (k, other));
                            assert(ms@ =~= ms0);
                        },
                    }
                },
                None => {},
            }
        },
        _ => {},
    }
}


/// A member of an optional object document.
pub open spec fn mget_opt(v: Option<JsonModel>, k: Seq<char>) -> Option<JsonModel> {
    match v {
        Some(JsonModel::Obj(ms)) => m_get(ms, k),
        _ => None,
    }
}

/// The alias of a CodeRouter model text.
pub open spec fn cr_alias(v: Option<JsonModel>) -> Option<Seq<char>> {
    match v {
        Some(JsonModel::Str(s)) => if has_prefix(s, "coderouter/"@) {
            Some(s.skip(11))
        } else {
            None
        },
        _ => None,
    }
}

/// The group alias a role uses, when its model is a CodeRouter model.
pub open spec fn role_alias(ms: Seq<(Seq<char>, JsonModel)>, role: Seq<char>) -> Option<Seq<char>> {
    cr_alias(mget_opt(mget_opt(m_get(ms, "agent"@), role), "model"@))
}

fn mget_ref<'a>(v: Option<&'a JsonValue>, k: &str) -> (r: Option<&'a JsonValue>)
    ensures
        match r {
            Some(x) => mget_opt(
                match v {
                    Some(y) => Some(model_of(*y)),
                    None => None,
                },
                k@,
            ) == Some(model_of(*x)),
            None => mget_opt(
                match v {
                    Some(y) => Some(model_of(*y)),
                    None => None,
                },
                k@,
            ) is None,
        },
{
    match v {
        Some(JsonValue::Object(ms)) => {
            proof {
                lemma_model_members(ms@);
            }
            match member_index(ms, k) {
                Some(i) => Some(&ms[i].1),
                None => None,
            }
        },
        _ => None,
    }
}

fn cr_alias_exec(v: Option<&JsonValue>) -> (r: Option<String>)
    ensures
        opt_alias(r) == cr_alias(
            match v {
                Some(y) => Some(model_of(*y)),
                None => None,
            },
        ),
{
    proof {
        reveal_strlit("coderouter/");
    }
    match v {
        Some(JsonValue::Str(s)) => {
            if str_starts_with(s.as_str(), "coderouter/") {
                let cs = chars_of(s.as_str());
                let rest = chars_slice(&cs, 11, cs.len());
                assert(rest@ =~= s@.skip(11));
                Some(string_from_chars(&rest))
            } else {
                None
            }
        },
        _ => None,
    }
}

fn role_alias_exec(config: &JsonValue, role: &str) -> (r: Option<String>)
    requires
        config is Object,
    ensures
        opt_alias(r) == role_alias(obj_members(model_of(*config)), role@),
{
    let agents = mget_ref(Some(config), "agent");
    let entry = mget_ref(agents, role);
    let model = mget_ref(entry, "model");
    cr_alias_exec(model)
}

/// The CodeRouter assignments of a configuration: for each role, the alias
/// of its CodeRouter model; for `small_model`, likewise. A configuration
/// that is not an object is refused.
pub fn current_agent_mapping(config: &JsonValue) -> (r: Result<AgentMapping, String>)
    ensures
        match model_of(*config) {
            JsonModel::Obj(ms) => r matches Ok(m) && opt_alias(m.build) == role_alias(ms, "build"@)
                && opt_alias(m.plan) == role_alias(ms, "plan"@) && opt_alias(m.general) == role_alias(
                ms,
                "general"@,
            ) && opt_alias(m.explore) == role_alias(ms, "explore"@) && opt_alias(m.compaction)
                == role_alias(ms, "compaction"@) && opt_alias(m.title) == role_alias(ms, "title"@)
                && opt_alias(m.summary) == role_alias(ms, "summary"@) && opt_alias(m.small_model)
                == cr_alias(m_get(ms, "small_model"@)),
            _ => r matches Err(e) && e@ == "Config is not an object"@,
        },
{
    match config {
        JsonValue::Object(_) => {},
        _ => {
            return Err(String::from_str("Config is not an object"));
        },
    }
    let small = cr_alias_exec(mget_ref(Some(config), "small_model"));
    Ok(
        AgentMapping {
            build: role_alias_exec(config, "build"),
            plan: role_alias_exec(config, "plan"),
            general: role_alias_exec(config, "general"),
            explore: role_alias_exec(config, "explore"),
            compaction: role_alias_exec(config, "compaction"),
            title: role_alias_exec(config, "title"),
            summary: role_alias_exec(config, "summary"),
            small_model: small,
        },
    )
}

/// Whether a configuration uses a group alias: an agent entry's model, or
/// `small_model`, is `coderouter/<alias>`.
pub open spec fn alias_referenced(m: JsonModel, alias: Seq<char>) -> bool {
    let target = JsonModel::Str(agent_model_text(alias));
    match m {
        JsonModel::Obj(ms) => {
            (match m_get(ms, "agent"@) {
                Some(JsonModel::Obj(ams)) => exists|j: int|
                    0 <= j < ams.len() && (#[trigger] ams[j]).1 is Obj && m_get(obj_members(ams[j].1), "model"@)
                        == Some(target),
                _ => false,
            }) || m_get(ms, "small_model"@) == Some(target)
        },
        _ => false,
    }
}

fn agents_reference(ams: &Vec<(String, JsonValue)>, target: &str) -> (r: bool)
    ensures
        r == exists|j: int|
            0 <= j < model_members(ams@).len() && (#[trigger] model_members(ams@)[j]).1 is Obj && m_get(
                obj_members(model_members(ams@)[j].1),
                "model"@,
            ) == Some(JsonModel::Str(target@)),
{
    proof {
        lemma_model_members(ams@);
    }
    let ghost amv = model_members(ams@);
    let ghost t = JsonModel::Str(target@);
    let mut j: usize = 0;
    while j < ams.len()
        invariant
            j <= ams@.len(),
            amv == model_members(ams@),
            amv.len() == ams@.len(),
            forall|q: int| 0 <= q < ams@.len() ==> #[trigger] amv[q] == (ams@[q].0@, model_of(ams@[q].1)),
            t == JsonModel::Str(target@),
            forall|q: int| 0 <= q < j ==> !((#[trigger] amv[q]).1 is Obj && m_get(obj_members(amv[q].1), "model"@) == Some(t)),
        decreases ams.len() - j,
    {
        let is_obj = match &ams[j].1 {
            JsonValue::Object(_) => true,
            _ => false,
        };
        let m = mget_ref(Some(&ams[j].1), "model");
        let hit = match m {
            Some(JsonValue::Str(s)) => str_eq(s.as_str(), target),
            _ => false,
        };
        if is_obj && hit {
            assert(amv[j as int].1 is Obj && m_get(obj_members(amv[j as int].1), "model"@) == Some(t));
            return true;
        }
        j = j + 1;
    }
    false
}

/// Checks whether a configuration uses a group alias; see
/// [`alias_referenced`].
pub fn is_group_alias_referenced(config: &JsonValue, group_alias: &str) -> (r: bool)
    ensures
        r == alias_referenced(model_of(*config), group_alias@),
{
    let target = cat("coderouter/", group_alias);
    match config {
        JsonValue::Object(ms) => {
            proof {
                lemma_model_members(ms@);
            }
            let in_agents = match member_index(ms, "agent") {
                Some(i) => match &ms[i].1 {
                    JsonValue::Object(ams) => agents_reference(ams, target.as_str()),
                    _ => false,
                },
                None => false,
            };
            let small = match mget_ref(Some(config), "small_model") {
                Some(JsonValue::Str(s)) => str_eq(s.as_str(), target.as_str()),
                _ => false,
            };
            in_agents || small
        },
        _ => false,
    }
}

/// The members of an OpenCode configuration as a preview shows them: the
/// provider block injected and, when a mapping is given, the agent models
/// applied.
pub open spec fn previewed(
    ms: Seq<(Seq<char>, JsonModel)>,
    gs: Seq<Group>,
    ps: Seq<Provider>,
    port: u16,
    mapping: Option<AgentMapping>,
    statuses: Seq<(String, String)>,
) -> Seq<(Seq<char>, JsonModel)> {
    let injected = with_provider(ms, provider_block(gs, ps, port, statuses));
    match mapping {
        Some(m) => with_agents(injected, m),
        None => injected,
    }
}

/// The pretty JSON text of a configuration with the CodeRouter provider
/// injected and, when given, the agent mapping applied; see [`previewed`].
pub fn preview_opencode_config(
    config: JsonValue,
    groups: &[Group],
    providers: &[Provider],
    proxy_port: u16,
    mapping: Option<&AgentMapping>,
    statuses: &Vec<(String, String)>,
) -> (r: String)
    requires
        config is Object,
        forall|i: int| 0 <= i < groups@.len() ==> (#[trigger] groups@[i]).entries@.len() <= u32::MAX,
    ensures
        r@ == pretty(
            JsonModel::Obj(
                previewed(
                    obj_members(model_of(config)),
                    groups@,
                    providers@,
                    proxy_port,
                    match mapping {
                        Some(m) => Some(*m),
                        None => None,
                    },
                    statuses@,
                ),
            ),
            0,
        ),
{
    let mut cfg = config;
    let block = build_provider_block(groups, providers, proxy_port, statuses);
    inject_provider_into(&mut cfg, block);
    match mapping {
        Some(m) => set_agent_models_into(&mut cfg, m),
        None => {},
    }
    to_pretty_string(&cfg)
}

} // verus!
