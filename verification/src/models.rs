//! The model list the proxy offers (`GET /v1/models`): which group aliases
//! can serve right now, and the context and output limits reported for
//! each.

use vstd::prelude::*;
use crate::config_models::{
    Group, GroupEntry, Provider, AggregationConfig, agg_enabled, find_group, groups_agg_error, validate_group_aggregation,
    find_group_exec,
};
use crate::router::{
    RouterState, RouterView, EntryStatus, key_of, lookup, entry_available, entry_key, group_has_available_entry,
};
use crate::opencode_config::{ctx_of, out_of, entry_meta};
use crate::seqs::first_match;

verus! {

/// One listed model.
pub struct ModelObject {
    pub id: String,
    pub object: String,
    pub created: u64,
    pub owned_by: String,
    pub context_window: Option<u64>,
    pub max_output_tokens: Option<u64>,
}

/// The model list.
pub struct ModelResponse {
    pub object: String,
    pub data: Vec<ModelObject>,
}

/// Whether entry `k` is active, or has no state yet.
pub open spec fn entry_active(e: GroupEntry, k: int, v: RouterView) -> bool {
    match lookup(v, key_of(e.provider_id@, k as u32)) {
        Some(st) => st.status == EntryStatus::Active,
        None => true,
    }
}

/// The output limit (`which`) or context window of an entry's model.
pub open spec fn meta_part(e: GroupEntry, ps: Seq<Provider>, which: bool) -> Option<u64> {
    if which {
        out_of(e, ps)
    } else {
        ctx_of(e, ps)
    }
}

/// The first enabled, active entry in priority order (earlier entries first
/// among equal priorities), from `k` on, whose model reports the limit,
/// given the best so far.
pub open spec fn pick_active(
    entries: Seq<GroupEntry>,
    k: int,
    best: Option<int>,
    v: RouterView,
    ps: Seq<Provider>,
    which: bool,
) -> Option<int>
    decreases entries.len() - k,
{
    if k < 0 || k >= entries.len() {
        best
    } else {
        let e = entries[k];
        let nb = if e.enabled && entry_active(e, k, v) && meta_part(e, ps, which) is Some && (best is None
            || e.priority < entries[best.unwrap()].priority) {
            Some(k)
        } else {
            best
        };
        pick_active(entries, k + 1, nb, v, ps, which)
    }
}

/// The limit reported for a group: that of its first enabled, active entry
/// in priority order whose model reports one.
pub open spec fn reported_limit(g: Group, v: RouterView, ps: Seq<Provider>, which: bool) -> Option<u64> {
    match pick_active(g.entries@, 0, None, v, ps, which) {
        Some(k) => meta_part(g.entries@[k], ps, which),
        None => None,
    }
}

/// Whether some entry of a group can take a request.
pub open spec fn group_available(g: Group, v: RouterView, ps: Seq<Provider>) -> bool {
    exists|k: int| 0 <= k < g.entries@.len() && #[trigger] entry_available(g.entries@[k], k, v, ps)
}

/// Whether the group with an id exists and can take a request.
pub open spec fn id_available(gs: Seq<Group>, id: Seq<char>, v: RouterView, ps: Seq<Provider>) -> bool {
    match find_group(gs, id) {
        Some(c) => group_available(c, v, ps),
        None => false,
    }
}

/// Whether a group is listed: a plain group when it can take a request; a
/// Mixture-of-Agents group when the group list passes the aggregation
/// checks, its aggregator can take a request, and all (or, when not all are
/// required, some) of its references can.
pub open spec fn listed(g: Group, gs: Seq<Group>, v: RouterView, ps: Seq<Provider>) -> bool {
    if agg_enabled(g) {
        let c = g.aggregation_config.unwrap();
        &&& groups_agg_error(gs, gs) is None
        &&& match c.aggregator_group_id {
            Some(id) => id_available(gs, id@, v, ps),
            None => false,
        }
        &&& if c.require_all_references {
            forall|i: int| 0 <= i < c.reference_group_ids@.len() ==> #[trigger] id_available(gs, c.reference_group_ids@[i]@, v, ps)
        } else {
            exists|i: int| 0 <= i < c.reference_group_ids@.len() && #[trigger] id_available(gs, c.reference_group_ids@[i]@, v, ps)
        }
    } else {
        group_available(g, v, ps)
    }
}

/// The group whose entries a listed group's limits come from: the
/// aggregator of a Mixture-of-Agents group (when it exists), else itself.
pub open spec fn metadata_group(g: Group, gs: Seq<Group>) -> Group {
    if agg_enabled(g) {
        match g.aggregation_config.unwrap().aggregator_group_id {
            Some(id) => match find_group(gs, id@) {
                Some(c) => c,
                None => g,
            },
            None => g,
        }
    } else {
        g
    }
}

/// Whether a model object describes a listed group at a creation time.
pub open spec fn describes(o: ModelObject, g: Group, gs: Seq<Group>, v: RouterView, ps: Seq<Provider>, created: u64) -> bool {
    &&& o.id@ == g.alias@
    &&& o.object@ == "model"@
    &&& o.created == created
    &&& o.owned_by@ == "coderouter"@
    &&& o.context_window == reported_limit(metadata_group(g, gs), v, ps, false)
    &&& o.max_output_tokens == reported_limit(metadata_group(g, gs), v, ps, true)
}

/// The listed groups among `gs`, in order.
pub open spec fn listed_groups(gs: Seq<Group>, all: Seq<Group>, v: RouterView, ps: Seq<Provider>) -> Seq<Group>
    decreases gs.len(),
{
    if gs.len() == 0 {
        Seq::empty()
    } else {
        let rest = listed_groups(gs.drop_last(), all, v, ps);
        if listed(gs.last(), all, v, ps) {
            rest.push(gs.last())
        } else {
            rest
        }
    }
}

/// Every group's entry count fits a `u32` entry index.
pub open spec fn indexable_groups(gs: Seq<Group>) -> bool {
    forall|i: int| 0 <= i < gs.len() ==> (#[trigger] gs[i]).entries@.len() <= u32::MAX
}

fn entry_active_exec(e: &GroupEntry, k: usize, state: &RouterState) -> (r: bool)
    requires
        k <= u32::MAX,
    ensures
        r == entry_active(*e, k as int, state@),
{
    let key = entry_key(e.provider_id.as_str(), k as u32);
    match state.get(key.as_str()) {
        Some(st) => st.status == EntryStatus::Active,
        None => true,
    }
}

fn meta_part_exec(e: &GroupEntry, ps: &[Provider], which: bool) -> (r: Option<u64>)
    ensures
        r == meta_part(*e, ps@, which),
{
    match crate::config_models::find_provider_exec(ps, e.provider_id.as_str()) {
        Some(p) => match p.resolve_model_meta(e.model_id.as_str()) {
            Some((c, o)) => if which {
                o
            } else {
                c
            },
            None => None,
        },
        None => None,
    }
}

/// The limit reported for a group; see [`reported_limit`].
pub fn group_reported_limit(g: &Group, ps: &[Provider], state: &RouterState, which: bool) -> (r: Option<u64>)
    requires
        g.entries@.len() <= u32::MAX,
    ensures
        r == reported_limit(*g, state@, ps@, which),
{
    let mut best: Option<usize> = None;
    let mut best_val: Option<u64> = None;
    let mut k: usize = 0;
    while k < g.entries.len()
        invariant
            k <= g.entries@.len(),
            g.entries@.len() <= u32::MAX,
            best matches Some(b) ==> b < k && best_val == meta_part(g.entries@[b as int], ps@, which),
            best is None ==> best_val is None,
            pick_active(g.entries@, 0, None, state@, ps@, which) == pick_active(
                g.entries@,
                k as int,
                match best {
                    Some(b) => Some(b as int),
                    None => None,
                },
                state@,
                ps@,
                which,
            ),
        decreases g.entries.len() - k,
    {
        let e = &g.entries[k];
        let v = meta_part_exec(e, ps, which);
        let better = match best {
            None => true,
            Some(b) => e.priority < g.entries[b].priority,
        };
        if e.enabled && v.is_some() && better && entry_active_exec(e, k, state) {
            best = Some(k);
            best_val = v;
        }
        k = k + 1;
    }
    best_val
}

fn id_available_exec(gs: &[Group], id: &str, ps: &[Provider], state: &RouterState) -> (r: bool)
    requires
        indexable_groups(gs@),
    ensures
        r == id_available(gs@, id@, state@, ps@),
{
    match find_group_exec(gs, id) {
        Some(c) => {
            proof {
                crate::seqs::lemma_first_match_spec(gs@, crate::config_models::group_has_id(id@));
            }
            group_has_available_entry(c, ps, state)
        },
        None => false,
    }
}

fn listed_exec(g: &Group, gs: &[Group], ps: &[Provider], state: &RouterState, valid: bool) -> (r: bool)
    requires
        indexable_groups(gs@),
        g.entries@.len() <= u32::MAX,
        valid == (groups_agg_error(gs@, gs@) is None),
    ensures
        r == listed(*g, gs@, state@, ps@),
{
    match &g.aggregation_config {
        Some(c) => {
            if c.enabled {
                if !valid {
                    return false;
                }
                let agg_ok = match &c.aggregator_group_id {
                    Some(id) => id_available_exec(gs, id.as_str(), ps, state),
                    None => false,
                };
                if !agg_ok {
                    return false;
                }
                let ids = &c.reference_group_ids;
                let mut i: usize = 0;
                if c.require_all_references {
                    assert(listed(*g, gs@, state@, ps@) == (forall|j: int|
                        0 <= j < ids@.len() ==> #[trigger] id_available(gs@, ids@[j]@, state@, ps@)));
                    while i < ids.len()
                        invariant
                            i <= ids@.len(),
                            indexable_groups(gs@),
                            forall|j: int| 0 <= j < i ==> #[trigger] id_available(gs@, ids@[j]@, state@, ps@),
                            listed(*g, gs@, state@, ps@) == (forall|j: int|
                                0 <= j < ids@.len() ==> #[trigger] id_available(gs@, ids@[j]@, state@, ps@)),
                        decreases ids.len() - i,
                    {
                        if !id_available_exec(gs, ids[i].as_str(), ps, state) {
                            return false;
                        }
                        i = i + 1;
                    }
                    true
                } else {
                    assert(listed(*g, gs@, state@, ps@) == (exists|j: int|
                        0 <= j < ids@.len() && #[trigger] id_available(gs@, ids@[j]@, state@, ps@)));
                    while i < ids.len()
                        invariant
                            i <= ids@.len(),
                            indexable_groups(gs@),
                            forall|j: int| 0 <= j < i ==> !#[trigger] id_available(gs@, ids@[j]@, state@, ps@),
                            listed(*g, gs@, state@, ps@) == (exists|j: int|
                                0 <= j < ids@.len() && #[trigger] id_available(gs@, ids@[j]@, state@, ps@)),
                        decreases ids.len() - i,
                    {
                        if id_available_exec(gs, ids[i].as_str(), ps, state) {
                            return true;
                        }
                        i = i + 1;
                    }
                    false
                }
            } else {
                group_has_available_entry(g, ps, state)
            }
        },
        None => group_has_available_entry(g, ps, state),
    }
}

fn metadata_group_exec<'a>(g: &'a Group, gs: &'a [Group]) -> (r: &'a Group)
    ensures
        *r == metadata_group(*g, gs@),
{
    if g.aggregation_enabled() {
        match &g.aggregation_config {
            Some(c) => match &c.aggregator_group_id {
                Some(id) => match find_group_exec(gs, id.as_str()) {
                    Some(a) => a,
                    None => g,
                },
                None => g,
            },
            None => g,
        }
    } else {
        g
    }
}

/// Whether a response is the model list at a creation time: one model per
/// listed group, in group order (see [`listed`] and [`describes`]).
pub open spec fn is_listing(r: ModelResponse, gs: Seq<Group>, v: RouterView, ps: Seq<Provider>, created: u64) -> bool {
    &&& r.object@ == "list"@
    &&& r.data@.len() == listed_groups(gs, gs, v, ps).len()
    &&& forall|j: int|
        0 <= j < r.data@.len() ==> describes(#[trigger] r.data@[j], listed_groups(gs, gs, v, ps)[j], gs, v, ps, created)
}

/// The model list at a creation time; see [`is_listing`].
pub fn list_models_at(groups: &[Group], providers: &[Provider], state: &RouterState, created: u64) -> (r: ModelResponse)
    requires
        indexable_groups(groups@),
    ensures
        is_listing(r, groups@, state@, providers@, created),
{
    let valid = validate_group_aggregation(groups).is_ok();
    let ghost lg = |k: int| listed_groups(groups@.take(k), groups@, state@, providers@);
    let mut data: Vec<ModelObject> = Vec::new();
    let mut i: usize = 0;
    while i < groups.len()
        invariant
            i <= groups@.len(),
            indexable_groups(groups@),
            valid == (groups_agg_error(groups@, groups@) is None),
            data@.len() == listed_groups(groups@.take(i as int), groups@, state@, providers@).len(),
            forall|j: int|
                0 <= j < data@.len() ==> describes(
                    #[trigger] data@[j],
                    listed_groups(groups@.take(i as int), groups@, state@, providers@)[j],
                    groups@,
                    state@,
                    providers@,
                    created,
                ),
        decreases groups.len() - i,
    {
        let g = &groups[i];
        proof {
            assert(groups@.take(i + 1).drop_last() =~= groups@.take(i as int));
            assert(groups@.take(i + 1).last() == groups@[i as int]);
            assert(groups@[i as int].entries@.len() <= u32::MAX);
        }
        if listed_exec(g, groups, providers, state, valid) {
            let m = metadata_group_exec(g, groups);
            proof {
                lemma_metadata_indexable(*g, groups@);
            }
            let o = ModelObject {
                id: g.alias.clone(),
                object: String::from_str("model"),
                created,
                owned_by: String::from_str("coderouter"),
                context_window: group_reported_limit(m, providers, state, false),
                max_output_tokens: group_reported_limit(m, providers, state, true),
            };
            data.push(o);
        }
        i = i + 1;
    }
    assert(groups@.take(i as int) =~= groups@);
    ModelResponse { object: String::from_str("list"), data }
}

proof fn lemma_metadata_indexable(g: Group, gs: Seq<Group>)
    requires
        indexable_groups(gs),
        g.entries@.len() <= u32::MAX,
    ensures
        metadata_group(g, gs).entries@.len() <= u32::MAX,
{
    if agg_enabled(g) {
        match g.aggregation_config.unwrap().aggregator_group_id {
            Some(id) => {
                crate::seqs::lemma_first_match_spec(gs, crate::config_models::group_has_id(id@));
            },
            None => {},
        }
    }
}

/// The model list now: as [`list_models_at`] with the current time in
/// whole seconds since the epoch.
pub fn list_models(groups: &[Group], providers: &[Provider], state: &RouterState) -> (r: ModelResponse)
    requires
        indexable_groups(groups@),
    ensures
        exists|created: u64| #[trigger] is_listing(r, groups@, state@, providers@, created),
{
    let now = crate::clock::now_millis();
    let created = (now / 1000) as u64;
    list_models_at(groups, providers, state, created)
}

} // verus!
