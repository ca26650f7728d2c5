//! The edits the desktop app makes to the provider and group lists: saving
//! (replace by id, else append), enabling, and deleting a provider together
//! with every group entry that routes to it.

use vstd::prelude::*;
use crate::config_models::{Group, GroupEntry, Provider, provider_has_id, group_has_id};
use crate::seqs::{first_index, lemma_first_index_unique, lemma_first_index_none};
use crate::text::str_eq;

verus! {

/// Whether a protocol may be saved with a provider: `openai` or `anthropic`.
pub open spec fn savable_protocol(protocol: Seq<char>) -> bool {
    protocol == "openai"@ || protocol == "anthropic"@
}

/// Checks the protocol of a provider being saved.
pub fn check_save_protocol(protocol: &str) -> (r: Result<(), String>)
    ensures
        r is Ok <==> savable_protocol(protocol@),
        r matches Err(m) ==> m@ == "Invalid protocol '"@ + protocol@ + "'. Must be 'openai' or 'anthropic'."@,
{
    if str_eq(protocol, "openai") || str_eq(protocol, "anthropic") {
        Ok(())
    } else {
        Err(crate::text::cat3("Invalid protocol '", protocol, "'. Must be 'openai' or 'anthropic'."))
    }
}

fn provider_position(ps: &Vec<Provider>, id: &str) -> (r: Option<usize>)
    ensures
        match first_index(ps@, provider_has_id(id@)) {
            Some(i) => r == Some(i as usize) && 0 <= i < ps@.len(),
            None => r is None,
        },
{
    let mut i: usize = 0;
    while i < ps.len()
        invariant
            i <= ps@.len(),
            forall|j: int| 0 <= j < i ==> !provider_has_id(id@)(#[trigger] ps@[j]),
        decreases ps.len() - i,
    {
        if str_eq(ps[i].id.as_str(), id) {
            proof {
                lemma_first_index_unique(ps@, provider_has_id(id@), i as int);
            }
            return Some(i);
        }
        i = i + 1;
    }
    proof {
        lemma_first_index_none(ps@, provider_has_id(id@));
    }
    None
}

fn group_position(gs: &Vec<Group>, id: &str) -> (r: Option<usize>)
    ensures
        match first_index(gs@, group_has_id(id@)) {
            Some(i) => r == Some(i as usize) && 0 <= i < gs@.len(),
            None => r is None,
        },
{
    let mut i: usize = 0;
    while i < gs.len()
        invariant
            i <= gs@.len(),
            forall|j: int| 0 <= j < i ==> !group_has_id(id@)(#[trigger] gs@[j]),
        decreases gs.len() - i,
    {
        if str_eq(gs[i].id.as_str(), id) {
            proof {
                lemma_first_index_unique(gs@, group_has_id(id@), i as int);
            }
            return Some(i);
        }
        i = i + 1;
    }
    proof {
        lemma_first_index_none(gs@, group_has_id(id@));
    }
    None
}

/// Saves a provider: it replaces the first provider with its id, or is
/// appended when there is none.
pub fn upsert_provider(providers: &mut Vec<Provider>, provider: Provider)
    ensures
        match first_index(old(providers)@, provider_has_id(provider.id@)) {
            Some(i) => final(providers)@ == old(providers)@.update(i, provider),
            None => final(providers)@ == old(providers)@.push(provider),
        },
{
    match provider_position(providers, provider.id.as_str()) {
        Some(i) => {
            providers.set(i, provider);
        },
        None => {
            providers.push(provider);
        },
    }
}

/// Saves a group: it replaces the first group with its id, or is appended
/// when there is none.
pub fn upsert_group(groups: &mut Vec<Group>, group: Group)
    ensures
        match first_index(old(groups)@, group_has_id(group.id@)) {
            Some(i) => final(groups)@ == old(groups)@.update(i, group),
            None => final(groups)@ == old(groups)@.push(group),
        },
{
    match group_position(groups, group.id.as_str()) {
        Some(i) => {
            groups.set(i, group);
        },
        None => {
            groups.push(group);
        },
    }
}

/// Sets whether the first provider with the id is enabled; without such a
/// provider nothing changes.
pub fn set_provider_enabled(providers: &mut Vec<Provider>, provider_id: &str, enabled: bool)
    ensures
        match first_index(old(providers)@, provider_has_id(provider_id@)) {
            Some(i) => final(providers)@ == old(providers)@.update(i, Provider { enabled, ..old(providers)@[i] }),
            None => final(providers)@ == old(providers)@,
        },
{
    match provider_position(providers, provider_id) {
        Some(i) => {
            let mut p = providers.remove(i);
            p.enabled = enabled;
            providers.insert(i, p);
            assert(providers@ =~= old(providers)@.update(i as int, Provider { enabled, ..old(providers)@[i as int] }));
        },
        None => {},
    }
}

/// Whether a provider has another id.
pub open spec fn other_provider(id: Seq<char>) -> spec_fn(Provider) -> bool {
    |p: Provider| p.id@ != id
}

/// Whether a group has another id.
pub open spec fn other_group(id: Seq<char>) -> spec_fn(Group) -> bool {
    |g: Group| g.id@ != id
}

/// Whether a group entry routes to another provider.
pub open spec fn other_entry(provider_id: Seq<char>) -> spec_fn(GroupEntry) -> bool {
    |e: GroupEntry| e.provider_id@ != provider_id
}

/// Deletes every provider with the id; the others keep their order.
pub fn remove_provider(providers: &mut Vec<Provider>, provider_id: &str)
    ensures
        final(providers)@ == old(providers)@.filter(other_provider(provider_id@)),
{
    let ghost s = old(providers)@;
    let mut kept: Vec<Provider> = Vec::new();
    let mut k: usize = 0;
    assert(s.skip(0) =~= s);
    assert(s.take(0).filter(other_provider(provider_id@)) =~= Seq::<Provider>::empty()) by {
        reveal(Seq::filter);
    }
    let n: usize = providers.len();
    while providers.len() > 0
        invariant
            k <= s.len(),
            s.len() == n,
            providers@ == s.skip(k as int),
            kept@ == s.take(k as int).filter(other_provider(provider_id@)),
        decreases providers.len(),
    {
        let p = providers.remove(0);
        assert(s.take(k + 1).drop_last() =~= s.take(k as int));
        assert(s.skip(k as int).drop_first() =~= s.skip(k + 1));
        proof {
            reveal(Seq::filter);
        }
        if !str_eq(p.id.as_str(), provider_id) {
            kept.push(p);
        }
        k = k + 1;
    }
    assert(s.take(k as int) =~= s);
    *providers = kept;
}

/// Deletes every group with the id; the others keep their order.
pub fn remove_group(groups: &mut Vec<Group>, group_id: &str)
    ensures
        final(groups)@ == old(groups)@.filter(other_group(group_id@)),
{
    let ghost s = old(groups)@;
    let mut kept: Vec<Group> = Vec::new();
    let mut k: usize = 0;
    assert(s.skip(0) =~= s);
    assert(s.take(0).filter(other_group(group_id@)) =~= Seq::<Group>::empty()) by {
        reveal(Seq::filter);
    }
    let n: usize = groups.len();
    while groups.len() > 0
        invariant
            k <= s.len(),
            s.len() == n,
            groups@ == s.skip(k as int),
            kept@ == s.take(k as int).filter(other_group(group_id@)),
        decreases groups.len(),
    {
        let g = groups.remove(0);
        assert(s.take(k + 1).drop_last() =~= s.take(k as int));
        assert(s.skip(k as int).drop_first() =~= s.skip(k + 1));
        proof {
            reveal(Seq::filter);
        }
        if !str_eq(g.id.as_str(), group_id) {
            kept.push(g);
        }
        k = k + 1;
    }
    assert(s.take(k as int) =~= s);
    *groups = kept;
}

/// Entries renumbered by place: the `k`-th gets priority `k + 1`.
pub open spec fn renumbered(es: Seq<GroupEntry>) -> Seq<GroupEntry> {
    Seq::new(es.len(), |k: int| GroupEntry { priority: (k + 1) as u32, ..es[k] })
}

/// The entries of a group once a provider is deleted: those routing to it
/// are dropped and the rest renumbered.
pub open spec fn entries_without(es: Seq<GroupEntry>, provider_id: Seq<char>) -> Seq<GroupEntry> {
    renumbered(es.filter(other_entry(provider_id)))
}

fn entries_without_exec(entries: &mut Vec<GroupEntry>, provider_id: &str)
    ensures
        final(entries)@ == entries_without(old(entries)@, provider_id@),
{
    let ghost s = old(entries)@;
    let mut kept: Vec<GroupEntry> = Vec::new();
    let mut k: usize = 0;
    assert(s.skip(0) =~= s);
    assert(s.take(0).filter(other_entry(provider_id@)) =~= Seq::<GroupEntry>::empty()) by {
        reveal(Seq::filter);
    }
    let n: usize = entries.len();
    while entries.len() > 0
        invariant
            k <= s.len(),
            s.len() == n,
            entries@ == s.skip(k as int),
            kept@ == renumbered(s.take(k as int).filter(other_entry(provider_id@))),
        decreases entries.len(),
    {
        let mut e = entries.remove(0);
        let ghost f0 = s.take(k as int).filter(other_entry(provider_id@));
        assert(s.take(k + 1).drop_last() =~= s.take(k as int));
        assert(s.skip(k as int).drop_first() =~= s.skip(k + 1));
        proof {
            reveal(Seq::filter);
        }
        if !str_eq(e.provider_id.as_str(), provider_id) {
            let place = kept.len();
            proof {
                s.take(k as int).lemma_filter_len(other_entry(provider_id@));
            }
            e.priority = #[verifier::truncate] ((place + 1) as u32);
            kept.push(e);
            assert(kept@ =~= renumbered(f0.push(s[k as int])));
        }
        k = k + 1;
    }
    assert(s.take(k as int) =~= s);
    *entries = kept;
}

/// Two groups that agree in everything but their entries.
pub open spec fn same_but_entries(a: Group, b: Group) -> bool {
    &&& a.id == b.id
    &&& a.alias == b.alias
    &&& a.display_name == b.display_name
    &&& a.failover_config == b.failover_config
    &&& a.aggregation_config == b.aggregation_config
}

/// Drops, from every group, the entries that route to a deleted provider,
/// and renumbers each group's remaining entries from 1.
pub fn strip_provider_entries(groups: &mut Vec<Group>, provider_id: &str)
    ensures
        final(groups)@.len() == old(groups)@.len(),
        forall|i: int| 0 <= i < old(groups)@.len() ==> same_but_entries(#[trigger] final(groups)@[i], old(groups)@[i])
            && final(groups)@[i].entries@ == entries_without(old(groups)@[i].entries@, provider_id@),
{
    let mut i: usize = 0;
    while i < groups.len()
        invariant
            i <= groups@.len(),
            groups@.len() == old(groups)@.len(),
            forall|j: int| 0 <= j < i ==> same_but_entries(#[trigger] groups@[j], old(groups)@[j])
                && groups@[j].entries@ == entries_without(old(groups)@[j].entries@, provider_id@),
            forall|j: int| i <= j < groups@.len() ==> #[trigger] groups@[j] == old(groups)@[j],
        decreases groups.len() - i,
    {
        let ghost before = groups@;
        let mut g = groups.remove(i);
        entries_without_exec(&mut g.entries, provider_id);
        groups.insert(i, g);
        assert forall|j: int| 0 <= j < groups@.len() && j != i implies #[trigger] groups@[j] == before[j] by {
            if j < i {
                assert(groups@[j] == before[j]);
            } else {
                assert(groups@[j] == before[j]);
            }
        }
        i = i + 1;
    }
}

/// Deleting a provider leaves nothing that names it: no provider has its id
/// and no group entry routes to it; each group's entries are numbered
/// 1, 2, ... in order.
pub proof fn law_deleted_provider_leaves_no_reference(providers: Seq<Provider>, groups: Seq<Group>, provider_id: Seq<char>)
    ensures
        forall|i: int| 0 <= i < providers.filter(other_provider(provider_id)).len()
            ==> (#[trigger] providers.filter(other_provider(provider_id))[i]).id@ != provider_id,
        forall|g: int, k: int| 0 <= g < groups.len() && 0 <= k < entries_without(groups[g].entries@, provider_id).len()
            ==> (#[trigger] entries_without(groups[g].entries@, provider_id)[k]).provider_id@ != provider_id
                && entries_without(groups[g].entries@, provider_id)[k].priority == (k + 1) as u32,
{
    broadcast use vstd::seq_lib::group_filter_ensures;
    assert forall|i: int| 0 <= i < providers.filter(other_provider(provider_id)).len()
        implies (#[trigger] providers.filter(other_provider(provider_id))[i]).id@ != provider_id by {
        assert(other_provider(provider_id)(providers.filter(other_provider(provider_id))[i]));
    }
    assert forall|g: int, k: int| 0 <= g < groups.len() && 0 <= k < entries_without(groups[g].entries@, provider_id).len()
        implies (#[trigger] entries_without(groups[g].entries@, provider_id)[k]).provider_id@ != provider_id
            && entries_without(groups[g].entries@, provider_id)[k].priority == (k + 1) as u32 by {
        let f = groups[g].entries@.filter(other_entry(provider_id));
        assert(other_entry(provider_id)(f[k]));
    }
}

} // verus!
