//! Restoring the day's usage counters from the metrics store when the
//! proxy starts: the totals the store reports for a provider are written
//! into every entry of that provider.

use vstd::prelude::*;
use crate::router::{EntryState, RouterState, RouterView, provider_prefix, set_state};
use crate::text::{chars_of, chars_starts_with, has_prefix, str_eq};

verus! {

/// Which daily counter a set of totals restores.
#[derive(Clone, Copy, Debug, PartialEq, Eq, Structural)]
pub enum DailyCounter {
    Tokens,
    Requests,
}

/// An entry state with one daily counter set.
pub open spec fn with_count(st: EntryState, counter: DailyCounter, n: u64) -> EntryState {
    match counter {
        DailyCounter::Tokens => EntryState { daily_tokens_used: n, ..st },
        DailyCounter::Requests => EntryState { daily_requests_used: n, ..st },
    }
}

/// The total the store's rows give a provider: that of the last row with
/// its id, as writing the rows one after another leaves it.
pub open spec fn last_total(rows: Seq<(String, u64)>, provider_id: Seq<char>) -> Option<u64>
    decreases rows.len(),
{
    if rows.len() == 0 {
        None
    } else if rows.last().0@ == provider_id {
        Some(rows.last().1)
    } else {
        last_total(rows.drop_last(), provider_id)
    }
}

/// The router state once a provider's total is restored: every entry whose
/// key starts with the provider's id and `:` gets it.
pub open spec fn restored(v: RouterView, provider_id: Seq<char>, total: Option<u64>, counter: DailyCounter, i: int) -> EntryState {
    match total {
        Some(n) if has_prefix(v[i].0, provider_prefix(provider_id)) => with_count(v[i].1, counter, n),
        _ => v[i].1,
    }
}

fn last_total_exec(rows: &Vec<(String, u64)>, provider_id: &str) -> (r: Option<u64>)
    ensures
        r == last_total(rows@, provider_id@),
{
    let mut k: usize = 0;
    let mut found: Option<u64> = None;
    while k < rows.len()
        invariant
            k <= rows@.len(),
            found == last_total(rows@.take(k as int), provider_id@),
        decreases rows.len() - k,
    {
        assert(rows@.take(k + 1).drop_last() =~= rows@.take(k as int));
        if str_eq(rows[k].0.as_str(), provider_id) {
            found = Some(rows[k].1);
        }
        k = k + 1;
    }
    assert(rows@.take(rows@.len() as int) =~= rows@);
    found
}

/// Restores one provider's daily counter from the store's rows (pairs of
/// provider id and total): when a row names the provider, the last such
/// row's total is written into every entry of the provider; keys and all
/// other fields stay.
pub fn restore_daily_totals(state: &mut RouterState, provider_id: &str, rows: &Vec<(String, u64)>, counter: DailyCounter)
    requires
        old(state).wf(),
    ensures
        final(state).wf(),
        final(state)@.len() == old(state)@.len(),
        forall|i: int| 0 <= i < old(state)@.len() ==> (#[trigger] final(state)@[i]).0 == old(state)@[i].0
            && final(state)@[i].1 == restored(old(state)@, provider_id@, last_total(rows@, provider_id@), counter, i),
{
    let total = last_total_exec(rows, provider_id);
    let n = match total {
        Some(n) => n,
        None => return,
    };
    let mut prefix = chars_of(provider_id);
    prefix.push(':');
    proof {
        assert(prefix@ =~= provider_prefix(provider_id@)) by {
            reveal_strlit(":");
        }
    }
    let ghost v0 = state@;
    let mut i: usize = 0;
    while i < state.entries.len()
        invariant
            i <= state@.len(),
            state@.len() == v0.len(),
            state.entries@.len() == v0.len(),
            state.wf(),
            prefix@ == provider_prefix(provider_id@),
            total == Some(n),
            total == last_total(rows@, provider_id@),
            forall|j: int| 0 <= j < v0.len() ==> (#[trigger] state@[j]).0 == v0[j].0,
            forall|j: int| 0 <= j < i ==> (#[trigger] state@[j]).1 == restored(v0, provider_id@, total, counter, j),
            forall|j: int| i <= j < v0.len() ==> (#[trigger] state@[j]).1 == v0[j].1,
        decreases state.entries.len() - i,
    {
        let key = chars_of(state.entries[i].0.as_str());
        if chars_starts_with(&key, &prefix) {
            let st = state.entries[i].1;
            let st2 = match counter {
                DailyCounter::Tokens => EntryState { daily_tokens_used: n, ..st },
                DailyCounter::Requests => EntryState { daily_requests_used: n, ..st },
            };
            let ghost before = state@;
            set_state(state, i, st2);
            assert forall|j: int| 0 <= j < state@.len() implies crate::router::backoff_bounded(#[trigger] state@[j].1) by {
                if j != i {
                    assert(state@[j] == before[j]);
                }
            }
        }
        i = i + 1;
    }
}

} // verus!
