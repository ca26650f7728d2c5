//! Which group a client request goes to, and how it is served: by the
//! group's entries in failover order, or as a Mixture-of-Agents turn.

use vstd::prelude::*;
use crate::json::{JsonValue, get, as_str, get_member, str_of};
use crate::config_models::{Group, agg_enabled};
use crate::seqs::{first_index, lemma_first_index_unique, lemma_first_index_none};
use crate::text::{cat3, str_eq};

verus! {

/// Why a request is refused before any upstream is tried.
pub enum DispatchError {
    /// The request is malformed (400).
    BadRequest(String),
    /// No group has the requested alias (404).
    NotFound(String),
}

/// How a request is served.
#[derive(Clone, Copy, Debug, PartialEq, Eq, Structural)]
pub enum Dispatch {
    /// By the entries of the group at this position, in failover order.
    Failover(usize),
    /// As a Mixture-of-Agents turn of the group at this position.
    MixtureOfAgents(usize),
}

pub open spec fn alias_is(a: Seq<char>) -> spec_fn(Group) -> bool {
    |g: Group| g.alias@ == a
}

/// The view of a dispatch decision.
pub enum DispatchView {
    Failover(int),
    Moa(int),
    BadRequest(Seq<char>),
    NotFound(Seq<char>),
}

/// How a request body is dispatched: it must be a JSON object naming a
/// model (as a string); the model names a group by its alias (the first
/// group with it); a group with enabled aggregation runs as a
/// Mixture-of-Agents turn.
pub open spec fn dispatch_of(body: JsonValue, groups: Seq<Group>) -> DispatchView {
    if !(body is Object) {
        DispatchView::BadRequest("request body must be a JSON object"@)
    } else {
        match str_of(get_member(body, "model"@)) {
            None => DispatchView::BadRequest("missing model field"@),
            Some(model) => match first_index(groups, alias_is(model)) {
                None => DispatchView::NotFound("no group found for model '"@ + model + "'"@),
                Some(i) => if agg_enabled(groups[i]) {
                    DispatchView::Moa(i)
                } else {
                    DispatchView::Failover(i)
                },
            },
        }
    }
}

pub open spec fn dispatch_view(r: Result<Dispatch, DispatchError>) -> DispatchView {
    match r {
        Ok(Dispatch::Failover(i)) => DispatchView::Failover(i as int),
        Ok(Dispatch::MixtureOfAgents(i)) => DispatchView::Moa(i as int),
        Err(DispatchError::BadRequest(m)) => DispatchView::BadRequest(m@),
        Err(DispatchError::NotFound(m)) => DispatchView::NotFound(m@),
    }
}

/// Decides how a request is served; see [`dispatch_of`].
pub fn dispatch_request(body: &JsonValue, groups: &[Group]) -> (r: Result<Dispatch, DispatchError>)
    ensures
        dispatch_view(r) == dispatch_of(*body, groups@),
{
    match body {
        JsonValue::Object(_) => {},
        _ => return Err(DispatchError::BadRequest(String::from_str("request body must be a JSON object"))),
    }
    let model = match as_str(get(body, "model")) {
        Some(m) => m,
        None => return Err(DispatchError::BadRequest(String::from_str("missing model field"))),
    };
    let mut i: usize = 0;
    while i < groups.len()
        invariant
            i <= groups@.len(),
            *body is Object,
            str_of(get_member(*body, "model"@)) == Some(model@),
            forall|j: int| 0 <= j < i ==> !(alias_is(model@))(#[trigger] groups@[j]),
        decreases groups.len() - i,
    {
        if str_eq(groups[i].alias.as_str(), model) {
            proof {
                lemma_first_index_unique(groups@, alias_is(model@), i as int);
            }
            if groups[i].aggregation_enabled() {
                return Ok(Dispatch::MixtureOfAgents(i));
            } else {
                return Ok(Dispatch::Failover(i));
            }
        }
        i = i + 1;
    }
    proof {
        lemma_first_index_none(groups@, alias_is(model@));
    }
    Err(DispatchError::NotFound(cat3("no group found for model '", model, "'")))
}

} // verus!
