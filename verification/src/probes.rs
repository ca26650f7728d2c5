//! Probing providers whose entries cool down: the request a probe makes,
//! what its answer means, and the lock that lets at most one probe per
//! entry run at a time.

use vstd::prelude::*;
use crate::failover::{trim_slashes, trimmed_base};
use crate::router::ProbeResult;
use crate::text::{append_str, str_eq, string_from_chars};

verus! {

/// The endpoint a probe asks: the base URL without trailing slashes, then
/// `/v1/models`.
pub fn probe_endpoint(base_url: &str) -> (r: String)
    ensures
        r@ == trim_slashes(base_url@) + "/v1/models"@,
{
    let mut out = trimmed_base(base_url);
    append_str(&mut out, "/v1/models");
    string_from_chars(&out)
}

/// What a probe's answer status means: 429 is still rate-limited, a 2xx a
/// success, anything else an error.
pub open spec fn probe_result_of(status: u16) -> ProbeResult {
    if status == 429 {
        ProbeResult::RateLimited
    } else if 200 <= status <= 299 {
        ProbeResult::Success
    } else {
        ProbeResult::Error
    }
}

/// Classifies a probe's answer status; see [`probe_result_of`].
pub fn probe_result_for_status(status: u16) -> (r: ProbeResult)
    ensures
        r == probe_result_of(status),
{
    if status == 429 {
        ProbeResult::RateLimited
    } else if 200 <= status && status <= 299 {
        ProbeResult::Success
    } else {
        ProbeResult::Error
    }
}

/// The entries with a probe in flight, each key once.
pub struct ProbeLock {
    in_flight: Vec<String>,
}

/// Whether a sequence of keys names no key twice.
pub open spec fn distinct_keys(s: Seq<String>) -> bool {
    forall|i: int, j: int| 0 <= i < j < s.len() ==> (#[trigger] s[i])@ != (#[trigger] s[j])@
}

impl ProbeLock {
    /// The keys with a probe in flight.
    pub closed spec fn view(&self) -> Set<Seq<char>> {
        Set::new(|k: Seq<char>| exists|i: int| 0 <= i < self.in_flight@.len() && (#[trigger] self.in_flight@[i])@ == k)
    }

    /// Each key is held once.
    pub closed spec fn wf(&self) -> bool {
        distinct_keys(self.in_flight@)
    }

    /// A lock with no probe in flight.
    pub fn new() -> (r: Self)
        ensures
            r.wf(),
            r@ == Set::<Seq<char>>::empty(),
    {
        let r = ProbeLock { in_flight: Vec::new() };
        assert(r@ =~= Set::<Seq<char>>::empty());
        r
    }

    fn position(&self, key: &str) -> (r: Option<usize>)
        ensures
            match r {
                Some(i) => i < self.in_flight@.len() && self.in_flight@[i as int]@ == key@,
                None => forall|i: int| 0 <= i < self.in_flight@.len() ==> (#[trigger] self.in_flight@[i])@ != key@,
            },
    {
        let mut i: usize = 0;
        while i < self.in_flight.len()
            invariant
                i <= self.in_flight@.len(),
                forall|j: int| 0 <= j < i ==> (#[trigger] self.in_flight@[j])@ != key@,
            decreases self.in_flight.len() - i,
        {
            if str_eq(self.in_flight[i].as_str(), key) {
                return Some(i);
            }
            i = i + 1;
        }
        None
    }

    /// Registers a probe for `key`: succeeds, and holds the key, exactly when
    /// no probe for it is in flight; otherwise nothing changes.
    pub fn try_acquire(&mut self, key: &str) -> (r: bool)
        requires
            old(self).wf(),
        ensures
            final(self).wf(),
            r == !old(self)@.contains(key@),
            final(self)@ == old(self)@.insert(key@),
    {
        match self.position(key) {
            Some(i) => {
                proof {
                    assert(self@.contains(key@));
                    assert(self@.insert(key@) =~= self@);
                }
                false
            },
            None => {
                let ghost before = self.in_flight@;
                assert(!self@.contains(key@));
                self.in_flight.push(String::from_str(key));
                assert(self@ =~= Set::new(|k: Seq<char>| exists|i: int| 0 <= i < before.len() && (#[trigger] before[i])@ == k).insert(key@)) by {
                    assert forall|k: Seq<char>| self@.contains(k) implies Set::new(|k: Seq<char>| exists|i: int| 0 <= i < before.len() && (#[trigger] before[i])@ == k).insert(key@).contains(k) by {
                        let i = choose|i: int| 0 <= i < self.in_flight@.len() && (#[trigger] self.in_flight@[i])@ == k;
                        if i < before.len() {
                            assert(before[i] == self.in_flight@[i]);
                        }
                    }
                    assert forall|k: Seq<char>| Set::new(|k: Seq<char>| exists|i: int| 0 <= i < before.len() && (#[trigger] before[i])@ == k).insert(key@).contains(k) implies self@.contains(k) by {
                        if k == key@ {
                            assert(self.in_flight@[before.len() as int]@ == k);
                        } else {
                            let i = choose|i: int| 0 <= i < before.len() && (#[trigger] before[i])@ == k;
                            assert(self.in_flight@[i] == before[i]);
                        }
                    }
                }
                true
            },
        }
    }

    /// Ends the probe for `key`: it is no longer in flight.
    pub fn release(&mut self, key: &str)
        requires
            old(self).wf(),
        ensures
            final(self).wf(),
            final(self)@ == old(self)@.remove(key@),
    {
        match self.position(key) {
            None => {
                assert(self@.remove(key@) =~= self@);
            },
            Some(i) => {
                let ghost before = self.in_flight@;
                self.in_flight.remove(i);
                assert(self.in_flight@ =~= before.remove(i as int));
                assert(self@ =~= Set::new(|k: Seq<char>| exists|j: int| 0 <= j < before.len() && (#[trigger] before[j])@ == k).remove(key@)) by {
                    assert forall|k: Seq<char>| self@.contains(k) implies Set::new(|k: Seq<char>| exists|j: int| 0 <= j < before.len() && (#[trigger] before[j])@ == k).remove(key@).contains(k) by {
                        let j = choose|j: int| 0 <= j < self.in_flight@.len() && (#[trigger] self.in_flight@[j])@ == k;
                        if j < i {
                            assert(self.in_flight@[j] == before[j]);
                            assert(before[j]@ != before[i as int]@);
                        } else {
                            assert(self.in_flight@[j] == before[j + 1]);
                            assert(before[i as int]@ != before[j + 1]@);
                        }
                    }
                    assert forall|k: Seq<char>| Set::new(|k: Seq<char>| exists|j: int| 0 <= j < before.len() && (#[trigger] before[j])@ == k).remove(key@).contains(k) implies self@.contains(k) by {
                        let j = choose|j: int| 0 <= j < before.len() && (#[trigger] before[j])@ == k;
                        assert(j != i);
                        if j < i {
                            assert(self.in_flight@[j] == before[j]);
                        } else {
                            assert(self.in_flight@[j - 1] == before[j]);
                        }
                    }
                }
            },
        }
    }
}

/// A probe lock holds each entry's probe once: right after a key is
/// acquired, acquiring it again fails; once released, it can be acquired.
pub proof fn law_one_probe_per_entry(held: Set<Seq<char>>, key: Seq<char>)
    ensures
        held.insert(key).contains(key),
        !held.insert(key).remove(key).contains(key),
{
}

} // verus!
