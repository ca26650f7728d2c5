//! The credentials file used when no system keyring answers: a JSON object
//! from provider id to API key, read, changed and written back whole.

use vstd::prelude::*;
use crate::json::JsonValue;
use crate::text::str_eq;

verus! {

/// The map that `(id, key)` pairs describe, later pairs overriding earlier
/// ones with the same id.
pub open spec fn pairs_map(s: Seq<(String, String)>) -> Map<Seq<char>, Seq<char>>
    decreases s.len(),
{
    if s.len() == 0 {
        Map::empty()
    } else {
        pairs_map(s.drop_last()).insert(s.last().0@, s.last().1@)
    }
}

/// No id occurs twice.
pub open spec fn distinct_ids(s: Seq<(String, String)>) -> bool {
    forall|i: int, j: int| 0 <= i < j < s.len() ==> (#[trigger] s[i]).0@ != (#[trigger] s[j]).0@
}

/// The credentials a JSON object holds: `None` when a member is not a
/// string; later members override earlier ones with the same key.
pub open spec fn members_creds(ms: Seq<(String, JsonValue)>) -> Option<Map<Seq<char>, Seq<char>>>
    decreases ms.len(),
{
    if ms.len() == 0 {
        Some(Map::empty())
    } else {
        match (members_creds(ms.drop_last()), ms.last().1) {
            (Some(m), JsonValue::Str(v)) => Some(m.insert(ms.last().0@, v@)),
            _ => None,
        }
    }
}

/// The credentials a stored JSON document holds, as a map from id to key
/// read with `serde_json` gives them: none at all unless it is an object of
/// strings.
pub open spec fn json_creds(v: JsonValue) -> Map<Seq<char>, Seq<char>> {
    match v {
        JsonValue::Object(ms) => match members_creds(ms@) {
            Some(m) => m,
            None => Map::empty(),
        },
        _ => Map::empty(),
    }
}

proof fn lemma_pairs_map_lookup(s: Seq<(String, String)>)
    requires
        distinct_ids(s),
    ensures
        forall|i: int| 0 <= i < s.len() ==> pairs_map(s).contains_key((#[trigger] s[i]).0@) && pairs_map(s)[s[i].0@] == s[i].1@,
        forall|k: Seq<char>| #[trigger] pairs_map(s).contains_key(k) ==> exists|i: int| 0 <= i < s.len() && (#[trigger] s[i]).0@ == k,
    decreases s.len(),
{
    if s.len() > 0 {
        let d = s.drop_last();
        assert(distinct_ids(d)) by {
            assert forall|i: int, j: int| 0 <= i < j < d.len() implies (#[trigger] d[i]).0@ != (#[trigger] d[j]).0@ by {
                assert(d[i] == s[i] && d[j] == s[j]);
            }
        }
        lemma_pairs_map_lookup(d);
        assert forall|i: int| 0 <= i < s.len() implies pairs_map(s).contains_key((#[trigger] s[i]).0@) && pairs_map(s)[s[i].0@] == s[i].1@ by {
            if i < s.len() - 1 {
                assert(d[i] == s[i]);
                assert(pairs_map(d).contains_key(d[i].0@) && pairs_map(d)[d[i].0@] == d[i].1@);
                assert(s[i].0@ != s[s.len() - 1].0@);
            }
        }
        assert forall|k: Seq<char>| #[trigger] pairs_map(s).contains_key(k) implies exists|i: int| 0 <= i < s.len() && (#[trigger] s[i]).0@ == k by {
            if k == s.last().0@ {
                assert(s[s.len() - 1].0@ == k);
            } else {
                assert(pairs_map(d).contains_key(k));
                let i = choose|i: int| 0 <= i < d.len() && (#[trigger] d[i]).0@ == k;
                assert(s[i] == d[i]);
            }
        }
    }
}

proof fn lemma_pairs_map_update(s: Seq<(String, String)>, i: int, p: (String, String))
    requires
        distinct_ids(s),
        0 <= i < s.len(),
        p.0@ == s[i].0@,
    ensures
        pairs_map(s.update(i, p)) == pairs_map(s).insert(p.0@, p.1@),
    decreases s.len(),
{
    let u = s.update(i, p);
    let d = s.drop_last();
    if i == s.len() - 1 {
        assert(u.drop_last() =~= d);
        assert(pairs_map(u) =~= pairs_map(s).insert(p.0@, p.1@));
    } else {
        assert(distinct_ids(d)) by {
            assert forall|a: int, b: int| 0 <= a < b < d.len() implies (#[trigger] d[a]).0@ != (#[trigger] d[b]).0@ by {
                assert(d[a] == s[a] && d[b] == s[b]);
            }
        }
        lemma_pairs_map_update(d, i, p);
        assert(u.drop_last() =~= d.update(i, p));
        assert(s[i].0@ != s[s.len() - 1].0@);
        assert(pairs_map(u) =~= pairs_map(s).insert(p.0@, p.1@));
    }
}

proof fn lemma_pairs_map_remove(s: Seq<(String, String)>, i: int)
    requires
        distinct_ids(s),
        0 <= i < s.len(),
    ensures
        pairs_map(s.remove(i)) == pairs_map(s).remove(s[i].0@),
    decreases s.len(),
{
    let d = s.drop_last();
    assert(distinct_ids(d)) by {
        assert forall|a: int, b: int| 0 <= a < b < d.len() implies (#[trigger] d[a]).0@ != (#[trigger] d[b]).0@ by {
            assert(d[a] == s[a] && d[b] == s[b]);
        }
    }
    lemma_pairs_map_lookup(d);
    if i == s.len() - 1 {
        assert(s.remove(i) =~= d);
        assert(!pairs_map(d).contains_key(s[i].0@)) by {
            if pairs_map(d).contains_key(s[i].0@) {
                let j = choose|j: int| 0 <= j < d.len() && (#[trigger] d[j]).0@ == s[i].0@;
                assert(d[j] == s[j]);
            }
        }
        assert(pairs_map(s.remove(i)) =~= pairs_map(s).remove(s[i].0@));
    } else {
        lemma_pairs_map_remove(d, i);
        assert(s.remove(i).drop_last() =~= d.remove(i));
        assert(s.remove(i).last() == s.last());
        assert(s[i].0@ != s[s.len() - 1].0@);
        assert(d[i] == s[i]);
        assert(pairs_map(s.remove(i)) =~= pairs_map(s).remove(s[i].0@));
    }
}

/// The credentials of the fallback file, each provider id once.
pub struct CredentialFile {
    entries: Vec<(String, String)>,
}

impl CredentialFile {
    /// The credentials, from provider id to API key.
    pub closed spec fn view(&self) -> Map<Seq<char>, Seq<char>> {
        pairs_map(self.entries@)
    }

    /// Each provider id is held once.
    pub closed spec fn wf(&self) -> bool {
        distinct_ids(self.entries@)
    }

    /// A file with no credentials.
    pub fn new() -> (r: Self)
        ensures
            r.wf(),
            r@ == Map::<Seq<char>, Seq<char>>::empty(),
    {
        CredentialFile { entries: Vec::new() }
    }

    fn position(&self, id: &str) -> (r: Option<usize>)
        requires
            self.wf(),
        ensures
            match r {
                Some(i) => i < self.entries@.len() && self.entries@[i as int].0@ == id@,
                None => !self@.contains_key(id@),
            },
    {
        let mut i: usize = 0;
        while i < self.entries.len()
            invariant
                i <= self.entries@.len(),
                forall|j: int| 0 <= j < i ==> (#[trigger] self.entries@[j]).0@ != id@,
            decreases self.entries.len() - i,
        {
            if str_eq(self.entries[i].0.as_str(), id) {
                return Some(i);
            }
            i = i + 1;
        }
        proof {
            lemma_pairs_map_lookup(self.entries@);
            if self@.contains_key(id@) {
                let j = choose|j: int| 0 <= j < self.entries@.len() && (#[trigger] self.entries@[j]).0@ == id@;
            }
        }
        None
    }

    /// The key stored for a provider, or `Credential not found`.
    pub fn get(&self, provider_id: &str) -> (r: Result<String, String>)
        requires
            self.wf(),
        ensures
            match r {
                Ok(k) => self@.contains_key(provider_id@) && self@[provider_id@] == k@,
                Err(m) => !self@.contains_key(provider_id@) && m@ == "Credential not found"@,
            },
    {
        match self.position(provider_id) {
            Some(i) => {
                proof {
                    lemma_pairs_map_lookup(self.entries@);
                    assert(self.entries@[i as int].0@ == provider_id@);
                }
                Ok(self.entries[i].1.clone())
            },
            None => Err(String::from_str("Credential not found")),
        }
    }

    /// Stores a provider's key, replacing any it had.
    pub fn store(&mut self, provider_id: &str, api_key: &str)
        requires
            old(self).wf(),
        ensures
            final(self).wf(),
            final(self)@ == old(self)@.insert(provider_id@, api_key@),
    {
        let pair = (String::from_str(provider_id), String::from_str(api_key));
        match self.position(provider_id) {
            Some(i) => {
                proof {
                    lemma_pairs_map_update(self.entries@, i as int, pair);
                }
                let ghost before = self.entries@;
                self.entries.set(i, pair);
                assert(distinct_ids(self.entries@)) by {
                    assert forall|a: int, b: int| 0 <= a < b < self.entries@.len() implies (#[trigger] self.entries@[a]).0@ != (#[trigger] self.entries@[b]).0@ by {
                        assert(before[a].0@ != before[b].0@);
                    }
                }
            },
            None => {
                proof {
                    lemma_pairs_map_lookup(self.entries@);
                }
                let ghost before = self.entries@;
                self.entries.push(pair);
                assert(self.entries@.drop_last() =~= before);
                assert(distinct_ids(self.entries@)) by {
                    assert forall|a: int, b: int| 0 <= a < b < self.entries@.len() implies (#[trigger] self.entries@[a]).0@ != (#[trigger] self.entries@[b]).0@ by {
                        if b == before.len() {
                            assert(pairs_map(before).contains_key(before[a].0@));
                        } else {
                            assert(before[a].0@ != before[b].0@);
                        }
                    }
                }
            },
        }
    }

    /// Forgets a provider's key.
    pub fn remove(&mut self, provider_id: &str)
        requires
            old(self).wf(),
        ensures
            final(self).wf(),
            final(self)@ == old(self)@.remove(provider_id@),
    {
        match self.position(provider_id) {
            Some(i) => {
                proof {
                    lemma_pairs_map_remove(self.entries@, i as int);
                }
                let ghost before = self.entries@;
                self.entries.remove(i);
                assert(self.entries@ =~= before.remove(i as int));
                assert(distinct_ids(self.entries@)) by {
                    assert forall|a: int, b: int| 0 <= a < b < self.entries@.len() implies (#[trigger] self.entries@[a]).0@ != (#[trigger] self.entries@[b]).0@ by {
                        let a0 = if a < i { a } else { a + 1 };
                        let b0 = if b < i { b } else { b + 1 };
                        assert(self.entries@[a] == before[a0]);
                        assert(self.entries@[b] == before[b0]);
                        assert(before[a0].0@ != before[b0].0@);
                    }
                }
            },
            None => {
                assert(self@.remove(provider_id@) =~= self@);
            },
        }
    }

    /// The credentials a stored document holds; see [`json_creds`].
    pub fn from_json(v: &JsonValue) -> (r: Self)
        ensures
            r.wf(),
            r@ == json_creds(*v),
    {
        match v {
            JsonValue::Object(ms) => {
                let mut f = CredentialFile::new();
                let mut i: usize = 0;
                while i < ms.len()
                    invariant
                        i <= ms@.len(),
                        f.wf(),
                        members_creds(ms@.take(i as int)) == Some(f@),
                        members_creds(ms@) is None ==> json_creds(*v) == Map::<Seq<char>, Seq<char>>::empty(),
                    decreases ms.len() - i,
                {
                    assert(ms@.take(i + 1).drop_last() =~= ms@.take(i as int));
                    match &ms[i].1 {
                        JsonValue::Str(s) => {
                            f.store(ms[i].0.as_str(), s.as_str());
                        },
                        _ => {
                            proof {
                                lemma_members_creds_none(ms@, i as int);
                            }
                            return CredentialFile::new();
                        },
                    }
                    i = i + 1;
                }
                assert(ms@.take(ms@.len() as int) =~= ms@);
                f
            },
            _ => CredentialFile::new(),
        }
    }

    /// The document to store: an object of the ids and their keys.
    pub fn to_json(&self) -> (r: JsonValue)
        requires
            self.wf(),
        ensures
            json_creds(r) == self@,
    {
        let mut ms: Vec<(String, JsonValue)> = Vec::new();
        let mut i: usize = 0;
        while i < self.entries.len()
            invariant
                i <= self.entries@.len(),
                ms@.len() == i,
                members_creds(ms@) == Some(pairs_map(self.entries@.take(i as int))),
            decreases self.entries.len() - i,
        {
            let ghost before = ms@;
            ms.push((self.entries[i].0.clone(), JsonValue::Str(self.entries[i].1.clone())));
            assert(ms@.drop_last() =~= before);
            assert(self.entries@.take(i + 1).drop_last() =~= self.entries@.take(i as int));
            i = i + 1;
        }
        assert(self.entries@.take(self.entries@.len() as int) =~= self.entries@);
        JsonValue::Object(ms)
    }
}

proof fn lemma_members_creds_none(ms: Seq<(String, JsonValue)>, i: int)
    requires
        0 <= i < ms.len(),
        !(ms[i].1 is Str),
    ensures
        members_creds(ms) is None,
    decreases ms.len(),
{
    if i < ms.len() - 1 {
        lemma_members_creds_none(ms.drop_last(), i);
    }
}

/// What the credentials file promises of `store`, `remove` and `get`
/// together: the key read back after it is stored is the key stored, and a
/// forgotten key is not found, whatever else the file holds. (That a
/// written document reads back as the same credentials is what
/// [`CredentialFile::to_json`] and [`CredentialFile::from_json`] state.)
pub proof fn law_credentials_read_back(creds: Map<Seq<char>, Seq<char>>, id: Seq<char>, key: Seq<char>, other: Seq<char>)
    ensures
        creds.insert(id, key).contains_key(id) && creds.insert(id, key)[id] == key,
        !creds.remove(id).contains_key(id),
        other != id ==> creds.insert(id, key).remove(other).contains_key(id),
{
}

} // verus!
