//! The store adapter: a typed view over the `proofs` namespace of the host
//! key-value map, modelled as a `Map` from byte sequences to claim records.
//! It is the only path by which the registry is mutated.

use vstd::prelude::*;

use crate::types::ClaimRecord;

verus! {

/// One binding of the registry: a proof and its claim record.
#[derive(Clone, Debug, PartialEq, Eq)]
pub struct ProofEntry {
    pub proof: Vec<u8>,
    pub record: ClaimRecord,
}

/// The registry storage: a keyed store over proof bytes. The entries carry
/// no meaningful order; the store's meaning is the map `self@`.
#[derive(Clone, Debug, PartialEq, Eq)]
pub struct ProofStore {
    pub entries: Vec<ProofEntry>,
}

/// The map denoted by a sequence of entries; a later entry for the same
/// proof shadows an earlier one.
pub open spec fn registry_of(s: Seq<ProofEntry>) -> Map<Seq<u8>, ClaimRecord>
    decreases s.len(),
{
    if s.len() == 0 {
        Map::empty()
    } else {
        registry_of(s.drop_last()).insert(s.last().proof@, s.last().record)
    }
}

/// No two entries bind the same proof.
pub open spec fn distinct_proofs(s: Seq<ProofEntry>) -> bool {
    forall|i: int, j: int|
        0 <= i < j < s.len() ==> s[i].proof@ != s[j].proof@
}

impl View for ProofStore {
    type V = Map<Seq<u8>, ClaimRecord>;

    open spec fn view(&self) -> Map<Seq<u8>, ClaimRecord> {
        registry_of(self.entries@)
    }
}

/// A bound proof occurs among the entries, and conversely.
proof fn lemma_registry_of_contains(s: Seq<ProofEntry>, k: Seq<u8>)
    ensures
        registry_of(s).contains_key(k) <==> exists|i: int|
            0 <= i < s.len() && s[i].proof@ == k,
    decreases s.len(),
{
    if s.len() > 0 {
        lemma_registry_of_contains(s.drop_last(), k);
        if s.last().proof@ == k {
            assert(s[s.len() - 1].proof@ == k);
        } else if registry_of(s).contains_key(k) {
            let i = choose|i: int| 0 <= i < s.drop_last().len() && s.drop_last()[i].proof@ == k;
            assert(s[i].proof@ == k);
        } else if exists|i: int| 0 <= i < s.len() && s[i].proof@ == k {
            let i = choose|i: int| 0 <= i < s.len() && s[i].proof@ == k;
            assert(i < s.len() - 1);
            assert(s.drop_last()[i].proof@ == k);
        }
    }
}

/// With distinct proofs, each entry is the binding the map reports.
proof fn lemma_registry_of_index(s: Seq<ProofEntry>, i: int)
    requires
        distinct_proofs(s),
        0 <= i < s.len(),
    ensures
        registry_of(s).contains_key(s[i].proof@),
        registry_of(s)[s[i].proof@] == s[i].record,
    decreases s.len(),
{
    if i < s.len() - 1 {
        assert(s.drop_last()[i] == s[i]);
        lemma_registry_of_index(s.drop_last(), i);
        assert(s[i].proof@ != s.last().proof@);
    }
}

/// Overwriting the slot that binds `k` with a fresh record for `k` is, on
/// the map, an insert at `k`.
proof fn lemma_registry_of_update(s: Seq<ProofEntry>, i: int, e: ProofEntry)
    requires
        distinct_proofs(s),
        0 <= i < s.len(),
        e.proof@ == s[i].proof@,
    ensures
        registry_of(s.update(i, e)) =~= registry_of(s).insert(e.proof@, e.record),
        distinct_proofs(s.update(i, e)),
    decreases s.len(),
{
    let t = s.update(i, e);
    if i == s.len() - 1 {
        assert(t.drop_last() =~= s.drop_last());
        assert(t.last() == e);
    } else {
        assert(t.drop_last() =~= s.drop_last().update(i, e));
        assert(s.drop_last()[i] == s[i]);
        lemma_registry_of_update(s.drop_last(), i, e);
        assert(t.last() == s.last());
        assert(e.proof@ != s.last().proof@);
    }
}

/// Dropping the slot that binds `k` is, on the map, a removal of `k`.
proof fn lemma_registry_of_remove(s: Seq<ProofEntry>, i: int)
    requires
        distinct_proofs(s),
        0 <= i < s.len(),
    ensures
        registry_of(s.remove(i)) =~= registry_of(s).remove(s[i].proof@),
        distinct_proofs(s.remove(i)),
    decreases s.len(),
{
    let k = s[i].proof@;
    let t = s.remove(i);
    if i == s.len() - 1 {
        assert(t =~= s.drop_last());
        lemma_registry_of_contains(s.drop_last(), k);
        assert(!registry_of(s.drop_last()).contains_key(k));
    } else {
        assert(t.drop_last() =~= s.drop_last().remove(i));
        assert(s.drop_last()[i] == s[i]);
        lemma_registry_of_remove(s.drop_last(), i);
        assert(t.last() == s.last());
        assert(k != s.last().proof@);
    }
}

/// Appending a binding for an unbound proof is, on the map, an insert.
proof fn lemma_registry_of_push(s: Seq<ProofEntry>, e: ProofEntry)
    requires
        distinct_proofs(s),
        forall|i: int| 0 <= i < s.len() ==> s[i].proof@ != e.proof@,
    ensures
        registry_of(s.push(e)) =~= registry_of(s).insert(e.proof@, e.record),
        distinct_proofs(s.push(e)),
{
    assert(s.push(e).drop_last() =~= s);
    assert(s.push(e).last() == e);
    assert forall|i: int, j: int| 0 <= i < j < s.push(e).len() implies s.push(e)[i].proof@
        != s.push(e)[j].proof@ by {
        if j < s.len() {
            assert(s[i].proof@ != s[j].proof@);
        }
    }
}

impl ProofStore {
    /// The representation invariant: no proof is bound twice.
    pub open spec fn wf(self) -> bool {
        distinct_proofs(self.entries@)
    }

    pub fn new() -> (s: ProofStore)
        ensures
            s.wf(),
            s@ == Map::<Seq<u8>, ClaimRecord>::empty(),
    {
        ProofStore { entries: Vec::new() }
    }

    /// The slot binding `key`, if any.
    fn index_of(&self, key: &Vec<u8>) -> (r: Option<usize>)
        ensures
            match r {
                Some(i) => i < self.entries@.len() && self.entries@[i as int].proof@ == key@,
                None => forall|i: int|
                    0 <= i < self.entries@.len() ==> self.entries@[i].proof@ != key@,
            },
    {
        let mut i: usize = 0;
        while i < self.entries.len()
            invariant
                i <= self.entries@.len(),
                forall|j: int| 0 <= j < i ==> self.entries@[j].proof@ != key@,
            decreases self.entries@.len() - i,
        {
            if self.entries[i].proof == *key {
                return Some(i);
            }
            i = i + 1;
        }
        None
    }

    pub fn contains(&self, key: &Vec<u8>) -> (b: bool)
        ensures
            b == self@.contains_key(key@),
    {
        proof {
            lemma_registry_of_contains(self.entries@, key@);
        }
        self.index_of(key).is_some()
    }

    pub fn get(&self, key: &Vec<u8>) -> (r: ClaimRecord)
        requires
            self.wf(),
            self@.contains_key(key@),
        ensures
            r == self@[key@],
    {
        proof {
            lemma_registry_of_contains(self.entries@, key@);
        }
        match self.index_of(key) {
            Some(i) => {
                proof {
                    lemma_registry_of_index(self.entries@, i as int);
                }
                self.entries[i].record
            },
            None => {
                proof {
                    assert(false);
                }
                ClaimRecord { owner: 0, recorded_height: 0 }
            },
        }
    }

    /// Binds `key` to `record`, overwriting any prior binding.
    pub fn insert(&mut self, key: Vec<u8>, record: ClaimRecord)
        requires
            old(self).wf(),
        ensures
            final(self).wf(),
            final(self)@ == old(self)@.insert(key@, record),
    {
        let entry = ProofEntry { proof: key, record };
        match self.index_of(&entry.proof) {
            Some(i) => {
                proof {
                    lemma_registry_of_update(self.entries@, i as int, entry);
                }
                self.entries[i] = entry;
            },
            None => {
                proof {
                    lemma_registry_of_push(self.entries@, entry);
                }
                self.entries.push(entry);
            },
        }
    }

    /// Unbinds `key`; a no-op when `key` is not bound.
    pub fn remove(&mut self, key: &Vec<u8>)
        requires
            old(self).wf(),
        ensures
            final(self).wf(),
            final(self)@ == old(self)@.remove(key@),
    {
        match self.index_of(key) {
            Some(i) => {
                proof {
                    lemma_registry_of_remove(self.entries@, i as int);
                }
                self.entries.remove(i);
            },
            None => {
                proof {
                    lemma_registry_of_contains(self.entries@, key@);
                    assert(self@.remove(key@) =~= self@);
                }
            },
        }
    }
}

} // verus!
