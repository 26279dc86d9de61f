//! The hit registry: a mapping from call-site fingerprints to hit counts.

use vstd::prelude::*;

use crate::fingerprint::Fingerprint;

verus! {

/// The hit count that one more recorded hit produces: counts grow by one and
/// saturate at `usize::MAX` instead of wrapping.
pub open spec fn bump(count: nat) -> nat {
    if count < usize::MAX {
        count + 1
    } else {
        count
    }
}

/// The hit count a registry holds for a call site; zero when the call site
/// has never been recorded.
pub open spec fn count_in(hits: Map<Seq<usize>, nat>, key: Seq<usize>) -> nat {
    if hits.contains_key(key) {
        hits[key]
    } else {
        0
    }
}

/// The abstract effect of recording one hit for the call site `key`.
pub open spec fn one_hit(hits: Map<Seq<usize>, nat>, key: Seq<usize>) -> Map<Seq<usize>, nat> {
    hits.insert(key, bump(count_in(hits, key)))
}

spec fn distinct_keys(keys: Seq<Fingerprint>) -> bool {
    forall|i: int, j: int| 0 <= i < j < keys.len() ==> keys[i]@ != keys[j]@
}

spec fn holds_key(keys: Seq<Fingerprint>, key: Seq<usize>) -> bool {
    exists|i: int| 0 <= i < keys.len() && keys[i]@ == key
}

spec fn index_of(keys: Seq<Fingerprint>, key: Seq<usize>) -> int {
    choose|i: int| 0 <= i < keys.len() && keys[i]@ == key
}

spec fn map_of(keys: Seq<Fingerprint>, counts: Seq<usize>) -> Map<Seq<usize>, nat> {
    Map::new(
        |key: Seq<usize>| holds_key(keys, key),
        |key: Seq<usize>| counts[index_of(keys, key)] as nat,
    )
}

proof fn lemma_index_of_is(keys: Seq<Fingerprint>, i: int, key: Seq<usize>)
    requires
        distinct_keys(keys),
        0 <= i < keys.len(),
        keys[i]@ == key,
    ensures
        holds_key(keys, key),
        index_of(keys, key) == i,
{
    assert(holds_key(keys, key));
    let j = index_of(keys, key);
    assert(0 <= j < keys.len() && keys[j]@ == key);
    if i < j {
        assert(keys[i]@ != keys[j]@);
    } else if j < i {
        assert(keys[j]@ != keys[i]@);
    }
}

/// A record of how many times each call site has been hit. Its abstract
/// value is a finite map from fingerprint sequences to counts; a call site
/// that was never recorded is absent from the map.
pub struct Registry {
    keys: Vec<Fingerprint>,
    counts: Vec<usize>,
}

impl View for Registry {
    type V = Map<Seq<usize>, nat>;

    closed spec fn view(&self) -> Map<Seq<usize>, nat> {
        map_of(self.keys@, self.counts@)
    }
}

impl Registry {
    /// Every call site has exactly one entry, and every entry has its count.
    pub closed spec fn wf(self) -> bool {
        &&& self.keys@.len() == self.counts@.len()
        &&& distinct_keys(self.keys@)
    }

    /// Creates an empty registry: no call site has been hit yet.
    pub fn new() -> (r: Registry)
        ensures
            r.wf(),
            r@ == Map::<Seq<usize>, nat>::empty(),
    {
        let r = Registry { keys: Vec::new(), counts: Vec::new() };
        proof {
            assert(r@ =~= Map::<Seq<usize>, nat>::empty());
        }
        r
    }

    /// The index of the entry for `fp`, if there is one.
    fn find(&self, fp: &Fingerprint) -> (r: Option<usize>)
        ensures
            match r {
                Some(i) => i < self.keys@.len() && self.keys@[i as int]@ == fp@,
                None => forall|j: int| 0 <= j < self.keys@.len() ==> self.keys@[j]@ != fp@,
            },
    {
        let mut i: usize = 0;
        while i < self.keys.len()
            invariant
                i <= self.keys@.len(),
                forall|j: int| 0 <= j < i ==> self.keys@[j]@ != fp@,
            decreases self.keys@.len() - i,
        {
            if self.keys[i].matches(fp) {
                return Some(i);
            }
            i = i + 1;
        }
        None
    }

    /// Records one hit for the call site `fp` and returns the hit count
    /// after the hit: one on the first record for `fp`, and one more than
    /// before on every later record, saturating at `usize::MAX`.
    pub fn record_and_get(&mut self, fp: Fingerprint) -> (count: usize)
        requires
            old(self).wf(),
        ensures
            final(self).wf(),
            final(self)@ == one_hit(old(self)@, fp@),
            count as nat == bump(count_in(old(self)@, fp@)),
    {
        match self.find(&fp) {
            Some(i) => {
                let c = self.counts[i];
                let count = if c < usize::MAX {
                    c + 1
                } else {
                    c
                };
                self.counts[i] = count;
                proof {
                    self.lemma_bumped_entry(*old(self), i as int, fp@, count);
                }
                count
            },
            None => {
                self.keys.push(fp);
                self.counts.push(1);
                proof {
                    self.lemma_fresh_entry(*old(self), fp@);
                }
                1
            },
        }
    }

    /// After overwriting the count of the entry at `i`, the abstract map is
    /// the old map with that entry's key re-bound.
    proof fn lemma_bumped_entry(self, prev: Registry, i: int, key: Seq<usize>, count: usize)
        requires
            prev.wf(),
            0 <= i < prev.keys@.len(),
            prev.keys@[i]@ == key,
            self.keys@ == prev.keys@,
            self.counts@ == prev.counts@.update(i, count),
            count as nat == bump(prev.counts@[i] as nat),
        ensures
            self.wf(),
            self@ == one_hit(prev@, key),
            count as nat == bump(count_in(prev@, key)),
    {
        lemma_index_of_is(prev.keys@, i, key);
        assert(count_in(prev@, key) == prev.counts@[i] as nat);
        assert forall|k: Seq<usize>| #[trigger] self@.contains_key(k) implies one_hit(
            prev@,
            key,
        ).contains_key(k) && self@[k] == one_hit(prev@, key)[k] by {
            if k == key {
                assert(self@[k] == self.counts@[i] as nat);
            } else {
                let j = index_of(self.keys@, k);
                assert(0 <= j < self.keys@.len() && self.keys@[j]@ == k);
                assert(j != i);
                assert(self@[k] == prev.counts@[j] as nat);
            }
        }
        assert forall|k: Seq<usize>| one_hit(prev@, key).contains_key(
            k,
        ) implies self@.contains_key(k) by {
            if k == key {
                assert(holds_key(self.keys@, k));
            }
        }
        assert(self@ =~= one_hit(prev@, key));
    }

    /// After appending an entry for an unseen key with count one, the
    /// abstract map is the old map with that key bound to one.
    proof fn lemma_fresh_entry(self, prev: Registry, key: Seq<usize>)
        requires
            prev.wf(),
            forall|j: int| 0 <= j < prev.keys@.len() ==> prev.keys@[j]@ != key,
            self.keys@.len() == prev.keys@.len() + 1,
            self.keys@ == prev.keys@.push(self.keys@.last()),
            self.keys@.last()@ == key,
            self.counts@ == prev.counts@.push(1),
        ensures
            self.wf(),
            self@ == one_hit(prev@, key),
            count_in(prev@, key) == 0,
    {
        let n = prev.keys@.len() as int;
        assert forall|i: int, j: int| 0 <= i < j < self.keys@.len() implies self.keys@[i]@
            != self.keys@[j]@ by {
            if j < n {
                assert(prev.keys@[i]@ != prev.keys@[j]@);
            } else {
                assert(self.keys@[i]@ == prev.keys@[i]@);
            }
        }
        assert(!holds_key(prev.keys@, key));
        assert(!prev@.contains_key(key));
        assert forall|k: Seq<usize>| #[trigger] self@.contains_key(k) implies one_hit(
            prev@,
            key,
        ).contains_key(k) && self@[k] == one_hit(prev@, key)[k] by {
            if k == key {
                lemma_index_of_is(self.keys@, n, key);
                assert(self@[k] == self.counts@[n] as nat);
            } else {
                let j = index_of(self.keys@, k);
                assert(0 <= j < self.keys@.len() && self.keys@[j]@ == k);
                assert(j != n);
                assert(prev.keys@[j]@ == k);
                lemma_index_of_is(prev.keys@, j, k);
                assert(holds_key(prev.keys@, k));
                assert(self@[k] == self.counts@[j] as nat);
                assert(self.counts@[j] == prev.counts@[j]);
            }
        }
        assert forall|k: Seq<usize>| one_hit(prev@, key).contains_key(
            k,
        ) implies self@.contains_key(k) by {
            if k == key {
                assert(self.keys@[n]@ == key);
                assert(holds_key(self.keys@, k));
            } else {
                let j = index_of(prev.keys@, k);
                assert(0 <= j < prev.keys@.len() && prev.keys@[j]@ == k);
                assert(self.keys@[j]@ == k);
                assert(holds_key(self.keys@, k));
            }
        }
        assert(self@ =~= one_hit(prev@, key));
    }
}

} // verus!
