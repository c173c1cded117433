//! An ordered mapping from instants to values: at most one value per
//! instant, kept in ascending order of time.

use crate::instant::Instant;
use vstd::prelude::*;

verus! {

/// Every entry is strictly earlier than the entries after it.
pub open spec fn strictly_increasing<V>(s: Seq<(Instant, V)>) -> bool {
    forall|i: int, j: int| 0 <= i < j < s.len() ==> (#[trigger] s[i]).0.before((#[trigger] s[j]).0)
}

/// Some entry of `s` has the key `k`.
pub open spec fn has_key<V>(s: Seq<(Instant, V)>, k: Instant) -> bool {
    exists|i: int| 0 <= i < s.len() && (#[trigger] s[i]).0 == k
}

/// Position of an entry of `s` with the key `k`, where there is one.
pub open spec fn index_of<V>(s: Seq<(Instant, V)>, k: Instant) -> int {
    choose|i: int| 0 <= i < s.len() && (#[trigger] s[i]).0 == k
}

/// The mapping that the entries of `s` spell out.
pub open spec fn as_map<V>(s: Seq<(Instant, V)>) -> Map<Instant, V> {
    Map::new(|k: Instant| has_key(s, k), |k: Instant| s[index_of(s, k)].1)
}

/// The part of the mapping `m` that is at or after `threshold`.
pub open spec fn since<V>(m: Map<Instant, V>, threshold: Instant) -> Map<Instant, V> {
    Map::new(|k: Instant| m.contains_key(k) && threshold.at_or_before(k), |k: Instant| m[k])
}

/// In a strictly increasing sequence the entry at `i` is the only one with
/// its key, so the mapping holds exactly that entry for it.
pub proof fn lemma_entry_in_map<V>(s: Seq<(Instant, V)>, i: int)
    requires
        strictly_increasing(s),
        0 <= i < s.len(),
    ensures
        has_key(s, s[i].0),
        index_of(s, s[i].0) == i,
        as_map(s).contains_key(s[i].0),
        as_map(s)[s[i].0] == s[i].1,
{
    // Two entries with one key would not be strictly increasing.
    assert(index_of(s, s[i].0) == i);
}

/// A later entry put behind a strictly increasing sequence adds its key to
/// the mapping and leaves the rest of it as it was.
pub proof fn lemma_as_map_push<V>(s: Seq<(Instant, V)>, entry: (Instant, V))
    requires
        strictly_increasing(s.push(entry)),
    ensures
        strictly_increasing(s),
        !as_map(s).contains_key(entry.0),
        as_map(s.push(entry)) == as_map(s).insert(entry.0, entry.1),
{
    let longer = s.push(entry);
    let n = s.len() as int;
    assert forall|i: int, j: int| 0 <= i < j < s.len() implies (#[trigger] s[i]).0.before(
        (#[trigger] s[j]).0,
    ) by {
        assert(longer[i].0.before(longer[j].0));
    }
    if has_key(s, entry.0) {
        let j = index_of(s, entry.0);
        assert(longer[j].0.before(longer[n].0));
    }
    assert forall|key: Instant| #[trigger]
        as_map(longer).contains_key(key) == as_map(s).insert(entry.0, entry.1).contains_key(key) by {
        if has_key(s, key) {
            let j = index_of(s, key);
            assert(longer[j].0 == key);
        }
        if has_key(longer, key) {
            assert(index_of(longer, key) <= n);
        }
        assert(longer[n].0 == entry.0);
    }
}

/// A mapping has one strictly increasing sequence of entries only: two such
/// sequences that spell out the same mapping are the same sequence.
pub proof fn lemma_entries_unique<V>(s1: Seq<(Instant, V)>, s2: Seq<(Instant, V)>)
    requires
        strictly_increasing(s1),
        strictly_increasing(s2),
        as_map(s1) == as_map(s2),
    ensures
        s1 == s2,
    decreases s1.len(),
{
    if s1.len() == 0 {
        if s2.len() > 0 {
            lemma_entry_in_map(s2, 0);
        }
    } else {
        // Both end in the entry with the greatest key of the mapping; what
        // stands before it spells out the rest of the mapping.
        let last1 = s1.len() - 1;
        lemma_entry_in_map(s1, last1);
        let last2 = s2.len() - 1;
        lemma_entry_in_map(s2, last2);
        assert(index_of(s1, s2[last2].0) <= last1);
        assert(index_of(s2, s1[last1].0) <= last2);
        assert(s1.drop_last().push(s1[last1]) =~= s1);
        assert(s2.drop_last().push(s2[last2]) =~= s2);
        assert(as_map(s1.drop_last()) =~= as_map(s1).remove(s1[last1].0));
        assert(as_map(s2.drop_last()) =~= as_map(s2).remove(s2[last2].0));
        lemma_entries_unique(s1.drop_last(), s2.drop_last());
    }
}

/// Instants mapped to values of type `V`, in ascending order of time.
#[derive(Debug)]
pub struct TimeMap<V> {
    entries: Vec<(Instant, V)>,
}

impl<V> View for TimeMap<V> {
    type V = Map<Instant, V>;

    open spec fn view(&self) -> Map<Instant, V> {
        as_map(self.entries())
    }
}

impl<V> TimeMap<V> {
    /// The entries in the order in which they are kept.
    pub closed spec fn entries(&self) -> Seq<(Instant, V)> {
        self.entries@
    }

    /// The entries ascend strictly in time, and every key is a supported
    /// instant.
    pub open spec fn wf(&self) -> bool {
        &&& strictly_increasing(self.entries())
        &&& forall|i: int| 0 <= i < self.entries().len() ==> (#[trigger] self.entries()[i]).0.wf()
    }

    /// An empty mapping.
    pub fn new() -> (r: Self)
        ensures
            r.wf(),
            r.entries() == Seq::<(Instant, V)>::empty(),
            r@ == Map::<Instant, V>::empty(),
    {
        TimeMap { entries: Vec::new() }
    }

    /// Number of entries.
    pub fn len(&self) -> (n: usize)
        ensures
            n == self.entries().len(),
    {
        self.entries.len()
    }

    /// Key of the entry at position `i`, counted in ascending order of time.
    pub fn key(&self, i: usize) -> (k: Instant)
        requires
            i < self.entries().len(),
        ensures
            k == self.entries()[i as int].0,
    {
        self.entries[i].0
    }

    /// Value of the entry at position `i`, counted in ascending order of
    /// time.
    pub fn value(&self, i: usize) -> (v: &V)
        requires
            i < self.entries().len(),
        ensures
            *v == self.entries()[i as int].1,
    {
        &self.entries[i].1
    }

    /// Number of entries whose key is strictly before `k`: the position at
    /// which `k` stands or would stand.
    fn position(&self, k: &Instant) -> (i: usize)
        requires
            self.wf(),
        ensures
            i <= self.entries().len(),
            forall|j: int| 0 <= j < i ==> (#[trigger] self.entries()[j]).0.before(*k),
            forall|j: int|
                i <= j < self.entries().len() ==> !(#[trigger] self.entries()[j]).0.before(*k),
    {
        let mut i: usize = self.entries.len();
        while i > 0 && !self.entries[i - 1].0.is_before(k)
            invariant
                i <= self.entries().len(),
                forall|j: int|
                    i <= j < self.entries().len() ==> !(#[trigger] self.entries()[j]).0.before(*k),
            decreases i,
        {
            i = i - 1;
        }
        i
    }

    /// The value stored for `k`, if there is one.
    pub fn get(&self, k: &Instant) -> (r: Option<&V>)
        requires
            self.wf(),
        ensures
            r == (if self@.contains_key(*k) {
                Some(&self@[*k])
            } else {
                None
            }),
    {
        let i: usize = self.position(k);
        if i < self.entries.len() && self.entries[i].0 == *k {
            Some(&self.entries[i].1)
        } else {
            proof {
                // An entry with this key could only stand at position `i`.
                if has_key(self.entries(), *k) {
                    assert(index_of(self.entries(), *k) == i);
                }
            }
            None
        }
    }

    /// Stores `v` for `k`, in place of any value stored for `k` before.
    pub fn insert(&mut self, k: Instant, v: V)
        requires
            old(self).wf(),
            k.wf(),
        ensures
            final(self).wf(),
            final(self)@ == old(self)@.insert(k, v),
    {
        let i: usize = self.position(&k);
        let ghost before = self.entries();
        if i < self.entries.len() && self.entries[i].0 == k {
            self.entries[i] = (k, v);
            proof {
                let after = self.entries();
                assert forall|key: Instant| #[trigger]
                    self@.contains_key(key) == old(self)@.insert(k, v).contains_key(key) by {
                    // The keys are the same as before, position by position.
                    if has_key(before, key) {
                        assert(after[index_of(before, key)].0 == key);
                    }
                    if has_key(after, key) {
                        assert(before[index_of(after, key)].0 == key);
                    }
                }
            }
        } else {
            self.entries.insert(i, (k, v));
            proof {
                let after = self.entries();
                assert forall|key: Instant| #[trigger]
                    self@.contains_key(key) == old(self)@.insert(k, v).contains_key(key) by {
                    // The entries from position `i` on have moved up by one.
                    if has_key(before, key) {
                        let j = index_of(before, key);
                        let moved = if j < i { j } else { j + 1 };
                        assert(after[moved].0 == key);
                    }
                    if has_key(after, key) {
                        let j = index_of(after, key);
                        let origin = if j < i { j } else { j - 1 };
                        assert(j == i || before[origin].0 == key);
                    }
                    assert(after[i as int].0 == k);
                }
            }
        }
    }

    /// Drops every entry whose key is strictly before `threshold`, and
    /// keeps the others as they are.
    pub fn retain_since(&mut self, threshold: &Instant)
        requires
            old(self).wf(),
        ensures
            final(self).wf(),
            final(self)@ == since(old(self)@, *threshold),
    {
        let i: usize = self.position(threshold);
        let ghost before = self.entries();
        let kept: Vec<(Instant, V)> = self.entries.split_off(i);
        self.entries = kept;
        proof {
            let after = self.entries();
            assert forall|key: Instant| #[trigger]
                self@.contains_key(key) == since(old(self)@, *threshold).contains_key(key) by {
                // The entries from position `i` on have moved down by `i`.
                if has_key(before, key) && threshold.at_or_before(key) {
                    assert(after[index_of(before, key) - i].0 == key);
                }
                if has_key(after, key) {
                    assert(before[index_of(after, key) + i].0 == key);
                }
            }
        }
    }
}

} // verus!
