//! A key/value map with string keys, the uniform shape of every data and
//! annotation map the engine touches.
//!
//! The map is kept as a vector of entries with pairwise-distinct keys; its
//! mathematical view is a `Map<Seq<char>, _>`.  Iteration order is the
//! entry order, which no contract of the engine relies on beyond "each
//! entry exactly once".

use vstd::prelude::*;

verus! {

/// One entry of a [`KvMap`].
pub struct KvEntry<V> {
    pub key: String,
    pub value: V,
}

/// The map denoted by a sequence of entries; a later entry overrides an
/// earlier one with the same key.
pub open spec fn entries_map<V: View>(s: Seq<KvEntry<V>>) -> Map<Seq<char>, V::V>
    decreases s.len(),
{
    if s.len() == 0 {
        Map::empty()
    } else {
        entries_map(s.drop_last()).insert(s.last().key@, s.last().value@)
    }
}

/// Pairwise-distinct keys.
pub open spec fn distinct_keys<V: View>(s: Seq<KvEntry<V>>) -> bool {
    forall|i: int, j: int| 0 <= i < j < s.len() ==> s[i].key@ != s[j].key@
}

/// Every key of the sequence is a key of its map, with the value of its
/// last occurrence; with distinct keys, of its only occurrence.
pub proof fn lemma_entries_map_index<V: View>(s: Seq<KvEntry<V>>, i: int)
    requires
        distinct_keys(s),
        0 <= i < s.len(),
    ensures
        entries_map(s).contains_key(s[i].key@),
        entries_map(s)[s[i].key@] == s[i].value@,
    decreases s.len(),
{
    if i == s.len() - 1 {
    } else {
        assert(s.drop_last()[i] == s[i]);
        lemma_entries_map_index(s.drop_last(), i);
        assert(s[s.len() - 1].key@ != s[i].key@);
    }
}

/// A key that occurs in no entry is not a key of the map.
pub proof fn lemma_entries_map_absent<V: View>(s: Seq<KvEntry<V>>, k: Seq<char>)
    requires
        forall|i: int| 0 <= i < s.len() ==> s[i].key@ != k,
    ensures
        !entries_map(s).contains_key(k),
    decreases s.len(),
{
    if s.len() > 0 {
        assert(forall|i: int|
            0 <= i < s.drop_last().len() ==> #[trigger] s.drop_last()[i].key@ != k);
        lemma_entries_map_absent(s.drop_last(), k);
    }
}

/// The domain of the map is exactly the set of keys of the entries.
pub proof fn lemma_entries_map_domain<V: View>(s: Seq<KvEntry<V>>, k: Seq<char>)
    ensures
        entries_map(s).contains_key(k) <==> exists|i: int| 0 <= i < s.len() && s[i].key@ == k,
    decreases s.len(),
{
    if s.len() > 0 {
        lemma_entries_map_domain(s.drop_last(), k);
        if entries_map(s).contains_key(k) && s.last().key@ != k {
            let i = choose|i: int| 0 <= i < s.drop_last().len() && s.drop_last()[i].key@ == k;
            assert(s[i].key@ == k);
        }
        if exists|i: int| 0 <= i < s.len() && s[i].key@ == k {
            let i = choose|i: int| 0 <= i < s.len() && s[i].key@ == k;
            if i < s.len() - 1 {
                assert(s.drop_last()[i].key@ == k);
            }
        }
    }
}

/// Removing the (distinct-keyed) occurrence of a key from the entries
/// removes exactly that key from the map.
pub proof fn lemma_entries_map_remove<V: View>(s: Seq<KvEntry<V>>, i: int)
    requires
        distinct_keys(s),
        0 <= i < s.len(),
    ensures
        entries_map(s.remove(i)) =~= entries_map(s).remove(s[i].key@),
    decreases s.len(),
{
    let k = s[i].key@;
    if i == s.len() - 1 {
        assert(s.remove(i) =~= s.drop_last());
        lemma_entries_map_absent(s.drop_last(), k);
        assert(entries_map(s.drop_last()) =~= entries_map(s.drop_last()).remove(k));
    } else {
        let t = s.drop_last();
        assert(s.remove(i).drop_last() =~= t.remove(i));
        assert(t[i] == s[i]);
        lemma_entries_map_remove(t, i);
        assert(s.remove(i).last() == s.last());
        assert(s.last().key@ != k);
    }
}

/// A key/value map with string keys, the uniform view of a data or
/// annotation map.
pub struct KvMap<V> {
    pub entries: Vec<KvEntry<V>>,
}

impl<V: View> View for KvMap<V> {
    type V = Map<Seq<char>, V::V>;

    open spec fn view(&self) -> Map<Seq<char>, V::V> {
        entries_map(self.entries@)
    }
}

impl<V: View> KvMap<V> {
    /// The entries as a sequence, for contracts that speak of iteration.
    pub open spec fn entry_seq(&self) -> Seq<KvEntry<V>> {
        self.entries@
    }

    /// Well-formed: pairwise-distinct keys.
    pub open spec fn wf(&self) -> bool {
        distinct_keys(self.entries@)
    }

    /// The empty map.
    pub fn new() -> (r: Self)
        ensures
            r@ == Map::<Seq<char>, V::V>::empty(),
            r.wf(),
            r.entry_seq().len() == 0,
    {
        KvMap { entries: Vec::new() }
    }

    /// How many entries the map holds.
    pub fn len(&self) -> (r: usize)
        ensures
            r == self.entry_seq().len(),
    {
        self.entries.len()
    }

    /// The entry at a position of the iteration order.
    pub fn entry_at(&self, i: usize) -> (r: (&String, &V))
        requires
            i < self.entry_seq().len(),
        ensures
            r.0@ == self.entry_seq()[i as int].key@,
            r.1 == &self.entry_seq()[i as int].value,
    {
        let e = &self.entries[i];
        (&e.key, &e.value)
    }

    /// The position of a key in the iteration order, if it is present.
    fn position(&self, key: &String) -> (r: Option<usize>)
        requires
            self.wf(),
        ensures
            match r {
                Some(i) => i < self.entry_seq().len() && self.entry_seq()[i as int].key@ == key@,
                None => !self@.contains_key(key@),
            },
    {
        let n = self.entries.len();
        let mut i: usize = 0;
        while i < n
            invariant
                n == self.entry_seq().len(),
                i <= n,
                forall|j: int| 0 <= j < i ==> self.entry_seq()[j].key@ != key@,
            decreases n - i,
        {
            if self.entries[i].key == *key {
                return Some(i);
            }
            i = i + 1;
        }
        proof {
            lemma_entries_map_absent(self.entry_seq(), key@);
        }
        None
    }

    /// The value under a key, if the key is present.
    pub fn get<'a>(&'a self, key: &String) -> (r: Option<&'a V>)
        requires
            self.wf(),
        ensures
            match r {
                Some(v) => self@.contains_key(key@) && v@ == self@[key@] && exists|i: int|
                    #![auto]
                    0 <= i < self.entry_seq().len() && *v == self.entry_seq()[i].value,
                None => !self@.contains_key(key@),
            },
    {
        match self.position(key) {
            Some(i) => {
                proof {
                    lemma_entries_map_index(self.entry_seq(), i as int);
                }
                Some(&self.entries[i].value)
            },
            None => None,
        }
    }

    /// Whether a key is present.
    pub fn contains_key(&self, key: &String) -> (r: bool)
        requires
            self.wf(),
        ensures
            r == self@.contains_key(key@),
    {
        match self.get(key) {
            Some(_) => true,
            None => false,
        }
    }

    /// Removes a key, returning its value if it was present.
    pub fn remove(&mut self, key: &String) -> (r: Option<V>)
        requires
            old(self).wf(),
        ensures
            final(self).wf(),
            final(self)@ == old(self)@.remove(key@),
            match r {
                Some(v) => old(self)@.contains_key(key@) && v@ == old(self)@[key@] && exists|
                    i: int,
                |
                    #![auto]
                    0 <= i < old(self).entry_seq().len() && v == old(self).entry_seq()[i].value
                        && final(self).entry_seq() == old(self).entry_seq().remove(i),
                None => !old(self)@.contains_key(key@) && final(self).entry_seq() == old(
                    self,
                ).entry_seq(),
            },
            final(self).entry_seq().len() <= old(self).entry_seq().len(),
    {
        match self.position(key) {
            Some(i) => {
                proof {
                    lemma_entries_map_index(self.entry_seq(), i as int);
                    lemma_entries_map_remove(self.entry_seq(), i as int);
                }
                let e = self.entries.remove(i);
                Some(e.value)
            },
            None => {
                proof {
                    assert(entries_map(self.entry_seq()) =~= entries_map(self.entry_seq()).remove(
                        key@,
                    ));
                }
                None
            },
        }
    }

    /// Upserts: binds the key to the value, replacing any earlier binding.
    pub fn insert(&mut self, key: String, value: V)
        requires
            old(self).wf(),
        ensures
            final(self).wf(),
            final(self)@ == old(self)@.insert(key@, value@),
            final(self)@.dom() == old(self)@.dom().insert(key@),
            final(self).entry_seq().len() <= old(self).entry_seq().len() + 1,
            forall|i: int|
                0 <= i < final(self).entry_seq().len() ==> (#[trigger] final(self).entry_seq()[
                    i
                ]).value == value || exists|j: int|
                    #![auto]
                    0 <= j < old(self).entry_seq().len() && final(self).entry_seq()[i].value == old(
                        self,
                    ).entry_seq()[j].value,
    {
        let ghost s0 = self.entry_seq();
        let ghost m0 = self@;
        let rm = self.remove(&key);
        let ghost s1 = self.entry_seq();
        proof {
            assert forall|i: int| 0 <= i < s1.len() implies exists|j: int|
                #![auto]
                0 <= j < s0.len() && (#[trigger] s1[i]).value == s0[j].value by {
                if rm is Some {
                    let idx = choose|idx: int| #![auto] 0 <= idx < s0.len() && s1 == s0.remove(idx);
                    if i < idx {
                        assert(s1[i].value == s0[i].value);
                    } else {
                        assert(s1[i].value == s0[i + 1].value);
                    }
                } else {
                    assert(s1[i].value == s0[i].value);
                }
            }
        }
        proof {
            lemma_entries_map_domain(s1, key@);
        }
        self.entries.push(KvEntry { key, value });
        proof {
            assert(self.entry_seq().drop_last() =~= s1);
            assert(forall|i: int|
                0 <= i < s1.len() ==> #[trigger] self.entry_seq()[i] == s1[i]);
            assert(self@ =~= m0.insert(self.entry_seq().last().key@,
                self.entry_seq().last().value@));
            assert(self@.dom() =~= m0.dom().insert(self.entry_seq().last().key@));
        }
    }
}

} // verus!
