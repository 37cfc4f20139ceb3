//! A small map keyed by strings, whose keys are kept distinct.
use vstd::prelude::*;

use crate::text::str_equal;

verus! {

/// A map from strings to values, stored as a sequence of entries with
/// pairwise distinct keys.
#[derive(Debug)]
#[verifier::reject_recursive_types(V)]
pub struct StrMap<V> {
    entries: Vec<(String, V)>,
}

/// The map built from a sequence of entries; later entries win.
pub open spec fn pairs_map<V: View>(s: Seq<(String, V)>) -> Map<Seq<char>, V::V>
    decreases s.len(),
{
    if s.len() == 0 {
        Map::empty()
    } else {
        pairs_map(s.drop_last()).insert(s.last().0@, s.last().1@)
    }
}

/// The keys of a sequence of entries are pairwise distinct.
pub open spec fn distinct_keys<V>(s: Seq<(String, V)>) -> bool {
    forall|i: int, j: int| 0 <= i < j < s.len() ==> s[i].0@ != s[j].0@
}

/// The entry index holding `key`, if any.
pub open spec fn index_of_key<V>(s: Seq<(String, V)>, key: Seq<char>) -> Option<int>
    decreases s.len(),
{
    if s.len() == 0 {
        None
    } else if s.last().0@ == key {
        Some(s.len() - 1)
    } else {
        index_of_key(s.drop_last(), key)
    }
}

/// The entries after storing `value` under `key`: the entry holding the key
/// is replaced in place, otherwise a new entry is appended.
pub open spec fn insert_entries<V>(s: Seq<(String, V)>, key: String, value: V) -> Seq<(String, V)> {
    match index_of_key(s, key@) {
        Some(i) => s.update(i, (key, value)),
        None => s.push((key, value)),
    }
}

/// `index_of_key` finds the last entry holding the key, or none.
pub proof fn lemma_index_of_key<V>(s: Seq<(String, V)>, key: Seq<char>)
    ensures
        index_of_key(s, key) matches Some(i) ==> 0 <= i < s.len() && s[i].0@ == key && forall|j: int|
            i < j < s.len() ==> s[j].0@ != key,
        index_of_key(s, key) is None ==> forall|j: int| 0 <= j < s.len() ==> s[j].0@ != key,
    decreases s.len(),
{
    if s.len() > 0 {
        let t = s.drop_last();
        lemma_index_of_key(t, key);
        assert forall|j: int| 0 <= j < t.len() implies t[j] == s[j] by {}
    }
}

/// With distinct keys, the map holds one key per entry, each with its value.
pub proof fn lemma_pairs_map<V: View>(s: Seq<(String, V)>)
    requires
        distinct_keys(s),
    ensures
        pairs_map(s).dom().finite(),
        pairs_map(s).dom().len() == s.len(),
        forall|i: int| 0 <= i < s.len() ==> #[trigger] pairs_map(s).contains_key(s[i].0@)
            && pairs_map(s)[s[i].0@] == s[i].1@,
        forall|k: Seq<char>| #[trigger] pairs_map(s).contains_key(k) ==> exists|i: int|
            0 <= i < s.len() && s[i].0@ == k,
    decreases s.len(),
{
    if s.len() > 0 {
        let t = s.drop_last();
        assert(distinct_keys(t)) by {
            assert forall|i: int, j: int| 0 <= i < j < t.len() implies t[i].0@ != t[j].0@ by {
                assert(t[i] == s[i] && t[j] == s[j]);
            }
        }
        lemma_pairs_map(t);
        let last = s.last();
        assert(!pairs_map(t).contains_key(last.0@)) by {
            if pairs_map(t).contains_key(last.0@) {
                let i = choose|i: int| 0 <= i < t.len() && t[i].0@ == last.0@;
                assert(s[i] == t[i]);
            }
        }
        assert forall|i: int| 0 <= i < s.len() implies #[trigger] pairs_map(s).contains_key(s[i].0@)
            && pairs_map(s)[s[i].0@] == s[i].1@ by {
            if i < t.len() {
                assert(s[i] == t[i]);
            }
        }
        assert forall|k: Seq<char>| #[trigger] pairs_map(s).contains_key(k) implies exists|i: int|
            0 <= i < s.len() && s[i].0@ == k by {
            if k != last.0@ {
                let i = choose|i: int| 0 <= i < t.len() && t[i].0@ == k;
                assert(s[i] == t[i]);
            } else {
                assert(s[s.len() - 1].0@ == k);
            }
        }
    }
}

/// Pushing an entry updates the map like an insertion.
pub proof fn lemma_pairs_map_push<V: View>(s: Seq<(String, V)>, k: String, v: V)
    ensures
        pairs_map(s.push((k, v))) == pairs_map(s).insert(k@, v@),
{
    assert(s.push((k, v)).drop_last() =~= s);
}

/// Replacing the value of an entry updates the map like an insertion.
pub proof fn lemma_pairs_map_update<V: View>(s: Seq<(String, V)>, i: int, k: String, v: V)
    requires
        distinct_keys(s),
        0 <= i < s.len(),
        s[i].0@ == k@,
    ensures
        pairs_map(s.update(i, (k, v))) =~= pairs_map(s).insert(k@, v@),
        distinct_keys(s.update(i, (k, v))),
    decreases s.len(),
{
    let u = s.update(i, (k, v));
    assert(distinct_keys(u)) by {
        assert forall|a: int, b: int| 0 <= a < b < u.len() implies u[a].0@ != u[b].0@ by {
            assert(u[a].0@ == s[a].0@ && u[b].0@ == s[b].0@);
        }
    }
    lemma_pairs_map(s);
    lemma_pairs_map(u);
    assert forall|key: Seq<char>| pairs_map(u).contains_key(key) <==> pairs_map(s).insert(k@, v@).contains_key(key) by {
        if pairs_map(u).contains_key(key) {
            let j = choose|j: int| 0 <= j < u.len() && u[j].0@ == key;
            assert(s[j].0@ == key);
            assert(pairs_map(s).contains_key(s[j].0@));
        }
        if pairs_map(s).contains_key(key) {
            let j = choose|j: int| 0 <= j < s.len() && s[j].0@ == key;
            assert(u[j].0@ == key);
            assert(pairs_map(u).contains_key(u[j].0@));
        }
        if key == k@ {
            assert(pairs_map(u).contains_key(u[i].0@));
        }
    }
    assert forall|key: Seq<char>| pairs_map(u).contains_key(key) implies pairs_map(u)[key]
        == pairs_map(s).insert(k@, v@)[key] by {
        let j = choose|j: int| 0 <= j < u.len() && u[j].0@ == key;
        assert(pairs_map(u).contains_key(u[j].0@));
        if j == i {
        } else {
            assert(s[j] == u[j]);
            assert(pairs_map(s).contains_key(s[j].0@));
        }
    }
}

impl<V> StrMap<V> {
    #[verifier::type_invariant]
    spec fn keys_distinct(&self) -> bool {
        distinct_keys(self.entries@)
    }

    /// The entries, in storage order.
    pub closed spec fn seq(&self) -> Seq<(String, V)> {
        self.entries@
    }

    /// An empty map.
    pub fn new() -> (r: Self)
        ensures
            r.seq() == Seq::<(String, V)>::empty(),
    {
        StrMap { entries: Vec::new() }
    }

    /// The number of entries (which is the number of distinct keys).
    pub fn len(&self) -> (r: usize)
        ensures
            r == self.seq().len(),
            distinct_keys(self.seq()),
    {
        proof {
            use_type_invariant(self);
        }
        self.entries.len()
    }

    /// Whether the map holds no entry.
    pub fn is_empty(&self) -> (r: bool)
        ensures
            r == (self.seq().len() == 0),
    {
        self.entries.len() == 0
    }

    /// The entries, in storage order.
    pub fn entries(&self) -> (r: &Vec<(String, V)>)
        ensures
            r@ == self.seq(),
            distinct_keys(self.seq()),
    {
        proof {
            use_type_invariant(self);
        }
        &self.entries
    }

    /// The position of the entry holding `key`.
    fn position(&self, key: &str) -> (r: Option<usize>)
        ensures
            r matches Some(i) ==> i < self.seq().len() && self.seq()[i as int].0@ == key@,
            r is None ==> forall|i: int| 0 <= i < self.seq().len() ==> self.seq()[i].0@ != key@,
    {
        let mut i: usize = 0;
        while i < self.entries.len()
            invariant
                i <= self.entries@.len(),
                forall|j: int| 0 <= j < i ==> self.entries@[j].0@ != key@,
            decreases self.entries@.len() - i,
        {
            if str_equal(self.entries[i].0.as_str(), key) {
                return Some(i);
            }
            i = i + 1;
        }
        None
    }

    /// The value stored under `key`.
    pub fn get(&self, key: &str) -> (r: Option<&V>)
        ensures
            r matches Some(v) ==> exists|i: int|
                0 <= i < self.seq().len() && self.seq()[i].0@ == key@ && self.seq()[i].1 == *v,
            r is None ==> forall|i: int| 0 <= i < self.seq().len() ==> self.seq()[i].0@ != key@,
    {
        match self.position(key) {
            Some(i) => Some(&self.entries[i].1),
            None => None,
        }
    }

    /// Stores `value` under `key`, replacing the value already stored there.
    pub fn insert(&mut self, key: String, value: V)
        ensures
            final(self).seq() == insert_entries(old(self).seq(), key, value),
            distinct_keys(old(self).seq()),
            distinct_keys(final(self).seq()),
    {
        proof {
            use_type_invariant(&*self);
            lemma_index_of_key(self.seq(), key@);
        }
        let pos = self.position(key.as_str());
        let mut entries: Vec<(String, V)> = Vec::new();
        std::mem::swap(&mut entries, &mut self.entries);
        let ghost before = entries@;
        proof {
            if pos is Some {
                let i = pos->0 as int;
                if index_of_key(before, key@) != Some(i) {
                    assert(index_of_key(before, key@) is Some);
                }
            }
        }
        match pos {
            Some(i) => {
                entries.set(i, (key, value));
                proof {
                    assert(distinct_keys(entries@)) by {
                        assert forall|a: int, b: int| 0 <= a < b < entries@.len() implies entries@[a].0@
                            != entries@[b].0@ by {
                            assert(entries@[a].0@ == before[a].0@ && entries@[b].0@ == before[b].0@);
                        }
                    }
                }
            },
            None => {
                entries.push((key, value));
                proof {
                    assert(distinct_keys(entries@)) by {
                        assert forall|a: int, b: int| 0 <= a < b < entries@.len() implies entries@[a].0@
                            != entries@[b].0@ by {
                            assert(entries@[a] == before[a]);
                            if b < before.len() {
                                assert(entries@[b] == before[b]);
                            } else {
                                assert(before[a].0@ != key@);
                            }
                        }
                    }
                }
            },
        }
        self.entries = entries;
    }
}

impl<V: View> View for StrMap<V> {
    type V = Map<Seq<char>, V::V>;

    open spec fn view(&self) -> Map<Seq<char>, V::V> {
        pairs_map(self.seq())
    }
}

impl<V: View> StrMap<V> {
    /// Inserting updates the map view like a map insertion.
    pub proof fn lemma_insert_view(old_map: Self, new_map: Self, key: String, value: V)
        requires
            distinct_keys(old_map.seq()),
            new_map.seq() == insert_entries(old_map.seq(), key, value),
        ensures
            new_map@ == old_map@.insert(key@, value@),
    {
        lemma_index_of_key(old_map.seq(), key@);
        match index_of_key(old_map.seq(), key@) {
            Some(i) => lemma_pairs_map_update(old_map.seq(), i, key, value),
            None => lemma_pairs_map_push(old_map.seq(), key, value),
        }
    }
}

} // verus!
