//! A map from part paths to values that keeps the order in which the paths
//! were first added.
use vstd::prelude::*;

use crate::text::str_equal;

verus! {

/// Whether the paths of `e` are pairwise distinct.
pub open spec fn distinct_paths<V>(e: Seq<(Seq<char>, V)>) -> bool {
    forall|i: int, j: int| 0 <= i < j < e.len() ==> (#[trigger] e[i]).0 != (#[trigger] e[j]).0
}

/// Whether some entry of `e` has the path `k`.
pub open spec fn has_path<V>(e: Seq<(Seq<char>, V)>, k: Seq<char>) -> bool {
    exists|i: int| 0 <= i < e.len() && (#[trigger] e[i]).0 == k
}

/// The position of the entry of `e` with the path `k`.
pub open spec fn position_of<V>(e: Seq<(Seq<char>, V)>, k: Seq<char>) -> int {
    choose|i: int| 0 <= i < e.len() && (#[trigger] e[i]).0 == k
}

/// The map that the entries `e` stand for.
pub open spec fn entries_map<V>(e: Seq<(Seq<char>, V)>) -> Map<Seq<char>, V> {
    Map::new(|k: Seq<char>| has_path(e, k), |k: Seq<char>| e[position_of(e, k)].1)
}

/// A map from paths to values. Each path occurs once, and the entries keep
/// the order in which their paths were first added.
#[derive(Debug, PartialEq)]
pub struct PathMap<V> {
    entries: Vec<(String, V)>,
}

impl<V> PathMap<V> {
    /// The entries, as (path, value) pairs, in order.
    pub closed spec fn entries(&self) -> Seq<(Seq<char>, V)> {
        self.entries@.map_values(|e: (String, V)| (e.0@, e.1))
    }

    #[verifier::type_invariant]
    closed spec fn paths_are_distinct(&self) -> bool {
        distinct_paths(self.entries())
    }
}

impl<V> View for PathMap<V> {
    type V = Map<Seq<char>, V>;

    open spec fn view(&self) -> Map<Seq<char>, V> {
        entries_map(self.entries())
    }
}

/// The entry at position `i` of distinct entries is the one for its path.
proof fn lemma_position<V>(e: Seq<(Seq<char>, V)>, i: int)
    requires
        distinct_paths(e),
        0 <= i < e.len(),
    ensures
        has_path(e, e[i].0),
        position_of(e, e[i].0) == i,
        entries_map(e)[e[i].0] == e[i].1,
{
    assert(has_path(e, e[i].0));
    let p = position_of(e, e[i].0);
    assert(e[p].0 == e[i].0);
}

impl<V> PathMap<V> {
    /// An empty map.
    pub fn new() -> (m: PathMap<V>)
        ensures
            m.entries() == Seq::<(Seq<char>, V)>::empty(),
            m@ == Map::<Seq<char>, V>::empty(),
    {
        let m = PathMap { entries: Vec::new() };
        assert(m.entries() =~= Seq::<(Seq<char>, V)>::empty());
        assert(m@ =~= Map::<Seq<char>, V>::empty());
        m
    }

    /// The number of entries.
    pub fn len(&self) -> (n: usize)
        ensures
            n == self.entries().len(),
            n == self@.dom().len(),
    {
        proof {
            use_type_invariant(self);
            self.lemma_dom_len();
        }
        self.entries.len()
    }

    proof fn lemma_dom_len(&self)
        requires
            distinct_paths(self.entries()),
        ensures
            self@.dom().len() == self.entries().len(),
            self@.dom().finite(),
    {
        let e = self.entries();
        let keys = e.map_values(|x: (Seq<char>, V)| x.0);
        assert forall|i: int, j: int| 0 <= i < j < keys.len() implies keys[i] != keys[j] by {
            assert(e[i].0 != e[j].0);
        }
        keys.unique_seq_to_set();
        assert(self@.dom() =~= keys.to_set()) by {
            assert forall|k: Seq<char>| self@.dom().contains(k) implies keys.to_set().contains(k) by {
                let i = position_of(e, k);
                assert(keys[i] == k);
            }
            assert forall|k: Seq<char>| keys.to_set().contains(k) implies self@.dom().contains(k) by {
                let i = choose|i: int| 0 <= i < keys.len() && keys[i] == k;
                assert(e[i].0 == k);
            }
        }
    }

    /// The position of the entry with the path `key`, if there is one.
    fn find(&self, key: &str) -> (r: Option<usize>)
        ensures
            match r {
                Some(i) => i < self.entries().len() && self.entries()[i as int].0 == key@,
                None => !has_path(self.entries(), key@),
            },
    {
        let mut i: usize = 0;
        while i < self.entries.len()
            invariant
                i <= self.entries.len(),
                forall|j: int| 0 <= j < i ==> (#[trigger] self.entries()[j]).0 != key@,
            decreases self.entries.len() - i,
        {
            if str_equal(self.entries[i].0.as_str(), key) {
                return Some(i);
            }
            i = i + 1;
        }
        None
    }

    /// Whether some entry has the path `key`.
    pub fn contains_key(&self, key: &str) -> (r: bool)
        ensures
            r == self@.contains_key(key@),
    {
        self.find(key).is_some()
    }

    /// The value for the path `key`, if there is one.
    pub fn get(&self, key: &str) -> (r: Option<&V>)
        ensures
            match r {
                Some(v) => self@.contains_key(key@) && *v == self@[key@],
                None => !self@.contains_key(key@),
            },
    {
        proof {
            use_type_invariant(self);
        }
        match self.find(key) {
            Some(i) => {
                proof {
                    lemma_position(self.entries(), i as int);
                }
                Some(&self.entries[i].1)
            },
            None => None,
        }
    }

    /// The path and the value of the entry at position `i`.
    pub fn entry_at(&self, i: usize) -> (r: (&str, &V))
        requires
            i < self.entries().len(),
        ensures
            r.0@ == self.entries()[i as int].0,
            *r.1 == self.entries()[i as int].1,
    {
        (self.entries[i].0.as_str(), &self.entries[i].1)
    }

    /// Set the value for the path `key`; an entry with that path keeps its
    /// position and gets the new value, else a new entry comes last. Returns
    /// the value that the path had.
    pub fn insert(&mut self, key: String, value: V) -> (r: Option<V>)
        ensures
            final(self)@ == old(self)@.insert(key@, value),
            match r {
                Some(v) => old(self)@.contains_key(key@) && v == old(self)@[key@]
                    && final(self).entries() == old(self).entries().update(
                        position_of(old(self).entries(), key@), (key@, value)),
                None => !old(self)@.contains_key(key@)
                    && final(self).entries() == old(self).entries().push((key@, value)),
            },
    {
        proof {
            use_type_invariant(&*self);
        }
        let ghost old_e = self.entries();
        let found = self.find(key.as_str());
        let mut entries: Vec<(String, V)> = Vec::new();
        core::mem::swap(&mut entries, &mut self.entries);
        match found {
            Some(i) => {
                proof {
                    lemma_position(old_e, i as int);
                }
                let (_, old_value) = entries.remove(i);
                entries.insert(i, (key, value));
                let ghost new_e = entries@.map_values(|e: (String, V)| (e.0@, e.1));
                assert(new_e =~= old_e.update(i as int, (key@, value)));
                assert(distinct_paths(new_e)) by {
                    assert forall|a: int, b: int| 0 <= a < b < new_e.len() implies (#[trigger] new_e[a]).0 != (#[trigger] new_e[b]).0 by {
                        assert(old_e[a].0 != old_e[b].0);
                    }
                }
                assert(entries_map(new_e) =~= entries_map(old_e).insert(key@, value)) by {
                    assert forall|k: Seq<char>| #![auto] entries_map(new_e).contains_key(k) <==> entries_map(old_e).insert(key@, value).contains_key(k) by {
                        if has_path(old_e, k) {
                            let j = position_of(old_e, k);
                            assert(new_e[j].0 == k);
                        }
                        if has_path(new_e, k) {
                            let j = position_of(new_e, k);
                            assert(old_e[j].0 == k);
                        }
                    }
                    assert forall|k: Seq<char>| #[trigger] entries_map(new_e).contains_key(k) implies entries_map(new_e)[k] == entries_map(old_e).insert(key@, value)[k] by {
                        let j = position_of(new_e, k);
                        lemma_position(new_e, j);
                        if k != key@ {
                            assert(old_e[j] == new_e[j]);
                            lemma_position(old_e, j);
                        } else {
                            lemma_position(new_e, i as int);
                        }
                    }
                }
                self.entries = entries;
                Some(old_value)
            },
            None => {
                entries.push((key, value));
                let ghost new_e = entries@.map_values(|e: (String, V)| (e.0@, e.1));
                assert(new_e =~= old_e.push((key@, value)));
                assert(distinct_paths(new_e)) by {
                    assert forall|a: int, b: int| 0 <= a < b < new_e.len() implies (#[trigger] new_e[a]).0 != (#[trigger] new_e[b]).0 by {
                        if b == old_e.len() {
                            assert(old_e[a].0 != key@);
                        } else {
                            assert(old_e[a].0 != old_e[b].0);
                        }
                    }
                }
                assert(entries_map(new_e) =~= entries_map(old_e).insert(key@, value)) by {
                    assert forall|k: Seq<char>| #![auto] entries_map(new_e).contains_key(k) <==> entries_map(old_e).insert(key@, value).contains_key(k) by {
                        if has_path(old_e, k) {
                            let j = position_of(old_e, k);
                            assert(new_e[j].0 == k);
                        }
                        if k == key@ {
                            assert(new_e[old_e.len() as int].0 == k);
                        }
                    }
                    assert forall|k: Seq<char>| #[trigger] entries_map(new_e).contains_key(k) implies entries_map(new_e)[k] == entries_map(old_e).insert(key@, value)[k] by {
                        let j = position_of(new_e, k);
                        lemma_position(new_e, j);
                        if k != key@ {
                            assert(old_e[j] == new_e[j]);
                            lemma_position(old_e, j);
                        } else {
                            lemma_position(new_e, old_e.len() as int);
                        }
                    }
                }
                self.entries = entries;
                None
            },
        }
    }

    /// Remove the entry with the path `key`, if there is one; the others keep
    /// their order. Returns its value.
    pub fn remove(&mut self, key: &str) -> (r: Option<V>)
        ensures
            final(self)@ == old(self)@.remove(key@),
            match r {
                Some(v) => old(self)@.contains_key(key@) && v == old(self)@[key@]
                    && final(self).entries() == old(self).entries().remove(position_of(old(self).entries(), key@)),
                None => !old(self)@.contains_key(key@) && final(self).entries() == old(self).entries(),
            },
    {
        proof {
            use_type_invariant(&*self);
        }
        let ghost old_e = self.entries();
        match self.find(key) {
            Some(i) => {
                proof {
                    lemma_position(old_e, i as int);
                }
                let mut entries: Vec<(String, V)> = Vec::new();
                core::mem::swap(&mut entries, &mut self.entries);
                let (_, old_value) = entries.remove(i);
                let ghost new_e = entries@.map_values(|e: (String, V)| (e.0@, e.1));
                assert(new_e =~= old_e.remove(i as int));
                assert(distinct_paths(new_e)) by {
                    assert forall|a: int, b: int| 0 <= a < b < new_e.len() implies (#[trigger] new_e[a]).0 != (#[trigger] new_e[b]).0 by {
                        let a2 = if a < i { a } else { a + 1 };
                        let b2 = if b < i { b } else { b + 1 };
                        assert(old_e[a2].0 != old_e[b2].0);
                    }
                }
                assert(entries_map(new_e) =~= entries_map(old_e).remove(key@)) by {
                    assert forall|k: Seq<char>| #![auto] entries_map(new_e).contains_key(k) <==> entries_map(old_e).remove(key@).contains_key(k) by {
                        if has_path(old_e, k) && k != key@ {
                            let j = position_of(old_e, k);
                            let j2 = if j < i { j } else { j - 1 };
                            assert(new_e[j2].0 == k);
                        }
                        if has_path(new_e, k) {
                            let j = position_of(new_e, k);
                            let j2 = if j < i { j } else { j + 1 };
                            assert(old_e[j2].0 == k);
                            assert(old_e[i as int].0 != old_e[j2].0 || j2 == i);
                        }
                    }
                    assert forall|k: Seq<char>| #[trigger] entries_map(new_e).contains_key(k) implies entries_map(new_e)[k] == entries_map(old_e).remove(key@)[k] by {
                        let j = position_of(new_e, k);
                        lemma_position(new_e, j);
                        let j2 = if j < i { j } else { j + 1 };
                        assert(old_e[j2] == new_e[j]);
                        lemma_position(old_e, j2);
                    }
                }
                self.entries = entries;
                Some(old_value)
            },
            None => {
                assert(old(self)@.remove(key@) =~= old(self)@);
                None
            },
        }
    }
}

/// Reading a path just written gives the value written, and writing a path
/// leaves every other path as it was.
pub proof fn lemma_read_after_write<V>(before: Map<Seq<char>, V>, after: Map<Seq<char>, V>, key: Seq<char>, value: V, other: Seq<char>)
    requires
        after == before.insert(key, value),
        other != key,
    ensures
        after.contains_key(key),
        after[key] == value,
        after.contains_key(other) == before.contains_key(other),
        before.contains_key(other) ==> after[other] == before[other],
{
}

} // verus!
