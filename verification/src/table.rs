//! A table from texts to values that keeps its keys in the order in which
//! they were first inserted.

use vstd::prelude::*;
use vstd::string::*;

verus! {

/// A table keyed by text. No key occurs twice (`wf`), and a key that is
/// inserted again keeps its place.
pub struct Table<V: View> {
    entries: Vec<(String, V)>,
}

/// The keys of the entries, in their order.
pub open spec fn entry_keys<V>(s: Seq<(String, V)>) -> Seq<Seq<char>> {
    s.map_values(|e: (String, V)| e.0@)
}

/// Whether no key occurs twice.
pub open spec fn distinct(keys: Seq<Seq<char>>) -> bool {
    forall|i: int, j: int| 0 <= i < j < keys.len() ==> keys[i] != keys[j]
}

impl<V: View> View for Table<V> {
    type V = Map<Seq<char>, V::V>;

    closed spec fn view(&self) -> Map<Seq<char>, V::V> {
        Map::new(
            |k: Seq<char>| entry_keys(self.entries@).contains(k),
            |k: Seq<char>| self.entries@[entry_keys(self.entries@).index_of(k)].1@,
        )
    }
}

impl<V: View> Table<V> {
    /// What holds of every table that was made by `new` and `insert`: no
    /// key occurs twice.
    pub closed spec fn wf(&self) -> bool {
        distinct(entry_keys(self.entries@))
    }

    /// The keys, in the order in which they were first inserted.
    pub closed spec fn keys(&self) -> Seq<Seq<char>> {
        entry_keys(self.entries@)
    }

    /// The value that the table holds for a key.
    pub closed spec fn item(&self, key: Seq<char>) -> V {
        self.entries@[entry_keys(self.entries@).index_of(key)].1
    }

    /// The values, in the order of their keys.
    pub closed spec fn values(&self) -> Seq<V::V> {
        self.entries@.map_values(|e: (String, V)| e.1@)
    }

    /// The keys are those of the view, none twice, and each value stands at
    /// the place of its key.
    pub proof fn lemma_keys(&self)
        requires
            self.wf(),
        ensures
            distinct(self.keys()),
            self.keys().len() == self.values().len(),
            forall|k: Seq<char>| self@.dom().contains(k) <==> self.keys().contains(k),
            forall|k: Seq<char>| self@.dom().contains(k) ==> #[trigger] self@[k] == self.item(k)@,
            forall|i: int|
                0 <= i < self.keys().len() ==> self@.dom().contains(#[trigger] self.keys()[i])
                    && self@[self.keys()[i]] == self.values()[i],
    {
        let keys = entry_keys(self.entries@);
        assert forall|i: int| 0 <= i < keys.len() implies self@.dom().contains(#[trigger] keys[i])
            && self@[keys[i]] == self.values()[i] by {
            let j = keys.index_of(keys[i]);
            assert(keys.contains(keys[i]));
            assert(0 <= j < keys.len() && keys[j] == keys[i]);
        }
    }

    /// The empty table.
    pub fn new() -> (r: Self)
        ensures
            r.wf(),
            r@ == Map::<Seq<char>, V::V>::empty(),
            r.keys() == Seq::<Seq<char>>::empty(),
    {
        let r = Table { entries: Vec::new() };
        assert(r@ =~= Map::<Seq<char>, V::V>::empty());
        assert(r.keys() =~= Seq::<Seq<char>>::empty());
        r
    }

    /// Whether the table is well formed.
    pub fn is_wf(&self) -> (r: bool)
        ensures
            r == self.wf(),
    {
        let mut j: usize = 0;
        while j < self.entries.len()
            invariant
                j <= self.entries.len(),
                forall|a: int, b: int|
                    0 <= a < b < j ==> entry_keys(self.entries@)[a] != entry_keys(self.entries@)[b],
            decreases self.entries.len() - j,
        {
            let mut i: usize = 0;
            while i < j
                invariant
                    i <= j < self.entries.len(),
                    forall|a: int|
                        0 <= a < i ==> entry_keys(self.entries@)[a] != entry_keys(
                            self.entries@,
                        )[j as int],
                decreases j - i,
            {
                if self.entries[i].0 == self.entries[j].0 {
                    assert(entry_keys(self.entries@)[i as int] == entry_keys(
                        self.entries@,
                    )[j as int]);
                    return false;
                }
                i += 1;
            }
            j += 1;
        }
        true
    }

    /// The number of keys.
    pub fn len(&self) -> (n: usize)
        ensures
            n == self.keys().len(),
    {
        self.entries.len()
    }

    /// The key at a place.
    pub fn key_at(&self, i: usize) -> (k: &String)
        requires
            i < self.keys().len(),
        ensures
            k@ == self.keys()[i as int],
    {
        &self.entries[i].0
    }

    /// The value at a place.
    pub fn value_at(&self, i: usize) -> (v: &V)
        requires
            self.wf(),
            i < self.keys().len(),
        ensures
            self@.dom().contains(self.keys()[i as int]),
            *v == self.item(self.keys()[i as int]),
            v@ == self@[self.keys()[i as int]],
    {
        proof {
            self.lemma_keys();
            let keys = entry_keys(self.entries@);
            assert(keys.contains(keys[i as int]));
            assert(keys.index_of(keys[i as int]) == i);
        }
        &self.entries[i].1
    }

    /// The place of a key, if the table has it.
    pub fn position(&self, key: &String) -> (r: Option<usize>)
        requires
            self.wf(),
        ensures
            r is Some <==> self@.dom().contains(key@),
            r matches Some(i) ==> i < self.keys().len() && self.keys()[i as int] == key@,
    {
        proof {
            self.lemma_keys();
        }
        let mut i: usize = 0;
        while i < self.entries.len()
            invariant
                self.wf(),
                i <= self.entries.len(),
                forall|j: int| 0 <= j < i ==> entry_keys(self.entries@)[j] != key@,
            decreases self.entries.len() - i,
        {
            if self.entries[i].0 == *key {
                proof {
                    self.lemma_keys();
                    assert(entry_keys(self.entries@)[i as int] == key@);
                }
                return Some(i);
            }
            i += 1;
        }
        None
    }

    /// The value of a key, if the table has it.
    pub fn get(&self, key: &String) -> (r: Option<&V>)
        requires
            self.wf(),
        ensures
            r is Some <==> self@.dom().contains(key@),
            r matches Some(v) ==> *v == self.item(key@) && v@ == self@[key@],
    {
        match self.position(key) {
            Some(i) => Some(self.value_at(i)),
            None => None,
        }
    }

    /// Gives the key the value: in its place if the table has the key, at
    /// the end if it has not.
    pub fn insert(&mut self, key: String, value: V)
        requires
            old(self).wf(),
        ensures
            final(self).wf(),
            final(self)@ == old(self)@.insert(key@, value@),
            final(self).keys() == if old(self)@.dom().contains(key@) {
                old(self).keys()
            } else {
                old(self).keys().push(key@)
            },
            final(self).item(key@) == value,
            forall|k: Seq<char>|
                k != key@ && old(self)@.dom().contains(k) ==> #[trigger] final(self).item(k) == old(
                    self,
                ).item(k),
    {
        proof {
            self.lemma_keys();
        }
        let ghost before = *self;
        let ghost old_entries = self.entries@;
        match self.position(&key) {
            Some(i) => {
                let ghost k = key@;
                let ghost v = value@;
                self.entries.set(i, (key, value));
                proof {
                    assert(entry_keys(self.entries@) =~= entry_keys(old_entries));
                    assert(self.wf());
                    self.lemma_keys();
                    assert forall|c: Seq<char>| #[trigger]
                        self@.dom().contains(c) implies self@[c] == before@.insert(k, v)[c] by {
                        let j = entry_keys(self.entries@).index_of(c);
                        assert(entry_keys(self.entries@).contains(c));
                        if j != i {
                            assert(self.entries@[j] == old_entries[j]);
                        }
                    }
                    assert(self@ =~= before@.insert(k, v));
                    assert(entry_keys(self.entries@).contains(k));
                    assert(entry_keys(self.entries@).index_of(k) == i);
                    assert forall|c: Seq<char>| c != k && before@.dom().contains(c) implies #[trigger]
                        self.item(c) == before.item(c) by {
                        let j = entry_keys(old_entries).index_of(c);
                        assert(entry_keys(old_entries).contains(c));
                        assert(self.entries@[j] == old_entries[j]);
                    }
                }
            },
            None => {
                let ghost k = key@;
                let ghost v = value@;
                self.entries.push((key, value));
                proof {
                    assert(entry_keys(self.entries@) =~= entry_keys(old_entries).push(k));
                    assert(self.wf());
                    self.lemma_keys();
                    assert forall|c: Seq<char>| #[trigger]
                        self@.dom().contains(c) implies self@[c] == before@.insert(k, v)[c] by {
                        let j = entry_keys(self.entries@).index_of(c);
                        assert(entry_keys(self.entries@).contains(c));
                        if j < old_entries.len() {
                            assert(self.entries@[j] == old_entries[j]);
                            assert(entry_keys(old_entries)[j] == c);
                        }
                    }
                    assert forall|c: Seq<char>| before@.insert(k, v).dom().contains(c) implies #[trigger]
                        self@.dom().contains(c) by {
                        if c != k {
                            let j = entry_keys(old_entries).index_of(c);
                            assert(entry_keys(old_entries).contains(c));
                            assert(entry_keys(self.entries@)[j] == c);
                        } else {
                            assert(entry_keys(self.entries@)[old_entries.len() as int] == c);
                        }
                    }
                    assert(self@ =~= before@.insert(k, v));
                    assert(entry_keys(self.entries@).contains(k));
                    assert(entry_keys(self.entries@).index_of(k) == old_entries.len());
                    assert forall|c: Seq<char>| c != k && before@.dom().contains(c) implies #[trigger]
                        self.item(c) == before.item(c) by {
                        let j = entry_keys(old_entries).index_of(c);
                        assert(entry_keys(old_entries).contains(c));
                        assert(entry_keys(self.entries@)[j] == c);
                        assert(self.entries@[j] == old_entries[j]);
                    }
                }
            },
        }
    }

    /// Puts a value in the place of the one at `i` and hands the old one
    /// out.
    pub fn replace_at(&mut self, i: usize, value: V) -> (r: V)
        requires
            old(self).wf(),
            i < old(self).keys().len(),
        ensures
            final(self).wf(),
            final(self).keys() == old(self).keys(),
            r == old(self).item(old(self).keys()[i as int]),
            final(self)@ == old(self)@.insert(old(self).keys()[i as int], value@),
            final(self).item(old(self).keys()[i as int]) == value,
            forall|k: Seq<char>|
                k != old(self).keys()[i as int] && old(self)@.dom().contains(k)
                    ==> #[trigger] final(self).item(k) == old(self).item(k),
    {
        proof {
            self.lemma_keys();
        }
        let ghost before = *self;
        let ghost old_entries = self.entries@;
        let ghost k = entry_keys(old_entries)[i as int];
        let ghost v = value@;
        let (key, old_value) = self.entries.remove(i);
        self.entries.insert(i, (key, value));
        proof {
            assert(entry_keys(self.entries@) =~= entry_keys(old_entries));
            assert(self.wf());
            self.lemma_keys();
            assert(entry_keys(old_entries).contains(k));
            assert(entry_keys(old_entries).index_of(k) == i);
            assert forall|c: Seq<char>| #[trigger]
                self@.dom().contains(c) implies self@[c] == before@.insert(k, v)[c] by {
                let j = entry_keys(self.entries@).index_of(c);
                assert(entry_keys(self.entries@).contains(c));
                if j != i {
                    assert(self.entries@[j] == old_entries[j]);
                }
            }
            assert(self@ =~= before@.insert(k, v));
            assert forall|c: Seq<char>| c != k && before@.dom().contains(c) implies #[trigger]
                self.item(c) == before.item(c) by {
                let j = entry_keys(old_entries).index_of(c);
                assert(entry_keys(old_entries).contains(c));
                assert(self.entries@[j] == old_entries[j]);
            }
        }
        old_value
    }
}

} // verus!
