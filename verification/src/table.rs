//! A small map from names to values.
//!
//! The entries live in two parallel vectors. No name occurs twice, so the
//! table reads as a finite map, and a lookup is a scan over the names.

use vstd::prelude::*;

verus! {

/// A map from names to values in which every name occurs at most once.
pub struct Table<V> {
    keys: Vec<String>,
    values: Vec<V>,
}

impl<V> View for Table<V> {
    type V = Map<Seq<char>, V>;

    /// The table as a map: the names that have a slot, each with the value
    /// in that slot.
    closed spec fn view(&self) -> Map<Seq<char>, V> {
        Map::new(
            |name: Seq<char>| exists|i: int| 0 <= i < self.keys@.len() && self.keys@[i]@ == name,
            |name: Seq<char>|
                self.values@[choose|i: int| 0 <= i < self.keys@.len() && self.keys@[i]@ == name],
        )
    }
}

impl<V> Table<V> {
    /// The two vectors have the same length and no name occurs twice.
    pub closed spec fn wf(&self) -> bool {
        &&& self.keys@.len() == self.values@.len()
        &&& forall|i: int, j: int|
            0 <= i < j < self.keys@.len() ==> self.keys@[i]@ != self.keys@[j]@
    }

    /// The names in slot order.
    pub closed spec fn names(&self) -> Seq<Seq<char>> {
        Seq::new(self.keys@.len(), |i: int| self.keys@[i]@)
    }

    /// Slot order and the map agree: every slot's name is a key, no name
    /// fills two slots, and every key fills some slot.
    pub proof fn lemma_names(&self)
        requires
            self.wf(),
        ensures
            self.names().no_duplicates(),
            forall|i: int|
                0 <= i < self.names().len() ==> self@.dom().contains(#[trigger] self.names()[i]),
            forall|name: Seq<char>|
                self@.dom().contains(name) <==> self.names().contains(name),
            self.names().len() == 0 <==> self@ == Map::<Seq<char>, V>::empty(),
    {
        if self.names().len() > 0 {
            assert(self@.dom().contains(self.names()[0]));
        }
        assert forall|name: Seq<char>| self@.dom().contains(name) implies self.names().contains(
            name,
        ) by {
            let i = choose|i: int| 0 <= i < self.keys@.len() && self.keys@[i]@ == name;
            assert(self.names()[i] == name);
        }
        if self.names().len() == 0 {
            assert(self@ =~= Map::<Seq<char>, V>::empty());
        }
    }

    /// An empty table.
    pub fn new() -> (table: Self)
        ensures
            table.wf(),
            table@ == Map::<Seq<char>, V>::empty(),
            table.names().len() == 0,
    {
        let table = Table { keys: Vec::new(), values: Vec::new() };
        assert(table@ =~= Map::<Seq<char>, V>::empty());
        table
    }

    /// The number of entries.
    pub fn len(&self) -> (n: usize)
        requires
            self.wf(),
        ensures
            n == self.names().len(),
    {
        self.keys.len()
    }

    /// The slot that holds `key`, if one does.
    fn position(&self, key: &String) -> (slot: Option<usize>)
        ensures
            match slot {
                Some(i) => i < self.keys@.len() && self.keys@[i as int]@ == key@,
                None => forall|j: int| 0 <= j < self.keys@.len() ==> self.keys@[j]@ != key@,
            },
    {
        let mut i: usize = 0;
        while i < self.keys.len()
            invariant
                i <= self.keys@.len(),
                forall|j: int| 0 <= j < i ==> self.keys@[j]@ != key@,
            decreases self.keys@.len() - i,
        {
            if self.keys[i] == *key {
                return Some(i);
            }
            i += 1;
        }
        None
    }

    /// Whether `key` has an entry.
    pub fn contains_key(&self, key: &String) -> (present: bool)
        requires
            self.wf(),
        ensures
            present == self@.dom().contains(key@),
    {
        self.position(key).is_some()
    }

    /// The value filed under `key`, if there is one.
    pub fn get(&self, key: &String) -> (found: Option<&V>)
        requires
            self.wf(),
        ensures
            match found {
                Some(value) => self@.dom().contains(key@) && *value == self@[key@],
                None => !self@.dom().contains(key@),
            },
    {
        match self.position(key) {
            Some(i) => Some(&self.values[i]),
            None => None,
        }
    }

    /// The value in slot `i`.
    pub fn value_at(&self, i: usize) -> (value: &V)
        requires
            self.wf(),
            i < self.names().len(),
        ensures
            self@.dom().contains(self.names()[i as int]),
            *value == self@[self.names()[i as int]],
    {
        &self.values[i]
    }

    /// Files `value` under `key`. An entry that was there under the same
    /// name is dropped; every other entry stays as it was.
    pub fn insert(&mut self, key: String, value: V)
        requires
            old(self).wf(),
        ensures
            final(self).wf(),
            final(self)@ == old(self)@.insert(key@, value),
    {
        match self.position(&key) {
            Some(i) => {
                self.values.set(i, value);
                assert(self@ =~= old(self)@.insert(key@, value));
            },
            None => {
                self.keys.push(key);
                self.values.push(value);
                proof {
                    let n = old(self).keys@.len() as int;
                    let before = old(self)@;
                    let after = self@;
                    assert(self.keys@[n]@ == key@);
                    assert(self.wf());
                    assert forall|name: Seq<char>| before.insert(key@, value).dom().contains(name)
                        implies #[trigger] after.dom().contains(name) && after[name]
                        == before.insert(key@, value)[name] by {
                        let j = choose|j: int| 0 <= j < self.keys@.len() && self.keys@[j]@ == name;
                        if name == key@ {
                            assert(self.keys@[n]@ == name);
                            assert(j == n);
                        } else {
                            let i = choose|i: int|
                                0 <= i < old(self).keys@.len() && old(self).keys@[i]@ == name;
                            assert(self.keys@[i]@ == name);
                            assert(j == i);
                        }
                    }
                    assert forall|name: Seq<char>| after.dom().contains(name)
                        implies before.insert(key@, value).dom().contains(name) by {
                        let j = choose|j: int| 0 <= j < self.keys@.len() && self.keys@[j]@ == name;
                        if j < n {
                            assert(old(self).keys@[j]@ == name);
                        }
                    }
                    assert(after =~= before.insert(key@, value));
                }
            },
        }
    }

    /// Drops every entry.
    pub fn clear(&mut self)
        ensures
            final(self).wf(),
            final(self)@ == Map::<Seq<char>, V>::empty(),
            final(self).names().len() == 0,
    {
        self.keys = Vec::new();
        self.values = Vec::new();
        assert(self@ =~= Map::<Seq<char>, V>::empty());
    }
}

} // verus!
