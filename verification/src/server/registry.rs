//! A table of values keyed by name, in which no name occurs twice.

use vstd::prelude::*;

verus! {

/// Values keyed by distinct names. Its view is the map from each name to the view
/// of its value.
pub struct Registry<V> {
    entries: Vec<(String, V)>,
}

impl<V: View> Registry<V> {
    /// The names, in table order.
    pub closed spec fn names(&self) -> Seq<Seq<char>> {
        self.entries@.map_values(|e: (String, V)| e.0@)
    }

    /// No name occurs twice.
    pub closed spec fn wf(&self) -> bool {
        self.names().no_duplicates()
    }

    /// The position of `name` in the table.
    closed spec fn position(&self, name: Seq<char>) -> int {
        choose|i: int| 0 <= i < self.entries@.len() && self.entries@[i].0@ == name
    }

    proof fn lemma_position(&self, i: int)
        requires
            self.wf(),
            0 <= i < self.entries@.len(),
        ensures
            self.position(self.entries@[i].0@) == i,
            self@.dom().contains(self.entries@[i].0@),
            self@[self.entries@[i].0@] == self.entries@[i].1@,
    {
        let name = self.entries@[i].0@;
        assert(self.names()[i] == name);
        let p = self.position(name);
        assert(self.names()[p] == name);
    }

    proof fn lemma_absent(&self, name: Seq<char>)
        requires
            !self@.dom().contains(name),
        ensures
            forall|i: int| 0 <= i < self.entries@.len() ==> #[trigger] self.entries@[i].0@ != name,
    {
        assert forall|i: int| 0 <= i < self.entries@.len() implies #[trigger] self.entries@[i].0@ != name by {
            if self.entries@[i].0@ == name {
                assert(self.names()[i] == name);
            }
        }
    }

    /// An empty table.
    pub fn new() -> (r: Self)
        ensures
            r.wf(),
            r@ == Map::<Seq<char>, V::V>::empty(),
    {
        let r = Registry { entries: Vec::new() };
        assert(r@ =~= Map::<Seq<char>, V::V>::empty());
        r
    }

    fn find(&self, name: &String) -> (r: Option<usize>)
        requires
            self.wf(),
        ensures
            match r {
                Some(i) => i < self.entries@.len() && self.entries@[i as int].0@ == name@,
                None => !self@.dom().contains(name@),
            },
    {
        let mut i: usize = 0;
        while i < self.entries.len()
            invariant
                i <= self.entries@.len(),
                forall|j: int| 0 <= j < i ==> #[trigger] self.entries@[j].0@ != name@,
            decreases self.entries.len() - i,
        {
            if self.entries[i].0 == *name {
                return Some(i);
            }
            i = i + 1;
        }
        proof {
            if self@.dom().contains(name@) {
                let j = choose|j: int| 0 <= j < self.names().len() && self.names()[j] == name@;
                assert(self.entries@[j].0@ == name@);
            }
        }
        None
    }

    /// Whether `name` is in the table.
    pub fn contains_key(&self, name: &String) -> (b: bool)
        requires
            self.wf(),
        ensures
            b == self@.dom().contains(name@),
    {
        match self.find(name) {
            Some(i) => {
                proof {
                    self.lemma_position(i as int);
                }
                true
            },
            None => false,
        }
    }

    /// The value under `name`, if any.
    pub fn get(&self, name: &String) -> (r: Option<&V>)
        requires
            self.wf(),
        ensures
            r is Some <==> self@.dom().contains(name@),
            r matches Some(v) ==> v@ == self@[name@],
    {
        match self.find(name) {
            Some(i) => {
                proof {
                    self.lemma_position(i as int);
                }
                Some(&self.entries[i].1)
            },
            None => None,
        }
    }

    /// Adds `value` under a name that is not in the table yet.
    pub fn insert_new(&mut self, name: String, value: V)
        requires
            old(self).wf(),
            !old(self)@.dom().contains(name@),
        ensures
            final(self).wf(),
            final(self)@ == old(self)@.insert(name@, value@),
    {
        proof {
            old(self).lemma_absent(name@);
        }
        let ghost key = name@;
        let ghost val = value@;
        self.entries.push((name, value));
        proof {
            let old_names = old(self).names();
            assert(self.names() =~= old_names.push(key));
            assert forall|a: int, b: int| 0 <= a < b < self.names().len() implies self.names()[a] != self.names()[b] by {
                if b == self.names().len() - 1 {
                    assert(old(self).entries@[a].0@ != key);
                } else {
                    assert(old_names[a] == self.names()[a] && old_names[b] == self.names()[b]);
                }
            }
            assert forall|k: Seq<char>| #![auto] self@.dom().contains(k) <==> old(self)@.insert(key, val).dom().contains(k) by {
                if self@.dom().contains(k) && k != key {
                    let j = choose|j: int| 0 <= j < self.names().len() && self.names()[j] == k;
                    assert(old_names[j] == k);
                }
                if old(self)@.dom().contains(k) {
                    let j = choose|j: int| 0 <= j < old_names.len() && old_names[j] == k;
                    assert(self.names()[j] == k);
                }
                if k == key {
                    assert(self.names()[self.names().len() - 1] == k);
                }
            }
            assert forall|k: Seq<char>| #[trigger] self@.dom().contains(k) implies self@[k] == old(self)@.insert(key, val)[k] by {
                let last = self.entries@.len() - 1;
                if k == key {
                    self.lemma_position(last);
                } else {
                    let j = choose|j: int| 0 <= j < self.names().len() && self.names()[j] == k;
                    self.lemma_position(j);
                    old(self).lemma_position(j);
                }
            }
            assert(self@ =~= old(self)@.insert(key, val));
        }
    }

    /// Removes the value under `name` and returns it; `None` where the name is absent.
    pub fn take(&mut self, name: &String) -> (r: Option<V>)
        requires
            old(self).wf(),
        ensures
            final(self).wf(),
            match r {
                Some(v) => old(self)@.dom().contains(name@) && v@ == old(self)@[name@]
                    && final(self)@ == old(self)@.remove(name@),
                None => !old(self)@.dom().contains(name@) && final(self)@ == old(self)@,
            },
    {
        match self.find(name) {
            Some(i) => {
                proof {
                    old(self).lemma_position(i as int);
                }
                let ghost key = name@;
                let ghost old_names = old(self).names();
                let entry = self.entries.remove(i);
                proof {
                    assert(self.names() =~= old_names.remove(i as int));
                    assert forall|a: int, b: int| 0 <= a < b < self.names().len() implies self.names()[a] != self.names()[b] by {
                        let a0 = if a < i { a } else { a + 1 };
                        let b0 = if b < i { b } else { b + 1 };
                        assert(old_names[a0] != old_names[b0]);
                    }
                    assert forall|k: Seq<char>| #![auto] self@.dom().contains(k) <==> old(self)@.remove(key).dom().contains(k) by {
                        if self@.dom().contains(k) {
                            let j = choose|j: int| 0 <= j < self.names().len() && self.names()[j] == k;
                            let j0 = if j < i { j } else { j + 1 };
                            assert(old_names[j0] == k);
                            assert(old_names[i as int] == key);
                        }
                        if old(self)@.dom().contains(k) && k != key {
                            let j = choose|j: int| 0 <= j < old_names.len() && old_names[j] == k;
                            assert(j != i);
                            let j1 = if j < i { j } else { j - 1 };
                            assert(self.names()[j1] == k);
                        }
                    }
                    assert forall|k: Seq<char>| #[trigger] self@.dom().contains(k) implies self@[k] == old(self)@.remove(key)[k] by {
                        let j = choose|j: int| 0 <= j < self.names().len() && self.names()[j] == k;
                        let j0 = if j < i { j } else { j + 1 };
                        self.lemma_position(j);
                        old(self).lemma_position(j0);
                    }
                    assert(self@ =~= old(self)@.remove(key));
                }
                Some(entry.1)
            },
            None => None,
        }
    }
}

impl<V: View> View for Registry<V> {
    type V = Map<Seq<char>, V::V>;

    closed spec fn view(&self) -> Map<Seq<char>, V::V> {
        Map::new(
            |k: Seq<char>| self.names().contains(k),
            |k: Seq<char>| self.entries@[self.position(k)].1@,
        )
    }
}

} // verus!
