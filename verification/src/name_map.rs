//! A map from names to values that keeps its entries in the order in which
//! their names were first inserted.
use vstd::prelude::*;

verus! {

/// A map keyed by name. No name occurs twice among the entries.
#[derive(Clone, Debug, PartialEq, Eq)]
pub struct NameMap<V> {
    pub entries: Vec<(String, V)>,
}

impl<V> View for NameMap<V> {
    type V = Map<Seq<char>, V>;

    /// Every name of an entry, with the value of the entry of that name.
    open spec fn view(&self) -> Map<Seq<char>, V> {
        Map::new(
            |name: Seq<char>| self.names().contains(name),
            |name: Seq<char>| self.entries@[self.names().index_of(name)].1,
        )
    }
}

impl<V> NameMap<V> {
    /// The names of the entries, in their order.
    pub open spec fn names(self) -> Seq<Seq<char>> {
        self.entries@.map_values(|e: (String, V)| e.0@)
    }

    /// Whether no name occurs twice.
    pub open spec fn well_formed(self) -> bool {
        self.names().no_duplicates()
    }

    pub fn new() -> (m: NameMap<V>)
        ensures
            m.well_formed(),
            m.entries@.len() == 0,
            m@ == Map::<Seq<char>, V>::empty(),
    {
        let m = NameMap { entries: Vec::new() };
        assert(m@ =~= Map::<Seq<char>, V>::empty());
        m
    }

    /// The number of entries.
    pub fn len(&self) -> (n: usize)
        ensures
            n == self.entries@.len(),
            self.well_formed() ==> n == self@.dom().len(),
    {
        proof {
            if self.well_formed() {
                self.lemma_dom_len();
            }
        }
        self.entries.len()
    }

    /// A well-formed map has as many names as entries.
    pub proof fn lemma_dom_len(self)
        requires
            self.well_formed(),
        ensures
            self@.dom().finite(),
            self@.dom().len() == self.entries@.len(),
    {
        let names = self.names();
        names.unique_seq_to_set();
        assert(self@.dom() =~= names.to_set());
    }

    /// The place of the entry of the given name, if there is one.
    pub fn position(&self, name: &String) -> (r: Option<usize>)
        ensures
            match r {
                Some(i) => i < self.entries@.len() && self.names()[i as int] == name@
                    && forall|k: int| 0 <= k < i ==> self.names()[k] != name@,
                None => !self.names().contains(name@),
            },
    {
        let mut i: usize = 0;
        while i < self.entries.len()
            invariant
                i <= self.entries@.len(),
                forall|k: int| 0 <= k < i ==> self.names()[k] != name@,
            decreases self.entries@.len() - i,
        {
            if self.entries[i].0 == *name {
                return Some(i);
            }
            i = i + 1;
        }
        None
    }

    /// The value of the given name, if the map has one.
    pub fn get(&self, name: &String) -> (r: Option<&V>)
        requires
            self.well_formed(),
        ensures
            match r {
                Some(v) => self@.contains_key(name@) && *v == self@[name@],
                None => !self@.contains_key(name@),
            },
    {
        match self.position(name) {
            Some(i) => {
                proof {
                    let names = self.names();
                    assert(names.contains(name@));
                    let k = names.index_of(name@);
                    assert(names[k] == name@);
                }
                Some(&self.entries[i].1)
            },
            None => None,
        }
    }

    /// Gives `name` the value `value`. An entry of that name keeps its place
    /// and has its value replaced; a new name is entered last.
    pub fn insert(&mut self, name: String, value: V)
        requires
            old(self).well_formed(),
        ensures
            final(self).well_formed(),
            final(self)@ == old(self)@.insert(name@, value),
            final(self).names() == (if old(self).names().contains(name@) {
                old(self).names()
            } else {
                old(self).names().push(name@)
            }),
    {
        let ghost key = name@;
        let ghost before = *self;
        match self.position(&name) {
            Some(i) => {
                self.entries.set(i, (name, value));
                proof {
                    assert(before.names().contains(key));
                    assert(self.names() =~= before.names());
                    assert forall|k: Seq<char>| self@.dom().contains(k) implies #[trigger] self@[k]
                        == before@.insert(key, value)[k] by {
                        let p = self.names().index_of(k);
                        assert(self.names()[p] == k);
                        if p == i {
                        } else {
                        }
                    }
                    assert(self@ =~= before@.insert(key, value));
                }
            },
            None => {
                self.entries.push((name, value));
                proof {
                    assert(self.names() =~= before.names().push(key));
                    assert forall|a: int, b: int|
                        0 <= a < self.names().len() && 0 <= b < self.names().len() && a
                            != b implies self.names()[a] != self.names()[b] by {
                        if a < before.names().len() {
                            assert(before.names().contains(before.names()[a]));
                        }
                        if b < before.names().len() {
                            assert(before.names().contains(before.names()[b]));
                        }
                    }
                    assert forall|k: Seq<char>| #[trigger]
                        self@.dom().contains(k) <==> before@.insert(key, value).dom().contains(
                            k,
                        ) by {
                        if self.names().contains(k) {
                            let p = self.names().index_of(k);
                            assert(self.names()[p] == k);
                            if p < before.names().len() {
                                assert(before.names()[p] == k);
                            }
                        }
                        if before.names().contains(k) {
                            let p = before.names().index_of(k);
                            assert(self.names()[p] == k);
                        }
                        if k == key {
                            assert(self.names()[before.names().len() as int] == k);
                        }
                    }
                    assert forall|k: Seq<char>| self@.dom().contains(k) implies #[trigger] self@[k]
                        == before@.insert(key, value)[k] by {
                        let p = self.names().index_of(k);
                        assert(self.names()[p] == k);
                        if k != key {
                            let q = before.names().index_of(k);
                            assert(before.names()[q] == k);
                            assert(self.names()[q] == k);
                        }
                    }
                    assert(self@ =~= before@.insert(key, value));
                }
            },
        }
    }
}

} // verus!
