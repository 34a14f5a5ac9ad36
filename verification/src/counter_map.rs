//! A small map from names to counter values that remembers the order in
//! which its names arrived.

use vstd::prelude::*;
use vstd::string::*;

verus! {

/// One name with its value.
#[derive(Debug)]
struct CounterEntry {
    key: String,
    value: u64,
}

/// A finite map from text to `u64`, kept in order of first insertion.
///
/// No name occurs twice. The view is the map itself; [`CounterMap::keys`]
/// gives the names in the order of their arrival.
#[derive(Debug)]
pub struct CounterMap {
    entries: Vec<CounterEntry>,
}

impl Clone for CounterMap {
    fn clone(&self) -> (r: Self)
        ensures
            r@ == self@,
            r.keys() == self.keys(),
            r.values() == self.values(),
            r.wf(),
    {
        proof {
            use_type_invariant(self);
        }
        let mut entries: Vec<CounterEntry> = Vec::new();
        let mut i: usize = 0;
        while i < self.entries.len()
            invariant
                i <= self.entries@.len(),
                entries@.len() == i,
                forall|j: int|
                    0 <= j < i ==> entries@[j].key@ == self.entries@[j].key@ && entries@[j].value
                        == self.entries@[j].value,
            decreases self.entries@.len() - i,
        {
            let entry = CounterEntry {
                key: self.entries[i].key.clone(),
                value: self.entries[i].value,
            };
            entries.push(entry);
            i += 1;
        }
        proof {
            assert(keys_of(entries@) =~= keys_of(self.entries@));
        }
        let r = CounterMap { entries };
        r
    }
}

impl View for CounterMap {
    type V = Map<Seq<char>, u64>;

    closed spec fn view(&self) -> Map<Seq<char>, u64> {
        Map::new(
            |k: Seq<char>| self.keys().contains(k),
            |k: Seq<char>| self.entries@[self.keys().index_of(k)].value,
        )
    }
}

spec fn keys_of(entries: Seq<CounterEntry>) -> Seq<Seq<char>> {
    Seq::new(entries.len(), |i: int| entries[i].key@)
}

spec fn values_of(entries: Seq<CounterEntry>) -> Seq<u64> {
    Seq::new(entries.len(), |i: int| entries[i].value)
}

impl CounterMap {
    /// The names, in order of first insertion.
    pub closed spec fn keys(&self) -> Seq<Seq<char>> {
        keys_of(self.entries@)
    }

    /// The values, each at the place of its name in [`CounterMap::keys`].
    pub closed spec fn values(&self) -> Seq<u64> {
        values_of(self.entries@)
    }

    /// No name occurs twice.
    pub closed spec fn wf(&self) -> bool {
        self.keys().no_duplicates()
    }

    #[verifier::type_invariant]
    spec fn type_inv(self) -> bool {
        self.wf()
    }

    /// How names, values and the view of a well-formed map belong together.
    pub proof fn lemma_entries(&self)
        requires
            self.wf(),
        ensures
            self.keys().no_duplicates(),
            self.keys().len() == self.values().len(),
            self@.dom() == self.keys().to_set(),
            forall|i: int|
                0 <= i < self.keys().len() ==> #[trigger] self@[self.keys()[i]] == self.values()[i],
    {
        assert forall|i: int| 0 <= i < self.keys().len() implies #[trigger] self@[self.keys()[i]]
            == self.values()[i] by {}
    }

    /// The empty map.
    pub fn new() -> (r: Self)
        ensures
            r@ == Map::<Seq<char>, u64>::empty(),
            r.keys() == Seq::<Seq<char>>::empty(),
            r.wf(),
    {
        let r = CounterMap { entries: Vec::new() };
        r
    }

    /// The number of names.
    pub fn len(&self) -> (n: usize)
        ensures
            n == self.keys().len(),
            n == self@.dom().len(),
            self@.dom().finite(),
            self.wf(),
    {
        proof {
            use_type_invariant(self);
            self.keys().unique_seq_to_set();
        }
        self.entries.len()
    }

    /// Whether the map holds no name.
    pub fn is_empty(&self) -> (b: bool)
        ensures
            b == (self.keys().len() == 0),
            b == (self@ == Map::<Seq<char>, u64>::empty()),
            self.wf(),
    {
        proof {
            use_type_invariant(self);
            if self.keys().len() == 0 {
                assert(self@ =~= Map::<Seq<char>, u64>::empty());
            } else {
                assert(self@.dom().contains(self.keys()[0]));
            }
        }
        self.entries.len() == 0
    }

    /// The place of `key` among the names.
    fn position(&self, key: &String) -> (r: Option<usize>)
        ensures
            match r {
                Some(i) => i < self.keys().len() && self.keys()[i as int] == key@,
                None => !self.keys().contains(key@),
            },
    {
        let mut i: usize = 0;
        while i < self.entries.len()
            invariant
                i <= self.entries@.len(),
                forall|j: int| 0 <= j < i ==> self.keys()[j] != key@,
            decreases self.entries@.len() - i,
        {
            if self.entries[i].key == *key {
                return Some(i);
            }
            i += 1;
        }
        None
    }

    /// The value that `key` has, if it has one.
    pub fn get(&self, key: &str) -> (r: Option<u64>)
        ensures
            r == (if self@.dom().contains(key@) {
                Some(self@[key@])
            } else {
                None
            }),
            self.wf(),
    {
        proof {
            use_type_invariant(self);
        }
        let owned = key.to_owned();
        match self.position(&owned) {
            Some(i) => Some(self.entries[i].value),
            None => None,
        }
    }

    /// Whether `key` has a value.
    pub fn contains_key(&self, key: &str) -> (b: bool)
        ensures
            b == self@.dom().contains(key@),
            self.wf(),
    {
        self.get(key).is_some()
    }

    /// Gives `key` the value `value`. A name that is new goes to the end
    /// of the names; one that was there keeps its place.
    pub fn insert(&mut self, key: String, value: u64)
        ensures
            final(self)@ == old(self)@.insert(key@, value),
            final(self).keys() == (if old(self)@.dom().contains(key@) {
                old(self).keys()
            } else {
                old(self).keys().push(key@)
            }),
            final(self).wf(),
    {
        proof {
            use_type_invariant(&*self);
        }
        let ghost before = *self;
        match self.position(&key) {
            Some(i) => {
                let entry = CounterEntry { key, value };
                let mut entries: Vec<CounterEntry> = Vec::new();
                core::mem::swap(&mut entries, &mut self.entries);
                entries.set(i, entry);
                proof {
                    assert(keys_of(entries@) =~= before.keys());
                }
                self.entries = entries;
            },
            None => {
                let entry = CounterEntry { key, value };
                let mut entries: Vec<CounterEntry> = Vec::new();
                core::mem::swap(&mut entries, &mut self.entries);
                entries.push(entry);
                proof {
                    assert(keys_of(entries@) =~= before.keys().push(key@));
                }
                self.entries = entries;
                proof {
                    let n = before.keys().len() as int;
                    assert forall|k: Seq<char>| before@.dom().contains(k) implies #[trigger] self@[k]
                        == before@[k] && self@.dom().contains(k) by {
                        let j = before.keys().index_of(k);
                        assert(self.keys()[j] == k);
                    }
                    assert(self.keys()[n] == key@);
                    assert forall|k: Seq<char>| self@.dom().contains(k) implies k == key@
                        || before@.dom().contains(k) by {}
                    assert forall|k: Seq<char>| #[trigger]
                        before@.dom().contains(k) implies self@.dom().contains(k) by {
                        assert(self@[k] == before@[k]);
                    }
                }
            },
        }
    }

    /// The name at place `i`.
    pub fn key_at(&self, i: usize) -> (r: &str)
        requires
            i < self.keys().len(),
        ensures
            r@ == self.keys()[i as int],
            self@.dom().contains(r@),
    {
        self.entries[i].key.as_str()
    }

    /// The value at place `i`.
    pub fn value_at(&self, i: usize) -> (r: u64)
        requires
            i < self.keys().len(),
        ensures
            r == self.values()[i as int],
            r == self@[self.keys()[i as int]],
    {
        proof {
            use_type_invariant(self);
        }
        self.entries[i].value
    }
}

} // verus!
