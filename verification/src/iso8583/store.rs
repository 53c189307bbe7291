//! The values a message holds, by field name.

use vstd::prelude::*;

verus! {

#[derive(Debug)]
struct Entry {
    name: String,
    value: Vec<u8>,
}

/// Raw field values keyed by field name; a name occurs at most once.
#[derive(Debug)]
pub struct FieldStore {
    entries: Vec<Entry>,
}

impl FieldStore {
    #[verifier::type_invariant]
    spec fn names_distinct(self) -> bool {
        forall|i: int, j: int|
            0 <= i < j < self.entries@.len() ==> self.entries@[i].name@ != self.entries@[j].name@
    }

    spec fn holds(&self, k: Seq<char>, i: int) -> bool {
        0 <= i < self.entries@.len() && self.entries@[i].name@ == k
    }

    spec fn slot(&self, k: Seq<char>) -> int {
        choose|i: int| self.holds(k, i)
    }

    /// An empty store.
    pub fn new() -> (s: FieldStore)
        ensures
            s@ == Map::<Seq<char>, Seq<u8>>::empty(),
    {
        let s = FieldStore { entries: Vec::new() };
        assert(s@ =~= Map::<Seq<char>, Seq<u8>>::empty());
        s
    }

    fn find(&self, name: &String) -> (r: Option<usize>)
        ensures
            match r {
                Some(i) => self.holds(name@, i as int),
                None => forall|i: int| !self.holds(name@, i),
            },
    {
        let mut i: usize = 0;
        while i < self.entries.len()
            invariant
                i <= self.entries@.len(),
                forall|j: int| 0 <= j < i ==> !self.holds(name@, j),
            decreases self.entries@.len() - i,
        {
            if self.entries[i].name == *name {
                return Some(i);
            }
            i = i + 1;
        }
        None
    }

    /// Whether a value is stored under `name`.
    pub fn contains_key(&self, name: &String) -> (r: bool)
        ensures
            r == self@.contains_key(name@),
    {
        let found = self.find(name);
        proof {
            if let Some(i) = found {
                assert(self.holds(name@, i as int));
            }
        }
        found.is_some()
    }

    /// The value stored under `name`, if any.
    pub fn get(&self, name: &String) -> (r: Option<&Vec<u8>>)
        ensures
            r is Some <==> self@.contains_key(name@),
            r matches Some(v) ==> v@ == self@[name@],
    {
        proof {
            use_type_invariant(self);
        }
        match self.find(name) {
            Some(i) => {
                assert(self.holds(name@, i as int));
                assert(self.holds(name@, self.slot(name@)));
                Some(&self.entries[i].value)
            },
            None => None,
        }
    }

    /// Stores `value` under `name`, replacing what was there.
    pub fn insert(&mut self, name: String, value: Vec<u8>)
        ensures
            final(self)@ == old(self)@.insert(name@, value@),
    {
        proof {
            use_type_invariant(&*self);
        }
        let ghost k = name@;
        let ghost v = value@;
        let found = self.find(&name);
        let mut taken = FieldStore { entries: Vec::new() };
        core::mem::swap(self, &mut taken);
        let mut entries = taken.entries;
        assert(entries@ == old(self).entries@);
        match found {
            Some(i) => {
                entries.set(i, Entry { name, value });
            },
            None => {
                entries.push(Entry { name, value });
            },
        }
        assert forall|a: int, b: int| 0 <= a < b < entries@.len() implies entries@[a].name@
            != entries@[b].name@ by {
            if found is None {
                assert(!old(self).holds(k, a));
            }
        }
        *self = FieldStore { entries };
        proof {
            let n0: int = old(self).entries@.len() as int;
            let at: int = match found {
                Some(i) => i as int,
                None => n0,
            };
            assert(self.holds(k, at));
            assert forall|n: Seq<char>, j: int| n != k implies self.holds(n, j) == old(self).holds(
                n,
                j,
            ) by {}
            assert forall|n: Seq<char>| #[trigger]
                self@.contains_key(n) == old(self)@.insert(k, v).contains_key(n) by {
                if n != k {
                    if self@.contains_key(n) {
                        let j = choose|j: int| self.holds(n, j);
                        assert(old(self).holds(n, j));
                    }
                    if old(self)@.contains_key(n) {
                        let j = choose|j: int| old(self).holds(n, j);
                        assert(self.holds(n, j));
                    }
                }
            }
            assert forall|n: Seq<char>| #[trigger]
                self@.contains_key(n) implies self@[n] == old(self)@.insert(k, v)[n] by {
                assert(self.holds(n, self.slot(n)));
                if n != k {
                    assert(old(self).holds(n, self.slot(n)));
                    assert(old(self).holds(n, old(self).slot(n)));
                } else {
                    assert(self.slot(n) == at);
                }
            }
            assert(self@ =~= old(self)@.insert(k, v));
        }
    }
}

impl View for FieldStore {
    type V = Map<Seq<char>, Seq<u8>>;

    closed spec fn view(&self) -> Map<Seq<char>, Seq<u8>> {
        Map::new(
            |k: Seq<char>| exists|i: int| self.holds(k, i),
            |k: Seq<char>| self.entries@[self.slot(k)].value@,
        )
    }
}

} // verus!
