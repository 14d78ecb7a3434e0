//! Values by name: a small map from names to values of any kind.

use crate::lookup::{
    all_different, index_in, lemma_index_in, lemma_index_in_is_first, lemma_map_of_insert,
    lemma_map_of_remove, lemma_map_of_update, map_of,
};
use vstd::prelude::*;

verus! {

/// Values by name. No name occurs twice.
pub struct Named<T> {
    entries: Vec<(String, T)>,
}

impl<T> Named<T> {
    /// The names, in stored order.
    spec fn names(&self) -> Seq<Seq<char>> {
        Seq::new(self.entries@.len(), |i: int| self.entries@[i].0@)
    }

    /// The values, in stored order.
    spec fn values(&self) -> Seq<T> {
        Seq::new(self.entries@.len(), |i: int| self.entries@[i].1)
    }

    /// No name occurs twice.
    #[verifier::type_invariant]
    spec fn wf(&self) -> bool {
        all_different(self.names())
    }

    /// The values by name.
    pub closed spec fn view(&self) -> Map<Seq<char>, T> {
        map_of(self.names(), self.values())
    }

    /// Nothing by any name.
    pub fn new() -> (r: Self)
        ensures
            r@ == Map::<Seq<char>, T>::empty(),
    {
        let r = Named { entries: Vec::new() };
        assert(r@ =~= Map::<Seq<char>, T>::empty());
        r
    }

    /// The position of the entry called `name`, or the number of entries
    /// if there is none.
    fn find(&self, name: &str) -> (at: usize)
        ensures
            at == index_in(self.names(), name@),
            at <= self.entries@.len(),
    {
        let wanted = String::from_str(name);
        let mut i: usize = 0;
        while i < self.entries.len()
            invariant
                i <= self.entries.len(),
                wanted@ == name@,
                forall|k: int| 0 <= k < i ==> self.names()[k] != name@,
            decreases self.entries.len() - i,
        {
            if self.entries[i].0 == wanted {
                proof {
                    lemma_index_in(self.names(), name@, i as int);
                }
                return i;
            }
            i += 1;
        }
        proof {
            lemma_index_in(self.names(), name@, i as int);
        }
        i
    }

    /// Whether there is a value called `name`.
    pub fn contains(&self, name: &str) -> (r: bool)
        ensures
            r == self@.dom().contains(name@),
    {
        self.find(name) < self.entries.len()
    }

    /// The value called `name`.
    pub fn get(&self, name: &str) -> (r: Option<&T>)
        ensures
            r is Some <==> self@.dom().contains(name@),
            r matches Some(value) ==> *value == self@[name@],
    {
        let at = self.find(name);
        if at < self.entries.len() {
            Some(&self.entries[at].1)
        } else {
            None
        }
    }

    /// Puts `value` under `name`, in place of the value that was there.
    pub fn put(&mut self, name: &str, value: T)
        ensures
            final(self)@ == old(self)@.insert(name@, value),
    {
        let at = self.find(name);
        let ghost before = *self;
        proof {
            use_type_invariant(&*self);
            lemma_index_in_is_first(self.names(), name@);
        }
        let mut entries: Vec<(String, T)> = Vec::new();
        core::mem::swap(&mut self.entries, &mut entries);
        let found = at < entries.len();
        if found {
            entries.set(at, (String::from_str(name), value));
        } else {
            entries.push((String::from_str(name), value));
        }
        let ghost names = Seq::new(entries@.len(), |i: int| entries@[i].0@);
        let ghost values = Seq::new(entries@.len(), |i: int| entries@[i].1);
        proof {
            if found {
                assert(names =~= before.names());
                assert(values =~= before.values().update(at as int, value));
                lemma_map_of_update(before.names(), before.values(), at as int, value);
            } else {
                assert(names =~= before.names().insert(at as int, name@));
                assert(values =~= before.values().insert(at as int, value));
                lemma_map_of_insert(before.names(), before.values(), at as int, name@, value);
            }
        }
        self.entries = entries;
        proof {
            assert(self.names() =~= names);
            assert(self.values() =~= values);
        }
    }

    /// Removes the value called `name` and hands it out.
    pub fn take(&mut self, name: &str) -> (r: Option<T>)
        ensures
            final(self)@ == old(self)@.remove(name@),
            r is Some <==> old(self)@.dom().contains(name@),
            r matches Some(value) ==> value == old(self)@[name@],
    {
        let at = self.find(name);
        let ghost before = *self;
        proof {
            use_type_invariant(&*self);
            lemma_index_in_is_first(self.names(), name@);
        }
        if at < self.entries.len() {
            let mut entries: Vec<(String, T)> = Vec::new();
            core::mem::swap(&mut self.entries, &mut entries);
            let entry = entries.remove(at);
            let ghost names = Seq::new(entries@.len(), |i: int| entries@[i].0@);
            let ghost values = Seq::new(entries@.len(), |i: int| entries@[i].1);
            proof {
                assert(names =~= before.names().remove(at as int));
                assert(values =~= before.values().remove(at as int));
                lemma_map_of_remove(before.names(), before.values(), at as int);
            }
            self.entries = entries;
            proof {
                assert(self.names() =~= names);
                assert(self.values() =~= values);
            }
            Some(entry.1)
        } else {
            proof {
                assert(self@ =~= before@.remove(name@));
            }
            None
        }
    }
}

} // verus!
