//! A map from logical names to values that keeps its entries in a list, so
//! that the whole store can be walked in order.
use vstd::prelude::*;

use crate::pathname::str_eq;

verus! {

/// Values by name; putting a value under a name replaces the earlier one.
pub struct Store<V> {
    entries: Vec<(String, V)>,
}

/// The map that a list of entries holds; a later entry wins.
pub open spec fn store_map<V>(es: Seq<(String, V)>) -> Map<Seq<char>, V>
    decreases es.len(),
{
    if es.len() == 0 {
        Map::empty()
    } else {
        store_map(es.drop_last()).insert(es.last().0@, es.last().1)
    }
}

proof fn lemma_absent<V>(es: Seq<(String, V)>, k: Seq<char>)
    requires
        forall|j: int| 0 <= j < es.len() ==> (#[trigger] es[j]).0@ != k,
    ensures
        !store_map(es).contains_key(k),
    decreases es.len(),
{
    if es.len() > 0 {
        lemma_absent(es.drop_last(), k);
    }
}

proof fn lemma_found<V>(es: Seq<(String, V)>, i: int)
    requires
        0 <= i < es.len(),
        forall|j: int| i < j < es.len() ==> (#[trigger] es[j]).0@ != es[i].0@,
    ensures
        store_map(es).contains_key(es[i].0@),
        store_map(es)[es[i].0@] == es[i].1,
    decreases es.len(),
{
    if i < es.len() - 1 {
        lemma_found(es.drop_last(), i);
    }
}

proof fn lemma_replace<V>(es: Seq<(String, V)>, i: int, e: (String, V))
    requires
        0 <= i < es.len(),
        e.0@ == es[i].0@,
        forall|j: int| i < j < es.len() ==> (#[trigger] es[j]).0@ != es[i].0@,
    ensures
        store_map(es.update(i, e)) == store_map(es).insert(e.0@, e.1),
    decreases es.len(),
{
    if i < es.len() - 1 {
        lemma_replace(es.drop_last(), i, e);
        assert(es.update(i, e).drop_last() == es.drop_last().update(i, e));
        assert(store_map(es.update(i, e)) =~= store_map(es).insert(e.0@, e.1));
    } else {
        assert(es.update(i, e).drop_last() == es.drop_last());
        assert(store_map(es.update(i, e)) =~= store_map(es).insert(e.0@, e.1));
    }
}

impl<V> View for Store<V> {
    type V = Map<Seq<char>, V>;

    closed spec fn view(&self) -> Map<Seq<char>, V> {
        store_map(self.entries@)
    }
}

impl<V> Store<V> {
    /// The entries in the order they were first put.
    pub closed spec fn entries(&self) -> Seq<(String, V)> {
        self.entries@
    }

    /// Every entry is what the map holds under its name.
    pub closed spec fn wf(&self) -> bool {
        forall|i: int, j: int|
            0 <= i < j < self.entries@.len() ==> (#[trigger] self.entries@[i]).0@ != (
            #[trigger] self.entries@[j]).0@
    }

    pub proof fn lemma_entries_in_map(&self, i: int)
        requires
            self.wf(),
            0 <= i < self.entries().len(),
        ensures
            self@.contains_key(self.entries()[i].0@),
            self@[self.entries()[i].0@] == self.entries()[i].1,
    {
        lemma_found(self.entries@, i);
    }

    pub fn new() -> (r: Store<V>)
        ensures
            r@ == Map::<Seq<char>, V>::empty(),
            r.entries().len() == 0,
            r.wf(),
    {
        Store { entries: Vec::new() }
    }

    pub fn len(&self) -> (r: usize)
        ensures
            r == self.entries().len(),
    {
        self.entries.len()
    }

    /// The entry at `i`, in insertion order.
    pub fn entry(&self, i: usize) -> (r: &(String, V))
        requires
            i < self.entries().len(),
        ensures
            *r == self.entries()[i as int],
    {
        &self.entries[i]
    }

    fn position(&self, key: &str) -> (r: Option<usize>)
        ensures
            match r {
                Some(i) => i < self.entries@.len() && self.entries@[i as int].0@ == key@
                    && forall|j: int|
                    i < j < self.entries@.len() ==> (#[trigger] self.entries@[j]).0@ != key@,
                None => forall|j: int|
                    0 <= j < self.entries@.len() ==> (#[trigger] self.entries@[j]).0@ != key@,
            },
    {
        let mut i: usize = self.entries.len();
        while i > 0
            invariant
                i <= self.entries@.len(),
                forall|j: int|
                    i <= j < self.entries@.len() ==> (#[trigger] self.entries@[j]).0@ != key@,
            decreases i,
        {
            if str_eq(self.entries[i - 1].0.as_str(), key) {
                return Some(i - 1);
            }
            i = i - 1;
        }
        None
    }

    /// Puts `value` under `key`, replacing what was there.
    pub fn insert(&mut self, key: String, value: V)
        requires
            old(self).wf(),
        ensures
            final(self)@ == old(self)@.insert(key@, value),
            final(self).wf(),
    {
        match self.position(key.as_str()) {
            Some(i) => {
                proof {
                    lemma_replace(self.entries@, i as int, (key, value));
                }
                self.entries.set(i, (key, value));
            },
            None => {
                self.entries.push((key, value));
                assert(self.entries@.drop_last() == old(self).entries@);
            },
        }
    }

    /// The value under `key`.
    pub fn get(&self, key: &str) -> (r: Option<&V>)
        ensures
            match r {
                Some(v) => self@.contains_key(key@) && self@[key@] == *v,
                None => !self@.contains_key(key@),
            },
    {
        match self.position(key) {
            Some(i) => {
                proof { lemma_found(self.entries@, i as int); }
                Some(&self.entries[i].1)
            },
            None => {
                proof { lemma_absent(self.entries@, key@); }
                None
            },
        }
    }
}

} // verus!
