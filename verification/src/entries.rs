//! The collection of tracked entries: a map from names to entries in which
//! no name occurs twice.

use crate::entry::{Entry, EntryView};
use crate::text::texts;
use vstd::prelude::*;

verus! {

/// A map from names to entries, kept in the order in which the names came.
#[derive(Debug)]
pub struct Entries {
    slots: Vec<(String, Entry)>,
}

impl View for Entries {
    type V = Map<Seq<char>, EntryView>;

    closed spec fn view(&self) -> Map<Seq<char>, EntryView> {
        Map::new(
            |k: Seq<char>| self.holds(k),
            |k: Seq<char>| self.slots[self.slot_of(k)].1@,
        )
    }
}

impl Entries {
    /// No name occurs twice.
    pub closed spec fn wf(&self) -> bool {
        forall|i: int, j: int|
            0 <= i < j < self.slots.len() ==> (#[trigger] self.slots[i]).0@
                != (#[trigger] self.slots[j]).0@
    }

    spec fn holds(&self, k: Seq<char>) -> bool {
        exists|i: int| 0 <= i < self.slots.len() && (#[trigger] self.slots[i]).0@ == k
    }

    spec fn slot_of(&self, k: Seq<char>) -> int {
        choose|i: int| 0 <= i < self.slots.len() && (#[trigger] self.slots[i]).0@ == k
    }

    /// The slot that holds a name determines what the map gives for it.
    proof fn lemma_slot(self, i: int)
        requires
            self.wf(),
            0 <= i < self.slots.len(),
        ensures
            self@.dom().contains(self.slots[i].0@),
            self@[self.slots[i].0@] == self.slots[i].1@,
    {
        let k = self.slots[i].0@;
        assert(self.holds(k));
        let j = self.slot_of(k);
        assert(0 <= j < self.slots.len() && self.slots[j].0@ == k);
        assert(i == j);
    }

    /// The empty collection.
    pub fn new() -> (out: Self)
        ensures
            out.wf(),
            out@ == (Map::<Seq<char>, EntryView>::empty()),
    {
        let out = Entries { slots: Vec::new() };
        assert(out@ =~= Map::empty());
        out
    }

    /// The number of entries.
    pub fn len(&self) -> (out: usize)
        requires
            self.wf(),
        ensures
            out == self@.dom().len(),
            self@.dom().finite(),
    {
        proof {
            self.lemma_dom_len();
        }
        self.slots.len()
    }

    /// The names of the slots, in their order.
    spec fn keys(&self) -> Seq<Seq<char>> {
        self.slots@.map_values(|p: (String, Entry)| p.0@)
    }

    /// The names of the slots are those of the map, each once.
    proof fn lemma_keys(self)
        requires
            self.wf(),
        ensures
            self.keys().no_duplicates(),
            self.keys().to_set() == self@.dom(),
    {
        let names = self.keys();
        assert forall|k: Seq<char>| names.to_set().contains(k) <==> self@.dom().contains(k) by {
            if names.contains(k) {
                let i = choose|i: int| 0 <= i < names.len() && names[i] == k;
                assert(self.slots[i].0@ == k);
            }
            if self.holds(k) {
                let i = self.slot_of(k);
                assert(names[i] == k);
            }
        }
        assert(names.to_set() =~= self@.dom());
    }

    proof fn lemma_dom_len(self)
        requires
            self.wf(),
        ensures
            self@.dom().finite(),
            self@.dom().len() == self.slots.len(),
    {
        self.lemma_keys();
        self.keys().unique_seq_to_set();
    }

    fn find(&self, name: &str) -> (out: Option<usize>)
        ensures
            match out {
                Some(i) => i < self.slots.len() && self.slots[i as int].0@ == name@,
                None => !self.holds(name@),
            },
    {
        let wanted = name.to_owned();
        let mut i: usize = 0;
        while i < self.slots.len()
            invariant
                i <= self.slots.len(),
                wanted@ == name@,
                forall|j: int| 0 <= j < i ==> (#[trigger] self.slots[j]).0@ != name@,
            decreases self.slots.len() - i,
        {
            if self.slots[i].0 == wanted {
                return Some(i);
            }
            i += 1;
        }
        None
    }

    /// Whether the name is present.
    pub fn contains_key(&self, name: &str) -> (out: bool)
        ensures
            out == self@.dom().contains(name@),
    {
        self.find(name).is_some()
    }

    /// The entry under a name, by exact match.
    pub fn get(&self, name: &str) -> (out: Option<&Entry>)
        requires
            self.wf(),
        ensures
            match out {
                Some(e) => self@.dom().contains(name@) && self@[name@] == e@,
                None => !self@.dom().contains(name@),
            },
    {
        match self.find(name) {
            Some(i) => {
                proof {
                    self.lemma_slot(i as int);
                }
                Some(&self.slots[i].1)
            },
            None => None,
        }
    }

    /// Puts an entry under a name; an entry that was there is replaced.
    pub fn insert(&mut self, name: String, entry: Entry)
        requires
            old(self).wf(),
        ensures
            final(self).wf(),
            final(self)@ == old(self)@.insert(name@, entry@),
    {
        let found = self.find(name.as_str());
        let ghost before = *self;
        let ghost k = name@;
        let ghost e = entry@;
        match found {
            Some(i) => {
                self.slots.set(i, (name, entry));
            },
            None => {
                self.slots.push((name, entry));
            },
        }
        proof {
            let after = *self;
            assert(after.wf());
            assert forall|q: Seq<char>| after@.dom().contains(q) <==> before@.insert(
                k,
                e,
            ).dom().contains(q) by {
                if after.holds(q) {
                    let j = after.slot_of(q);
                    if q != k {
                        assert(before.slots[j].0@ == q);
                    }
                }
                if before.holds(q) {
                    let j = before.slot_of(q);
                    assert(after.slots[j].0@ == before.slots[j].0@);
                }
                if q == k {
                    match found {
                        Some(i) => {
                            assert(after.slots[i as int].0@ == k);
                        },
                        None => {
                            assert(after.slots[after.slots.len() - 1].0@ == k);
                        },
                    }
                }
            }
            assert forall|q: Seq<char>| after@.dom().contains(q) implies after@[q] == before@.insert(
                k,
                e,
            )[q] by {
                let j = after.slot_of(q);
                after.lemma_slot(j);
                if q != k {
                    assert(before.slots[j].0@ == q);
                    before.lemma_slot(j);
                }
            }
            assert(after@ =~= before@.insert(k, e));
        }
    }

    /// Takes a name out; a name that is absent leaves the collection as it was.
    pub fn remove(&mut self, name: &str)
        requires
            old(self).wf(),
        ensures
            final(self).wf(),
            final(self)@ == old(self)@.remove(name@),
    {
        let found = self.find(name);
        let ghost before = *self;
        let ghost k = name@;
        match found {
            Some(i) => {
                self.slots.remove(i);
                proof {
                    let after = *self;
                    let n = i as int;
                    assert forall|j: int| 0 <= j < after.slots.len() implies #[trigger] after.slots[j]
                        == before.slots[if j < n { j } else { j + 1 }] by {}
                    assert(after.wf());
                    assert forall|q: Seq<char>| after@.dom().contains(q) <==> before@.remove(
                        k,
                    ).dom().contains(q) by {
                        if after.holds(q) {
                            let j = after.slot_of(q);
                            let b = if j < n { j } else { j + 1 };
                            assert(before.slots[b].0@ == q);
                        }
                        if before.holds(q) && q != k {
                            let b = before.slot_of(q);
                            let j = if b < n { b } else { b - 1 };
                            assert(after.slots[j].0@ == q);
                        }
                    }
                    assert forall|q: Seq<char>| after@.dom().contains(q) implies after@[q]
                        == before@.remove(k)[q] by {
                        let j = after.slot_of(q);
                        after.lemma_slot(j);
                        let b = if j < n { j } else { j + 1 };
                        assert(before.slots[b].0@ == q);
                        before.lemma_slot(b);
                    }
                    assert(after@ =~= before@.remove(k));
                }
            },
            None => {
                assert(before@ =~= before@.remove(k));
            },
        }
    }

    /// The names, each once, in the order in which they came.
    pub fn names(&self) -> (out: Vec<String>)
        requires
            self.wf(),
        ensures
            texts(out@).no_duplicates(),
            texts(out@).to_set() == self@.dom(),
    {
        let mut out: Vec<String> = Vec::new();
        let mut i: usize = 0;
        while i < self.slots.len()
            invariant
                i <= self.slots.len(),
                out.len() == i,
                forall|j: int| 0 <= j < i ==> (#[trigger] out[j])@ == self.slots[j].0@,
            decreases self.slots.len() - i,
        {
            out.push(self.slots[i].0.clone());
            i += 1;
        }
        proof {
            assert(texts(out@) =~= self.keys());
            self.lemma_keys();
        }
        out
    }
}

} // verus!
