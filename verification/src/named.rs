//! A small table of values by name.
//!
//! Every name stands in the table at most once, and the names keep the order
//! in which they were first put in. Contracts speak of a table through the map
//! from names to values that it stands for, and through the list of its names.

use crate::text::same;
use vstd::prelude::*;

verus! {

/// Values of type `T`, each under a name of its own.
#[derive(Clone, Debug)]
pub struct Named<T> {
    /// The names with their values, in the order in which the names came.
    pub entries: Vec<(String, T)>,
}

impl<T> Named<T> {
    /// No name stands in the table twice.
    pub open spec fn wf(&self) -> bool {
        forall|i: int, j: int|
            0 <= i < j < self.entries@.len() ==> self.entries@[i].0@ != self.entries@[j].0@
    }

    /// The names, in the order in which they came.
    pub open spec fn names(&self) -> Seq<Seq<char>> {
        self.entries@.map_values(|e: (String, T)| e.0@)
    }

    /// Whether `name` stands in the table.
    pub open spec fn contains(&self, name: Seq<char>) -> bool {
        exists|i: int| 0 <= i < self.entries@.len() && self.entries@[i].0@ == name
    }

    /// Where `name` stands in the table, if it does.
    pub open spec fn index_of(&self, name: Seq<char>) -> int {
        choose|i: int| 0 <= i < self.entries@.len() && self.entries@[i].0@ == name
    }

    /// The value under `name`, if the name stands in the table.
    pub open spec fn value(&self, name: Seq<char>) -> T {
        self.entries@[self.index_of(name)].1
    }

    /// The map from names to values that the table stands for.
    pub open spec fn as_map(&self) -> Map<Seq<char>, T> {
        Map::new(|name: Seq<char>| self.contains(name), |name: Seq<char>| self.value(name))
    }

    /// The empty table.
    pub fn new() -> (r: Self)
        ensures
            r.wf(),
            r.entries@.len() == 0,
            r.as_map() == Map::<Seq<char>, T>::empty(),
    {
        let r = Named { entries: Vec::new() };
        assert(r.as_map() =~= Map::<Seq<char>, T>::empty());
        r
    }

    /// How many names the table holds.
    pub fn len(&self) -> (r: usize)
        ensures
            r == self.entries@.len(),
    {
        self.entries.len()
    }

    /// Where `name` stands in the table.
    pub fn find(&self, name: &str) -> (r: Option<usize>)
        ensures
            match r {
                Some(i) => i < self.entries@.len() && self.entries@[i as int].0@ == name@
                    && self.contains(name@) && (self.wf() ==> self.index_of(name@) == i),
                None => !self.contains(name@),
            },
    {
        let mut i: usize = 0;
        while i < self.entries.len()
            invariant
                i <= self.entries@.len(),
                forall|k: int| 0 <= k < i ==> self.entries@[k].0@ != name@,
            decreases self.entries.len() - i,
        {
            if same(self.entries[i].0.as_str(), name) {
                return Some(i);
            }
            i = i + 1;
        }
        None
    }

    /// The value under `name`.
    pub fn get(&self, name: &str) -> (r: Option<&T>)
        ensures
            self.wf() ==> r == if self.contains(name@) {
                Some(&self.value(name@))
            } else {
                None
            },
            !self.contains(name@) ==> r is None,
            self.contains(name@) ==> r is Some,
    {
        match self.find(name) {
            Some(i) => Some(&self.entries[i].1),
            None => None,
        }
    }

    /// Puts `value` under `name`. A value that stood under that name is
    /// replaced and the name keeps its place; a new name comes last.
    pub fn insert(&mut self, name: String, value: T)
        requires
            old(self).wf(),
        ensures
            final(self).wf(),
            final(self).as_map() == old(self).as_map().insert(name@, value),
            final(self).names() == if old(self).contains(name@) {
                old(self).names()
            } else {
                old(self).names().push(name@)
            },
    {
        let ghost before = *self;
        match self.find(name.as_str()) {
            Some(i) => {
                self.entries.set(i, (name, value));
                assert(self.names() =~= before.names());
                assert forall|n: Seq<char>| self.contains(n) == before.contains(n) by {
                    if self.contains(n) {
                        let k = self.index_of(n);
                        assert(before.entries@[k].0@ == n);
                    }
                    if before.contains(n) {
                        let k = before.index_of(n);
                        assert(self.entries@[k].0@ == n);
                    }
                }
                assert forall|n: Seq<char>| self.contains(n) implies #[trigger] self.value(n) == (
                if n == name@ {
                    value
                } else {
                    before.value(n)
                }) by {
                    let k = self.index_of(n);
                    assert(before.entries@[k].0@ == n);
                    assert(before.index_of(n) == k);
                }
            },
            None => {
                self.entries.push((name, value));
                assert(self.names() =~= before.names().push(name@));
                assert forall|n: Seq<char>| self.contains(n) == (before.contains(n) || n
                    == name@) by {
                    if self.contains(n) {
                        let k = self.index_of(n);
                        if k < before.entries@.len() {
                            assert(before.entries@[k].0@ == n);
                        }
                    }
                    if before.contains(n) {
                        let k = before.index_of(n);
                        assert(self.entries@[k].0@ == n);
                    }
                    if n == name@ {
                        assert(self.entries@[self.entries@.len() - 1].0@ == n);
                    }
                }
                assert forall|n: Seq<char>| self.contains(n) implies #[trigger] self.value(n) == (
                if n == name@ {
                    value
                } else {
                    before.value(n)
                }) by {
                    let k = self.index_of(n);
                    if k < before.entries@.len() {
                        assert(before.entries@[k].0@ == n);
                        assert(before.index_of(n) == k);
                    }
                }
            },
        }
        assert(self.as_map() =~= before.as_map().insert(name@, value));
    }

    /// Takes `name` and its value out of the table, if the name stands in it.
    pub fn remove(&mut self, name: &str)
        requires
            old(self).wf(),
        ensures
            final(self).wf(),
            final(self).as_map() == old(self).as_map().remove(name@),
            final(self).names() == old(self).names().filter(other_than(name@)),
    {
        let ghost before = *self;
        match self.find(name) {
            Some(i) => {
                let _ = self.entries.remove(i);
                assert(self.entries@ =~= before.entries@.remove(i as int));
                assert forall|n: Seq<char>| self.contains(n) == (before.contains(n) && n
                    != name@) by {
                    if self.contains(n) {
                        let k = self.index_of(n);
                        if k < i {
                            assert(before.entries@[k].0@ == n);
                        } else {
                            assert(before.entries@[k + 1].0@ == n);
                        }
                    }
                    if before.contains(n) && n != name@ {
                        let k = before.index_of(n);
                        if k < i {
                            assert(self.entries@[k].0@ == n);
                        } else {
                            assert(self.entries@[k - 1].0@ == n);
                        }
                    }
                }
                assert forall|n: Seq<char>| self.contains(n) implies #[trigger] self.value(n)
                    == before.value(n) by {
                    let k = self.index_of(n);
                    if k < i {
                        assert(before.entries@[k].0@ == n);
                        assert(before.index_of(n) == k);
                    } else {
                        assert(before.entries@[k + 1].0@ == n);
                        assert(before.index_of(n) == k + 1);
                    }
                }
                proof {
                    lemma_filter_one_out(before.names(), name@, i as int);
                    assert(self.names() =~= before.names().remove(i as int));
                }
            },
            None => {
                proof {
                    lemma_filter_none_out(before.names(), name@);
                }
            },
        }
        assert(self.as_map() =~= before.as_map().remove(name@));
    }

    /// The names, in the order in which they came.
    pub fn get_names(&self) -> (r: Vec<String>)
        ensures
            r@.map_values(|s: String| s@) == self.names(),
    {
        let mut r: Vec<String> = Vec::new();
        let mut i: usize = 0;
        while i < self.entries.len()
            invariant
                i <= self.entries@.len(),
                r@.len() == i,
                forall|k: int| 0 <= k < i ==> r@[k]@ == self.entries@[k].0@,
            decreases self.entries.len() - i,
        {
            r.push(self.entries[i].0.clone());
            i = i + 1;
        }
        assert(r@.map_values(|s: String| s@) =~= self.names());
        r
    }
}

/// The test that a name is another than `name`.
pub open spec fn other_than(name: Seq<char>) -> spec_fn(Seq<char>) -> bool {
    |n: Seq<char>| n != name
}

/// Filtering a name out of a list that does not hold it changes nothing.
pub proof fn lemma_filter_none_out(names: Seq<Seq<char>>, name: Seq<char>)
    requires
        forall|i: int| 0 <= i < names.len() ==> names[i] != name,
    ensures
        names.filter(other_than(name)) == names,
    decreases names.len(),
{
    let keep = other_than(name);
    if names.len() > 0 {
        lemma_filter_none_out(names.drop_last(), name);
        assert(names =~= names.drop_last().push(names.last()));
        names.drop_last().lemma_filter_push(names.last(), keep);
    }
}

/// Filtering a name out of a list that holds it once, at `at`, takes out the
/// entry at `at`.
pub proof fn lemma_filter_one_out(names: Seq<Seq<char>>, name: Seq<char>, at: int)
    requires
        0 <= at < names.len(),
        names[at] == name,
        forall|i: int| 0 <= i < names.len() && i != at ==> names[i] != name,
    ensures
        names.filter(other_than(name)) == names.remove(at),
    decreases names.len(),
{
    let keep = other_than(name);
    let front = names.drop_last();
    assert(names =~= front.push(names.last()));
    front.lemma_filter_push(names.last(), keep);
    if at == names.len() - 1 {
        lemma_filter_none_out(front, name);
        assert(names.remove(at) =~= front);
    } else {
        lemma_filter_one_out(front, name, at);
        assert(names.remove(at) =~= front.remove(at).push(names.last()));
    }
}

} // verus!
