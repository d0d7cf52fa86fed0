//! A map keyed by strings that can also be walked: its entries, each key
//! once, in the order in which the keys were first inserted.

use vstd::prelude::*;
use crate::text::str_eq;

verus! {

/// A map from strings to values, kept as a list of entries with distinct keys.
pub struct StrMap<V> {
    entries: Vec<(String, V)>,
}

/// No key occurs twice among the entries.
pub open spec fn distinct_keys<V>(e: Seq<(String, V)>) -> bool {
    forall|i: int, j: int| 0 <= i < j < e.len() ==> (#[trigger] e[i]).0@ != (#[trigger] e[j]).0@
}

/// The map that a list of entries with distinct keys denotes.
pub open spec fn entries_map<V>(e: Seq<(String, V)>) -> Map<Seq<char>, V> {
    Map::new(
        |k: Seq<char>| exists|i: int| 0 <= i < e.len() && (#[trigger] e[i]).0@ == k,
        |k: Seq<char>| e[choose|i: int| 0 <= i < e.len() && (#[trigger] e[i]).0@ == k].1,
    )
}

/// An entry of a list with distinct keys is in the map it denotes.
pub proof fn lemma_entry_in_map<V>(e: Seq<(String, V)>, i: int)
    requires
        distinct_keys(e),
        0 <= i < e.len(),
    ensures
        entries_map(e).contains_key(e[i].0@),
        entries_map(e)[e[i].0@] == e[i].1,
{
    let k = e[i].0@;
    assert(exists|j: int| 0 <= j < e.len() && (#[trigger] e[j]).0@ == k);
    let c = choose|j: int| 0 <= j < e.len() && (#[trigger] e[j]).0@ == k;
    if c != i {
        if c < i {
            assert(e[c].0@ != e[i].0@);
        } else {
            assert(e[i].0@ != e[c].0@);
        }
    }
}

impl<V> StrMap<V> {
    #[verifier::type_invariant]
    spec fn inv(self) -> bool {
        distinct_keys(self.entries@)
    }

    /// The entries, in order.
    pub closed spec fn entries_view(&self) -> Seq<(String, V)> {
        self.entries@
    }

    /// The map.
    pub open spec fn view(&self) -> Map<Seq<char>, V> {
        entries_map(self.entries_view())
    }

    /// The empty map.
    pub fn new() -> (r: Self)
        ensures
            r@ == Map::<Seq<char>, V>::empty(),
            r.entries_view().len() == 0,
    {
        let r = StrMap { entries: Vec::new() };
        assert(r@ =~= Map::<Seq<char>, V>::empty());
        r
    }

    /// The index of the entry with key `k`, if any.
    fn find(&self, k: &str) -> (r: Option<usize>)
        ensures
            match r {
                Some(i) => i < self.entries@.len() && self.entries@[i as int].0@ == k@,
                None => forall|i: int| 0 <= i < self.entries@.len() ==> (#[trigger] self.entries@[i]).0@ != k@,
            },
    {
        let mut i: usize = 0;
        while i < self.entries.len()
            invariant
                i <= self.entries@.len(),
                forall|j: int| 0 <= j < i ==> (#[trigger] self.entries@[j]).0@ != k@,
            decreases self.entries@.len() - i,
        {
            if str_eq(self.entries[i].0.as_str(), k) {
                return Some(i);
            }
            i = i + 1;
        }
        None
    }

    /// Is there an entry for `k`?
    pub fn contains_key(&self, k: &str) -> (r: bool)
        ensures
            r == self@.contains_key(k@),
    {
        match self.find(k) {
            Some(i) => {
                proof {
                    use_type_invariant(self);
                    lemma_entry_in_map(self.entries@, i as int);
                }
                true
            },
            None => false,
        }
    }

    /// The value for `k`, if any.
    pub fn get(&self, k: &str) -> (r: Option<&V>)
        ensures
            match r {
                Some(v) => self@.contains_key(k@) && *v == self@[k@],
                None => !self@.contains_key(k@),
            },
    {
        match self.find(k) {
            Some(i) => {
                proof {
                    use_type_invariant(self);
                    lemma_entry_in_map(self.entries@, i as int);
                }
                Some(&self.entries[i].1)
            },
            None => None,
        }
    }

    /// Sets the value for `k`: the entry of `k` is replaced where there is
    /// one, else a new entry comes last.
    pub fn insert(&mut self, k: String, v: V)
        ensures
            final(self)@ == old(self)@.insert(k@, v),
            match old(self).find_spec(k@) {
                Some(i) => final(self).entries_view() == old(self).entries_view().update(i, (k, v)),
                None => final(self).entries_view() == old(self).entries_view().push((k, v)),
            },
    {
        proof {
            use_type_invariant(&*self);
        }
        let ghost old_e = self.entries@;
        let found = self.find(k.as_str());
        let mut e: Vec<(String, V)> = Vec::new();
        std::mem::swap(&mut e, &mut self.entries);
        match found {
            Some(i) => {
                e.set(i, (k, v));
            },
            None => {
                e.push((k, v));
            },
        }
        let ghost new_e = e@;
        proof {
            assert forall|a: int, b: int| 0 <= a < b < new_e.len() implies (#[trigger] new_e[a]).0@
                != (#[trigger] new_e[b]).0@ by {
                if found is Some {
                    let fi = found->0 as int;
                    if a != fi && b != fi {
                        assert(old_e[a].0@ != old_e[b].0@);
                    } else if a == fi {
                        assert(old_e[a].0@ != old_e[b].0@);
                    } else {
                        assert(old_e[a].0@ != old_e[b].0@);
                    }
                } else {
                    if b == old_e.len() {
                        assert(old_e[a].0@ != k@);
                    } else {
                        assert(old_e[a].0@ != old_e[b].0@);
                    }
                }
            }
        }
        self.entries = e;
        proof {
            assert forall|q: Seq<char>| #[trigger] self@.contains_key(q) == old(self)@.insert(k@, v).contains_key(q) by {
                if q == k@ {
                    match found {
                        Some(i) => assert(new_e[i as int].0@ == q),
                        None => assert(new_e[old_e.len() as int].0@ == q),
                    }
                } else {
                    if self@.contains_key(q) {
                        let j = choose|j: int| 0 <= j < new_e.len() && (#[trigger] new_e[j]).0@ == q;
                        assert(old_e[j].0@ == q);
                    }
                    if old(self)@.contains_key(q) {
                        let j = choose|j: int| 0 <= j < old_e.len() && (#[trigger] old_e[j]).0@ == q;
                        assert(new_e[j].0@ == q);
                    }
                }
            }
            assert forall|q: Seq<char>| #[trigger] self@.contains_key(q) implies self@[q]
                == old(self)@.insert(k@, v)[q] by {
                let j = choose|j: int| 0 <= j < new_e.len() && (#[trigger] new_e[j]).0@ == q;
                lemma_entry_in_map(new_e, j);
                if q != k@ {
                    lemma_entry_in_map(old_e, j);
                } else {
                    match found {
                        Some(i) => {},
                        None => {},
                    }
                }
            }
            assert(self@ =~= old(self)@.insert(k@, v));
        }
    }

    /// The index of the entry with key `k`, if any.
    pub closed spec fn find_spec(&self, k: Seq<char>) -> Option<int> {
        if exists|i: int| 0 <= i < self.entries@.len() && (#[trigger] self.entries@[i]).0@ == k {
            Some(choose|i: int| 0 <= i < self.entries@.len() && (#[trigger] self.entries@[i]).0@ == k)
        } else {
            None
        }
    }

    /// Number of entries.
    pub fn len(&self) -> (r: usize)
        ensures
            r == self.entries_view().len(),
    {
        self.entries.len()
    }

    /// The entries, in order: each key once, each with its value.
    pub fn entries(&self) -> (r: &Vec<(String, V)>)
        ensures
            r@ == self.entries_view(),
            distinct_keys(r@),
            forall|i: int| 0 <= i < r@.len() ==> self@.contains_key((#[trigger] r@[i]).0@) && self@[r@[i].0@] == r@[i].1,
            forall|k: Seq<char>| #[trigger] self@.contains_key(k) ==> exists|i: int| 0 <= i < r@.len() && (#[trigger] r@[i]).0@ == k,
    {
        proof {
            use_type_invariant(self);
            assert forall|i: int| 0 <= i < self.entries@.len() implies self@.contains_key((#[trigger] self.entries@[i]).0@) && self@[self.entries@[i].0@] == self.entries@[i].1 by {
                lemma_entry_in_map(self.entries@, i);
            }
        }
        &self.entries
    }

    /// The entries, taken out of the map.
    pub fn into_entries(self) -> (r: Vec<(String, V)>)
        ensures
            r@ == self.entries_view(),
            distinct_keys(r@),
    {
        proof {
            use_type_invariant(&self);
        }
        self.entries
    }
}

} // verus!
