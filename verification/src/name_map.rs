//! A map keyed by text, held as a list of entries in the order of their first insertion.

use crate::text::same_text;
use vstd::prelude::*;

verus! {

/// Whether a list of entries has one under `key`.
spec fn holds<V>(s: Seq<(String, V)>, key: Seq<char>) -> bool {
    exists|i: int| 0 <= i < s.len() && (#[trigger] s[i]).0@ == key
}

/// The place of the entry under `key`.
spec fn place<V>(s: Seq<(String, V)>, key: Seq<char>) -> int {
    choose|i: int| 0 <= i < s.len() && (#[trigger] s[i]).0@ == key
}

spec fn distinct<V>(s: Seq<(String, V)>) -> bool {
    forall|i: int, j: int| 0 <= i < j < s.len() ==> (#[trigger] s[i]).0@ != (#[trigger] s[j]).0@
}

spec fn map_of<V>(s: Seq<(String, V)>) -> Map<Seq<char>, V> {
    Map::new(|k: Seq<char>| holds(s, k), |k: Seq<char>| s[place(s, k)].1)
}

/// A map from text to values. No key occurs twice.
#[derive(Debug)]
pub struct NameMap<V> {
    entries: Vec<(String, V)>,
}

impl<V> NameMap<V> {
    #[verifier::type_invariant]
    spec fn keys_distinct(&self) -> bool {
        distinct(self.entries@)
    }

    /// What the map holds.
    pub closed spec fn view(&self) -> Map<Seq<char>, V> {
        map_of(self.entries@)
    }

    /// The keys, each at the place where it was first inserted.
    pub closed spec fn order(&self) -> Seq<Seq<char>> {
        Seq::new(self.entries@.len(), |i: int| self.entries@[i].0@)
    }

    /// The empty map.
    pub fn new() -> (r: Self)
        ensures
            r@ == Map::<Seq<char>, V>::empty(),
            r.order() == Seq::<Seq<char>>::empty(),
    {
        let r = NameMap { entries: Vec::new() };
        assert(r@ =~= Map::<Seq<char>, V>::empty());
        assert(r.order() =~= Seq::<Seq<char>>::empty());
        r
    }

    fn find(&self, key: &str) -> (r: Option<usize>)
        ensures
            r matches Some(i) ==> i < self.entries@.len() && self.entries@[i as int].0@ == key@,
            r is None ==> !holds(self.entries@, key@),
    {
        let mut i: usize = 0;
        while i < self.entries.len()
            invariant
                i <= self.entries@.len(),
                forall|j: int| 0 <= j < i ==> (#[trigger] self.entries@[j]).0@ != key@,
            decreases self.entries@.len() - i,
        {
            if same_text(self.entries[i].0.as_str(), key) {
                return Some(i);
            }
            i += 1;
        }
        None
    }

    /// The value under a key.
    pub fn get(&self, key: &str) -> (r: Option<&V>)
        ensures
            r == (if self@.dom().contains(key@) { Some(&self@[key@]) } else { None }),
    {
        proof {
            use_type_invariant(self);
        }
        match self.find(key) {
            Some(i) => {
                assert(holds(self.entries@, key@));
                assert(place(self.entries@, key@) == i);
                Some(&self.entries[i].1)
            },
            None => None,
        }
    }

    /// Whether there is a value under a key.
    pub fn contains(&self, key: &str) -> (r: bool)
        ensures
            r == self@.dom().contains(key@),
    {
        match self.find(key) {
            Some(i) => {
                assert(holds(self.entries@, key@));
                true
            },
            None => false,
        }
    }

    /// Puts a value under a key. A value that was there is replaced, and keeps its place.
    pub fn insert(&mut self, key: String, value: V)
        ensures
            final(self)@ == old(self)@.insert(key@, value),
            final(self).order() == (if old(self)@.dom().contains(key@) {
                old(self).order()
            } else {
                old(self).order().push(key@)
            }),
    {
        proof {
            use_type_invariant(&*self);
        }
        let ghost before = self.entries@;
        match self.find(key.as_str()) {
            Some(i) => {
                proof {
                    assert(holds(before, key@));
                    assert(place(before, key@) == i);
                }
                let ghost after = before.update(i as int, (key, value));
                assert(distinct(after));
                let mut taken = NameMap::new();
                core::mem::swap(self, &mut taken);
                let mut list = taken.entries;
                list[i] = (key, value);
                *self = NameMap { entries: list };
                proof {
                    assert(self.entries@ == after);
                    assert forall|k: Seq<char>| holds(after, k) == holds(before, k) by {
                        if holds(after, k) {
                            let w = place(after, k);
                            assert(before[w].0@ == k);
                        }
                        if holds(before, k) {
                            let w = place(before, k);
                            assert(after[w].0@ == k);
                        }
                    }
                    assert forall|k: Seq<char>| holds(before, k) && k != key@ implies place(after, k) == place(before, k) by {
                        assert(after[place(before, k)].0@ == k);
                    }
                    assert(after[i as int].0@ == key@);
                    assert(place(after, key@) == i);
                    assert(map_of(after) =~= map_of(before).insert(key@, value));
                    assert(self.order() =~= old(self).order());
                }
            },
            None => {
                let ghost after = before.push((key, value));
                assert(distinct(after));
                let mut taken = NameMap::new();
                core::mem::swap(self, &mut taken);
                let mut list = taken.entries;
                list.push((key, value));
                *self = NameMap { entries: list };
                proof {
                    assert(self.entries@ == after);
                    assert(after[before.len() as int].0@ == key@);
                    assert forall|k: Seq<char>| holds(after, k) == (holds(before, k) || k == key@) by {
                        if holds(before, k) {
                            assert(after[place(before, k)].0@ == k);
                        }
                        if holds(after, k) && k != key@ {
                            assert(before[place(after, k)].0@ == k);
                        }
                    }
                    assert forall|k: Seq<char>| holds(before, k) implies place(after, k) == place(before, k) by {
                        assert(after[place(before, k)].0@ == k);
                    }
                    assert(map_of(after) =~= map_of(before).insert(key@, value));
                    assert(self.order() =~= old(self).order().push(key@));
                }
            },
        }
    }

    /// Takes the value under a key out of the map.
    pub fn remove(&mut self, key: &str) -> (r: Option<V>)
        ensures
            final(self)@ == old(self)@.remove(key@),
            r == (if old(self)@.dom().contains(key@) { Some(old(self)@[key@]) } else { None }),
    {
        proof {
            use_type_invariant(&*self);
        }
        let ghost before = self.entries@;
        match self.find(key) {
            Some(i) => {
                proof {
                    assert(holds(before, key@));
                    assert(place(before, key@) == i);
                }
                let ghost after = before.remove(i as int);
                assert(distinct(after));
                let mut taken = NameMap::new();
                core::mem::swap(self, &mut taken);
                let mut list = taken.entries;
                let gone = list.remove(i);
                *self = NameMap { entries: list };
                proof {
                    assert(self.entries@ == after);
                    assert forall|k: Seq<char>| holds(after, k) == (holds(before, k) && k != key@) by {
                        if holds(after, k) {
                            let w = place(after, k);
                            assert(before[if w < i { w } else { w + 1 }].0@ == k);
                        }
                        if holds(before, k) && k != key@ {
                            let w = place(before, k);
                            assert(after[if w < i { w } else { w - 1 }].0@ == k);
                        }
                    }
                    assert forall|k: Seq<char>| holds(after, k) implies after[place(after, k)] == before[place(before, k)] by {
                        let w = place(after, k);
                        assert(before[if w < i { w } else { w + 1 }].0@ == k);
                    }
                    assert(map_of(after) =~= map_of(before).remove(key@));
                }
                Some(gone.1)
            },
            None => {
                assert(map_of(before) =~= map_of(before).remove(key@));
                None
            },
        }
    }

    /// The number of keys. The keys in their order are all different, and are those of the map.
    pub fn len(&self) -> (r: usize)
        ensures
            r == self.order().len(),
            self.order().no_duplicates(),
            forall|k: Seq<char>| self.order().contains(k) <==> self@.dom().contains(k),
    {
        proof {
            use_type_invariant(self);
            let s = self.entries@;
            let o = self.order();
            assert forall|k: Seq<char>| o.contains(k) <==> self@.dom().contains(k) by {
                if o.contains(k) {
                    let i = choose|i: int| 0 <= i < o.len() && o[i] == k;
                    assert(s[i].0@ == k);
                }
                if self@.dom().contains(k) {
                    assert(holds(s, k));
                    let i = place(s, k);
                    assert(o[i] == k);
                }
            }
            assert forall|i: int, j: int| 0 <= i < o.len() && 0 <= j < o.len() && i != j implies o[i] != o[j] by {
                if i < j {
                    assert(s[i].0@ != s[j].0@);
                } else {
                    assert(s[j].0@ != s[i].0@);
                }
            }
        }
        self.entries.len()
    }

    /// The key at a place.
    pub fn key_at(&self, i: usize) -> (r: &String)
        requires
            i < self.order().len(),
        ensures
            r@ == self.order()[i as int],
            self@.dom().contains(r@),
    {
        assert(holds(self.entries@, self.entries@[i as int].0@));
        &self.entries[i].0
    }

    /// The value at a place.
    pub fn value_at(&self, i: usize) -> (r: &V)
        requires
            i < self.order().len(),
        ensures
            self@.dom().contains(self.order()[i as int]),
            *r == self@[self.order()[i as int]],
    {
        proof {
            use_type_invariant(self);
            let s = self.entries@;
            let k = s[i as int].0@;
            assert(holds(s, k));
            assert(place(s, k) == i);
        }
        &self.entries[i].1
    }

    /// The keys, each once.
    pub fn keys(&self) -> (r: Vec<String>)
        ensures
            r@.map_values(|t: String| t@) == self.order(),
            self.order().no_duplicates(),
            forall|k: Seq<char>| self.order().contains(k) <==> self@.dom().contains(k),
    {
        let n: usize = self.len();
        let mut out: Vec<String> = Vec::new();
        let mut i: usize = 0;
        while i < n
            invariant
                n == self.order().len(),
                i <= n,
                out@.len() == i,
                forall|j: int| 0 <= j < i ==> (#[trigger] out@[j])@ == self.order()[j],
            decreases n - i,
        {
            out.push(self.key_at(i).clone());
            i += 1;
        }
        assert(out@.map_values(|t: String| t@) =~= self.order());
        out
    }

    /// Takes everything out of the map.
    pub fn clear(&mut self)
        ensures
            final(self)@ == Map::<Seq<char>, V>::empty(),
            final(self).order() == Seq::<Seq<char>>::empty(),
    {
        *self = NameMap::new();
    }
}

} // verus!
