//! Tables keyed by provider names, prompt ids, and other text.

use vstd::prelude::*;

use crate::text::{is_text_less, same_text, text_less, text_less_irreflexive, text_less_transitive};

verus! {

/// Keys in strictly increasing scalar-value order.
pub open spec fn strictly_ordered(keys: Seq<Seq<char>>) -> bool {
    forall|i: int, j: int| 0 <= i < j < keys.len() ==> text_less(#[trigger] keys[i], #[trigger] keys[j])
}

/// A map from text to `V`, iterated in scalar-value order of its keys.
pub struct NameTable<V> {
    entries: Vec<(String, V)>,
}

spec fn entry_keys<V>(entries: Seq<(String, V)>) -> Seq<Seq<char>> {
    Seq::new(entries.len(), |i: int| entries[i].0@)
}

spec fn entry_map<V>(entries: Seq<(String, V)>) -> Map<Seq<char>, V> {
    Map::new(
        |key: Seq<char>| exists|i: int| 0 <= i < entries.len() && (#[trigger] entries[i]).0@ == key,
        |key: Seq<char>| entries[entry_position(entries, key)].1,
    )
}

spec fn entry_position<V>(entries: Seq<(String, V)>, key: Seq<char>) -> int {
    choose|i: int| 0 <= i < entries.len() && (#[trigger] entries[i]).0@ == key
}

/// Ordered keys are distinct, so a position determines the value of its key.
proof fn lemma_entry_value<V>(entries: Seq<(String, V)>, i: int)
    requires
        strictly_ordered(entry_keys(entries)),
        0 <= i < entries.len(),
    ensures
        entry_map(entries).contains_pair(entries[i].0@, entries[i].1),
{
    let key = entries[i].0@;
    assert(entry_map(entries).contains_key(key));
    let j = entry_position(entries, key);
    assert(entry_keys(entries)[i] == entry_keys(entries)[j]);
    text_less_irreflexive(key);
    assert(i == j);
}

proof fn lemma_same_position<V>(entries: Seq<(String, V)>, i: int, j: int)
    requires
        strictly_ordered(entry_keys(entries)),
        0 <= i < entries.len(),
        0 <= j < entries.len(),
        entries[i].0@ == entries[j].0@,
    ensures
        i == j,
{
    assert(entry_keys(entries)[i] == entry_keys(entries)[j]);
    text_less_irreflexive(entries[i].0@);
}

impl<V> NameTable<V> {
    #[verifier::type_invariant]
    spec fn ordered(self) -> bool {
        strictly_ordered(entry_keys(self.entries@))
    }

    /// The keys in iteration order.
    pub closed spec fn keys(self) -> Seq<Seq<char>> {
        entry_keys(self.entries@)
    }

    /// An empty table.
    pub fn new() -> (res: Self)
        ensures
            res@ == Map::<Seq<char>, V>::empty(),
            res.keys() == Seq::<Seq<char>>::empty(),
    {
        let res = NameTable { entries: Vec::new() };
        assert(res@ =~= Map::<Seq<char>, V>::empty());
        res
    }

    /// The number of keys. The keys are strictly ordered and are the domain of the map.
    pub fn len(&self) -> (res: usize)
        ensures
            res == self.keys().len(),
            strictly_ordered(self.keys()),
            forall|i: int|
                0 <= i < self.keys().len() ==> self@.contains_key(#[trigger] self.keys()[i]),
            forall|key: Seq<char>| #[trigger]
                self@.contains_key(key) ==> self.keys().contains(key),
    {
        proof {
            use_type_invariant(self);
            assert forall|i: int| 0 <= i < self.keys().len() implies self@.contains_key(
                #[trigger] self.keys()[i],
            ) by {
                lemma_entry_value(self.entries@, i);
            }
            assert forall|key: Seq<char>| #[trigger]
                self@.contains_key(key) implies self.keys().contains(key) by {
                let i = choose|i: int|
                    0 <= i < self.entries@.len() && (#[trigger] self.entries@[i]).0@ == key;
                assert(self.keys()[i] == key);
            }
        }
        self.entries.len()
    }

    /// Reports whether the table has no key.
    pub fn is_empty(&self) -> (res: bool)
        ensures
            res == (self@ == Map::<Seq<char>, V>::empty()),
    {
        proof {
            use_type_invariant(self);
            if self.entries@.len() > 0 {
                lemma_entry_value(self.entries@, 0);
            } else {
                assert(self@ =~= Map::<Seq<char>, V>::empty());
            }
        }
        self.entries.len() == 0
    }

    /// The key at position `i` of the iteration order.
    pub fn key_at(&self, i: usize) -> (res: &String)
        requires
            i < self.keys().len(),
        ensures
            res@ == self.keys()[i as int],
            self@.contains_key(res@),
    {
        proof {
            use_type_invariant(self);
            lemma_entry_value(self.entries@, i as int);
        }
        &self.entries[i].0
    }

    /// The value at position `i` of the iteration order.
    pub fn value_at(&self, i: usize) -> (res: &V)
        requires
            i < self.keys().len(),
        ensures
            self@.contains_pair(self.keys()[i as int], *res),
    {
        proof {
            use_type_invariant(self);
            lemma_entry_value(self.entries@, i as int);
        }
        &self.entries[i].1
    }

    fn position(&self, key: &str) -> (res: Option<usize>)
        ensures
            match res {
                Some(i) => {
                    &&& i < self.entries@.len()
                    &&& self.entries@[i as int].0@ == key@
                    &&& self@.contains_pair(key@, self.entries@[i as int].1)
                },
                None => !self@.contains_key(key@),
            },
    {
        proof {
            use_type_invariant(self);
        }
        let mut i: usize = 0;
        while i < self.entries.len()
            invariant
                i <= self.entries@.len(),
                strictly_ordered(entry_keys(self.entries@)),
                forall|j: int| 0 <= j < i ==> (#[trigger] self.entries@[j]).0@ != key@,
            decreases self.entries@.len() - i,
        {
            if same_text(self.entries[i].0.as_str(), key) {
                proof {
                    lemma_entry_value(self.entries@, i as int);
                }
                return Some(i);
            }
            i = i + 1;
        }
        None
    }

    /// Reports whether `key` is present.
    pub fn contains_key(&self, key: &str) -> (res: bool)
        ensures
            res == self@.contains_key(key@),
    {
        match self.position(key) {
            Some(_) => true,
            None => false,
        }
    }

    /// The value of `key`.
    pub fn get(&self, key: &str) -> (res: Option<&V>)
        ensures
            match res {
                Some(value) => self@.contains_pair(key@, *value),
                None => !self@.contains_key(key@),
            },
    {
        match self.position(key) {
            Some(i) => Some(&self.entries[i].1),
            None => None,
        }
    }

    /// Removes `key`, returning its value.
    pub fn remove(&mut self, key: &str) -> (res: Option<V>)
        ensures
            final(self)@ == old(self)@.remove(key@),
            match res {
                Some(value) => old(self)@.contains_pair(key@, value),
                None => !old(self)@.contains_key(key@) && *final(self) == *old(self),
            },
    {
        proof {
            use_type_invariant(&*self);
        }
        let ghost before = self.entries@;
        match self.position(key) {
            Some(i) => {
                let mut entries: Vec<(String, V)> = Vec::new();
                core::mem::swap(&mut entries, &mut self.entries);
                let removed = entries.remove(i);
                proof {
                    assert forall|x: int, y: int| 0 <= x < y < entries@.len() implies text_less(
                        #[trigger] entry_keys(entries@)[x],
                        #[trigger] entry_keys(entries@)[y],
                    ) by {
                        let x2 = if x < i {
                            x
                        } else {
                            x + 1
                        };
                        let y2 = if y < i {
                            y
                        } else {
                            y + 1
                        };
                        assert(entry_keys(before)[x2] == entry_keys(entries@)[x]);
                        assert(entry_keys(before)[y2] == entry_keys(entries@)[y]);
                    }
                    assert forall|k: Seq<char>|
                        entry_map(entries@).contains_key(k) == entry_map(before).remove(
                            key@,
                        ).contains_key(k) by {
                        if entry_map(entries@).contains_key(k) {
                            let x = choose|x: int|
                                0 <= x < entries@.len() && (#[trigger] entries@[x]).0@ == k;
                            let x2 = if x < i {
                                x
                            } else {
                                x + 1
                            };
                            lemma_entry_value(before, x2);
                            if k == key@ {
                                lemma_same_position(before, x2, i as int);
                            }
                        }
                        if entry_map(before).remove(key@).contains_key(k) {
                            let x = choose|x: int|
                                0 <= x < before.len() && (#[trigger] before[x]).0@ == k;
                            let x2 = if x < i {
                                x
                            } else {
                                x - 1
                            };
                            assert(entries@[x2].0@ == k);
                        }
                    }
                    assert forall|k: Seq<char>| entry_map(entries@).contains_key(k) implies entry_map(
                        entries@,
                    )[k] == entry_map(before)[k] by {
                        let x = choose|x: int|
                            0 <= x < entries@.len() && (#[trigger] entries@[x]).0@ == k;
                        let x2 = if x < i {
                            x
                        } else {
                            x + 1
                        };
                        lemma_entry_value(before, x2);
                        lemma_entry_value(entries@, x);
                    }
                    assert(entry_map(entries@) =~= entry_map(before).remove(key@));
                }
                self.entries = entries;
                Some(removed.1)
            },
            None => {
                assert(self@ =~= self@.remove(key@));
                None
            },
        }
    }

    /// Sets the value of `key`.
    pub fn insert(&mut self, key: String, value: V)
        ensures
            final(self)@ == old(self)@.insert(key@, value),
    {
        let _ = self.remove(key.as_str());
        proof {
            use_type_invariant(&*self);
        }
        let ghost before = self.entries@;
        let mut entries: Vec<(String, V)> = Vec::new();
        core::mem::swap(&mut entries, &mut self.entries);
        let mut i: usize = 0;
        while i < entries.len() && is_text_less(entries[i].0.as_str(), key.as_str())
            invariant
                entries@ == before,
                i <= entries@.len(),
                forall|j: int| 0 <= j < i ==> text_less((#[trigger] entries@[j]).0@, key@),
            decreases entries@.len() - i,
        {
            i = i + 1;
        }
        let ghost inserted = key@;
        proof {
            assert(!entry_map(before).contains_key(inserted));
            assert forall|j: int| i <= j < before.len() implies text_less(
                inserted,
                (#[trigger] before[j]).0@,
            ) by {
                lemma_entry_value(before, i as int);
                if j > i {
                    assert(text_less(entry_keys(before)[i as int], entry_keys(before)[j]));
                    text_less_transitive(inserted, before[i as int].0@, before[j].0@);
                }
            }
        }
        entries.insert(i, (key, value));
        proof {
            assert(entries@[i as int].0@ == inserted);
            assert forall|x: int, y: int| 0 <= x < y < entries@.len() implies text_less(
                #[trigger] entry_keys(entries@)[x],
                #[trigger] entry_keys(entries@)[y],
            ) by {
                let x2 = if x < i {
                    x
                } else {
                    x - 1
                };
                let y2 = if y < i {
                    y
                } else {
                    y - 1
                };
                if x == i {
                    assert(before[y2].0@ == entry_keys(entries@)[y]);
                } else if y == i {
                    assert(before[x2].0@ == entry_keys(entries@)[x]);
                } else {
                    assert(entry_keys(before)[x2] == entry_keys(entries@)[x]);
                    assert(entry_keys(before)[y2] == entry_keys(entries@)[y]);
                }
            }
            let target = entry_map(before).insert(inserted, value);
            assert forall|k: Seq<char>|
                entry_map(entries@).contains_key(k) == target.contains_key(k) by {
                if entry_map(entries@).contains_key(k) {
                    let x = choose|x: int|
                        0 <= x < entries@.len() && (#[trigger] entries@[x]).0@ == k;
                    if x != i {
                        let x2 = if x < i {
                            x
                        } else {
                            x - 1
                        };
                        assert(before[x2].0@ == k);
                    }
                }
                if target.contains_key(k) {
                    if k != inserted {
                        let x = choose|x: int|
                            0 <= x < before.len() && (#[trigger] before[x]).0@ == k;
                        let x2 = if x < i {
                            x
                        } else {
                            x + 1
                        };
                        assert(entries@[x2].0@ == k);
                    }
                }
            }
            assert forall|k: Seq<char>| entry_map(entries@).contains_key(k) implies entry_map(
                entries@,
            )[k] == target[k] by {
                let x = choose|x: int| 0 <= x < entries@.len() && (#[trigger] entries@[x]).0@ == k;
                lemma_entry_value(entries@, x);
                if x != i {
                    let x2 = if x < i {
                        x
                    } else {
                        x - 1
                    };
                    lemma_entry_value(before, x2);
                }
            }
            assert(entry_map(entries@) =~= target);
            assert(target =~= old(self)@.insert(inserted, value));
        }
        self.entries = entries;
    }
}

impl<V> View for NameTable<V> {
    type V = Map<Seq<char>, V>;

    closed spec fn view(&self) -> Map<Seq<char>, V> {
        entry_map(self.entries@)
    }
}

} // verus!
