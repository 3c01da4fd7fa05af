//! Tables keyed by two texts.

use vstd::prelude::*;

use crate::names::{strictly_ordered, NameTable};
use crate::text::{text_less, text_less_irreflexive};

verus! {

/// A two-part key.
pub type PairKey = (Seq<char>, Seq<char>);

/// Lexicographic order of two-part keys.
pub open spec fn pair_less(a: PairKey, b: PairKey) -> bool {
    text_less(a.0, b.0) || (a.0 == b.0 && text_less(a.1, b.1))
}

/// Keys in strictly increasing order.
pub open spec fn pairs_ordered(keys: Seq<PairKey>) -> bool {
    forall|i: int, j: int| 0 <= i < j < keys.len() ==> pair_less(#[trigger] keys[i], #[trigger] keys[j])
}

/// Ordered keys are distinct.
pub proof fn ordered_pairs_are_distinct(keys: Seq<PairKey>)
    requires
        pairs_ordered(keys),
    ensures
        keys.no_duplicates(),
{
    assert forall|i: int, j: int| 0 <= i < j < keys.len() implies keys[i] != keys[j] by {
        assert(pair_less(keys[i], keys[j]));
        text_less_irreflexive(keys[i].0);
        text_less_irreflexive(keys[i].1);
    }
}

/// A map from two texts to `V`.
pub struct PairTable<V> {
    outer: NameTable<NameTable<V>>,
}

spec fn flat<V>(outer: Map<Seq<char>, NameTable<V>>) -> Map<PairKey, V> {
    Map::new(
        |key: PairKey| outer.contains_key(key.0) && outer[key.0]@.contains_key(key.1),
        |key: PairKey| outer[key.0]@[key.1],
    )
}

/// One of the first `i` names is `name`.
spec fn among_first(names: Seq<Seq<char>>, i: int, name: Seq<char>) -> bool {
    exists|j: int| 0 <= j < i && #[trigger] names[j] == name
}

/// The keys `(a, b)` for the first `k` names `b`.
spec fn with_first(a: Seq<char>, names: Seq<Seq<char>>, k: nat) -> Seq<PairKey> {
    Seq::new(k, |x: int| (a, names[x]))
}

/// Contents of two-part keys, in order.
pub open spec fn pair_contents(keys: Seq<(String, String)>) -> Seq<PairKey> {
    Seq::new(keys.len(), |i: int| (keys[i].0@, keys[i].1@))
}

impl<V> PairTable<V> {
    /// An empty table.
    pub fn new() -> (res: Self)
        ensures
            res@ == Map::<PairKey, V>::empty(),
    {
        let res = PairTable { outer: NameTable::new() };
        assert(res@ =~= Map::<PairKey, V>::empty());
        res
    }

    /// The value of a key.
    pub fn get(&self, a: &str, b: &str) -> (res: Option<&V>)
        ensures
            match res {
                Some(value) => self@.contains_pair((a@, b@), *value),
                None => !self@.contains_key((a@, b@)),
            },
    {
        match self.outer.get(a) {
            Some(inner) => inner.get(b),
            None => None,
        }
    }

    /// Reports whether a key is present.
    pub fn contains_key(&self, a: &str, b: &str) -> (res: bool)
        ensures
            res == self@.contains_key((a@, b@)),
    {
        match self.get(a, b) {
            Some(_) => true,
            None => false,
        }
    }

    /// Sets the value of a key.
    pub fn insert(&mut self, a: String, b: String, value: V)
        ensures
            final(self)@ == old(self)@.insert((a@, b@), value),
    {
        let ghost before = self.outer@;
        let mut inner = match self.outer.remove(a.as_str()) {
            Some(inner) => inner,
            None => NameTable::new(),
        };
        inner.insert(b, value);
        self.outer.insert(a, inner);
        assert(self@ =~= flat(before).insert((a@, b@), value));
    }

    /// The keys in increasing order.
    pub fn keys(&self) -> (res: Vec<(String, String)>)
        ensures
            pairs_ordered(pair_contents(res@)),
            forall|key: PairKey|
                self@.contains_key(key) <==> #[trigger] pair_contents(res@).contains(key),
            pair_contents(res@).to_set() == self@.dom(),
            res@.len() == self@.dom().len(),
            self@.dom().finite(),
    {
        let mut keys: Vec<(String, String)> = Vec::new();
        let n: usize = self.outer.len();
        let mut i: usize = 0;
        while i < n
            invariant
                n == self.outer.keys().len(),
                i <= n,
                strictly_ordered(self.outer.keys()),
                pairs_ordered(pair_contents(keys@)),
                forall|x: int|
                    0 <= x < keys@.len() ==> self@.contains_key(
                        #[trigger] pair_contents(keys@)[x],
                    ),
                forall|x: int|
                    0 <= x < keys@.len() ==> among_first(
                        self.outer.keys(),
                        i as int,
                        (#[trigger] pair_contents(keys@)[x]).0,
                    ),
                forall|key: PairKey, j: int|
                    0 <= j < i && self.outer.keys()[j] == key.0 && self@.contains_key(key)
                        ==> #[trigger] pair_contents(keys@).contains(key) || #[trigger] self.outer.keys()[j] != key.0,
            decreases n - i,
        {
            let a = self.outer.key_at(i);
            let inner = self.outer.value_at(i);
            let m: usize = inner.len();
            let mut k: usize = 0;
            let ghost start = keys@;
            while k < m
                invariant
                    m == inner.keys().len(),
                    k <= m,
                    i < n,
                    n == self.outer.keys().len(),
                    strictly_ordered(self.outer.keys()),
                    strictly_ordered(inner.keys()),
                    a@ == self.outer.keys()[i as int],
                    self.outer@.contains_pair(a@, *inner),
                    forall|x: int|
                        0 <= x < inner.keys().len() ==> inner@.contains_key(
                            #[trigger] inner.keys()[x],
                        ),
                    pairs_ordered(pair_contents(start)),
                    forall|x: int|
                        0 <= x < start.len() ==> self@.contains_key(
                            #[trigger] pair_contents(start)[x],
                        ),
                    forall|x: int|
                        0 <= x < start.len() ==> among_first(
                            self.outer.keys(),
                            i as int,
                            (#[trigger] pair_contents(start)[x]).0,
                        ),
                    keys@.len() == start.len() + k,
                    pair_contents(keys@) == pair_contents(start) + with_first(
                        a@,
                        inner.keys(),
                        k as nat,
                    ),
                decreases m - k,
            {
                let b = inner.key_at(k);
                let ghost before = keys@;
                keys.push((a.clone(), b.clone()));
                assert(pair_contents(keys@) =~= pair_contents(before).push((a@, b@)));
                assert(with_first(a@, inner.keys(), (k + 1) as nat) =~= with_first(
                    a@,
                    inner.keys(),
                    k as nat,
                ).push((a@, b@)));
                assert(pair_contents(keys@) =~= pair_contents(start) + with_first(
                    a@,
                    inner.keys(),
                    (k + 1) as nat,
                ));
                k = k + 1;
            }
            proof {
                let all = pair_contents(keys@);
                let old_part = pair_contents(start);
                assert forall|x: int, y: int| 0 <= x < y < all.len() implies pair_less(
                    #[trigger] all[x],
                    #[trigger] all[y],
                ) by {
                    if y < old_part.len() {
                        assert(all[x] == old_part[x]);
                        assert(all[y] == old_part[y]);
                    } else if x < old_part.len() {
                        assert(all[x] == old_part[x]);
                        assert(among_first(self.outer.keys(), i as int, old_part[x].0));
                        let j = choose|j: int|
                            0 <= j < i && #[trigger] self.outer.keys()[j] == old_part[x].0;
                        assert(text_less(self.outer.keys()[j], self.outer.keys()[i as int]));
                    } else {
                        assert(text_less(
                            inner.keys()[x - old_part.len()],
                            inner.keys()[y - old_part.len()],
                        ));
                    }
                }
                assert forall|x: int| 0 <= x < all.len() implies self@.contains_key(
                    #[trigger] all[x],
                ) by {
                    if x < old_part.len() {
                        assert(all[x] == old_part[x]);
                    } else {
                        assert(inner@.contains_key(inner.keys()[x - old_part.len()]));
                    }
                }
                assert forall|x: int| 0 <= x < all.len() implies among_first(
                    self.outer.keys(),
                    i + 1,
                    (#[trigger] all[x]).0,
                ) by {
                    if x < old_part.len() {
                        assert(all[x] == old_part[x]);
                        let j = choose|j: int|
                            0 <= j < i && #[trigger] self.outer.keys()[j] == old_part[x].0;
                        assert(self.outer.keys()[j] == all[x].0);
                    } else {
                        assert(self.outer.keys()[i as int] == all[x].0);
                    }
                }
                assert forall|key: PairKey, j: int|
                    0 <= j < i + 1 && self.outer.keys()[j] == key.0 && self@.contains_key(
                        key,
                    ) implies #[trigger] all.contains(key) || #[trigger] self.outer.keys()[j] != key.0 by {
                    if j < i {
                        assert(old_part.contains(key));
                        let x = old_part.index_of(key);
                        assert(all[x] == key);
                    } else {
                        assert(inner@.contains_key(key.1));
                        assert(inner.keys().contains(key.1));
                        let x = inner.keys().index_of(key.1);
                        assert(all[old_part.len() + x] == key);
                    }
                }
            }
            i = i + 1;
        }
        proof {
            let all = pair_contents(keys@);
            assert forall|key: PairKey| self@.contains_key(key) <==> #[trigger] all.contains(
                key,
            ) by {
                if self@.contains_key(key) {
                    assert(self.outer.keys().contains(key.0));
                    let j = self.outer.keys().index_of(key.0);
                    assert(self.outer.keys()[j] == key.0);
                }
                if all.contains(key) {
                    let x = all.index_of(key);
                    assert(self@.contains_key(all[x]));
                }
            }
            ordered_pairs_are_distinct(all);
            all.unique_seq_to_set();
            assert(all.to_set() =~= self@.dom());
        }
        keys
    }
}

impl<V> View for PairTable<V> {
    type V = Map<PairKey, V>;

    closed spec fn view(&self) -> Map<PairKey, V> {
        flat(self.outer@)
    }
}

} // verus!
