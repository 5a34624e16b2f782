//! A table of values keyed by names, kept in the order in which names were first
//! inserted; no name occurs twice.

use vstd::prelude::*;

verus! {

/// The map that a list of (name, value) pairs with distinct names stands for.
pub open spec fn map_of_pairs<V>(pairs: Seq<(Seq<char>, V)>) -> Map<Seq<char>, V> {
    Map::new(
        |k: Seq<char>| exists|i: int| 0 <= i < pairs.len() && #[trigger] pairs[i].0 == k,
        |k: Seq<char>| pairs[index_of_name(pairs, k)].1,
    )
}

/// The position of `k` among the names of `pairs` (meaningful when it occurs).
pub open spec fn index_of_name<V>(pairs: Seq<(Seq<char>, V)>, k: Seq<char>) -> int {
    choose|i: int| 0 <= i < pairs.len() && #[trigger] pairs[i].0 == k
}

/// No name occurs twice among the pairs.
pub open spec fn names_distinct<V>(pairs: Seq<(Seq<char>, V)>) -> bool {
    forall|i: int, j: int|
        0 <= i < pairs.len() && 0 <= j < pairs.len() && i != j ==> #[trigger] pairs[i].0
            != #[trigger] pairs[j].0
}

/// In a list with distinct names, the pair at `i` is what the map holds for its name.
pub proof fn lemma_map_of_pairs_at<V>(pairs: Seq<(Seq<char>, V)>, i: int)
    requires
        names_distinct(pairs),
        0 <= i < pairs.len(),
    ensures
        map_of_pairs(pairs).contains_key(pairs[i].0),
        index_of_name(pairs, pairs[i].0) == i,
        map_of_pairs(pairs)[pairs[i].0] == pairs[i].1,
{
    let k = pairs[i].0;
    assert(exists|j: int| 0 <= j < pairs.len() && #[trigger] pairs[j].0 == k);
    let j = index_of_name(pairs, k);
    assert(pairs[j].0 == k);
}

/// Replacing the value at `i` keeps the names distinct and stores the new value
/// under that name.
pub proof fn lemma_pairs_update<V>(pairs: Seq<(Seq<char>, V)>, i: int, v: V)
    requires
        names_distinct(pairs),
        0 <= i < pairs.len(),
    ensures
        names_distinct(pairs.update(i, (pairs[i].0, v))),
        map_of_pairs(pairs.update(i, (pairs[i].0, v))) == map_of_pairs(pairs).insert(pairs[i].0, v),
{
    let np = pairs.update(i, (pairs[i].0, v));
    let k = pairs[i].0;
    assert forall|a: int, b: int|
        0 <= a < np.len() && 0 <= b < np.len() && a != b implies #[trigger] np[a].0
        != #[trigger] np[b].0 by {
        assert(np[a].0 == pairs[a].0 && np[b].0 == pairs[b].0);
    }
    let m1 = map_of_pairs(np);
    let m2 = map_of_pairs(pairs).insert(k, v);
    assert forall|k2: Seq<char>| m1.contains_key(k2) <==> m2.contains_key(k2) by {
        if m1.contains_key(k2) {
            let j = choose|j: int| 0 <= j < np.len() && #[trigger] np[j].0 == k2;
            if k2 != k {
                assert(pairs[j].0 == k2);
            }
        }
        if m2.contains_key(k2) {
            if k2 == k {
                assert(np[i].0 == k2);
            } else {
                let j = choose|j: int| 0 <= j < pairs.len() && #[trigger] pairs[j].0 == k2;
                assert(np[j].0 == k2);
            }
        }
    }
    assert forall|k2: Seq<char>| m1.contains_key(k2) implies m1[k2] == m2[k2] by {
        let j = choose|j: int| 0 <= j < np.len() && #[trigger] np[j].0 == k2;
        lemma_map_of_pairs_at(np, j);
        if j != i {
            lemma_map_of_pairs_at(pairs, j);
        }
    }
    assert(m1 =~= m2);
}

/// Appending a pair under a name not yet present keeps the names distinct and adds
/// that name.
pub proof fn lemma_pairs_push<V>(pairs: Seq<(Seq<char>, V)>, k: Seq<char>, v: V)
    requires
        names_distinct(pairs),
        !map_of_pairs(pairs).contains_key(k),
    ensures
        names_distinct(pairs.push((k, v))),
        map_of_pairs(pairs.push((k, v))) == map_of_pairs(pairs).insert(k, v),
{
    let np = pairs.push((k, v));
    let n = pairs.len() as int;
    assert forall|j: int| 0 <= j < n implies #[trigger] pairs[j].0 != k by {
        if pairs[j].0 == k {
            assert(map_of_pairs(pairs).contains_key(k));
        }
    }
    assert forall|a: int, b: int|
        0 <= a < np.len() && 0 <= b < np.len() && a != b implies #[trigger] np[a].0
        != #[trigger] np[b].0 by {
        if a < n && b < n {
            assert(np[a].0 == pairs[a].0 && np[b].0 == pairs[b].0);
        } else if a < n {
            assert(np[a].0 == pairs[a].0);
        } else {
            assert(np[b].0 == pairs[b].0);
        }
    }
    let m1 = map_of_pairs(np);
    let m2 = map_of_pairs(pairs).insert(k, v);
    assert forall|k2: Seq<char>| m1.contains_key(k2) <==> m2.contains_key(k2) by {
        if m1.contains_key(k2) {
            let j = choose|j: int| 0 <= j < np.len() && #[trigger] np[j].0 == k2;
            if j < n {
                assert(pairs[j].0 == k2);
            }
        }
        if m2.contains_key(k2) {
            if k2 == k {
                assert(np[n].0 == k2);
            } else {
                let j = choose|j: int| 0 <= j < pairs.len() && #[trigger] pairs[j].0 == k2;
                assert(np[j].0 == k2);
            }
        }
    }
    assert forall|k2: Seq<char>| m1.contains_key(k2) implies m1[k2] == m2[k2] by {
        let j = choose|j: int| 0 <= j < np.len() && #[trigger] np[j].0 == k2;
        lemma_map_of_pairs_at(np, j);
        if j < n {
            assert(np[j] == pairs[j]);
            lemma_map_of_pairs_at(pairs, j);
        }
    }
    assert(m1 =~= m2);
}

/// Removing the pair at `i` keeps the names distinct and removes that name.
pub proof fn lemma_pairs_remove<V>(pairs: Seq<(Seq<char>, V)>, i: int)
    requires
        names_distinct(pairs),
        0 <= i < pairs.len(),
    ensures
        names_distinct(pairs.remove(i)),
        map_of_pairs(pairs.remove(i)) == map_of_pairs(pairs).remove(pairs[i].0),
{
    let np = pairs.remove(i);
    let k = pairs[i].0;
    // position in the old list of position `a` of the new one
    assert forall|a: int| 0 <= a < np.len() implies #[trigger] np[a] == pairs[if a < i {
        a
    } else {
        a + 1
    }] by {}
    assert forall|a: int, b: int|
        0 <= a < np.len() && 0 <= b < np.len() && a != b implies #[trigger] np[a].0
        != #[trigger] np[b].0 by {
        let a1 = if a < i {
            a
        } else {
            a + 1
        };
        let b1 = if b < i {
            b
        } else {
            b + 1
        };
        assert(np[a] == pairs[a1] && np[b] == pairs[b1]);
    }
    let m1 = map_of_pairs(np);
    let m2 = map_of_pairs(pairs).remove(k);
    assert forall|k2: Seq<char>| m1.contains_key(k2) <==> m2.contains_key(k2) by {
        if m1.contains_key(k2) {
            let j = choose|j: int| 0 <= j < np.len() && #[trigger] np[j].0 == k2;
            let j1 = if j < i {
                j
            } else {
                j + 1
            };
            assert(np[j] == pairs[j1]);
            assert(pairs[j1].0 == k2);
        }
        if m2.contains_key(k2) {
            let j = choose|j: int| 0 <= j < pairs.len() && #[trigger] pairs[j].0 == k2;
            assert(j != i);
            let j0 = if j < i {
                j
            } else {
                j - 1
            };
            assert(np[j0] == pairs[j]);
            assert(np[j0].0 == k2);
        }
    }
    assert forall|k2: Seq<char>| m1.contains_key(k2) implies m1[k2] == m2[k2] by {
        let j = choose|j: int| 0 <= j < np.len() && #[trigger] np[j].0 == k2;
        let j1 = if j < i {
            j
        } else {
            j + 1
        };
        assert(np[j] == pairs[j1]);
        lemma_map_of_pairs_at(np, j);
        lemma_map_of_pairs_at(pairs, j1);
    }
    assert(m1 =~= m2);
}

/// A name-keyed table. Its view is the map from names to values; `pairs` gives the
/// order in which the names were first inserted.
#[derive(Debug)]
pub struct NamedTable<V> {
    entries: Vec<(String, V)>,
}

impl<V> NamedTable<V> {
    /// The (name, value) pairs in table order.
    pub closed spec fn pairs(&self) -> Seq<(Seq<char>, V)> {
        self.entries@.map_values(|e: (String, V)| (e.0@, e.1))
    }

    #[verifier::type_invariant]
    closed spec fn names_are_distinct(&self) -> bool {
        names_distinct(self.pairs())
    }

    /// The names in table order.
    pub open spec fn names(&self) -> Seq<Seq<char>> {
        self.pairs().map_values(|p: (Seq<char>, V)| p.0)
    }

    /// An empty table.
    pub fn new() -> (t: Self)
        ensures
            t.pairs() == Seq::<(Seq<char>, V)>::empty(),
            t@ == Map::<Seq<char>, V>::empty(),
    {
        let t = NamedTable { entries: Vec::new() };
        assert(t.pairs() =~= Seq::<(Seq<char>, V)>::empty());
        assert(t@ =~= Map::<Seq<char>, V>::empty());
        t
    }

    /// The number of names in the table.
    pub fn len(&self) -> (n: usize)
        ensures
            n == self.pairs().len(),
    {
        self.entries.len()
    }

    /// The name and value at position `i` of the table order.
    pub fn entry_at(&self, i: usize) -> (r: (&String, &V))
        requires
            i < self.pairs().len(),
        ensures
            r.0@ == self.pairs()[i as int].0,
            *r.1 == self.pairs()[i as int].1,
    {
        let e = &self.entries[i];
        (&e.0, &e.1)
    }

    fn position_of(&self, key: &String) -> (r: Option<usize>)
        ensures
            match r {
                Some(i) => i < self.pairs().len() && self.pairs()[i as int].0 == key@,
                None => !self@.contains_key(key@),
            },
    {
        let mut i: usize = 0;
        while i < self.entries.len()
            invariant
                i <= self.entries.len(),
                forall|j: int| 0 <= j < i ==> self.pairs()[j].0 != key@,
            decreases self.entries.len() - i,
        {
            if self.entries[i].0 == *key {
                return Some(i);
            }
            i = i + 1;
        }
        None
    }

    /// Whether the table holds `key`.
    pub fn contains_key(&self, key: &String) -> (r: bool)
        ensures
            r == self@.contains_key(key@),
    {
        match self.position_of(key) {
            Some(i) => {
                proof {
                    use_type_invariant(self);
                    lemma_map_of_pairs_at(self.pairs(), i as int);
                }
                true
            },
            None => false,
        }
    }

    /// The value stored under `key`, if any.
    pub fn get(&self, key: &String) -> (r: Option<&V>)
        ensures
            match r {
                Some(v) => self@.contains_key(key@) && *v == self@[key@],
                None => !self@.contains_key(key@),
            },
    {
        match self.position_of(key) {
            Some(i) => {
                proof {
                    use_type_invariant(self);
                    lemma_map_of_pairs_at(self.pairs(), i as int);
                }
                Some(&self.entries[i].1)
            },
            None => None,
        }
    }

    /// Stores `value` under `key`: a name already present keeps its place in the
    /// table order and gets the new value, a new name goes to the end.
    pub fn insert(&mut self, key: String, value: V)
        ensures
            final(self)@ == old(self)@.insert(key@, value),
            final(self).pairs() == (if old(self)@.contains_key(key@) {
                old(self).pairs().update(
                    index_of_name(old(self).pairs(), key@),
                    (key@, value),
                )
            } else {
                old(self).pairs().push((key@, value))
            }),
    {
        proof {
            use_type_invariant(&*self);
        }
        let ghost kv = key@;
        let pos = self.position_of(&key);
        let mut entries: Vec<(String, V)> = Vec::new();
        std::mem::swap(&mut entries, &mut self.entries);
        let ghost op = entries@.map_values(|e: (String, V)| (e.0@, e.1));
        match pos {
            Some(i) => {
                entries.set(i, (key, value));
                proof {
                    lemma_map_of_pairs_at(op, i as int);
                    lemma_pairs_update(op, i as int, value);
                    assert(entries@.map_values(|e: (String, V)| (e.0@, e.1)) =~= op.update(
                        i as int,
                        (op[i as int].0, value),
                    ));
                }
            },
            None => {
                entries.push((key, value));
                proof {
                    lemma_pairs_push(op, kv, value);
                    assert(entries@.map_values(|e: (String, V)| (e.0@, e.1)) =~= op.push(
                        (kv, value),
                    ));
                }
            },
        }
        self.entries = entries;
    }

    /// Removes `key` and hands back its value; the other names keep their order.
    pub fn remove(&mut self, key: &String) -> (r: Option<V>)
        ensures
            final(self)@ == old(self)@.remove(key@),
            match r {
                Some(v) => old(self)@.contains_key(key@) && v == old(self)@[key@],
                None => !old(self)@.contains_key(key@),
            },
            final(self).pairs() == (if old(self)@.contains_key(key@) {
                old(self).pairs().remove(index_of_name(old(self).pairs(), key@))
            } else {
                old(self).pairs()
            }),
    {
        proof {
            use_type_invariant(&*self);
        }
        match self.position_of(key) {
            Some(i) => {
                let mut entries: Vec<(String, V)> = Vec::new();
                std::mem::swap(&mut entries, &mut self.entries);
                let ghost op = entries@.map_values(|e: (String, V)| (e.0@, e.1));
                let e = entries.remove(i);
                proof {
                    lemma_map_of_pairs_at(op, i as int);
                    lemma_pairs_remove(op, i as int);
                    assert(entries@.map_values(|e: (String, V)| (e.0@, e.1)) =~= op.remove(
                        i as int,
                    ));
                }
                self.entries = entries;
                Some(e.1)
            },
            None => None,
        }
    }
}

impl<V> View for NamedTable<V> {
    type V = Map<Seq<char>, V>;

    open spec fn view(&self) -> Map<Seq<char>, V> {
        map_of_pairs(self.pairs())
    }
}

} // verus!
