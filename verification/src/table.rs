//! Entries under 64-bit keys: found by key in constant time, and walked in a
//! fixed order.
use std::collections::HashMap;
use vstd::prelude::*;

verus! {

/// Values under 64-bit keys, no key twice. The entries stand in a row, in
/// which a hash map finds the place of a key.
pub struct Table<V> {
    index: HashMap<u64, usize>,
    keys: Vec<u64>,
    values: Vec<V>,
}

/// Where a key stands in a row of keys, if it does.
pub open spec fn place_of(keys: Seq<u64>, key: u64) -> Option<int> {
    if keys.contains(key) {
        Some(keys.index_of(key))
    } else {
        None
    }
}

/// A row without the entry at a place: the last entry moves there.
pub open spec fn without<A>(row: Seq<A>, at: int) -> Seq<A> {
    if at == row.len() - 1 {
        row.drop_last()
    } else {
        row.update(at, row.last()).drop_last()
    }
}

/// The entries of a row as a map from key to value.
pub open spec fn row_map<K, A>(keys: Seq<K>, row: Seq<A>) -> Map<K, A> {
    Map::new(|k: K| keys.contains(k), |k: K| row[keys.index_of(k)])
}

/// In a row without duplicates every key is found at its own place.
pub proof fn place_in_row<K>(keys: Seq<K>, at: int)
    requires
        keys.no_duplicates(),
        0 <= at < keys.len(),
    ensures
        keys.contains(keys[at]),
        keys.index_of(keys[at]) == at,
{
    assert(keys.contains(keys[at]));
    let j = keys.index_of(keys[at]);
    assert(keys[j] == keys[at]);
}

/// Taking an entry out of a row, with the last entry moving to its place,
/// takes its key out of the map and leaves every other entry as it is. The
/// row still holds no key twice.
pub proof fn row_map_without<K, A>(keys: Seq<K>, row: Seq<A>, at: int)
    requires
        keys.no_duplicates(),
        keys.len() == row.len(),
        0 <= at < keys.len(),
    ensures
        without(keys, at).no_duplicates(),
        row_map(without(keys, at), without(row, at)) == row_map(keys, row).remove(keys[at]),
{
    let last = keys.len() - 1;
    let fewer = without(keys, at);
    let rest = without(row, at);
    assert forall|i: int| 0 <= i < fewer.len() implies #[trigger] fewer[i] == keys[if i == at {
        last
    } else {
        i
    }] && rest[i] == row[if i == at {
        last
    } else {
        i
    }] by {}
    assert(fewer.no_duplicates()) by {
        assert forall|i: int, j: int| 0 <= i < fewer.len() && 0 <= j < fewer.len() && i != j implies fewer[i]
            != fewer[j] by {
            let a = if i == at { last } else { i };
            let b = if j == at { last } else { j };
            assert(fewer[i] == keys[a] && fewer[j] == keys[b]);
        }
    }
    assert(row_map(fewer, rest) =~= row_map(keys, row).remove(keys[at])) by {
        assert forall|k: K| fewer.contains(k) <==> (keys.contains(k) && k != keys[at]) by {
            if fewer.contains(k) {
                let i = fewer.index_of(k);
                let a = if i == at { last } else { i };
                assert(keys[a] == k);
            }
            if keys.contains(k) && k != keys[at] {
                let i = keys.index_of(k);
                assert(keys[i] == k);
                if i == last {
                    assert(fewer[at] == k);
                } else {
                    assert(fewer[i] == k);
                }
            }
        }
        assert forall|k: K| fewer.contains(k) implies rest[fewer.index_of(k)] == row[keys.index_of(k)] by {
            let i = fewer.index_of(k);
            assert(fewer[i] == k);
            let a = if i == at { last } else { i };
            assert(keys[a] == k);
            place_in_row(keys, a);
        }
    }
}

impl<V> Table<V> {
    /// The keys, in the order of the row.
    pub closed spec fn keys(&self) -> Seq<u64> {
        self.keys@
    }

    /// The values, each at the place of its key.
    pub closed spec fn values(&self) -> Seq<V> {
        self.values@
    }

    /// Whether every key has one value, no key stands twice, and the hash
    /// map knows the place of each key and of nothing else.
    pub closed spec fn wf(&self) -> bool {
        &&& self.keys@.len() == self.values@.len()
        &&& self.keys@.no_duplicates()
        &&& forall|k: u64| #[trigger] self.index@.contains_key(k) <==> self.keys@.contains(k)
        &&& forall|i: int| 0 <= i < self.keys@.len() ==> self.index@[#[trigger] self.keys@[i]] == i
    }

    /// In a table that is in order every key has a value and stands once.
    pub proof fn row_is_in_order(&self)
        requires
            self.wf(),
        ensures
            self.keys().len() == self.values().len(),
            self.keys().no_duplicates(),
            forall|i: int|
                0 <= i < self.keys().len() ==> place_of(self.keys(), #[trigger] self.keys()[i]) == Some(
                    i,
                ),
    {
        assert forall|i: int| 0 <= i < self.keys().len() implies place_of(
            self.keys(),
            #[trigger] self.keys()[i],
        ) == Some(i) by {
            let k = self.keys()[i];
            assert(self.keys().contains(k));
            let j = self.keys().index_of(k);
            assert(self.keys()[j] == k);
        }
    }

    /// A table without entries.
    pub fn new() -> (r: Table<V>)
        ensures
            r.wf(),
            r.keys() == Seq::<u64>::empty(),
            r.values() == Seq::<V>::empty(),
    {
        Table { index: HashMap::new(), keys: Vec::new(), values: Vec::new() }
    }

    /// How many entries there are.
    pub fn len(&self) -> (r: usize)
        requires
            self.wf(),
        ensures
            r == self.keys().len(),
            r == self.values().len(),
    {
        self.keys.len()
    }

    /// The place of a key, if the table holds it.
    pub fn position(&self, key: u64) -> (r: Option<usize>)
        requires
            self.wf(),
        ensures
            match r {
                Some(at) => place_of(self.keys(), key) == Some(at as int) && at < self.keys().len()
                    && self.keys()[at as int] == key,
                None => place_of(self.keys(), key).is_none() && !self.keys().contains(key),
            },
    {
        match self.index.get(&key) {
            Some(at) => {
                proof {
                    assert(self.index@.contains_key(key));
                    assert(self.keys@.contains(key));
                    let j = self.keys@.index_of(key);
                    assert(self.keys@[j] == key);
                    assert(self.index@[self.keys@[j]] == j);
                }
                Some(*at)
            },
            None => None,
        }
    }

    /// The key at a place.
    pub fn key_at(&self, at: usize) -> (r: u64)
        requires
            self.wf(),
            at < self.keys().len(),
        ensures
            r == self.keys()[at as int],
    {
        self.keys[at]
    }

    /// The value at a place.
    pub fn value(&self, at: usize) -> (r: &V)
        requires
            self.wf(),
            at < self.values().len(),
        ensures
            *r == self.values()[at as int],
    {
        &self.values[at]
    }

    /// The value at a place, to be changed where it stands.
    pub fn value_mut(&mut self, at: usize) -> (r: &mut V)
        requires
            old(self).wf(),
            at < old(self).values().len(),
        ensures
            *r == old(self).values()[at as int],
            final(self).wf(),
            final(self).keys() == old(self).keys(),
            final(self).values() == old(self).values().update(at as int, *final(r)),
    {
        &mut self.values[at]
    }

    /// Puts a value in the place of the one that stands at a place, and
    /// hands that one out.
    pub fn replace(&mut self, at: usize, value: V) -> (r: V)
        requires
            old(self).wf(),
            at < old(self).values().len(),
        ensures
            final(self).wf(),
            final(self).keys() == old(self).keys(),
            final(self).values() == old(self).values().update(at as int, value),
            r == old(self).values()[at as int],
    {
        let mut held = value;
        let ghost before = self.values@;
        std::mem::swap(&mut self.values[at], &mut held);
        assert(self.values@ =~= before.update(at as int, value));
        held
    }

    /// Adds an entry at the end of the row.
    pub fn push(&mut self, key: u64, value: V)
        requires
            old(self).wf(),
            !old(self).keys().contains(key),
        ensures
            final(self).wf(),
            final(self).keys() == old(self).keys().push(key),
            final(self).values() == old(self).values().push(value),
    {
        let at = self.keys.len();
        self.index.insert(key, at);
        self.keys.push(key);
        self.values.push(value);
        proof {
            assert forall|k: u64| #[trigger] self.index@.contains_key(k) <==> self.keys@.contains(k) by {
                if old(self).keys@.contains(k) {
                    let i = old(self).keys@.index_of(k);
                    assert(self.keys@[i] == k);
                }
                if k == key {
                    assert(self.keys@[at as int] == k);
                }
                if self.keys@.contains(k) && k != key {
                    let i = self.keys@.index_of(k);
                    assert(old(self).keys@[i] == k);
                }
            }
            assert forall|i: int| 0 <= i < self.keys@.len() implies self.index@[#[trigger] self.keys@[i]]
                == i by {
                if i < at {
                    assert(old(self).keys@[i] == self.keys@[i]);
                    assert(old(self).keys@.contains(self.keys@[i]));
                }
            }
            assert(self.keys@.no_duplicates()) by {
                assert forall|i: int, j: int|
                    0 <= i < self.keys@.len() && 0 <= j < self.keys@.len() && i != j implies self.keys@[i]
                    != self.keys@[j] by {
                    if i < at {
                        assert(old(self).keys@.contains(old(self).keys@[i]));
                    }
                    if j < at {
                        assert(old(self).keys@.contains(old(self).keys@[j]));
                    }
                }
            }
        }
    }

    /// Takes the entry at a place out of the table. The last entry of the
    /// row moves to that place.
    pub fn swap_remove(&mut self, at: usize) -> (r: V)
        requires
            old(self).wf(),
            at < old(self).keys().len(),
        ensures
            final(self).wf(),
            final(self).keys() == without(old(self).keys(), at as int),
            final(self).values() == without(old(self).values(), at as int),
            r == old(self).values()[at as int],
    {
        let last = self.keys.len() - 1;
        let gone = self.keys[at];
        let moved = self.keys[last];
        self.index.remove(&gone);
        if at != last {
            self.index.insert(moved, at);
        }
        self.keys.swap_remove(at);
        let value = self.values.swap_remove(at);
        proof {
            let before = old(self).keys@;
            assert(self.keys@ =~= without(before, at as int));
            assert(self.values@ =~= without(old(self).values@, at as int));
            assert forall|i: int| 0 <= i < self.keys@.len() implies #[trigger] self.keys@[i] == before[if i
                == at {
                last as int
            } else {
                i
            }] by {}
            assert forall|k: u64| #[trigger] self.index@.contains_key(k) <==> self.keys@.contains(k) by {
                if before.contains(k) && k != gone {
                    let i = before.index_of(k);
                    if i == last {
                        assert(self.keys@[at as int] == k);
                    } else {
                        assert(self.keys@[i] == k);
                    }
                }
                if self.keys@.contains(k) {
                    let i = self.keys@.index_of(k);
                    let j = if i == at { last as int } else { i };
                    assert(before[j] == k);
                    assert(before.contains(k));
                    assert(j != at);
                }
            }
            assert forall|i: int| 0 <= i < self.keys@.len() implies self.index@[#[trigger] self.keys@[i]]
                == i by {
                let j = if i == at { last as int } else { i };
                assert(before[j] == self.keys@[i]);
                assert(before.contains(before[j]));
            }
            assert(self.keys@.no_duplicates()) by {
                assert forall|i: int, j: int|
                    0 <= i < self.keys@.len() && 0 <= j < self.keys@.len() && i != j implies self.keys@[i]
                    != self.keys@[j] by {
                    let a = if i == at { last as int } else { i };
                    let b = if j == at { last as int } else { j };
                    assert(before[a] == self.keys@[i] && before[b] == self.keys@[j]);
                }
            }
        }
        value
    }

    /// Takes every entry out of the table.
    pub fn clear(&mut self)
        ensures
            final(self).wf(),
            final(self).keys() == Seq::<u64>::empty(),
            final(self).values() == Seq::<V>::empty(),
    {
        self.index.clear();
        self.keys.clear();
        self.values.clear();
    }
}

} // verus!
