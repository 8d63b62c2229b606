//! The identity of a record, and the records of an accumulator under their
//! identities. The places of the records are kept in a concurrent hash map
//! of the `flurry` crate.
use crate::table::without;
use vstd::prelude::*;

verus! {

/// The identity of a record: the digest of its instrument and the digest of
/// its label set.
#[derive(Clone, Copy, Debug, PartialEq, Eq, Structural, Hash)]
pub struct MapKey {
    /// The digest of the descriptor.
    pub descriptor_hash: u64,
    /// The digest of the sorted labels.
    pub ordered_hash: u64,
}

impl MapKey {
    /// The two digests as a pair.
    pub open spec fn pair(self) -> (u64, u64) {
        (self.descriptor_hash, self.ordered_hash)
    }
}

/// `flurry::HashMap`, whose inside Verus does not read.
#[verifier::external_type_specification]
#[verifier::external_body]
#[verifier::reject_recursive_types(K)]
#[verifier::reject_recursive_types(V)]
#[verifier::reject_recursive_types(S)]
pub struct ExConcurrentMap<K, V, S>(flurry::HashMap<K, V, S>);

/// `flurry::DefaultHashBuilder`, the hasher that a `flurry::HashMap` made
/// by `new` uses.
#[verifier::external_type_specification]
#[verifier::external_body]
pub struct ExConcurrentHasher(flurry::DefaultHashBuilder);

/// The key-value pairs that a concurrent map holds.
pub uninterp spec fn places(map: flurry::HashMap<(u64, u64), u64>) -> Map<(u64, u64), u64>;

/// Calls `flurry::HashMap::new`, which creates an empty map.
#[verifier::external_body]
fn places_new() -> (map: flurry::HashMap<(u64, u64), u64>)
    ensures
        places(map) =~= Map::empty(),
{
    flurry::HashMap::new()
}

/// Calls `flurry::HashMap::pin` and `HashMapRef::get`, which returns the
/// value under the key, if the map holds the key.
#[verifier::external_body]
fn places_get(map: &flurry::HashMap<(u64, u64), u64>, key: (u64, u64)) -> (r: Option<u64>)
    ensures
        r == (if places(*map).contains_key(key) {
            Some(places(*map)[key])
        } else {
            None
        }),
{
    map.pin().get(&key).copied()
}

/// Calls `flurry::HashMap::pin` and `HashMapRef::insert`, which puts the
/// value under the key, in place of any value that was there.
#[verifier::external_body]
fn places_insert(map: &mut flurry::HashMap<(u64, u64), u64>, key: (u64, u64), value: u64)
    ensures
        places(*final(map)) == places(*old(map)).insert(key, value),
{
    map.pin().insert(key, value);
}

/// Calls `flurry::HashMap::pin` and `HashMapRef::remove`, which takes the
/// key and its value out of the map, if the map holds the key.
#[verifier::external_body]
fn places_remove(map: &mut flurry::HashMap<(u64, u64), u64>, key: (u64, u64))
    ensures
        places(*final(map)) == places(*old(map)).remove(key),
{
    map.pin().remove(&key);
}

/// Values under identities, no identity twice. The values stand in a row,
/// in which a concurrent hash map finds the place of an identity.
pub struct IdentityMap<V> {
    index: flurry::HashMap<(u64, u64), u64>,
    keys: Vec<MapKey>,
    values: Vec<V>,
}

/// Where an identity stands in a row of identities, if it does.
pub open spec fn place_of_identity(keys: Seq<MapKey>, key: MapKey) -> Option<int> {
    if keys.contains(key) {
        Some(keys.index_of(key))
    } else {
        None
    }
}

impl<V> IdentityMap<V> {
    /// The identities, in the order of the row.
    pub closed spec fn keys(&self) -> Seq<MapKey> {
        self.keys@
    }

    /// The values, each at the place of its identity.
    pub closed spec fn values(&self) -> Seq<V> {
        self.values@
    }

    /// Whether every identity has one value, no identity stands twice, and
    /// the hash map knows the place of each identity and of nothing else.
    pub closed spec fn wf(&self) -> bool {
        &&& self.keys@.len() == self.values@.len()
        &&& self.keys@.no_duplicates()
        &&& forall|k: MapKey| #[trigger]
            places(self.index).contains_key(k.pair()) <==> self.keys@.contains(k)
        &&& forall|i: int|
            0 <= i < self.keys@.len() ==> places(self.index)[(#[trigger] self.keys@[i]).pair()] == i
    }

    /// In a map that is in order every identity has a value and stands
    /// once.
    pub proof fn row_is_in_order(&self)
        requires
            self.wf(),
        ensures
            self.keys().len() == self.values().len(),
            self.keys().no_duplicates(),
            forall|i: int|
                0 <= i < self.keys().len() ==> place_of_identity(self.keys(), #[trigger] self.keys()[i])
                    == Some(i),
    {
        assert forall|i: int| 0 <= i < self.keys().len() implies place_of_identity(
            self.keys(),
            #[trigger] self.keys()[i],
        ) == Some(i) by {
            let k = self.keys()[i];
            assert(self.keys().contains(k));
            let j = self.keys().index_of(k);
            assert(self.keys()[j] == k);
        }
    }

    /// A map without entries.
    pub fn new() -> (r: IdentityMap<V>)
        ensures
            r.wf(),
            r.keys() == Seq::<MapKey>::empty(),
            r.values() == Seq::<V>::empty(),
    {
        IdentityMap { index: places_new(), keys: Vec::new(), values: Vec::new() }
    }

    /// How many entries there are.
    pub fn len(&self) -> (r: usize)
        requires
            self.wf(),
        ensures
            r == self.keys().len(),
            r == self.values().len(),
    {
        self.keys.len()
    }

    /// The place of an identity, if the map holds it.
    pub fn position(&self, key: MapKey) -> (r: Option<usize>)
        requires
            self.wf(),
        ensures
            match r {
                Some(at) => place_of_identity(self.keys(), key) == Some(at as int) && at
                    < self.keys().len() && self.keys()[at as int] == key,
                None => place_of_identity(self.keys(), key).is_none() && !self.keys().contains(key),
            },
    {
        let held = self.keys.len();
        match places_get(&self.index, (key.descriptor_hash, key.ordered_hash)) {
            Some(at) => {
                proof {
                    assert(places(self.index).contains_key(key.pair()));
                    assert(self.keys@.contains(key));
                    let j = self.keys@.index_of(key);
                    assert(self.keys@[j] == key);
                    assert(places(self.index)[self.keys@[j].pair()] == j);
                    assert(at == j);
                    assert(at < held);
                }
                Some(at as usize)
            },
            None => None,
        }
    }

    /// The identity at a place.
    pub fn key_at(&self, at: usize) -> (r: MapKey)
        requires
            self.wf(),
            at < self.keys().len(),
        ensures
            r == self.keys()[at as int],
    {
        self.keys[at]
    }

    /// The value at a place.
    pub fn value(&self, at: usize) -> (r: &V)
        requires
            self.wf(),
            at < self.values().len(),
        ensures
            *r == self.values()[at as int],
    {
        &self.values[at]
    }

    /// The value at a place, to be changed where it stands.
    pub fn value_mut(&mut self, at: usize) -> (r: &mut V)
        requires
            old(self).wf(),
            at < old(self).values().len(),
        ensures
            *r == old(self).values()[at as int],
            final(self).wf(),
            final(self).keys() == old(self).keys(),
            final(self).values() == old(self).values().update(at as int, *final(r)),
    {
        &mut self.values[at]
    }

    /// Adds an entry at the end of the row.
    pub fn push(&mut self, key: MapKey, value: V)
        requires
            old(self).wf(),
            !old(self).keys().contains(key),
        ensures
            final(self).wf(),
            final(self).keys() == old(self).keys().push(key),
            final(self).values() == old(self).values().push(value),
    {
        let at = self.keys.len();
        places_insert(&mut self.index, (key.descriptor_hash, key.ordered_hash), at as u64);
        self.keys.push(key);
        self.values.push(value);
        proof {
            assert forall|k: MapKey| #[trigger]
                places(self.index).contains_key(k.pair()) <==> self.keys@.contains(k) by {
                if old(self).keys@.contains(k) {
                    let i = old(self).keys@.index_of(k);
                    assert(self.keys@[i] == k);
                }
                if k == key {
                    assert(self.keys@[at as int] == k);
                }
                if self.keys@.contains(k) && k != key {
                    let i = self.keys@.index_of(k);
                    assert(old(self).keys@[i] == k);
                }
            }
            assert forall|i: int| 0 <= i < self.keys@.len() implies places(self.index)[(
                #[trigger] self.keys@[i]).pair()] == i by {
                if i < at {
                    assert(old(self).keys@[i] == self.keys@[i]);
                    assert(old(self).keys@.contains(self.keys@[i]));
                }
            }
            assert(self.keys@.no_duplicates()) by {
                assert forall|i: int, j: int|
                    0 <= i < self.keys@.len() && 0 <= j < self.keys@.len() && i != j implies self.keys@[i]
                    != self.keys@[j] by {
                    if i < at {
                        assert(old(self).keys@.contains(old(self).keys@[i]));
                    }
                    if j < at {
                        assert(old(self).keys@.contains(old(self).keys@[j]));
                    }
                }
            }
        }
    }

    /// Takes the entry at a place out of the map. The last entry of the row
    /// moves to that place.
    pub fn swap_remove(&mut self, at: usize) -> (r: V)
        requires
            old(self).wf(),
            at < old(self).keys().len(),
        ensures
            final(self).wf(),
            final(self).keys() == without(old(self).keys(), at as int),
            final(self).values() == without(old(self).values(), at as int),
            r == old(self).values()[at as int],
    {
        let last = self.keys.len() - 1;
        let gone = self.keys[at];
        let moved = self.keys[last];
        places_remove(&mut self.index, (gone.descriptor_hash, gone.ordered_hash));
        if at != last {
            places_insert(&mut self.index, (moved.descriptor_hash, moved.ordered_hash), at as u64);
        }
        self.keys.swap_remove(at);
        let value = self.values.swap_remove(at);
        proof {
            let before = old(self).keys@;
            assert(self.keys@ =~= without(before, at as int));
            assert(self.values@ =~= without(old(self).values@, at as int));
            assert forall|i: int| 0 <= i < self.keys@.len() implies #[trigger] self.keys@[i] == before[if i
                == at {
                last as int
            } else {
                i
            }] by {}
            assert forall|k: MapKey| #[trigger]
                places(self.index).contains_key(k.pair()) <==> self.keys@.contains(k) by {
                if before.contains(k) && k != gone {
                    let i = before.index_of(k);
                    if i == last {
                        assert(self.keys@[at as int] == k);
                    } else {
                        assert(self.keys@[i] == k);
                    }
                }
                if self.keys@.contains(k) {
                    let i = self.keys@.index_of(k);
                    let j = if i == at { last as int } else { i };
                    assert(before[j] == k);
                    assert(before.contains(k));
                    assert(j != at);
                }
            }
            assert forall|i: int| 0 <= i < self.keys@.len() implies places(self.index)[(
                #[trigger] self.keys@[i]).pair()] == i by {
                let j = if i == at { last as int } else { i };
                assert(before[j] == self.keys@[i]);
                assert(before.contains(before[j]));
            }
            assert(self.keys@.no_duplicates()) by {
                assert forall|i: int, j: int|
                    0 <= i < self.keys@.len() && 0 <= j < self.keys@.len() && i != j implies self.keys@[i]
                    != self.keys@[j] by {
                    let a = if i == at { last as int } else { i };
                    let b = if j == at { last as int } else { j };
                    assert(before[a] == self.keys@[i] && before[b] == self.keys@[j]);
                }
            }
        }
        value
    }
}

} // verus!
