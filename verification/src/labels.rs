//! Label sets: key-value attributes, held sorted by key with no key twice.
use crate::descriptor::{text_writes, write_byte, write_text};
use crate::number::{pattern_of, twos_complement};
use std::collections::hash_map::DefaultHasher;
use std::hash::Hasher;
use vstd::bytes::{spec_u64_to_le_bytes, u64_to_le_bytes};
use vstd::prelude::*;
use vstd::string::StringSliceAdditionalSpecFns;
use vstd::std_specs::hash::DefaultHasherAdditionalSpecFns;
use vstd::utf8::encode_utf8;

verus! {

/// The value of a label.
#[derive(Debug)]
pub enum Value {
    /// A truth value.
    Bool(bool),
    /// A signed integer.
    I64(i64),
    /// An unsigned integer.
    U64(u64),
    /// A binary64 value, as its pattern.
    F64(u64),
    /// A text.
    String(String),
    /// A sequence of bytes.
    Bytes(Vec<u8>),
}

/// What a `Value` holds.
pub enum ValueView {
    /// A truth value.
    Bool(bool),
    /// A signed integer.
    I64(i64),
    /// An unsigned integer.
    U64(u64),
    /// A binary64 value, as its pattern.
    F64(u64),
    /// A text.
    String(Seq<char>),
    /// A sequence of bytes.
    Bytes(Seq<u8>),
}

impl View for Value {
    type V = ValueView;

    open spec fn view(&self) -> ValueView {
        match *self {
            Value::Bool(b) => ValueView::Bool(b),
            Value::I64(i) => ValueView::I64(i),
            Value::U64(u) => ValueView::U64(u),
            Value::F64(f) => ValueView::F64(f),
            Value::String(s) => ValueView::String(s@),
            Value::Bytes(b) => ValueView::Bytes(b@),
        }
    }
}

impl Clone for Value {
    fn clone(&self) -> (r: Value)
        ensures
            r@ == self@,
    {
        match self {
            Value::Bool(b) => Value::Bool(*b),
            Value::I64(i) => Value::I64(*i),
            Value::U64(u) => Value::U64(*u),
            Value::F64(f) => Value::F64(*f),
            Value::String(s) => Value::String(s.clone()),
            Value::Bytes(b) => Value::Bytes(b.clone()),
        }
    }
}

/// A label: a key and its value.
#[derive(Debug)]
pub struct KeyValue {
    /// The key.
    pub key: String,
    /// The value.
    pub value: Value,
}

/// What a label holds: the text of its key, and its value.
pub type Pair = (Seq<char>, ValueView);

impl View for KeyValue {
    type V = Pair;

    open spec fn view(&self) -> Pair {
        (self.key@, self.value@)
    }
}

impl Clone for KeyValue {
    fn clone(&self) -> (r: KeyValue)
        ensures
            r@ == self@,
    {
        KeyValue { key: self.key.clone(), value: self.value.clone() }
    }
}

impl KeyValue {
    /// A label from a key and a value.
    pub fn new(key: String, value: Value) -> (r: KeyValue)
        ensures
            r.key == key,
            r.value == value,
    {
        KeyValue { key, value }
    }
}

/// The lexicographic order of byte sequences: a proper prefix comes first.
pub open spec fn bytes_less(a: Seq<u8>, b: Seq<u8>) -> bool
    decreases a.len(),
{
    if b.len() == 0 {
        false
    } else if a.len() == 0 {
        true
    } else if a[0] != b[0] {
        a[0] < b[0]
    } else {
        bytes_less(a.drop_first(), b.drop_first())
    }
}

/// The order of keys: that of their UTF-8 bytes.
pub open spec fn key_less(a: Seq<char>, b: Seq<char>) -> bool {
    bytes_less(encode_utf8(a), encode_utf8(b))
}

/// No byte sequence comes before itself.
pub proof fn bytes_less_irreflexive(a: Seq<u8>)
    ensures
        !bytes_less(a, a),
    decreases a.len(),
{
    if a.len() > 0 {
        bytes_less_irreflexive(a.drop_first());
    }
}

/// The order of byte sequences is transitive.
pub proof fn bytes_less_transitive(a: Seq<u8>, b: Seq<u8>, c: Seq<u8>)
    requires
        bytes_less(a, b),
        bytes_less(b, c),
    ensures
        bytes_less(a, c),
    decreases a.len(),
{
    if a.len() > 0 && a[0] == b[0] && b[0] == c[0] {
        bytes_less_transitive(a.drop_first(), b.drop_first(), c.drop_first());
    }
}

/// Of two different byte sequences one comes before the other.
pub proof fn bytes_less_total(a: Seq<u8>, b: Seq<u8>)
    requires
        !bytes_less(a, b),
        !bytes_less(b, a),
    ensures
        a == b,
    decreases a.len(),
{
    if a.len() > 0 && b.len() > 0 {
        bytes_less_total(a.drop_first(), b.drop_first());
        assert(a =~= seq![a[0]] + a.drop_first());
        assert(b =~= seq![b[0]] + b.drop_first());
    } else {
        assert(a =~= b);
    }
}

/// No key comes before itself.
pub proof fn key_less_irreflexive(a: Seq<char>)
    ensures
        !key_less(a, a),
{
    bytes_less_irreflexive(encode_utf8(a));
}

/// The order of keys is transitive.
pub proof fn key_less_transitive(a: Seq<char>, b: Seq<char>, c: Seq<char>)
    requires
        key_less(a, b),
        key_less(b, c),
    ensures
        key_less(a, c),
{
    bytes_less_transitive(encode_utf8(a), encode_utf8(b), encode_utf8(c));
}

/// Of two different keys one comes before the other.
pub proof fn key_less_total(a: Seq<char>, b: Seq<char>)
    requires
        !key_less(a, b),
        !key_less(b, a),
    ensures
        a == b,
{
    bytes_less_total(encode_utf8(a), encode_utf8(b));
    vstd::utf8::encode_utf8_decode_utf8(a);
    vstd::utf8::encode_utf8_decode_utf8(b);
}

/// Whether the first key comes before the second.
pub fn key_before(a: &str, b: &str) -> (r: bool)
    ensures
        r == key_less(a@, b@),
{
    let x = a.as_bytes();
    let y = b.as_bytes();
    let mut i: usize = 0;
    assert(x@.skip(0) =~= x@ && y@.skip(0) =~= y@);
    while i < x.len() && i < y.len()
        invariant
            i <= x@.len(),
            i <= y@.len(),
            x@ == encode_utf8(a@),
            y@ == encode_utf8(b@),
            bytes_less(x@, y@) == bytes_less(x@.skip(i as int), y@.skip(i as int)),
        decreases x@.len() - i,
    {
        let p = x[i];
        let q = y[i];
        assert(x@.skip(i as int)[0] == p);
        assert(y@.skip(i as int)[0] == q);
        if p != q {
            return p < q;
        }
        assert(x@.skip(i as int).drop_first() =~= x@.skip(i as int + 1));
        assert(y@.skip(i as int).drop_first() =~= y@.skip(i as int + 1));
        i += 1;
    }
    i < y.len()
}

/// What a sequence of labels holds, label by label.
pub open spec fn pairs_of(labels: Seq<KeyValue>) -> Seq<Pair> {
    Seq::new(labels.len(), |i: int| labels[i]@)
}

/// Whether the keys rise strictly from each pair to the next, so that no key
/// occurs twice.
pub open spec fn sorted(pairs: Seq<Pair>) -> bool {
    forall|i: int, j: int| 0 <= i < j < pairs.len() ==> key_less(#[trigger] pairs[i].0, #[trigger] pairs[j].0)
}

/// Whether a key occurs among the pairs.
pub open spec fn has_key(pairs: Seq<Pair>, key: Seq<char>) -> bool {
    exists|i: int| 0 <= i < pairs.len() && #[trigger] pairs[i].0 == key
}

/// The labels that a sequence of pairs stands for: each key with the value
/// of the first pair that names it. Later pairs with a key already seen are
/// dropped.
pub open spec fn label_map(pairs: Seq<Pair>) -> Map<Seq<char>, ValueView>
    decreases pairs.len(),
{
    if pairs.len() == 0 {
        Map::empty()
    } else {
        let earlier = label_map(pairs.drop_last());
        if earlier.contains_key(pairs.last().0) {
            earlier
        } else {
            earlier.insert(pairs.last().0, pairs.last().1)
        }
    }
}

/// The keys of `label_map` are the keys that occur among the pairs.
pub proof fn label_map_keys(pairs: Seq<Pair>, key: Seq<char>)
    ensures
        label_map(pairs).contains_key(key) == has_key(pairs, key),
    decreases pairs.len(),
{
    if pairs.len() > 0 {
        let front = pairs.drop_last();
        label_map_keys(front, key);
        label_map_keys(front, pairs.last().0);
        if has_key(front, key) {
            let i = choose|i: int| 0 <= i < front.len() && #[trigger] front[i].0 == key;
            assert(pairs[i].0 == key);
        }
        if has_key(pairs, key) {
            let i = choose|i: int| 0 <= i < pairs.len() && #[trigger] pairs[i].0 == key;
            if i < front.len() {
                assert(front[i].0 == key);
            }
        }
        if pairs.last().0 == key {
            assert(pairs[pairs.len() - 1].0 == key);
        }
    }
}

/// Where no key occurs twice, `label_map` gives each key the value beside it.
pub proof fn label_map_values(pairs: Seq<Pair>, i: int)
    requires
        sorted(pairs),
        0 <= i < pairs.len(),
    ensures
        label_map(pairs).contains_key(pairs[i].0),
        label_map(pairs)[pairs[i].0] == pairs[i].1,
    decreases pairs.len(),
{
    let front = pairs.drop_last();
    label_map_keys(pairs, pairs[i].0);
    label_map_keys(front, pairs.last().0);
    assert(sorted(front)) by {
        assert forall|a: int, b: int| 0 <= a < b < front.len() implies key_less(
            #[trigger] front[a].0,
            #[trigger] front[b].0,
        ) by {
            assert(key_less(pairs[a].0, pairs[b].0));
        }
    }
    if has_key(front, pairs.last().0) {
        let j = choose|j: int| 0 <= j < front.len() && #[trigger] front[j].0 == pairs.last().0;
        assert(key_less(pairs[j].0, pairs[pairs.len() - 1].0));
        key_less_irreflexive(pairs.last().0);
    }
    if i < front.len() {
        label_map_values(front, i);
        assert(key_less(pairs[i].0, pairs[pairs.len() - 1].0));
        key_less_irreflexive(pairs[i].0);
    }
}

/// Putting a pair with a new key in its place among sorted pairs keeps them
/// sorted and adds exactly that label.
pub proof fn sorted_insert(pairs: Seq<Pair>, at: int, pair: Pair)
    requires
        sorted(pairs),
        0 <= at <= pairs.len(),
        forall|i: int| 0 <= i < at ==> key_less(#[trigger] pairs[i].0, pair.0),
        forall|i: int| at <= i < pairs.len() ==> key_less(pair.0, #[trigger] pairs[i].0),
    ensures
        sorted(pairs.insert(at, pair)),
        !label_map(pairs).contains_key(pair.0),
        label_map(pairs.insert(at, pair)) == label_map(pairs).insert(pair.0, pair.1),
{
    let wider = pairs.insert(at, pair);
    assert(sorted(wider)) by {
        assert forall|i: int, j: int| 0 <= i < j < wider.len() implies key_less(
            #[trigger] wider[i].0,
            #[trigger] wider[j].0,
        ) by {
            let a = if i < at { i } else { i - 1 };
            let b = if j < at { j } else { j - 1 };
            if i == at {
                assert(wider[j] == pairs[b]);
            } else if j == at {
                assert(wider[i] == pairs[a]);
            } else {
                assert(wider[i] == pairs[a] && wider[j] == pairs[b]);
                assert(key_less(pairs[a].0, pairs[b].0));
            }
        }
    }
    label_map_keys(pairs, pair.0);
    if has_key(pairs, pair.0) {
        let i = choose|i: int| 0 <= i < pairs.len() && #[trigger] pairs[i].0 == pair.0;
        key_less_irreflexive(pair.0);
    }
    assert(label_map(wider) =~= label_map(pairs).insert(pair.0, pair.1)) by {
        assert forall|k: Seq<char>| label_map(wider).contains_key(k) == label_map(pairs).insert(
            pair.0,
            pair.1,
        ).contains_key(k) by {
            label_map_keys(wider, k);
            label_map_keys(pairs, k);
            if has_key(wider, k) {
                let i = choose|i: int| 0 <= i < wider.len() && #[trigger] wider[i].0 == k;
                if i != at {
                    let a = if i < at { i } else { i - 1 };
                    assert(pairs[a].0 == k);
                }
            }
            if has_key(pairs, k) {
                let i = choose|i: int| 0 <= i < pairs.len() && #[trigger] pairs[i].0 == k;
                let a = if i < at { i } else { i + 1 };
                assert(wider[a].0 == k);
            }
            if k == pair.0 {
                assert(wider[at].0 == k);
            }
        }
        assert forall|k: Seq<char>| label_map(wider).contains_key(k) implies label_map(wider)[k]
            == label_map(pairs).insert(pair.0, pair.1)[k] by {
            label_map_keys(wider, k);
            let i = choose|i: int| 0 <= i < wider.len() && #[trigger] wider[i].0 == k;
            label_map_values(wider, i);
            if i != at {
                let a = if i < at { i } else { i - 1 };
                assert(wider[i] == pairs[a]);
                label_map_values(pairs, a);
            }
        }
    }
}

/// Sorted pairs are determined by the labels they stand for: two sorted
/// sequences with the same `label_map` are the same sequence.
pub proof fn sorted_pairs_are_determined(a: Seq<Pair>, b: Seq<Pair>)
    requires
        sorted(a),
        sorted(b),
        label_map(a) == label_map(b),
    ensures
        a == b,
{
    assert forall|n: int| 0 <= n <= a.len() && n <= b.len() implies a.take(n) == b.take(n) by {
        same_prefix(a, b, n);
    }
    if a.len() >= b.len() {
        no_further_pair(a, b);
    } else {
        assert(a.take(a.len() as int) == b.take(a.len() as int));
        no_further_pair(b, a);
    }
    assert(a.take(a.len() as int) =~= a);
    assert(b.take(b.len() as int) =~= b);
}

proof fn same_prefix(a: Seq<Pair>, b: Seq<Pair>, n: int)
    requires
        sorted(a),
        sorted(b),
        label_map(a) == label_map(b),
        0 <= n <= a.len(),
        n <= b.len(),
    ensures
        a.take(n) == b.take(n),
    decreases n,
{
    if n > 0 {
        same_prefix(a, b, n - 1);
        let i = n - 1;
        assert forall|k: int| 0 <= k < i implies a[k] == b[k] by {
            assert(a.take(i)[k] == b.take(i)[k]);
        }
        label_map_values(a, i);
        label_map_values(b, i);
        label_map_keys(b, a[i].0);
        label_map_keys(a, b[i].0);
        let j = choose|j: int| 0 <= j < b.len() && #[trigger] b[j].0 == a[i].0;
        let l = choose|l: int| 0 <= l < a.len() && #[trigger] a[l].0 == b[i].0;
        if j < i {
            assert(key_less(a[j].0, a[i].0));
            key_less_irreflexive(a[i].0);
        }
        if l < i {
            assert(key_less(b[l].0, b[i].0));
            key_less_irreflexive(b[i].0);
        }
        if j > i && l > i {
            assert(key_less(b[i].0, b[j].0));
            assert(key_less(a[i].0, a[l].0));
            key_less_transitive(b[i].0, a[i].0, b[i].0);
            key_less_irreflexive(b[i].0);
        }
        if j > i && l == i {
            assert(key_less(b[i].0, b[j].0));
            key_less_irreflexive(b[i].0);
        }
        if l > i && j == i {
            assert(key_less(a[i].0, a[l].0));
            key_less_irreflexive(a[i].0);
        }
        assert(a[i].0 == b[i].0);
        assert(a[i] == b[i]);
        assert(a.take(n) =~= b.take(n));
    }
}

proof fn no_further_pair(a: Seq<Pair>, b: Seq<Pair>)
    requires
        sorted(a),
        sorted(b),
        label_map(a) == label_map(b),
        a.len() >= b.len(),
        a.take(b.len() as int) == b.take(b.len() as int),
    ensures
        a.len() == b.len(),
{
    if a.len() > b.len() {
        let n = b.len() as int;
        label_map_values(a, n);
        label_map_keys(b, a[n].0);
        let j = choose|j: int| 0 <= j < b.len() && #[trigger] b[j].0 == a[n].0;
        assert(a.take(n)[j] == b.take(n)[j]);
        assert(key_less(a[j].0, a[n].0));
        key_less_irreflexive(a[n].0);
    }
}

/// Where a label with the given key goes among sorted pairs: behind the
/// pairs whose keys come before it.
pub open spec fn insert_place(pairs: Seq<Pair>, key: Seq<char>) -> int
    decreases pairs.len(),
{
    if pairs.len() == 0 {
        0
    } else if key_less(pairs.last().0, key) {
        pairs.len() as int
    } else {
        insert_place(pairs.drop_last(), key)
    }
}

/// The label set of a sequence of labels: the labels in the order of their
/// keys, and of several labels with one key only the first.
pub open spec fn sorted_labels(pairs: Seq<Pair>) -> Seq<Pair>
    decreases pairs.len(),
{
    if pairs.len() == 0 {
        Seq::empty()
    } else {
        let earlier = sorted_labels(pairs.drop_last());
        if has_key(earlier, pairs.last().0) {
            earlier
        } else {
            earlier.insert(insert_place(earlier, pairs.last().0), pairs.last())
        }
    }
}

/// Among sorted pairs that lack a key, the pairs before the place of the
/// key have keys that come before it, and the others have keys that come
/// after it.
pub proof fn insert_place_divides(pairs: Seq<Pair>, key: Seq<char>)
    requires
        sorted(pairs),
        !has_key(pairs, key),
    ensures
        0 <= insert_place(pairs, key) <= pairs.len(),
        forall|i: int| 0 <= i < insert_place(pairs, key) ==> key_less(#[trigger] pairs[i].0, key),
        forall|i: int|
            insert_place(pairs, key) <= i < pairs.len() ==> key_less(key, #[trigger] pairs[i].0),
    decreases pairs.len(),
{
    if pairs.len() > 0 {
        let front = pairs.drop_last();
        let last = pairs.len() - 1;
        assert(sorted(front)) by {
            assert forall|a: int, b: int| 0 <= a < b < front.len() implies key_less(
                #[trigger] front[a].0,
                #[trigger] front[b].0,
            ) by {
                assert(key_less(pairs[a].0, pairs[b].0));
            }
        }
        assert(!has_key(front, key)) by {
            if has_key(front, key) {
                let i = choose|i: int| 0 <= i < front.len() && #[trigger] front[i].0 == key;
                assert(pairs[i].0 == key);
            }
        }
        if key_less(pairs.last().0, key) {
            assert forall|i: int| 0 <= i < pairs.len() implies key_less(#[trigger] pairs[i].0, key) by {
                if i < last {
                    assert(key_less(pairs[i].0, pairs[last].0));
                    key_less_transitive(pairs[i].0, pairs[last].0, key);
                }
            }
        } else {
            insert_place_divides(front, key);
            assert forall|i: int| insert_place(pairs, key) <= i < pairs.len() implies key_less(
                key,
                #[trigger] pairs[i].0,
            ) by {
                if i < last {
                    assert(front[i] == pairs[i]);
                } else {
                    if !key_less(key, pairs[last].0) {
                        key_less_total(key, pairs[last].0);
                        assert(pairs[last].0 == key);
                    }
                }
            }
            assert forall|i: int| 0 <= i < insert_place(pairs, key) implies key_less(
                #[trigger] pairs[i].0,
                key,
            ) by {
                assert(front[i] == pairs[i]);
            }
        }
    }
}

/// The label set of a sequence of labels is sorted and stands for the same
/// labels.
pub proof fn sorted_labels_are_canonical(pairs: Seq<Pair>)
    ensures
        sorted(sorted_labels(pairs)),
        label_map(sorted_labels(pairs)) == label_map(pairs),
    decreases pairs.len(),
{
    if pairs.len() > 0 {
        let earlier = sorted_labels(pairs.drop_last());
        sorted_labels_are_canonical(pairs.drop_last());
        label_map_keys(earlier, pairs.last().0);
        if !has_key(earlier, pairs.last().0) {
            insert_place_divides(earlier, pairs.last().0);
            sorted_insert(earlier, insert_place(earlier, pairs.last().0), pairs.last());
        }
    }
}

/// Sorted pairs that stand for the labels of a sequence are its label set.
pub proof fn sorted_labels_are_unique(pairs: Seq<Pair>, arranged: Seq<Pair>)
    requires
        sorted(arranged),
        label_map(arranged) == label_map(pairs),
    ensures
        arranged == sorted_labels(pairs),
{
    sorted_labels_are_canonical(pairs);
    sorted_pairs_are_determined(arranged, sorted_labels(pairs));
}

/// The order in which labels are given is immaterial: two sequences that
/// stand for the same labels have the same label set.
pub proof fn label_order_is_immaterial(a: Seq<Pair>, b: Seq<Pair>)
    requires
        label_map(a) == label_map(b),
    ensures
        sorted_labels(a) == sorted_labels(b),
{
    sorted_labels_are_canonical(a);
    sorted_labels_are_unique(b, sorted_labels(a));
}

/// What hashing a value writes: a byte that tells its variant, then what it
/// holds.
pub open spec fn value_writes(value: ValueView) -> Seq<Seq<u8>> {
    match value {
        ValueView::Bool(b) => seq![seq![0u8], seq![if b { 1u8 } else { 0u8 }]],
        ValueView::I64(i) => seq![seq![1u8], spec_u64_to_le_bytes(twos_complement(i))],
        ValueView::U64(u) => seq![seq![2u8], spec_u64_to_le_bytes(u)],
        ValueView::F64(f) => seq![seq![3u8], spec_u64_to_le_bytes(f)],
        ValueView::String(s) => seq![seq![4u8]] + text_writes(s),
        ValueView::Bytes(b) => seq![seq![5u8], b],
    }
}

/// What hashing a sequence of labels writes: for each label in turn its
/// key, then its value.
pub open spec fn label_writes(pairs: Seq<Pair>) -> Seq<Seq<u8>>
    decreases pairs.len(),
{
    if pairs.len() == 0 {
        Seq::empty()
    } else {
        label_writes(pairs.drop_last()) + text_writes(pairs.last().0) + value_writes(pairs.last().1)
    }
}

impl Value {
    /// Feeds this value to a hasher.
    pub fn hash(&self, state: &mut DefaultHasher)
        ensures
            final(state)@ == old(state)@ + value_writes(self@),
    {
        match self {
            Value::Bool(b) => {
                write_byte(state, 0);
                write_byte(state, if *b { 1 } else { 0 });
            },
            Value::I64(i) => {
                write_byte(state, 1);
                let bytes = u64_to_le_bytes(pattern_of(*i));
                state.write(bytes.as_slice());
            },
            Value::U64(u) => {
                write_byte(state, 2);
                let bytes = u64_to_le_bytes(*u);
                state.write(bytes.as_slice());
            },
            Value::F64(f) => {
                write_byte(state, 3);
                let bytes = u64_to_le_bytes(*f);
                state.write(bytes.as_slice());
            },
            Value::String(s) => {
                write_byte(state, 4);
                write_text(state, s.as_str());
            },
            Value::Bytes(b) => {
                write_byte(state, 5);
                state.write(b.as_slice());
            },
        }
        assert(final(state)@ =~= old(state)@ + value_writes(self@));
    }
}

/// Labels in the order of their keys, each key once. Two of these are the
/// same label set exactly when they hold the same pairs.
#[derive(Debug)]
pub struct Distinct(Vec<KeyValue>);

impl View for Distinct {
    type V = Seq<Pair>;

    closed spec fn view(&self) -> Seq<Pair> {
        pairs_of(self.0@)
    }
}

impl Clone for Distinct {
    fn clone(&self) -> (r: Distinct)
        ensures
            r@ == self@,
    {
        let mut inner: Vec<KeyValue> = Vec::new();
        let mut n: usize = 0;
        while n < self.0.len()
            invariant
                n <= self.0.len(),
                inner@.len() == n,
                pairs_of(inner@) == pairs_of(self.0@).take(n as int),
            decreases self.0.len() - n,
        {
            let ghost before = inner@;
            let copy = self.0[n].clone();
            inner.push(copy);
            assert forall|i: int| 0 <= i < n + 1 implies pairs_of(inner@)[i] == pairs_of(self.0@)[i] by {
                if i < n {
                    assert(pairs_of(before)[i] == pairs_of(self.0@).take(n as int)[i]);
                }
            }
            assert(pairs_of(inner@) =~= pairs_of(self.0@).take(n as int + 1));
            n += 1;
        }
        assert(pairs_of(self.0@).take(n as int) =~= pairs_of(self.0@));
        Distinct(inner)
    }
}

impl Default for Distinct {
    fn default() -> (r: Distinct)
        ensures
            r@ == Seq::<Pair>::empty(),
            r.wf(),
    {
        let r = Distinct(Vec::new());
        assert(r@ =~= Seq::<Pair>::empty());
        r
    }
}

impl Distinct {
    /// Whether the keys rise strictly, as every constructor leaves them.
    pub open spec fn wf(&self) -> bool {
        sorted(self@)
    }

    /// The label set of the given labels: sorted by key, and of several
    /// labels with one key only the first.
    pub fn from(kvs: &[KeyValue]) -> (r: Distinct)
        ensures
            r@ == sorted_labels(pairs_of(kvs@)),
            r.wf(),
            label_map(r@) == label_map(pairs_of(kvs@)),
    {
        let mut inner: Vec<KeyValue> = Vec::new();
        let mut n: usize = 0;
        let ghost given = pairs_of(kvs@);
        while n < kvs.len()
            invariant
                n <= kvs.len(),
                given == pairs_of(kvs@),
                sorted(pairs_of(inner@)),
                label_map(pairs_of(inner@)) == label_map(given.take(n as int)),
            decreases kvs.len() - n,
        {
            let kv = &kvs[n];
            let mut at: usize = 0;
            while at < inner.len() && key_before(inner[at].key.as_str(), kv.key.as_str())
                invariant
                    at <= inner.len(),
                    forall|i: int| 0 <= i < at ==> key_less(#[trigger] pairs_of(inner@)[i].0, kv.key@),
                decreases inner.len() - at,
            {
                at += 1;
            }
            let present = at < inner.len() && !key_before(kv.key.as_str(), inner[at].key.as_str());
            proof {
                assert(given.take(n as int + 1).drop_last() =~= given.take(n as int));
                assert(given.take(n as int + 1).last() == kv@);
                let held = pairs_of(inner@);
                if present {
                    key_less_total(held[at as int].0, kv.key@);
                    label_map_keys(held, kv.key@);
                } else {
                    assert forall|i: int| at <= i < held.len() implies key_less(
                        kv.key@,
                        #[trigger] held[i].0,
                    ) by {
                        if i > at {
                            assert(key_less(held[at as int].0, held[i].0));
                            key_less_transitive(kv.key@, held[at as int].0, held[i].0);
                        }
                    }
                    sorted_insert(held, at as int, kv@);
                }
            }
            if !present {
                let ghost before = pairs_of(inner@);
                inner.insert(at, kv.clone());
                assert(pairs_of(inner@) =~= before.insert(at as int, kv@));
            }
            n += 1;
        }
        assert(given.take(n as int) =~= given);
        proof {
            sorted_labels_are_unique(given, pairs_of(inner@));
        }
        Distinct(inner)
    }

    /// Whether the set holds no label.
    pub fn is_empty(&self) -> (r: bool)
        ensures
            r == (self@.len() == 0),
    {
        self.0.is_empty()
    }

    /// The number of labels.
    pub fn len(&self) -> (r: usize)
        ensures
            r == self@.len(),
    {
        self.0.len()
    }

    /// The label at a position, counted in the order of the keys.
    pub fn get(&self, at: usize) -> (r: &KeyValue)
        requires
            at < self@.len(),
        ensures
            r@ == self@[at as int],
    {
        &self.0[at]
    }

    /// The digest of this label set alone.
    pub open spec fn digest(&self) -> u64 {
        DefaultHasher::spec_finish(label_writes(self@))
    }

    /// Feeds every label to a hasher, in the order of the keys.
    pub fn hash(&self, state: &mut DefaultHasher)
        ensures
            final(state)@ == old(state)@ + label_writes(self@),
    {
        let mut n: usize = 0;
        let ghost all = pairs_of(self.0@);
        assert(state@ =~= old(state)@ + label_writes(all.take(0)));
        while n < self.0.len()
            invariant
                n <= self.0.len(),
                all == pairs_of(self.0@),
                state@ == old(state)@ + label_writes(all.take(n as int)),
            decreases self.0.len() - n,
        {
            let ghost before = state@;
            write_text(state, self.0[n].key.as_str());
            self.0[n].value.hash(state);
            proof {
                assert(all.take(n as int + 1).drop_last() =~= all.take(n as int));
                assert(all.take(n as int + 1).last() == self.0@[n as int]@);
                assert(state@ =~= old(state)@ + label_writes(all.take(n as int + 1)));
            }
            n += 1;
        }
        assert(all.take(n as int) =~= all);
    }
}

/// How many encodings a label set keeps at a time.
pub const MAX_CONCURRENT_ENCODERS: usize = 3;

/// The identity of one class of encoders. Zero identifies none.
#[derive(Clone, Copy, Debug, PartialEq, Eq, Structural)]
pub struct EncoderId(pub usize);

impl EncoderId {
    /// Whether this identifies an encoder.
    pub fn is_valid(&self) -> (r: bool)
        ensures
            r == (self.0 != 0),
    {
        self.0 != 0
    }
}

/// Issues the identity after the `issued` that were given out before, and
/// counts it.
pub fn new_encoder_id(issued: &mut usize) -> (id: EncoderId)
    requires
        *old(issued) < usize::MAX,
    ensures
        *final(issued) == *old(issued) + 1,
        id.0 == *old(issued) + 1,
{
    *issued = *issued + 1;
    EncoderId(*issued)
}

/// Turns label sets into text. What an encoder gives is its own affair:
/// nothing is asked of it here, and nothing is known of it.
pub trait Encoder {
    /// The text for the labels.
    fn encode(&self, labels: &Distinct) -> String;

    /// The identity of this encoder, as `new_encoder_id` issued it to the
    /// class of encoders that it belongs to.
    fn id(&self) -> EncoderId;
}

/// One place of the cache of a label set, as contracts see it.
pub type CacheSlot = Option<(EncoderId, Seq<char>)>;

/// The first place that holds an encoding made by the encoder `id`.
pub open spec fn slot_of(cache: Seq<CacheSlot>, id: EncoderId) -> Option<int>
    decreases cache.len(),
{
    if cache.len() == 0 {
        None
    } else if slot_of(cache.drop_last(), id).is_some() {
        slot_of(cache.drop_last(), id)
    } else if cache.last().is_some() && cache.last().unwrap().0 == id {
        Some(cache.len() - 1)
    } else {
        None
    }
}

/// The first place that is empty or holds the encoding of no valid encoder.
pub open spec fn free_slot(cache: Seq<CacheSlot>) -> Option<int>
    decreases cache.len(),
{
    if cache.len() == 0 {
        None
    } else if free_slot(cache.drop_last()).is_some() {
        free_slot(cache.drop_last())
    } else if cache.last().is_none() || cache.last().unwrap().0.0 == 0 {
        Some(cache.len() - 1)
    } else {
        None
    }
}

/// The cache after the encoder `id` has made `text`: the text stands in the
/// first free place, and where none is free the cache is as before.
pub open spec fn cache_with(cache: Seq<CacheSlot>, id: EncoderId, text: Seq<char>) -> Seq<CacheSlot> {
    match free_slot(cache) {
        Some(at) => cache.update(at, Some((id, text))),
        None => cache,
    }
}

/// A label set together with the encodings that were last made of it.
#[derive(Debug)]
pub struct LabelSet {
    equivalent: Distinct,
    cached_encodings: Vec<Option<(EncoderId, String)>>,
}

impl View for LabelSet {
    type V = Seq<Pair>;

    closed spec fn view(&self) -> Seq<Pair> {
        self.equivalent@
    }
}

impl Clone for LabelSet {
    /// The copy holds the same labels and starts with an empty cache.
    fn clone(&self) -> (r: LabelSet)
        ensures
            r@ == self@,
            r.cache() == Seq::new(MAX_CONCURRENT_ENCODERS as nat, |i: int| None::<(EncoderId, Seq<char>)>),
    {
        LabelSet::with_equivalent(self.equivalent.clone())
    }
}

impl Default for LabelSet {
    fn default() -> (r: LabelSet)
        ensures
            r@ == Seq::<Pair>::empty(),
            r.wf(),
    {
        LabelSet::with_equivalent(Distinct::default())
    }
}

impl LabelSet {
    /// The encodings that the set keeps, place by place.
    pub closed spec fn cache(&self) -> Seq<CacheSlot> {
        Seq::new(
            self.cached_encodings@.len(),
            |i: int|
                match self.cached_encodings@[i] {
                    Some((id, text)) => Some((id, text@)),
                    None => None,
                },
        )
    }

    /// Whether the labels are sorted and the cache has all its places.
    pub open spec fn wf(&self) -> bool {
        sorted(self@) && self.cache().len() == MAX_CONCURRENT_ENCODERS
    }

    /// The label set of the given labels: sorted by key, and of several
    /// labels with one key only the first.
    pub fn from(kvs: &[KeyValue]) -> (r: LabelSet)
        ensures
            r@ == sorted_labels(pairs_of(kvs@)),
            r.wf(),
            label_map(r@) == label_map(pairs_of(kvs@)),
    {
        LabelSet::with_equivalent(Distinct::from(kvs))
    }

    /// A label set of the given labels, with an empty cache.
    pub fn with_equivalent(equivalent: Distinct) -> (r: LabelSet)
        ensures
            r@ == equivalent@,
            r.cache() == Seq::new(MAX_CONCURRENT_ENCODERS as nat, |i: int| None::<(EncoderId, Seq<char>)>),
    {
        let mut cached_encodings: Vec<Option<(EncoderId, String)>> = Vec::new();
        cached_encodings.push(None);
        cached_encodings.push(None);
        cached_encodings.push(None);
        let r = LabelSet { equivalent, cached_encodings };
        assert(r.cache() =~= Seq::new(
            MAX_CONCURRENT_ENCODERS as nat,
            |i: int| None::<(EncoderId, Seq<char>)>,
        ));
        r
    }

    /// The labels, sorted by key.
    pub fn equivalent(&self) -> (r: &Distinct)
        ensures
            r@ == self@,
            *r == self.distinct(),
    {
        &self.equivalent
    }

    /// Whether the set holds no label.
    pub fn is_empty(&self) -> (r: bool)
        ensures
            r == (self@.len() == 0),
    {
        self.equivalent.is_empty()
    }

    /// The labels in the order of their keys.
    pub fn iter(&self) -> (r: Vec<KeyValue>)
        ensures
            pairs_of(r@) == self@,
    {
        let mut out: Vec<KeyValue> = Vec::new();
        let mut n: usize = 0;
        while n < self.equivalent.len()
            invariant
                n <= self@.len(),
                out@.len() == n,
                pairs_of(out@) == self@.take(n as int),
            decreases self@.len() - n,
        {
            let ghost before = out@;
            let copy = self.equivalent.get(n).clone();
            out.push(copy);
            assert forall|i: int| 0 <= i < n + 1 implies pairs_of(out@)[i] == self@[i] by {
                if i < n {
                    assert(pairs_of(before)[i] == self@.take(n as int)[i]);
                }
            }
            assert(pairs_of(out@) =~= self@.take(n as int + 1));
            n += 1;
        }
        assert(self@.take(n as int) =~= self@);
        out
    }

    /// The encoding that the set keeps of the encoder `id`, if it keeps one.
    pub fn cached(&self, id: EncoderId) -> (r: Option<String>)
        requires
            self.wf(),
        ensures
            match slot_of(self.cache(), id) {
                Some(at) => r.is_some() && r.unwrap()@ == self.cache()[at].unwrap().1,
                None => r.is_none(),
            },
    {
        let mut n: usize = 0;
        while n < self.cached_encodings.len()
            invariant
                n <= self.cached_encodings@.len(),
                self.cache().len() == self.cached_encodings@.len(),
                slot_of(self.cache().take(n as int), id).is_none(),
            decreases self.cached_encodings@.len() - n,
        {
            assert(self.cache().take(n as int + 1).drop_last() =~= self.cache().take(n as int));
            assert(self.cache().take(n as int + 1).last() == self.cache()[n as int]);
            if let Some((held, text)) = &self.cached_encodings[n] {
                if *held == id {
                    let found = text.clone();
                    proof {
                        slot_of_prefix(self.cache(), id, n as int + 1);
                    }
                    return Some(found);
                }
            }
            n += 1;
        }
        assert(self.cache().take(n as int) =~= self.cache());
        None
    }

    /// Keeps `text` as the encoding made by the encoder `id`, in the first
    /// place that is empty or holds the encoding of no valid encoder. Where
    /// every place is taken, nothing changes.
    pub fn remember(&mut self, id: EncoderId, text: String)
        requires
            old(self).wf(),
        ensures
            final(self).wf(),
            final(self)@ == old(self)@,
            final(self).distinct() == old(self).distinct(),
            final(self).cache() == cache_with(old(self).cache(), id, text@),
    {
        let mut n: usize = 0;
        while n < self.cached_encodings.len()
            invariant
                n <= self.cached_encodings@.len(),
                *self == *old(self),
                old(self).wf(),
                self.cache().len() == self.cached_encodings@.len(),
                free_slot(self.cache().take(n as int)).is_none(),
            decreases self.cached_encodings@.len() - n,
        {
            assert(self.cache().take(n as int + 1).drop_last() =~= self.cache().take(n as int));
            assert(self.cache().take(n as int + 1).last() == self.cache()[n as int]);
            let free = match &self.cached_encodings[n] {
                Some((held, _)) => !held.is_valid(),
                None => true,
            };
            if free {
                proof {
                    free_slot_prefix(self.cache(), n as int + 1);
                }
                self.cached_encodings[n] = Some((id, text));
                assert(self.cache() =~= old(self).cache().update(n as int, Some((id, text@))));
                return ;
            }
            n += 1;
        }
        assert(self.cache().take(n as int) =~= self.cache());
    }

    /// The labels, as they are handed to an encoder.
    pub closed spec fn distinct(&self) -> Distinct {
        self.equivalent
    }

    /// Whether `text` and the set `after` are what comes of asking this set
    /// for its text as the encoder `e` gives it, where `e` says that its
    /// identity is `id`. An encoder without a valid identity makes the
    /// text, and the cache stays as it is. Of any other, the text that the
    /// cache holds under `id` is given, and the cache stays as it is; and
    /// where the cache holds none, the encoder makes the text, and the
    /// cache keeps it where it has room.
    pub open spec fn encoded_by<E: Encoder>(
        &self,
        after: &LabelSet,
        e: &E,
        id: EncoderId,
        text: String,
    ) -> bool {
        let made = call_ensures(E::encode, (e, &self.distinct()), text);
        if id.0 == 0 {
            made && after.cache() == self.cache()
        } else {
            match slot_of(self.cache(), id) {
                Some(at) => text@ == self.cache()[at].unwrap().1 && after.cache() == self.cache(),
                None => made && after.cache() == cache_with(self.cache(), id, text@),
            }
        }
    }

    /// The text of the labels as `encoder` gives it. No labels, or no
    /// encoder, give the empty text. Otherwise the encoder is asked for its
    /// identity. An encoder without a valid identity is asked for the text
    /// each time. Of any other the set keeps the text where it has room, as
    /// `remember` says, and gives the kept text from then on, as `cached`
    /// finds it. What the encoder makes of the labels is its own affair:
    /// the text is one that its `encode` returns for them.
    pub fn encoded<E: Encoder>(&mut self, encoder: Option<&E>) -> (r: String)
        requires
            old(self).wf(),
        ensures
            final(self).wf(),
            final(self)@ == old(self)@,
            final(self).distinct() == old(self).distinct(),
            old(self)@.len() == 0 || encoder.is_none() ==> r@ == Seq::<char>::empty()
                && final(self).cache() == old(self).cache(),
            old(self)@.len() > 0 && encoder.is_some() ==> exists|id: EncoderId|
                #[trigger] call_ensures(E::id, (encoder.unwrap(),), id) && old(self).encoded_by(
                    final(self),
                    encoder.unwrap(),
                    id,
                    r,
                ),
    {
        if self.is_empty() {
            return String::new();
        }
        match encoder {
            None => String::new(),
            Some(e) => {
                let id = e.id();
                if !id.is_valid() {
                    let text = e.encode(&self.equivalent);
                    assert(old(self).encoded_by(self, e, id, text));
                    return text;
                }
                match self.cached(id) {
                    Some(text) => {
                        assert(old(self).encoded_by(self, e, id, text));
                        text
                    },
                    None => {
                        let text = e.encode(&self.equivalent);
                        self.remember(id, text.clone());
                        assert(old(self).encoded_by(self, e, id, text));
                        text
                    },
                }
            },
        }
    }
}

/// A place found among the first `n` places is the place found among all.
pub proof fn slot_of_prefix(cache: Seq<CacheSlot>, id: EncoderId, n: int)
    requires
        0 <= n <= cache.len(),
        slot_of(cache.take(n), id).is_some(),
    ensures
        slot_of(cache, id) == slot_of(cache.take(n), id),
    decreases cache.len() - n,
{
    if n < cache.len() {
        assert(cache.take(n + 1).drop_last() =~= cache.take(n));
        slot_of_prefix(cache, id, n + 1);
    } else {
        assert(cache.take(n) =~= cache);
    }
}

/// A free place found among the first `n` places is the one found among all.
pub proof fn free_slot_prefix(cache: Seq<CacheSlot>, n: int)
    requires
        0 <= n <= cache.len(),
        free_slot(cache.take(n)).is_some(),
    ensures
        free_slot(cache) == free_slot(cache.take(n)),
    decreases cache.len() - n,
{
    if n < cache.len() {
        assert(cache.take(n + 1).drop_last() =~= cache.take(n));
        free_slot_prefix(cache, n + 1);
    } else {
        assert(cache.take(n) =~= cache);
    }
}

} // verus!
