//! Every measurement, kept and sorted: the exact distribution.
use crate::aggregators::min_max_sum_count::{is_maximum, is_minimum};
use crate::aggregators::sum::total;
use crate::context::Context;
use crate::descriptor::Descriptor;
use crate::error::MetricsError;
use crate::ieee;
use crate::number::{number_key, number_lt, number_sum, Number, NumberKind};
use vstd::prelude::*;

verus! {

/// The patterns of a sequence of numbers.
pub open spec fn patterns(numbers: Seq<Number>) -> Seq<u64> {
    Seq::new(numbers.len(), |i: int| numbers[i]@)
}

/// Whether the numbers rise in the order of the kind: none comes before one
/// with a smaller key.
pub open spec fn key_sorted(kind: NumberKind, numbers: Seq<Number>) -> bool {
    forall|i: int, j: int|
        0 <= i < j < numbers.len() ==> number_key(kind, #[trigger] numbers[i]@) <= number_key(
            kind,
            #[trigger] numbers[j]@,
        )
}

/// The measurements in the order of the kind: the one arrangement of them
/// that is sorted.
pub open spec fn sorted_by_key(kind: NumberKind, numbers: Seq<Number>) -> Seq<Number> {
    choose|arranged: Seq<Number>|
        key_sorted(kind, arranged) && arranged.to_multiset() == numbers.to_multiset()
}

/// Two numbers with the same key under a kind are the same number.
pub proof fn key_is_injective(kind: NumberKind, a: Number, b: Number)
    requires
        number_key(kind, a@) == number_key(kind, b@),
    ensures
        a == b,
{
    ieee::total_key_is_injective(a@, b@);
}

/// There is only one sorted arrangement: two sorted sequences that hold the
/// same numbers, each as often as the other, are the same sequence.
pub proof fn sorted_arrangement_is_unique(kind: NumberKind, a: Seq<Number>, b: Seq<Number>)
    requires
        key_sorted(kind, a),
        key_sorted(kind, b),
        a.to_multiset() == b.to_multiset(),
    ensures
        a == b,
    decreases a.len(),
{
    a.to_multiset_ensures();
    b.to_multiset_ensures();
    assert(a.len() == b.len());
    if a.len() > 0 {
        let x = a.last();
        let y = b.last();
        assert(a.contains(x));
        assert(b.contains(y));
        assert(b.to_multiset().count(x) > 0);
        assert(a.to_multiset().count(y) > 0);
        assert(b.contains(x));
        assert(a.contains(y));
        let i = choose|i: int| 0 <= i < b.len() && b[i] == x;
        let j = choose|j: int| 0 <= j < a.len() && a[j] == y;
        assert(number_key(kind, b[i]@) <= number_key(kind, b[b.len() - 1]@) || i == b.len() - 1);
        assert(number_key(kind, a[j]@) <= number_key(kind, a[a.len() - 1]@) || j == a.len() - 1);
        key_is_injective(kind, x, y);
        let front_a = a.drop_last();
        let front_b = b.drop_last();
        assert(front_a =~= a.remove(a.len() - 1));
        assert(front_b =~= b.remove(b.len() - 1));
        vstd::seq_lib::to_multiset_remove(a, a.len() - 1);
        vstd::seq_lib::to_multiset_remove(b, b.len() - 1);
        assert(key_sorted(kind, front_a)) by {
            assert forall|m: int, n: int| 0 <= m < n < front_a.len() implies number_key(
                kind,
                #[trigger] front_a[m]@,
            ) <= number_key(kind, #[trigger] front_a[n]@) by {
                assert(front_a[m] == a[m] && front_a[n] == a[n]);
            }
        }
        assert(key_sorted(kind, front_b)) by {
            assert forall|m: int, n: int| 0 <= m < n < front_b.len() implies number_key(
                kind,
                #[trigger] front_b[m]@,
            ) <= number_key(kind, #[trigger] front_b[n]@) by {
                assert(front_b[m] == b[m] && front_b[n] == b[n]);
            }
        }
        sorted_arrangement_is_unique(kind, front_a, front_b);
        assert(a =~= front_a.push(x));
        assert(b =~= front_b.push(y));
    } else {
        assert(a =~= b);
    }
}

/// How many of the numbers have a key that is not above the key of `x`:
/// the place at which `x` goes among them where they are sorted.
pub open spec fn place_among(kind: NumberKind, numbers: Seq<Number>, x: Number) -> int
    decreases numbers.len(),
{
    if numbers.len() == 0 {
        0
    } else if number_key(kind, numbers.last()@) <= number_key(kind, x@) {
        numbers.len() as int
    } else {
        place_among(kind, numbers.drop_last(), x)
    }
}

/// Putting a number at its place among sorted numbers keeps them sorted and
/// adds just that number.
pub proof fn placed_in_order(kind: NumberKind, numbers: Seq<Number>, x: Number)
    requires
        key_sorted(kind, numbers),
    ensures
        0 <= place_among(kind, numbers, x) <= numbers.len(),
        key_sorted(kind, numbers.insert(place_among(kind, numbers, x), x)),
        numbers.insert(place_among(kind, numbers, x), x).to_multiset() == numbers.to_multiset().insert(x),
        forall|i: int|
            0 <= i < place_among(kind, numbers, x) ==> number_key(kind, #[trigger] numbers[i]@)
                <= number_key(kind, x@),
        forall|i: int|
            place_among(kind, numbers, x) <= i < numbers.len() ==> number_key(kind, x@) < number_key(
                kind,
                #[trigger] numbers[i]@,
            ),
    decreases numbers.len(),
{
    let at = place_among(kind, numbers, x);
    if numbers.len() > 0 {
        let front = numbers.drop_last();
        assert(key_sorted(kind, front)) by {
            assert forall|m: int, n: int| 0 <= m < n < front.len() implies number_key(
                kind,
                #[trigger] front[m]@,
            ) <= number_key(kind, #[trigger] front[n]@) by {
                assert(front[m] == numbers[m] && front[n] == numbers[n]);
            }
        }
        if number_key(kind, numbers.last()@) <= number_key(kind, x@) {
            assert forall|i: int| 0 <= i < numbers.len() implies number_key(kind, #[trigger] numbers[i]@)
                <= number_key(kind, x@) by {
                assert(number_key(kind, numbers[i]@) <= number_key(kind, numbers[numbers.len() - 1]@) || i
                    == numbers.len() - 1);
            }
        } else {
            placed_in_order(kind, front, x);
            assert forall|i: int| 0 <= i < at implies number_key(kind, #[trigger] numbers[i]@) <= number_key(
                kind,
                x@,
            ) by {
                assert(front[i] == numbers[i]);
            }
            assert forall|i: int| at <= i < numbers.len() implies number_key(kind, x@) < number_key(
                kind,
                #[trigger] numbers[i]@,
            ) by {
                if i < numbers.len() - 1 {
                    assert(front[i] == numbers[i]);
                }
            }
        }
    }
    let wider = numbers.insert(at, x);
    assert(wider.remove(at) =~= numbers);
    vstd::seq_lib::to_multiset_remove(wider, at);
    wider.to_multiset_ensures();
    assert(wider[at] == x);
    assert(wider.contains(x));
    assert(wider.to_multiset() =~= numbers.to_multiset().insert(x));
    assert forall|i: int, j: int| 0 <= i < j < wider.len() implies number_key(kind, #[trigger] wider[i]@)
        <= number_key(kind, #[trigger] wider[j]@) by {
        let a = if i < at { i } else { i - 1 };
        let b = if j < at { j } else { j - 1 };
        if i == at {
            assert(wider[j] == numbers[b]);
        } else if j == at {
            assert(wider[i] == numbers[a]);
        } else {
            assert(wider[i] == numbers[a] && wider[j] == numbers[b]);
        }
    }
}

/// Every sequence of numbers has a sorted arrangement: `sorted_by_key` is
/// sorted and holds the numbers, each as often as the sequence does.
pub proof fn sorted_arrangement_exists(kind: NumberKind, numbers: Seq<Number>)
    ensures
        key_sorted(kind, sorted_by_key(kind, numbers)),
        sorted_by_key(kind, numbers).to_multiset() == numbers.to_multiset(),
        sorted_by_key(kind, numbers).len() == numbers.len(),
    decreases numbers.len(),
{
    if numbers.len() == 0 {
        let none = Seq::<Number>::empty();
        assert(none =~= numbers);
        assert(key_sorted(kind, none) && none.to_multiset() == numbers.to_multiset());
    } else {
        let front = numbers.drop_last();
        let x = numbers.last();
        sorted_arrangement_exists(kind, front);
        let earlier = sorted_by_key(kind, front);
        placed_in_order(kind, earlier, x);
        let arranged = earlier.insert(place_among(kind, earlier, x), x);
        assert(numbers =~= front.push(x));
        vstd::seq_lib::to_multiset_build(front, x);
        assert(key_sorted(kind, arranged) && arranged.to_multiset() == numbers.to_multiset());
    }
    sorted_by_key(kind, numbers).to_multiset_ensures();
    numbers.to_multiset_ensures();
}

/// A sorted sequence that holds the given numbers is their sorted
/// arrangement, and the sorted arrangement is sorted and holds them.
pub proof fn sorted_arrangement_of(kind: NumberKind, numbers: Seq<Number>, arranged: Seq<Number>)
    requires
        key_sorted(kind, arranged),
        arranged.to_multiset() == numbers.to_multiset(),
    ensures
        arranged == sorted_by_key(kind, numbers),
        key_sorted(kind, sorted_by_key(kind, numbers)),
        sorted_by_key(kind, numbers).to_multiset() == numbers.to_multiset(),
{
    sorted_arrangement_is_unique(kind, arranged, sorted_by_key(kind, numbers));
}

/// Whether a quantile is one: from 0 to 1, and not a NaN.
pub open spec fn valid_quantile(q: u64) -> bool {
    !ieee::is_nan(q) && 0 <= ieee::rank(q) <= ieee::rank(ieee::ONE_BITS)
}

/// Whether a quantile is 1 or the value just below it, which are the values
/// nearer to 1 than the distance from 1 to the value just above it.
pub open spec fn near_one(q: u64) -> bool {
    q == ieee::ONE_BITS || q == ieee::ONE_BITS - 1
}

/// The position that a quantile has among `len` sorted points: the rounded
/// product of `len - 1` and the quantile, rounded up to an integer.
pub open spec fn quantile_position(len: nat, q: u64) -> u64 {
    ieee::ceiling(ieee::product(ieee::of_uint((len - 1) as u64), q))
}

/// What `quantile` gives for the points and a quantile.
pub open spec fn quantile_of(points: Seq<Number>, q: u64) -> Result<Number, MetricsError> {
    if points.len() == 0 {
        Err(MetricsError::NoDataCollected)
    } else if !valid_quantile(q) {
        Err(MetricsError::InvalidQuantile)
    } else if ieee::rank(q) == 0 || points.len() == 1 {
        Ok(points[0])
    } else if near_one(q) {
        Ok(points[points.len() - 1])
    } else {
        point_at(points, quantile_position(points.len(), q))
    }
}

/// The point at a position, where there is one.
pub open spec fn point_at(points: Seq<Number>, position: u64) -> Result<Number, MetricsError> {
    if position < points.len() {
        Ok(points[position as int])
    } else {
        Err(MetricsError::InvalidQuantile)
    }
}

/// A sequence of measurements.
#[derive(Debug)]
pub struct Points(Vec<Number>);

impl View for Points {
    type V = Seq<Number>;

    closed spec fn view(&self) -> Seq<Number> {
        self.0@
    }
}

impl Clone for Points {
    fn clone(&self) -> (r: Points)
        ensures
            r@ == self@,
    {
        let mut copy: Vec<Number> = Vec::new();
        let mut n: usize = 0;
        while n < self.0.len()
            invariant
                n <= self.0.len(),
                copy@ == self.0@.take(n as int),
            decreases self.0.len() - n,
        {
            copy.push(self.0[n]);
            assert(copy@ =~= self.0@.take(n as int + 1));
            n += 1;
        }
        assert(self.0@.take(n as int) =~= self.0@);
        Points(copy)
    }
}

impl Default for Points {
    fn default() -> (r: Points)
        ensures
            r@ == Seq::<Number>::empty(),
    {
        Points(Vec::new())
    }
}

impl Points {
    /// How many measurements there are.
    pub fn len(&self) -> (r: usize)
        ensures
            r == self@.len(),
    {
        self.0.len()
    }

    /// The measurement at a position.
    pub fn get(&self, at: usize) -> (r: Number)
        requires
            at < self@.len(),
        ensures
            r == self@[at as int],
    {
        self.0[at]
    }

    /// Whether these are the same measurements as `other`, in the same
    /// order.
    pub fn same_as(&self, other: &Points) -> (r: bool)
        ensures
            r == (self@ == other@),
    {
        if self.0.len() != other.0.len() {
            return false;
        }
        let mut n: usize = 0;
        while n < self.0.len()
            invariant
                n <= self.0@.len(),
                self.0@.len() == other.0@.len(),
                self.0@.take(n as int) == other.0@.take(n as int),
            decreases self.0@.len() - n,
        {
            if self.0[n].bits != other.0[n].bits {
                return false;
            }
            assert(self.0@.take(n as int + 1) =~= self.0@.take(n as int).push(self.0@[n as int]));
            assert(other.0@.take(n as int + 1) =~= other.0@.take(n as int).push(other.0@[n as int]));
            n += 1;
        }
        assert(self.0@.take(n as int) =~= self.0@);
        assert(other.0@.take(n as int) =~= other.0@);
        true
    }

    /// Adds a measurement at the end.
    pub fn push(&mut self, number: Number)
        ensures
            final(self)@ == old(self)@.push(number),
    {
        self.0.push(number);
    }

    /// Sorts the measurements in the order of the kind. For binary64 that is
    /// the numeric order, with `-0.0` before `+0.0`, NaNs with the sign set
    /// first of all and the other NaNs last.
    pub fn sort(&mut self, kind: &NumberKind)
        ensures
            final(self)@ == sorted_by_key(*kind, old(self)@),
            key_sorted(*kind, final(self)@),
            final(self)@.to_multiset() == old(self)@.to_multiset(),
    {
        let mut out: Vec<Number> = Vec::new();
        let mut n: usize = 0;
        assert(self.0@.take(0) =~= out@);
        while n < self.0.len()
            invariant
                n <= self.0.len(),
                *self == *old(self),
                key_sorted(*kind, out@),
                out@.to_multiset() == self.0@.take(n as int).to_multiset(),
            decreases self.0.len() - n,
        {
            let x = self.0[n];
            let mut at: usize = 0;
            while at < out.len() && !x.sorts_before(kind, &out[at])
                invariant
                    at <= out.len(),
                    forall|i: int|
                        0 <= i < at ==> number_key(*kind, #[trigger] out@[i]@) <= number_key(*kind, x@),
                decreases out.len() - at,
            {
                at += 1;
            }
            let ghost before = out@;
            out.insert(at, x);
            proof {
                assert(out@.remove(at as int) =~= before);
                vstd::seq_lib::to_multiset_remove(out@, at as int);
                out@.to_multiset_ensures();
                assert(out@[at as int] == x);
                assert(out@.contains(x));
                assert(out@.to_multiset() =~= before.to_multiset().insert(x));
                assert(self.0@.take(n as int + 1) =~= self.0@.take(n as int).push(x));
                vstd::seq_lib::to_multiset_build(self.0@.take(n as int), x);
                assert forall|i: int, j: int| 0 <= i < j < out@.len() implies number_key(
                    *kind,
                    #[trigger] out@[i]@,
                ) <= number_key(*kind, #[trigger] out@[j]@) by {
                    let a = if i < at { i } else { i - 1 };
                    let b = if j < at { j } else { j - 1 };
                    if i == at {
                        assert(out@[j] == before[b]);
                        assert(number_key(*kind, before[at as int]@) <= number_key(*kind, before[b]@)
                            || b == at);
                    } else if j == at {
                        assert(out@[i] == before[a]);
                    } else {
                        assert(out@[i] == before[a] && out@[j] == before[b]);
                    }
                }
            }
            n += 1;
        }
        assert(self.0@.take(n as int) =~= self.0@);
        proof {
            sorted_arrangement_of(*kind, self.0@, out@);
        }
        self.0 = out;
    }

    /// Adds the measurements of `other` and sorts them all.
    pub fn combine(&mut self, kind: &NumberKind, other: &Points)
        ensures
            final(self)@ == sorted_by_key(*kind, old(self)@ + other@),
            key_sorted(*kind, final(self)@),
            final(self)@.to_multiset() == (old(self)@ + other@).to_multiset(),
    {
        let mut n: usize = 0;
        while n < other.0.len()
            invariant
                n <= other.0.len(),
                self.0@ == old(self).0@ + other.0@.take(n as int),
            decreases other.0.len() - n,
        {
            self.0.push(other.0[n]);
            assert(self.0@ =~= old(self).0@ + other.0@.take(n as int + 1));
            n += 1;
        }
        assert(other.0@.take(n as int) =~= other.0@);
        self.sort(kind);
    }

    /// The measurement at a position, where there is one. No quantile from
    /// 0 to 1 leads beyond the last position.
    pub fn at_position(&self, position: u64) -> (r: Result<Number, MetricsError>)
        ensures
            r == point_at(self@, position),
    {
        if position < self.0.len() as u64 {
            Ok(self.0[position as usize])
        } else {
            Err(MetricsError::InvalidQuantile)
        }
    }

    /// The measurement at a quantile, given as the pattern of a binary64
    /// value, once the measurements are sorted. Quantile 0 gives the first
    /// measurement and quantile 1 the last. No value between adjacent
    /// measurements is made up.
    pub fn quantile(&self, q: u64) -> (r: Result<Number, MetricsError>)
        ensures
            r == quantile_of(self@, q),
    {
        if self.0.is_empty() {
            return Err(MetricsError::NoDataCollected);
        }
        if ieee::nan(q) || ieee::lt(q, 0) || ieee::lt(ieee::ONE_BITS, q) {
            return Err(MetricsError::InvalidQuantile);
        }
        if q == 0 || q == ieee::SIGN_BIT || self.0.len() == 1 {
            return Ok(self.0[0]);
        }
        if q == ieee::ONE_BITS || q == ieee::ONE_BITS - 1 {
            return Ok(self.0[self.0.len() - 1]);
        }
        let last = ieee::nearest((self.0.len() - 1) as u64);
        let position = ieee::round_up(ieee::rounded_product(last, q));
        self.at_position(position)
    }

    /// The total of the measurements, added up from zero in their order.
    pub fn total(&self, kind: &NumberKind) -> (r: Number)
        ensures
            r@ == total(*kind, patterns(self@)),
    {
        let mut acc = kind.zero();
        let mut n: usize = 0;
        assert(patterns(self@).take(0) =~= Seq::<u64>::empty());
        while n < self.0.len()
            invariant
                n <= self.0.len(),
                acc@ == total(*kind, patterns(self@).take(n as int)),
            decreases self.0.len() - n,
        {
            assert(patterns(self@).take(n as int + 1).drop_last() =~= patterns(self@).take(n as int));
            acc.add(kind, &self.0[n]);
            n += 1;
        }
        assert(patterns(self@).take(n as int) =~= patterns(self@));
        acc
    }
}

/// What an array aggregator holds.
pub struct ArrayView {
    /// The total of the period last closed.
    pub checkpoint_sum: Number,
    /// The measurements of the period that is running, as they came.
    pub current: Seq<Number>,
    /// The measurements of the period last closed, sorted.
    pub checkpoint: Seq<Number>,
}

impl ArrayView {
    /// The aggregator without measurements.
    pub open spec fn fresh() -> ArrayView {
        ArrayView { checkpoint_sum: Number { bits: 0 }, current: Seq::empty(), checkpoint: Seq::empty() }
    }

    /// The aggregator after one measurement.
    pub open spec fn updated(self, number: u64) -> ArrayView {
        ArrayView { current: self.current.push(Number { bits: number }), ..self }
    }

    /// The aggregator after a checkpoint: the measurements of the running
    /// period, sorted, and their total added up in that order.
    pub open spec fn checkpointed(self, kind: NumberKind) -> ArrayView {
        ArrayView {
            checkpoint_sum: Number { bits: total(kind, patterns(sorted_by_key(kind, self.current))) },
            current: Seq::empty(),
            checkpoint: sorted_by_key(kind, self.current),
        }
    }

    /// The aggregator after the checkpoint of `other` was merged into it:
    /// the measurements of both checkpoints, sorted, and the sum of the two
    /// totals.
    pub open spec fn merged(self, kind: NumberKind, other: ArrayView) -> ArrayView {
        ArrayView {
            checkpoint_sum: Number {
                bits: number_sum(kind, self.checkpoint_sum@, other.checkpoint_sum@),
            },
            checkpoint: sorted_by_key(kind, self.checkpoint + other.checkpoint),
            ..self
        }
    }
}

/// A fresh aggregator: no measurements.
pub fn array() -> (r: ArrayAggregator)
    ensures
        r@ == ArrayView::fresh(),
{
    ArrayAggregator {
        checkpoint_sum: Number { bits: 0 },
        current: Points::default(),
        checkpoint: Points::default(),
    }
}

/// Keeps every measurement. A checkpoint sorts those of the period it
/// closes, so that quantiles can be read off.
#[derive(Debug)]
pub struct ArrayAggregator {
    checkpoint_sum: Number,
    current: Points,
    checkpoint: Points,
}

impl View for ArrayAggregator {
    type V = ArrayView;

    closed spec fn view(&self) -> ArrayView {
        ArrayView {
            checkpoint_sum: self.checkpoint_sum,
            current: self.current@,
            checkpoint: self.checkpoint@,
        }
    }
}

impl Clone for ArrayAggregator {
    fn clone(&self) -> (r: ArrayAggregator)
        ensures
            r@ == self@,
    {
        ArrayAggregator {
            checkpoint_sum: self.checkpoint_sum,
            current: self.current.clone(),
            checkpoint: self.checkpoint.clone(),
        }
    }
}

impl ArrayAggregator {
    /// Keeps one more measurement.
    pub fn update_with_context(&mut self, cx: &Context, number: &Number, descriptor: &Descriptor) -> (r:
        Result<(), MetricsError>)
        ensures
            r.is_ok(),
            final(self)@ == old(self)@.updated(number@),
    {
        self.current.push(*number);
        Ok(())
    }

    /// Closes the running period: its measurements, sorted in the order of
    /// the instrument's kind, become the checkpoint, with their total, and a
    /// period without measurements starts.
    pub fn checkpoint(&mut self, descriptor: &Descriptor)
        ensures
            final(self)@ == old(self)@.checkpointed(descriptor.number_kind),
            key_sorted(descriptor.number_kind, final(self)@.checkpoint),
            final(self)@.checkpoint.to_multiset() == old(self)@.current.to_multiset(),
    {
        let kind = descriptor.number_kind();
        let mut closed = Points::default();
        std::mem::swap(&mut self.current, &mut closed);
        closed.sort(kind);
        self.checkpoint_sum = closed.total(kind);
        self.checkpoint = closed;
    }

    /// Merges the checkpoint of `other` into the checkpoint of this
    /// aggregator: the measurements of both, sorted, and the sum of the two
    /// totals.
    pub fn merge(&mut self, other: &ArrayAggregator, descriptor: &Descriptor) -> (r: Result<
        (),
        MetricsError,
    >)
        ensures
            r.is_ok(),
            final(self)@ == old(self)@.merged(descriptor.number_kind, other@),
            key_sorted(descriptor.number_kind, final(self)@.checkpoint),
            final(self)@.checkpoint.to_multiset() == (old(self)@.checkpoint
                + other@.checkpoint).to_multiset(),
    {
        let kind = descriptor.number_kind();
        self.checkpoint_sum.add(kind, &other.checkpoint_sum);
        self.checkpoint.combine(kind, &other.checkpoint);
        Ok(())
    }

    /// The least measurement of the period last closed.
    pub fn min(&self) -> (r: Result<Number, MetricsError>)
        ensures
            r == quantile_of(self@.checkpoint, 0),
    {
        self.checkpoint.quantile(0)
    }

    /// The greatest measurement of the period last closed.
    pub fn max(&self) -> (r: Result<Number, MetricsError>)
        ensures
            r == quantile_of(self@.checkpoint, ieee::ONE_BITS),
    {
        self.checkpoint.quantile(ieee::ONE_BITS)
    }

    /// The total of the period last closed.
    pub fn sum(&self) -> (r: Result<Number, MetricsError>)
        ensures
            r == Ok::<Number, MetricsError>(self@.checkpoint_sum),
    {
        Ok(self.checkpoint_sum)
    }

    /// How many measurements the period last closed took.
    pub fn count(&self) -> (r: Result<u64, MetricsError>)
        ensures
            r == Ok::<u64, MetricsError>(self@.checkpoint.len() as u64),
    {
        Ok(self.checkpoint.len() as u64)
    }

    /// The measurement at a quantile of the period last closed. The
    /// quantile is given as the pattern of a binary64 value.
    pub fn quantile(&self, q: u64) -> (r: Result<Number, MetricsError>)
        ensures
            r == quantile_of(self@.checkpoint, q),
    {
        self.checkpoint.quantile(q)
    }

    /// The measurements of the period last closed, sorted.
    pub fn points(&self) -> (r: Result<Vec<Number>, MetricsError>)
        ensures
            r.is_ok(),
            r.unwrap()@ == self@.checkpoint,
    {
        let copy = self.checkpoint.clone();
        Ok(copy.0)
    }
}

/// A quantile below 0 or above 1, or one that is no number, is refused
/// whatever the measurements are; and without measurements every quantile
/// is refused.
pub proof fn quantile_refusals(points: Seq<Number>, q: u64)
    ensures
        points.len() == 0 ==> quantile_of(points, q) == Err::<Number, MetricsError>(
            MetricsError::NoDataCollected,
        ),
        points.len() > 0 && (ieee::less(q, 0) || ieee::less(ieee::ONE_BITS, q)) ==> quantile_of(
            points,
            q,
        ) == Err::<Number, MetricsError>(MetricsError::InvalidQuantile),
{
}

/// Once a period is closed, quantile 0 is a minimum of its measurements and
/// quantile 1 a maximum: each is one of the measurements, and none lies
/// below the one or above the other.
pub proof fn extreme_quantiles(kind: NumberKind, recorded: Seq<Number>, closed: Seq<Number>)
    requires
        recorded.len() > 0,
        key_sorted(kind, closed),
        closed.to_multiset() == recorded.to_multiset(),
    ensures
        quantile_of(closed, 0).is_ok(),
        quantile_of(closed, ieee::ONE_BITS).is_ok(),
        is_minimum(kind, patterns(recorded), quantile_of(closed, 0).unwrap()@),
        is_maximum(kind, patterns(recorded), quantile_of(closed, ieee::ONE_BITS).unwrap()@),
{
    closed.to_multiset_ensures();
    recorded.to_multiset_ensures();
    let least = closed[0];
    let greatest = closed[closed.len() - 1];
    assert(closed.len() == recorded.len());
    assert(closed.contains(least));
    assert(closed.contains(greatest));
    assert(recorded.to_multiset().count(least) > 0);
    assert(recorded.to_multiset().count(greatest) > 0);
    assert(recorded.contains(least));
    assert(recorded.contains(greatest));
    let i = choose|i: int| 0 <= i < recorded.len() && recorded[i] == least;
    let j = choose|j: int| 0 <= j < recorded.len() && recorded[j] == greatest;
    assert(patterns(recorded)[i] == least@);
    assert(patterns(recorded)[j] == greatest@);
    assert forall|n: int| 0 <= n < recorded.len() implies !number_lt(
        kind,
        #[trigger] patterns(recorded)[n],
        least@,
    ) && !number_lt(kind, greatest@, patterns(recorded)[n]) by {
        assert(recorded.contains(recorded[n]));
        assert(closed.to_multiset().count(recorded[n]) > 0);
        assert(closed.contains(recorded[n]));
        let m = choose|m: int| 0 <= m < closed.len() && closed[m] == recorded[n];
        assert(number_key(kind, closed[0]@) <= number_key(kind, closed[m]@) || m == 0);
        assert(number_key(kind, closed[m]@) <= number_key(kind, closed[closed.len() - 1]@) || m
            == closed.len() - 1);
        key_refines_order(kind, recorded[n]@, least@);
        key_refines_order(kind, greatest@, recorded[n]@);
    }
}

/// Once an array aggregator has closed a period in which something was
/// measured, its quantile 0 is a minimum of the measurements of the period
/// and its quantile 1 a maximum.
pub proof fn checkpoint_orders_period(kind: NumberKind, aggregator: ArrayView)
    requires
        aggregator.current.len() > 0,
    ensures
        ({
            let closed = aggregator.checkpointed(kind).checkpoint;
            &&& quantile_of(closed, 0).is_ok()
            &&& quantile_of(closed, ieee::ONE_BITS).is_ok()
            &&& is_minimum(kind, patterns(aggregator.current), quantile_of(closed, 0).unwrap()@)
            &&& is_maximum(kind, patterns(aggregator.current), quantile_of(closed, ieee::ONE_BITS).unwrap()@)
            &&& closed.len() == aggregator.current.len()
        }),
{
    sorted_arrangement_exists(kind, aggregator.current);
    extreme_quantiles(kind, aggregator.current, aggregator.checkpointed(kind).checkpoint);
}

/// The key of a kind never reverses the order of the kind.
pub proof fn key_refines_order(kind: NumberKind, a: u64, b: u64)
    ensures
        number_lt(kind, a, b) ==> number_key(kind, a) < number_key(kind, b),
{
}

} // verus!
