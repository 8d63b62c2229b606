//! Counts of measurements in buckets between fixed boundaries.
use crate::aggregators::array::{key_sorted, sorted_by_key, Points};
use crate::aggregators::sum::total;
use crate::context::Context;
use crate::descriptor::Descriptor;
use crate::error::MetricsError;
use crate::ieee;
use crate::number::{number_as_float, number_sum, Number, NumberKind};
use vstd::prelude::*;

verus! {

/// The boundaries of a histogram and the count of each bucket. With the
/// boundaries `[x, y, z]` there are four buckets: below `x`, from `x` to
/// below `y`, from `y` to below `z`, and from `z` on.
#[derive(Debug)]
pub struct Buckets {
    boundaries: Vec<u64>,
    counts: Vec<u64>,
}

impl Buckets {
    /// The patterns of the boundaries.
    pub closed spec fn spec_boundaries(&self) -> Seq<u64> {
        self.boundaries@
    }

    /// The count of each bucket.
    pub closed spec fn spec_counts(&self) -> Seq<u64> {
        self.counts@
    }

    /// Buckets with the given boundaries and counts.
    pub fn new(boundaries: Vec<u64>, counts: Vec<u64>) -> (r: Buckets)
        ensures
            r.spec_boundaries() == boundaries@,
            r.spec_counts() == counts@,
    {
        Buckets { boundaries, counts }
    }

    /// The patterns of the boundaries, as binary64 values.
    pub fn boundaries(&self) -> (r: &Vec<u64>)
        ensures
            r@ == self.spec_boundaries(),
    {
        &self.boundaries
    }

    /// The count of each bucket.
    pub fn counts(&self) -> (r: &Vec<u64>)
        ensures
            r@ == self.spec_counts(),
    {
        &self.counts
    }
}

/// The numbers with the given patterns.
pub open spec fn numbers_of(patterns: Seq<u64>) -> Seq<Number> {
    Seq::new(patterns.len(), |i: int| Number { bits: patterns[i] })
}

/// The bucket of a sample: the position of the first boundary that is
/// above it, and the number of boundaries where none is. A sample that is a
/// NaN is below no boundary.
pub open spec fn bucket_of(boundaries: Seq<Number>, sample: u64) -> int
    decreases boundaries.len(),
{
    if boundaries.len() == 0 {
        0
    } else if ieee::less(sample, boundaries[0]@) {
        0
    } else {
        1 + bucket_of(boundaries.drop_first(), sample)
    }
}

/// The bucket of a sample is one of the buckets; no boundary before it is
/// above the sample, and the boundary that ends it is.
pub proof fn bucket_holds_sample(boundaries: Seq<Number>, sample: u64)
    ensures
        0 <= bucket_of(boundaries, sample) <= boundaries.len(),
        forall|i: int|
            0 <= i < bucket_of(boundaries, sample) ==> !ieee::less(sample, #[trigger] boundaries[i]@),
        bucket_of(boundaries, sample) < boundaries.len() ==> ieee::less(
            sample,
            boundaries[bucket_of(boundaries, sample)]@,
        ),
    decreases boundaries.len(),
{
    if boundaries.len() > 0 && !ieee::less(sample, boundaries[0]@) {
        let rest = boundaries.drop_first();
        bucket_holds_sample(rest, sample);
        assert forall|i: int| 0 <= i < bucket_of(boundaries, sample) implies !ieee::less(
            sample,
            #[trigger] boundaries[i]@,
        ) by {
            if i > 0 {
                assert(boundaries[i] == rest[i - 1]);
            }
        }
        if bucket_of(boundaries, sample) < boundaries.len() {
            assert(boundaries[bucket_of(boundaries, sample)] == rest[bucket_of(rest, sample)]);
        }
    }
}

/// What a histogram knows of one period.
pub struct StateView {
    /// The count of each bucket, modulo 2^64.
    pub bucket_counts: Seq<u64>,
    /// How many measurements were made, modulo 2^64.
    pub count: u64,
    /// Their total.
    pub sum: u64,
}

impl StateView {
    /// The state of a period without measurements, with `buckets` buckets.
    pub open spec fn empty_state(buckets: nat) -> StateView {
        StateView { bucket_counts: Seq::new(buckets, |i: int| 0u64), count: 0, sum: 0 }
    }

    /// The state after a measurement that falls into `bucket`.
    pub open spec fn updated(self, kind: NumberKind, bucket: int, number: u64) -> StateView {
        StateView {
            bucket_counts: self.bucket_counts.update(
                bucket,
                number_sum(NumberKind::U64, self.bucket_counts[bucket], 1),
            ),
            count: number_sum(NumberKind::U64, self.count, 1),
            sum: number_sum(kind, self.sum, number),
        }
    }

    /// The state that stands for the measurements of this state and of
    /// `other` together: bucket by bucket the sum of the counts, the sum of
    /// the counts, and the sum of the totals.
    pub open spec fn merged(self, kind: NumberKind, other: StateView) -> StateView {
        StateView {
            bucket_counts: Seq::new(
                self.bucket_counts.len(),
                |i: int| number_sum(NumberKind::U64, self.bucket_counts[i], other.bucket_counts[i]),
            ),
            count: number_sum(NumberKind::U64, self.count, other.count),
            sum: number_sum(kind, self.sum, other.sum),
        }
    }
}

/// What a histogram aggregator holds.
pub struct HistogramView {
    /// The boundaries, sorted.
    pub boundaries: Seq<Number>,
    /// How the numbers of the instrument are read.
    pub kind: NumberKind,
    /// The period that is running.
    pub current: StateView,
    /// The period last closed.
    pub checkpoint: StateView,
}

impl HistogramView {
    /// Whether the boundaries are sorted and both periods have one bucket
    /// more than there are boundaries.
    pub open spec fn wf(self) -> bool {
        &&& key_sorted(NumberKind::F64, self.boundaries)
        &&& self.current.bucket_counts.len() == self.boundaries.len() + 1
        &&& self.checkpoint.bucket_counts.len() == self.boundaries.len() + 1
    }

    /// The aggregator without measurements, with the given boundaries put
    /// in order.
    pub open spec fn fresh(kind: NumberKind, boundaries: Seq<u64>) -> HistogramView {
        HistogramView {
            boundaries: sorted_by_key(NumberKind::F64, numbers_of(boundaries)),
            kind,
            current: StateView::empty_state(boundaries.len() + 1),
            checkpoint: StateView::empty_state(boundaries.len() + 1),
        }
    }

    /// The aggregator after one measurement: it is counted in the bucket of
    /// its binary64 reading, and added to count and total.
    pub open spec fn updated(self, kind: NumberKind, number: u64) -> HistogramView {
        HistogramView {
            current: self.current.updated(
                kind,
                bucket_of(self.boundaries, number_as_float(kind, number)),
                number,
            ),
            ..self
        }
    }

    /// The aggregator after a checkpoint.
    pub open spec fn checkpointed(self) -> HistogramView {
        HistogramView {
            current: StateView::empty_state(self.boundaries.len() + 1),
            checkpoint: self.current,
            ..self
        }
    }

    /// The aggregator after the checkpoint of `other`, which has the same
    /// boundaries, was merged into it.
    pub open spec fn merged(self, kind: NumberKind, other: HistogramView) -> HistogramView {
        HistogramView { checkpoint: self.checkpoint.merged(kind, other.checkpoint), ..self }
    }
}

/// The counts of all buckets together, without bound.
pub open spec fn counts_total(counts: Seq<u64>) -> int
    decreases counts.len(),
{
    if counts.len() == 0 {
        0
    } else {
        counts_total(counts.drop_last()) + counts.last()
    }
}

/// The histogram after a sequence of measurements.
pub open spec fn after_updates(histogram: HistogramView, kind: NumberKind, updates: Seq<u64>) -> HistogramView
    decreases updates.len(),
{
    if updates.len() == 0 {
        histogram
    } else {
        after_updates(histogram, kind, updates.drop_last()).updated(kind, updates.last())
    }
}

/// Changing one count changes the total by the difference.
pub proof fn counts_total_of_update(counts: Seq<u64>, at: int, count: u64)
    requires
        0 <= at < counts.len(),
    ensures
        counts_total(counts.update(at, count)) == counts_total(counts) - counts[at] + count,
    decreases counts.len(),
{
    let changed = counts.update(at, count);
    if at == counts.len() - 1 {
        assert(changed.drop_last() =~= counts.drop_last());
    } else {
        assert(changed.drop_last() =~= counts.drop_last().update(at, count));
        counts_total_of_update(counts.drop_last(), at, count);
    }
}

/// Counts that are all zero add up to zero.
pub proof fn counts_total_of_zeros(counts: Seq<u64>)
    requires
        forall|i: int| 0 <= i < counts.len() ==> #[trigger] counts[i] == 0,
    ensures
        counts_total(counts) == 0,
    decreases counts.len(),
{
    if counts.len() > 0 {
        assert forall|i: int| 0 <= i < counts.drop_last().len() implies #[trigger] counts.drop_last()[i]
            == 0 by {
            assert(counts.drop_last()[i] == counts[i]);
        }
        counts_total_of_zeros(counts.drop_last());
        assert(counts[counts.len() - 1] == 0);
    }
}

/// Every measurement is counted in one bucket: in a period that started
/// without measurements, the counts of the buckets add up to the number of
/// measurements, modulo 2^64, which is what the period holds as its count;
/// and what it holds as its sum is their total.
pub proof fn buckets_hold_every_measurement(fresh: HistogramView, kind: NumberKind, updates: Seq<u64>)
    requires
        fresh.wf(),
        fresh.current == StateView::empty_state(fresh.boundaries.len() + 1),
    ensures
        ({
            let after = after_updates(fresh, kind, updates);
            &&& after.wf()
            &&& after.boundaries == fresh.boundaries
            &&& after.checkpoint == fresh.checkpoint
            &&& after.current.count == updates.len() % 0x1_0000_0000_0000_0000
            &&& counts_total(after.current.bucket_counts) % 0x1_0000_0000_0000_0000
                == after.current.count
            &&& after.current.sum == total(kind, updates)
        }),
    decreases updates.len(),
{
    if updates.len() == 0 {
        counts_total_of_zeros(fresh.current.bucket_counts);
    } else {
        let front = updates.drop_last();
        let x = updates.last();
        buckets_hold_every_measurement(fresh, kind, front);
        let before = after_updates(fresh, kind, front);
        let bucket = bucket_of(before.boundaries, number_as_float(kind, x));
        bucket_holds_sample(before.boundaries, number_as_float(kind, x));
        let counts = before.current.bucket_counts;
        let counted = number_sum(NumberKind::U64, counts[bucket], 1);
        counts_total_of_update(counts, bucket, counted);
        let m = 0x1_0000_0000_0000_0000int;
        let t = counts_total(counts);
        assert((t - counts[bucket] + counted) % m == (t + 1) % m) by {
            vstd::arithmetic::div_mod::lemma_add_mod_noop(t - counts[bucket], counts[bucket] + 1, m);
            vstd::arithmetic::div_mod::lemma_add_mod_noop(t - counts[bucket], counted as int, m);
            vstd::arithmetic::div_mod::lemma_mod_twice(counts[bucket] + 1, m);
        }
        assert((t + 1) % m == (front.len() as int + 1) % m) by {
            vstd::arithmetic::div_mod::lemma_add_mod_noop(t, 1, m);
            vstd::arithmetic::div_mod::lemma_add_mod_noop(front.len() as int, 1, m);
            vstd::arithmetic::div_mod::lemma_mod_twice(front.len() as int, m);
        }
        assert(number_sum(NumberKind::U64, before.current.count, 1) == (updates.len() as int) % m) by {
            vstd::arithmetic::div_mod::lemma_add_mod_noop(front.len() as int, 1, m);
            vstd::arithmetic::div_mod::lemma_small_mod(1, m as nat);
        }
    }
}

#[derive(Debug)]
struct State {
    bucket_counts: Vec<u64>,
    count: Number,
    sum: Number,
}

impl View for State {
    type V = StateView;

    closed spec fn view(&self) -> StateView {
        StateView { bucket_counts: self.bucket_counts@, count: self.count@, sum: self.sum@ }
    }
}

impl State {
    fn empty(boundaries: usize) -> (r: State)
        ensures
            r@ == StateView::empty_state(boundaries as nat + 1),
    {
        let mut bucket_counts: Vec<u64> = Vec::new();
        while bucket_counts.len() <= boundaries
            invariant
                bucket_counts@.len() <= boundaries + 1,
                forall|i: int| 0 <= i < bucket_counts@.len() ==> bucket_counts@[i] == 0,
            decreases boundaries + 1 - bucket_counts@.len(),
        {
            bucket_counts.push(0);
        }
        let r = State { bucket_counts, count: Number { bits: 0 }, sum: Number { bits: 0 } };
        assert(r@.bucket_counts =~= StateView::empty_state(boundaries as nat + 1).bucket_counts);
        r
    }

    fn copy(&self) -> (r: State)
        ensures
            r@ == self@,
    {
        let mut bucket_counts: Vec<u64> = Vec::new();
        let mut n: usize = 0;
        while n < self.bucket_counts.len()
            invariant
                n <= self.bucket_counts@.len(),
                bucket_counts@ == self.bucket_counts@.take(n as int),
            decreases self.bucket_counts@.len() - n,
        {
            bucket_counts.push(self.bucket_counts[n]);
            assert(bucket_counts@ =~= self.bucket_counts@.take(n as int + 1));
            n += 1;
        }
        assert(self.bucket_counts@.take(n as int) =~= self.bucket_counts@);
        State { bucket_counts, count: self.count, sum: self.sum }
    }
}

/// A fresh histogram for the instrument that `desc` describes, with the
/// given boundaries, which are patterns of binary64 values. The boundaries
/// are sorted first.
pub fn histogram(desc: &Descriptor, boundaries: &[u64]) -> (r: HistogramAggregator)
    ensures
        r@ == HistogramView::fresh(desc.number_kind, boundaries@),
        r@.wf(),
        r@.boundaries.to_multiset() == numbers_of(boundaries@).to_multiset(),
{
    let mut sorted_boundaries = Points::default();
    let mut n: usize = 0;
    while n < boundaries.len()
        invariant
            n <= boundaries@.len(),
            sorted_boundaries@ == numbers_of(boundaries@).take(n as int),
        decreases boundaries@.len() - n,
    {
        sorted_boundaries.push(Number { bits: boundaries[n] });
        assert(sorted_boundaries@ =~= numbers_of(boundaries@).take(n as int + 1));
        n += 1;
    }
    assert(numbers_of(boundaries@).take(n as int) =~= numbers_of(boundaries@));
    sorted_boundaries.sort(&NumberKind::F64);
    proof {
        sorted_boundaries@.to_multiset_ensures();
        numbers_of(boundaries@).to_multiset_ensures();
    }
    let buckets = sorted_boundaries.len();
    HistogramAggregator {
        boundaries: sorted_boundaries,
        kind: *desc.number_kind(),
        current: State::empty(buckets),
        checkpoint: State::empty(buckets),
    }
}

/// Counts measurements in the buckets that its boundaries make, and keeps
/// their number and total.
#[derive(Debug)]
pub struct HistogramAggregator {
    boundaries: Points,
    kind: NumberKind,
    current: State,
    checkpoint: State,
}

impl View for HistogramAggregator {
    type V = HistogramView;

    closed spec fn view(&self) -> HistogramView {
        HistogramView {
            boundaries: self.boundaries@,
            kind: self.kind,
            current: self.current@,
            checkpoint: self.checkpoint@,
        }
    }
}

impl Clone for HistogramAggregator {
    fn clone(&self) -> (r: HistogramAggregator)
        ensures
            r@ == self@,
    {
        HistogramAggregator {
            boundaries: self.boundaries.clone(),
            kind: self.kind,
            current: self.current.copy(),
            checkpoint: self.checkpoint.copy(),
        }
    }
}

impl HistogramAggregator {
    /// The bucket of a sample, which is given as the pattern of a binary64
    /// value: the position of the first boundary that is above it, and the
    /// number of boundaries where none is.
    pub fn bucket(&self, sample: u64) -> (r: usize)
        ensures
            r == bucket_of(self@.boundaries, sample),
            r <= self@.boundaries.len(),
    {
        let mut bucket_id: usize = 0;
        let mut found = false;
        assert(self.boundaries@.skip(0) =~= self.boundaries@);
        while !found && bucket_id < self.boundaries.len()
            invariant
                bucket_id <= self.boundaries@.len(),
                bucket_of(self.boundaries@, sample) == bucket_id + bucket_of(
                    self.boundaries@.skip(bucket_id as int),
                    sample,
                ),
                found ==> bucket_id < self.boundaries@.len() && ieee::less(
                    sample,
                    self.boundaries@[bucket_id as int]@,
                ),
            decreases self.boundaries@.len() - bucket_id + (if found { 0int } else { 1int }),
        {
            let boundary = self.boundaries.get(bucket_id);
            assert(self.boundaries@.skip(bucket_id as int)[0] == boundary);
            if ieee::lt(sample, boundary.bits) {
                found = true;
            } else {
                assert(self.boundaries@.skip(bucket_id as int).drop_first() =~= self.boundaries@.skip(
                    bucket_id as int + 1,
                ));
                bucket_id += 1;
            }
        }
        proof {
            if found {
                assert(self.boundaries@.skip(bucket_id as int)[0] == self.boundaries@[bucket_id as int]);
            }
            assert(bucket_of(self.boundaries@, sample) == bucket_id);
        }
        bucket_id
    }

    /// Counts one measurement in its bucket.
    pub fn update_with_context(&mut self, cx: &Context, number: &Number, descriptor: &Descriptor) -> (r:
        Result<(), MetricsError>)
        requires
            old(self)@.wf(),
        ensures
            r.is_ok(),
            final(self)@ == old(self)@.updated(descriptor.number_kind, number@),
            final(self)@.wf(),
    {
        let kind = descriptor.number_kind();
        let as_float = number.to_f64(kind);
        let bucket_id = self.bucket(as_float);
        let ghost before = self@;
        self.current.count.add(&NumberKind::U64, &Number { bits: 1 });
        self.current.sum.add(kind, number);
        let counted = self.current.bucket_counts[bucket_id].wrapping_add(1);
        self.current.bucket_counts[bucket_id] = counted;
        assert(self@.current.bucket_counts =~= before.updated(
            descriptor.number_kind,
            number@,
        ).current.bucket_counts);
        Ok(())
    }

    /// Closes the running period: it becomes the checkpoint, and a period
    /// without measurements starts.
    pub fn checkpoint(&mut self, descriptor: &Descriptor)
        requires
            old(self)@.wf(),
        ensures
            final(self)@ == old(self)@.checkpointed(),
            final(self)@.wf(),
    {
        let mut closed = State::empty(self.boundaries.len());
        std::mem::swap(&mut self.current, &mut closed);
        self.checkpoint = closed;
    }

    /// Merges the checkpoint of `other` into the checkpoint of this
    /// aggregator. Histograms with different boundaries cannot be merged.
    pub fn merge(&mut self, other: &HistogramAggregator, desc: &Descriptor) -> (r: Result<
        (),
        MetricsError,
    >)
        requires
            old(self)@.wf(),
            other@.wf(),
        ensures
            final(self)@.wf(),
            old(self)@.boundaries == other@.boundaries ==> r.is_ok() && final(self)@ == old(
                self,
            )@.merged(desc.number_kind, other@),
            old(self)@.boundaries != other@.boundaries ==> (r matches Err(
                MetricsError::InconsistentMergeError(_),
            )) && final(self)@ == old(self)@,
    {
        if !self.boundaries.same_as(&other.boundaries) {
            return Err(
                MetricsError::InconsistentMergeError(
                    String::from_str("histograms with different boundaries"),
                ),
            );
        }
        let kind = desc.number_kind();
        self.checkpoint.sum.add(kind, &other.checkpoint.sum);
        self.checkpoint.count.add(&NumberKind::U64, &other.checkpoint.count);
        let mut idx: usize = 0;
        while idx < self.checkpoint.bucket_counts.len()
            invariant
                idx <= self.checkpoint.bucket_counts@.len(),
                self.checkpoint.bucket_counts@.len() == old(self).checkpoint.bucket_counts@.len(),
                other.checkpoint.bucket_counts@.len() == self.checkpoint.bucket_counts@.len(),
                self.boundaries == old(self).boundaries,
                self.kind == old(self).kind,
                self.current == old(self).current,
                self.checkpoint.sum@ == number_sum(
                    desc.number_kind,
                    old(self).checkpoint.sum@,
                    other.checkpoint.sum@,
                ),
                self.checkpoint.count@ == number_sum(
                    NumberKind::U64,
                    old(self).checkpoint.count@,
                    other.checkpoint.count@,
                ),
                forall|i: int|
                    0 <= i < idx ==> self.checkpoint.bucket_counts@[i] == number_sum(
                        NumberKind::U64,
                        old(self).checkpoint.bucket_counts@[i],
                        other.checkpoint.bucket_counts@[i],
                    ),
                forall|i: int|
                    idx <= i < self.checkpoint.bucket_counts@.len()
                        ==> self.checkpoint.bucket_counts@[i] == old(self).checkpoint.bucket_counts@[i],
            decreases self.checkpoint.bucket_counts@.len() - idx,
        {
            let both = self.checkpoint.bucket_counts[idx].wrapping_add(
                other.checkpoint.bucket_counts[idx],
            );
            self.checkpoint.bucket_counts[idx] = both;
            idx += 1;
        }
        assert(self@.checkpoint.bucket_counts =~= old(self)@.merged(
            desc.number_kind,
            other@,
        ).checkpoint.bucket_counts);
        Ok(())
    }

    /// The total of the period last closed.
    pub fn sum(&self) -> (r: Result<Number, MetricsError>)
        ensures
            r == Ok::<Number, MetricsError>(Number { bits: self@.checkpoint.sum }),
    {
        Ok(self.checkpoint.sum)
    }

    /// How many measurements the period last closed took.
    pub fn count(&self) -> (r: Result<u64, MetricsError>)
        ensures
            r == Ok::<u64, MetricsError>(self@.checkpoint.count),
    {
        Ok(self.checkpoint.count.to_u64())
    }

    /// The boundaries, and the count of each bucket in the period last
    /// closed.
    pub fn histogram(&self) -> (r: Result<Buckets, MetricsError>)
        ensures
            r.is_ok(),
            numbers_of(r.unwrap().spec_boundaries()) == self@.boundaries,
            r.unwrap().spec_counts() == self@.checkpoint.bucket_counts,
    {
        let mut boundaries: Vec<u64> = Vec::new();
        let mut n: usize = 0;
        while n < self.boundaries.len()
            invariant
                n <= self.boundaries@.len(),
                boundaries@.len() == n,
                forall|i: int| 0 <= i < n ==> boundaries@[i] == self.boundaries@[i]@,
            decreases self.boundaries@.len() - n,
        {
            boundaries.push(self.boundaries.get(n).bits);
            n += 1;
        }
        let counts = self.checkpoint.copy().bucket_counts;
        assert(numbers_of(boundaries@) =~= self.boundaries@);
        Ok(Buckets::new(boundaries, counts))
    }
}

} // verus!
