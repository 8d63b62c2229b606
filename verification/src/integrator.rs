//! The integrator: it gathers the records of a collection pass into a
//! batch, and merges those that are of one instrument and label set.
use crate::aggregator::{Aggregator, AggregatorView};
use crate::descriptor::Descriptor;
use crate::error::MetricsError;
use crate::export::{Record, Resource};
use crate::labels::{label_writes, LabelSet, Pair};
use crate::selector::{selection_of, share, AggregationSelector, Selection};
use std::sync::Arc;
use crate::table::{place_of, Table};
use std::collections::hash_map::DefaultHasher;
use std::hash::Hasher;
use vstd::prelude::*;
use vstd::std_specs::hash::DefaultHasherAdditionalSpecFns;

verus! {

/// One entry of the batch.
#[derive(Debug)]
pub struct BatchValue {
    /// What was measured.
    pub aggregator: Aggregator,
    /// The instrument.
    pub descriptor: Descriptor,
    /// The labels under which the measurements were made.
    pub labels: LabelSet,
    /// The entity that made them.
    pub resource: Resource,
}

/// What a batch entry holds.
pub struct EntryView {
    /// What was measured.
    pub aggregator: AggregatorView,
    /// The instrument.
    pub descriptor: Descriptor,
    /// The labels under which the measurements were made.
    pub labels: Seq<Pair>,
    /// The entity that made them.
    pub resource: Seq<Pair>,
}

impl View for BatchValue {
    type V = EntryView;

    open spec fn view(&self) -> EntryView {
        EntryView {
            aggregator: self.aggregator@,
            descriptor: self.descriptor,
            labels: self.labels@,
            resource: self.resource@,
        }
    }
}

/// What a batch holds: its entries, each under its key, in the order in
/// which the keys came.
pub struct BatchView {
    /// The keys, none twice.
    pub keys: Seq<u64>,
    /// The entries, each at the place of its key.
    pub entries: Seq<EntryView>,
}

impl BatchView {
    /// The batch without entries.
    pub open spec fn empty() -> BatchView {
        BatchView { keys: Seq::empty(), entries: Seq::empty() }
    }

    /// Whether the batch is in order: every key has its entry, no key
    /// stands twice, and every aggregator is in order.
    pub open spec fn wf(self) -> bool {
        &&& self.keys.len() == self.entries.len()
        &&& self.keys.no_duplicates()
        &&& forall|i: int| 0 <= i < self.entries.len() ==> (#[trigger] self.entries[i]).aggregator.wf()
    }

    /// Whether the integrator takes a record: the entry that the batch
    /// holds under the record's key can be merged with it; or, where the
    /// key is new, there is something to keep.
    pub open spec fn accepts(
        self,
        selection: Selection,
        stateful: bool,
        descriptor: Descriptor,
        labels: Seq<Pair>,
        incoming: AggregatorView,
    ) -> bool {
        match place_of(self.keys, batch_key(descriptor, labels)) {
            Some(at) => self.entries[at].aggregator.mergeable(incoming),
            None => kept_for(selection, stateful, descriptor, incoming).is_some(),
        }
    }

    /// The batch after a record was handed to the integrator. A record
    /// whose key the batch holds is merged into that entry, whether or not
    /// the integrator is stateful. Of any other the batch gets a new entry
    /// at the end, which holds what `kept_for` says. A record that the
    /// integrator does not take leaves the batch as it is.
    pub open spec fn processed(
        self,
        selection: Selection,
        stateful: bool,
        descriptor: Descriptor,
        labels: Seq<Pair>,
        resource: Seq<Pair>,
        incoming: AggregatorView,
    ) -> BatchView {
        let key = batch_key(descriptor, labels);
        match place_of(self.keys, key) {
            Some(at) => BatchView {
                entries: self.entries.update(
                    at,
                    EntryView {
                        aggregator: self.entries[at].aggregator.merged(descriptor.number_kind, incoming),
                        ..self.entries[at]
                    },
                ),
                ..self
            },
            None => match kept_for(selection, stateful, descriptor, incoming) {
                Some(kept) => BatchView {
                    keys: self.keys.push(key),
                    entries: self.entries.push(
                        EntryView { aggregator: kept, descriptor, labels, resource },
                    ),
                },
                None => self,
            },
        }
    }
}

/// A checkpointed record as a collection pass hands it to the integrator.
pub struct Submission {
    /// The instrument.
    pub descriptor: Descriptor,
    /// The labels under which the measurements were made.
    pub labels: Seq<Pair>,
    /// The entity that made them.
    pub resource: Seq<Pair>,
    /// What was measured, checkpointed.
    pub aggregator: AggregatorView,
}

impl BatchView {
    /// The batch after the records were handed to the integrator, one
    /// after the other.
    pub open spec fn gathered(self, selection: Selection, stateful: bool, submissions: Seq<Submission>) -> BatchView
        decreases submissions.len(),
    {
        if submissions.len() == 0 {
            self
        } else {
            let last = submissions.last();
            self.gathered(selection, stateful, submissions.drop_last()).processed(
                selection,
                stateful,
                last.descriptor,
                last.labels,
                last.resource,
                last.aggregator,
            )
        }
    }

    /// How many of the records the integrator did not take.
    pub open spec fn refusals(self, selection: Selection, stateful: bool, submissions: Seq<Submission>) -> nat
        decreases submissions.len(),
    {
        if submissions.len() == 0 {
            0
        } else {
            let last = submissions.last();
            let before = self.gathered(selection, stateful, submissions.drop_last());
            let earlier = self.refusals(selection, stateful, submissions.drop_last());
            if before.accepts(selection, stateful, last.descriptor, last.labels, last.aggregator) {
                earlier
            } else {
                earlier + 1
            }
        }
    }
}

/// Handing over two runs of records, one after the other, is handing over
/// the one run that they make together.
pub proof fn gathered_in_turn(
    batch: BatchView,
    selection: Selection,
    stateful: bool,
    first: Seq<Submission>,
    second: Seq<Submission>,
)
    ensures
        batch.gathered(selection, stateful, first + second) == batch.gathered(
            selection,
            stateful,
            first,
        ).gathered(selection, stateful, second),
        batch.refusals(selection, stateful, first + second) == batch.refusals(selection, stateful, first)
            + batch.gathered(selection, stateful, first).refusals(selection, stateful, second),
    decreases second.len(),
{
    if second.len() == 0 {
        assert(first + second =~= first);
    } else {
        assert((first + second).drop_last() =~= first + second.drop_last());
        assert((first + second).last() == second.last());
        gathered_in_turn(batch, selection, stateful, first, second.drop_last());
    }
}

/// Whether a record shows a batch entry: it refers to what the entry holds.
pub open spec fn shows(record: Record, entry: EntryView) -> bool {
    &&& *record.descriptor == entry.descriptor
    &&& record.labels@ == entry.labels
    &&& record.resource@ == entry.resource
    &&& record.aggregator@ == entry.aggregator
}

/// Whether `f` can give `outcome` for a record that shows the entry.
pub open spec fn outcome_on<F: Fn(&Record) -> Result<(), MetricsError>>(
    f: &F,
    entry: EntryView,
    outcome: Result<(), MetricsError>,
) -> bool {
    exists|record: Record| #[trigger] shows(record, entry) && f.ensures((&record,), outcome)
}

/// Whether `outcome` can be what comes of handing the entries to `f` one
/// after the other, up to the first that `f` fails on: where all went well,
/// `f` took every entry; and where not, `outcome` is the error that `f` gave
/// for the first entry that it did not take.
pub open spec fn shown_to<F: Fn(&Record) -> Result<(), MetricsError>>(
    f: &F,
    entries: Seq<EntryView>,
    outcome: Result<(), MetricsError>,
) -> bool {
    match outcome {
        Ok(_) => forall|i: int|
            0 <= i < entries.len() ==> outcome_on(f, #[trigger] entries[i], Ok::<(), MetricsError>(())),
        Err(_) => exists|i: int|
            0 <= i < entries.len() && outcome_on(f, #[trigger] entries[i], outcome) && forall|j: int|
                0 <= j < i ==> outcome_on(f, #[trigger] entries[j], Ok::<(), MetricsError>(())),
    }
}

/// What the rows of a table of batch values hold.
pub open spec fn entries_of(values: Seq<BatchValue>) -> Seq<EntryView> {
    Seq::new(values.len(), |i: int| values[i]@)
}

/// The key of a batch entry: the digest of the instrument and the labels.
pub open spec fn batch_key(descriptor: Descriptor, labels: Seq<Pair>) -> u64 {
    DefaultHasher::spec_finish(descriptor.hash_writes() + label_writes(labels))
}

/// What the integrator keeps of a record whose key is new to the batch. A
/// stateful integrator keeps a fresh aggregator of its own into which the
/// record's was merged, so that the long-lived entry is never the
/// aggregator that is still being updated; where the two cannot be merged
/// it keeps nothing. An integrator that is not stateful, or whose selector
/// gives no aggregator for the instrument, keeps the record's aggregator as
/// it is.
pub open spec fn kept_for(
    selection: Selection,
    stateful: bool,
    descriptor: Descriptor,
    incoming: AggregatorView,
) -> Option<AggregatorView> {
    if stateful {
        match selection(descriptor) {
            Some(fresh) => if fresh.mergeable(incoming) {
                Some(fresh.merged(descriptor.number_kind, incoming))
            } else {
                None
            },
            None => Some(incoming),
        }
    } else {
        Some(incoming)
    }
}

/// What decides which aggregator an instrument gets, and gathers what a
/// collection pass checkpoints.
pub trait Integrator {
    /// The selector of this integrator.
    type Selector: AggregationSelector;

    /// The selector that this integrator holds. This is read by the
    /// verifier alone; nothing that runs calls it.
    spec fn selector(&self) -> Self::Selector;

    /// The selector that chooses the aggregator of each instrument.
    fn aggregation_selector(&self) -> (r: &Self::Selector)
        ensures
            *r == self.selector(),
    ;
}

impl<S: AggregationSelector> Integrator for SimpleIntegrator<S> {
    type Selector = S;

    closed spec fn selector(&self) -> S {
        *self.aggregation_selector
    }

    fn aggregation_selector(&self) -> (r: &S) {
        SimpleIntegrator::aggregation_selector(self)
    }
}

/// An integrator with the given selector and an empty batch. A stateful
/// one keeps its batch from pass to pass, so that what it exports is
/// cumulative.
pub fn simple<S: AggregationSelector>(selector: S, stateful: bool) -> (r: SimpleIntegrator<S>)
    ensures
        r.wf(),
        Integrator::selector(&r) == selector,
        r.selection() == selection_of(&selector),
        r.stateful() == stateful,
        r.batch() == BatchView::empty(),
{
    let r = SimpleIntegrator { aggregation_selector: Arc::new(selector), stateful, batch: Table::new() };
    assert(r.batch().entries =~= Seq::<EntryView>::empty());
    r
}

/// Gathers the records of a collection pass.
pub struct SimpleIntegrator<S: AggregationSelector> {
    aggregation_selector: Arc<S>,
    stateful: bool,
    batch: Table<BatchValue>,
}

impl<S: AggregationSelector> SimpleIntegrator<S> {
    /// What the selector gives for each descriptor.
    pub closed spec fn selection(&self) -> Selection {
        selection_of(&*self.aggregation_selector)
    }

    /// Whether the batch is kept from pass to pass.
    pub closed spec fn stateful(&self) -> bool {
        self.stateful
    }

    /// The batch.
    pub closed spec fn batch(&self) -> BatchView {
        BatchView { keys: self.batch.keys(), entries: entries_of(self.batch.values()) }
    }

    /// Whether the batch is in order.
    pub closed spec fn wf(&self) -> bool {
        &&& self.batch.wf()
        &&& self.batch().wf()
    }

    /// The batch of an integrator that is in order is in order.
    pub proof fn batch_is_in_order(&self)
        requires
            self.wf(),
        ensures
            self.batch().wf(),
    {
    }

    /// The selector that chooses the aggregators: the one that the
    /// integrator was made with.
    pub fn aggregation_selector(&self) -> (r: &S)
        ensures
            *r == Integrator::selector(self),
            selection_of(r) == self.selection(),
    {
        &*self.aggregation_selector
    }

    /// Another pointer to the selector, for the accumulator that serves
    /// this integrator.
    pub fn shared_selector(&self) -> (r: Arc<S>)
        ensures
            selection_of(&*r) == self.selection(),
    {
        share(&self.aggregation_selector)
    }

    /// Takes a checkpointed record into the batch. A record whose key the
    /// batch holds already is merged into that entry, whether or not the
    /// integrator is stateful. Of any other, the integrator keeps what
    /// `kept_for` says, as a new entry at the end. Where a merge is refused,
    /// the call fails and the batch is as before.
    pub fn process(&mut self, record: Record<'_>) -> (r: Result<(), MetricsError>)
        requires
            old(self).wf(),
            record.aggregator@.wf(),
        ensures
            final(self).wf(),
            final(self).selection() == old(self).selection(),
            final(self).stateful() == old(self).stateful(),
            r.is_err() ==> r matches Err(MetricsError::InconsistentMergeError(_)),
            r.is_ok() == old(self).batch().accepts(
                old(self).selection(),
                old(self).stateful(),
                *record.descriptor,
                record.labels@,
                record.aggregator@,
            ),
            final(self).batch() == old(self).batch().processed(
                old(self).selection(),
                old(self).stateful(),
                *record.descriptor,
                record.labels@,
                record.resource@,
                record.aggregator@,
            ),
    {
        let desc = record.descriptor;
        let agg = record.aggregator;
        let mut hasher = DefaultHasher::new();
        desc.hash(&mut hasher);
        record.labels.equivalent().hash(&mut hasher);
        let key = hasher.finish();
        proof {
            assert(hasher@ =~= desc.hash_writes() + label_writes(record.labels@));
            self.batch.row_is_in_order();
        }
        let ghost before = self.batch();
        let ghost after = before.processed(
            self.selection(),
            self.stateful(),
            *record.descriptor,
            record.labels@,
            record.resource@,
            record.aggregator@,
        );
        match self.batch.position(key) {
            Some(at) => {
                let entry = self.batch.value_mut(at);
                let merged = entry.aggregator.merge(agg, desc);
                proof {
                    assert(self.batch().entries =~= after.entries);
                    self.batch.row_is_in_order();
                }
                return merged;
            },
            None => {},
        }
        let mut new_agg: Option<Aggregator> = None;
        if self.stateful {
            new_agg = self.aggregation_selector.aggregator_for(desc);
            match new_agg {
                Some(mut fresh) => {
                    match fresh.merge(agg, desc) {
                        Err(err) => {
                            return Err(err);
                        },
                        Ok(()) => {},
                    }
                    new_agg = Some(fresh);
                },
                None => {},
            }
        }
        let aggregator = match new_agg {
            Some(a) => a,
            None => agg.clone(),
        };
        let value = BatchValue {
            aggregator,
            descriptor: desc.clone(),
            labels: record.labels.clone(),
            resource: record.resource.clone(),
        };
        self.batch.push(key, value);
        proof {
            assert(self.batch().entries =~= after.entries);
            self.batch.row_is_in_order();
        }
        Ok(())
    }

    /// How many entries the batch holds.
    pub fn len(&self) -> (r: usize)
        requires
            self.wf(),
        ensures
            r == self.batch().entries.len(),
    {
        self.batch.len()
    }

    /// The batch entry at a place, as a record for an exporter.
    pub fn record_at(&self, at: usize) -> (r: Record<'_>)
        requires
            self.wf(),
            at < self.batch().entries.len(),
        ensures
            *r.descriptor == self.batch().entries[at as int].descriptor,
            r.labels@ == self.batch().entries[at as int].labels,
            r.resource@ == self.batch().entries[at as int].resource,
            r.aggregator@ == self.batch().entries[at as int].aggregator,
            r.aggregator@.wf(),
    {
        let value = self.batch.value(at);
        Record::new(&value.descriptor, &value.labels, &value.resource, &value.aggregator)
    }

    /// Hands every record of the batch to `f`, in the order of the batch,
    /// up to the first that `f` fails on. The error of that one is
    /// returned.
    pub fn try_for_each<F: Fn(&Record) -> Result<(), MetricsError>>(&self, f: &F) -> (r: Result<
        (),
        MetricsError,
    >)
        requires
            self.wf(),
            forall|record: Record| #[trigger] f.requires((&record,)),
        ensures
            shown_to(f, self.batch().entries, r),
    {
        let mut at: usize = 0;
        while at < self.batch.len()
            invariant
                self.wf(),
                at <= self.batch().entries.len(),
                forall|record: Record| #[trigger] f.requires((&record,)),
                forall|i: int|
                    0 <= i < at ==> outcome_on(
                        f,
                        #[trigger] self.batch().entries[i],
                        Ok::<(), MetricsError>(()),
                    ),
            decreases self.batch().entries.len() - at,
        {
            let record = self.record_at(at);
            let outcome = f(&record);
            proof {
                assert(shows(record, self.batch().entries[at as int]));
                assert(outcome_on(f, self.batch().entries[at as int], outcome));
            }
            match outcome {
                Err(error) => {
                    return Err(error);
                },
                Ok(done) => {
                    assert(outcome == Ok::<(), MetricsError>(()));
                },
            }
            at += 1;
        }
        Ok(())
    }

    /// Ends a collection pass: an integrator that is not stateful empties
    /// its batch, a stateful one keeps it.
    pub fn finished_collection(&mut self)
        requires
            old(self).wf(),
        ensures
            final(self).wf(),
            final(self).selection() == old(self).selection(),
            final(self).stateful() == old(self).stateful(),
            final(self).batch() == (if old(self).stateful() {
                old(self).batch()
            } else {
                BatchView::empty()
            }),
    {
        if !self.stateful {
            self.batch.clear();
            assert(self.batch().entries =~= Seq::<EntryView>::empty());
        }
    }
}

} // verus!
