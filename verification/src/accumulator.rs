//! The accumulator: it keeps one record for each instrument and label set
//! that was measured, and hands what was gathered to the integrator once in
//! each collection pass.
use crate::aggregator::{range_fault, range_test, Aggregator, AggregatorView};
use crate::context::Context;
use crate::descriptor::Descriptor;
use crate::error::MetricsError;
use crate::export::{record, Resource};
use crate::identity::{place_of_identity, IdentityMap, MapKey};
use crate::integrator::{gathered_in_turn, SimpleIntegrator, Submission};
use crate::observer::{AsyncInstrument, AsyncView};
use crate::labels::{label_writes, pairs_of, sorted, sorted_labels, Distinct, KeyValue, LabelSet, Pair};
use crate::number::{number_sum, Number, NumberKind};
use crate::selector::{selection_of, AggregationSelector, Selection};
use std::sync::Arc;
use std::collections::hash_map::DefaultHasher;
use std::hash::Hasher;
use vstd::prelude::*;
use crate::table::{place_in_row, row_map, row_map_without, without};
use vstd::std_specs::hash::DefaultHasherAdditionalSpecFns;

verus! {

/// The state of one instrument under one label set.
#[derive(Debug)]
pub struct Record {
    /// How many measurements were taken, modulo 2^64.
    pub update_count: Number,
    /// What `update_count` was when the record was last collected.
    pub collected_count: Number,
    /// The labels.
    pub labels: LabelSet,
    /// The instrument.
    pub descriptor: Descriptor,
    /// What folds the measurements; none where the instrument is switched
    /// off.
    pub recorder: Option<Aggregator>,
    /// How many bound instruments refer to the record.
    pub handles: usize,
}

/// What a record holds.
pub struct RecordView {
    /// How many measurements were taken, modulo 2^64.
    pub update_count: u64,
    /// What `update_count` was when the record was last collected.
    pub collected_count: u64,
    /// The labels.
    pub labels: Seq<Pair>,
    /// The instrument.
    pub descriptor: Descriptor,
    /// What folds the measurements.
    pub recorder: Option<AggregatorView>,
    /// How many bound instruments refer to the record.
    pub handles: nat,
}

impl RecordView {
    /// Whether the record is in order: its labels are sorted, and so is its
    /// aggregator.
    pub open spec fn wf(self) -> bool {
        &&& sorted(self.labels)
        &&& self.recorder.is_some() ==> self.recorder.unwrap().wf()
    }

    /// The record of an instrument under labels, before any measurement.
    pub open spec fn fresh(selection: Selection, descriptor: Descriptor, labels: Seq<Pair>) -> RecordView {
        RecordView {
            update_count: 0,
            collected_count: 0,
            labels: sorted_labels(labels),
            descriptor,
            recorder: selection(descriptor),
            handles: 0,
        }
    }

    /// The record after a measurement made at `timestamp`. A measurement
    /// that the range check refuses, and any made while the instrument is
    /// switched off, leaves the record as it is.
    pub open spec fn recorded(self, timestamp: u64, number: u64) -> RecordView {
        if range_fault(number, self.descriptor).is_some() {
            self
        } else {
            match self.recorder {
                Some(aggregator) => RecordView {
                    update_count: number_sum(NumberKind::U64, self.update_count, 1),
                    recorder: Some(aggregator.updated(timestamp, self.descriptor.number_kind, number)),
                    ..self
                },
                None => self,
            }
        }
    }

    /// Whether measurements were taken since the record was last collected.
    pub open spec fn dirty(self) -> bool {
        self.update_count != self.collected_count
    }

    /// Whether a collection pass drops the record: nothing was measured
    /// since the last pass, and no bound instrument refers to it.
    pub open spec fn evictable(self) -> bool {
        !self.dirty() && self.handles == 0
    }

    /// The record after a collection pass that keeps it: where something
    /// was measured, the aggregator is checkpointed and the measurements
    /// count as collected.
    pub open spec fn collected(self) -> RecordView {
        if self.dirty() {
            RecordView {
                collected_count: self.update_count,
                recorder: match self.recorder {
                    Some(aggregator) => Some(aggregator.checkpointed(self.descriptor.number_kind)),
                    None => None,
                },
                ..self
            }
        } else {
            self
        }
    }
}

impl View for Record {
    type V = RecordView;

    open spec fn view(&self) -> RecordView {
        RecordView {
            update_count: self.update_count@,
            collected_count: self.collected_count@,
            labels: self.labels@,
            descriptor: self.descriptor,
            recorder: match self.recorder {
                Some(aggregator) => Some(aggregator@),
                None => None,
            },
            handles: self.handles as nat,
        }
    }
}

impl Record {
    /// Takes one measurement: checks it against the instrument, hands it to
    /// the aggregator, and counts it. A measurement that the check refuses
    /// changes nothing, and the fault is returned.
    pub fn record_one_with_context(&mut self, cx: &Context, number: Number) -> (r: Result<
        (),
        MetricsError,
    >)
        requires
            old(self)@.wf(),
        ensures
            final(self)@ == old(self)@.recorded(cx.timestamp, number@),
            final(self)@.wf(),
            match range_fault(number@, old(self).descriptor) {
                Some(fault) => r == Err::<(), MetricsError>(fault),
                None => r.is_ok(),
            },
    {
        match range_test(&number, &self.descriptor) {
            Err(fault) => {
                return Err(fault);
            },
            Ok(()) => {},
        }
        match &mut self.recorder {
            Some(recorder) => {
                let _ = recorder.update_with_context(cx, &number, &self.descriptor);
                let mut count = self.update_count;
                count.add(&NumberKind::U64, &Number { bits: 1 });
                self.update_count = count;
            },
            None => {},
        }
        Ok(())
    }
}

/// The identity of the record of an instrument under labels.
pub open spec fn map_key(descriptor: Descriptor, labels: Seq<Pair>) -> MapKey {
    MapKey {
        descriptor_hash: descriptor.digest(),
        ordered_hash: DefaultHasher::spec_finish(label_writes(sorted_labels(labels))),
    }
}

/// The identity of a record does not depend on the order in which its
/// labels were given: two sequences of labels that stand for the same
/// labels lead to the same record.
pub proof fn identity_ignores_label_order(descriptor: Descriptor, a: Seq<Pair>, b: Seq<Pair>)
    requires
        crate::labels::label_map(a) == crate::labels::label_map(b),
    ensures
        map_key(descriptor, a) == map_key(descriptor, b),
{
    crate::labels::label_order_is_immaterial(a, b);
}

/// What an accumulator holds.
pub struct AccumulatorView {
    /// The identities of the records, none twice.
    pub keys: Seq<MapKey>,
    /// The records, each at the place of its identity.
    pub records: Seq<RecordView>,
    /// The asynchronous instruments, in the order in which they were made.
    pub instruments: Seq<AsyncView>,
    /// The number of the collection pass that comes next.
    pub epoch: u64,
    /// What the selector gives for each descriptor.
    pub selection: Selection,
    /// The entity that makes the measurements.
    pub resource: Seq<Pair>,
}

/// One observation: a value, and the number of the asynchronous instrument
/// that it is of.
#[derive(Clone, Copy, Debug, PartialEq, Eq, Structural)]
pub struct Observation {
    /// The value.
    pub number: Number,
    /// The instrument, as `new_async_instrument` numbered it.
    pub instrument: usize,
}

impl Observation {
    /// An observation of a value on an instrument.
    pub fn new(number: Number, instrument: usize) -> (r: Observation)
        ensures
            r == (Observation { number, instrument }),
    {
        Observation { number, instrument }
    }

    /// The value.
    pub fn number(&self) -> (r: &Number)
        ensures
            *r == self.number,
    {
        &self.number
    }

    /// The instrument.
    pub fn instrument(&self) -> (r: usize)
        ensures
            r == self.instrument,
    {
        self.instrument
    }
}

/// One measurement of a batch: a value, and the synchronous instrument that
/// it was made on.
#[derive(Debug)]
pub struct Measurement {
    /// The value.
    pub number: Number,
    /// The instrument.
    pub instrument: SyncInstrument,
}

/// A count held to the range of `usize`.
pub open spec fn saturated(n: nat) -> usize {
    if n <= usize::MAX {
        n as usize
    } else {
        usize::MAX
    }
}

/// What a collection pass hands to the integrator of the asynchronous
/// instruments, instrument by instrument.
pub open spec fn async_submissions(instruments: Seq<AsyncView>, epoch: u64, resource: Seq<Pair>) -> Seq<
    Submission,
>
    decreases instruments.len(),
{
    if instruments.len() == 0 {
        Seq::empty()
    } else {
        async_submissions(instruments.drop_last(), epoch, resource) + instruments.last().submissions(
            epoch,
            resource,
        )
    }
}

impl AccumulatorView {
    /// Whether the accumulator is in order: every identity has its record,
    /// no identity stands twice, and every record is in order.
    pub open spec fn wf(self) -> bool {
        &&& self.keys.len() == self.records.len()
        &&& self.keys.no_duplicates()
        &&& forall|i: int| 0 <= i < self.records.len() ==> (#[trigger] self.records[i]).wf()
        &&& forall|i: int| 0 <= i < self.instruments.len() ==> (#[trigger] self.instruments[i]).wf()
    }

    /// The accumulator after an observation made at `timestamp` under the
    /// given label set. An observation of an instrument that does not
    /// exist changes nothing.
    pub open spec fn observing(self, timestamp: u64, labels: Seq<Pair>, observation: Observation) -> AccumulatorView {
        if observation.instrument < self.instruments.len() {
            AccumulatorView {
                instruments: self.instruments.update(
                    observation.instrument as int,
                    self.instruments[observation.instrument as int].observed(
                        self.selection,
                        timestamp,
                        observation.number@,
                        labels,
                        self.epoch,
                    ),
                ),
                ..self
            }
        } else {
            self
        }
    }

    /// The accumulator after a run of observations under one label set.
    pub open spec fn after_observations(
        self,
        timestamp: u64,
        labels: Seq<Pair>,
        observations: Seq<Observation>,
    ) -> AccumulatorView
        decreases observations.len(),
    {
        if observations.len() == 0 {
            self
        } else {
            self.after_observations(timestamp, labels, observations.drop_last()).observing(
                timestamp,
                labels,
                observations.last(),
            )
        }
    }

    /// The faults of a run of observations: for each observation that the
    /// range check of its instrument refuses, why.
    pub open spec fn faults(self, observations: Seq<Observation>) -> Seq<MetricsError>
        decreases observations.len(),
    {
        if observations.len() == 0 {
            Seq::empty()
        } else {
            let earlier = self.faults(observations.drop_last());
            let last = observations.last();
            if last.instrument < self.instruments.len() && range_fault(
                last.number@,
                self.instruments[last.instrument as int].descriptor,
            ).is_some() {
                earlier.push(
                    range_fault(
                        last.number@,
                        self.instruments[last.instrument as int].descriptor,
                    ).unwrap(),
                )
            } else {
                earlier
            }
        }
    }

    /// The accumulator after a measurement made at `timestamp` on an
    /// instrument under labels: the record is made where it does not exist
    /// yet, and takes the measurement.
    pub open spec fn recording(
        self,
        timestamp: u64,
        descriptor: Descriptor,
        labels: Seq<Pair>,
        number: u64,
    ) -> AccumulatorView {
        let key = map_key(descriptor, labels);
        let made = self.acquired(descriptor, labels);
        made.with_record(key, made.record(key).unwrap().recorded(timestamp, number))
    }

    /// Why a measurement on an instrument under labels is refused, if it
    /// is. The range check is that of the record's instrument.
    pub open spec fn recording_fault(self, descriptor: Descriptor, labels: Seq<Pair>, number: u64) -> Option<
        MetricsError,
    > {
        let made = self.acquired(descriptor, labels);
        range_fault(number, made.record(map_key(descriptor, labels)).unwrap().descriptor)
    }

    /// The accumulator after a batch of measurements under one label set.
    pub open spec fn after_batch(self, timestamp: u64, labels: Seq<Pair>, measurements: Seq<Measurement>) -> AccumulatorView
        decreases measurements.len(),
    {
        if measurements.len() == 0 {
            self
        } else {
            self.after_batch(timestamp, labels, measurements.drop_last()).recording(
                timestamp,
                measurements.last().instrument.descriptor,
                labels,
                measurements.last().number@,
            )
        }
    }

    /// The faults of a batch of measurements: for each measurement that
    /// is refused, why.
    pub open spec fn batch_faults(self, timestamp: u64, labels: Seq<Pair>, measurements: Seq<Measurement>) -> Seq<
        MetricsError,
    >
        decreases measurements.len(),
    {
        if measurements.len() == 0 {
            Seq::empty()
        } else {
            let earlier = self.batch_faults(timestamp, labels, measurements.drop_last());
            let fault = self.after_batch(timestamp, labels, measurements.drop_last()).recording_fault(
                measurements.last().instrument.descriptor,
                labels,
                measurements.last().number@,
            );
            match fault {
                Some(why) => earlier.push(why),
                None => earlier,
            }
        }
    }

    /// What a collection pass hands to the integrator: first of the
    /// asynchronous instruments, then of the records.
    pub open spec fn submissions(self) -> Seq<Submission> {
        async_submissions(self.instruments, self.epoch, self.resource) + submissions_of(
            self.records,
            self.resource,
        )
    }

    /// The records under their identities.
    pub open spec fn record_map(self) -> Map<MapKey, RecordView> {
        row_map(self.keys, self.records)
    }

    /// The records after a collection pass, under their identities: the
    /// pass drops the records on which nothing was measured since the pass
    /// before and to which no bound instrument refers, and collects the
    /// others.
    pub open spec fn swept(self) -> Map<MapKey, RecordView> {
        Map::new(
            |k: MapKey| self.keys.contains(k) && !self.records[self.keys.index_of(k)].evictable(),
            |k: MapKey| self.records[self.keys.index_of(k)].collected(),
        )
    }

    /// The accumulator after the record of an instrument under labels was
    /// asked for: a record that is there stays as it is, and one that is
    /// not is made, fresh, at the end of the row.
    pub open spec fn acquired(self, descriptor: Descriptor, labels: Seq<Pair>) -> AccumulatorView {
        let key = map_key(descriptor, labels);
        if self.keys.contains(key) {
            self
        } else {
            AccumulatorView {
                keys: self.keys.push(key),
                records: self.records.push(RecordView::fresh(self.selection, descriptor, labels)),
                ..self
            }
        }
    }

    /// The accumulator after a change to the record under an identity.
    /// Without such a record it is as before.
    pub open spec fn with_record(self, key: MapKey, record: RecordView) -> AccumulatorView {
        match place_of_identity(self.keys, key) {
            Some(at) => AccumulatorView { records: self.records.update(at, record), ..self },
            None => self,
        }
    }

    /// The record under an identity, where there is one.
    pub open spec fn record(self, key: MapKey) -> Option<RecordView> {
        match place_of_identity(self.keys, key) {
            Some(at) => Some(self.records[at]),
            None => None,
        }
    }
}

/// What a collection pass hands to the integrator of a row of records: of
/// each record on which something was measured since the pass before, the
/// checkpointed aggregator, in the order of the row.
pub open spec fn submissions_of(records: Seq<RecordView>, resource: Seq<Pair>) -> Seq<Submission>
    decreases records.len(),
{
    if records.len() == 0 {
        Seq::empty()
    } else {
        let earlier = submissions_of(records.drop_last(), resource);
        let last = records.last();
        if last.dirty() && last.recorder.is_some() {
            earlier.push(
                Submission {
                    descriptor: last.descriptor,
                    labels: last.labels,
                    resource,
                    aggregator: last.recorder.unwrap().checkpointed(last.descriptor.number_kind),
                },
            )
        } else {
            earlier
        }
    }
}

/// A row of records on none of which something was measured since the
/// last pass has nothing for the integrator.
pub proof fn clean_records_submit_nothing(records: Seq<RecordView>, resource: Seq<Pair>)
    requires
        forall|i: int| 0 <= i < records.len() ==> !(#[trigger] records[i]).dirty(),
    ensures
        submissions_of(records, resource) == Seq::<Submission>::empty(),
    decreases records.len(),
{
    if records.len() > 0 {
        assert forall|i: int| 0 <= i < records.drop_last().len() implies !(#[trigger] records.drop_last()[i]).dirty() by {
            assert(records.drop_last()[i] == records[i]);
        }
        clean_records_submit_nothing(records.drop_last(), resource);
        assert(!records[records.len() - 1].dirty());
    }
}

/// Nothing is counted twice: what a collection pass has handed to the
/// integrator it does not hand over again. After a pass, no record is left
/// with measurements that were not collected, and a pass that follows
/// without a measurement in between has nothing for the integrator of the
/// records.
pub proof fn nothing_is_collected_twice(before: AccumulatorView, after: AccumulatorView)
    requires
        before.wf(),
        after.wf(),
        after.record_map() == before.swept(),
    ensures
        forall|i: int| 0 <= i < after.records.len() ==> !(#[trigger] after.records[i]).dirty(),
        submissions_of(after.records, after.resource) == Seq::<Submission>::empty(),
{
    assert forall|i: int| 0 <= i < after.records.len() implies !(#[trigger] after.records[i]).dirty() by {
        place_in_row(after.keys, i);
        let k = after.keys[i];
        assert(after.record_map().contains_key(k));
        assert(after.record_map()[k] == after.records[i]);
        assert(before.swept().contains_key(k));
    }
    clean_records_submit_nothing(after.records, after.resource);
}

/// Whether a recorder is in order: its aggregator is, where there is one.
pub open spec fn recorder_wf(recorder: Option<Aggregator>) -> bool {
    recorder.is_some() ==> recorder.unwrap()@.wf()
}

/// Closes the running period of a recorder and hands it to the integrator,
/// as the record of an instrument under labels. Returned are the number of
/// aggregators that were checkpointed, which is one, or none where the
/// instrument is switched off; and the error of the integrator, where it
/// does not take the record.
pub fn checkpoint<S: AggregationSelector>(
    descriptor: &Descriptor,
    recorder: &mut Option<Aggregator>,
    labels: &LabelSet,
    resource: &Resource,
    integrator: &mut SimpleIntegrator<S>,
) -> (r: (usize, Option<MetricsError>))
    requires
        old(integrator).wf(),
        recorder_wf(*old(recorder)),
    ensures
        final(integrator).wf(),
        final(integrator).selection() == old(integrator).selection(),
        final(integrator).stateful() == old(integrator).stateful(),
        recorder_wf(*final(recorder)),
        match *old(recorder) {
            None => {
                &&& r.0 == 0
                &&& r.1.is_none()
                &&& final(recorder).is_none()
                &&& final(integrator).batch() == old(integrator).batch()
            },
            Some(aggregator) => {
                let closed = aggregator@.checkpointed(descriptor.number_kind);
                &&& r.0 == 1
                &&& final(recorder).is_some()
                &&& final(recorder).unwrap()@ == closed
                &&& final(integrator).batch() == old(integrator).batch().processed(
                    old(integrator).selection(),
                    old(integrator).stateful(),
                    *descriptor,
                    labels@,
                    resource@,
                    closed,
                )
                &&& r.1.is_none() == old(integrator).batch().accepts(
                    old(integrator).selection(),
                    old(integrator).stateful(),
                    *descriptor,
                    labels@,
                    closed,
                )
                &&& r.1.is_some() ==> r.1.unwrap() matches MetricsError::InconsistentMergeError(_)
            },
        },
{
    match recorder {
        None => (0, None),
        Some(aggregator) => {
            aggregator.checkpoint(descriptor);
            let export = record(descriptor, labels, resource, aggregator);
            match integrator.process(export) {
                Err(err) => (1, Some(err)),
                Ok(()) => (1, None),
            }
        },
    }
}

/// What the rows of a map of records hold.
pub open spec fn records_of(values: Seq<Record>) -> Seq<RecordView> {
    Seq::new(values.len(), |i: int| values[i]@)
}

/// Keeps the records of the instruments that were made with it.
pub struct Accumulator<S: AggregationSelector> {
    current: IdentityMap<Record>,
    async_instruments: Vec<AsyncInstrument>,
    current_epoch: Number,
    selector: Arc<S>,
    resource: Resource,
}

impl<S: AggregationSelector> View for Accumulator<S> {
    type V = AccumulatorView;

    closed spec fn view(&self) -> AccumulatorView {
        AccumulatorView {
            keys: self.current.keys(),
            records: records_of(self.current.values()),
            instruments: Seq::new(self.async_instruments@.len(), |i: int| self.async_instruments@[i]@),
            epoch: self.current_epoch@,
            selection: selection_of(&*self.selector),
            resource: self.resource@,
        }
    }
}

/// A synchronous instrument: one on which measurements are recorded as they
/// are made.
#[derive(Debug)]
pub struct SyncInstrument {
    /// What describes the instrument.
    pub descriptor: Descriptor,
}

/// An instrument bound to a label set: it refers to one record.
#[derive(Debug)]
pub struct BoundInstrument {
    /// The identity of the record.
    pub key: MapKey,
}

impl<S: AggregationSelector> Accumulator<S> {
    /// Whether the accumulator is in order.
    pub closed spec fn wf(&self) -> bool {
        &&& self.current.wf()
        &&& self@.wf()
        &&& forall|i: int|
            0 <= i < self.async_instruments@.len() ==> (#[trigger] self.async_instruments@[i]).wf()
    }

    /// The view of an accumulator that is in order is in order.
    pub proof fn view_is_in_order(&self)
        requires
            self.wf(),
        ensures
            self@.wf(),
    {
    }

    /// An accumulator without records, before its first collection pass.
    pub fn new(selector: Arc<S>, resource: Resource) -> (r: Accumulator<S>)
        ensures
            r.wf(),
            r@ == (AccumulatorView {
                keys: Seq::empty(),
                records: Seq::empty(),
                instruments: Seq::empty(),
                epoch: 0,
                selection: selection_of(&*selector),
                resource: resource@,
            }),
    {
        let r = Accumulator {
            current: IdentityMap::new(),
            async_instruments: Vec::new(),
            current_epoch: NumberKind::U64.zero(),
            selector,
            resource,
        };
        assert(r@.records =~= Seq::<RecordView>::empty());
        assert(r@.instruments =~= Seq::<AsyncView>::empty());
        r
    }

    /// A synchronous instrument that records into this accumulator.
    pub fn new_sync_instrument(&self, descriptor: Descriptor) -> (r: Result<SyncInstrument, MetricsError>)
        ensures
            r.is_ok(),
            r.unwrap().descriptor == descriptor,
    {
        Ok(SyncInstrument { descriptor })
    }

    /// The number of the collection pass that comes next.
    pub fn current_epoch(&self) -> (r: u64)
        ensures
            r == self@.epoch,
    {
        self.current_epoch.to_u64()
    }

    /// How many records there are.
    pub fn len(&self) -> (r: usize)
        requires
            self.wf(),
        ensures
            r == self@.records.len(),
    {
        self.current.len()
    }

    /// An asynchronous instrument by its number, where there is one.
    pub fn async_instrument(&self, instrument: usize) -> (r: Option<&AsyncInstrument>)
        requires
            self.wf(),
        ensures
            r.is_some() == (instrument < self@.instruments.len()),
            r.is_some() ==> r.unwrap()@ == self@.instruments[instrument as int] && r.unwrap().wf(),
    {
        if instrument < self.async_instruments.len() {
            Some(&self.async_instruments[instrument])
        } else {
            None
        }
    }

    /// The record under an identity, where there is one.
    pub fn get(&self, key: MapKey) -> (r: Option<&Record>)
        requires
            self.wf(),
        ensures
            r.is_some() == self@.record(key).is_some(),
            r.is_some() ==> r.unwrap()@ == self@.record(key).unwrap(),
    {
        match self.current.position(key) {
            Some(at) => Some(self.current.value(at)),
            None => None,
        }
    }
}

impl<S: AggregationSelector> Accumulator<S> {
    /// Collects the records of the synchronous instruments. Every record
    /// on which something was measured since the pass before is
    /// checkpointed and handed to the integrator, in the order of the row.
    /// Every record on which nothing was measured, and to which no bound
    /// instrument refers, is dropped. Returned are the number of records
    /// that were checkpointed, and the errors of the integrator.
    pub fn collect_sync_instruments(&mut self, integrator: &mut SimpleIntegrator<S>) -> (r: (
        usize,
        Vec<MetricsError>,
    ))
        requires
            old(self).wf(),
            old(integrator).wf(),
        ensures
            final(self).wf(),
            final(integrator).wf(),
            final(integrator).selection() == old(integrator).selection(),
            final(integrator).stateful() == old(integrator).stateful(),
            final(integrator).batch() == old(integrator).batch().gathered(
                old(integrator).selection(),
                old(integrator).stateful(),
                submissions_of(old(self)@.records, old(self)@.resource),
            ),
            r.0 == submissions_of(old(self)@.records, old(self)@.resource).len(),
            r.1@.len() == old(integrator).batch().refusals(
                old(integrator).selection(),
                old(integrator).stateful(),
                submissions_of(old(self)@.records, old(self)@.resource),
            ),
            forall|i: int|
                0 <= i < r.1@.len() ==> #[trigger] r.1@[i] matches MetricsError::InconsistentMergeError(_),
            final(self)@.record_map() == old(self)@.swept(),
            final(self)@.instruments == old(self)@.instruments,
            final(self)@.epoch == old(self)@.epoch,
            final(self)@.selection == old(self)@.selection,
            final(self)@.resource == old(self)@.resource,
    {
        let n = self.current.len();
        let mut i: usize = 0;
        let mut count: usize = 0;
        let mut errors: Vec<MetricsError> = Vec::new();
        let mut stale: Vec<bool> = Vec::new();
        let ghost start = self@;
        let ghost batch0 = integrator.batch();
        let ghost selection = integrator.selection();
        let ghost stateful = integrator.stateful();
        proof {
            assert(start.records.take(0) =~= Seq::<RecordView>::empty());
        }
        while i < n
            invariant
                i <= n,
                n == start.records.len(),
                start.wf(),
                self.current.wf(),
                self@.wf(),
                self@.keys == start.keys,
                self@.records.len() == n,
                self@.epoch == start.epoch,
                self@.selection == start.selection,
                self@.resource == start.resource,
                self.async_instruments == old(self).async_instruments,
                self@.instruments == start.instruments,
                old(self).wf(),
                forall|j: int| 0 <= j < i ==> #[trigger] self@.records[j] == start.records[j].collected(),
                forall|j: int| i <= j < n ==> #[trigger] self@.records[j] == start.records[j],
                integrator.wf(),
                integrator.selection() == selection,
                integrator.stateful() == stateful,
                integrator.batch() == batch0.gathered(
                    selection,
                    stateful,
                    submissions_of(start.records.take(i as int), start.resource),
                ),
                count == submissions_of(start.records.take(i as int), start.resource).len(),
                count <= i,
                errors@.len() == batch0.refusals(
                    selection,
                    stateful,
                    submissions_of(start.records.take(i as int), start.resource),
                ),
                forall|j: int|
                    0 <= j < errors@.len() ==> #[trigger] errors@[j] matches MetricsError::InconsistentMergeError(
                        _,
                    ),
                stale@.len() == i,
                forall|j: int| 0 <= j < i ==> #[trigger] stale@[j] == start.records[j].evictable(),
            decreases n - i,
        {
            let ghost before = self@;
            let ghost earlier = submissions_of(start.records.take(i as int), start.resource);
            proof {
                assert(start.records.take(i as int + 1).drop_last() =~= start.records.take(i as int));
                assert(start.records.take(i as int + 1).last() == start.records[i as int]);
                assert(before.records[i as int] == start.records[i as int]);
            }
            let resource = &self.resource;
            let row = self.current.value_mut(i);
            let dirty = row.update_count.to_u64() != row.collected_count.to_u64();
            if dirty {
                let (checkpointed, refused) = checkpoint(
                    &row.descriptor,
                    &mut row.recorder,
                    &row.labels,
                    resource,
                    integrator,
                );
                match refused {
                    Some(err) => {
                        errors.push(err);
                    },
                    None => {},
                }
                count = count + checkpointed;
                proof {
                    if checkpointed == 1 {
                        let sent = submissions_of(start.records.take(i as int + 1), start.resource);
                        assert(sent.drop_last() =~= earlier);
                    }
                }
                row.collected_count = row.update_count;
                stale.push(false);
            } else {
                stale.push(row.handles == 0);
            }
            proof {
                assert(self@.records =~= before.records.update(
                    i as int,
                    start.records[i as int].collected(),
                ));
                assert(self@.instruments =~= start.instruments);
            }
            i += 1;
        }
        proof {
            assert(start.records.take(n as int) =~= start.records);
        }
        let ghost mid = self@;
        let mut i: usize = n;
        proof {
            assert(row_map(self@.keys, self@.records) =~= Map::new(
                |k: MapKey|
                    mid.keys.contains(k) && (mid.keys.index_of(k) < i || !stale@[mid.keys.index_of(k)]),
                |k: MapKey| mid.records[mid.keys.index_of(k)],
            )) by {
                assert forall|k: MapKey| mid.keys.contains(k) implies mid.keys.index_of(k) < n by {
                    let j = mid.keys.index_of(k);
                    assert(mid.keys[j] == k);
                }
            }
        }
        while i > 0
            invariant
                i <= n,
                n == mid.keys.len(),
                mid.wf(),
                stale@.len() == n,
                self.current.wf(),
                self@.wf(),
                self@.keys.len() >= i,
                self@.epoch == start.epoch,
                self@.selection == start.selection,
                self@.resource == start.resource,
                self.async_instruments == old(self).async_instruments,
                self@.instruments == start.instruments,
                old(self).wf(),
                forall|m: int| 0 <= m < i ==> #[trigger] self@.keys[m] == mid.keys[m],
                forall|m: int| 0 <= m < i ==> #[trigger] self@.records[m] == mid.records[m],
                row_map(self@.keys, self@.records) == Map::new(
                    |k: MapKey|
                        mid.keys.contains(k) && (mid.keys.index_of(k) < i || !stale@[mid.keys.index_of(
                            k,
                        )]),
                    |k: MapKey| mid.records[mid.keys.index_of(k)],
                ),
            decreases i,
        {
            let ghost before = self@;
            i -= 1;
            if stale[i] {
                let _ = self.current.swap_remove(i);
                proof {
                    assert(self@.records =~= without(before.records, i as int));
                    row_map_without(before.keys, before.records, i as int);
                    place_in_row(mid.keys, i as int);
                }
            }
            proof {
                assert(self@.instruments =~= start.instruments);
                assert forall|m: int| 0 <= m < i implies #[trigger] self@.keys[m] == mid.keys[m] by {
                    assert(before.keys[m] == mid.keys[m]);
                    assert(self@.keys[m] == before.keys[m]);
                }
                assert forall|m: int| 0 <= m < i implies #[trigger] self@.records[m] == mid.records[m] by {
                    assert(before.records[m] == mid.records[m]);
                    assert(self@.records[m] == before.records[m]);
                }
                assert(row_map(self@.keys, self@.records) =~= Map::new(
                    |k: MapKey|
                        mid.keys.contains(k) && (mid.keys.index_of(k) < i || !stale@[mid.keys.index_of(
                            k,
                        )]),
                    |k: MapKey| mid.records[mid.keys.index_of(k)],
                )) by {
                    place_in_row(mid.keys, i as int);
                    assert forall|k: MapKey| mid.keys.contains(k) && mid.keys.index_of(k) == i implies k
                        == mid.keys[i as int] by {
                        let j = mid.keys.index_of(k);
                        assert(mid.keys[j] == k);
                    }
                }
            }
        }
        proof {
            assert(self@.record_map() =~= start.swept()) by {
                assert forall|k: MapKey| start.keys.contains(k) implies 0 <= start.keys.index_of(k) < n by {
                    let j = start.keys.index_of(k);
                    assert(start.keys[j] == k);
                }
            }
        }
        (count, errors)
    }
}

impl<S: AggregationSelector> Accumulator<S> {
    /// Records a batch of measurements under one label set, each on its
    /// own instrument. Returned are the faults of the measurements that
    /// were refused; a refused measurement does not keep the others from
    /// being recorded.
    pub fn record_batch_with_context(&mut self, cx: &Context, labels: &[KeyValue], measurements: Vec<Measurement>) -> (r:
        Vec<MetricsError>)
        requires
            old(self).wf(),
        ensures
            final(self).wf(),
            final(self)@ == old(self)@.after_batch(cx.timestamp, pairs_of(labels@), measurements@),
            r@ == old(self)@.batch_faults(cx.timestamp, pairs_of(labels@), measurements@),
    {
        let mut errors: Vec<MetricsError> = Vec::new();
        let mut n: usize = 0;
        let ghost start = self@;
        proof {
            assert(measurements@.take(0) =~= Seq::<Measurement>::empty());
        }
        while n < measurements.len()
            invariant
                n <= measurements@.len(),
                self.wf(),
                self@ == start.after_batch(cx.timestamp, pairs_of(labels@), measurements@.take(n as int)),
                errors@ == start.batch_faults(cx.timestamp, pairs_of(labels@), measurements@.take(n as int)),
            decreases measurements@.len() - n,
        {
            let measure = &measurements[n];
            proof {
                assert(measurements@.take(n as int + 1).drop_last() =~= measurements@.take(n as int));
                assert(measurements@.take(n as int + 1).last() == *measure);
            }
            match measure.instrument.record_one_with_context(self, cx, measure.number, labels) {
                Err(fault) => {
                    errors.push(fault);
                },
                Ok(()) => {},
            }
            n += 1;
        }
        proof {
            assert(measurements@.take(n as int) =~= measurements@);
        }
        errors
    }

    /// Makes an asynchronous instrument, and returns its number.
    pub fn new_async_instrument(&mut self, descriptor: Descriptor) -> (r: Result<usize, MetricsError>)
        requires
            old(self).wf(),
        ensures
            final(self).wf(),
            r.is_ok(),
            r.unwrap() == old(self)@.instruments.len(),
            final(self)@ == (AccumulatorView {
                instruments: old(self)@.instruments.push(
                    AsyncView { descriptor, keys: Seq::empty(), recorders: Seq::empty() },
                ),
                ..old(self)@
            }),
    {
        let id = self.async_instruments.len();
        let instrument = AsyncInstrument::new(descriptor);
        proof {
            instrument.view_is_in_order();
        }
        self.async_instruments.push(instrument);
        proof {
            assert(self@.instruments =~= old(self)@.instruments.push(
                AsyncView { descriptor, keys: Seq::empty(), recorders: Seq::empty() },
            ));
        }
        Ok(id)
    }

    /// Takes the observations that were made under one label set. Each
    /// goes to the recorder that its instrument keeps of the label set.
    /// Returned are the faults of the observations that were refused.
    pub fn collect_async(&mut self, cx: &Context, labels: &[KeyValue], observations: &[Observation]) -> (r:
        Vec<MetricsError>)
        requires
            old(self).wf(),
        ensures
            final(self).wf(),
            final(self)@ == old(self)@.after_observations(
                cx.timestamp,
                sorted_labels(pairs_of(labels@)),
                observations@,
            ),
            r@ == old(self)@.faults(observations@),
    {
        let labels = LabelSet::from(labels);
        let epoch = self.current_epoch.to_u64();
        let mut errors: Vec<MetricsError> = Vec::new();
        let mut n: usize = 0;
        let ghost start = self@;
        proof {
            assert(observations@.take(0) =~= Seq::<Observation>::empty());
        }
        while n < observations.len()
            invariant
                n <= observations@.len(),
                self.wf(),
                epoch == start.epoch,
                self@ == start.after_observations(cx.timestamp, labels@, observations@.take(n as int)),
                errors@ == start.faults(observations@.take(n as int)),
                self@.instruments.len() == start.instruments.len(),
                forall|j: int|
                    0 <= j < start.instruments.len() ==> (#[trigger] self@.instruments[j]).descriptor
                        == start.instruments[j].descriptor,
                self@.selection == start.selection,
                self@.epoch == start.epoch,
            decreases observations@.len() - n,
        {
            let observation = &observations[n];
            let ghost before = self@;
            proof {
                assert(observations@.take(n as int + 1).drop_last() =~= observations@.take(n as int));
                assert(observations@.take(n as int + 1).last() == *observation);
            }
            if observation.instrument < self.async_instruments.len() {
                let instrument = &mut self.async_instruments[observation.instrument];
                match instrument.observe(cx, &observation.number, &labels, epoch, &*self.selector) {
                    Err(fault) => {
                        errors.push(fault);
                    },
                    Ok(()) => {},
                }
                proof {
                    instrument.view_is_in_order();
                    assert(self@.instruments =~= before.observing(
                        cx.timestamp,
                        labels@,
                        *observation,
                    ).instruments);
                }
            }
            n += 1;
        }
        proof {
            assert(observations@.take(n as int) =~= observations@);
        }
        errors
    }

    /// Collects the asynchronous instruments: of each, in the order in
    /// which they were made, every recorder whose label set was observed
    /// in this pass is checkpointed and handed to the integrator, and
    /// every recorder whose label set was observed neither in this pass
    /// nor in the one before is dropped. Returned are the number of
    /// recorders that were checkpointed, held to the range of `usize`, and
    /// the errors of the integrator.
    pub fn observe_async_instruments(&mut self, integrator: &mut SimpleIntegrator<S>) -> (r: (
        usize,
        Vec<MetricsError>,
    ))
        requires
            old(self).wf(),
            old(integrator).wf(),
        ensures
            final(self).wf(),
            final(integrator).wf(),
            final(integrator).selection() == old(integrator).selection(),
            final(integrator).stateful() == old(integrator).stateful(),
            final(integrator).batch() == old(integrator).batch().gathered(
                old(integrator).selection(),
                old(integrator).stateful(),
                async_submissions(old(self)@.instruments, old(self)@.epoch, old(self)@.resource),
            ),
            r.0 == saturated(
                async_submissions(old(self)@.instruments, old(self)@.epoch, old(self)@.resource).len(),
            ),
            r.1@.len() == old(integrator).batch().refusals(
                old(integrator).selection(),
                old(integrator).stateful(),
                async_submissions(old(self)@.instruments, old(self)@.epoch, old(self)@.resource),
            ),
            forall|i: int|
                0 <= i < r.1@.len() ==> #[trigger] r.1@[i] matches MetricsError::InconsistentMergeError(_),
            final(self)@.instruments.len() == old(self)@.instruments.len(),
            forall|i: int|
                0 <= i < old(self)@.instruments.len() ==> (#[trigger] final(self)@.instruments[i]).descriptor
                    == old(self)@.instruments[i].descriptor && final(self)@.instruments[i].recorder_map()
                    == old(self)@.instruments[i].swept(old(self)@.epoch),
            final(self)@.keys == old(self)@.keys,
            final(self)@.records == old(self)@.records,
            final(self)@.epoch == old(self)@.epoch,
            final(self)@.selection == old(self)@.selection,
            final(self)@.resource == old(self)@.resource,
    {
        let n = self.async_instruments.len();
        let epoch = self.current_epoch.to_u64();
        let mut i: usize = 0;
        let mut count: usize = 0;
        let mut errors: Vec<MetricsError> = Vec::new();
        let ghost start = self@;
        let ghost batch0 = integrator.batch();
        let ghost selection = integrator.selection();
        let ghost stateful = integrator.stateful();
        proof {
            assert(start.instruments.take(0) =~= Seq::<AsyncView>::empty());
        }
        while i < n
            invariant
                i <= n,
                n == start.instruments.len(),
                n == self.async_instruments@.len(),
                epoch == start.epoch,
                self.wf(),
                self@.keys == start.keys,
                self@.records == start.records,
                self@.epoch == start.epoch,
                self@.selection == start.selection,
                self@.resource == start.resource,
                self@.instruments.len() == n,
                forall|j: int|
                    0 <= j < i ==> (#[trigger] self@.instruments[j]).descriptor
                        == start.instruments[j].descriptor && self@.instruments[j].recorder_map()
                        == start.instruments[j].swept(epoch),
                forall|j: int| i <= j < n ==> #[trigger] self@.instruments[j] == start.instruments[j],
                integrator.wf(),
                integrator.selection() == selection,
                integrator.stateful() == stateful,
                integrator.batch() == batch0.gathered(
                    selection,
                    stateful,
                    async_submissions(start.instruments.take(i as int), epoch, start.resource),
                ),
                count == saturated(
                    async_submissions(start.instruments.take(i as int), epoch, start.resource).len(),
                ),
                errors@.len() == batch0.refusals(
                    selection,
                    stateful,
                    async_submissions(start.instruments.take(i as int), epoch, start.resource),
                ),
                forall|j: int|
                    0 <= j < errors@.len() ==> #[trigger] errors@[j] matches MetricsError::InconsistentMergeError(
                        _,
                    ),
            decreases n - i,
        {
            let ghost before = self@;
            let ghost earlier = async_submissions(start.instruments.take(i as int), epoch, start.resource);
            let ghost ours = start.instruments[i as int].submissions(epoch, start.resource);
            proof {
                assert(start.instruments.take(i as int + 1).drop_last() =~= start.instruments.take(
                    i as int,
                ));
                assert(start.instruments.take(i as int + 1).last() == start.instruments[i as int]);
                assert(before.instruments[i as int] == start.instruments[i as int]);
                gathered_in_turn(batch0, selection, stateful, earlier, ours);
            }
            let instrument = &mut self.async_instruments[i];
            let (checkpointed, mut refused) = instrument.checkpoint_async(epoch, integrator, &self.resource);
            count = count.saturating_add(checkpointed);
            let ghost held = errors@;
            errors.append(&mut refused);
            proof {
                instrument.view_is_in_order();
                assert forall|j: int| 0 <= j < self@.instruments.len() && j != i implies #[trigger] self@.instruments[j]
                    == before.instruments[j] by {}
                assert(self@.records =~= start.records);
                assert forall|j: int| 0 <= j < errors@.len() implies #[trigger] errors@[j] matches MetricsError::InconsistentMergeError(
                    _,
                ) by {
                    if j < held.len() {
                        assert(errors@[j] == held[j]);
                    }
                }
            }
            i += 1;
        }
        proof {
            assert(start.instruments.take(n as int) =~= start.instruments);
        }
        (count, errors)
    }

    /// Runs one collection pass: the asynchronous instruments are
    /// collected, then the records of the synchronous ones, and the pass
    /// number goes up by one. Returned are the number of aggregators that
    /// were checkpointed, held to the range of `usize`, and the errors of
    /// the integrator. What was observed in this pass must have been
    /// handed to `collect_async` before.
    pub fn collect(&mut self, integrator: &mut SimpleIntegrator<S>) -> (r: (usize, Vec<MetricsError>))
        requires
            old(self).wf(),
            old(integrator).wf(),
        ensures
            final(self).wf(),
            final(integrator).wf(),
            final(integrator).selection() == old(integrator).selection(),
            final(integrator).stateful() == old(integrator).stateful(),
            final(integrator).batch() == old(integrator).batch().gathered(
                old(integrator).selection(),
                old(integrator).stateful(),
                old(self)@.submissions(),
            ),
            r.0 == saturated(old(self)@.submissions().len()),
            r.1@.len() == old(integrator).batch().refusals(
                old(integrator).selection(),
                old(integrator).stateful(),
                old(self)@.submissions(),
            ),
            forall|i: int|
                0 <= i < r.1@.len() ==> #[trigger] r.1@[i] matches MetricsError::InconsistentMergeError(_),
            final(self)@.record_map() == old(self)@.swept(),
            final(self)@.instruments.len() == old(self)@.instruments.len(),
            forall|i: int|
                0 <= i < old(self)@.instruments.len() ==> (#[trigger] final(self)@.instruments[i]).descriptor
                    == old(self)@.instruments[i].descriptor && final(self)@.instruments[i].recorder_map()
                    == old(self)@.instruments[i].swept(old(self)@.epoch),
            final(self)@.epoch == number_sum(NumberKind::U64, old(self)@.epoch, 1),
            final(self)@.selection == old(self)@.selection,
            final(self)@.resource == old(self)@.resource,
    {
        let ghost start = self@;
        let ghost batch0 = integrator.batch();
        let (observed, mut errors) = self.observe_async_instruments(integrator);
        let ghost held = errors@;
        let (swept, mut more) = self.collect_sync_instruments(integrator);
        let checkpointed = observed.saturating_add(swept);
        errors.append(&mut more);
        let ghost settled = self@;
        let mut epoch = self.current_epoch;
        epoch.add(&NumberKind::U64, &Number { bits: 1 });
        self.current_epoch = epoch;
        proof {
            gathered_in_turn(
                batch0,
                integrator.selection(),
                integrator.stateful(),
                async_submissions(start.instruments, start.epoch, start.resource),
                submissions_of(start.records, start.resource),
            );
            assert(self@.records =~= settled.records);
            assert(self@.instruments =~= settled.instruments);
            assert forall|j: int| 0 <= j < errors@.len() implies #[trigger] errors@[j] matches MetricsError::InconsistentMergeError(
                _,
            ) by {
                if j < held.len() {
                    assert(errors@[j] == held[j]);
                }
            }
        }
        (checkpointed, errors)
    }
}

/// What an accumulator is made of, to be settled step by step.
pub struct AccumulatorBuilder<S: AggregationSelector> {
    selector: Arc<S>,
    push: bool,
    resource: Option<Resource>,
}

/// Starts an accumulator that chooses its aggregators as `integrator`
/// does.
pub fn accumulator<S: AggregationSelector>(integrator: &SimpleIntegrator<S>) -> (r: AccumulatorBuilder<S>)
    ensures
        r.selection() == integrator.selection(),
        !r.is_push(),
        r.resource().is_none(),
{
    AccumulatorBuilder { selector: integrator.shared_selector(), push: false, resource: None }
}

impl<S: AggregationSelector> AccumulatorBuilder<S> {
    /// What the selector gives for each descriptor.
    pub closed spec fn selection(&self) -> Selection {
        selection_of(&*self.selector)
    }

    /// Whether the accumulator is to serve a controller that pushes.
    pub closed spec fn is_push(&self) -> bool {
        self.push
    }

    /// The resource, once one was given.
    pub closed spec fn resource(&self) -> Option<Seq<Pair>> {
        match self.resource {
            Some(resource) => Some(resource@),
            None => None,
        }
    }

    /// Says whether the accumulator is to serve a controller that pushes.
    pub fn with_push(self, push: bool) -> (r: AccumulatorBuilder<S>)
        ensures
            r.is_push() == push,
            r.selection() == self.selection(),
            r.resource() == self.resource(),
    {
        AccumulatorBuilder { push, ..self }
    }

    /// Gives the resource that the exported records are to carry.
    pub fn with_resource(self, resource: Resource) -> (r: AccumulatorBuilder<S>)
        ensures
            r.resource() == Some(resource@),
            r.selection() == self.selection(),
            r.is_push() == self.is_push(),
    {
        AccumulatorBuilder { resource: Some(resource), ..self }
    }

    /// The accumulator: without records, before its first collection pass.
    /// Where no resource was given, it carries the empty one.
    pub fn build(self) -> (r: Accumulator<S>)
        ensures
            r.wf(),
            r@ == (AccumulatorView {
                keys: Seq::empty(),
                records: Seq::empty(),
                instruments: Seq::empty(),
                epoch: 0,
                selection: self.selection(),
                resource: match self.resource() {
                    Some(resource) => resource,
                    None => Seq::empty(),
                },
            }),
    {
        let resource = match self.resource {
            Some(resource) => resource,
            None => Resource::default(),
        };
        Accumulator::new(self.selector, resource)
    }
}

impl SyncInstrument {
    /// The identity of the record of this instrument under the labels. The
    /// record is made where it does not exist yet.
    pub fn acquire_handle<S: AggregationSelector>(&self, meter: &mut Accumulator<S>, labels: &[KeyValue]) -> (key: MapKey)
        requires
            old(meter).wf(),
        ensures
            final(meter).wf(),
            key == map_key(self.descriptor, pairs_of(labels@)),
            final(meter)@ == old(meter)@.acquired(self.descriptor, pairs_of(labels@)),
            final(meter)@.keys.contains(key),
    {
        let mut hasher = DefaultHasher::new();
        self.descriptor.hash(&mut hasher);
        let descriptor_hash = hasher.finish();
        let distinct = Distinct::from(labels);
        let mut hasher = DefaultHasher::new();
        distinct.hash(&mut hasher);
        let ordered_hash = hasher.finish();
        let map_key = MapKey { descriptor_hash, ordered_hash };
        proof {
            assert(Seq::<Seq<u8>>::empty() + self.descriptor.hash_writes() =~= self.descriptor.hash_writes());
            assert(Seq::<Seq<u8>>::empty() + label_writes(distinct@) =~= label_writes(distinct@));
            meter.current.row_is_in_order();
        }
        match meter.current.position(map_key) {
            Some(at) => {
                return map_key;
            },
            None => {},
        }
        let record = Record {
            update_count: Number { bits: 0 },
            collected_count: Number { bits: 0 },
            labels: LabelSet::with_equivalent(distinct),
            descriptor: self.descriptor.clone(),
            recorder: meter.selector.aggregator_for(&self.descriptor),
            handles: 0,
        };
        let ghost before = meter@;
        meter.current.push(map_key, record);
        proof {
            assert(meter@.records =~= before.acquired(self.descriptor, pairs_of(labels@)).records);
            assert(meter@.keys[meter@.keys.len() - 1] == map_key);
        }
        map_key
    }

    /// Binds the instrument to the labels. While a bound instrument
    /// refers to a record, no collection pass drops the record.
    pub fn bind<S: AggregationSelector>(&self, meter: &mut Accumulator<S>, labels: &[KeyValue]) -> (r: BoundInstrument)
        requires
            old(meter).wf(),
        ensures
            final(meter).wf(),
            r.key == map_key(self.descriptor, pairs_of(labels@)),
            ({
                let made = old(meter)@.acquired(self.descriptor, pairs_of(labels@));
                let record = made.record(r.key).unwrap();
                &&& made.record(r.key).is_some()
                &&& final(meter)@ == made.with_record(
                    r.key,
                    RecordView {
                        handles: if record.handles < usize::MAX {
                            record.handles + 1
                        } else {
                            record.handles
                        },
                        ..record
                    },
                )
            }),
    {
        let key = self.acquire_handle(meter, labels);
        let ghost made = meter@;
        proof {
            meter.current.row_is_in_order();
        }
        match meter.current.position(key) {
            Some(at) => {
                let record = meter.current.value_mut(at);
                if record.handles < usize::MAX {
                    record.handles = record.handles + 1;
                }
                proof {
                    assert(meter@.records =~= made.records.update(at as int, meter@.records[at as int]));
                }
            },
            None => {},
        }
        BoundInstrument { key }
    }

    /// Records one measurement under the labels.
    pub fn record_one_with_context<S: AggregationSelector>(
        &self,
        meter: &mut Accumulator<S>,
        cx: &Context,
        number: Number,
        labels: &[KeyValue],
    ) -> (r: Result<(), MetricsError>)
        requires
            old(meter).wf(),
        ensures
            final(meter).wf(),
            ({
                let key = map_key(self.descriptor, pairs_of(labels@));
                let made = old(meter)@.acquired(self.descriptor, pairs_of(labels@));
                let record = made.record(key).unwrap();
                &&& made.record(key).is_some()
                &&& final(meter)@ == made.with_record(key, record.recorded(cx.timestamp, number@))
                &&& match range_fault(number@, record.descriptor) {
                    Some(fault) => r == Err::<(), MetricsError>(fault),
                    None => r.is_ok(),
                }
            }),
    {
        let handle = BoundInstrument { key: self.acquire_handle(meter, labels) };
        handle.record_one_with_context(meter, cx, number)
    }
}

impl BoundInstrument {
    /// Records one measurement on the record that this instrument refers
    /// to. Where the record is gone, nothing happens.
    pub fn record_one_with_context<S: AggregationSelector>(&self, meter: &mut Accumulator<S>, cx: &Context, number: Number) -> (r:
        Result<(), MetricsError>)
        requires
            old(meter).wf(),
        ensures
            final(meter).wf(),
            match old(meter)@.record(self.key) {
                Some(record) => {
                    &&& final(meter)@ == old(meter)@.with_record(
                        self.key,
                        record.recorded(cx.timestamp, number@),
                    )
                    &&& match range_fault(number@, record.descriptor) {
                        Some(fault) => r == Err::<(), MetricsError>(fault),
                        None => r.is_ok(),
                    }
                },
                None => r.is_ok() && final(meter)@ == old(meter)@,
            },
    {
        let ghost before = meter@;
        proof {
            meter.current.row_is_in_order();
        }
        match meter.current.position(self.key) {
            Some(at) => {
                let record = meter.current.value_mut(at);
                let outcome = record.record_one_with_context(cx, number);
                proof {
                    assert(meter@.records =~= before.records.update(at as int, meter@.records[at as int]));
                    assert(meter@.instruments =~= before.instruments);
                }
                outcome
            },
            None => Ok(()),
        }
    }

    /// Gives the binding up: the record is referred to by one bound
    /// instrument less.
    pub fn unbind<S: AggregationSelector>(self, meter: &mut Accumulator<S>)
        requires
            old(meter).wf(),
        ensures
            final(meter).wf(),
            match old(meter)@.record(self.key) {
                Some(record) => final(meter)@ == old(meter)@.with_record(
                    self.key,
                    RecordView {
                        handles: if record.handles > 0 {
                            (record.handles - 1) as nat
                        } else {
                            0
                        },
                        ..record
                    },
                ),
                None => final(meter)@ == old(meter)@,
            },
    {
        let ghost before = meter@;
        proof {
            meter.current.row_is_in_order();
        }
        match meter.current.position(self.key) {
            Some(at) => {
                let record = meter.current.value_mut(at);
                if record.handles > 0 {
                    record.handles = record.handles - 1;
                }
                proof {
                    assert(meter@.records =~= before.records.update(at as int, meter@.records[at as int]));
                    assert(meter@.instruments =~= before.instruments);
                }
            },
            None => {},
        }
    }
}

} // verus!
