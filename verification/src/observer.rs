//! Asynchronous instruments: those that are observed once in each
//! collection pass. Of each label set that was observed the instrument
//! keeps a recorder. A recorder outlasts one pass in which its label set is
//! not observed, and is dropped in the second such pass in a row.
use crate::aggregator::{range_fault, range_test, Aggregator, AggregatorView};
use crate::context::Context;
use crate::descriptor::Descriptor;
use crate::error::MetricsError;
use crate::accumulator::checkpoint;
use crate::export::Resource;
use crate::integrator::{SimpleIntegrator, Submission};
use crate::labels::{label_writes, sorted, LabelSet, Pair};
use crate::number::Number;
use crate::selector::{selection_of, AggregationSelector, Selection};
use crate::table::{place_in_row, place_of, row_map, row_map_without, without, Table};
use std::collections::hash_map::DefaultHasher;
use std::hash::Hasher;
use vstd::prelude::*;
use vstd::std_specs::hash::DefaultHasherAdditionalSpecFns;

verus! {

/// What an asynchronous instrument keeps of one label set.
#[derive(Debug)]
pub struct LabeledRecorder {
    /// The collection pass in which the label set was last observed.
    pub observed_epoch: u64,
    /// The labels.
    pub labels: LabelSet,
    /// What folds the observations; none where the instrument is switched
    /// off.
    pub recorder: Option<Aggregator>,
}

/// What a labeled recorder holds.
pub struct RecorderView {
    /// The collection pass in which the label set was last observed.
    pub observed_epoch: u64,
    /// The labels.
    pub labels: Seq<Pair>,
    /// What folds the observations.
    pub recorder: Option<AggregatorView>,
}

impl View for LabeledRecorder {
    type V = RecorderView;

    open spec fn view(&self) -> RecorderView {
        RecorderView {
            observed_epoch: self.observed_epoch,
            labels: self.labels@,
            recorder: match self.recorder {
                Some(aggregator) => Some(aggregator@),
                None => None,
            },
        }
    }
}

impl RecorderView {
    /// Whether the recorder is in order: its aggregator is.
    pub open spec fn wf(self) -> bool {
        self.recorder.is_some() ==> self.recorder.unwrap().wf()
    }

    /// Whether the collection pass `epoch` keeps the recorder: its label
    /// set was observed in that pass or in the one before. A recorder is
    /// dropped in the second pass in a row that does not observe its label
    /// set, not in the first.
    pub open spec fn retained(self, epoch: u64) -> bool {
        epoch - self.observed_epoch <= 1
    }

    /// The recorder after the collection pass `epoch`, if the pass keeps
    /// it: where the label set was observed in that pass, the aggregator
    /// is checkpointed.
    pub open spec fn collected(self, kind: crate::number::NumberKind, epoch: u64) -> RecorderView {
        if self.observed_epoch == epoch {
            RecorderView {
                recorder: match self.recorder {
                    Some(aggregator) => Some(aggregator.checkpointed(kind)),
                    None => None,
                },
                ..self
            }
        } else {
            self
        }
    }
}

/// The key of a labeled recorder: the digest of its label set.
pub open spec fn label_key(labels: Seq<Pair>) -> u64 {
    DefaultHasher::spec_finish(label_writes(labels))
}

/// What an asynchronous instrument holds.
pub struct AsyncView {
    /// What describes the instrument.
    pub descriptor: Descriptor,
    /// The keys of the recorders, none twice.
    pub keys: Seq<u64>,
    /// The recorders, each at the place of its key.
    pub recorders: Seq<RecorderView>,
}

impl AsyncView {
    /// Whether the instrument is in order: every key has its recorder, no
    /// key stands twice, and every recorder is in order.
    pub open spec fn wf(self) -> bool {
        &&& self.keys.len() == self.recorders.len()
        &&& self.keys.no_duplicates()
        &&& forall|i: int| 0 <= i < self.recorders.len() ==> (#[trigger] self.recorders[i]).wf()
    }

    /// The recorders under their keys.
    pub open spec fn recorder_map(self) -> Map<u64, RecorderView> {
        row_map(self.keys, self.recorders)
    }

    /// The place of the recorder that an observation of the labels goes to.
    pub open spec fn place(self, labels: Seq<Pair>) -> int {
        match place_of(self.keys, label_key(labels)) {
            Some(at) => at,
            None => self.keys.len() as int,
        }
    }

    /// The instrument after the recorder of a label set was asked for in
    /// the collection pass `epoch`. A label set that is new gets a fresh
    /// recorder. One that was last observed in an earlier pass keeps its
    /// recorder, which is marked with this pass. One that was observed in
    /// this pass already gets a fresh aggregator in place of the one it
    /// had: of several observations in one pass, the last one counts.
    pub open spec fn with_recorder(self, selection: Selection, labels: Seq<Pair>, epoch: u64) -> AsyncView {
        match place_of(self.keys, label_key(labels)) {
            Some(at) => {
                let held = self.recorders[at];
                AsyncView {
                    recorders: self.recorders.update(
                        at,
                        if held.observed_epoch == epoch {
                            RecorderView { recorder: selection(self.descriptor), ..held }
                        } else {
                            RecorderView { observed_epoch: epoch, ..held }
                        },
                    ),
                    ..self
                }
            },
            None => AsyncView {
                keys: self.keys.push(label_key(labels)),
                recorders: self.recorders.push(
                    RecorderView {
                        observed_epoch: epoch,
                        labels,
                        recorder: selection(self.descriptor),
                    },
                ),
                ..self
            },
        }
    }

    /// The instrument after an observation made at `timestamp` in the
    /// collection pass `epoch`. An observation that the range check
    /// refuses leaves the instrument as it is.
    pub open spec fn observed(
        self,
        selection: Selection,
        timestamp: u64,
        number: u64,
        labels: Seq<Pair>,
        epoch: u64,
    ) -> AsyncView {
        if range_fault(number, self.descriptor).is_some() {
            self
        } else {
            let found = self.with_recorder(selection, labels, epoch);
            let at = self.place(labels);
            let held = found.recorders[at];
            match held.recorder {
                Some(aggregator) => AsyncView {
                    recorders: found.recorders.update(
                        at,
                        RecorderView {
                            recorder: Some(
                                aggregator.updated(timestamp, self.descriptor.number_kind, number),
                            ),
                            ..held
                        },
                    ),
                    ..found
                },
                None => found,
            }
        }
    }

    /// What the collection pass `epoch` hands to the integrator of this
    /// instrument: of each label set that was observed in the pass, the
    /// checkpointed aggregator, in the order of the row.
    pub open spec fn submissions(self, epoch: u64, resource: Seq<Pair>) -> Seq<Submission> {
        recorder_submissions(self.descriptor, self.recorders, epoch, resource)
    }

    /// The recorders after the collection pass `epoch`, under their keys:
    /// the pass drops those whose label set neither it nor the pass before
    /// observed, and collects the others.
    pub open spec fn swept(self, epoch: u64) -> Map<u64, RecorderView> {
        Map::new(
            |k: u64| self.keys.contains(k) && self.recorders[self.keys.index_of(k)].retained(epoch),
            |k: u64|
                self.recorders[self.keys.index_of(k)].collected(self.descriptor.number_kind, epoch),
        )
    }
}

/// What a collection pass hands to the integrator of a row of recorders.
pub open spec fn recorder_submissions(
    descriptor: Descriptor,
    recorders: Seq<RecorderView>,
    epoch: u64,
    resource: Seq<Pair>,
) -> Seq<Submission>
    decreases recorders.len(),
{
    if recorders.len() == 0 {
        Seq::empty()
    } else {
        let earlier = recorder_submissions(descriptor, recorders.drop_last(), epoch, resource);
        let last = recorders.last();
        if last.observed_epoch == epoch && last.recorder.is_some() {
            earlier.push(
                Submission {
                    descriptor,
                    labels: last.labels,
                    resource,
                    aggregator: last.recorder.unwrap().checkpointed(descriptor.number_kind),
                },
            )
        } else {
            earlier
        }
    }
}

/// What the rows of a table of recorders hold.
pub open spec fn recorders_of(values: Seq<LabeledRecorder>) -> Seq<RecorderView> {
    Seq::new(values.len(), |i: int| values[i]@)
}

/// An asynchronous instrument.
pub struct AsyncInstrument {
    descriptor: Descriptor,
    recorders: Table<LabeledRecorder>,
}

impl View for AsyncInstrument {
    type V = AsyncView;

    closed spec fn view(&self) -> AsyncView {
        AsyncView {
            descriptor: self.descriptor,
            keys: self.recorders.keys(),
            recorders: recorders_of(self.recorders.values()),
        }
    }
}

impl AsyncInstrument {
    /// Whether the instrument is in order.
    pub closed spec fn wf(&self) -> bool {
        &&& self.recorders.wf()
        &&& self@.wf()
    }

    /// The view of an instrument that is in order is in order.
    pub proof fn view_is_in_order(&self)
        requires
            self.wf(),
        ensures
            self@.wf(),
    {
    }

    /// An instrument without recorders.
    pub fn new(descriptor: Descriptor) -> (r: AsyncInstrument)
        ensures
            r.wf(),
            r@ == (AsyncView { descriptor, keys: Seq::empty(), recorders: Seq::empty() }),
    {
        let r = AsyncInstrument { descriptor, recorders: Table::new() };
        assert(r@.recorders =~= Seq::<RecorderView>::empty());
        r
    }

    /// What describes the instrument.
    pub fn descriptor(&self) -> (r: &Descriptor)
        ensures
            *r == self@.descriptor,
    {
        &self.descriptor
    }

    /// How many label sets the instrument keeps a recorder of.
    pub fn len(&self) -> (r: usize)
        requires
            self.wf(),
        ensures
            r == self@.recorders.len(),
    {
        self.recorders.len()
    }

    /// The recorder at a place.
    pub fn recorder_at(&self, at: usize) -> (r: &LabeledRecorder)
        requires
            self.wf(),
            at < self@.recorders.len(),
        ensures
            r@ == self@.recorders[at as int],
    {
        self.recorders.value(at)
    }

    /// The place of the recorder of a label set in the collection pass
    /// `current_epoch`. The recorder is made where the label set is new;
    /// it is marked with the pass where the label set was last observed in
    /// an earlier one; and it gets a fresh aggregator where the label set
    /// was observed in this pass already.
    pub fn get_recorder<S: AggregationSelector>(&mut self, labels: &LabelSet, current_epoch: u64, selector: &S) -> (at:
        usize)
        requires
            old(self).wf(),
        ensures
            final(self).wf(),
            final(self)@ == old(self)@.with_recorder(selection_of(selector), labels@, current_epoch),
            at == old(self)@.place(labels@),
            at < final(self)@.recorders.len(),
    {
        let mut hasher = DefaultHasher::new();
        labels.equivalent().hash(&mut hasher);
        let label_hash = hasher.finish();
        let ghost before = self@;
        let ghost after = before.with_recorder(selection_of(selector), labels@, current_epoch);
        proof {
            assert(hasher@ =~= label_writes(labels@));
            self.recorders.row_is_in_order();
        }
        match self.recorders.position(label_hash) {
            Some(at) => {
                let fresh = selector.aggregator_for(&self.descriptor);
                let held = self.recorders.value_mut(at);
                if held.observed_epoch == current_epoch {
                    held.recorder = fresh;
                } else {
                    held.observed_epoch = current_epoch;
                }
                proof {
                    assert(self@.recorders =~= after.recorders);
                }
                return at;
            },
            None => {},
        }
        let recorder = selector.aggregator_for(&self.descriptor);
        let at = self.recorders.len();
        self.recorders.push(
            label_hash,
            LabeledRecorder {
                recorder,
                labels: LabelSet::with_equivalent(labels.equivalent().clone()),
                observed_epoch: current_epoch,
            },
        );
        proof {
            assert(self@.recorders =~= after.recorders);
        }
        at
    }

    /// Takes one observation, made in the collection pass `current_epoch`.
    /// An observation that the range check refuses changes nothing, and
    /// the fault is returned.
    pub fn observe<S: AggregationSelector>(
        &mut self,
        cx: &Context,
        number: &Number,
        labels: &LabelSet,
        current_epoch: u64,
        selector: &S,
    ) -> (r: Result<(), MetricsError>)
        requires
            old(self).wf(),
        ensures
            final(self).wf(),
            final(self)@ == old(self)@.observed(
                selection_of(selector),
                cx.timestamp,
                number@,
                labels@,
                current_epoch,
            ),
            match range_fault(number@, old(self)@.descriptor) {
                Some(fault) => r == Err::<(), MetricsError>(fault),
                None => r.is_ok(),
            },
    {
        match range_test(number, &self.descriptor) {
            Err(fault) => {
                return Err(fault);
            },
            Ok(()) => {},
        }
        let at = self.get_recorder(labels, current_epoch, selector);
        let ghost found = self@;
        let held = self.recorders.value_mut(at);
        match &mut held.recorder {
            Some(recorder) => {
                let _ = recorder.update_with_context(cx, number, &self.descriptor);
            },
            None => {},
        }
        proof {
            let want = old(self)@.observed(
                selection_of(selector),
                cx.timestamp,
                number@,
                labels@,
                current_epoch,
            );
            assert(self@.descriptor == found.descriptor);
            assert(self@.keys == found.keys);
            assert(self@.recorders =~= found.recorders.update(at as int, self@.recorders[at as int]));
            assert(self@.recorders[at as int].observed_epoch == found.recorders[at as int].observed_epoch);
            assert(self@.recorders[at as int].labels == found.recorders[at as int].labels);
            assert(self@.recorders =~= want.recorders);
        }
        Ok(())
    }

    /// Collects the recorders in the collection pass `epoch`. Every
    /// recorder whose label set was observed in the pass is checkpointed
    /// and handed to the integrator, in the order of the row. Every
    /// recorder whose label set was observed neither in this pass nor in
    /// the one before is dropped. Returned are the number of recorders that
    /// were checkpointed, and the errors of the integrator.
    pub fn checkpoint_async<S: AggregationSelector>(&mut self, epoch: u64, integrator: &mut SimpleIntegrator<S>, resource: &Resource) -> (r:
        (usize, Vec<MetricsError>))
        requires
            old(self).wf(),
            old(integrator).wf(),
        ensures
            final(self).wf(),
            final(integrator).wf(),
            final(integrator).selection() == old(integrator).selection(),
            final(integrator).stateful() == old(integrator).stateful(),
            final(integrator).batch() == old(integrator).batch().gathered(
                old(integrator).selection(),
                old(integrator).stateful(),
                old(self)@.submissions(epoch, resource@),
            ),
            r.0 == old(self)@.submissions(epoch, resource@).len(),
            r.1@.len() == old(integrator).batch().refusals(
                old(integrator).selection(),
                old(integrator).stateful(),
                old(self)@.submissions(epoch, resource@),
            ),
            forall|i: int|
                0 <= i < r.1@.len() ==> #[trigger] r.1@[i] matches MetricsError::InconsistentMergeError(_),
            final(self)@.descriptor == old(self)@.descriptor,
            final(self)@.recorder_map() == old(self)@.swept(epoch),
    {
        let n = self.recorders.len();
        let mut i: usize = 0;
        let mut count: usize = 0;
        let mut errors: Vec<MetricsError> = Vec::new();
        let ghost start = self@;
        let ghost batch0 = integrator.batch();
        let ghost selection = integrator.selection();
        let ghost stateful = integrator.stateful();
        let ghost kind = start.descriptor.number_kind;
        proof {
            assert(start.recorders.take(0) =~= Seq::<RecorderView>::empty());
        }
        while i < n
            invariant
                i <= n,
                n == start.recorders.len(),
                start.wf(),
                self.recorders.wf(),
                self@.wf(),
                self@.keys == start.keys,
                self@.descriptor == start.descriptor,
                kind == start.descriptor.number_kind,
                self@.recorders.len() == n,
                forall|j: int|
                    0 <= j < i ==> #[trigger] self@.recorders[j] == start.recorders[j].collected(kind, epoch),
                forall|j: int| i <= j < n ==> #[trigger] self@.recorders[j] == start.recorders[j],
                integrator.wf(),
                integrator.selection() == selection,
                integrator.stateful() == stateful,
                integrator.batch() == batch0.gathered(
                    selection,
                    stateful,
                    recorder_submissions(
                        start.descriptor,
                        start.recorders.take(i as int),
                        epoch,
                        resource@,
                    ),
                ),
                count == recorder_submissions(
                    start.descriptor,
                    start.recorders.take(i as int),
                    epoch,
                    resource@,
                ).len(),
                count <= i,
                errors@.len() == batch0.refusals(
                    selection,
                    stateful,
                    recorder_submissions(
                        start.descriptor,
                        start.recorders.take(i as int),
                        epoch,
                        resource@,
                    ),
                ),
                forall|j: int|
                    0 <= j < errors@.len() ==> #[trigger] errors@[j] matches MetricsError::InconsistentMergeError(
                        _,
                    ),
            decreases n - i,
        {
            let ghost before = self@;
            let ghost earlier = recorder_submissions(
                start.descriptor,
                start.recorders.take(i as int),
                epoch,
                resource@,
            );
            proof {
                assert(start.recorders.take(i as int + 1).drop_last() =~= start.recorders.take(i as int));
                assert(start.recorders.take(i as int + 1).last() == start.recorders[i as int]);
                assert(before.recorders[i as int] == start.recorders[i as int]);
            }
            let descriptor = &self.descriptor;
            let row = self.recorders.value_mut(i);
            if row.observed_epoch == epoch {
                let (checkpointed, refused) = checkpoint(
                    descriptor,
                    &mut row.recorder,
                    &row.labels,
                    resource,
                    integrator,
                );
                match refused {
                    Some(err) => {
                        errors.push(err);
                    },
                    None => {},
                }
                count = count + checkpointed;
                proof {
                    if checkpointed == 1 {
                        let sent = recorder_submissions(
                            start.descriptor,
                            start.recorders.take(i as int + 1),
                            epoch,
                            resource@,
                        );
                        assert(sent.drop_last() =~= earlier);
                    }
                }
            }
            proof {
                assert(self@.recorders =~= before.recorders.update(
                    i as int,
                    start.recorders[i as int].collected(kind, epoch),
                ));
            }
            i += 1;
        }
        proof {
            assert(start.recorders.take(n as int) =~= start.recorders);
        }
        let ghost mid = self@;
        let mut i: usize = n;
        proof {
            assert(row_map(self@.keys, self@.recorders) =~= Map::new(
                |k: u64|
                    mid.keys.contains(k) && (mid.keys.index_of(k) < i || mid.recorders[mid.keys.index_of(
                        k,
                    )].retained(epoch)),
                |k: u64| mid.recorders[mid.keys.index_of(k)],
            )) by {
                assert forall|k: u64| mid.keys.contains(k) implies mid.keys.index_of(k) < n by {
                    let j = mid.keys.index_of(k);
                    assert(mid.keys[j] == k);
                }
            }
        }
        while i > 0
            invariant
                i <= n,
                n == mid.keys.len(),
                mid.wf(),
                self.recorders.wf(),
                self@.wf(),
                self@.keys.len() >= i,
                self@.descriptor == start.descriptor,
                forall|m: int| 0 <= m < i ==> #[trigger] self@.keys[m] == mid.keys[m],
                forall|m: int| 0 <= m < i ==> #[trigger] self@.recorders[m] == mid.recorders[m],
                row_map(self@.keys, self@.recorders) == Map::new(
                    |k: u64|
                        mid.keys.contains(k) && (mid.keys.index_of(k) < i
                            || mid.recorders[mid.keys.index_of(k)].retained(epoch)),
                    |k: u64| mid.recorders[mid.keys.index_of(k)],
                ),
            decreases i,
        {
            let ghost before = self@;
            i -= 1;
            let seen = self.recorders.value(i).observed_epoch;
            if seen < epoch && epoch - seen > 1 {
                let _ = self.recorders.swap_remove(i);
                proof {
                    assert(self@.recorders =~= without(before.recorders, i as int));
                    row_map_without(before.keys, before.recorders, i as int);
                }
            }
            proof {
                assert forall|m: int| 0 <= m < i implies #[trigger] self@.keys[m] == mid.keys[m] by {
                    assert(before.keys[m] == mid.keys[m]);
                    assert(self@.keys[m] == before.keys[m]);
                }
                assert forall|m: int| 0 <= m < i implies #[trigger] self@.recorders[m]
                    == mid.recorders[m] by {
                    assert(before.recorders[m] == mid.recorders[m]);
                    assert(self@.recorders[m] == before.recorders[m]);
                }
                assert(row_map(self@.keys, self@.recorders) =~= Map::new(
                    |k: u64|
                        mid.keys.contains(k) && (mid.keys.index_of(k) < i
                            || mid.recorders[mid.keys.index_of(k)].retained(epoch)),
                    |k: u64| mid.recorders[mid.keys.index_of(k)],
                )) by {
                    place_in_row(mid.keys, i as int);
                    assert(before.keys[i as int] == mid.keys[i as int]);
                    assert(before.recorders[i as int] == mid.recorders[i as int]);
                    assert forall|k: u64| mid.keys.contains(k) && mid.keys.index_of(k) == i implies k
                        == mid.keys[i as int] by {
                        let j = mid.keys.index_of(k);
                        assert(mid.keys[j] == k);
                    }
                }
            }
        }
        proof {
            assert(self@.recorder_map() =~= start.swept(epoch)) by {
                assert forall|k: u64| start.keys.contains(k) implies 0 <= start.keys.index_of(k) < n by {
                    let j = start.keys.index_of(k);
                    assert(start.keys[j] == k);
                }
            }
        }
        (count, errors)
    }
}

} // verus!
