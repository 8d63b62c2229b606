//! The instruments through which values that are not added up are
//! reported: the recorder, for values as they occur, and the observer, for
//! values that are read once in each collection pass.
use crate::accumulator::{
    map_key, Accumulator, AccumulatorView, BoundInstrument, Measurement, Observation, RecordView,
    SyncInstrument,
};
use crate::aggregator::range_fault;
use crate::context::Context;
use crate::descriptor::{Config, Descriptor, InstrumentKind};
use crate::error::MetricsError;
use crate::identity::MapKey;
use crate::labels::{pairs_of, KeyValue};
use crate::number::{Number, NumberKind};
use crate::selector::AggregationSelector;
use crate::observer::AsyncView;
use vstd::prelude::*;

verus! {

/// Records single values as they occur.
#[derive(Debug)]
pub struct ValueRecorder {
    instrument: SyncInstrument,
}

/// A value recorder bound to a label set.
#[derive(Debug)]
pub struct BoundValueRecorder {
    instrument: BoundInstrument,
}

/// What a value recorder is made of, to be settled step by step.
#[derive(Debug)]
pub struct ValueRecorderBuilder {
    descriptor: Descriptor,
}

impl ValueRecorderBuilder {
    /// What describes the recorder that `init` makes.
    pub closed spec fn descriptor(&self) -> Descriptor {
        self.descriptor
    }

    /// A builder for a recorder of the given name, made by the meter of
    /// the given library.
    pub fn new(name: String, library_name: String, number_kind: NumberKind) -> (r: ValueRecorderBuilder)
        ensures
            r.descriptor() == (Descriptor {
                name,
                instrument_kind: InstrumentKind::ValueRecorder,
                number_kind,
                config: Config { description: None, unit: None, library_name },
            }),
    {
        ValueRecorderBuilder {
            descriptor: Descriptor::new(name, library_name, InstrumentKind::ValueRecorder, number_kind),
        }
    }

    /// Says what the recorder measures.
    pub fn with_description(self, description: String) -> (r: ValueRecorderBuilder)
        ensures
            r.descriptor() == (Descriptor {
                config: Config { description: Some(description), ..self.descriptor().config },
                ..self.descriptor()
            }),
    {
        let mut descriptor = self.descriptor;
        descriptor.set_description(description);
        ValueRecorderBuilder { descriptor }
    }

    /// The recorder.
    pub fn init<S: AggregationSelector>(self, meter: &Accumulator<S>) -> (r: ValueRecorder)
        ensures
            r.descriptor() == self.descriptor(),
    {
        ValueRecorder { instrument: meter.new_sync_instrument(self.descriptor).unwrap() }
    }
}

impl ValueRecorder {
    /// What describes the recorder.
    pub closed spec fn descriptor(&self) -> Descriptor {
        self.instrument.descriptor
    }

    /// Binds the recorder to the labels. While the bound recorder is
    /// kept, no collection pass drops its record.
    pub fn bind<S: AggregationSelector>(&self, meter: &mut Accumulator<S>, labels: &[KeyValue]) -> (r: BoundValueRecorder)
        requires
            old(meter).wf(),
        ensures
            final(meter).wf(),
            r.key() == map_key(self.descriptor(), pairs_of(labels@)),
            ({
                let made = old(meter)@.acquired(self.descriptor(), pairs_of(labels@));
                let record = made.record(r.key()).unwrap();
                &&& made.record(r.key()).is_some()
                &&& final(meter)@ == made.with_record(
                    r.key(),
                    RecordView {
                        handles: if record.handles < usize::MAX {
                            record.handles + 1
                        } else {
                            record.handles
                        },
                        ..record
                    },
                )
            }),
    {
        BoundValueRecorder { instrument: self.instrument.bind(meter, labels) }
    }

    /// A value to be recorded as part of a batch.
    pub fn measurement(&self, value: Number) -> (r: Measurement)
        ensures
            r.number == value,
            r.instrument.descriptor == self.descriptor(),
    {
        Measurement { number: value, instrument: SyncInstrument { descriptor: self.instrument.descriptor.clone() } }
    }

    /// Records a value under the labels.
    pub fn record<S: AggregationSelector>(&self, meter: &mut Accumulator<S>, cx: &Context, value: Number, labels: &[KeyValue]) -> (r:
        Result<(), MetricsError>)
        requires
            old(meter).wf(),
        ensures
            final(meter).wf(),
            final(meter)@ == old(meter)@.recording(
                cx.timestamp,
                self.descriptor(),
                pairs_of(labels@),
                value@,
            ),
            match old(meter)@.recording_fault(self.descriptor(), pairs_of(labels@), value@) {
                Some(fault) => r == Err::<(), MetricsError>(fault),
                None => r.is_ok(),
            },
    {
        self.instrument.record_one_with_context(meter, cx, value, labels)
    }
}

impl BoundValueRecorder {
    /// The identity of the record that the bound recorder refers to.
    pub closed spec fn key(&self) -> MapKey {
        self.instrument.key
    }

    /// Records a value made at `timestamp`, in nanoseconds since the Unix
    /// epoch.
    pub fn record<S: AggregationSelector>(&self, meter: &mut Accumulator<S>, timestamp: u64, value: Number) -> (r: Result<
        (),
        MetricsError,
    >)
        requires
            old(meter).wf(),
        ensures
            final(meter).wf(),
            match old(meter)@.record(self.key()) {
                Some(record) => {
                    &&& final(meter)@ == old(meter)@.with_record(
                        self.key(),
                        record.recorded(timestamp, value@),
                    )
                    &&& match range_fault(value@, record.descriptor) {
                        Some(fault) => r == Err::<(), MetricsError>(fault),
                        None => r.is_ok(),
                    }
                },
                None => r.is_ok() && final(meter)@ == old(meter)@,
            },
    {
        self.record_with_context(meter, &Context::at(timestamp), value)
    }

    /// Records a value in the circumstances `cx`. A value that the range
    /// check refuses changes nothing, and the fault is returned. Where the
    /// record is gone, nothing happens.
    pub fn record_with_context<S: AggregationSelector>(&self, meter: &mut Accumulator<S>, cx: &Context, value: Number) -> (r: Result<
        (),
        MetricsError,
    >)
        requires
            old(meter).wf(),
        ensures
            final(meter).wf(),
            match old(meter)@.record(self.key()) {
                Some(record) => {
                    &&& final(meter)@ == old(meter)@.with_record(
                        self.key(),
                        record.recorded(cx.timestamp, value@),
                    )
                    &&& match range_fault(value@, record.descriptor) {
                        Some(fault) => r == Err::<(), MetricsError>(fault),
                        None => r.is_ok(),
                    }
                },
                None => r.is_ok() && final(meter)@ == old(meter)@,
            },
    {
        self.instrument.record_one_with_context(meter, cx, value)
    }

    /// Gives the binding up.
    pub fn unbind<S: AggregationSelector>(self, meter: &mut Accumulator<S>)
        requires
            old(meter).wf(),
        ensures
            final(meter).wf(),
            match old(meter)@.record(self.key()) {
                Some(record) => final(meter)@ == old(meter)@.with_record(
                    self.key(),
                    RecordView {
                        handles: if record.handles > 0 {
                            (record.handles - 1) as nat
                        } else {
                            0
                        },
                        ..record
                    },
                ),
                None => final(meter)@ == old(meter)@,
            },
    {
        self.instrument.unbind(meter)
    }
}

/// Observes single values, once in each collection pass.
#[derive(Clone, Copy, Debug, PartialEq, Eq, Structural)]
pub struct ValueObserver {
    /// The number of the instrument in its accumulator.
    pub instrument: usize,
}

/// What a value observer is made of, to be settled step by step.
#[derive(Debug)]
pub struct ValueObserverBuilder {
    descriptor: Descriptor,
}

impl ValueObserverBuilder {
    /// What describes the observer that `init` makes.
    pub closed spec fn descriptor(&self) -> Descriptor {
        self.descriptor
    }

    /// A builder for an observer of the given name, made by the meter of
    /// the given library.
    pub fn new(name: String, library_name: String, number_kind: NumberKind) -> (r: ValueObserverBuilder)
        ensures
            r.descriptor() == (Descriptor {
                name,
                instrument_kind: InstrumentKind::ValueObserver,
                number_kind,
                config: Config { description: None, unit: None, library_name },
            }),
    {
        ValueObserverBuilder {
            descriptor: Descriptor::new(name, library_name, InstrumentKind::ValueObserver, number_kind),
        }
    }

    /// Says what the observer measures.
    pub fn with_description(self, description: String) -> (r: ValueObserverBuilder)
        ensures
            r.descriptor() == (Descriptor {
                config: Config { description: Some(description), ..self.descriptor().config },
                ..self.descriptor()
            }),
    {
        let mut descriptor = self.descriptor;
        descriptor.set_description(description);
        ValueObserverBuilder { descriptor }
    }

    /// The observer, made in the accumulator as its next asynchronous
    /// instrument.
    pub fn init<S: AggregationSelector>(self, meter: &mut Accumulator<S>) -> (r: ValueObserver)
        requires
            old(meter).wf(),
        ensures
            final(meter).wf(),
            r.instrument == old(meter)@.instruments.len(),
            final(meter)@ == (AccumulatorView {
                instruments: old(meter)@.instruments.push(
                    AsyncView { descriptor: self.descriptor(), keys: Seq::empty(), recorders: Seq::empty() },
                ),
                ..old(meter)@
            }),
    {
        ValueObserver { instrument: meter.new_async_instrument(self.descriptor).unwrap() }
    }
}

impl ValueObserver {
    /// An observation of a value on this observer.
    pub fn observation(&self, value: Number) -> (r: Observation)
        ensures
            r == (Observation { number: value, instrument: self.instrument }),
    {
        Observation { number: value, instrument: self.instrument }
    }
}

} // verus!
