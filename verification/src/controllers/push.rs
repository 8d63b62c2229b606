//! Collection on a timer: the worker of a push controller takes ticks and
//! the message to shut down, and says what is to be done on each.
use crate::accumulator::{Accumulator, AccumulatorView};
use crate::error::MetricsError;
use crate::export::Record;
use crate::integrator::{shown_to, BatchView, SimpleIntegrator};
use crate::selector::{AggregationSelector, Selection};
use vstd::prelude::*;

verus! {

/// The period of a push controller for which none was set: ten seconds, in
/// nanoseconds.
pub const DEFAULT_PUSH_PERIOD: u64 = 10_000_000_000;

/// What the worker is told.
#[derive(Clone, Copy, Debug, PartialEq, Eq, Structural)]
pub enum PushMessage {
    /// The period has passed.
    Tick,
    /// The controller is given up.
    Shutdown,
}

/// What the worker does on a message.
#[derive(Clone, Copy, Debug, PartialEq, Eq, Structural)]
pub enum PushAction {
    /// Run a collection pass and export what it gathered.
    Export,
    /// Run a last collection pass, export what it gathered, and end.
    ExportAndStop,
    /// Nothing: the worker has ended.
    Nothing,
}

/// What the worker does on a message, and whether it goes on afterwards.
/// While it runs, a tick makes it export. The message to shut down, and
/// the end of the messages, make it export one last time and end. Once it
/// has ended it does nothing.
pub open spec fn step(running: bool, message: Option<PushMessage>) -> (PushAction, bool) {
    if !running {
        (PushAction::Nothing, false)
    } else {
        match message {
            Some(PushMessage::Tick) => (PushAction::Export, true),
            _ => (PushAction::ExportAndStop, false),
        }
    }
}

/// The worker of a push controller. It decides; the caller waits for the
/// messages and talks to the exporter.
pub struct PushControllerWorker<S: AggregationSelector> {
    accumulator: Accumulator<S>,
    integrator: SimpleIntegrator<S>,
    running: bool,
}

impl<S: AggregationSelector> PushControllerWorker<S> {
    /// The accumulator.
    pub closed spec fn meter(&self) -> AccumulatorView {
        self.accumulator@
    }

    /// What the integrator gathered.
    pub closed spec fn batch(&self) -> BatchView {
        self.integrator.batch()
    }

    /// What the selector of the integrator gives for each descriptor.
    pub closed spec fn selection(&self) -> Selection {
        self.integrator.selection()
    }

    /// Whether the integrator keeps its batch from pass to pass.
    pub closed spec fn stateful(&self) -> bool {
        self.integrator.stateful()
    }

    /// Whether the worker has not ended yet.
    pub closed spec fn running(&self) -> bool {
        self.running
    }

    /// Whether the worker is in order.
    pub closed spec fn wf(&self) -> bool {
        self.accumulator.wf() && self.integrator.wf()
    }

    /// A worker that runs, for the given accumulator and integrator.
    pub fn new(accumulator: Accumulator<S>, integrator: SimpleIntegrator<S>) -> (r: PushControllerWorker<S>)
        requires
            accumulator.wf(),
            integrator.wf(),
        ensures
            r.wf(),
            r.running(),
            r.meter() == accumulator@,
            r.batch() == integrator.batch(),
            r.selection() == integrator.selection(),
            r.stateful() == integrator.stateful(),
    {
        PushControllerWorker { accumulator, integrator, running: true }
    }

    /// The accumulator, on which instruments are made and measurements
    /// are recorded.
    pub fn provider(&mut self) -> (r: &mut Accumulator<S>)
        requires
            old(self).wf(),
        ensures
            r@ == old(self).meter(),
            r.wf(),
            final(r).wf() ==> final(self).wf(),
            final(self).meter() == final(r)@,
            final(self).batch() == old(self).batch(),
            final(self).selection() == old(self).selection(),
            final(self).stateful() == old(self).stateful(),
            final(self).running() == old(self).running(),
    {
        &mut self.accumulator
    }

    /// Takes a message, or the end of the messages, and says what is to be
    /// done.
    pub fn poll(&mut self, message: Option<PushMessage>) -> (r: PushAction)
        ensures
            r == step(old(self).running(), message).0,
            final(self).running() == step(old(self).running(), message).1,
            final(self).meter() == old(self).meter(),
            final(self).batch() == old(self).batch(),
            final(self).selection() == old(self).selection(),
            final(self).stateful() == old(self).stateful(),
            old(self).wf() ==> final(self).wf(),
    {
        if !self.running {
            return PushAction::Nothing;
        }
        match message {
            Some(PushMessage::Tick) => PushAction::Export,
            _ => {
                self.running = false;
                PushAction::ExportAndStop
            },
        }
    }

    /// The first half of a tick: runs a collection pass. What it gathered
    /// is then in the batch, for the exporter. Returned are the errors of
    /// the integrator.
    pub fn on_tick(&mut self) -> (r: Vec<MetricsError>)
        requires
            old(self).wf(),
        ensures
            final(self).wf(),
            final(self).running() == old(self).running(),
            final(self).selection() == old(self).selection(),
            final(self).stateful() == old(self).stateful(),
            final(self).batch() == old(self).batch().gathered(
                old(self).selection(),
                old(self).stateful(),
                old(self).meter().submissions(),
            ),
            r@.len() == old(self).batch().refusals(
                old(self).selection(),
                old(self).stateful(),
                old(self).meter().submissions(),
            ),
            final(self).meter().record_map() == old(self).meter().swept(),
            final(self).meter().epoch == crate::number::number_sum(
                crate::number::NumberKind::U64,
                old(self).meter().epoch,
                1,
            ),
    {
        let (_, errors) = self.accumulator.collect(&mut self.integrator);
        errors
    }

    /// The second half of a tick, once the exporter is done. After an
    /// export that went well the collection is finished: an integrator
    /// that is not stateful empties its batch. After one that failed the
    /// batch stays as it is, and the error is handed back for the error
    /// handler.
    pub fn exported(&mut self, outcome: Result<(), MetricsError>) -> (r: Option<MetricsError>)
        requires
            old(self).wf(),
        ensures
            final(self).wf(),
            final(self).running() == old(self).running(),
            final(self).selection() == old(self).selection(),
            final(self).stateful() == old(self).stateful(),
            final(self).meter() == old(self).meter(),
            match outcome {
                Ok(_) => r.is_none() && final(self).batch() == (if old(self).stateful() {
                    old(self).batch()
                } else {
                    BatchView::empty()
                }),
                Err(error) => r == Some(error) && final(self).batch() == old(self).batch(),
            },
    {
        match outcome {
            Ok(()) => {
                self.integrator.finished_collection();
                None
            },
            Err(error) => Some(error),
        }
    }

    /// Hands every record of the batch to `f`, in the order of the batch,
    /// up to the first that `f` fails on. The error of that one is
    /// returned.
    pub fn try_for_each<F: Fn(&Record) -> Result<(), MetricsError>>(&self, f: &F) -> (r: Result<
        (),
        MetricsError,
    >)
        requires
            self.wf(),
            forall|record: Record| #[trigger] f.requires((&record,)),
        ensures
            shown_to(f, self.batch().entries, r),
    {
        self.integrator.try_for_each(f)
    }

    /// How many records the batch holds.
    pub fn len(&self) -> (r: usize)
        requires
            self.wf(),
        ensures
            r == self.batch().entries.len(),
    {
        self.integrator.len()
    }

    /// The record at a place of the batch, for the exporter.
    pub fn record_at(&self, at: usize) -> (r: Record<'_>)
        requires
            self.wf(),
            at < self.batch().entries.len(),
        ensures
            *r.descriptor == self.batch().entries[at as int].descriptor,
            r.labels@ == self.batch().entries[at as int].labels,
            r.resource@ == self.batch().entries[at as int].resource,
            r.aggregator@ == self.batch().entries[at as int].aggregator,
    {
        self.integrator.record_at(at)
    }
}

} // verus!
