//! Collection on demand: a pass is run when a caller asks and the last one
//! is older than the cache period.
use crate::accumulator::{accumulator, saturated, Accumulator, AccumulatorView};
use crate::context::Context;
use crate::error::MetricsError;
use crate::export::{Record, Resource};
use crate::integrator::{shown_to, simple, BatchView, SimpleIntegrator};
use crate::labels::Pair;
use crate::selector::{selection_of, AggregationSelector, Selection};
use vstd::prelude::*;

verus! {

/// The cache period of a controller for which none was set: ten seconds,
/// in nanoseconds.
pub const DEFAULT_CACHE_DURATION: u64 = 10_000_000_000;

/// Starts a pull controller with the given selector.
pub fn pull<S: AggregationSelector>(selector: S) -> (r: PullControllerBuilder<S>)
    ensures
        r.selection() == selection_of(&selector),
        r.resource().is_none(),
        !r.is_stateful(),
        r.cache_period().is_none(),
{
    PullControllerBuilder::with_selector(selector)
}

/// Whether a pass is due at `now`: the last one is older than the period,
/// or the clock was set back behind it.
pub open spec fn due(last_collect: u64, period: u64, now: u64) -> bool {
    now < last_collect || now - last_collect > period
}

/// Runs collection passes on demand, and keeps what the last one gathered.
pub struct PullController<S: AggregationSelector> {
    accumulator: Accumulator<S>,
    integrator: SimpleIntegrator<S>,
    period: u64,
    last_collect: u64,
}

impl<S: AggregationSelector> PullController<S> {
    /// The accumulator.
    pub closed spec fn meter(&self) -> AccumulatorView {
        self.accumulator@
    }

    /// What the integrator gathered.
    pub closed spec fn batch(&self) -> BatchView {
        self.integrator.batch()
    }

    /// What the selector of the integrator gives for each descriptor.
    pub closed spec fn selection(&self) -> Selection {
        self.integrator.selection()
    }

    /// Whether the integrator keeps its batch from pass to pass.
    pub closed spec fn stateful(&self) -> bool {
        self.integrator.stateful()
    }

    /// The cache period, in nanoseconds.
    pub closed spec fn period(&self) -> u64 {
        self.period
    }

    /// The time of the last pass, or of the making of the controller.
    pub closed spec fn last_collect(&self) -> u64 {
        self.last_collect
    }

    /// Whether the controller is in order.
    pub closed spec fn wf(&self) -> bool {
        self.accumulator.wf() && self.integrator.wf()
    }

    /// The accumulator, on which instruments are made and measurements
    /// are recorded.
    pub fn provider(&mut self) -> (r: &mut Accumulator<S>)
        requires
            old(self).wf(),
        ensures
            r@ == old(self).meter(),
            r.wf(),
            final(r).wf() ==> final(self).wf(),
            final(self).meter() == final(r)@,
            final(self).batch() == old(self).batch(),
            final(self).selection() == old(self).selection(),
            final(self).stateful() == old(self).stateful(),
            final(self).period() == old(self).period(),
            final(self).last_collect() == old(self).last_collect(),
    {
        &mut self.accumulator
    }

    /// Runs a collection pass if one is due at the time of the call, and
    /// notes the time. Otherwise nothing happens: what the last pass
    /// gathered is still taken for fresh. Returned are the errors of the
    /// integrator.
    pub fn collect(&mut self, cx: &Context) -> (r: Vec<MetricsError>)
        requires
            old(self).wf(),
        ensures
            final(self).wf(),
            final(self).selection() == old(self).selection(),
            final(self).stateful() == old(self).stateful(),
            final(self).period() == old(self).period(),
            !due(old(self).last_collect(), old(self).period(), cx.timestamp) ==> {
                &&& r@.len() == 0
                &&& final(self).meter() == old(self).meter()
                &&& final(self).batch() == old(self).batch()
                &&& final(self).last_collect() == old(self).last_collect()
            },
            due(old(self).last_collect(), old(self).period(), cx.timestamp) ==> {
                &&& final(self).last_collect() == cx.timestamp
                &&& final(self).batch() == old(self).batch().gathered(
                    old(self).selection(),
                    old(self).stateful(),
                    old(self).meter().submissions(),
                )
                &&& r@.len() == old(self).batch().refusals(
                    old(self).selection(),
                    old(self).stateful(),
                    old(self).meter().submissions(),
                )
                &&& final(self).meter().record_map() == old(self).meter().swept()
                &&& final(self).meter().epoch == crate::number::number_sum(
                    crate::number::NumberKind::U64,
                    old(self).meter().epoch,
                    1,
                )
            },
    {
        let now = cx.timestamp;
        if now < self.last_collect || now - self.last_collect > self.period {
            let (_, errors) = self.accumulator.collect(&mut self.integrator);
            self.last_collect = now;
            errors
        } else {
            Vec::new()
        }
    }

    /// Hands every record of the batch to `f`, in the order of the batch,
    /// up to the first that `f` fails on. The error of that one is
    /// returned.
    pub fn try_for_each<F: Fn(&Record) -> Result<(), MetricsError>>(&self, f: &F) -> (r: Result<
        (),
        MetricsError,
    >)
        requires
            self.wf(),
            forall|record: Record| #[trigger] f.requires((&record,)),
        ensures
            shown_to(f, self.batch().entries, r),
    {
        self.integrator.try_for_each(f)
    }

    /// How many records the last pass left in the batch.
    pub fn len(&self) -> (r: usize)
        requires
            self.wf(),
        ensures
            r == self.batch().entries.len(),
    {
        self.integrator.len()
    }

    /// The record at a place of the batch, for an exporter.
    pub fn record_at(&self, at: usize) -> (r: Record<'_>)
        requires
            self.wf(),
            at < self.batch().entries.len(),
        ensures
            *r.descriptor == self.batch().entries[at as int].descriptor,
            r.labels@ == self.batch().entries[at as int].labels,
            r.resource@ == self.batch().entries[at as int].resource,
            r.aggregator@ == self.batch().entries[at as int].aggregator,
    {
        self.integrator.record_at(at)
    }
}

/// What a pull controller is made of, to be settled step by step.
pub struct PullControllerBuilder<S: AggregationSelector> {
    selector: S,
    resource: Option<Resource>,
    stateful: bool,
    cache_period: Option<u64>,
}

impl<S: AggregationSelector> PullControllerBuilder<S> {
    /// What the selector gives for each descriptor.
    pub closed spec fn selection(&self) -> Selection {
        selection_of(&self.selector)
    }

    /// The resource, once one was given.
    pub closed spec fn resource(&self) -> Option<Seq<Pair>> {
        match self.resource {
            Some(resource) => Some(resource@),
            None => None,
        }
    }

    /// Whether the controller is to export cumulative records.
    pub closed spec fn is_stateful(&self) -> bool {
        self.stateful
    }

    /// The cache period in nanoseconds, once one was given.
    pub closed spec fn cache_period(&self) -> Option<u64> {
        self.cache_period
    }

    /// A builder with the given selector and nothing else settled.
    pub fn with_selector(selector: S) -> (r: PullControllerBuilder<S>)
        ensures
            r.selection() == selection_of(&selector),
            r.resource().is_none(),
            !r.is_stateful(),
            r.cache_period().is_none(),
    {
        PullControllerBuilder { selector, resource: None, stateful: false, cache_period: None }
    }

    /// Gives the resource that the exported records are to carry.
    pub fn with_resource(self, resource: Resource) -> (r: PullControllerBuilder<S>)
        ensures
            r.resource() == Some(resource@),
            r.selection() == self.selection(),
            r.is_stateful() == self.is_stateful(),
            r.cache_period() == self.cache_period(),
    {
        PullControllerBuilder { resource: Some(resource), ..self }
    }

    /// Sets the time, in nanoseconds, for which what a pass gathered is
    /// taken for fresh. Zero switches the cache off.
    pub fn with_cache_period(self, period: u64) -> (r: PullControllerBuilder<S>)
        ensures
            r.cache_period() == Some(period),
            r.selection() == self.selection(),
            r.is_stateful() == self.is_stateful(),
            r.resource() == self.resource(),
    {
        PullControllerBuilder { cache_period: Some(period), ..self }
    }

    /// Says whether the controller is to keep state from pass to pass, so
    /// that it exports cumulative records.
    pub fn with_stateful(self, stateful: bool) -> (r: PullControllerBuilder<S>)
        ensures
            r.is_stateful() == stateful,
            r.selection() == self.selection(),
            r.cache_period() == self.cache_period(),
            r.resource() == self.resource(),
    {
        PullControllerBuilder { stateful, ..self }
    }

    /// The controller, made at the time of the call: without records, and
    /// with that time as the time of its last pass.
    pub fn build(self, cx: &Context) -> (r: PullController<S>)
        ensures
            r.wf(),
            r.selection() == self.selection(),
            r.stateful() == self.is_stateful(),
            r.period() == (match self.cache_period() {
                Some(period) => period,
                None => DEFAULT_CACHE_DURATION,
            }),
            r.last_collect() == cx.timestamp,
            r.batch() == BatchView::empty(),
            r.meter() == (AccumulatorView {
                keys: Seq::empty(),
                records: Seq::empty(),
                instruments: Seq::empty(),
                epoch: 0,
                selection: self.selection(),
                resource: match self.resource() {
                    Some(resource) => resource,
                    None => Seq::empty(),
                },
            }),
    {
        let integrator = simple(self.selector, self.stateful);
        let builder = accumulator(&integrator);
        let accumulator = match self.resource {
            Some(resource) => builder.with_resource(resource).build(),
            None => builder.build(),
        };
        PullController {
            accumulator,
            integrator,
            period: match self.cache_period {
                Some(period) => period,
                None => DEFAULT_CACHE_DURATION,
            },
            last_collect: cx.timestamp,
        }
    }
}

} // verus!
