//! What the engine hands to an exporter.
use crate::aggregator::Aggregator;
use crate::descriptor::Descriptor;
use crate::labels::{pairs_of, sorted_labels, Distinct, KeyValue, LabelSet, Pair};
use vstd::prelude::*;

verus! {

/// The attributes of the entity that produces the measurements.
#[derive(Debug)]
pub struct Resource {
    attributes: Distinct,
}

impl View for Resource {
    type V = Seq<Pair>;

    closed spec fn view(&self) -> Seq<Pair> {
        self.attributes@
    }
}

impl Clone for Resource {
    fn clone(&self) -> (r: Resource)
        ensures
            r@ == self@,
    {
        Resource { attributes: self.attributes.clone() }
    }
}

impl Default for Resource {
    fn default() -> (r: Resource)
        ensures
            r@ == Seq::<Pair>::empty(),
    {
        Resource { attributes: Distinct::default() }
    }
}

impl Resource {
    /// A resource with the given attributes: sorted by key, and of several
    /// attributes with one key only the first.
    pub fn new(kvs: &[KeyValue]) -> (r: Resource)
        ensures
            r@ == sorted_labels(pairs_of(kvs@)),
    {
        Resource { attributes: Distinct::from(kvs) }
    }

    /// The attributes, sorted by key.
    pub fn attributes(&self) -> (r: &Distinct)
        ensures
            r@ == self@,
    {
        &self.attributes
    }
}

/// One exported record: an instrument, a label set, the resource, and the
/// aggregator that holds what was measured.
#[derive(Debug)]
pub struct Record<'a> {
    /// The instrument.
    pub descriptor: &'a Descriptor,
    /// The labels under which the measurements were made.
    pub labels: &'a LabelSet,
    /// The entity that made them.
    pub resource: &'a Resource,
    /// What was measured, checkpointed.
    pub aggregator: &'a Aggregator,
}

/// A record of the given parts.
pub fn record<'a>(
    descriptor: &'a Descriptor,
    labels: &'a LabelSet,
    resource: &'a Resource,
    aggregator: &'a Aggregator,
) -> (r: Record<'a>)
    ensures
        r.descriptor == descriptor,
        r.labels == labels,
        r.resource == resource,
        r.aggregator == aggregator,
{
    Record { descriptor, labels, resource, aggregator }
}

impl<'a> Record<'a> {
    /// A record of the given parts.
    pub fn new(
        descriptor: &'a Descriptor,
        labels: &'a LabelSet,
        resource: &'a Resource,
        aggregator: &'a Aggregator,
    ) -> (r: Record<'a>)
        ensures
            r.descriptor == descriptor,
            r.labels == labels,
            r.resource == resource,
            r.aggregator == aggregator,
    {
        Record { descriptor, labels, resource, aggregator }
    }

    /// The instrument.
    pub fn descriptor(&self) -> (r: &Descriptor)
        ensures
            r == self.descriptor,
    {
        self.descriptor
    }

    /// The labels under which the measurements were made.
    pub fn labels(&self) -> (r: &LabelSet)
        ensures
            r == self.labels,
    {
        self.labels
    }

    /// The entity that made them.
    pub fn resource(&self) -> (r: &Resource)
        ensures
            r == self.resource,
    {
        self.resource
    }

    /// What was measured.
    pub fn aggregator(&self) -> (r: &Aggregator)
        ensures
            r == self.aggregator,
    {
        self.aggregator
    }
}

} // verus!
