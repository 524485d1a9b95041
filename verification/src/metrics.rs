//! The semantic kinds a metric family can have, and the capability of kinds
//! whose family type is fixed by the kind itself.

pub mod counter;
pub mod family;

use vstd::prelude::*;

verus! {

/// Semantic kind of a metric family, fixed for the lifetime of the family and
/// determined by the concrete metric kind, never by its data.
#[derive(Clone, Copy, Debug, PartialEq, Eq, Structural)]
pub enum MetricType {
    Counter,
    Gauge,
    Histogram,
    Info,
    Unknown,
}

/// Implemented by metric kinds whose family type is one fixed `MetricType`,
/// independent of any particular instance.
pub trait TypedMetric {
    /// The kind's fixed semantic type.
    spec fn spec_static_type() -> MetricType;

    fn static_type() -> (t: MetricType)
        ensures
            t == Self::spec_static_type(),
    ;
}

} // verus!
