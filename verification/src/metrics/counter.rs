//! The simplest concrete metric kind: a monotonically increasing counter.
//! It encodes to exactly one data point carrying its current total under
//! exactly the labels it inherits.

use vstd::prelude::*;

use crate::encoding::EncodeMetric;
use crate::exchange::{labels_view, metrics_view, CounterValue, Label, LabelV, Metric, MetricPoint, MetricPointValue, MetricV};
use crate::metrics::family::{DefaultConstructor, MetricConstructor};
use crate::metrics::{MetricType, TypedMetric};

verus! {

/// A monotonically increasing integer metric.  Its view is the current total.
#[derive(Clone, Copy, Debug)]
pub struct Counter {
    total: u64,
}

impl View for Counter {
    type V = u64;

    closed spec fn view(&self) -> u64 {
        self.total
    }
}

impl Counter {
    /// The value of a freshly constructed counter; its total is zero.
    pub closed spec fn spec_default() -> Counter {
        Counter { total: 0 }
    }

    pub proof fn lemma_spec_default()
        ensures
            Counter::spec_default()@ == 0,
    {
    }

    /// Adds one to the total.
    pub fn inc(&mut self)
        requires
            old(self)@ < u64::MAX,
        ensures
            final(self)@ == old(self)@ + 1,
    {
        self.total = self.total + 1;
    }

    /// The current total.
    pub fn get(&self) -> (r: u64)
        ensures
            r == self@,
    {
        self.total
    }
}

impl Default for Counter {
    fn default() -> (r: Self)
        ensures
            r == Counter::spec_default(),
            r@ == 0,
    {
        Counter { total: 0 }
    }
}

impl TypedMetric for Counter {
    open spec fn spec_static_type() -> MetricType {
        MetricType::Counter
    }

    fn static_type() -> (t: MetricType) {
        MetricType::Counter
    }
}

impl MetricConstructor<Counter> for DefaultConstructor {
    open spec fn spec_new_metric(&self) -> Counter {
        Counter::spec_default()
    }

    fn new_metric(&self) -> (m: Counter) {
        Counter::default()
    }
}

impl EncodeMetric for Counter {
    open spec fn spec_metric_type(&self) -> MetricType {
        MetricType::Counter
    }

    /// A counter contributes exactly one data point: the inherited labels,
    /// unchanged, and its current total.
    open spec fn spec_encode(&self, labels: Seq<LabelV>) -> Seq<MetricV> {
        seq![
            MetricV {
                labels,
                metric_points: seq![
                    MetricPoint {
                        value: MetricPointValue::CounterValue(CounterValue { total: self@ }),
                    },
                ],
            },
        ]
    }

    fn metric_type(&self) -> (t: MetricType) {
        MetricType::Counter
    }

    fn encode(&self, labels: Vec<Label>) -> (r: Vec<Metric>) {
        let ghost lv = labels_view(labels@);
        let point = MetricPoint {
            value: MetricPointValue::CounterValue(CounterValue { total: self.get() }),
        };
        let metric = Metric { labels, metric_points: vec![point] };
        let ghost mv = metric@;
        let r = vec![metric];
        proof {
            let target = self.spec_encode(lv);
            assert(mv.metric_points =~= target[0].metric_points);
            assert(mv.labels == lv);
            assert(mv =~= target[0]);
            assert(metrics_view(r@)[0] == r@[0]@);
            assert(r@[0]@ == mv);
            assert(metrics_view(r@) =~= target);
        }
        r
    }
}

/// The total a counter holds after starting at its default value and being
/// incremented the given number of times.
pub open spec fn spec_total_after_increments(k: nat) -> nat
    decreases k,
{
    if k == 0 {
        0
    } else {
        spec_total_after_increments((k - 1) as nat) + 1
    }
}

/// A counter that started at its default value and was incremented `k` times
/// holds total `k`, and encodes to exactly one data point whose counter value
/// is that total, under exactly the inherited labels.
pub proof fn lemma_counter_encode_after_increments(k: nat, c: Counter, labels: Seq<LabelV>)
    requires
        c@ == spec_total_after_increments(k),
    ensures
        c@ == k,
        c.spec_encode(labels).len() == 1,
        c.spec_encode(labels)[0].labels == labels,
        c.spec_encode(labels)[0].metric_points.len() == 1,
        c.spec_encode(labels)[0].metric_points[0].value == MetricPointValue::CounterValue(
            CounterValue { total: c@ },
        ),
    decreases k,
{
    if k > 0 {
        lemma_total_after_increments_is_count((k - 1) as nat);
    }
}

/// The recurrence above counts: after `k` increments the total is `k`.
pub proof fn lemma_total_after_increments_is_count(k: nat)
    ensures
        spec_total_after_increments(k) == k,
    decreases k,
{
    if k > 0 {
        lemma_total_after_increments_is_count((k - 1) as nat);
    }
}

} // verus!
