//! The exchange data model: the hierarchical document that encoding produces.
//! A `MetricSet` holds one `MetricFamily` per registered descriptor; each
//! family holds data points (`Metric`), and each point carries its own ordered
//! label set and a typed value.

use vstd::prelude::*;

verus! {

/// One name/value pair attached to a data point of the exchange document.
#[derive(Debug, PartialEq)]
pub struct Label {
    pub name: String,
    pub value: String,
}

/// Mathematical model of a `Label`: both fields as character sequences.
#[verifier::ext_equal]
pub ghost struct LabelV {
    pub name: Seq<char>,
    pub value: Seq<char>,
}

impl View for Label {
    type V = LabelV;

    open spec fn view(&self) -> LabelV {
        LabelV { name: self.name@, value: self.value@ }
    }
}

impl Clone for Label {
    fn clone(&self) -> (r: Self)
        ensures
            r == *self,
    {
        Label { name: self.name.clone(), value: self.value.clone() }
    }
}

/// The typed value of a counter data point: the running total.
#[derive(Clone, Copy, Debug, PartialEq, Eq, Structural)]
pub struct CounterValue {
    pub total: u64,
}

/// The tagged value carried by one data point; counters are the one metric
/// kind this core stores.
#[derive(Clone, Copy, Debug, PartialEq, Eq, Structural)]
pub enum MetricPointValue {
    CounterValue(CounterValue),
}

/// One observation belonging to a data point.
#[derive(Clone, Copy, Debug, PartialEq, Eq, Structural)]
pub struct MetricPoint {
    pub value: MetricPointValue,
}

/// One data point of a family: its own ordered label set and its observations.
#[derive(Debug, PartialEq)]
pub struct Metric {
    pub labels: Vec<Label>,
    pub metric_points: Vec<MetricPoint>,
}

/// Mathematical model of a `Metric`.
#[verifier::ext_equal]
pub ghost struct MetricV {
    pub labels: Seq<LabelV>,
    pub metric_points: Seq<MetricPoint>,
}

/// The models of a sequence of exchange labels.
pub open spec fn labels_view(s: Seq<Label>) -> Seq<LabelV> {
    s.map_values(|l: Label| l@)
}

/// The models of a sequence of data points.
pub open spec fn metrics_view(s: Seq<Metric>) -> Seq<MetricV> {
    s.map_values(|m: Metric| m@)
}

impl View for Metric {
    type V = MetricV;

    open spec fn view(&self) -> MetricV {
        MetricV { labels: labels_view(self.labels@), metric_points: self.metric_points@ }
    }
}

/// The exchange document's own enumeration of metric kinds; the value stored
/// in a family is this variant's numeric code.
#[derive(Clone, Copy, Debug, PartialEq, Eq, Structural)]
pub enum MetricType {
    Unknown,
    Gauge,
    Counter,
    StateSet,
    Info,
    Histogram,
    GaugeHistogram,
    Summary,
}

impl MetricType {
    /// The fixed numeric code of each variant in the exchange document.
    pub open spec fn spec_code(self) -> i32 {
        match self {
            MetricType::Unknown => 0,
            MetricType::Gauge => 1,
            MetricType::Counter => 2,
            MetricType::StateSet => 3,
            MetricType::Info => 4,
            MetricType::Histogram => 5,
            MetricType::GaugeHistogram => 6,
            MetricType::Summary => 7,
        }
    }

    pub fn code(&self) -> (r: i32)
        ensures
            r == self.spec_code(),
    {
        match self {
            MetricType::Unknown => 0,
            MetricType::Gauge => 1,
            MetricType::Counter => 2,
            MetricType::StateSet => 3,
            MetricType::Info => 4,
            MetricType::Histogram => 5,
            MetricType::GaugeHistogram => 6,
            MetricType::Summary => 7,
        }
    }
}

/// One serialized family: descriptor metadata, the numeric kind code, and the
/// ordered data points.  An absent unit is the empty string.
#[derive(Debug, PartialEq)]
pub struct MetricFamily {
    pub name: String,
    pub metric_type: i32,
    pub unit: String,
    pub help: String,
    pub metrics: Vec<Metric>,
}

/// Mathematical model of a `MetricFamily`.
#[verifier::ext_equal]
pub ghost struct MetricFamilyV {
    pub name: Seq<char>,
    pub metric_type: i32,
    pub unit: Seq<char>,
    pub help: Seq<char>,
    pub metrics: Seq<MetricV>,
}

impl View for MetricFamily {
    type V = MetricFamilyV;

    open spec fn view(&self) -> MetricFamilyV {
        MetricFamilyV {
            name: self.name@,
            metric_type: self.metric_type,
            unit: self.unit@,
            help: self.help@,
            metrics: metrics_view(self.metrics@),
        }
    }
}

/// The root exchange value: one family per registered descriptor, in
/// registration order.
#[derive(Debug, PartialEq)]
pub struct MetricSet {
    pub metric_families: Vec<MetricFamily>,
}

impl View for MetricSet {
    type V = Seq<MetricFamilyV>;

    open spec fn view(&self) -> Seq<MetricFamilyV> {
        self.metric_families@.map_values(|f: MetricFamily| f@)
    }
}

/// Clones a label list; the copy holds the same labels.
pub fn clone_labels(v: &Vec<Label>) -> (r: Vec<Label>)
    ensures
        r@ == v@,
{
    let mut r: Vec<Label> = Vec::new();
    let n = v.len();
    for i in 0..n
        invariant
            n == v@.len(),
            r@ == v@.take(i as int),
    {
        r.push(v[i].clone());
        proof {
            assert(r@ =~= v@.take(i + 1));
        }
    }
    proof {
        assert(v@.take(n as int) =~= v@);
    }
    r
}

/// Taking models distributes over concatenation of label lists.
pub proof fn lemma_labels_view_concat(a: Seq<Label>, b: Seq<Label>)
    ensures
        labels_view(a + b) == labels_view(a) + labels_view(b),
{
    assert(labels_view(a + b) =~= labels_view(a) + labels_view(b));
}

/// Taking models distributes over concatenation of data-point lists.
pub proof fn lemma_metrics_view_concat(a: Seq<Metric>, b: Seq<Metric>)
    ensures
        metrics_view(a + b) == metrics_view(a) + metrics_view(b),
{
    assert(metrics_view(a + b) =~= metrics_view(a) + metrics_view(b));
}

} // verus!
