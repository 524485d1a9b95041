//! Encoding a registry into the exchange document.  The `EncodeMetric`
//! capability is what every storable metric kind implements; `EncodeLabel`
//! turns label-bearing values into ordered exchange labels; `encode` walks a
//! registry in registration order and builds one family per descriptor.

use vstd::prelude::*;

use crate::exchange::{self, labels_view, metrics_view, Label, LabelV, Metric, MetricSet, MetricFamily, MetricFamilyV, MetricV};
use crate::metrics::counter::Counter;
use crate::metrics::family::{distinct_keys, spec_family_points, DefaultConstructor, Family};
use crate::metrics::MetricType;
use crate::registry::{spec_unit_string, unit_string, Descriptor, Registry, Unit};

verus! {

/// The capability every storable metric kind implements: classify itself and,
/// given labels inherited from its descriptor's context, produce its own
/// exchange-format data points with those labels applied.
pub trait EncodeMetric {
    /// The semantic kind of this instance; fixed for its lifetime.
    spec fn spec_metric_type(&self) -> MetricType;

    /// The data points this instance contributes under the given inherited
    /// labels, as mathematical values.
    spec fn spec_encode(&self, labels: Seq<LabelV>) -> Seq<MetricV>;

    fn metric_type(&self) -> (t: MetricType)
        ensures
            t == self.spec_metric_type(),
    ;

    fn encode(&self, labels: Vec<Label>) -> (r: Vec<Metric>)
        ensures
            metrics_view(r@) == self.spec_encode(labels_view(labels@)),
    ;
}

/// The encode capability for metrics that may move between threads.
pub trait SendEncodeMetric: EncodeMetric + Send {

}

impl<T: EncodeMetric + Send> SendEncodeMetric for T {

}

/// Converts a label-bearing value into an ordered sequence of exchange
/// labels.  The family store also keys by this encoding: two keys compare
/// equal exactly when their encodings agree.
pub trait EncodeLabel {
    /// The ordered labels this value encodes to, as mathematical values.
    spec fn spec_labels(&self) -> Seq<LabelV>;

    fn encode(&self) -> (r: Vec<Label>)
        ensures
            labels_view(r@) == self.spec_labels(),
    ;

    /// Whether the two values encode to the same labels.
    fn label_eq(&self, other: &Self) -> (r: bool)
        ensures
            r == (self.spec_labels() == other.spec_labels()),
    ;
}

impl EncodeLabel for (String, String) {
    /// A single pair encodes to exactly one label.
    open spec fn spec_labels(&self) -> Seq<LabelV> {
        seq![LabelV { name: self.0@, value: self.1@ }]
    }

    fn encode(&self) -> (r: Vec<Label>) {
        let l = Label { name: self.0.clone(), value: self.1.clone() };
        let r = vec![l];
        proof {
            assert(labels_view(r@) =~= self.spec_labels());
        }
        r
    }

    fn label_eq(&self, other: &Self) -> (r: bool) {
        let r = self.0 == other.0 && self.1 == other.1;
        proof {
            if self.0@ == other.0@ && self.1@ == other.1@ {
                assert(self.spec_labels() =~= other.spec_labels());
            }
            if self.spec_labels() == other.spec_labels() {
                assert(self.spec_labels()[0] == other.spec_labels()[0]);
            }
        }
        r
    }
}

/// The concatenation, in order, of each element's own encoding.
pub open spec fn spec_concat_labels<T: EncodeLabel>(s: Seq<T>) -> Seq<LabelV>
    decreases s.len(),
{
    if s.len() == 0 {
        Seq::empty()
    } else {
        spec_concat_labels(s.drop_last()) + s.last().spec_labels()
    }
}

impl<T: EncodeLabel> EncodeLabel for Vec<T> {
    /// An ordered sequence encodes to the concatenation of its elements'
    /// encodings, flattened.
    open spec fn spec_labels(&self) -> Seq<LabelV> {
        spec_concat_labels(self@)
    }

    fn encode(&self) -> (r: Vec<Label>) {
        let mut r: Vec<Label> = Vec::new();
        let n = self.len();
        for i in 0..n
            invariant
                n == self@.len(),
                labels_view(r@) == spec_concat_labels(self@.take(i as int)),
        {
            let mut piece = self[i].encode();
            r.append(&mut piece);
            proof {
                assert(self@.take(i + 1).drop_last() =~= self@.take(i as int));
                assert(self@.take(i + 1).last() == self@[i as int]);
                exchange::lemma_labels_view_concat(r@.subrange(0, r@.len() - piece@.len() as int), piece@);
                assert(labels_view(r@) =~= spec_concat_labels(self@.take(i + 1)));
            }
        }
        proof {
            assert(self@.take(n as int) =~= self@);
        }
        r
    }

    fn label_eq(&self, other: &Self) -> (r: bool) {
        let a = self.encode();
        let b = other.encode();
        labels_equal(&a, &b)
    }
}

impl<'a, T: EncodeLabel> EncodeLabel for &'a [T] {
    /// A borrowed sequence encodes as the owned one does.
    open spec fn spec_labels(&self) -> Seq<LabelV> {
        spec_concat_labels(self@)
    }

    fn encode(&self) -> (r: Vec<Label>) {
        let mut r: Vec<Label> = Vec::new();
        let n = self.len();
        for i in 0..n
            invariant
                n == self@.len(),
                labels_view(r@) == spec_concat_labels(self@.take(i as int)),
        {
            let mut piece = self[i].encode();
            r.append(&mut piece);
            proof {
                assert(self@.take(i + 1).drop_last() =~= self@.take(i as int));
                assert(self@.take(i + 1).last() == self@[i as int]);
                exchange::lemma_labels_view_concat(r@.subrange(0, r@.len() - piece@.len() as int), piece@);
                assert(labels_view(r@) =~= spec_concat_labels(self@.take(i + 1)));
            }
        }
        proof {
            assert(self@.take(n as int) =~= self@);
        }
        r
    }

    fn label_eq(&self, other: &Self) -> (r: bool) {
        let a = self.encode();
        let b = other.encode();
        labels_equal(&a, &b)
    }
}

/// Whether two encoded label lists hold the same labels in the same order.
pub fn labels_equal(a: &Vec<Label>, b: &Vec<Label>) -> (r: bool)
    ensures
        r == (labels_view(a@) == labels_view(b@)),
{
    if a.len() != b.len() {
        proof {
            assert(labels_view(a@).len() == a@.len());
            assert(labels_view(b@).len() == b@.len());
        }
        return false;
    }
    let n = a.len();
    for i in 0..n
        invariant
            n == a@.len(),
            n == b@.len(),
            forall|j: int| 0 <= j < i ==> labels_view(a@)[j] == labels_view(b@)[j],
    {
        let la = &a[i];
        let lb = &b[i];
        if !(la.name == lb.name && la.value == lb.value) {
            proof {
                assert(labels_view(a@)[i as int] == a@[i as int]@);
                assert(labels_view(b@)[i as int] == b@[i as int]@);
            }
            return false;
        }
        proof {
            assert(a@[i as int]@ =~= b@[i as int]@);
            assert(labels_view(a@)[i as int] == labels_view(b@)[i as int]);
        }
    }
    proof {
        assert(labels_view(a@) =~= labels_view(b@));
    }
    true
}

/// Label-set encoding is associative under concatenation: the encoding of a
/// sequence split anywhere equals the first part's encoding followed by the
/// second part's.
pub proof fn lemma_concat_labels_append<T: EncodeLabel>(a: Seq<T>, b: Seq<T>)
    ensures
        spec_concat_labels(a + b) == spec_concat_labels(a) + spec_concat_labels(b),
    decreases b.len(),
{
    if b.len() == 0 {
        assert(a + b =~= a);
        assert(spec_concat_labels(a) + spec_concat_labels(b) =~= spec_concat_labels(a));
    } else {
        lemma_concat_labels_append(a, b.drop_last());
        assert((a + b).drop_last() =~= a + b.drop_last());
        assert((a + b).last() == b.last());
        assert(spec_concat_labels(a) + (spec_concat_labels(b.drop_last()) + b.last().spec_labels())
            =~= (spec_concat_labels(a) + spec_concat_labels(b.drop_last())) + b.last().spec_labels());
    }
}

/// The fixed table from the semantic metric type to the exchange document's
/// enumeration.
pub open spec fn spec_exchange_type(m: MetricType) -> exchange::MetricType {
    match m {
        MetricType::Counter => exchange::MetricType::Counter,
        MetricType::Gauge => exchange::MetricType::Gauge,
        MetricType::Histogram => exchange::MetricType::Histogram,
        MetricType::Info => exchange::MetricType::Info,
        MetricType::Unknown => exchange::MetricType::Unknown,
    }
}

impl From<MetricType> for exchange::MetricType {
    fn from(m: MetricType) -> (r: Self) {
        match m {
            MetricType::Counter => exchange::MetricType::Counter,
            MetricType::Gauge => exchange::MetricType::Gauge,
            MetricType::Histogram => exchange::MetricType::Histogram,
            MetricType::Info => exchange::MetricType::Info,
            MetricType::Unknown => exchange::MetricType::Unknown,
        }
    }
}

impl vstd::std_specs::convert::FromSpecImpl<MetricType> for exchange::MetricType {
    open spec fn obeys_from_spec() -> bool {
        true
    }

    open spec fn from_spec(m: MetricType) -> Self {
        spec_exchange_type(m)
    }
}

/// The family the walker builds for one registry entry: the descriptor's
/// metadata, the metric's type code, and the metric's own data points under
/// the descriptor's static labels.
pub open spec fn spec_family<M: EncodeMetric>(d: Descriptor, m: M) -> MetricFamilyV {
    MetricFamilyV {
        name: d.name@,
        metric_type: spec_exchange_type(m.spec_metric_type()).spec_code(),
        unit: match d.unit {
            Some(u) => spec_unit_string(u),
            None => Seq::empty(),
        },
        help: d.help@,
        metrics: m.spec_encode(spec_concat_labels(d.labels@)),
    }
}

/// The whole exchange document of a registry: one family per entry, in
/// registration order.
pub open spec fn spec_metric_set<M: EncodeMetric>(entries: Seq<(Descriptor, M)>) -> Seq<MetricFamilyV> {
    entries.map_values(|e: (Descriptor, M)| spec_family(e.0, e.1))
}

/// Walks the registry in registration order and builds the exchange document.
pub fn encode<M: EncodeMetric>(registry: &Registry<M>) -> (r: MetricSet)
    ensures
        r@ == spec_metric_set(registry@),
{
    let mut families: Vec<MetricFamily> = Vec::new();
    let n = registry.len();
    for i in 0..n
        invariant
            n == registry@.len(),
            families@.map_values(|f: MetricFamily| f@) == spec_metric_set(registry@.take(i as int)),
    {
        let entry = registry.entry(i);
        let desc = &entry.0;
        let metric = &entry.1;
        let name = desc.name().to_owned();
        let metric_type = exchange::MetricType::from(metric.metric_type()).code();
        let unit = match desc.unit() {
            Some(u) => unit_string(u),
            None => String::new(),
        };
        let help = desc.help().to_owned();
        let static_labels = desc.labels().encode();
        let metrics = metric.encode(static_labels);
        let family = MetricFamily { name, metric_type, unit, help, metrics };
        let ghost fam = family@;
        let ghost prev = families@;
        proof {
            assert(fam =~= spec_family(registry@[i as int].0, registry@[i as int].1));
        }
        families.push(family);
        proof {
            let curm = families@.map_values(|f: MetricFamily| f@);
            let target = spec_metric_set(registry@.take(i + 1));
            assert(prev.map_values(|f: MetricFamily| f@).len() == prev.len());
            assert(registry@.take(i as int).len() == i);
            assert(prev.len() == i);
            assert(families@.len() == i + 1);
            assert forall|j: int| 0 <= j < i + 1 implies curm[j] == target[j] by {
                assert(curm[j] == families@[j]@);
                assert(registry@.take(i + 1)[j] == registry@[j]);
                assert(target[j] == spec_family(registry@[j].0, registry@[j].1));
                if j < i {
                    assert(families@[j] == prev[j]);
                    assert(prev.map_values(|f: MetricFamily| f@)[j] == prev[j]@);
                    assert(registry@.take(i as int)[j] == registry@[j]);
                    assert(spec_metric_set(registry@.take(i as int))[j] == spec_family(
                        registry@[j].0,
                        registry@[j].1,
                    ));
                } else {
                    assert(families@[j]@ == fam);
                }
            }
            assert(curm =~= target);
        }
    }
    proof {
        assert(registry@.take(n as int) =~= registry@);
    }
    MetricSet { metric_families: families }
}

/// Top-level encoding preserves registry order: the family at position `i` of
/// the output is the encoding of the entry registered at position `i`.
pub proof fn lemma_encode_preserves_order<M: EncodeMetric>(entries: Seq<(Descriptor, M)>, i: int)
    requires
        0 <= i < entries.len(),
    ensures
        spec_metric_set(entries).len() == entries.len(),
        spec_metric_set(entries)[i] == spec_family(entries[i].0, entries[i].1),
{
}

/// Reading is idempotent: two encodings of the same registry state, with no
/// mutation in between, are structurally identical documents.
pub proof fn lemma_encode_idempotent<M: EncodeMetric>(
    entries: Seq<(Descriptor, M)>,
    r1: MetricSet,
    r2: MetricSet,
)
    requires
        r1@ == spec_metric_set(entries),
        r2@ == spec_metric_set(entries),
    ensures
        r1@ == r2@,
{
}

/// Concatenation of label sequences cancels on the right: equal results under
/// one suffix come from equal prefixes.
proof fn lemma_concat_right_cancel(a: Seq<LabelV>, b: Seq<LabelV>, c: Seq<LabelV>)
    requires
        a + c == b + c,
    ensures
        a == b,
{
    assert((a + c).len() == a.len() + c.len());
    assert((b + c).len() == b.len() + c.len());
    assert(a.len() == b.len());
    assert forall|i: int| 0 <= i < a.len() implies a[i] == b[i] by {
        assert((a + c)[i] == a[i]);
        assert((b + c)[i] == b[i]);
    }
    assert(a =~= b);
}

/// In a counter family's encoding, entry `i` contributes exactly the data
/// point at position `i`: one point, labelled by the entry's own key labels
/// followed by the inherited labels, carrying the entry's total.
pub proof fn lemma_counter_family_points_structure<S: EncodeLabel>(
    entries: Seq<(S, Counter)>,
    prefix: Seq<LabelV>,
)
    ensures
        spec_family_points(entries, prefix).len() == entries.len(),
        forall|i: int| 0 <= i < entries.len() ==> #[trigger] spec_family_points(entries, prefix)[i]
            == entries[i].1.spec_encode(entries[i].0.spec_labels() + prefix)[0],
        forall|i: int| 0 <= i < entries.len() ==> #[trigger] spec_family_points(
            entries,
            prefix,
        )[i].labels == entries[i].0.spec_labels() + prefix,
    decreases entries.len(),
{
    if entries.len() > 0 {
        lemma_counter_family_points_structure(entries.drop_last(), prefix);
        assert forall|i: int| 0 <= i < entries.len() - 1 implies entries.drop_last()[i]
            == entries[i] by {}
    }
}

/// With distinct stored keys, a counter family's encoding never produces two
/// data points with the same key-derived labels: points of different entries
/// carry different label sets.
pub proof fn lemma_counter_family_points_distinct<S: EncodeLabel>(
    entries: Seq<(S, Counter)>,
    prefix: Seq<LabelV>,
)
    requires
        distinct_keys(entries),
    ensures
        spec_family_points(entries, prefix).len() == entries.len(),
        forall|i: int, j: int|
            0 <= i < entries.len() && 0 <= j < entries.len() && i != j
                ==> #[trigger] spec_family_points(entries, prefix)[i].labels
                != #[trigger] spec_family_points(entries, prefix)[j].labels,
{
    lemma_counter_family_points_structure(entries, prefix);
    assert forall|i: int, j: int|
        0 <= i < entries.len() && 0 <= j < entries.len() && i != j implies #[trigger] spec_family_points(
        entries,
        prefix,
    )[i].labels != #[trigger] spec_family_points(entries, prefix)[j].labels by {
        if spec_family_points(entries, prefix)[i].labels == spec_family_points(
            entries,
            prefix,
        )[j].labels {
            lemma_concat_right_cancel(
                entries[i].0.spec_labels(),
                entries[j].0.spec_labels(),
                prefix,
            );
        }
    }
}

/// A concrete metric kind behind one owning, type-erased handle.  The handle
/// forwards both capability calls unchanged, so erasing a kind changes no
/// encoded output.
pub enum ErasedMetric {
    Counter(Counter),
    CounterFamily(Family<Vec<(String, String)>, Counter, DefaultConstructor>),
}

impl EncodeMetric for ErasedMetric {
    open spec fn spec_metric_type(&self) -> MetricType {
        match self {
            ErasedMetric::Counter(c) => c.spec_metric_type(),
            ErasedMetric::CounterFamily(f) => f.spec_metric_type(),
        }
    }

    open spec fn spec_encode(&self, labels: Seq<LabelV>) -> Seq<MetricV> {
        match self {
            ErasedMetric::Counter(c) => c.spec_encode(labels),
            ErasedMetric::CounterFamily(f) => f.spec_encode(labels),
        }
    }

    fn metric_type(&self) -> (t: MetricType) {
        match self {
            ErasedMetric::Counter(c) => c.metric_type(),
            ErasedMetric::CounterFamily(f) => f.metric_type(),
        }
    }

    fn encode(&self, labels: Vec<Label>) -> (r: Vec<Metric>) {
        match self {
            ErasedMetric::Counter(c) => c.encode(labels),
            ErasedMetric::CounterFamily(f) => f.encode(labels),
        }
    }
}

impl<M: EncodeMetric> EncodeMetric for Box<M> {
    open spec fn spec_metric_type(&self) -> MetricType {
        (**self).spec_metric_type()
    }

    open spec fn spec_encode(&self, labels: Seq<LabelV>) -> Seq<MetricV> {
        (**self).spec_encode(labels)
    }

    fn metric_type(&self) -> (t: MetricType) {
        (**self).metric_type()
    }

    fn encode(&self, labels: Vec<Label>) -> (r: Vec<Metric>) {
        (**self).encode(labels)
    }
}

} // verus!
