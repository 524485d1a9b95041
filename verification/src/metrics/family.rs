//! A label-keyed metric family: a mapping from a label-set key to a lazily
//! constructed metric instance of one fixed kind.  Get-or-create constructs
//! each key's instance at most once; entries are never removed; encoding
//! walks every entry present, merging each key's labels with the inherited
//! ones.

use vstd::prelude::*;

use crate::encoding::{EncodeLabel, EncodeMetric};
use crate::exchange::{clone_labels, labels_view, lemma_labels_view_concat, lemma_metrics_view_concat, metrics_view, Label, LabelV, Metric, MetricV};
use crate::metrics::{MetricType, TypedMetric};

verus! {

/// Makes the metric instance stored for a freshly seen key.
pub trait MetricConstructor<M> {
    /// The instance this constructor makes.
    spec fn spec_new_metric(&self) -> M;

    fn new_metric(&self) -> (m: M)
        ensures
            m == self.spec_new_metric(),
    ;
}

/// The constructor used when none is supplied: it makes the metric kind's
/// default value.
#[derive(Clone, Copy, Debug)]
pub struct DefaultConstructor;

/// Whether some stored entry's key encodes to the labels `k`.
pub open spec fn has_key<S: EncodeLabel, M>(entries: Seq<(S, M)>, k: Seq<LabelV>) -> bool {
    exists|j: int| 0 <= j < entries.len() && #[trigger] entries[j].0.spec_labels() == k
}

/// The position of the first stored entry whose key encodes to `k`.
pub open spec fn key_index<S: EncodeLabel, M>(entries: Seq<(S, M)>, k: Seq<LabelV>) -> int
    decreases entries.len(),
{
    if entries.len() == 0 {
        0
    } else if entries[0].0.spec_labels() == k {
        0
    } else {
        1 + key_index(entries.drop_first(), k)
    }
}

/// Whether no two stored entries have keys that encode to the same labels.
pub open spec fn distinct_keys<S: EncodeLabel, M>(entries: Seq<(S, M)>) -> bool {
    forall|i: int, j: int|
        #![trigger entries[i].0.spec_labels(), entries[j].0.spec_labels()]
        0 <= i < entries.len() && 0 <= j < entries.len() && i != j
            ==> entries[i].0.spec_labels() != entries[j].0.spec_labels()
}

/// When an entry at `i` matches `k` and none before it does, `i` is the key's
/// index.
pub proof fn lemma_key_index_first<S: EncodeLabel, M>(entries: Seq<(S, M)>, k: Seq<LabelV>, i: int)
    requires
        0 <= i < entries.len(),
        entries[i].0.spec_labels() == k,
        forall|j: int| 0 <= j < i ==> #[trigger] entries[j].0.spec_labels() != k,
    ensures
        has_key(entries, k),
        key_index(entries, k) == i,
    decreases i,
{
    if i > 0 {
        assert(entries.drop_first()[i - 1] == entries[i]);
        assert forall|j: int| 0 <= j < i - 1 implies #[trigger] entries.drop_first()[j].0.spec_labels()
            != k by {
            assert(entries.drop_first()[j] == entries[j + 1]);
        }
        lemma_key_index_first(entries.drop_first(), k, i - 1);
    }
}

/// When some entry matches `k`, the key's index lies in range, points at a
/// matching entry, and no entry before it matches.
pub proof fn lemma_key_index_props<S: EncodeLabel, M>(entries: Seq<(S, M)>, k: Seq<LabelV>)
    requires
        has_key(entries, k),
    ensures
        0 <= key_index(entries, k) < entries.len(),
        entries[key_index(entries, k)].0.spec_labels() == k,
        forall|j: int| 0 <= j < key_index(entries, k) ==> #[trigger] entries[j].0.spec_labels() != k,
    decreases entries.len(),
{
    if entries[0].0.spec_labels() == k {
    } else {
        let jw = choose|j: int| 0 <= j < entries.len() && #[trigger] entries[j].0.spec_labels() == k;
        assert(entries.drop_first()[jw - 1] == entries[jw]);
        assert(has_key(entries.drop_first(), k));
        lemma_key_index_props(entries.drop_first(), k);
        let r = key_index(entries.drop_first(), k);
        assert(entries.drop_first()[r] == entries[r + 1]);
        assert forall|j: int| 0 <= j < r + 1 implies #[trigger] entries[j].0.spec_labels() != k by {
            if j > 0 {
                assert(entries.drop_first()[j - 1] == entries[j]);
            }
        }
    }
}

/// A mapping from a label-set key to a metric instance of kind `M`,
/// constructed on first access by the constructor `C`.  Its view is the entry
/// sequence in creation order.
pub struct Family<S, M, C = DefaultConstructor> {
    constructor: C,
    entries: Vec<(S, M)>,
}

impl<S, M, C> View for Family<S, M, C> {
    type V = Seq<(S, M)>;

    closed spec fn view(&self) -> Seq<(S, M)> {
        self.entries@
    }
}

impl<S, M, C> Family<S, M, C> {
    /// The constructor this family makes fresh instances with.
    pub closed spec fn spec_constructor(&self) -> C {
        self.constructor
    }

    /// An empty family that constructs instances with `constructor`.
    pub fn new_with_constructor(constructor: C) -> (r: Self)
        ensures
            r@ == Seq::<(S, M)>::empty(),
            r.spec_constructor() == constructor,
    {
        Family { constructor, entries: Vec::new() }
    }
}

impl<S, M> Default for Family<S, M, DefaultConstructor> {
    /// An empty family whose instances are the metric kind's default value.
    fn default() -> (r: Self)
        ensures
            r@ == Seq::<(S, M)>::empty(),
            r.spec_constructor() == DefaultConstructor,
    {
        Family { constructor: DefaultConstructor, entries: Vec::new() }
    }
}

impl<S: EncodeLabel, M, C: MetricConstructor<M>> Family<S, M, C> {
    /// The position of the first entry whose key compares equal to `key`, if
    /// any entry does.
    fn find(&self, key: &S) -> (r: Option<usize>)
        ensures
            match r {
                Some(i) => has_key(self@, key.spec_labels()) && i == key_index(
                    self@,
                    key.spec_labels(),
                ),
                None => !has_key(self@, key.spec_labels()),
            },
    {
        let n = self.entries.len();
        for i in 0..n
            invariant
                n == self@.len(),
                forall|j: int| 0 <= j < i ==> #[trigger] self@[j].0.spec_labels()
                    != key.spec_labels(),
        {
            if self.entries[i].0.label_eq(key) {
                proof {
                    lemma_key_index_first(self@, key.spec_labels(), i as int);
                }
                return Some(i);
            }
        }
        None
    }

    /// Returns the instance stored under the first key that compares equal to
    /// `key`; when there is none, constructs one, stores it under `key` at the
    /// end, and returns it.  Exactly one instance ever exists per distinct
    /// key.
    pub fn get_or_create(&mut self, key: S) -> (m: &mut M)
        ensures
            has_key(old(self)@, key.spec_labels()) ==> {
                let i = key_index(old(self)@, key.spec_labels());
                &&& *m == old(self)@[i].1
                &&& final(self)@ == old(self)@.update(i, (old(self)@[i].0, *final(m)))
            },
            !has_key(old(self)@, key.spec_labels()) ==> {
                &&& *m == old(self).spec_constructor().spec_new_metric()
                &&& final(self)@ == old(self)@.push((key, *final(m)))
            },
            final(self).spec_constructor() == old(self).spec_constructor(),
    {
        let idx: usize;
        match self.find(&key) {
            Some(i) => {
                proof {
                    lemma_key_index_props(self@, key.spec_labels());
                }
                idx = i;
            },
            None => {
                let metric = self.constructor.new_metric();
                self.entries.push((key, metric));
                idx = self.entries.len() - 1;
                proof {
                    let cur = self.entries@;
                    assert forall|x: (S, M)| #[trigger] cur.update(cur.len() - 1, x) =~= cur
                        .drop_last().push(x) by {}
                }
            },
        }
        let pair = &mut self.entries[idx];
        &mut pair.1
    }
}

/// The data points of a family: for each entry in order, the entry's own
/// points under its key's labels followed by the inherited labels, all
/// concatenated.
pub open spec fn spec_family_points<S: EncodeLabel, M: EncodeMetric>(
    entries: Seq<(S, M)>,
    labels: Seq<LabelV>,
) -> Seq<MetricV>
    decreases entries.len(),
{
    if entries.len() == 0 {
        Seq::empty()
    } else {
        spec_family_points(entries.drop_last(), labels) + entries.last().1.spec_encode(
            entries.last().0.spec_labels() + labels,
        )
    }
}

impl<S, M, C> EncodeMetric for Family<S, M, C> where
    S: EncodeLabel,
    M: EncodeMetric + TypedMetric,
    C: MetricConstructor<M>,
 {
    /// A family's type is the fixed type of its metric kind, never
    /// data-dependent.
    open spec fn spec_metric_type(&self) -> MetricType {
        M::spec_static_type()
    }

    open spec fn spec_encode(&self, labels: Seq<LabelV>) -> Seq<MetricV> {
        spec_family_points(self@, labels)
    }

    fn metric_type(&self) -> (t: MetricType) {
        M::static_type()
    }

    fn encode(&self, labels: Vec<Label>) -> (r: Vec<Metric>) {
        let mut metrics: Vec<Metric> = Vec::new();
        let n = self.entries.len();
        for i in 0..n
            invariant
                n == self@.len(),
                metrics_view(metrics@) == spec_family_points(
                    self@.take(i as int),
                    labels_view(labels@),
                ),
        {
            let pair = &self.entries[i];
            let mut label = pair.0.encode();
            let mut tail = clone_labels(&labels);
            let ghost own_labels = label@;
            label.append(&mut tail);
            proof {
                lemma_labels_view_concat(own_labels, labels@);
            }
            let mut encoded = pair.1.encode(label);
            let ghost done = metrics@;
            let ghost piece = encoded@;
            metrics.append(&mut encoded);
            proof {
                lemma_metrics_view_concat(done, piece);
                assert(self@.take(i + 1).drop_last() =~= self@.take(i as int));
                assert(self@.take(i + 1).last() == self@[i as int]);
                assert(metrics_view(metrics@) =~= spec_family_points(
                    self@.take(i + 1),
                    labels_view(labels@),
                ));
            }
        }
        proof {
            assert(self@.take(n as int) =~= self@);
        }
        metrics
    }
}

/// Get-or-create is identity-stable: after one call with `k1`, a second call
/// with `k2` that compares equal finds the entry the first call used, at the
/// same position, and creates nothing.
pub proof fn lemma_get_or_create_stable<S: EncodeLabel, M>(
    entries: Seq<(S, M)>,
    k1: S,
    k2: S,
    made: M,
)
    requires
        k1.spec_labels() == k2.spec_labels(),
    ensures
        ({
            let after = if has_key(entries, k1.spec_labels()) {
                entries
            } else {
                entries.push((k1, made))
            };
            let slot = if has_key(entries, k1.spec_labels()) {
                key_index(entries, k1.spec_labels())
            } else {
                entries.len() as int
            };
            &&& has_key(after, k2.spec_labels())
            &&& key_index(after, k2.spec_labels()) == slot
            &&& after[slot].0.spec_labels() == k2.spec_labels()
        }),
{
    if has_key(entries, k1.spec_labels()) {
        lemma_key_index_props(entries, k1.spec_labels());
    } else {
        let after = entries.push((k1, made));
        assert(after[entries.len() as int].0.spec_labels() == k2.spec_labels());
        assert forall|j: int| 0 <= j < entries.len() implies #[trigger] after[j].0.spec_labels()
            != k2.spec_labels() by {
            assert(after[j] == entries[j]);
        }
        lemma_key_index_first(after, k2.spec_labels(), entries.len() as int);
    }
}

/// Storing a fresh key keeps stored keys distinct.
pub proof fn lemma_get_or_create_distinct<S: EncodeLabel, M>(entries: Seq<(S, M)>, key: S, made: M)
    requires
        distinct_keys(entries),
        !has_key(entries, key.spec_labels()),
    ensures
        distinct_keys(entries.push((key, made))),
{
    let after = entries.push((key, made));
    assert forall|i: int, j: int|
        #![trigger after[i].0.spec_labels(), after[j].0.spec_labels()]
        0 <= i < after.len() && 0 <= j < after.len() && i != j implies after[i].0.spec_labels()
        != after[j].0.spec_labels() by {
        if i < entries.len() && j < entries.len() {
            assert(after[i] == entries[i]);
            assert(after[j] == entries[j]);
        } else if i < entries.len() {
            assert(after[i] == entries[i]);
            assert(entries[i].0.spec_labels() != key.spec_labels());
        } else {
            assert(after[j] == entries[j]);
            assert(entries[j].0.spec_labels() != key.spec_labels());
        }
    }
}

/// Replacing an entry's metric, key kept, keeps stored keys distinct.
pub proof fn lemma_distinct_keys_update<S: EncodeLabel, M>(entries: Seq<(S, M)>, i: int, m2: M)
    requires
        distinct_keys(entries),
        0 <= i < entries.len(),
    ensures
        distinct_keys(entries.update(i, (entries[i].0, m2))),
{
    let after = entries.update(i, (entries[i].0, m2));
    assert forall|p: int, q: int|
        #![trigger after[p].0.spec_labels(), after[q].0.spec_labels()]
        0 <= p < after.len() && 0 <= q < after.len() && p != q implies after[p].0.spec_labels()
        != after[q].0.spec_labels() by {
        assert(after[p].0 == entries[p].0);
        assert(after[q].0 == entries[q].0);
    }
}

} // verus!
