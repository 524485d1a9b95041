//! The registry: an ordered collection of registered metrics, each under an
//! immutable descriptor (name, help, optional unit, static labels).  The
//! encoder walks entries in registration order; sub-scopes contribute static
//! labels to every descriptor registered beneath them.

use vstd::prelude::*;

verus! {

/// A physical unit attached to a metric family, optional per family.
#[derive(Debug, PartialEq)]
pub enum Unit {
    Amperes,
    Bytes,
    Celsius,
    Grams,
    Joules,
    Meters,
    Ratios,
    Seconds,
    Volts,
    Other(String),
}

/// The canonical exchange-format text of a unit: a fixed lowercase word, or
/// the literal text of an `Other` unit.
pub open spec fn spec_unit_string(u: Unit) -> Seq<char> {
    match u {
        Unit::Amperes => "amperes"@,
        Unit::Bytes => "bytes"@,
        Unit::Celsius => "celsius"@,
        Unit::Grams => "grams"@,
        Unit::Joules => "joules"@,
        Unit::Meters => "meters"@,
        Unit::Ratios => "ratios"@,
        Unit::Seconds => "seconds"@,
        Unit::Volts => "volts"@,
        Unit::Other(s) => s@,
    }
}

pub fn unit_string(u: &Unit) -> (r: String)
    ensures
        r@ == spec_unit_string(*u),
{
    match u {
        Unit::Amperes => "amperes".to_owned(),
        Unit::Bytes => "bytes".to_owned(),
        Unit::Celsius => "celsius".to_owned(),
        Unit::Grams => "grams".to_owned(),
        Unit::Joules => "joules".to_owned(),
        Unit::Meters => "meters".to_owned(),
        Unit::Ratios => "ratios".to_owned(),
        Unit::Seconds => "seconds".to_owned(),
        Unit::Volts => "volts".to_owned(),
        Unit::Other(s) => s.clone(),
    }
}

/// Immutable metadata for one registered metric: required name and help, an
/// optional unit, and the static labels contributed by the registry path.
#[derive(Debug)]
pub struct Descriptor {
    pub name: String,
    pub help: String,
    pub unit: Option<Unit>,
    pub labels: Vec<(String, String)>,
}

impl Descriptor {
    pub fn name(&self) -> (r: &str)
        ensures
            r@ == self.name@,
    {
        self.name.as_str()
    }

    pub fn help(&self) -> (r: &str)
        ensures
            r@ == self.help@,
    {
        self.help.as_str()
    }

    pub fn unit(&self) -> (r: &Option<Unit>)
        ensures
            *r == self.unit,
    {
        &self.unit
    }

    pub fn labels(&self) -> (r: &Vec<(String, String)>)
        ensures
            *r == self.labels,
    {
        &self.labels
    }
}

/// The models of a sequence of name/value string pairs.
pub open spec fn pairs_view(s: Seq<(String, String)>) -> Seq<(Seq<char>, Seq<char>)> {
    s.map_values(|p: (String, String)| (p.0@, p.1@))
}

/// Clones a list of name/value pairs; the copy holds the same pairs.
fn clone_pairs(v: &Vec<(String, String)>) -> (r: Vec<(String, String)>)
    ensures
        r@ == v@,
{
    let mut r: Vec<(String, String)> = Vec::new();
    let n = v.len();
    for i in 0..n
        invariant
            n == v@.len(),
            r@ == v@.take(i as int),
    {
        let p = &v[i];
        r.push((p.0.clone(), p.1.clone()));
        proof {
            assert(v@.take(i + 1).drop_last() =~= v@.take(i as int));
            assert(r@ =~= v@.take(i + 1));
        }
    }
    proof {
        assert(v@.take(n as int) =~= v@);
    }
    r
}

/// An ordered collection of `(Descriptor, metric)` entries.  Its view is the
/// entry sequence in registration order; the scope's own static labels are
/// stamped onto every descriptor registered through it.
pub struct Registry<M> {
    labels: Vec<(String, String)>,
    entries: Vec<(Descriptor, M)>,
}

impl<M> View for Registry<M> {
    type V = Seq<(Descriptor, M)>;

    closed spec fn view(&self) -> Seq<(Descriptor, M)> {
        self.entries@
    }
}

impl<M> Registry<M> {
    /// The static labels this scope stamps onto new descriptors.
    pub closed spec fn spec_scope_labels(&self) -> Seq<(Seq<char>, Seq<char>)> {
        pairs_view(self.labels@)
    }

    pub fn new() -> (r: Self)
        ensures
            r@ == Seq::<(Descriptor, M)>::empty(),
            r.spec_scope_labels() == Seq::<(Seq<char>, Seq<char>)>::empty(),
    {
        let r = Registry { labels: Vec::new(), entries: Vec::new() };
        proof {
            assert(r.spec_scope_labels() =~= Seq::<(Seq<char>, Seq<char>)>::empty());
        }
        r
    }

    /// Registers a metric under `name` and `help` with no unit; the new entry
    /// is appended, carrying this scope's static labels.
    pub fn register(&mut self, name: &str, help: &str, metric: M)
        ensures
            final(self)@.len() == old(self)@.len() + 1,
            forall|i: int| 0 <= i < old(self)@.len() ==> final(self)@[i] == old(self)@[i],
            final(self)@.last().0.name@ == name@,
            final(self)@.last().0.help@ == help@,
            final(self)@.last().0.unit == None::<Unit>,
            pairs_view(final(self)@.last().0.labels@) == old(self).spec_scope_labels(),
            final(self)@.last().0.labels@.len() == old(self).spec_scope_labels().len(),
            final(self)@.last().1 == metric,
            final(self).spec_scope_labels() == old(self).spec_scope_labels(),
    {
        let descriptor = Descriptor {
            name: name.to_owned(),
            help: help.to_owned(),
            unit: None,
            labels: clone_pairs(&self.labels),
        };
        self.entries.push((descriptor, metric));
    }

    /// Registers a metric as `register` does, with a unit.
    pub fn register_with_unit(&mut self, name: &str, help: &str, unit: Unit, metric: M)
        ensures
            final(self)@.len() == old(self)@.len() + 1,
            forall|i: int| 0 <= i < old(self)@.len() ==> final(self)@[i] == old(self)@[i],
            final(self)@.last().0.name@ == name@,
            final(self)@.last().0.help@ == help@,
            final(self)@.last().0.unit == Some(unit),
            pairs_view(final(self)@.last().0.labels@) == old(self).spec_scope_labels(),
            final(self)@.last().0.labels@.len() == old(self).spec_scope_labels().len(),
            final(self)@.last().1 == metric,
            final(self).spec_scope_labels() == old(self).spec_scope_labels(),
    {
        let descriptor = Descriptor {
            name: name.to_owned(),
            help: help.to_owned(),
            unit: Some(unit),
            labels: clone_pairs(&self.labels),
        };
        self.entries.push((descriptor, metric));
    }

    /// Opens an empty sub-scope whose static labels are this scope's labels
    /// followed by `label`.  Entries registered in the sub-scope join this
    /// registry when the sub-scope is attached back.
    pub fn sub_registry_with_label(&self, label: (String, String)) -> (sub: Registry<M>)
        ensures
            sub@ == Seq::<(Descriptor, M)>::empty(),
            sub.spec_scope_labels() == self.spec_scope_labels().push((label.0@, label.1@)),
    {
        let mut labels = clone_pairs(&self.labels);
        labels.push(label);
        let sub = Registry { labels, entries: Vec::new() };
        proof {
            assert(sub.spec_scope_labels() =~= self.spec_scope_labels().push((label.0@, label.1@)));
        }
        sub
    }

    /// Appends a sub-scope's entries, in their registration order, after this
    /// registry's own entries.
    pub fn attach(&mut self, sub: Registry<M>)
        ensures
            final(self)@ == old(self)@ + sub@,
            final(self).spec_scope_labels() == old(self).spec_scope_labels(),
    {
        let mut sub = sub;
        self.entries.append(&mut sub.entries);
    }

    pub fn len(&self) -> (n: usize)
        ensures
            n == self@.len(),
    {
        self.entries.len()
    }

    /// The entry at position `i` in registration order.
    pub fn entry(&self, i: usize) -> (e: &(Descriptor, M))
        requires
            i < self@.len(),
        ensures
            *e == self@[i as int],
    {
        &self.entries[i]
    }
}

impl<M> Default for Registry<M> {
    /// An empty registry with no scope labels.
    fn default() -> (r: Self)
        ensures
            r@ == Seq::<(Descriptor, M)>::empty(),
            r.spec_scope_labels() == Seq::<(Seq<char>, Seq<char>)>::empty(),
    {
        Registry::new()
    }
}

} // verus!
