//! The metric families of the `prometheus` crate. Contracts here are believed,
//! not proved.
//!
//! A family holds one sample per combination of label values. The crate shares
//! the samples between the family and the registry it is registered with, so a
//! registry and its families are modelled as one collection.

use crate::hashing;
use crate::text;
use std::collections::HashMap;
use vstd::prelude::*;

verus! {

/// The kinds of families.
#[derive(Debug, Clone, Copy, PartialEq, Eq, Structural)]
pub enum Kind {
    /// An integer that goes up and down.
    Gauge,
    /// A decimal number that goes up and down.
    DecimalGauge,
    /// A count of events.
    Counter,
}

/// The value of a sample.
#[verifier::ext_equal]
pub enum ValueView {
    Whole(int),
    /// The double that is closest to the decimal number that the text writes.
    Decimal(Seq<char>),
}

/// A sample: its label values, in the order of the label names, and its value.
#[verifier::ext_equal]
pub struct SampleView {
    pub labels: Seq<Seq<char>>,
    pub value: ValueView,
}

/// A family: what it was made with, and its samples. A sample is kept under the
/// hash of its label values.
#[verifier::ext_equal]
pub struct FamilyView {
    pub kind: Kind,
    pub help: Seq<char>,
    pub labels: Seq<Seq<char>>,
    pub samples: Map<u64, SampleView>,
}

/// Families by name.
pub type FamiliesView = Map<Seq<char>, FamilyView>;

/// The views of a sequence of texts.
pub open spec fn views(texts: Seq<&str>) -> Seq<Seq<char>> {
    Seq::new(texts.len(), |i: int| texts[i]@)
}

/// Texts put together without a separator.
pub open spec fn joined(texts: Seq<Seq<char>>) -> Seq<char>
    decreases texts.len(),
{
    if texts.len() == 0 {
        Seq::empty()
    } else {
        joined(texts.drop_last()) + texts.last()
    }
}

/// A letter or an underscore.
pub open spec fn is_name_start(c: char) -> bool {
    ('a' <= c && c <= 'z') || ('A' <= c && c <= 'Z') || c == '_'
}

/// The text is an identifier of letters, digits and underscores that does not
/// start with a digit.
pub open spec fn is_label_name(s: Seq<char>) -> bool {
    &&& s.len() > 0
    &&& forall|i: int|
        0 <= i < s.len() ==> is_name_start(#[trigger] s[i]) || (i > 0 && text::is_digit(s[i]))
}

/// The text is an identifier that may also hold colons.
pub open spec fn is_metric_name(s: Seq<char>) -> bool {
    &&& s.len() > 0
    &&& forall|i: int|
        0 <= i < s.len() ==> is_name_start(#[trigger] s[i]) || s[i] == ':' || (i > 0
            && text::is_digit(s[i]))
}

/// A family can be made with this name, this help text and these label names.
pub open spec fn is_description(
    name: Seq<char>,
    help: Seq<char>,
    labels: Seq<Seq<char>>,
) -> bool {
    &&& help.len() > 0
    &&& is_metric_name(name)
    &&& forall|i: int| 0 <= i < labels.len() ==> is_label_name(#[trigger] labels[i])
    &&& forall|i: int, j: int|
        0 <= i < j < labels.len() ==> (#[trigger] labels[i]) != (#[trigger] labels[j])
}

/// The identifier that a registry knows a family by: the hash of its name and
/// the byte 0xff.
pub open spec fn family_id(name: Seq<char>) -> u64 {
    hashing::fnv1a(vstd::utf8::encode_utf8(name).push(0xff))
}

/// The key that a family keeps a sample under: the hash of the label values, put
/// together without a separator.
pub open spec fn label_hash(joined: Seq<char>) -> u64 {
    hashing::fnv1a(vstd::utf8::encode_utf8(joined))
}

impl FamilyView {
    /// A family without samples.
    pub open spec fn fresh(kind: Kind, help: Seq<char>, labels: Seq<Seq<char>>) -> Self {
        FamilyView { kind, help, labels, samples: Map::empty() }
    }

    /// The family with a value for the given label values, under the given key.
    /// Where the key is taken, its sample keeps its labels.
    pub open spec fn put(self, key: u64, values: Seq<Seq<char>>, value: ValueView) -> Self {
        let labels = if self.samples.contains_key(key) {
            self.samples[key].labels
        } else {
            values
        };
        FamilyView { samples: self.samples.insert(key, SampleView { labels, value }), ..self }
    }

    /// What the sample under the key has counted.
    pub open spec fn count(self, key: u64) -> int {
        if self.samples.contains_key(key) {
            match self.samples[key].value {
                ValueView::Whole(n) => n,
                ValueView::Decimal(_) => 0,
            }
        } else {
            0
        }
    }

    /// The family with one more event counted for the given label values, under
    /// the given key. The count starts again at zero behind the largest `u64`.
    pub open spec fn counted(self, key: u64, values: Seq<Seq<char>>) -> Self {
        let n = self.count(key);
        self.put(
            key,
            values,
            ValueView::Whole(
                if n >= u64::MAX {
                    0
                } else {
                    n + 1
                },
            ),
        )
    }
}

/// No family has the given identifier.
pub open spec fn is_free(families: FamiliesView, id: u64) -> bool {
    forall|other: Seq<char>| #[trigger] families.contains_key(other) ==> family_id(other) != id
}

/// No family has a sample.
pub open spec fn no_samples(families: FamiliesView) -> bool {
    forall|name: Seq<char>| #[trigger]
        families.contains_key(name) ==> families[name].samples == Map::<u64, SampleView>::empty()
}

/// Digits, a dot, and more digits.
pub open spec fn is_decimal(s: Seq<char>) -> bool {
    exists|dot: int| #[trigger] is_decimal_at(s, dot)
}

/// Digits up to the dot at the given position, and more digits behind it.
pub open spec fn is_decimal_at(s: Seq<char>, dot: int) -> bool {
    &&& 0 < dot < s.len() - 1
    &&& s[dot] == '.'
    &&& forall|i: int| 0 <= i < s.len() && i != dot ==> text::is_digit(#[trigger] s[i])
}

/// `prometheus::Error`.
#[verifier::external_type_specification]
#[verifier::external_body]
pub struct ExPrometheusError(prometheus::Error);

/// `prometheus::Registry`.
#[verifier::external_type_specification]
#[verifier::external_body]
pub struct ExRegistry(prometheus::Registry);

/// A registry with the families registered with it.
#[verifier::external_body]
pub struct FamilySet {
    registry: prometheus::Registry,
    gauges: HashMap<String, prometheus::IntGaugeVec>,
    decimal_gauges: HashMap<String, prometheus::GaugeVec>,
    counters: HashMap<String, prometheus::IntCounterVec>,
}

/// What a set of families holds.
pub uninterp spec fn families(set: FamilySet) -> FamiliesView;

/// What a registry holds.
pub uninterp spec fn registered(registry: prometheus::Registry) -> FamiliesView;

/// Families in the text format, as UTF-8.
pub uninterp spec fn exposition(families: FamiliesView) -> Seq<u8>;

impl FamilySet {
    /// `prometheus::Registry::new`: a registry without families.
    #[verifier::external_body]
    pub(crate) fn empty() -> (r: Self)
        ensures
            families(r) == FamiliesView::empty(),
    {
        FamilySet {
            registry: prometheus::Registry::new(),
            gauges: HashMap::new(),
            decimal_gauges: HashMap::new(),
            counters: HashMap::new(),
        }
    }

    /// `prometheus::IntGaugeVec::new`, then `prometheus::Registry::register`: makes a
    /// family without samples and registers it. Making it fails exactly where
    /// the help text is empty, the name or a label name is not valid, or a label
    /// name stands twice; registering it fails exactly where its identifier is
    /// taken. A failure leaves the set as it was.
    #[verifier::external_body]
    pub(crate) fn add_gauge(&mut self, name: &str, help: &str, labels: &[&str]) -> (r: Result<
        (),
        prometheus::Error,
    >)
        ensures
            r is Ok <==> is_description(name@, help@, views(labels@)) && is_free(
                families(*old(self)),
                family_id(name@),
            ),
            families(*final(self)) == if r is Ok {
                families(*old(self)).insert(
                    name@,
                    FamilyView::fresh(Kind::Gauge, help@, views(labels@)),
                )
            } else {
                families(*old(self))
            },
    {
        let family = prometheus::IntGaugeVec::new(prometheus::Opts::new(name, help), labels)?;
        self.registry.register(Box::new(family.clone()))?;
        self.gauges.insert(name.to_owned(), family);
        Ok(())
    }

    /// `prometheus::GaugeVec::new`, then `prometheus::Registry::register`, as for
    /// [`FamilySet::add_gauge`].
    #[verifier::external_body]
    pub(crate) fn add_decimal_gauge(&mut self, name: &str, help: &str, labels: &[&str]) -> (r:
        Result<(), prometheus::Error>)
        ensures
            r is Ok <==> is_description(name@, help@, views(labels@)) && is_free(
                families(*old(self)),
                family_id(name@),
            ),
            families(*final(self)) == if r is Ok {
                families(*old(self)).insert(
                    name@,
                    FamilyView::fresh(Kind::DecimalGauge, help@, views(labels@)),
                )
            } else {
                families(*old(self))
            },
    {
        let family = prometheus::GaugeVec::new(prometheus::Opts::new(name, help), labels)?;
        self.registry.register(Box::new(family.clone()))?;
        self.decimal_gauges.insert(name.to_owned(), family);
        Ok(())
    }

    /// `prometheus::IntCounterVec::new`, then `prometheus::Registry::register`, as for
    /// [`FamilySet::add_gauge`].
    #[verifier::external_body]
    pub(crate) fn add_counter(&mut self, name: &str, help: &str, labels: &[&str]) -> (r: Result<
        (),
        prometheus::Error,
    >)
        ensures
            r is Ok <==> is_description(name@, help@, views(labels@)) && is_free(
                families(*old(self)),
                family_id(name@),
            ),
            families(*final(self)) == if r is Ok {
                families(*old(self)).insert(
                    name@,
                    FamilyView::fresh(Kind::Counter, help@, views(labels@)),
                )
            } else {
                families(*old(self))
            },
    {
        let family = prometheus::IntCounterVec::new(prometheus::Opts::new(name, help), labels)?;
        self.registry.register(Box::new(family.clone()))?;
        self.counters.insert(name.to_owned(), family);
        Ok(())
    }

    /// `prometheus::IntGaugeVec::with_label_values` and `IntGauge::set`: finds the
    /// sample under the hash of the label values, makes one with these labels
    /// where there is none, and sets its value.
    #[verifier::external_body]
    pub(crate) fn set_gauge(&mut self, name: &str, values: &[&str], value: i64)
        requires
            families(*old(self)).contains_key(name@),
            families(*old(self))[name@].kind == Kind::Gauge,
            values@.len() == families(*old(self))[name@].labels.len(),
        ensures
            families(*final(self)) == families(*old(self)).insert(
                name@,
                families(*old(self))[name@].put(
                    label_hash(joined(views(values@))),
                    views(values@),
                    ValueView::Whole(value as int),
                ),
            ),
    {
        self.gauges[name].with_label_values(values).set(value);
    }

    /// `prometheus::GaugeVec::with_label_values` and `Gauge::set`, as for
    /// [`FamilySet::set_gauge`], with the double that `str::parse` reads from the
    /// decimal number: the closest one.
    #[verifier::external_body]
    pub(crate) fn set_decimal_gauge(&mut self, name: &str, values: &[&str], value: &str)
        requires
            families(*old(self)).contains_key(name@),
            families(*old(self))[name@].kind == Kind::DecimalGauge,
            values@.len() == families(*old(self))[name@].labels.len(),
            is_decimal(value@),
        ensures
            families(*final(self)) == families(*old(self)).insert(
                name@,
                families(*old(self))[name@].put(
                    label_hash(joined(views(values@))),
                    views(values@),
                    ValueView::Decimal(value@),
                ),
            ),
    {
        let number = value.parse().expect("a decimal number");
        self.decimal_gauges[name].with_label_values(values).set(number);
    }

    /// `prometheus::IntCounterVec::with_label_values` and `IntCounter::inc`: finds the
    /// sample under the hash of the label values, makes one at zero with these
    /// labels where there is none, and adds one.
    #[verifier::external_body]
    pub(crate) fn count(&mut self, name: &str, values: &[&str])
        requires
            families(*old(self)).contains_key(name@),
            families(*old(self))[name@].kind == Kind::Counter,
            values@.len() == families(*old(self))[name@].labels.len(),
        ensures
            families(*final(self)) == families(*old(self)).insert(
                name@,
                families(*old(self))[name@].counted(
                    label_hash(joined(views(values@))),
                    views(values@),
                ),
            ),
    {
        self.counters[name].with_label_values(values).inc();
    }

    /// `prometheus::Registry::gather` and `prometheus::TextEncoder::encode`: writes the
    /// families that have samples, sorted by name, and their samples sorted by
    /// label values. Families without samples leave no trace. Writing to memory
    /// does not fail.
    #[verifier::external_body]
    pub(crate) fn encode_text(&self) -> (r: Result<Vec<u8>, prometheus::Error>)
        ensures
            r is Ok,
            r->Ok_0@ == exposition(families(*self)),
            no_samples(families(*self)) ==> r->Ok_0@.len() == 0,
    {
        let mut buffer = Vec::new();
        let encoder = prometheus::TextEncoder::new();
        prometheus::Encoder::encode(&encoder, &self.registry.gather(), &mut buffer)?;
        Ok(buffer)
    }

    /// Hands out the `prometheus::Registry` that the families are registered with.
    #[verifier::external_body]
    pub(crate) fn registry(&self) -> (r: &prometheus::Registry)
        ensures
            registered(*r) == families(*self),
    {
        &self.registry
    }
}

} // verus!
