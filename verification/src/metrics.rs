//! The metrics that the collector exposes.
//!
//! | Metric | Type | Labels |
//! |--------|------|--------|
//! | `flexlm_feature_total` | gauge | server, feature, vendor |
//! | `flexlm_feature_used` | gauge | server, feature, vendor |
//! | `flexlm_feature_idle` | gauge | server, feature, vendor |
//! | `flexlm_feature_users` | gauge | server, feature |
//! | `flexlm_server_status` | gauge | server, host, port |
//! | `flexlm_server_features_total` | gauge | server |
//! | `flexlm_scrape_duration_seconds` | gauge | server |
//! | `flexlm_scrape_total` | counter | server, status |

use crate::families::{self, FamiliesView, FamilySet, FamilyView, Kind, ValueView};
use crate::hashing;
use crate::outside;
use crate::text;
use vstd::prelude::*;
use vstd::string::*;

verus! {

/// The content type of the text format.
pub const METRICS_CONTENT_TYPE: &'static str = "text/plain; version=0.0.4; charset=utf-8";

pub const FEATURE_TOTAL: &'static str = "flexlm_feature_total";

pub const FEATURE_USED: &'static str = "flexlm_feature_used";

pub const FEATURE_IDLE: &'static str = "flexlm_feature_idle";

pub const FEATURE_USERS: &'static str = "flexlm_feature_users";

pub const SERVER_STATUS: &'static str = "flexlm_server_status";

pub const SERVER_FEATURES_TOTAL: &'static str = "flexlm_server_features_total";

pub const SCRAPE_DURATION: &'static str = "flexlm_scrape_duration_seconds";

pub const SCRAPE_TOTAL: &'static str = "flexlm_scrape_total";

/// Why the metrics could not be set up: the family that was refused, and the
/// cause.
#[derive(Debug)]
pub struct MetricsError {
    pub family: String,
    pub cause: prometheus::Error,
}

/// The metrics of the collector, in a registry of their own.
pub struct Metrics {
    families: FamilySet,
}

/// How a family is made.
#[verifier::ext_equal]
pub struct Definition {
    pub name: Seq<char>,
    pub kind: Kind,
    pub help: Seq<char>,
    pub labels: Seq<Seq<char>>,
}

/// The families of the collector, in the order in which they are registered.
pub open spec fn definitions() -> Seq<Definition> {
    let feature_labels = seq!["server"@, "feature"@, "vendor"@];
    seq![
        Definition {
            name: FEATURE_TOTAL@,
            kind: Kind::Gauge,
            help: "Total licenses issued for this feature"@,
            labels: feature_labels,
        },
        Definition {
            name: FEATURE_USED@,
            kind: Kind::Gauge,
            help: "Licenses currently in use for this feature"@,
            labels: feature_labels,
        },
        Definition {
            name: FEATURE_IDLE@,
            kind: Kind::Gauge,
            help: "Licenses idle (total - used) for this feature"@,
            labels: feature_labels,
        },
        Definition {
            name: FEATURE_USERS@,
            kind: Kind::Gauge,
            help: "Number of distinct users holding this feature"@,
            labels: seq!["server"@, "feature"@],
        },
        Definition {
            name: SERVER_STATUS@,
            kind: Kind::Gauge,
            help: "License server reachability (1=UP, 0=DOWN/UNKNOWN)"@,
            labels: seq!["server"@, "host"@, "port"@],
        },
        Definition {
            name: SERVER_FEATURES_TOTAL@,
            kind: Kind::Gauge,
            help: "Total number of monitored features on this server"@,
            labels: seq!["server"@],
        },
        Definition {
            name: SCRAPE_DURATION@,
            kind: Kind::DecimalGauge,
            help: "Time spent collecting license data from lmutil"@,
            labels: seq!["server"@],
        },
        Definition {
            name: SCRAPE_TOTAL@,
            kind: Kind::Counter,
            help: "Total number of scrape attempts"@,
            labels: seq!["server"@, "status"@],
        },
    ]
}

/// The families of the given definitions, without samples.
pub open spec fn defined(definitions: Seq<Definition>) -> FamiliesView
    decreases definitions.len(),
{
    if definitions.len() == 0 {
        Map::empty()
    } else {
        let last = definitions.last();
        defined(definitions.drop_last()).insert(
            last.name,
            FamilyView::fresh(last.kind, last.help, last.labels),
        )
    }
}

/// No two definitions have the same identifier.
pub open spec fn ids_distinct(definitions: Seq<Definition>) -> bool {
    forall|i: int, j: int|
        0 <= i < j < definitions.len() ==> families::family_id(
            (#[trigger] definitions[i]).name,
        ) != families::family_id((#[trigger] definitions[j]).name)
}

/// The families hold one that was made by the definition.
pub open spec fn has_family(families: FamiliesView, definition: Definition) -> bool {
    &&& families.contains_key(definition.name)
    &&& families[definition.name].kind == definition.kind
    &&& families[definition.name].help == definition.help
    &&& families[definition.name].labels == definition.labels
}

/// The families hold those of the collector.
pub open spec fn has_all(families: FamiliesView) -> bool {
    forall|i: int|
        0 <= i < definitions().len() ==> has_family(families, #[trigger] definitions()[i])
}

/// A name is defined exactly where a definition has it.
proof fn lemma_defined(definitions: Seq<Definition>, name: Seq<char>)
    ensures
        defined(definitions).contains_key(name) <==> exists|i: int|
            0 <= i < definitions.len() && (#[trigger] definitions[i]).name == name,
    decreases definitions.len(),
{
    if definitions.len() > 0 {
        lemma_defined(definitions.drop_last(), name);
        if defined(definitions.drop_last()).contains_key(name) {
            let i = choose|i: int|
                0 <= i < definitions.drop_last().len() && (
                #[trigger] definitions.drop_last()[i]).name == name;
            assert(definitions[i].name == name);
        }
        if exists|i: int| 0 <= i < definitions.len() && (#[trigger] definitions[i]).name == name {
            let i = choose|i: int|
                0 <= i < definitions.len() && (#[trigger] definitions[i]).name == name;
            if i < definitions.len() - 1 {
                assert(definitions.drop_last()[i].name == name);
            }
        }
    }
}

/// Where no identifier is taken twice, every definition has its family.
proof fn lemma_defined_families(definitions: Seq<Definition>)
    requires
        ids_distinct(definitions),
    ensures
        forall|i: int|
            0 <= i < definitions.len() ==> has_family(
                defined(definitions),
                #[trigger] definitions[i],
            ),
        families::no_samples(defined(definitions)),
    decreases definitions.len(),
{
    if definitions.len() > 0 {
        let rest = definitions.drop_last();
        assert forall|i: int, j: int| 0 <= i < j < rest.len() implies families::family_id(
            (#[trigger] rest[i]).name,
        ) != families::family_id((#[trigger] rest[j]).name) by {
            assert(rest[i] == definitions[i] && rest[j] == definitions[j]);
        }
        lemma_defined_families(rest);
        assert forall|i: int| 0 <= i < definitions.len() implies has_family(
            defined(definitions),
            #[trigger] definitions[i],
        ) by {
            if i < rest.len() {
                assert(has_family(defined(rest), rest[i]));
                assert(definitions[i].name != definitions.last().name);
            }
        }
    }
}

/// A definition is acceptable behind others exactly where its identifier is not
/// taken by one of them.
proof fn lemma_next(definitions: Seq<Definition>, k: int)
    requires
        0 <= k < definitions.len(),
        ids_distinct(definitions.take(k)),
    ensures
        families::is_free(
            defined(definitions.take(k)),
            families::family_id(definitions[k].name),
        ) <==> ids_distinct(definitions.take(k + 1)),
{
    let before = definitions.take(k);
    let after = definitions.take(k + 1);
    let id = families::family_id(definitions[k].name);
    assert(after.last() == definitions[k]);
    if families::is_free(defined(before), id) {
        assert forall|i: int, j: int| 0 <= i < j < after.len() implies families::family_id(
            (#[trigger] after[i]).name,
        ) != families::family_id((#[trigger] after[j]).name) by {
            assert(after[i] == before[i]);
            if j < k {
                assert(after[j] == before[j]);
            } else {
                lemma_defined(before, before[i].name);
                assert(defined(before).contains_key(before[i].name));
            }
        }
    } else {
        let other = choose|other: Seq<char>| #[trigger]
            defined(before).contains_key(other) && families::family_id(other) == id;
        lemma_defined(before, other);
        let i = choose|i: int| 0 <= i < before.len() && (#[trigger] before[i]).name == other;
        assert(after[i] == before[i]);
        assert(families::family_id(after[i].name) == families::family_id(after[k].name));
    }
}

/// How a family is made, ready for use.
struct FamilyDefinition {
    name: &'static str,
    kind: Kind,
    help: &'static str,
    labels: Vec<&'static str>,
}

impl View for FamilyDefinition {
    type V = Definition;

    closed spec fn view(&self) -> Definition {
        Definition {
            name: self.name@,
            kind: self.kind,
            help: self.help@,
            labels: families::views(self.labels@),
        }
    }
}

/// The models of a list of definitions.
spec fn definitions_view(list: Seq<FamilyDefinition>) -> Seq<Definition> {
    Seq::new(list.len(), |i: int| list[i]@)
}

/// Gives a list of one text.
fn list_of_one<'a>(a: &'a str) -> (r: Vec<&'a str>)
    ensures
        families::views(r@) == seq![a@],
{
    let mut r: Vec<&'a str> = Vec::new();
    r.push(a);
    assert(families::views(r@) =~= seq![a@]);
    r
}

/// Gives a list of two texts.
fn list_of_two<'a>(a: &'a str, b: &'a str) -> (r: Vec<&'a str>)
    ensures
        families::views(r@) == seq![a@, b@],
{
    let mut r: Vec<&'a str> = Vec::new();
    r.push(a);
    r.push(b);
    assert(families::views(r@) =~= seq![a@, b@]);
    r
}

/// Gives a list of three texts.
fn list_of_three<'a>(a: &'a str, b: &'a str, c: &'a str) -> (r: Vec<&'a str>)
    ensures
        families::views(r@) == seq![a@, b@, c@],
{
    let mut r: Vec<&'a str> = Vec::new();
    r.push(a);
    r.push(b);
    r.push(c);
    assert(families::views(r@) =~= seq![a@, b@, c@]);
    r
}

/// Gives the families of the collector.
fn family_definitions() -> (r: Vec<FamilyDefinition>)
    ensures
        definitions_view(r@) == definitions(),
{
    let mut r: Vec<FamilyDefinition> = Vec::new();
    r.push(
        FamilyDefinition {
            name: FEATURE_TOTAL,
            kind: Kind::Gauge,
            help: "Total licenses issued for this feature",
            labels: list_of_three("server", "feature", "vendor"),
        },
    );
    r.push(
        FamilyDefinition {
            name: FEATURE_USED,
            kind: Kind::Gauge,
            help: "Licenses currently in use for this feature",
            labels: list_of_three("server", "feature", "vendor"),
        },
    );
    r.push(
        FamilyDefinition {
            name: FEATURE_IDLE,
            kind: Kind::Gauge,
            help: "Licenses idle (total - used) for this feature",
            labels: list_of_three("server", "feature", "vendor"),
        },
    );
    r.push(
        FamilyDefinition {
            name: FEATURE_USERS,
            kind: Kind::Gauge,
            help: "Number of distinct users holding this feature",
            labels: list_of_two("server", "feature"),
        },
    );
    r.push(
        FamilyDefinition {
            name: SERVER_STATUS,
            kind: Kind::Gauge,
            help: "License server reachability (1=UP, 0=DOWN/UNKNOWN)",
            labels: list_of_three("server", "host", "port"),
        },
    );
    r.push(
        FamilyDefinition {
            name: SERVER_FEATURES_TOTAL,
            kind: Kind::Gauge,
            help: "Total number of monitored features on this server",
            labels: list_of_one("server"),
        },
    );
    r.push(
        FamilyDefinition {
            name: SCRAPE_DURATION,
            kind: Kind::DecimalGauge,
            help: "Time spent collecting license data from lmutil",
            labels: list_of_one("server"),
        },
    );
    r.push(
        FamilyDefinition {
            name: SCRAPE_TOTAL,
            kind: Kind::Counter,
            help: "Total number of scrape attempts",
            labels: list_of_two("server", "status"),
        },
    );
    assert(definitions_view(r@) =~= definitions());
    r
}

/// Every definition of the collector can be made into a family.
proof fn lemma_descriptions()
    ensures
        forall|i: int|
            0 <= i < definitions().len() ==> is_description_of(#[trigger] definitions()[i]),
{
    reveal_strlit("flexlm_feature_total");
    reveal_strlit("flexlm_feature_used");
    reveal_strlit("flexlm_feature_idle");
    reveal_strlit("flexlm_feature_users");
    reveal_strlit("flexlm_server_status");
    reveal_strlit("flexlm_server_features_total");
    reveal_strlit("flexlm_scrape_duration_seconds");
    reveal_strlit("flexlm_scrape_total");
    reveal_strlit("Total licenses issued for this feature");
    reveal_strlit("Licenses currently in use for this feature");
    reveal_strlit("Licenses idle (total - used) for this feature");
    reveal_strlit("Number of distinct users holding this feature");
    reveal_strlit("License server reachability (1=UP, 0=DOWN/UNKNOWN)");
    reveal_strlit("Total number of monitored features on this server");
    reveal_strlit("Time spent collecting license data from lmutil");
    reveal_strlit("Total number of scrape attempts");
    reveal_strlit("server");
    reveal_strlit("feature");
    reveal_strlit("vendor");
    reveal_strlit("host");
    reveal_strlit("port");
    reveal_strlit("status");
    assert("server"@[0] == 's' && "status"@[1] == 't' && "server"@[1] == 'e');
    assert("feature"@[0] == 'f' && "vendor"@[0] == 'v');
    assert("host"@[0] == 'h' && "port"@[0] == 'p');
}

/// The definition can be made into a family.
spec fn is_description_of(definition: Definition) -> bool {
    families::is_description(definition.name, definition.help, definition.labels)
}

/// The families with a value of an integer gauge.
pub open spec fn with_gauge(
    all: FamiliesView,
    name: Seq<char>,
    values: Seq<Seq<char>>,
    value: int,
) -> FamiliesView {
    all.insert(
        name,
        all[name].put(
            families::label_hash(families::joined(values)),
            values,
            ValueView::Whole(value),
        ),
    )
}

/// The families with a value of a decimal gauge.
pub open spec fn with_decimal(
    all: FamiliesView,
    name: Seq<char>,
    values: Seq<Seq<char>>,
    value: Seq<char>,
) -> FamiliesView {
    all.insert(
        name,
        all[name].put(
            families::label_hash(families::joined(values)),
            values,
            ValueView::Decimal(value),
        ),
    )
}

/// The families with one more event in a counter.
pub open spec fn with_count(
    all: FamiliesView,
    name: Seq<char>,
    values: Seq<Seq<char>>,
) -> FamiliesView {
    all.insert(
        name,
        all[name].counted(families::label_hash(families::joined(values)), values),
    )
}

/// Making a family under its definition, in the set of those before it.
fn add_family(set: &mut FamilySet, definition: &FamilyDefinition) -> (r: Result<(), MetricsError>)
    requires
        is_description_of(definition@),
    ensures
        r is Ok <==> families::is_free(
            families::families(*old(set)),
            families::family_id(definition@.name),
        ),
        r is Ok ==> families::families(*final(set)) == families::families(*old(set)).insert(
            definition@.name,
            FamilyView::fresh(definition@.kind, definition@.help, definition@.labels),
        ),
        r matches Err(error) ==> error.family@ == definition@.name,
{
    let labels = definition.labels.as_slice();
    let added = match definition.kind {
        Kind::Gauge => set.add_gauge(definition.name, definition.help, labels),
        Kind::DecimalGauge => set.add_decimal_gauge(definition.name, definition.help, labels),
        Kind::Counter => set.add_counter(definition.name, definition.help, labels),
    };
    match added {
        Ok(()) => Ok(()),
        Err(cause) => Err(MetricsError { family: definition.name.to_owned(), cause }),
    }
}

impl View for Metrics {
    type V = FamiliesView;

    closed spec fn view(&self) -> FamiliesView {
        families::families(self.families)
    }
}

impl Metrics {
    /// The metrics hold the families of the collector.
    pub open spec fn wf(self) -> bool {
        has_all(self@)
    }

    /// Makes and registers all families, without samples. None of them is refused.
    pub fn new() -> (r: Result<Self, MetricsError>)
        ensures
            r is Ok,
            r matches Ok(metrics) ==> metrics.wf() && metrics@ == defined(definitions()),
    {
        let list = family_definitions();
        let ghost all = definitions();
        let mut set = FamilySet::empty();
        let mut i: usize = 0;
        assert(all.take(0) =~= Seq::<Definition>::empty());
        while i < list.len()
            invariant
                i <= list@.len(),
                all == definitions(),
                definitions_view(list@) == all,
                ids_distinct(all.take(i as int)),
                families::families(set) == defined(all.take(i as int)),
            decreases list@.len() - i,
        {
            proof {
                lemma_descriptions();
                lemma_ids_distinct(i + 1);
                lemma_next(all, i as int);
                assert(list@[i as int]@ == all[i as int]);
                assert(is_description_of(all[i as int]));
                assert(all.take(i + 1).drop_last() =~= all.take(i as int));
            }
            match add_family(&mut set, &list[i]) {
                Ok(()) => {},
                Err(error) => {
                    return Err(error);
                },
            }
            i += 1;
        }
        assert(all.take(i as int) =~= all);
        proof {
            lemma_defined_families(all);
        }
        Ok(Metrics { families: set })
    }

    /// Gives the metrics in the text format. Families without samples are left
    /// out.
    pub fn render(&self) -> (r: String)
        ensures
            r@ == outside::utf8_lossy(families::exposition(self@)),
            families::no_samples(self@) ==> r@.len() == 0,
    {
        match self.families.encode_text() {
            Ok(bytes) => {
                let r = outside::decode_lossy(bytes.as_slice());
                assert(families::no_samples(self@) ==> vstd::utf8::valid_utf8(bytes@));
                r
            },
            Err(_) => String::new(),
        }
    }

    /// The registry that the families are registered with. It is shared: who
    /// registers or unregisters a collector through it changes what is rendered
    /// behind the back of these contracts, which speak of the families made by
    /// [`Metrics::new`] alone.
    pub fn registry(&self) -> (r: &prometheus::Registry)
        ensures
            families::registered(*r) == self@,
    {
        self.families.registry()
    }
}

/// The identifiers of the collector's families are distinct, and so are those of
/// the first of them.
proof fn lemma_ids_distinct(k: int)
    requires
        0 <= k <= definitions().len(),
    ensures
        ids_distinct(definitions().take(k)),
{
    hashing::lemma_family_hashes();
}

/// Changing the samples of a family leaves every family as it was made.
proof fn lemma_put_keeps_all(
    all: FamiliesView,
    name: Seq<char>,
    key: u64,
    values: Seq<Seq<char>>,
    value: ValueView,
)
    requires
        has_all(all),
    ensures
        has_all(all.insert(name, all[name].put(key, values, value))),
{
    let next = all.insert(name, all[name].put(key, values, value));
    assert forall|i: int| 0 <= i < definitions().len() implies has_family(
        next,
        #[trigger] definitions()[i],
    ) by {
        assert(has_family(all, definitions()[i]));
    }
}

impl Metrics {
    /// Sets a sample of the integer gauge at the given place in the definitions.
    fn set_gauge(&mut self, name: &str, values: Vec<&str>, value: i64, Ghost(at): Ghost<int>)
        requires
            old(self).wf(),
            0 <= at < definitions().len(),
            definitions()[at].name == name@,
            definitions()[at].kind == Kind::Gauge,
            definitions()[at].labels.len() == values@.len(),
        ensures
            final(self).wf(),
            final(self)@ == with_gauge(
                old(self)@,
                name@,
                families::views(values@),
                value as int,
            ),
    {
        assert(has_family(self@, definitions()[at]));
        proof {
            lemma_put_keeps_all(
                self@,
                name@,
                families::label_hash(families::joined(families::views(values@))),
                families::views(values@),
                ValueView::Whole(value as int),
            );
        }
        self.families.set_gauge(name, values.as_slice(), value);
    }

    /// Sets the licenses issued for a feature.
    pub fn set_feature_total(&mut self, server: &str, feature: &str, vendor: &str, total: i64)
        requires
            old(self).wf(),
        ensures
            final(self).wf(),
            final(self)@ == with_gauge(
                old(self)@,
                FEATURE_TOTAL@,
                seq![server@, feature@, vendor@],
                total as int,
            ),
    {
        self.set_gauge(FEATURE_TOTAL, list_of_three(server, feature, vendor), total, Ghost(0));
    }

    /// Sets the licenses of a feature that are in use.
    pub fn set_feature_used(&mut self, server: &str, feature: &str, vendor: &str, used: i64)
        requires
            old(self).wf(),
        ensures
            final(self).wf(),
            final(self)@ == with_gauge(
                old(self)@,
                FEATURE_USED@,
                seq![server@, feature@, vendor@],
                used as int,
            ),
    {
        self.set_gauge(FEATURE_USED, list_of_three(server, feature, vendor), used, Ghost(1));
    }

    /// Sets the free licenses of a feature.
    pub fn set_feature_idle(&mut self, server: &str, feature: &str, vendor: &str, idle: i64)
        requires
            old(self).wf(),
        ensures
            final(self).wf(),
            final(self)@ == with_gauge(
                old(self)@,
                FEATURE_IDLE@,
                seq![server@, feature@, vendor@],
                idle as int,
            ),
    {
        self.set_gauge(FEATURE_IDLE, list_of_three(server, feature, vendor), idle, Ghost(2));
    }

    /// Sets the number of users who hold a feature.
    pub fn set_feature_users(&mut self, server: &str, feature: &str, users: i64)
        requires
            old(self).wf(),
        ensures
            final(self).wf(),
            final(self)@ == with_gauge(
                old(self)@,
                FEATURE_USERS@,
                seq![server@, feature@],
                users as int,
            ),
    {
        self.set_gauge(FEATURE_USERS, list_of_two(server, feature), users, Ghost(3));
    }

    /// Sets whether a server is up: one or zero.
    pub fn set_server_status(&mut self, server: &str, host: &str, port: &str, status: i64)
        requires
            old(self).wf(),
        ensures
            final(self).wf(),
            final(self)@ == with_gauge(
                old(self)@,
                SERVER_STATUS@,
                seq![server@, host@, port@],
                status as int,
            ),
    {
        self.set_gauge(SERVER_STATUS, list_of_three(server, host, port), status, Ghost(4));
    }

    /// Sets the number of features of a server.
    pub fn set_server_features_total(&mut self, server: &str, features: i64)
        requires
            old(self).wf(),
        ensures
            final(self).wf(),
            final(self)@ == with_gauge(
                old(self)@,
                SERVER_FEATURES_TOTAL@,
                seq![server@],
                features as int,
            ),
    {
        self.set_gauge(SERVER_FEATURES_TOTAL, list_of_one(server), features, Ghost(5));
    }

    /// Sets how long the collection of a server took, in thousandths of a second.
    pub fn set_scrape_duration(&mut self, server: &str, millis: u64)
        requires
            old(self).wf(),
        ensures
            final(self).wf(),
            final(self)@ == with_decimal(
                old(self)@,
                SCRAPE_DURATION@,
                seq![server@],
                text::thousandths(millis as nat),
            ),
    {
        let values = list_of_one(server);
        let seconds = text::thousandths_text(millis);
        assert(has_family(self@, definitions()[6]));
        proof {
            lemma_thousandths(millis as nat);
            lemma_put_keeps_all(
                self@,
                SCRAPE_DURATION@,
                families::label_hash(families::joined(seq![server@])),
                seq![server@],
                ValueView::Decimal(seconds@),
            );
        }
        self.families.set_decimal_gauge(SCRAPE_DURATION, values.as_slice(), seconds.as_str());
    }

    /// Counts a collection of a server under its outcome.
    pub fn count_scrape(&mut self, server: &str, status: &str)
        requires
            old(self).wf(),
        ensures
            final(self).wf(),
            final(self)@ == with_count(old(self)@, SCRAPE_TOTAL@, seq![server@, status@]),
    {
        let values = list_of_two(server, status);
        assert(has_family(self@, definitions()[7]));
        proof {
            let key = families::label_hash(families::joined(seq![server@, status@]));
            let n = self@[SCRAPE_TOTAL@].count(key);
            lemma_put_keeps_all(
                self@,
                SCRAPE_TOTAL@,
                key,
                seq![server@, status@],
                ValueView::Whole(
                    if n >= u64::MAX {
                        0
                    } else {
                        n + 1
                    },
                ),
            );
        }
        self.families.count(SCRAPE_TOTAL, values.as_slice());
    }
}

/// A number of thousandths is written as a decimal number.
proof fn lemma_thousandths(n: nat)
    ensures
        families::is_decimal(text::thousandths(n)),
{
    text::lemma_decimal(n / 1000);
    let whole = text::decimal(n / 1000);
    let s = text::thousandths(n);
    let dot = whole.len() as int;
    assert forall|i: int| 0 <= i < s.len() && i != dot implies text::is_digit(
        #[trigger] s[i],
    ) by {
        if i < dot {
            assert(s[i] == whole[i]);
        }
    }
    assert(families::is_decimal_at(s, dot));
}

/// The families hold one of a name, kind, help text and label names, without
/// samples.
pub open spec fn holds(
    all: FamiliesView,
    name: Seq<char>,
    kind: Kind,
    help: Seq<char>,
    labels: Seq<Seq<char>>,
) -> bool {
    &&& all.contains_key(name)
    &&& all[name].kind == kind
    &&& all[name].help == help
    &&& all[name].labels == labels
    &&& all[name].samples == Map::<u64, families::SampleView>::empty()
}

/// New metrics hold the eight documented families, with their kinds, help texts
/// and labels, and no others.
pub proof fn law_families()
    ensures
        ({
            let all = defined(definitions());
            let feature = seq!["server"@, "feature"@, "vendor"@];
            &&& holds(
                all,
                "flexlm_feature_total"@,
                Kind::Gauge,
                "Total licenses issued for this feature"@,
                feature,
            )
            &&& holds(
                all,
                "flexlm_feature_used"@,
                Kind::Gauge,
                "Licenses currently in use for this feature"@,
                feature,
            )
            &&& holds(
                all,
                "flexlm_feature_idle"@,
                Kind::Gauge,
                "Licenses idle (total - used) for this feature"@,
                feature,
            )
            &&& holds(
                all,
                "flexlm_feature_users"@,
                Kind::Gauge,
                "Number of distinct users holding this feature"@,
                seq!["server"@, "feature"@],
            )
            &&& holds(
                all,
                "flexlm_server_status"@,
                Kind::Gauge,
                "License server reachability (1=UP, 0=DOWN/UNKNOWN)"@,
                seq!["server"@, "host"@, "port"@],
            )
            &&& holds(
                all,
                "flexlm_server_features_total"@,
                Kind::Gauge,
                "Total number of monitored features on this server"@,
                seq!["server"@],
            )
            &&& holds(
                all,
                "flexlm_scrape_duration_seconds"@,
                Kind::DecimalGauge,
                "Time spent collecting license data from lmutil"@,
                seq!["server"@],
            )
            &&& holds(
                all,
                "flexlm_scrape_total"@,
                Kind::Counter,
                "Total number of scrape attempts"@,
                seq!["server"@, "status"@],
            )
            &&& all.dom().len() == 8
            &&& all.dom().finite()
        }),
{
    let list = definitions();
    assert(list.take(8) =~= list);
    lemma_ids_distinct(8);
    lemma_defined_families(list);
    assert(has_family(defined(list), list[0]));
    assert(has_family(defined(list), list[1]));
    assert(has_family(defined(list), list[2]));
    assert(has_family(defined(list), list[3]));
    assert(has_family(defined(list), list[4]));
    assert(has_family(defined(list), list[5]));
    assert(has_family(defined(list), list[6]));
    assert(has_family(defined(list), list[7]));
    lemma_defined_size(list);
}

/// Distinct definitions make as many families.
proof fn lemma_defined_size(list: Seq<Definition>)
    requires
        ids_distinct(list),
    ensures
        defined(list).dom().finite(),
        defined(list).dom().len() == list.len(),
    decreases list.len(),
{
    if list.len() > 0 {
        let rest = list.drop_last();
        assert forall|i: int, j: int| 0 <= i < j < rest.len() implies families::family_id(
            (#[trigger] rest[i]).name,
        ) != families::family_id((#[trigger] rest[j]).name) by {
            assert(rest[i] == list[i] && rest[j] == list[j]);
        }
        lemma_defined_size(rest);
        lemma_defined(rest, list.last().name);
        assert(!defined(rest).contains_key(list.last().name)) by {
            if defined(rest).contains_key(list.last().name) {
                let i = choose|i: int|
                    0 <= i < rest.len() && (#[trigger] rest[i]).name == list.last().name;
                assert(list[i] == rest[i]);
                assert(families::family_id(list[i].name) == families::family_id(
                    list[list.len() - 1].name,
                ));
            }
        }
        assert(defined(list).dom() =~= defined(rest).dom().insert(list.last().name));
    }
}

} // verus!
