//! What holds of the metrics and the kept statuses after any collection.

use crate::collect;
use crate::collect_laws;
use crate::collector;
use crate::config::LicenseServerConfigView;
use crate::families::{self, FamiliesView, ValueView};
use crate::hashing;
use crate::lmstat;
use crate::lmutil::{FeatureUsageView, ServerStatusView};
use crate::metrics;
use crate::text;
use crate::text_laws;
use vstd::prelude::*;

verus! {

/// A list of statuses by server name.
pub type Entries = Seq<(Seq<char>, ServerStatusView)>;

/// No two entries share a name.
pub open spec fn names_distinct(entries: Entries) -> bool {
    forall|i: int, j: int|
        0 <= i < j < entries.len() ==> (#[trigger] entries[i]).0 != (#[trigger] entries[j]).0
}

/// The found position lies in the list or at its end, and holds the name where
/// it lies in the list; no earlier entry has the name.
proof fn lemma_position(entries: Entries, name: Seq<char>, from: int)
    requires
        0 <= from <= entries.len(),
    ensures
        from <= collector::position_from(entries, name, from) <= entries.len(),
        collector::position_from(entries, name, from) < entries.len()
            ==> entries[collector::position_from(entries, name, from)].0 == name,
        forall|i: int|
            from <= i < collector::position_from(entries, name, from) ==> (
            #[trigger] entries[i]).0 != name,
    decreases entries.len() - from,
{
    if from < entries.len() && entries[from].0 != name {
        lemma_position(entries, name, from + 1);
    }
}

/// Keeping a status leaves every server in its place and adds at most one, at
/// the end. The status is kept under the server's name; the others keep theirs.
pub proof fn law_stored(entries: Entries, name: Seq<char>, status: ServerStatusView)
    requires
        names_distinct(entries),
    ensures
        ({
            let next = collector::stored(entries, name, status);
            &&& names_distinct(next)
            &&& entries.len() <= next.len() <= entries.len() + 1
            &&& forall|i: int| 0 <= i < entries.len() ==> (#[trigger] next[i]).0 == entries[i].0
            &&& forall|i: int|
                0 <= i < next.len() && (#[trigger] next[i]).0 == name ==> next[i].1 == status
            &&& forall|i: int|
                0 <= i < entries.len() && (#[trigger] entries[i]).0 != name ==> next[i]
                    == entries[i]
            &&& exists|i: int| 0 <= i < next.len() && (#[trigger] next[i]).0 == name
        }),
{
    let at = collector::position_from(entries, name, 0);
    let next = collector::stored(entries, name, status);
    lemma_position(entries, name, 0);
    assert(next[at].0 == name);
    assert forall|i: int, j: int| 0 <= i < j < next.len() implies (#[trigger] next[i]).0 != (
    #[trigger] next[j]).0 by {
        assert(next[i].0 == entries[i].0);
        if j < entries.len() {
            assert(next[j].0 == entries[j].0);
        }
    }
}

/// The list after keeping a status for each server in turn.
pub open spec fn all_stored(
    entries: Entries,
    servers: Seq<LicenseServerConfigView>,
    statuses: Seq<ServerStatusView>,
) -> Entries
    decreases servers.len(),
{
    if servers.len() == 0 {
        entries
    } else {
        collector::stored(
            all_stored(entries, servers.drop_last(), statuses.drop_last()),
            servers.last().name,
            statuses.last(),
        )
    }
}

/// Collecting servers of distinct names keeps their statuses in the configured
/// order.
pub proof fn law_configured_order(
    servers: Seq<LicenseServerConfigView>,
    statuses: Seq<ServerStatusView>,
)
    requires
        statuses.len() == servers.len(),
        forall|i: int, j: int|
            0 <= i < j < servers.len() ==> (#[trigger] servers[i]).name != (
            #[trigger] servers[j]).name,
    ensures
        all_stored(Seq::empty(), servers, statuses) == Seq::new(
            servers.len(),
            |i: int| (servers[i].name, statuses[i]),
        ),
    decreases servers.len(),
{
    let expected = Seq::new(servers.len(), |i: int| (servers[i].name, statuses[i]));
    if servers.len() > 0 {
        let first = servers.drop_last();
        assert forall|i: int, j: int| 0 <= i < j < first.len() implies (#[trigger] first[i]).name
            != (#[trigger] first[j]).name by {
            assert(first[i] == servers[i] && first[j] == servers[j]);
        }
        law_configured_order(first, statuses.drop_last());
        let before = all_stored(Seq::empty(), first, statuses.drop_last());
        assert forall|i: int| 0 <= i < before.len() implies (#[trigger] before[i]).0
            != servers.last().name by {
            assert(before[i].0 == servers[i].name);
        }
        lemma_position(before, servers.last().name, 0);
        assert(all_stored(Seq::empty(), servers, statuses) =~= expected);
    } else {
        assert(all_stored(Seq::empty(), servers, statuses) =~= expected);
    }
}

/// The value under the given label values.
pub open spec fn value_of(
    all: FamiliesView,
    name: Seq<char>,
    values: Seq<Seq<char>>,
) -> Option<ValueView> {
    let key = families::label_hash(families::joined(values));
    if all.contains_key(name) && all[name].samples.contains_key(key) {
        Some(all[name].samples[key].value)
    } else {
        None
    }
}

/// Every sample is still there, with its labels.
pub open spec fn keeps_samples(before: FamiliesView, after: FamiliesView) -> bool {
    forall|name: Seq<char>, key: u64|
        before.contains_key(name) && #[trigger] before[name].samples.contains_key(key)
            ==> after.contains_key(name) && after[name].samples.contains_key(key)
            && after[name].samples[key].labels == before[name].samples[key].labels
}

/// Keeping the samples twice keeps them.
proof fn lemma_keeps_samples_transitive(a: FamiliesView, b: FamiliesView, c: FamiliesView)
    requires
        keeps_samples(a, b),
        keeps_samples(b, c),
    ensures
        keeps_samples(a, c),
{
    assert forall|name: Seq<char>, key: u64|
        a.contains_key(name) && #[trigger] a[name].samples.contains_key(
            key,
        ) implies c.contains_key(name) && c[name].samples.contains_key(key)
        && c[name].samples[key].labels == a[name].samples[key].labels by {
        assert(b[name].samples.contains_key(key));
    }
}

/// The names of the families differ.
proof fn lemma_family_names()
    ensures
        metrics::FEATURE_TOTAL@ != metrics::FEATURE_USED@,
        metrics::FEATURE_TOTAL@ != metrics::FEATURE_IDLE@,
        metrics::FEATURE_TOTAL@ != metrics::FEATURE_USERS@,
        metrics::FEATURE_USED@ != metrics::FEATURE_IDLE@,
        metrics::FEATURE_USED@ != metrics::FEATURE_USERS@,
        metrics::FEATURE_IDLE@ != metrics::FEATURE_USERS@,
        metrics::SERVER_STATUS@ != metrics::SERVER_FEATURES_TOTAL@,
        metrics::SERVER_STATUS@ != metrics::SCRAPE_DURATION@,
        metrics::SERVER_STATUS@ != metrics::SCRAPE_TOTAL@,
        metrics::SERVER_FEATURES_TOTAL@ != metrics::SCRAPE_DURATION@,
        metrics::SERVER_FEATURES_TOTAL@ != metrics::SCRAPE_TOTAL@,
        metrics::SCRAPE_DURATION@ != metrics::SCRAPE_TOTAL@,
        !is_feature_family(metrics::SERVER_STATUS@),
        !is_feature_family(metrics::SERVER_FEATURES_TOTAL@),
        !is_feature_family(metrics::SCRAPE_DURATION@),
        !is_feature_family(metrics::SCRAPE_TOTAL@),
{
    reveal_strlit("flexlm_feature_total");
    reveal_strlit("flexlm_feature_used");
    reveal_strlit("flexlm_feature_idle");
    reveal_strlit("flexlm_feature_users");
    reveal_strlit("flexlm_server_status");
    reveal_strlit("flexlm_server_features_total");
    reveal_strlit("flexlm_scrape_duration_seconds");
    reveal_strlit("flexlm_scrape_total");
    assert(metrics::FEATURE_TOTAL@.len() == 20 && metrics::FEATURE_TOTAL@[15] == 't');
    assert(metrics::FEATURE_USED@.len() == 19 && metrics::FEATURE_USED@[15] == 'u');
    assert(metrics::FEATURE_IDLE@.len() == 19 && metrics::FEATURE_IDLE@[15] == 'i');
    assert(metrics::FEATURE_USERS@.len() == 20 && metrics::FEATURE_USERS@[15] == 'u');
    assert(metrics::SERVER_STATUS@.len() == 20 && metrics::SERVER_STATUS@[7] == 's');
    assert(metrics::FEATURE_TOTAL@[7] == 'f' && metrics::FEATURE_USERS@[7] == 'f');
    assert(metrics::SERVER_FEATURES_TOTAL@.len() == 28);
    assert(metrics::SCRAPE_DURATION@.len() == 30);
    assert(metrics::SCRAPE_TOTAL@.len() == 19 && metrics::SCRAPE_TOTAL@[7] == 's');
    assert(metrics::FEATURE_USED@[7] == 'f' && metrics::FEATURE_IDLE@[7] == 'f');
}

/// The family holds values per feature.
pub open spec fn is_feature_family(name: Seq<char>) -> bool {
    ||| name == metrics::FEATURE_TOTAL@
    ||| name == metrics::FEATURE_USED@
    ||| name == metrics::FEATURE_IDLE@
    ||| name == metrics::FEATURE_USERS@
}

/// The families hold those of the collector, one per name.
proof fn lemma_has(all: FamiliesView)
    requires
        metrics::has_all(all),
    ensures
        all.contains_key(metrics::FEATURE_TOTAL@),
        all.contains_key(metrics::FEATURE_USED@),
        all.contains_key(metrics::FEATURE_IDLE@),
        all.contains_key(metrics::FEATURE_USERS@),
        all.contains_key(metrics::SERVER_STATUS@),
        all.contains_key(metrics::SERVER_FEATURES_TOTAL@),
        all.contains_key(metrics::SCRAPE_DURATION@),
        all.contains_key(metrics::SCRAPE_TOTAL@),
{
    assert(metrics::has_family(all, metrics::definitions()[0]));
    assert(metrics::has_family(all, metrics::definitions()[1]));
    assert(metrics::has_family(all, metrics::definitions()[2]));
    assert(metrics::has_family(all, metrics::definitions()[3]));
    assert(metrics::has_family(all, metrics::definitions()[4]));
    assert(metrics::has_family(all, metrics::definitions()[5]));
    assert(metrics::has_family(all, metrics::definitions()[6]));
    assert(metrics::has_family(all, metrics::definitions()[7]));
}

/// The values of a feature: what its metrics hold.
pub open spec fn shows_feature(
    all: FamiliesView,
    server: Seq<char>,
    feature: FeatureUsageView,
) -> bool {
    let labels = seq![server, feature.name, feature.vendor];
    &&& value_of(all, metrics::FEATURE_TOTAL@, labels) == Some(
        ValueView::Whole(feature.total as int),
    )
    &&& value_of(all, metrics::FEATURE_USED@, labels) == Some(
        ValueView::Whole(feature.used as int),
    )
    &&& value_of(all, metrics::FEATURE_IDLE@, labels) == Some(
        ValueView::Whole(feature.total - feature.used),
    )
    &&& value_of(all, metrics::FEATURE_USERS@, seq![server, feature.name]) == Some(
        ValueView::Whole(feature.users.len() as i64 as int),
    )
}

/// The two features are kept under different keys.
pub open spec fn keys_differ(
    server: Seq<char>,
    a: FeatureUsageView,
    b: FeatureUsageView,
) -> bool {
    &&& families::label_hash(families::joined(seq![server, a.name, a.vendor]))
        != families::label_hash(families::joined(seq![server, b.name, b.vendor]))
    &&& families::label_hash(families::joined(seq![server, a.name])) != families::label_hash(
        families::joined(seq![server, b.name]),
    )
}

/// Setting the metrics of a feature keeps all samples, leaves the families of
/// the server alone, shows the feature, and leaves features under other keys as
/// they were.
proof fn lemma_with_feature(
    all: FamiliesView,
    server: Seq<char>,
    feature: FeatureUsageView,
    other: FeatureUsageView,
)
    ensures
        ({
            let next = collector::with_feature(all, server, feature);
            &&& keeps_samples(all, next)
            &&& forall|name: Seq<char>|
                !is_feature_family(name) ==> (#[trigger] next.contains_key(name)
                    <==> all.contains_key(name)) && next[name] == all[name]
            &&& shows_feature(next, server, feature)
            &&& keys_differ(server, other, feature) && shows_feature(all, server, other)
                ==> shows_feature(next, server, other)
        }),
{
    lemma_family_names();
}

/// Setting the metrics of features, one after the other, keeps all samples,
/// leaves the families of the server alone, and shows every feature whose keys
/// no later one has.
proof fn lemma_with_features(
    all: FamiliesView,
    server: Seq<char>,
    features: Seq<FeatureUsageView>,
    i: int,
)
    ensures
        ({
            let next = collector::with_features(all, server, features);
            &&& keeps_samples(all, next)
            &&& forall|name: Seq<char>|
                !is_feature_family(name) ==> (#[trigger] next.contains_key(name)
                    <==> all.contains_key(name)) && next[name] == all[name]
            &&& 0 <= i < features.len() && (forall|j: int|
                i < j < features.len() ==> keys_differ(server, features[i], #[trigger] features[j]))
                ==> shows_feature(next, server, features[i])
        }),
    decreases features.len(),
{
    if features.len() > 0 {
        let rest = features.drop_last();
        let before = collector::with_features(all, server, rest);
        let next = collector::with_features(all, server, features);
        lemma_with_features(all, server, rest, i);
        lemma_with_feature(before, server, features.last(), features[i]);
        lemma_keeps_samples_transitive(all, before, next);
        if 0 <= i < rest.len() && (forall|j: int|
            i < j < features.len() ==> keys_differ(server, features[i], #[trigger] features[j])) {
            assert forall|j: int| i < j < rest.len() implies keys_differ(
                server,
                rest[i],
                #[trigger] rest[j],
            ) by {
                assert(rest[j] == features[j]);
            }
            assert(keys_differ(server, features[i], features[features.len() - 1]));
        }
    }
}

/// After a collection the metrics tell whether the server is up, how many
/// features it has and how long the collection took, and count it once more
/// under its outcome.
pub proof fn law_update_shows_server(
    all: FamiliesView,
    server: LicenseServerConfigView,
    status: ServerStatusView,
    millis: nat,
)
    requires
        metrics::has_all(all),
    ensures
        ({
            let next = collector::updated(all, server, status, millis);
            let outcome = seq![server.name, collector::outcome_label(status)];
            let counted = all[metrics::SCRAPE_TOTAL@].count(
                families::label_hash(families::joined(outcome)),
            );
            &&& value_of(
                next,
                metrics::SERVER_STATUS@,
                seq![
                    server.name,
                    collector::host_label(server, status),
                    collector::port_label(server, status),
                ],
            ) == Some(
                ValueView::Whole(
                    if status.is_up() {
                        1
                    } else {
                        0
                    },
                ),
            )
            &&& value_of(next, metrics::SERVER_FEATURES_TOTAL@, seq![server.name]) == Some(
                ValueView::Whole(status.features.len() as i64 as int),
            )
            &&& value_of(next, metrics::SCRAPE_DURATION@, seq![server.name]) == Some(
                ValueView::Decimal(text::thousandths(millis)),
            )
            &&& counted < u64::MAX ==> value_of(next, metrics::SCRAPE_TOTAL@, outcome) == Some(
                ValueView::Whole(counted + 1),
            )
        }),
{
    lemma_family_names();
    lemma_has(all);
    let summary = collector::with_summary(all, server, status, millis);
    lemma_with_features(summary, server.name, status.features, 0);
    let next = collector::updated(all, server, status, millis);
    assert(summary.contains_key(metrics::SERVER_STATUS@));
    assert(next.contains_key(metrics::SERVER_STATUS@));
    assert(next.contains_key(metrics::SERVER_FEATURES_TOTAL@));
    assert(next.contains_key(metrics::SCRAPE_DURATION@));
    assert(next.contains_key(metrics::SCRAPE_TOTAL@));
}

/// After a collection the metrics show each feature: the licenses issued, in
/// use and free, and the number of its users. A feature is hidden only by a
/// later one under the same keys.
pub proof fn law_update_shows_features(
    all: FamiliesView,
    server: LicenseServerConfigView,
    status: ServerStatusView,
    millis: nat,
    i: int,
)
    requires
        0 <= i < status.features.len(),
        forall|j: int|
            i < j < status.features.len() ==> keys_differ(
                server.name,
                status.features[i],
                #[trigger] status.features[j],
            ),
    ensures
        shows_feature(
            collector::updated(all, server, status, millis),
            server.name,
            status.features[i],
        ),
{
    lemma_with_features(
        collector::with_summary(all, server, status, millis),
        server.name,
        status.features,
        i,
    );
}

/// A collection removes no sample, and no sample changes its labels.
pub proof fn law_update_keeps_samples(
    all: FamiliesView,
    server: LicenseServerConfigView,
    status: ServerStatusView,
    millis: nat,
)
    ensures
        keeps_samples(all, collector::updated(all, server, status, millis)),
{
    lemma_family_names();
    let summary = collector::with_summary(all, server, status, millis);
    lemma_with_features(summary, server.name, status.features, 0);
    assert(keeps_samples(all, summary));
    lemma_keeps_samples_transitive(
        all,
        summary,
        collector::updated(all, server, status, millis),
    );
}

/// The key under which the values of a feature are kept in a family.
pub open spec fn feature_key(
    name: Seq<char>,
    server: Seq<char>,
    feature: FeatureUsageView,
) -> u64 {
    if name == metrics::FEATURE_USERS@ {
        families::label_hash(families::joined(seq![server, feature.name]))
    } else {
        families::label_hash(families::joined(seq![server, feature.name, feature.vendor]))
    }
}

/// A collection sets the sample of a family under a key.
pub open spec fn sets(
    server: LicenseServerConfigView,
    status: ServerStatusView,
    name: Seq<char>,
    key: u64,
) -> bool {
    ||| name == metrics::SERVER_STATUS@ && key == families::label_hash(
        families::joined(
            seq![
                server.name,
                collector::host_label(server, status),
                collector::port_label(server, status),
            ],
        ),
    )
    ||| name == metrics::SERVER_FEATURES_TOTAL@ && key == families::label_hash(
        families::joined(seq![server.name]),
    )
    ||| name == metrics::SCRAPE_DURATION@ && key == families::label_hash(
        families::joined(seq![server.name]),
    )
    ||| name == metrics::SCRAPE_TOTAL@ && key == families::label_hash(
        families::joined(seq![server.name, collector::outcome_label(status)]),
    )
    ||| is_feature_family(name) && exists|i: int|
        0 <= i < status.features.len() && key == feature_key(
            name,
            server.name,
            #[trigger] status.features[i],
        )
}

/// The sample of a family under a key is the same before and after.
pub open spec fn same_sample(
    before: FamiliesView,
    after: FamiliesView,
    name: Seq<char>,
    key: u64,
) -> bool {
    &&& after.contains_key(name)
    &&& after[name].samples.contains_key(key)
    &&& after[name].samples[key] == before[name].samples[key]
}

/// Setting the metrics of features leaves samples under other keys alone.
proof fn lemma_with_features_elsewhere(
    all: FamiliesView,
    server: Seq<char>,
    features: Seq<FeatureUsageView>,
    name: Seq<char>,
    key: u64,
)
    requires
        all.contains_key(name),
        all[name].samples.contains_key(key),
        is_feature_family(name) ==> forall|i: int|
            0 <= i < features.len() ==> key != feature_key(name, server, #[trigger] features[i]),
    ensures
        same_sample(all, collector::with_features(all, server, features), name, key),
    decreases features.len(),
{
    if features.len() > 0 {
        let rest = features.drop_last();
        if is_feature_family(name) {
            assert forall|i: int| 0 <= i < rest.len() implies key != feature_key(
                name,
                server,
                #[trigger] rest[i],
            ) by {
                assert(rest[i] == features[i]);
            }
            assert(key != feature_key(name, server, features[features.len() - 1]));
        }
        lemma_with_features_elsewhere(all, server, rest, name, key);
        lemma_family_names();
    }
}

/// A collection leaves every sample alone that it does not set: a feature or a
/// server that no longer appears keeps its last values.
pub proof fn law_update_elsewhere(
    all: FamiliesView,
    server: LicenseServerConfigView,
    status: ServerStatusView,
    millis: nat,
    name: Seq<char>,
    key: u64,
)
    requires
        all.contains_key(name),
        all[name].samples.contains_key(key),
        !sets(server, status, name, key),
    ensures
        same_sample(all, collector::updated(all, server, status, millis), name, key),
{
    lemma_family_names();
    let summary = collector::with_summary(all, server, status, millis);
    assert(same_sample(all, summary, name, key));
    lemma_with_features_elsewhere(summary, server.name, status.features, name, key);
}

/// The families have the same names, and each is as it was made.
pub open spec fn same_families(before: FamiliesView, after: FamiliesView) -> bool {
    forall|name: Seq<char>|
        (#[trigger] after.contains_key(name) <==> before.contains_key(name)) && (
        before.contains_key(name) ==> {
            &&& after[name].kind == before[name].kind
            &&& after[name].help == before[name].help
            &&& after[name].labels == before[name].labels
        })
}

/// Setting the metrics of features neither adds a family nor changes how one
/// was made.
proof fn lemma_with_features_families(
    all: FamiliesView,
    server: Seq<char>,
    features: Seq<FeatureUsageView>,
)
    requires
        all.contains_key(metrics::FEATURE_TOTAL@),
        all.contains_key(metrics::FEATURE_USED@),
        all.contains_key(metrics::FEATURE_IDLE@),
        all.contains_key(metrics::FEATURE_USERS@),
    ensures
        same_families(all, collector::with_features(all, server, features)),
    decreases features.len(),
{
    if features.len() > 0 {
        lemma_with_features_families(all, server, features.drop_last());
        let before = collector::with_features(all, server, features.drop_last());
        assert(before.contains_key(metrics::FEATURE_TOTAL@));
        assert(before.contains_key(metrics::FEATURE_USED@));
        assert(before.contains_key(metrics::FEATURE_IDLE@));
        assert(before.contains_key(metrics::FEATURE_USERS@));
        assert(same_families(before, collector::with_feature(before, server, features.last())));
    }
}

/// A collection neither adds a family nor changes how one was made, so that only
/// the families of the collector are ever exposed.
pub proof fn law_update_keeps_families(
    all: FamiliesView,
    server: LicenseServerConfigView,
    status: ServerStatusView,
    millis: nat,
)
    requires
        metrics::has_all(all),
    ensures
        same_families(all, collector::updated(all, server, status, millis)),
{
    lemma_has(all);
    let summary = collector::with_summary(all, server, status, millis);
    assert(same_families(all, summary));
    assert(summary.contains_key(metrics::FEATURE_TOTAL@));
    assert(summary.contains_key(metrics::FEATURE_USED@));
    assert(summary.contains_key(metrics::FEATURE_IDLE@));
    assert(summary.contains_key(metrics::FEATURE_USERS@));
    lemma_with_features_families(summary, server.name, status.features);
}

/// A collected status is labelled with the configured host and port.
pub proof fn law_configured_labels(server: LicenseServerConfigView, status: ServerStatusView)
    requires
        collect::identified(status, server) == status,
    ensures
        collector::host_label(server, status) == server.host,
        collector::port_label(server, status) == text::decimal(server.port as nat),
{
}

/// A failed collection shows the server as down and is counted as a failure.
pub proof fn law_failure_shows_down(
    all: FamiliesView,
    server: LicenseServerConfigView,
    status: ServerStatusView,
    millis: nat,
)
    requires
        metrics::has_all(all),
        collect_laws::is_failure_of(status, server),
    ensures
        ({
            let next = collector::updated(all, server, status, millis);
            let outcome = seq![server.name, "failure"@];
            let counted = all[metrics::SCRAPE_TOTAL@].count(
                families::label_hash(families::joined(outcome)),
            );
            &&& value_of(
                next,
                metrics::SERVER_STATUS@,
                seq![server.name, server.host, text::decimal(server.port as nat)],
            ) == Some(ValueView::Whole(0))
            &&& counted < u64::MAX ==> value_of(next, metrics::SCRAPE_TOTAL@, outcome) == Some(
                ValueView::Whole(counted + 1),
            )
        }),
{
    law_configured_labels(server, status);
    law_update_shows_server(all, server, status, millis);
}

/// What is read from an output can be recorded: its counts are not negative, so
/// that the free licenses are an `i64`.
pub proof fn law_collected_can_be_recorded(features: Seq<FeatureUsageView>)
    requires
        lmstat::features_sound(features),
    ensures
        collector::idles_in_range(features),
{
}

/// The metrics after collections of one server, each with its status and its
/// duration.
pub open spec fn after_updates(
    all: FamiliesView,
    server: LicenseServerConfigView,
    updates: Seq<(ServerStatusView, nat)>,
) -> FamiliesView
    decreases updates.len(),
{
    if updates.len() == 0 {
        all
    } else {
        collector::updated(
            after_updates(all, server, updates.drop_last()),
            server,
            updates.last().0,
            updates.last().1,
        )
    }
}

/// How many of the collections found the server up.
pub open spec fn ups(updates: Seq<(ServerStatusView, nat)>) -> int
    decreases updates.len(),
{
    if updates.len() == 0 {
        0
    } else {
        ups(updates.drop_last()) + if updates.last().0.is_up() {
            1int
        } else {
            0
        }
    }
}

/// The key under which collections of a server with an outcome are counted.
pub open spec fn outcome_key(server: Seq<char>, outcome: Seq<char>) -> u64 {
    families::label_hash(families::joined(seq![server, outcome]))
}

/// How many collections of a server with an outcome are counted.
pub open spec fn scrapes(all: FamiliesView, server: Seq<char>, outcome: Seq<char>) -> int {
    all[metrics::SCRAPE_TOTAL@].count(outcome_key(server, outcome))
}

/// The outcomes of a server are counted under different keys.
proof fn lemma_outcome_keys(server: Seq<char>)
    ensures
        outcome_key(server, "success"@) != outcome_key(server, "failure"@),
{
    reveal_with_fuel(families::joined, 3);
    let success = seq![server, "success"@];
    let failure = seq![server, "failure"@];
    assert(success.drop_last() =~= seq![server]);
    assert(failure.drop_last() =~= seq![server]);
    assert(families::joined(success) =~= server + "success"@);
    assert(families::joined(failure) =~= server + "failure"@);
    hashing::lemma_fnv_text_append(hashing::FNV_OFFSET, server, "success"@);
    hashing::lemma_fnv_text_append(hashing::FNV_OFFSET, server, "failure"@);
    hashing::lemma_outcomes_differ(hashing::fnv_text(hashing::FNV_OFFSET, server));
}

/// One collection is counted once, under its outcome, and leaves the families of
/// the collector in place.
proof fn lemma_update_counts(
    all: FamiliesView,
    server: LicenseServerConfigView,
    status: ServerStatusView,
    millis: nat,
)
    requires
        metrics::has_all(all),
        scrapes(all, server.name, "success"@) < u64::MAX,
        scrapes(all, server.name, "failure"@) < u64::MAX,
    ensures
        ({
            let next = collector::updated(all, server, status, millis);
            &&& metrics::has_all(next)
            &&& scrapes(next, server.name, "success"@) == scrapes(all, server.name, "success"@)
                + if status.is_up() {
                1int
            } else {
                0
            }
            &&& scrapes(next, server.name, "failure"@) == scrapes(all, server.name, "failure"@)
                + if status.is_up() {
                0int
            } else {
                1
            }
        }),
{
    let summary = collector::with_summary(all, server, status, millis);
    let next = collector::updated(all, server, status, millis);
    lemma_family_names();
    lemma_has(all);
    lemma_outcome_keys(server.name);
    law_update_keeps_families(all, server, status, millis);
    assert forall|i: int| 0 <= i < metrics::definitions().len() implies metrics::has_family(
        next,
        #[trigger] metrics::definitions()[i],
    ) by {
        assert(metrics::has_family(all, metrics::definitions()[i]));
        assert(next.contains_key(metrics::definitions()[i].name));
    }
    lemma_with_features(summary, server.name, status.features, 0);
    assert(next.contains_key(metrics::SCRAPE_TOTAL@));
    assert(summary[metrics::SCRAPE_TOTAL@] == all[metrics::SCRAPE_TOTAL@].counted(
        outcome_key(server.name, collector::outcome_label(status)),
        seq![server.name, collector::outcome_label(status)],
    ));
}

/// Every collection of a server is counted exactly once: after any number of
/// them, the successes are those that found it up, and the failures the others.
/// Whether it is up is told by the last one.
pub proof fn law_collections_counted(
    all: FamiliesView,
    server: LicenseServerConfigView,
    updates: Seq<(ServerStatusView, nat)>,
)
    requires
        metrics::has_all(all),
        scrapes(all, server.name, "success"@) + updates.len() <= u64::MAX,
        scrapes(all, server.name, "failure"@) + updates.len() <= u64::MAX,
    ensures
        ({
            let next = after_updates(all, server, updates);
            let last = updates.last().0;
            &&& metrics::has_all(next)
            &&& 0 <= ups(updates) <= updates.len()
            &&& scrapes(next, server.name, "success"@) == scrapes(all, server.name, "success"@)
                + ups(updates)
            &&& scrapes(next, server.name, "failure"@) == scrapes(all, server.name, "failure"@)
                + updates.len() - ups(updates)
            &&& updates.len() > 0 ==> value_of(
                next,
                metrics::SERVER_STATUS@,
                seq![
                    server.name,
                    collector::host_label(server, last),
                    collector::port_label(server, last),
                ],
            ) == Some(
                ValueView::Whole(
                    if last.is_up() {
                        1
                    } else {
                        0
                    },
                ),
            )
        }),
    decreases updates.len(),
{
    if updates.len() > 0 {
        let (status, millis) = updates.last();
        let before = after_updates(all, server, updates.drop_last());
        law_collections_counted(all, server, updates.drop_last());
        lemma_update_counts(before, server, status, millis);
        law_update_shows_server(before, server, status, millis);
    }
}

/// On fresh metrics the successes and failures of a server add up to the number
/// of its collections.
pub proof fn law_fresh_collections_add_up(
    all: FamiliesView,
    server: LicenseServerConfigView,
    updates: Seq<(ServerStatusView, nat)>,
)
    requires
        metrics::has_all(all),
        families::no_samples(all),
        updates.len() <= u64::MAX,
    ensures
        ({
            let next = after_updates(all, server, updates);
            &&& scrapes(next, server.name, "success"@) == ups(updates)
            &&& scrapes(next, server.name, "success"@) + scrapes(next, server.name, "failure"@)
                == updates.len()
        }),
{
    lemma_has(all);
    law_collections_counted(all, server, updates);
}

/// A status is labelled with its own host and port, or with the configured ones
/// where it has none; the port reads back from its label.
pub proof fn law_labels(server: LicenseServerConfigView, status: ServerStatusView)
    ensures
        status.server_host.len() > 0 ==> collector::host_label(server, status)
            == status.server_host,
        status.server_host.len() == 0 ==> collector::host_label(server, status) == server.host,
        status.lmgrd_port != 0 ==> text::parsed_u16(collector::port_label(server, status)) == Some(
            status.lmgrd_port as int,
        ),
        status.lmgrd_port == 0 ==> text::parsed_u16(collector::port_label(server, status)) == Some(
            server.port as int,
        ),
{
    text_laws::law_ports_read_back(status.lmgrd_port as nat);
    text_laws::law_ports_read_back(server.port as nat);
}

/// The outcome tells whether the server is up.
pub proof fn law_outcome(status: ServerStatusView)
    ensures
        collector::outcome_label(status) == "success"@ <==> status.is_up(),
        collector::outcome_label(status) == "failure"@ <==> !status.is_up(),
{
    reveal_strlit("success");
    reveal_strlit("failure");
    assert("success"@[0] != "failure"@[0]);
}

/// A duration is rounded to the nearest thousandth of a second, and of two to the
/// even one: twice the distance is at most a thousandth, and less where the
/// result is odd.
pub proof fn law_rounded(bits: u64)
    requires
        collector::is_duration(bits),
        collector::scale(bits) >= 0,
    ensures
        ({
            let unit = vstd::arithmetic::power2::pow2(collector::scale(bits) as nat) as int;
            let exact = collector::significand(bits) * 1000;
            let rounded = collector::rounded_millis(bits) * unit;
            &&& 2 * (rounded - exact) <= unit
            &&& 2 * (exact - rounded) <= unit
            &&& collector::rounded_millis(bits) % 2 == 1 ==> 2 * (rounded - exact) < unit && 2 * (
            exact - rounded) < unit
        }),
{
    let unit = vstd::arithmetic::power2::pow2(collector::scale(bits) as nat) as int;
    let exact = (collector::significand(bits) * 1000) as int;
    vstd::arithmetic::power2::lemma_pow2_pos(collector::scale(bits) as nat);
    vstd::arithmetic::div_mod::lemma_fundamental_div_mod(exact, unit);
    let q = exact / unit;
    assert(unit * q == q * unit) by (nonlinear_arith);
    assert((q + 1) * unit == q * unit + unit) by (nonlinear_arith);
}

/// From 2^53 seconds on, a duration is a whole number of seconds, and its
/// thousandths are exact.
pub proof fn law_long_durations(bits: u64)
    requires
        collector::is_duration(bits),
        collector::scale(bits) < 0,
    ensures
        collector::scale(bits) == -1,
        collector::rounded_millis(bits) == collector::significand(bits) * 2 * 1000,
{
    assert(bits / collector::EXPONENT_UNIT <= 1076);
    vstd::arithmetic::power2::lemma2_to64();
    assert(vstd::arithmetic::power2::pow2((-collector::scale(bits)) as nat) == 2);
}

/// How the bits of a double tell its significand and its scale: one second has the
/// bits 0x3ff0000000000000; the next bits are those of the next double, one unit of
/// the significand on, up to the next power of two; and 2^52 bits on stands twice
/// the double. The smallest doubles are their bits in units of 2^-1074.
pub proof fn law_double(bits: u64)
    ensures
        collector::significand(0x3ff0_0000_0000_0000) == 0x10_0000_0000_0000,
        collector::scale(0x3ff0_0000_0000_0000) == 52,
        bits % 0x10_0000_0000_0000 != 0xf_ffff_ffff_ffff ==> collector::significand(
            (bits + 1) as u64,
        ) == collector::significand(bits) + 1 && collector::scale((bits + 1) as u64)
            == collector::scale(bits),
        0x10_0000_0000_0000 <= bits < 0x7fe0_0000_0000_0000 ==> collector::significand(
            (bits + 0x10_0000_0000_0000) as u64,
        ) == collector::significand(bits) && collector::scale(
            (bits + 0x10_0000_0000_0000) as u64,
        ) == collector::scale(bits) - 1,
        bits < 0x10_0000_0000_0000 ==> collector::significand(bits) == bits && collector::scale(
            bits,
        ) == 1074,
{
}

/// Taking in a collection changes the metrics and the kept statuses alone.
pub proof fn law_recorded(
    before: collector::LicenseCollectorView,
    server: LicenseServerConfigView,
    status: ServerStatusView,
    bits: u64,
)
    requires
        names_distinct(before.last_status),
    ensures
        ({
            let after = before.recorded(server, status, bits);
            &&& after.servers == before.servers
            &&& after.interval == before.interval
            &&& after.timeout == before.timeout
            &&& after.retries == before.retries
            &&& names_distinct(after.last_status)
            &&& exists|i: int|
                0 <= i < after.last_status.len() && (#[trigger] after.last_status[i]).0
                    == server.name && after.last_status[i].1 == status
            &&& metrics::has_all(before.metrics) ==> same_families(before.metrics, after.metrics)
            &&& metrics::has_all(before.metrics) ==> value_of(
                after.metrics,
                metrics::SERVER_FEATURES_TOTAL@,
                seq![server.name],
            ) == Some(ValueView::Whole(status.features.len() as i64 as int))
        }),
{
    let millis = collector::rounded_millis(bits);
    law_stored(before.last_status, server.name, status);
    let kept = collector::stored(before.last_status, server.name, status);
    let i = choose|i: int| 0 <= i < kept.len() && (#[trigger] kept[i]).0 == server.name;
    assert(kept[i].1 == status);
    assert(before.recorded(server, status, bits).last_status[i] == kept[i]);
    if metrics::has_all(before.metrics) {
        law_update_keeps_families(before.metrics, server, status, millis);
        law_update_shows_server(before.metrics, server, status, millis);
    }
}

/// The sample of a family under the given label values was set to a value. A new
/// sample has these labels; one that was there keeps its own. Samples under other
/// keys and other families are as they were.
pub open spec fn sets_sample(
    before: FamiliesView,
    after: FamiliesView,
    name: Seq<char>,
    values: Seq<Seq<char>>,
    value: ValueView,
) -> bool {
    let key = families::label_hash(families::joined(values));
    let was = before[name].samples.contains_key(key);
    &&& after.contains_key(name)
    &&& value_of(after, name, values) == Some(value)
    &&& after[name].samples[key].labels == if was {
        before[name].samples[key].labels
    } else {
        values
    }
    &&& forall|other: u64|
        other != key ==> (#[trigger] after[name].samples.contains_key(other)
            <==> before[name].samples.contains_key(other)) && after[name].samples[other]
            == before[name].samples[other]
    &&& forall|other: Seq<char>|
        other != name ==> (#[trigger] after.contains_key(other) <==> before.contains_key(other))
            && after[other] == before[other]
}

/// Setting a gauge sets its sample, and nothing else.
pub proof fn law_set_gauge(
    all: FamiliesView,
    name: Seq<char>,
    values: Seq<Seq<char>>,
    value: int,
    seconds: Seq<char>,
)
    ensures
        sets_sample(
            all,
            metrics::with_gauge(all, name, values, value),
            name,
            values,
            ValueView::Whole(value),
        ),
        sets_sample(
            all,
            metrics::with_decimal(all, name, values, seconds),
            name,
            values,
            ValueView::Decimal(seconds),
        ),
{
}

/// Counting an event adds one to its sample, which starts at zero, and does
/// nothing else.
pub proof fn law_count(all: FamiliesView, name: Seq<char>, values: Seq<Seq<char>>, n: int)
    requires
        all.contains_key(name),
        value_of(all, name, values) == Some(ValueView::Whole(n)) || (value_of(all, name, values)
            is None && n == 0),
        0 <= n < u64::MAX,
    ensures
        sets_sample(
            all,
            metrics::with_count(all, name, values),
            name,
            values,
            ValueView::Whole(n + 1),
        ),
{
}

} // verus!
