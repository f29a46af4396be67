//! The report of a single collection, as it is printed.

use crate::collector;
use crate::lmutil::{self, FeatureUsage, FeatureUsageView, ServerStatus, ServerStatusView};
use crate::text;
use vstd::prelude::*;
use vstd::string::*;

verus! {

/// A text and the spaces that fill the width behind it.
pub open spec fn left_aligned(s: Seq<char>, width: int) -> Seq<char> {
    s + text::spaces(width - s.len())
}

/// The spaces that fill the width before a text, and the text.
pub open spec fn right_aligned(s: Seq<char>, width: int) -> Seq<char> {
    text::spaces(width - s.len()) + s
}

/// The line of a feature, with the share of its licenses in use given in per cent.
pub open spec fn feature_line(feature: FeatureUsageView, percent: Seq<char>) -> Seq<char> {
    "  "@ + left_aligned(feature.name, 20) + " "@ + right_aligned(
        text::signed_decimal(feature.used as int),
        4,
    ) + "/"@ + right_aligned(text::signed_decimal(feature.total as int), 4) + " ("@ + percent
        + "%) users="@ + text::decimal(feature.users.len())
}

/// The lines of features.
pub open spec fn feature_lines(
    features: Seq<FeatureUsageView>,
    percents: Seq<Seq<char>>,
) -> Seq<Seq<char>> {
    Seq::new(features.len(), |i: int| feature_line(features[i], percents[i]))
}

/// The line that names a server.
pub open spec fn title_line(name: Seq<char>, status: ServerStatusView) -> Seq<char> {
    "=== "@ + name + " ("@ + status.server_host + ":"@ + text::decimal(status.lmgrd_port as nat)
        + ") ==="@
}

/// The line that tells the status; an empty one is unknown.
pub open spec fn status_line(status: ServerStatusView) -> Seq<char> {
    "Status: "@ + if status.status.len() == 0 {
        "UNKNOWN"@
    } else {
        status.status
    }
}

/// The line that sums up the licenses.
pub open spec fn totals_line(status: ServerStatusView) -> Seq<char> {
    "Features: "@ + text::decimal(status.features.len()) + ", Total: "@ + text::signed_decimal(
        lmutil::sum(lmutil::totals(status.features)),
    ) + ", Used: "@ + text::signed_decimal(lmutil::sum(lmutil::useds(status.features)))
}

/// The lines of a server: an empty one, its name, status and totals, the error
/// where there is one, and its features.
pub open spec fn server_lines(
    name: Seq<char>,
    status: ServerStatusView,
    percents: Seq<Seq<char>>,
) -> Seq<Seq<char>> {
    let head = seq![
        Seq::empty(),
        title_line(name, status),
        status_line(status),
        totals_line(status),
    ];
    let error = if status.parse_error.len() == 0 {
        Seq::empty()
    } else {
        seq!["Error: "@ + status.parse_error]
    };
    head + error + feature_lines(status.features, percents)
}

/// The lines of servers, one after the other.
pub open spec fn all_server_lines(
    statuses: Seq<(Seq<char>, ServerStatusView)>,
    percents: Seq<Seq<Seq<char>>>,
) -> Seq<Seq<char>>
    decreases statuses.len(),
{
    if statuses.len() == 0 {
        Seq::empty()
    } else {
        all_server_lines(statuses.drop_last(), percents.drop_last()) + server_lines(
            statuses.last().0,
            statuses.last().1,
            percents.last(),
        )
    }
}

/// The lines of the report.
pub open spec fn report_view(
    statuses: Seq<(Seq<char>, ServerStatusView)>,
    percents: Seq<Seq<Seq<char>>>,
) -> Seq<Seq<char>> {
    if statuses.len() == 0 {
        seq!["没有可输出的采集结果，请检查 license_servers 配置"@]
    } else {
        all_server_lines(statuses, percents)
    }
}

/// The views of lists of texts.
pub open spec fn lists(texts: Seq<Vec<String>>) -> Seq<Seq<Seq<char>>> {
    Seq::new(texts.len(), |i: int| text::texts(texts[i]@))
}

/// The report can be written: there is a percentage for every feature, and the
/// licenses can be summed up within `i64`.
pub open spec fn is_reportable(
    statuses: Seq<(Seq<char>, ServerStatusView)>,
    percents: Seq<Seq<Seq<char>>>,
) -> bool {
    &&& percents.len() == statuses.len()
    &&& forall|i: int|
        0 <= i < statuses.len() ==> {
            &&& (#[trigger] percents[i]).len() == statuses[i].1.features.len()
            &&& lmutil::sums_in_range(lmutil::totals(statuses[i].1.features))
            &&& lmutil::sums_in_range(lmutil::useds(statuses[i].1.features))
        }
}

/// Writes the line of a feature.
fn write_feature(feature: &FeatureUsage, percent: &str) -> (r: String)
    ensures
        r@ == feature_line(feature@, percent@),
{
    let mut used = String::new();
    text::push_i64(&mut used, feature.used);
    let mut total = String::new();
    text::push_i64(&mut total, feature.total);
    let mut r = "  ".to_owned();
    text::push_left_aligned(&mut r, feature.name.as_str(), 20);
    r.append(" ");
    text::push_right_aligned(&mut r, used.as_str(), 4);
    r.append("/");
    text::push_right_aligned(&mut r, total.as_str(), 4);
    r.append(" (");
    r.append(percent);
    r.append("%) users=");
    text::push_u64(&mut r, feature.users.len() as u64);
    assert(used@ =~= text::signed_decimal(feature.used as int));
    assert(total@ =~= text::signed_decimal(feature.total as int));
    assert(r@ =~= feature_line(feature@, percent@));
    r
}

/// Writes the lines of a server behind the given ones.
fn write_server(lines: &mut Vec<String>, name: &str, status: &ServerStatus, percents: &Vec<String>)
    requires
        percents@.len() == status@.features.len(),
        lmutil::sums_in_range(lmutil::totals(status@.features)),
        lmutil::sums_in_range(lmutil::useds(status@.features)),
    ensures
        text::texts(final(lines)@) == text::texts(old(lines)@) + server_lines(
            name@,
            status@,
            text::texts(percents@),
        ),
{
    let ghost start = text::texts(lines@);
    let mut title = "=== ".to_owned();
    title.append(name);
    title.append(" (");
    title.append(status.server_host.as_str());
    title.append(":");
    text::push_u64(&mut title, status.lmgrd_port as u64);
    title.append(") ===");
    assert(title@ =~= title_line(name@, status@));

    let mut state = "Status: ".to_owned();
    if status.status.as_str().is_empty() {
        state.append("UNKNOWN");
    } else {
        state.append(status.status.as_str());
    }
    assert(state@ =~= status_line(status@));

    let mut totals = "Features: ".to_owned();
    text::push_u64(&mut totals, status.features.len() as u64);
    totals.append(", Total: ");
    text::push_i64(&mut totals, status.total_licenses());
    totals.append(", Used: ");
    text::push_i64(&mut totals, status.total_used());
    assert(totals@ =~= totals_line(status@));

    let empty = String::new();
    let ghost head = seq![empty@, title@, state@, totals@];
    lines.push(empty);
    lines.push(title);
    lines.push(state);
    lines.push(totals);
    assert(text::texts(lines@) =~= start + head);
    let ghost mut error = Seq::<Seq<char>>::empty();
    if !status.parse_error.as_str().is_empty() {
        let mut line = "Error: ".to_owned();
        line.append(status.parse_error.as_str());
        lines.push(line);
        proof {
            error = seq![line@];
        }
    }
    assert(text::texts(lines@) =~= start + (head + error));
    let ghost shares = text::texts(percents@);
    let ghost features = feature_lines(status@.features, shares);
    let mut i: usize = 0;
    assert(start + (head + error) =~= start + (head + error + features.take(0)));
    while i < status.features.len()
        invariant
            i <= status.features@.len(),
            percents@.len() == status.features@.len(),
            shares == text::texts(percents@),
            features == feature_lines(status@.features, shares),
            text::texts(lines@) == start + (head + error + features.take(i as int)),
        decreases status.features@.len() - i,
    {
        let ghost before = text::texts(lines@);
        let line = write_feature(&status.features[i], percents[i].as_str());
        lines.push(line);
        assert(line@ == features[i as int]);
        assert(text::texts(lines@) =~= before.push(line@));
        assert(text::texts(lines@) =~= start + (head + error + features.take(i + 1)));
        i += 1;
    }
    assert(features.take(i as int) =~= features);
    assert(head + error + features =~= server_lines(name@, status@, shares));
}

/// Writes the report. `percents` gives, for every feature of every server, the
/// share of its licenses in use in per cent.
pub fn report_lines(
    statuses: &Vec<(String, ServerStatus)>,
    percents: &Vec<Vec<String>>,
) -> (r: Vec<String>)
    requires
        is_reportable(collector::statuses_view(statuses@), lists(percents@)),
    ensures
        text::texts(r@) == report_view(collector::statuses_view(statuses@), lists(percents@)),
{
    let mut r: Vec<String> = Vec::new();
    let ghost all = collector::statuses_view(statuses@);
    let ghost shares = lists(percents@);
    if statuses.len() == 0 {
        r.push("没有可输出的采集结果，请检查 license_servers 配置".to_owned());
        assert(text::texts(r@) =~= report_view(all, shares));
        return r;
    }
    let mut i: usize = 0;
    assert(text::texts(r@) =~= all_server_lines(all.take(0), shares.take(0)));
    while i < statuses.len()
        invariant
            i <= statuses@.len(),
            all == collector::statuses_view(statuses@),
            shares == lists(percents@),
            is_reportable(all, shares),
            text::texts(r@) == all_server_lines(all.take(i as int), shares.take(i as int)),
        decreases statuses@.len() - i,
    {
        assert(shares[i as int] == text::texts(percents@[i as int]@));
        assert(all[i as int] == (statuses@[i as int].0@, statuses@[i as int].1@));
        assert(all.take(i + 1).drop_last() =~= all.take(i as int));
        assert(shares.take(i + 1).drop_last() =~= shares.take(i as int));
        write_server(&mut r, statuses[i].0.as_str(), &statuses[i].1, &percents[i]);
        i += 1;
    }
    assert(all.take(i as int) =~= all);
    assert(shares.take(i as int) =~= shares);
    r
}

} // verus!
