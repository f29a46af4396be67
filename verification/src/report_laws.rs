//! What holds of every report.

use crate::lmutil::{self, ServerStatusView};
use crate::report;
use crate::text;
use crate::text_laws;
use vstd::prelude::*;

verus! {

/// A status by server name.
pub type Entry = (Seq<char>, ServerStatusView);

/// The text is a number written in decimal digits.
pub open spec fn is_number(s: Seq<char>, n: nat) -> bool {
    &&& s.len() > 0
    &&& text::all_digits(s)
    &&& text::digits_value(s) == n
}

/// The text is an integer written in decimal digits, with a minus sign where it is
/// below zero.
pub open spec fn is_integer(s: Seq<char>, n: int) -> bool {
    if n < 0 {
        s.len() > 0 && s[0] == '-' && is_number(s.drop_first(), (-n) as nat)
    } else {
        is_number(s, n as nat)
    }
}

/// Numbers are written in decimal digits.
proof fn lemma_numbers(n: nat)
    ensures
        is_number(text::decimal(n), n),
{
    text_laws::law_decimal(n);
}

/// Integers are written in decimal digits, with a sign where needed.
proof fn lemma_integers(n: int)
    ensures
        is_integer(text::signed_decimal(n), n),
{
    if n < 0 {
        lemma_numbers((-n) as nat);
        assert(text::signed_decimal(n).drop_first() =~= text::decimal((-n) as nat));
    } else {
        lemma_numbers(n as nat);
    }
}

/// Without any status the report is one line that says so.
pub proof fn law_empty_report(percents: Seq<Seq<Seq<char>>>)
    ensures
        report::report_view(Seq::empty(), percents) == seq![
            "没有可输出的采集结果，请检查 license_servers 配置"@,
        ],
{
}

/// The report of servers is the reports of each, one after the other.
pub proof fn law_report_appends(
    first: Seq<Entry>,
    first_percents: Seq<Seq<Seq<char>>>,
    rest: Seq<Entry>,
    rest_percents: Seq<Seq<Seq<char>>>,
)
    requires
        first.len() > 0,
        rest.len() > 0,
        first_percents.len() == first.len(),
        rest_percents.len() == rest.len(),
    ensures
        report::report_view(first + rest, first_percents + rest_percents) == report::report_view(
            first,
            first_percents,
        ) + report::report_view(rest, rest_percents),
{
    lemma_servers_append(first, first_percents, rest, rest_percents);
}

/// The lines of servers, put together.
proof fn lemma_servers_append(
    first: Seq<Entry>,
    first_percents: Seq<Seq<Seq<char>>>,
    rest: Seq<Entry>,
    rest_percents: Seq<Seq<Seq<char>>>,
)
    requires
        first_percents.len() == first.len(),
        rest_percents.len() == rest.len(),
    ensures
        report::all_server_lines(first + rest, first_percents + rest_percents)
            == report::all_server_lines(first, first_percents) + report::all_server_lines(
            rest,
            rest_percents,
        ),
    decreases rest.len(),
{
    let all = first + rest;
    let percents = first_percents + rest_percents;
    if rest.len() == 0 {
        assert(all =~= first);
        assert(percents =~= first_percents);
        assert(report::all_server_lines(all, percents) =~= report::all_server_lines(
            first,
            first_percents,
        ) + report::all_server_lines(rest, rest_percents));
    } else {
        assert(all.drop_last() =~= first + rest.drop_last());
        assert(percents.drop_last() =~= first_percents + rest_percents.drop_last());
        lemma_servers_append(
            first,
            first_percents,
            rest.drop_last(),
            rest_percents.drop_last(),
        );
        assert(report::all_server_lines(all, percents) =~= report::all_server_lines(
            first,
            first_percents,
        ) + report::all_server_lines(rest, rest_percents));
    }
}

/// The lines of one server.
pub open spec fn lines_of_one(
    name: Seq<char>,
    status: ServerStatusView,
    percents: Seq<Seq<char>>,
) -> Seq<Seq<char>> {
    report::report_view(seq![(name, status)], seq![percents])
}

/// The lines of one server are those that are written for it.
proof fn lemma_one(name: Seq<char>, status: ServerStatusView, percents: Seq<Seq<char>>)
    ensures
        lines_of_one(name, status, percents) == report::server_lines(name, status, percents),
{
    let one: Seq<Entry> = seq![(name, status)];
    let shares = seq![percents];
    reveal_with_fuel(report::all_server_lines, 2);
    assert(one.drop_last() =~= Seq::<Entry>::empty());
    assert(lines_of_one(name, status, percents) =~= report::server_lines(name, status, percents));
}

/// A server has an empty line, a title, a status and a line of totals, then a
/// line for the error where there is one, and then one line for each feature.
pub proof fn law_report_shape(
    name: Seq<char>,
    status: ServerStatusView,
    percents: Seq<Seq<char>>,
)
    ensures
        ({
            let lines = lines_of_one(name, status, percents);
            let errors: nat = if status.parse_error.len() > 0 {
                1
            } else {
                0
            };
            &&& lines.len() == 4 + errors + status.features.len()
            &&& lines[0].len() == 0
            &&& errors == 1 ==> lines[4] == "Error: "@ + status.parse_error
        }),
{
    lemma_one(name, status, percents);
}

/// The title tells the server's name, host and port.
pub proof fn law_title(name: Seq<char>, status: ServerStatusView, percents: Seq<Seq<char>>)
    ensures
        exists|port: Seq<char>|
            is_number(port, status.lmgrd_port as nat) && lines_of_one(name, status, percents)[1]
                == #[trigger] ("=== "@ + name + " ("@ + status.server_host + ":"@ + port
                + ") ==="@),
{
    lemma_one(name, status, percents);
    let port = text::decimal(status.lmgrd_port as nat);
    lemma_numbers(status.lmgrd_port as nat);
    assert(lines_of_one(name, status, percents)[1] == "=== "@ + name + " ("@ + status.server_host
        + ":"@ + port + ") ==="@);
}

/// A status that is not empty is shown as it is, whatever it says; an empty one
/// is unknown.
pub proof fn law_status_line(name: Seq<char>, status: ServerStatusView, percents: Seq<Seq<char>>)
    ensures
        status.status.len() > 0 ==> lines_of_one(name, status, percents)[2] == "Status: "@
            + status.status,
        status.status.len() == 0 ==> lines_of_one(name, status, percents)[2] == "Status: "@
            + "UNKNOWN"@,
{
    lemma_one(name, status, percents);
}

/// Servers of different statuses have different status lines, unless one status
/// is empty.
pub proof fn law_status_lines_differ(
    name: Seq<char>,
    status: ServerStatusView,
    percents: Seq<Seq<char>>,
    other_name: Seq<char>,
    other: ServerStatusView,
    other_percents: Seq<Seq<char>>,
)
    requires
        status.status != other.status,
        status.status.len() > 0,
        other.status.len() > 0,
    ensures
        lines_of_one(name, status, percents)[2] != lines_of_one(
            other_name,
            other,
            other_percents,
        )[2],
{
    law_status_line(name, status, percents);
    law_status_line(other_name, other, other_percents);
    let a = "Status: "@ + status.status;
    let b = "Status: "@ + other.status;
    if a == b {
        let n = "Status: "@.len() as int;
        assert(a.skip(n) =~= status.status);
        assert(b.skip(n) =~= other.status);
    }
}

/// The line of totals tells the number of features, and the licenses issued and in
/// use over all of them.
pub proof fn law_totals_line(name: Seq<char>, status: ServerStatusView, percents: Seq<Seq<char>>)
    ensures
        exists|count: Seq<char>, total: Seq<char>, used: Seq<char>|
            is_number(count, status.features.len()) && is_integer(
                total,
                lmutil::sum(lmutil::totals(status.features)),
            ) && is_integer(used, lmutil::sum(lmutil::useds(status.features))) && lines_of_one(
                name,
                status,
                percents,
            )[3] == #[trigger] ("Features: "@ + count + ", Total: "@ + total + ", Used: "@ + used),
{
    lemma_one(name, status, percents);
    let count = text::decimal(status.features.len());
    let total = text::signed_decimal(lmutil::sum(lmutil::totals(status.features)));
    let used = text::signed_decimal(lmutil::sum(lmutil::useds(status.features)));
    lemma_numbers(status.features.len());
    lemma_integers(lmutil::sum(lmutil::totals(status.features)));
    lemma_integers(lmutil::sum(lmutil::useds(status.features)));
    assert(lines_of_one(name, status, percents)[3] == "Features: "@ + count + ", Total: "@ + total
        + ", Used: "@ + used);
}

/// The text is another one with spaces behind it up to a width.
pub open spec fn is_left_aligned(s: Seq<char>, t: Seq<char>, width: nat) -> bool {
    &&& s.len() == if t.len() < width {
        width
    } else {
        t.len()
    }
    &&& s.take(t.len() as int) == t
    &&& forall|i: int| t.len() <= i < s.len() ==> #[trigger] s[i] == ' '
}

/// The text is an integer with spaces before it up to a width.
pub open spec fn is_right_aligned(s: Seq<char>, n: int, width: nat) -> bool {
    exists|k: int| #[trigger] is_right_aligned_at(s, n, width, k)
}

/// An integer stands from a position on, behind spaces up to a width.
pub open spec fn is_right_aligned_at(s: Seq<char>, n: int, width: nat, k: int) -> bool {
    &&& 0 <= k <= s.len()
    &&& is_integer(s.skip(k), n)
    &&& k > 0 ==> s.len() == width
    &&& s.len() >= width
    &&& forall|i: int| 0 <= i < k ==> #[trigger] s[i] == ' '
}

/// An integer aligned to the right.
proof fn lemma_right_aligned(n: int, width: nat)
    ensures
        is_right_aligned(
            report::right_aligned(text::signed_decimal(n), width as int),
            n,
            width,
        ),
{
    let digits = text::signed_decimal(n);
    let s = report::right_aligned(digits, width as int);
    lemma_integers(n);
    text_laws::law_aligned(digits, width);
    let k = s.len() - digits.len();
    assert(is_right_aligned_at(s, n, width, k));
}

/// The parts of the line of a feature.
pub open spec fn feature_line_of(
    label: Seq<char>,
    used: Seq<char>,
    total: Seq<char>,
    percent: Seq<char>,
    users: Seq<char>,
) -> Seq<char> {
    "  "@ + label + " "@ + used + "/"@ + total + " ("@ + percent + "%) users="@ + users
}

/// The lines of the features stand at the end, in the order of the features. Each
/// tells the name, the licenses in use and issued, the share, and the number of
/// users.
pub proof fn law_feature_line(
    name: Seq<char>,
    status: ServerStatusView,
    percents: Seq<Seq<char>>,
    i: int,
)
    requires
        0 <= i < status.features.len(),
    ensures
        ({
            let lines = lines_of_one(name, status, percents);
            let feature = status.features[i];
            exists|label: Seq<char>, used: Seq<char>, total: Seq<char>, users: Seq<char>|
                is_left_aligned(label, feature.name, 20) && is_right_aligned(
                    used,
                    feature.used as int,
                    4,
                ) && is_right_aligned(total, feature.total as int, 4) && is_number(
                    users,
                    feature.users.len(),
                ) && lines[lines.len() - status.features.len() + i] == #[trigger] feature_line_of(
                    label,
                    used,
                    total,
                    percents[i],
                    users,
                )
        }),
{
    lemma_one(name, status, percents);
    law_report_shape(name, status, percents);
    let lines = lines_of_one(name, status, percents);
    let feature = status.features[i];
    let label = report::left_aligned(feature.name, 20);
    let used = report::right_aligned(text::signed_decimal(feature.used as int), 4);
    let total = report::right_aligned(text::signed_decimal(feature.total as int), 4);
    let users = text::decimal(feature.users.len());
    text_laws::law_aligned(feature.name, 20);
    lemma_right_aligned(feature.used as int, 4);
    lemma_right_aligned(feature.total as int, 4);
    lemma_numbers(feature.users.len());
    assert(lines[lines.len() - status.features.len() + i] == report::feature_line(
        feature,
        percents[i],
    ));
    assert(report::feature_line(feature, percents[i]) == feature_line_of(
        label,
        used,
        total,
        percents[i],
        users,
    ));
}

} // verus!
