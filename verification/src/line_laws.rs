//! What each line of an output does to what has been read, by what its layout
//! captured.

use crate::lmstat::{self, LineRecordView, ProgressView};
use crate::lmstat_laws;
use crate::lmutil::{FeatureUsageView, UserUsageView};
use crate::lmutil_laws;
use crate::outside;
use crate::patterns;
use crate::text;
use crate::text_laws;
use vstd::prelude::*;

verus! {

/// The capture groups of a line.
pub type Groups = Seq<Option<Seq<char>>>;

/// The pattern matches a line with the given groups.
pub open spec fn captures(pattern: Seq<char>, line: Seq<char>, groups: Groups) -> bool {
    outside::regex_groups(pattern, line) == Some(groups)
}

/// The pattern does not match a line.
pub open spec fn misses(pattern: Seq<char>, line: Seq<char>) -> bool {
    outside::regex_groups(pattern, line) is None
}

/// No layout that tells of the server as a whole takes the line. The short layout
/// of the vendor daemon is not tried once a daemon is known.
pub open spec fn is_no_server_line(line: Seq<char>, before: ProgressView) -> bool {
    &&& misses(patterns::SERVER_STATUS@, line)
    &&& misses(patterns::VENDOR_DAEMON@, line)
    &&& before.status.vendor_daemon.len() > 0 || misses(patterns::VENDOR_DAEMON_SIMPLE@, line)
}

/// The line is read as the header of a section, `Users of ..`.
pub open spec fn is_header(line: Seq<char>, before: ProgressView, groups: Groups) -> bool {
    &&& is_no_server_line(line, before)
    &&& captures(patterns::FEATURE_USERS_OF@, line, groups)
    &&& groups.len() == 4
}

/// The line is read as the short form of the counts of a feature.
pub open spec fn is_brief(line: Seq<char>, before: ProgressView, groups: Groups) -> bool {
    &&& is_no_server_line(line, before)
    &&& misses(patterns::FEATURE_USERS_OF@, line)
    &&& captures(patterns::FEATURE_BRIEF@, line, groups)
    &&& groups.len() == 4
}

/// The line is read as a row of the feature table, with version, vendor and
/// expiry date.
pub open spec fn is_table_row(line: Seq<char>, before: ProgressView, groups: Groups) -> bool {
    &&& is_no_server_line(line, before)
    &&& misses(patterns::FEATURE_USERS_OF@, line)
    &&& misses(patterns::FEATURE_BRIEF@, line)
    &&& captures(patterns::FEATURE_LINE@, line, groups)
    &&& groups.len() == 5
}

/// The line is read as that of a user.
pub open spec fn is_user_line(line: Seq<char>, before: ProgressView, groups: Groups) -> bool {
    &&& is_no_server_line(line, before)
    &&& misses(patterns::FEATURE_USERS_OF@, line)
    &&& misses(patterns::FEATURE_BRIEF@, line)
    &&& misses(patterns::FEATURE_LINE@, line)
    &&& captures(patterns::USER_LINE@, line, groups)
    &&& groups.len() == 6
}

/// What one more line says, layout by layout in the order in which they are tried.
proof fn lemma_record(line: Seq<char>, known: bool)
    ensures
        lmstat::record_of_line(line, known) == match outside::regex_groups(
            patterns::SERVER_STATUS@,
            line,
        ) {
            Some(g) => lmstat::record_of(lmstat::LineKind::ServerStatus, g),
            None => match outside::regex_groups(patterns::VENDOR_DAEMON@, line) {
                Some(g) => lmstat::record_of(lmstat::LineKind::VendorDaemon, g),
                None => if !known && outside::regex_groups(patterns::VENDOR_DAEMON_SIMPLE@, line)
                    is Some {
                    lmstat::record_of(
                        lmstat::LineKind::VendorDaemonSimple,
                        outside::regex_groups(patterns::VENDOR_DAEMON_SIMPLE@, line)->0,
                    )
                } else {
                    record_of_rest(line)
                },
            },
        },
{
    let kinds = lmstat::layouts(known);
    lemma_first(kinds, line);
    lemma_first(kinds.skip(1), line);
    lemma_first(kinds.skip(2), line);
    lemma_first(kinds.skip(3), line);
    lemma_first(kinds.skip(4), line);
    lemma_first(kinds.skip(5), line);
    lemma_first(kinds.skip(6), line);
    assert(kinds.skip(1).skip(1) =~= kinds.skip(2));
    assert(kinds.skip(2).skip(1) =~= kinds.skip(3));
    assert(kinds.skip(3).skip(1) =~= kinds.skip(4));
    assert(kinds.skip(4).skip(1) =~= kinds.skip(5));
    assert(kinds.skip(5).skip(1) =~= kinds.skip(6));
    if !known {
        lemma_first(kinds.skip(7), line);
        assert(kinds.skip(6).skip(1) =~= kinds.skip(7));
    }
}

/// What a line says that tells nothing of the server as a whole.
spec fn record_of_rest(line: Seq<char>) -> LineRecordView {
    match outside::regex_groups(patterns::FEATURE_USERS_OF@, line) {
        Some(g) => lmstat::record_of(lmstat::LineKind::FeatureUsersOf, g),
        None => match outside::regex_groups(patterns::FEATURE_BRIEF@, line) {
            Some(g) => lmstat::record_of(lmstat::LineKind::FeatureBrief, g),
            None => match outside::regex_groups(patterns::FEATURE_LINE@, line) {
                Some(g) => lmstat::record_of(lmstat::LineKind::FeatureLine, g),
                None => match outside::regex_groups(patterns::USER_LINE@, line) {
                    Some(g) => lmstat::record_of(lmstat::LineKind::UserLine, g),
                    None => LineRecordView::Other,
                },
            },
        },
    }
}

/// One step along the layouts.
proof fn lemma_first(kinds: Seq<lmstat::LineKind>, line: Seq<char>)
    ensures
        kinds.len() == 0 ==> lmstat::first_record(kinds, line) == LineRecordView::Other,
        kinds.len() > 0 ==> lmstat::first_record(kinds, line) == match outside::regex_groups(
            lmstat::pattern_of(kinds[0]),
            line,
        ) {
            Some(g) => lmstat::record_of(kinds[0], g),
            None => lmstat::first_record(kinds.skip(1), line),
        },
{
    if kinds.len() > 0 {
        assert(kinds.drop_first() =~= kinds.skip(1));
    }
}

/// After one more line.
proof fn lemma_one_more(lines: Seq<Seq<char>>, line: Seq<char>)
    ensures
        ({
            let before = lmstat::progress_after(lines);
            lmstat::progress_after(lines.push(line)) == before.after(
                lmstat::record_of_line(line, before.status.vendor_daemon.len() > 0),
            )
        }),
{
    assert(lines.push(line).drop_last() =~= lines);
}

/// A line that tells where the license server listens sets host and port, and
/// nothing else. A port that is no `u16` leaves the port as it was.
pub proof fn law_server_line(lines: Seq<Seq<char>>, line: Seq<char>, groups: Groups)
    requires
        captures(patterns::SERVER_STATUS@, line, groups),
        groups.len() == 3,
        groups[1] is Some,
        groups[2] is Some,
    ensures
        ({
            let before = lmstat::progress_after(lines);
            let after = lmstat::progress_after(lines.push(line));
            &&& after.status.server_host == groups[2]->0
            &&& text::parsed_u16(groups[1]->0) == Some(after.status.lmgrd_port as int) || (
            text::parsed_u16(groups[1]->0) is None && after.status.lmgrd_port
                == before.status.lmgrd_port)
            &&& after.status.status == before.status.status
            &&& after.status.vendor_daemon == before.status.vendor_daemon
            &&& after.status.users == before.status.users
            &&& after.table == before.table
            &&& after.current == before.current
        }),
{
    let before = lmstat::progress_after(lines);
    lemma_one_more(lines, line);
    lemma_record(line, before.status.vendor_daemon.len() > 0);
    if let Some(n) = text::parsed_u16(groups[1]->0) {
        assert(0 <= n <= 0xffff);
    }
}

/// A vendor daemon line with a port sets the daemon and its status to what it
/// captured, and nothing else. A captured `DOWN` leaves the server not up, and a
/// captured `UP` leaves it up.
pub proof fn law_daemon_line(lines: Seq<Seq<char>>, line: Seq<char>, groups: Groups)
    requires
        misses(patterns::SERVER_STATUS@, line),
        captures(patterns::VENDOR_DAEMON@, line, groups),
        groups.len() == 4,
        groups[2] is Some,
        groups[3] is Some,
    ensures
        ({
            let before = lmstat::progress_after(lines);
            let after = lmstat::progress_after(lines.push(line));
            &&& after.status.vendor_daemon == groups[2]->0
            &&& after.status.status == groups[3]->0
            &&& groups[3]->0 == "DOWN"@ || groups[3]->0 == "UNSUPPORTED"@ ==> !after.status.is_up()
            &&& groups[3]->0 == "UP"@ ==> after.status.is_up()
            &&& after.status.server_host == before.status.server_host
            &&& after.status.lmgrd_port == before.status.lmgrd_port
            &&& after.status.users == before.status.users
            &&& after.table == before.table
            &&& after.current == before.current
        }),
{
    let before = lmstat::progress_after(lines);
    let after = lmstat::progress_after(lines.push(line));
    lemma_one_more(lines, line);
    lemma_record(line, before.status.vendor_daemon.len() > 0);
    lmutil_laws::law_is_up(after.status);
    reveal_strlit("UP");
    if groups[3]->0 == "UP"@ {
        assert(outside::ascii_uppercase(groups[3]->0) =~= "UP"@);
    }
}

/// Vendor daemon lines that captured different statuses leave different statuses.
pub proof fn law_daemon_statuses_differ(
    lines: Seq<Seq<char>>,
    line: Seq<char>,
    groups: Groups,
    other: Seq<char>,
    other_groups: Groups,
)
    requires
        misses(patterns::SERVER_STATUS@, line),
        misses(patterns::SERVER_STATUS@, other),
        captures(patterns::VENDOR_DAEMON@, line, groups),
        captures(patterns::VENDOR_DAEMON@, other, other_groups),
        groups.len() == 4,
        other_groups.len() == 4,
        groups[2] is Some,
        groups[3] is Some,
        other_groups[2] is Some,
        other_groups[3] is Some,
        groups[3] != other_groups[3],
    ensures
        lmstat::progress_after(lines.push(line)).status.status != lmstat::progress_after(
            lines.push(other),
        ).status.status,
{
    law_daemon_line(lines, line, groups);
    law_daemon_line(lines, other, other_groups);
}

/// While no vendor daemon is known, a vendor daemon line of the short layout sets
/// the daemon to what it captured, and its status to the upper-case form of what it
/// captured, and nothing else.
pub proof fn law_short_daemon_line(lines: Seq<Seq<char>>, line: Seq<char>, groups: Groups)
    requires
        lmstat::progress_after(lines).status.vendor_daemon.len() == 0,
        misses(patterns::SERVER_STATUS@, line),
        misses(patterns::VENDOR_DAEMON@, line),
        captures(patterns::VENDOR_DAEMON_SIMPLE@, line, groups),
        groups.len() == 3,
        groups[1] is Some,
        groups[2] is Some,
    ensures
        ({
            let before = lmstat::progress_after(lines);
            let after = lmstat::progress_after(lines.push(line));
            &&& after.status.vendor_daemon == groups[1]->0
            &&& after.status.status == outside::uppercase(groups[2]->0)
            &&& after.status.server_host == before.status.server_host
            &&& after.status.lmgrd_port == before.status.lmgrd_port
            &&& after.status.users == before.status.users
            &&& after.table == before.table
            &&& after.current == before.current
        }),
{
    lemma_one_more(lines, line);
    lemma_record(line, false);
}

/// A line that no layout takes changes nothing; nor does one that only the short
/// vendor daemon layout would take, once a daemon is known.
pub proof fn law_other_line(lines: Seq<Seq<char>>, line: Seq<char>)
    requires
        is_no_server_line(line, lmstat::progress_after(lines)),
        misses(patterns::FEATURE_USERS_OF@, line),
        misses(patterns::FEATURE_BRIEF@, line),
        misses(patterns::FEATURE_LINE@, line),
        misses(patterns::USER_LINE@, line),
    ensures
        lmstat::progress_after(lines.push(line)) == lmstat::progress_after(lines),
{
    let before = lmstat::progress_after(lines);
    lemma_one_more(lines, line);
    lemma_record(line, before.status.vendor_daemon.len() > 0);
}

/// The counts of a feature were set: the table has one feature of the name, with
/// the number of licenses issued and in use that the texts write; its users are
/// those it had, and the other features are as they were. Nothing of the server
/// as a whole changed.
pub open spec fn sets_counts(
    before: ProgressView,
    after: ProgressView,
    name: Seq<char>,
    total: Seq<char>,
    used: Seq<char>,
    i: int,
) -> bool {
    &&& 0 <= i < after.table.len()
    &&& after.table[i].name == name
    &&& writes(total, after.table[i].total)
    &&& writes(used, after.table[i].used)
    &&& after.table[i].users == if i < before.table.len() {
        before.table[i].users
    } else {
        Seq::<UserUsageView>::empty()
    }
    &&& i < before.table.len() ==> before.table[i].name == name
    &&& after.table.len() == if i < before.table.len() {
        before.table.len()
    } else {
        before.table.len() + 1
    }
    &&& forall|j: int|
        0 <= j < before.table.len() && j != i ==> after.table[j] == #[trigger] before.table[j]
    &&& after.status == before.status
}

/// A text writes a count: it reads as the number, or as none, which counts as
/// zero.
pub open spec fn writes(s: Seq<char>, count: i64) -> bool {
    ||| text::parsed_i64(s) == Some(count as int)
    ||| text::parsed_i64(s) is None && count == 0
}

/// Setting the counts of a feature.
proof fn lemma_sets_counts(
    before: ProgressView,
    after: ProgressView,
    name: Seq<char>,
    vendor: Option<Seq<char>>,
    total: Seq<char>,
    used: Seq<char>,
) -> (i: int)
    requires
        lmstat_laws::progress_wf(before),
        after.status == before.status,
        after.table == lmstat::with_counts(
            before.table,
            name,
            vendor,
            lmstat::int_or_zero(total),
            lmstat::int_or_zero(used),
        ),
    ensures
        sets_counts(before, after, name, total, used, i),
        after.table[i].vendor == match vendor {
            Some(v) => v,
            None => if i < before.table.len() {
                before.table[i].vendor
            } else {
                Seq::empty()
            },
        },
{
    let i = lmstat::find(before.table, name);
    lmstat::lemma_find_from(before.table, name, 0);
    let entries = lmstat::with_entry(before.table, name);
    if i >= before.table.len() {
        lmstat::lemma_find_is(entries, name, i);
    }
    lemma_writes(total);
    lemma_writes(used);
    i
}

/// What is read from a text is what it writes.
proof fn lemma_writes(s: Seq<char>)
    ensures
        writes(s, lmstat::int_or_zero(s)),
{
    if let Some(n) = text::parsed_i64(s) {
        assert(i64::MIN <= n <= i64::MAX);
    }
}

/// A header `Users of ..` sets the counts that it captured for the feature that it
/// names, keeps the vendor, and opens the section of that feature.
pub proof fn law_header(lines: Seq<Seq<char>>, line: Seq<char>, groups: Groups) -> (i: int)
    requires
        is_header(line, lmstat::progress_after(lines), groups),
        groups[1] is Some,
        groups[2] is Some,
        groups[3] is Some,
    ensures
        ({
            let before = lmstat::progress_after(lines);
            let after = lmstat::progress_after(lines.push(line));
            &&& sets_counts(before, after, groups[1]->0, groups[2]->0, groups[3]->0, i)
            &&& after.table[i].vendor == if i < before.table.len() {
                before.table[i].vendor
            } else {
                Seq::<char>::empty()
            }
            &&& after.current == Some(groups[1]->0)
        }),
{
    let before = lmstat::progress_after(lines);
    lemma_one_more(lines, line);
    lemma_record(line, before.status.vendor_daemon.len() > 0);
    lmstat_laws::law_progress_wf(lines);
    lemma_sets_counts(
        before,
        lmstat::progress_after(lines.push(line)),
        groups[1]->0,
        None,
        groups[2]->0,
        groups[3]->0,
    )
}

/// A row of the feature table sets the vendor and the counts that it captured for
/// the feature that it names, and opens the section of that feature.
pub proof fn law_table_row(lines: Seq<Seq<char>>, line: Seq<char>, groups: Groups) -> (i: int)
    requires
        is_table_row(line, lmstat::progress_after(lines), groups),
        groups[1] is Some,
        groups[2] is Some,
        groups[3] is Some,
        groups[4] is Some,
    ensures
        ({
            let before = lmstat::progress_after(lines);
            let after = lmstat::progress_after(lines.push(line));
            &&& sets_counts(before, after, groups[1]->0, groups[3]->0, groups[4]->0, i)
            &&& after.table[i].vendor == groups[2]->0
            &&& after.current == Some(groups[1]->0)
        }),
{
    let before = lmstat::progress_after(lines);
    lemma_one_more(lines, line);
    lemma_record(line, before.status.vendor_daemon.len() > 0);
    lmstat_laws::law_progress_wf(lines);
    lemma_sets_counts(
        before,
        lmstat::progress_after(lines.push(line)),
        groups[1]->0,
        Some(groups[2]->0),
        groups[3]->0,
        groups[4]->0,
    )
}

/// The short form of the counts sets them for the feature that it names, keeps the
/// vendor, and leaves the open section as it was.
pub proof fn law_brief(lines: Seq<Seq<char>>, line: Seq<char>, groups: Groups) -> (i: int)
    requires
        is_brief(line, lmstat::progress_after(lines), groups),
        groups[1] is Some,
        groups[2] is Some,
        groups[3] is Some,
    ensures
        ({
            let before = lmstat::progress_after(lines);
            let after = lmstat::progress_after(lines.push(line));
            &&& sets_counts(before, after, groups[1]->0, groups[2]->0, groups[3]->0, i)
            &&& after.table[i].vendor == if i < before.table.len() {
                before.table[i].vendor
            } else {
                Seq::<char>::empty()
            }
            &&& after.current == before.current
        }),
{
    let before = lmstat::progress_after(lines);
    lemma_one_more(lines, line);
    lemma_record(line, before.status.vendor_daemon.len() > 0);
    lmstat_laws::law_progress_wf(lines);
    lemma_sets_counts(
        before,
        lmstat::progress_after(lines.push(line)),
        groups[1]->0,
        None,
        groups[2]->0,
        groups[3]->0,
    )
}

/// The user is what a line captured: its name, host, display and start time, and
/// the feature that the line names or else the one given.
pub open spec fn is_user_of(user: UserUsageView, groups: Groups, feature: Seq<char>) -> bool {
    &&& groups[1] == Some(user.username)
    &&& groups[2] == Some(user.host)
    &&& groups[3] == Some(user.display) || (groups[3] is None && user.display.len() == 0)
    &&& groups[4] == Some(user.start_time)
    &&& groups[5] == Some(user.feature) || (groups[5] is None && user.feature == feature)
}

/// A line of a user adds that user to the server. Outside a section that is all;
/// in a section the feature of the section gets just that user too, and no other
/// feature changes.
pub proof fn law_user_line(lines: Seq<Seq<char>>, line: Seq<char>, groups: Groups)
    requires
        is_user_line(line, lmstat::progress_after(lines), groups),
        groups[1] is Some,
        groups[2] is Some,
        groups[4] is Some,
    ensures
        ({
            let before = lmstat::progress_after(lines);
            let after = lmstat::progress_after(lines.push(line));
            let user = after.status.users.last();
            &&& after.status.users == before.status.users.push(user)
            &&& is_user_of(
                user,
                groups,
                match before.current {
                    Some(name) => name,
                    None => Seq::empty(),
                },
            )
            &&& before.current is None ==> after.table == before.table
            &&& before.current matches Some(name) ==> adds_user(
                before.table,
                after.table,
                name,
                user,
            )
            &&& after.current == before.current
            &&& after.status.status == before.status.status
            &&& after.status.vendor_daemon == before.status.vendor_daemon
            &&& after.status.server_host == before.status.server_host
            &&& after.status.lmgrd_port == before.status.lmgrd_port
        }),
{
    let before = lmstat::progress_after(lines);
    lemma_one_more(lines, line);
    lemma_record(line, before.status.vendor_daemon.len() > 0);
    lmstat_laws::law_progress_wf(lines);
    if let Some(name) = before.current {
        lmstat::lemma_find_from(before.table, name, 0);
    }
}

/// The table is the same but for one more user at the end of the users of the
/// features of a name.
pub open spec fn adds_user(
    before: Seq<FeatureUsageView>,
    after: Seq<FeatureUsageView>,
    name: Seq<char>,
    user: UserUsageView,
) -> bool {
    &&& after.len() == before.len()
    &&& exists|i: int| 0 <= i < before.len() && (#[trigger] before[i]).name == name
    &&& forall|i: int|
        0 <= i < before.len() ==> (#[trigger] after[i]).name == before[i].name && after[i].vendor
            == before[i].vendor && after[i].total == before[i].total && after[i].used
            == before[i].used && after[i].users == if before[i].name == name {
            before[i].users.push(user)
        } else {
            before[i].users
        }
}

/// A user line directly behind a header belongs to the feature that the header
/// names.
pub proof fn law_user_behind_header(
    lines: Seq<Seq<char>>,
    header: Seq<char>,
    header_groups: Groups,
    line: Seq<char>,
    groups: Groups,
)
    requires
        is_header(header, lmstat::progress_after(lines), header_groups),
        header_groups[1] is Some,
        header_groups[2] is Some,
        header_groups[3] is Some,
        is_user_line(line, lmstat::progress_after(lines.push(header)), groups),
        groups[1] is Some,
        groups[2] is Some,
        groups[4] is Some,
    ensures
        ({
            let name = header_groups[1]->0;
            let open = lmstat::progress_after(lines.push(header));
            let end = lmstat::progress_after(lines.push(header).push(line));
            let user = end.status.users.last();
            &&& is_user_of(user, groups, name)
            &&& end.status.users == lmstat::progress_after(lines).status.users.push(user)
            &&& adds_user(open.table, end.table, name, user)
        }),
{
    let i = law_header(lines, header, header_groups);
    law_user_line(lines.push(header), line, groups);
}

/// A user line directly behind a row of the feature table belongs to the feature
/// that the row names.
pub proof fn law_user_behind_table_row(
    lines: Seq<Seq<char>>,
    row: Seq<char>,
    row_groups: Groups,
    line: Seq<char>,
    groups: Groups,
)
    requires
        is_table_row(row, lmstat::progress_after(lines), row_groups),
        row_groups[1] is Some,
        row_groups[2] is Some,
        row_groups[3] is Some,
        row_groups[4] is Some,
        is_user_line(line, lmstat::progress_after(lines.push(row)), groups),
        groups[1] is Some,
        groups[2] is Some,
        groups[4] is Some,
    ensures
        ({
            let name = row_groups[1]->0;
            let open = lmstat::progress_after(lines.push(row));
            let end = lmstat::progress_after(lines.push(row).push(line));
            let user = end.status.users.last();
            &&& is_user_of(user, groups, name)
            &&& end.status.users == lmstat::progress_after(lines).status.users.push(user)
            &&& adds_user(open.table, end.table, name, user)
        }),
{
    let i = law_table_row(lines, row, row_groups);
    law_user_line(lines.push(row), line, groups);
}

/// A count that is written in decimal digits is read as that number.
pub proof fn law_counts_read_back(n: int)
    requires
        i64::MIN <= n <= i64::MAX,
    ensures
        lmstat::int_or_zero(text::signed_decimal(n)) == n,
{
    text_laws::law_integers_read_back(n);
}

/// Before any line nothing is known.
pub proof fn law_start()
    ensures
        ({
            let start = lmstat::progress_after(Seq::empty());
            &&& start.table.len() == 0
            &&& start.current is None
            &&& start.status.users.len() == 0
            &&& start.status.status.len() == 0
            &&& start.status.vendor_daemon.len() == 0
            &&& start.status.server_host.len() == 0
            &&& start.status.lmgrd_port == 0
        }),
{
}

/// A text tells a failure exactly where it holds one of the messages by which
/// `lmutil` says so.
pub proof fn law_failure_messages(s: Seq<char>)
    ensures
        lmstat::is_failure_text(s) <==> exists|k: int|
            0 <= k < 6 && text::contains_text(s, #[trigger] failure_message(k)),
{
    if lmstat::is_failure_text(s) {
        if text::contains_text(s, failure_message(0)) {
        } else if text::contains_text(s, failure_message(1)) {
        } else if text::contains_text(s, failure_message(2)) {
        } else if text::contains_text(s, failure_message(3)) {
        } else if text::contains_text(s, failure_message(4)) {
        } else {
            assert(text::contains_text(s, failure_message(5)));
        }
    }
}

/// The messages by which `lmutil` says that it failed.
pub open spec fn failure_message(k: int) -> Seq<char> {
    seq![
        "Cannot connect to license server"@,
        "License server machine is down"@,
        "Error getting status"@,
        "lmgrd is not running"@,
        "Invalid license file syntax"@,
        "Failed to open the TCP port"@,
    ][k]
}

/// The reported failure is that of the first line that tells one, stripped.
pub proof fn law_first_failure(lines: Seq<Seq<char>>)
    ensures
        lmstat::first_failure(lines) is Some ==> exists|k: int| #[trigger]
            is_first_failure(lines, k, lmstat::first_failure(lines)->0),
        lmstat::first_failure(lines) is None ==> forall|i: int|
            0 <= i < lines.len() ==> !lmstat::is_failure_text(text::trimmed(#[trigger] lines[i])),
    decreases lines.len(),
{
    if lines.len() > 0 {
        let rest = lines.drop_first();
        if lmstat::is_failure_text(text::trimmed(lines[0])) {
            assert(is_first_failure(lines, 0, lmstat::first_failure(lines)->0));
        } else {
            law_first_failure(rest);
            assert(lmstat::first_failure(lines) == lmstat::first_failure(rest));
            match lmstat::first_failure(rest) {
                Some(failure) => {
                    let k = choose|k: int| #[trigger] is_first_failure(rest, k, failure);
                    assert forall|i: int| 0 <= i < k + 1 implies !lmstat::is_failure_text(
                        text::trimmed(#[trigger] lines[i]),
                    ) by {
                        if i > 0 {
                            assert(lines[i] == rest[i - 1]);
                        }
                    }
                    assert(lines[k + 1] == rest[k]);
                    assert(is_first_failure(lines, k + 1, lmstat::first_failure(lines)->0));
                },
                None => {
                    assert forall|i: int| 0 <= i < lines.len() implies !lmstat::is_failure_text(
                        text::trimmed(#[trigger] lines[i]),
                    ) by {
                        if i > 0 {
                            assert(lines[i] == rest[i - 1]);
                        }
                    }
                },
            }
        }
    }
}

/// The line at a position is the first that tells a failure, which is its stripped
/// text.
pub open spec fn is_first_failure(
    lines: Seq<Seq<char>>,
    k: int,
    failure: Seq<char>,
) -> bool {
    &&& 0 <= k < lines.len()
    &&& failure == text::trimmed(lines[k])
    &&& lmstat::is_failure_text(failure)
    &&& forall|i: int|
        0 <= i < k ==> !lmstat::is_failure_text(text::trimmed(#[trigger] lines[i]))
}

/// What is reported of an output is what its lines told, in all fields but those
/// by which a failure is reported.
pub proof fn law_parsed_keeps_reading(output: Seq<char>, parse_time: Seq<char>)
    ensures
        ({
            let end = lmstat::progress_after(text::lines_of(text::trimmed(output)));
            let status = lmstat::parsed(output, parse_time);
            &&& status.features == end.table
            &&& status.users == end.status.users
            &&& status.vendor_daemon == end.status.vendor_daemon
            &&& status.server_host == end.status.server_host
            &&& status.lmgrd_port == end.status.lmgrd_port
            &&& status.parse_time == parse_time
            &&& status.server_name.len() == 0
        }),
{
    lmstat_laws::law_progress_wf(text::lines_of(text::trimmed(output)));
}

/// The layout of the server line, in any case: the words, the port, `@` or `on`, and
/// the host.
pub proof fn law_layout_server_status()
    ensures
        patterns::SERVER_STATUS@ == "(?i)"@ + r"license\s+server\s+status:\s*"@ + r"(\d+)"@
            + r"\s*(?:@|on)\s*"@ + r"(\S+)"@,
{
    reveal_strlit(r"(?i)license\s+server\s+status:\s*(\d+)\s*(?:@|on)\s*(\S+)");
    reveal_strlit("(?i)");
    reveal_strlit(r"license\s+server\s+status:\s*");
    reveal_strlit(r"(\d+)");
    reveal_strlit(r"\s*(?:@|on)\s*");
    reveal_strlit(r"(\S+)");
    assert(patterns::SERVER_STATUS@ =~= "(?i)"@ + r"license\s+server\s+status:\s*"@ + r"(\d+)"@
        + r"\s*(?:@|on)\s*"@ + r"(\S+)"@);
}

/// The layout of the vendor daemon line, in any case: the words, the port, white
/// space or `@`, the daemon, a colon and the status.
pub proof fn law_layout_vendor_daemon()
    ensures
        patterns::VENDOR_DAEMON@ == "(?i)"@ + r"vendor\s+daemon\s+status:\s*"@ + r"(\d+)"@
            + r"(?:\s+|@)"@ + r"(\S+)"@ + r":\s*"@ + r"(\S+)"@,
{
    reveal_strlit(r"(?i)vendor\s+daemon\s+status:\s*(\d+)(?:\s+|@)(\S+):\s*(\S+)");
    reveal_strlit("(?i)");
    reveal_strlit(r"vendor\s+daemon\s+status:\s*");
    reveal_strlit(r"(\d+)");
    reveal_strlit(r"(?:\s+|@)");
    reveal_strlit(r"(\S+)");
    reveal_strlit(r":\s*");
    assert(patterns::VENDOR_DAEMON@ =~= "(?i)"@ + r"vendor\s+daemon\s+status:\s*"@ + r"(\d+)"@
        + r"(?:\s+|@)"@ + r"(\S+)"@ + r":\s*"@ + r"(\S+)"@);
}

/// The short layout of the vendor daemon line, in any case: indented, the daemon, a
/// colon, and `UP`, `DOWN` or `UNSUPPORTED` as a whole word.
pub proof fn law_layout_vendor_daemon_simple()
    ensures
        patterns::VENDOR_DAEMON_SIMPLE@ == "(?i)"@ + r"^\s+"@ + r"(\S+)"@ + r":\s+"@
            + "(UP|DOWN|UNSUPPORTED)"@ + r"\b"@,
{
    reveal_strlit(r"(?i)^\s+(\S+):\s+(UP|DOWN|UNSUPPORTED)\b");
    reveal_strlit("(?i)");
    reveal_strlit(r"^\s+");
    reveal_strlit(r"(\S+)");
    reveal_strlit(r":\s+");
    reveal_strlit("(UP|DOWN|UNSUPPORTED)");
    reveal_strlit(r"\b");
    assert(patterns::VENDOR_DAEMON_SIMPLE@ =~= "(?i)"@ + r"^\s+"@ + r"(\S+)"@ + r":\s+"@
        + "(UP|DOWN|UNSUPPORTED)"@ + r"\b"@);
}

/// The layout of a row of the feature table: indented, the feature, a version or
/// none, the vendor, an expiry date or `lifetime`, and the two counts.
pub proof fn law_layout_feature_line()
    ensures
        patterns::FEATURE_LINE@ == r"^\s+"@ + r"(\S+)"@ + r"\s+"@ + r"(?:v?[\d.]+\s+)?"@
            + r"(\S+)"@ + r"\s+"@ + r"(?:\d+-[\w]+-\d+|lifetime)"@ + r"\s+"@ + r"(\d+)"@
            + r"\s+"@ + r"(\d+)"@ + r"(?:\s+\d+)?"@,
{
    reveal_strlit(r"^\s+(\S+)\s+(?:v?[\d.]+\s+)?(\S+)\s+(?:\d+-[\w]+-\d+|lifetime)\s+(\d+)\s+(\d+)(?:\s+\d+)?");
    reveal_strlit(r"^\s+");
    reveal_strlit(r"(\S+)");
    reveal_strlit(r"\s+");
    reveal_strlit(r"(?:v?[\d.]+\s+)?");
    reveal_strlit(r"(?:\d+-[\w]+-\d+|lifetime)");
    reveal_strlit(r"(\d+)");
    reveal_strlit(r"(?:\s+\d+)?");
    assert(patterns::FEATURE_LINE@ =~= r"^\s+"@ + r"(\S+)"@ + r"\s+"@ + r"(?:v?[\d.]+\s+)?"@
        + r"(\S+)"@ + r"\s+"@ + r"(?:\d+-[\w]+-\d+|lifetime)"@ + r"\s+"@ + r"(\d+)"@ + r"\s+"@
        + r"(\d+)"@ + r"(?:\s+\d+)?"@);
}

/// The layout of a user line: indented, the user, the host with a number or without,
/// a display or none, the start time, and a feature in brackets or none.
pub proof fn law_layout_user_line()
    ensures
        patterns::USER_LINE@ == r"^\s+"@ + r"(\S+)"@ + r"\s+"@ + r"(\S+:\d+|\S+)"@
            + r"(?:\s+(\S+))?"@ + r"\s+"@ + r"(\d{2}/\d{2}/\d{4}\s+\d{2}:\d{2})"@
            + r"(?:\s+\((\S+)\))?"@,
{
    reveal_strlit(r"^\s+(\S+)\s+(\S+:\d+|\S+)(?:\s+(\S+))?\s+(\d{2}/\d{2}/\d{4}\s+\d{2}:\d{2})(?:\s+\((\S+)\))?");
    reveal_strlit(r"^\s+");
    reveal_strlit(r"(\S+)");
    reveal_strlit(r"\s+");
    reveal_strlit(r"(\S+:\d+|\S+)");
    reveal_strlit(r"(?:\s+(\S+))?");
    reveal_strlit(r"(\d{2}/\d{2}/\d{4}\s+\d{2}:\d{2})");
    reveal_strlit(r"(?:\s+\((\S+)\))?");
    assert(patterns::USER_LINE@ =~= r"^\s+"@ + r"(\S+)"@ + r"\s+"@ + r"(\S+:\d+|\S+)"@
        + r"(?:\s+(\S+))?"@ + r"\s+"@ + r"(\d{2}/\d{2}/\d{4}\s+\d{2}:\d{2})"@
        + r"(?:\s+\((\S+)\))?"@);
}

/// The layout of a section header: the feature and the two counts.
pub proof fn law_layout_feature_users_of()
    ensures
        patterns::FEATURE_USERS_OF@ == "Users of "@ + r"(\S+?)"@ + r":\s+\(Total of "@
            + r"(\d+)"@ + r" licenses issued;\s+Total of "@ + r"(\d+)"@
            + r" licenses in use\)"@,
{
    reveal_strlit(r"Users of (\S+?):\s+\(Total of (\d+) licenses issued;\s+Total of (\d+) licenses in use\)");
    reveal_strlit("Users of ");
    reveal_strlit(r"(\S+?)");
    reveal_strlit(r":\s+\(Total of ");
    reveal_strlit(r"(\d+)");
    reveal_strlit(r" licenses issued;\s+Total of ");
    reveal_strlit(r" licenses in use\)");
    assert(patterns::FEATURE_USERS_OF@ =~= "Users of "@ + r"(\S+?)"@ + r":\s+\(Total of "@
        + r"(\d+)"@ + r" licenses issued;\s+Total of "@ + r"(\d+)"@ + r" licenses in use\)"@);
}

/// The short layout of the counts: the feature at the very start, and the two
/// counts.
pub proof fn law_layout_feature_brief()
    ensures
        patterns::FEATURE_BRIEF@ == "^"@ + r"(\S+?)"@ + r":\s+"@ + r"(\d+)"@
            + r"\s+licen[cs]es?,\s+"@ + r"(\d+)"@ + r"\s+(?:in use|used)"@,
{
    reveal_strlit(r"^(\S+?):\s+(\d+)\s+licen[cs]es?,\s+(\d+)\s+(?:in use|used)");
    reveal_strlit("^");
    reveal_strlit(r"(\S+?)");
    reveal_strlit(r":\s+");
    reveal_strlit(r"(\d+)");
    reveal_strlit(r"\s+licen[cs]es?,\s+");
    reveal_strlit(r"\s+(?:in use|used)");
    assert(patterns::FEATURE_BRIEF@ =~= "^"@ + r"(\S+?)"@ + r":\s+"@ + r"(\d+)"@
        + r"\s+licen[cs]es?,\s+"@ + r"(\d+)"@ + r"\s+(?:in use|used)"@);
}

} // verus!
