//! What holds of every output that is read.

use crate::lmstat;
use crate::lmutil::{FeatureUsageView, ServerStatusView, UserUsageView};
use crate::text;
use crate::text_laws;
use vstd::multiset::Multiset;
use vstd::prelude::*;

verus! {

/// What holds of the reading after every line: the features have distinct
/// names, the open section is in the table, and neither an error nor a name is
/// set.
pub open spec fn progress_wf(p: lmstat::ProgressView) -> bool {
    &&& lmstat::names_distinct(p.table)
    &&& p.current matches Some(name) ==> lmstat::find(p.table, name) < p.table.len()
    &&& p.status.features.len() == 0
    &&& p.status.parse_error.len() == 0
    &&& p.status.parse_time.len() == 0
    &&& p.status.server_name.len() == 0
    &&& !p.status.unreachable
}

/// Creating an entry keeps the names distinct and every entry where it is.
proof fn lemma_with_entry(table: Seq<FeatureUsageView>, name: Seq<char>)
    requires
        lmstat::names_distinct(table),
    ensures
        ({
            let entries = lmstat::with_entry(table, name);
            let at = lmstat::find(entries, name);
            &&& lmstat::names_distinct(entries)
            &&& 0 <= at < entries.len()
            &&& entries[at].name == name
            &&& table.len() <= entries.len() <= table.len() + 1
            &&& forall|i: int| 0 <= i < table.len() ==> entries[i] == #[trigger] table[i]
        }),
{
    lmstat::lemma_find_from(table, name, 0);
    let entries = lmstat::with_entry(table, name);
    if lmstat::find(table, name) >= table.len() {
        lmstat::lemma_find_is(entries, name, table.len() as int);
    }
}

/// An entry is found in a table that has the same names in the same places.
proof fn lemma_find_same_names(
    a: Seq<FeatureUsageView>,
    b: Seq<FeatureUsageView>,
    name: Seq<char>,
)
    requires
        lmstat::find(a, name) < a.len(),
        a.len() <= b.len(),
        forall|i: int| 0 <= i < a.len() ==> (#[trigger] b[i]).name == a[i].name,
    ensures
        lmstat::find(b, name) == lmstat::find(a, name),
{
    lmstat::lemma_find_from(a, name, 0);
    let at = lmstat::find(a, name);
    assert(b[at].name == name);
    assert forall|i: int| 0 <= i < at implies b[i].name != name by {
        assert(a[i].name != name);
    }
    lmstat::lemma_find_is(b, name, at);
}

/// One more line keeps the reading well-formed, every feature where it is, and
/// every user.
proof fn lemma_after(p: lmstat::ProgressView, record: lmstat::LineRecordView)
    requires
        progress_wf(p),
    ensures
        progress_wf(p.after(record)),
        p.table.len() <= p.after(record).table.len() <= p.table.len() + 1,
        forall|i: int|
            0 <= i < p.table.len() ==> (#[trigger] p.after(record).table[i]).name
                == p.table[i].name,
{
    let next = p.after(record);
    match record {
        lmstat::LineRecordView::Feature { name, .. } => {
            lemma_with_entry(p.table, name);
            let entries = lmstat::with_entry(p.table, name);
            lmstat::lemma_find_from(entries, name, 0);
            lemma_find_same_names(entries, next.table, name);
            if let Some(current) = p.current {
                lemma_find_same_names(p.table, next.table, current);
                lmstat::lemma_find_from(p.table, current, 0);
            }
        },
        lmstat::LineRecordView::User { .. } => {
            if let Some(current) = p.current {
                lemma_with_entry(p.table, current);
                lemma_find_same_names(p.table, next.table, current);
                lmstat::lemma_find_from(p.table, current, 0);
            }
        },
        _ => {},
    }
}

/// The reading is well-formed after any lines.
pub proof fn law_progress_wf(lines: Seq<Seq<char>>)
    ensures
        progress_wf(lmstat::progress_after(lines)),
    decreases lines.len(),
{
    if lines.len() > 0 {
        law_progress_wf(lines.drop_last());
        let before = lmstat::progress_after(lines.drop_last());
        lemma_after(before, lmstat::record_of_line(lines.last(), before.daemon_known()));
    }
}

/// Sections of one feature are merged: no output yields two features of the
/// same name.
pub proof fn law_features_distinct(output: Seq<char>, parse_time: Seq<char>)
    ensures
        lmstat::names_distinct(lmstat::parsed(output, parse_time).features),
{
    law_progress_wf(text::lines_of(text::trimmed(output)));
}

/// Features keep the order in which they first appear: further lines leave
/// every feature where it is, and put new ones behind.
pub proof fn law_first_appearance_order(lines: Seq<Seq<char>>, k: int)
    requires
        0 <= k <= lines.len(),
    ensures
        ({
            let early = lmstat::progress_after(lines.take(k)).table;
            let late = lmstat::progress_after(lines).table;
            &&& early.len() <= late.len()
            &&& forall|i: int| 0 <= i < early.len() ==> (#[trigger] late[i]).name == early[i].name
        }),
    decreases lines.len(),
{
    if k == lines.len() {
        assert(lines.take(k) =~= lines);
    } else {
        law_first_appearance_order(lines.drop_last(), k);
        assert(lines.drop_last().take(k) =~= lines.take(k));
        law_progress_wf(lines.drop_last());
        let before = lmstat::progress_after(lines.drop_last());
        lemma_after(before, lmstat::record_of_line(lines.last(), before.daemon_known()));
    }
}

/// The latest counts of a feature replace earlier ones; every other feature
/// keeps its own, and users stay.
pub proof fn law_latest_counts_win(
    table: Seq<FeatureUsageView>,
    name: Seq<char>,
    vendor: Option<Seq<char>>,
    total: i64,
    used: i64,
)
    requires
        lmstat::names_distinct(table),
    ensures
        ({
            let next = lmstat::with_counts(table, name, vendor, total, used);
            let at = lmstat::find(next, name);
            &&& 0 <= at < next.len()
            &&& next[at].name == name
            &&& next[at].total == total
            &&& next[at].used == used
            &&& at < table.len() ==> next[at].users == table[at].users
            &&& forall|i: int| 0 <= i < table.len() && i != at ==> next[i] == #[trigger] table[i]
        }),
{
    lemma_with_entry(table, name);
    let entries = lmstat::with_entry(table, name);
    let next = lmstat::with_counts(table, name, vendor, total, used);
    lemma_find_same_names(entries, next, name);
}

/// The users listed under the features, all together.
pub open spec fn users_of(table: Seq<FeatureUsageView>) -> Multiset<UserUsageView>
    decreases table.len(),
{
    if table.len() == 0 {
        Multiset::empty()
    } else {
        users_of(table.drop_last()).add(table.last().users.to_multiset())
    }
}

/// How many users are listed before the first section opens.
pub open spec fn users_before_sections(lines: Seq<Seq<char>>) -> nat
    decreases lines.len(),
{
    if lines.len() == 0 {
        0
    } else if lmstat::progress_after(lines).current is None {
        lmstat::progress_after(lines).status.users.len()
    } else {
        users_before_sections(lines.drop_last())
    }
}

/// A feature with the same users in the place of another changes nothing of the
/// users; one with one more user adds that user.
proof fn lemma_users_of_update(
    table: Seq<FeatureUsageView>,
    at: int,
    feature: FeatureUsageView,
    user: UserUsageView,
)
    requires
        0 <= at < table.len(),
    ensures
        feature.users == table[at].users ==> users_of(table.update(at, feature)) == users_of(
            table,
        ),
        feature.users == table[at].users.push(user) ==> users_of(table.update(at, feature))
            == users_of(table).insert(user),
    decreases table.len(),
{
    broadcast use vstd::seq_lib::group_to_multiset_ensures;

    let next = table.update(at, feature);
    if at == table.len() - 1 {
        assert(next.drop_last() =~= table.drop_last());
        if feature.users == table[at].users.push(user) {
            assert(users_of(next) =~= users_of(table).insert(user));
        }
    } else {
        assert(next.drop_last() =~= table.drop_last().update(at, feature));
        lemma_users_of_update(table.drop_last(), at, feature, user);
        assert(next.last() == table.last());
        if feature.users == table[at].users.push(user) {
            assert(users_of(next) =~= users_of(table).insert(user));
        }
    }
}

/// A new entry lists no users.
proof fn lemma_users_of_with_entry(table: Seq<FeatureUsageView>, name: Seq<char>)
    ensures
        users_of(lmstat::with_entry(table, name)) == users_of(table),
{
    broadcast use vstd::seq_lib::group_to_multiset_ensures;

    if lmstat::find(table, name) >= table.len() {
        let entries = lmstat::with_entry(table, name);
        assert(entries.drop_last() =~= table);
        assert(entries.last().users.len() == 0);
        assert(entries.last().users.to_multiset() =~= Multiset::<UserUsageView>::empty()) by {
            assert(entries.last().users.to_multiset().len() == 0);
        }
        assert(users_of(entries) =~= users_of(table));
    }
}

/// New counts change nothing of the users.
proof fn lemma_users_of_counts(
    table: Seq<FeatureUsageView>,
    name: Seq<char>,
    vendor: Option<Seq<char>>,
    total: i64,
    used: i64,
)
    requires
        lmstat::names_distinct(table),
    ensures
        users_of(lmstat::with_counts(table, name, vendor, total, used)) == users_of(table),
{
    let entries = lmstat::with_entry(table, name);
    let at = lmstat::find(entries, name);
    let next = lmstat::with_counts(table, name, vendor, total, used);
    lemma_with_entry(table, name);
    lemma_users_of_with_entry(table, name);
    lemma_users_of_update(entries, at, next[at], arbitrary());
}

/// One more user of a feature is one more user.
proof fn lemma_users_of_user(table: Seq<FeatureUsageView>, name: Seq<char>, user: UserUsageView)
    requires
        lmstat::names_distinct(table),
    ensures
        users_of(lmstat::with_user(table, name, user)) == users_of(table).insert(user),
{
    let entries = lmstat::with_entry(table, name);
    let at = lmstat::find(entries, name);
    let next = lmstat::with_user(table, name, user);
    lemma_with_entry(table, name);
    lemma_users_of_with_entry(table, name);
    lemma_users_of_update(entries, at, next[at], user);
}

/// The users of the features are those of the server behind the first section
/// header, after any lines.
proof fn lemma_users_accounted(lines: Seq<Seq<char>>)
    ensures
        ({
            let end = lmstat::progress_after(lines);
            let before = users_before_sections(lines);
            &&& before <= end.status.users.len()
            &&& end.current is None ==> before == end.status.users.len()
            &&& users_of(end.table) == end.status.users.skip(before as int).to_multiset()
        }),
    decreases lines.len(),
{
    broadcast use vstd::seq_lib::group_to_multiset_ensures;

    let end = lmstat::progress_after(lines);
    if lines.len() == 0 {
        assert(end.status.users.skip(0).to_multiset() =~= Multiset::<UserUsageView>::empty()) by {
            assert(end.status.users.skip(0).to_multiset().len() == 0);
        }
    } else {
        lemma_users_accounted(lines.drop_last());
        law_progress_wf(lines.drop_last());
        let start = lmstat::progress_after(lines.drop_last());
        let before = users_before_sections(lines.drop_last()) as int;
        match lmstat::record_of_line(lines.last(), start.daemon_known()) {
            lmstat::LineRecordView::Feature { name, vendor, total, used, .. } => {
                lemma_users_of_counts(start.table, name, vendor, total, used);
            },
            lmstat::LineRecordView::User { .. } => {
                let user = end.status.users.last();
                match start.current {
                    Some(name) => {
                        lemma_users_of_user(start.table, name, user);
                        assert(end.status.users.skip(before) =~= start.status.users.skip(
                            before,
                        ).push(user));
                    },
                    None => {
                        let none = end.status.users.skip(end.status.users.len() as int);
                        let earlier = start.status.users.skip(start.status.users.len() as int);
                        assert(none =~= earlier);
                    },
                }
            },
            _ => {},
        }
    }
}

/// The features together list exactly the users of the server that stand behind
/// the first section header, each as often as there.
pub proof fn law_users_accounted(output: Seq<char>, parse_time: Seq<char>)
    ensures
        ({
            let status = lmstat::parsed(output, parse_time);
            let before = users_before_sections(text::lines_of(text::trimmed(output)));
            &&& before <= status.users.len()
            &&& users_of(status.features) == status.users.skip(before as int).to_multiset()
        }),
{
    lemma_users_accounted(text::lines_of(text::trimmed(output)));
}

/// Every user of a feature is also a user of the server.
pub proof fn law_feature_users_are_server_users(
    output: Seq<char>,
    parse_time: Seq<char>,
    i: int,
    j: int,
)
    requires
        0 <= i < lmstat::parsed(output, parse_time).features.len(),
        0 <= j < lmstat::parsed(output, parse_time).features[i].users.len(),
    ensures
        lmstat::parsed(output, parse_time).users.contains(
            lmstat::parsed(output, parse_time).features[i].users[j],
        ),
{
    broadcast use vstd::seq_lib::group_to_multiset_ensures;

    let status = lmstat::parsed(output, parse_time);
    let before = users_before_sections(text::lines_of(text::trimmed(output))) as int;
    let user = status.features[i].users[j];
    law_users_accounted(output, parse_time);
    lemma_users_of_member(status.features, i, j);
    assert(status.users.skip(before).contains(user));
    let k = choose|k: int|
        0 <= k < status.users.skip(before).len() && status.users.skip(before)[k] == user;
    assert(status.users[before + k] == user);
}

/// A user of a feature is one of the users of the features.
proof fn lemma_users_of_member(table: Seq<FeatureUsageView>, i: int, j: int)
    requires
        0 <= i < table.len(),
        0 <= j < table[i].users.len(),
    ensures
        users_of(table).count(table[i].users[j]) > 0,
    decreases table.len(),
{
    broadcast use vstd::seq_lib::group_to_multiset_ensures;

    if i == table.len() - 1 {
        assert(table.last().users.contains(table[i].users[j]));
    } else {
        lemma_users_of_member(table.drop_last(), i, j);
    }
}

/// A server is found unreachable if and only if an error is reported, and then
/// it is down and reports nothing else.
pub proof fn law_unreachable(output: Seq<char>, parse_time: Seq<char>)
    ensures
        ({
            let status = lmstat::parsed(output, parse_time);
            &&& status.unreachable <==> status.parse_error.len() > 0
            &&& status.unreachable ==> {
                &&& status.status == "DOWN"@
                &&& !status.is_up()
                &&& status.features.len() == 0
                &&& status.users.len() == 0
            }
        }),
{
    law_progress_wf(text::lines_of(text::trimmed(output)));
    reveal_strlit("DOWN");
    reveal_strlit("lmutil 采集失败: ");
}

/// Failure messages are ignored where the output tells a feature or a user.
pub proof fn law_data_outweighs_failure(output: Seq<char>, parse_time: Seq<char>)
    ensures
        ({
            let end = lmstat::progress_after(text::lines_of(text::trimmed(output)));
            let status = lmstat::parsed(output, parse_time);
            end.table.len() > 0 || end.status.users.len() > 0 ==> {
                &&& !status.unreachable
                &&& status.parse_error.len() == 0
                &&& status.status == end.status.status
                &&& status.features == end.table
                &&& status.users == end.status.users
            }
        }),
{
    law_progress_wf(text::lines_of(text::trimmed(output)));
}

/// Where the output tells neither a feature nor a user, a failure message marks
/// the server as down, with the first such line as the reason, whatever status
/// was read. Without one the status stays as it was read.
pub proof fn law_failure_is_reported(output: Seq<char>, parse_time: Seq<char>)
    ensures
        ({
            let end = lmstat::progress_after(text::lines_of(text::trimmed(output)));
            let status = lmstat::parsed(output, parse_time);
            end.table.len() == 0 && end.status.users.len() == 0 ==> match lmstat::first_failure(
                text::lines_of(output),
            ) {
                Some(line) => {
                    &&& status.unreachable
                    &&& status.status == "DOWN"@
                    &&& status.parse_error == "lmutil 采集失败: "@ + line
                },
                None => {
                    &&& !status.unreachable
                    &&& status.status == end.status.status
                    &&& status.parse_error.len() == 0
                },
            }
        }),
{
    law_progress_wf(text::lines_of(text::trimmed(output)));
}

/// White space holds no failure message.
proof fn lemma_no_failure_in_blank(lines: Seq<Seq<char>>)
    requires
        forall|i: int| 0 <= i < lines.len() ==> text::trimmed(#[trigger] lines[i]).len() == 0,
    ensures
        lmstat::first_failure(lines) is None,
    decreases lines.len(),
{
    if lines.len() > 0 {
        reveal_strlit("Cannot connect to license server");
        reveal_strlit("License server machine is down");
        reveal_strlit("Error getting status");
        reveal_strlit("lmgrd is not running");
        reveal_strlit("Invalid license file syntax");
        reveal_strlit("Failed to open the TCP port");
        assert(!lmstat::is_failure_text(text::trimmed(lines[0])));
        lemma_no_failure_in_blank(lines.drop_first());
    }
}

/// Stripping the front leaves nothing of a blank text, and otherwise a text
/// that starts with something else.
proof fn lemma_trim_front(s: Seq<char>)
    ensures
        text::trim_front(s).len() == 0 <==> text_laws::is_blank(s),
        text::trim_front(s).len() > 0 ==> !text::is_white_space(text::trim_front(s)[0]),
    decreases s.len(),
{
    if s.len() > 0 && text::is_white_space(s[0]) {
        lemma_trim_front(s.drop_first());
        if text_laws::is_blank(s.drop_first()) {
            assert forall|i: int| 0 <= i < s.len() implies text::is_white_space(
                #[trigger] s[i],
            ) by {
                if i > 0 {
                    assert(s[i] == s.drop_first()[i - 1]);
                }
            }
        } else {
            let i = choose|i: int|
                0 <= i < s.drop_first().len() && !text::is_white_space(s.drop_first()[i]);
            assert(!text::is_white_space(s[i + 1]));
        }
    }
}

/// Stripping the back does not pass a character that is no white space.
proof fn lemma_trim_back(s: Seq<char>)
    requires
        s.len() > 0,
        !text::is_white_space(s[0]),
    ensures
        text::trim_back(s).len() > 0,
    decreases s.len(),
{
    if text::is_white_space(s.last()) {
        lemma_trim_back(s.drop_last());
    }
}

/// Nothing is left of a text exactly where it is blank.
proof fn lemma_blank(s: Seq<char>)
    ensures
        text::trimmed(s).len() == 0 <==> text_laws::is_blank(s),
{
    lemma_trim_front(s);
    if text::trim_front(s).len() > 0 {
        lemma_trim_back(text::trim_front(s));
    }
}

/// The lines of a blank text are blank.
proof fn lemma_lines_of_blank(s: Seq<char>, from: int)
    requires
        text_laws::is_blank(s),
        0 <= from,
    ensures
        forall|i: int|
            0 <= i < text::lines_from(s, from).len() ==> text_laws::is_blank(
                #[trigger] text::lines_from(s, from)[i],
            ),
    decreases s.len() - from,
{
    if from < s.len() {
        text::lemma_line_end(s, from);
        let end = text::line_end(s, from);
        if end < s.len() {
            lemma_lines_of_blank(s, end + 1);
            let line = text::chomped(s.subrange(from, end));
            let rest = text::lines_from(s, end + 1);
            assert(text_laws::is_blank(line));
            assert forall|i: int| 0 <= i < text::lines_from(s, from).len() implies text_laws::is_blank(
                #[trigger] text::lines_from(s, from)[i],
            ) by {
                if i > 0 {
                    assert(text::lines_from(s, from)[i] == rest[i - 1]);
                }
            }
        } else {
            assert(text_laws::is_blank(s.subrange(from, s.len() as int)));
        }
    }
}

/// Blank output gives a status that tells nothing, and counts as up.
pub proof fn law_blank_output(output: Seq<char>, parse_time: Seq<char>)
    requires
        text::trimmed(output).len() == 0,
    ensures
        lmstat::parsed(output, parse_time) == (ServerStatusView {
            parse_time,
            ..ServerStatusView::blank()
        }),
        lmstat::parsed(output, parse_time).is_up(),
{
    lemma_blank(output);
    lemma_lines_of_blank(output, 0);
    assert forall|i: int| 0 <= i < text::lines_of(output).len() implies text::trimmed(
        #[trigger] text::lines_of(output)[i],
    ).len() == 0 by {
        lemma_blank(text::lines_of(output)[i]);
    }
    lemma_no_failure_in_blank(text::lines_of(output));
    assert(text::lines_of(text::trimmed(output)) =~= Seq::<Seq<char>>::empty());
    assert(lmstat::parsed(output, parse_time) =~= (ServerStatusView {
        parse_time,
        ..ServerStatusView::blank()
    }));
}

/// White space in front of a text is stripped with the rest.
proof fn lemma_trimmed_front(c: char, s: Seq<char>)
    requires
        text::is_white_space(c),
    ensures
        text::trimmed(seq![c] + s) == text::trimmed(s),
{
    assert((seq![c] + s).drop_first() =~= s);
}

/// Stripping the front of a text with one more character of white space at its
/// end.
proof fn lemma_trim_front_push(s: Seq<char>, c: char)
    requires
        text::is_white_space(c),
    ensures
        text::trim_front(s.push(c)) == if text::trim_front(s).len() == 0 {
            Seq::<char>::empty()
        } else {
            text::trim_front(s).push(c)
        },
    decreases s.len(),
{
    reveal_with_fuel(text::trim_front, 2);
    if s.len() == 0 {
        assert(s.push(c).drop_first() =~= Seq::<char>::empty());
    } else if text::is_white_space(s[0]) {
        assert(s.push(c).drop_first() =~= s.drop_first().push(c));
        lemma_trim_front_push(s.drop_first(), c);
    }
}

/// White space behind a text is stripped with the rest.
proof fn lemma_trimmed_back(s: Seq<char>, c: char)
    requires
        text::is_white_space(c),
    ensures
        text::trimmed(s.push(c)) == text::trimmed(s),
{
    lemma_trim_front_push(s, c);
    let front = text::trim_front(s);
    assert(front.push(c).drop_last() =~= front);
    assert(front.len() == 0 ==> front =~= Seq::<char>::empty());
}

/// The carriage return that a line loses is white space at its end.
proof fn lemma_trimmed_chomped(line: Seq<char>)
    ensures
        text::trimmed(text::chomped(line)) == text::trimmed(line),
{
    if line.len() > 0 && line.last() == '\r' {
        assert(line.drop_last().push('\r') =~= line);
        lemma_trimmed_back(line.drop_last(), '\r');
    }
}

/// Nothing is no failure message.
proof fn lemma_empty_is_no_failure()
    ensures
        !lmstat::is_failure_text(text::trimmed(Seq::empty())),
{
    lemma_blank(Seq::empty());
    let line: Seq<char> = Seq::empty();
    lemma_no_failure_in_blank(seq![line]);
}

/// The first failure where a line stands in front of others.
proof fn lemma_first_failure_cons(line: Seq<char>, rest: Seq<Seq<char>>)
    ensures
        lmstat::first_failure(seq![line] + rest) == if lmstat::is_failure_text(
            text::trimmed(line),
        ) {
            Some(text::trimmed(line))
        } else {
            lmstat::first_failure(rest)
        },
{
    assert((seq![line] + rest).drop_first() =~= rest);
}

/// The end of a line in a text with one more character in front.
proof fn lemma_line_end_shift(c: char, s: Seq<char>, from: int)
    requires
        0 <= from,
    ensures
        text::line_end(seq![c] + s, from + 1) == text::line_end(s, from) + 1,
    decreases s.len() - from,
{
    if from < s.len() && s[from] != '\n' {
        lemma_line_end_shift(c, s, from + 1);
    }
}

/// The lines of a text with one more character in front, from behind it.
proof fn lemma_lines_shift(c: char, s: Seq<char>, from: int)
    requires
        0 <= from,
    ensures
        text::lines_from(seq![c] + s, from + 1) == text::lines_from(s, from),
    decreases s.len() - from,
{
    let all = seq![c] + s;
    if from < s.len() {
        lemma_line_end_shift(c, s, from);
        text::lemma_line_end(s, from);
        let end = text::line_end(s, from);
        assert(all.subrange(from + 1, end + 1) =~= s.subrange(from, end));
        if end < s.len() {
            lemma_lines_shift(c, s, end + 1);
        }
    }
}

/// White space in front of an output hides no failure and adds none.
proof fn lemma_failure_front(c: char, s: Seq<char>)
    requires
        text::is_white_space(c),
    ensures
        lmstat::first_failure(text::lines_of(seq![c] + s)) == lmstat::first_failure(
            text::lines_of(s),
        ),
{
    let all = seq![c] + s;
    lemma_empty_is_no_failure();
    lemma_trimmed_front(c, Seq::empty());
    assert(seq![c] + Seq::<char>::empty() =~= seq![c]);
    if c == '\n' {
        lemma_lines_shift(c, s, 0);
        assert(text::chomped(all.subrange(0, 0)) =~= Seq::<char>::empty());
        lemma_first_failure_cons(Seq::empty(), text::lines_of(s));
    } else if s.len() == 0 {
        reveal_with_fuel(text::line_end, 2);
        assert(all.subrange(0, 1) =~= seq![c]);
        assert(text::lines_of(all) =~= seq![seq![c]] + Seq::<Seq<char>>::empty());
        lemma_first_failure_cons(seq![c], Seq::empty());
    } else {
        lemma_line_end_shift(c, s, 0);
        text::lemma_line_end(s, 0);
        let end = text::line_end(s, 0);
        let line = s.subrange(0, end);
        assert(all.subrange(0, end + 1) =~= seq![c] + line);
        lemma_trimmed_front(c, line);
        if end < s.len() {
            lemma_trimmed_chomped(line);
            lemma_trimmed_chomped(seq![c] + line);
            lemma_lines_shift(c, s, end + 1);
            let rest = text::lines_from(s, end + 1);
            lemma_first_failure_cons(text::chomped(line), rest);
            lemma_first_failure_cons(text::chomped(seq![c] + line), rest);
        } else {
            let rest: Seq<Seq<char>> = Seq::empty();
            assert(seq![line] + rest =~= text::lines_of(s));
            assert(seq![seq![c] + line] + rest =~= text::lines_of(all));
            lemma_first_failure_cons(line, rest);
            lemma_first_failure_cons(seq![c] + line, rest);
        }
    }
}

/// The end of a line in a text with one more character behind it.
proof fn lemma_line_end_push(s: Seq<char>, c: char, from: int)
    requires
        0 <= from <= s.len(),
    ensures
        text::line_end(s.push(c), from) == if text::line_end(s, from) < s.len() || c == '\n' {
            text::line_end(s, from)
        } else {
            s.len() as int + 1
        },
    decreases s.len() - from,
{
    text::lemma_line_end(s, from);
    if from < s.len() {
        if s[from] != '\n' {
            lemma_line_end_push(s, c, from + 1);
        }
    } else {
        reveal_with_fuel(text::line_end, 2);
    }
}

/// White space behind an output hides no failure and adds none.
proof fn lemma_failure_back(s: Seq<char>, c: char, from: int)
    requires
        text::is_white_space(c),
        0 <= from <= s.len(),
    ensures
        lmstat::first_failure(text::lines_from(s.push(c), from)) == lmstat::first_failure(
            text::lines_from(s, from),
        ),
    decreases s.len() - from,
{
    let all = s.push(c);
    let none: Seq<Seq<char>> = Seq::empty();
    text::lemma_line_end(s, from);
    lemma_line_end_push(s, c, from);
    let end = text::line_end(s, from);
    if end < s.len() {
        assert(all.subrange(from, end) =~= s.subrange(from, end));
        let line = text::chomped(s.subrange(from, end));
        lemma_failure_back(s, c, end + 1);
        lemma_first_failure_cons(line, text::lines_from(s, end + 1));
        lemma_first_failure_cons(line, text::lines_from(all, end + 1));
    } else {
        let line = s.subrange(from, s.len() as int);
        lemma_trimmed_back(line, c);
        lemma_empty_is_no_failure();
        if from < s.len() {
            assert(text::lines_from(s, from) =~= seq![line] + none);
            lemma_first_failure_cons(line, none);
        } else {
            assert(line =~= Seq::<char>::empty());
        }
        if c == '\n' {
            assert(all.subrange(from, s.len() as int) =~= line);
            assert(text::lines_from(all, s.len() as int + 1) =~= none);
            assert(text::lines_from(all, from) =~= seq![text::chomped(line)] + none);
            lemma_trimmed_chomped(line);
            lemma_first_failure_cons(text::chomped(line), none);
        } else {
            assert(all.subrange(from, all.len() as int) =~= line.push(c));
            assert(text::lines_from(all, from) =~= seq![line.push(c)] + none);
            lemma_first_failure_cons(line.push(c), none);
        }
    }
}

/// White space around the whole output changes nothing of what is read.
pub proof fn law_surrounding_white_space(
    before: Seq<char>,
    output: Seq<char>,
    after: Seq<char>,
    parse_time: Seq<char>,
)
    requires
        text_laws::is_blank(before),
        text_laws::is_blank(after),
    ensures
        lmstat::parsed(before + output + after, parse_time) == lmstat::parsed(output, parse_time),
    decreases before.len() + after.len(),
{
    if before.len() > 0 {
        let c = before[0];
        let rest = before.drop_first();
        assert(text_laws::is_blank(rest)) by {
            assert forall|i: int| 0 <= i < rest.len() implies text::is_white_space(
                #[trigger] rest[i],
            ) by {
                assert(rest[i] == before[i + 1]);
            }
        }
        law_surrounding_white_space(rest, output, after, parse_time);
        let inner = rest + output + after;
        assert(before + output + after =~= seq![c] + inner);
        lemma_trimmed_front(c, inner);
        lemma_failure_front(c, inner);
    } else if after.len() > 0 {
        let c = after.last();
        let rest = after.drop_last();
        law_surrounding_white_space(before, output, rest, parse_time);
        let inner = before + output + rest;
        assert(before + output + after =~= inner.push(c));
        lemma_trimmed_back(inner, c);
        lemma_failure_back(inner, c, 0);
    } else {
        assert(before + output + after =~= output);
    }
}

} // verus!
