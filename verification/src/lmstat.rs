//! Reading the output of `lmutil lmstat -a`.

use crate::lmutil::{self, FeatureUsage, FeatureUsageView, ServerStatus, ServerStatusView};
use crate::lmutil::{UserUsage, UserUsageView};
use crate::outside;
use crate::patterns;
use crate::text;
use vstd::prelude::*;
use vstd::string::*;

verus! {

/// The layouts that a line of the output can have.
#[derive(Debug, Clone, Copy, PartialEq, Eq, Structural)]
pub enum LineKind {
    ServerStatus,
    VendorDaemon,
    VendorDaemonSimple,
    FeatureUsersOf,
    FeatureBrief,
    FeatureLine,
    UserLine,
}

/// What a line of the output says.
#[derive(Debug)]
pub enum LineRecord {
    /// Where the license server listens. A port out of range is `None`.
    Server { port: Option<u16>, host: String },
    /// The vendor daemon and its status.
    VendorDaemon { name: String, status: String },
    /// The license counts of a feature. `opens_section`: the user lines that
    /// follow belong to it.
    Feature { name: String, vendor: Option<String>, total: i64, used: i64, opens_section: bool },
    /// A user who holds a license.
    User {
        username: String,
        host: String,
        display: String,
        start_time: String,
        feature: Option<String>,
    },
    /// Nothing of interest.
    Other,
}

/// The model of [`LineRecord`].
#[verifier::ext_equal]
pub enum LineRecordView {
    Server { port: Option<u16>, host: Seq<char> },
    VendorDaemon { name: Seq<char>, status: Seq<char> },
    Feature {
        name: Seq<char>,
        vendor: Option<Seq<char>>,
        total: i64,
        used: i64,
        opens_section: bool,
    },
    User {
        username: Seq<char>,
        host: Seq<char>,
        display: Seq<char>,
        start_time: Seq<char>,
        feature: Option<Seq<char>>,
    },
    Other,
}

/// The view of an optional text.
pub open spec fn optional_text(s: Option<String>) -> Option<Seq<char>> {
    match s {
        Some(t) => Some(t@),
        None => None,
    }
}

impl View for LineRecord {
    type V = LineRecordView;

    open spec fn view(&self) -> LineRecordView {
        match *self {
            LineRecord::Server { port, host } => LineRecordView::Server { port, host: host@ },
            LineRecord::VendorDaemon { name, status } => LineRecordView::VendorDaemon {
                name: name@,
                status: status@,
            },
            LineRecord::Feature { name, vendor, total, used, opens_section } =>
            LineRecordView::Feature {
                name: name@,
                vendor: optional_text(vendor),
                total,
                used,
                opens_section,
            },
            LineRecord::User { username, host, display, start_time, feature } =>
            LineRecordView::User {
                username: username@,
                host: host@,
                display: display@,
                start_time: start_time@,
                feature: optional_text(feature),
            },
            LineRecord::Other => LineRecordView::Other,
        }
    }
}

/// The text of a capture group; empty where the group took no part in the match.
pub open spec fn group_text(groups: Seq<Option<Seq<char>>>, i: int) -> Seq<char> {
    match optional_group(groups, i) {
        Some(t) => t,
        None => Seq::empty(),
    }
}

/// The text of a capture group, if the group took part in the match.
pub open spec fn optional_group(groups: Seq<Option<Seq<char>>>, i: int) -> Option<Seq<char>> {
    if 0 <= i < groups.len() {
        groups[i]
    } else {
        None
    }
}

/// The integer that a text writes; zero where it writes none.
pub open spec fn int_or_zero(s: Seq<char>) -> i64 {
    match text::parsed_i64(s) {
        Some(n) => n as i64,
        None => 0,
    }
}

/// The port that a text writes.
pub open spec fn port_of(s: Seq<char>) -> Option<u16> {
    match text::parsed_u16(s) {
        Some(n) => Some(n as u16),
        None => None,
    }
}

/// What a line says whose layout matched with the given capture groups.
pub open spec fn record_of(kind: LineKind, groups: Seq<Option<Seq<char>>>) -> LineRecordView {
    match kind {
        LineKind::ServerStatus => LineRecordView::Server {
            port: port_of(group_text(groups, 1)),
            host: group_text(groups, 2),
        },
        LineKind::VendorDaemon => LineRecordView::VendorDaemon {
            name: group_text(groups, 2),
            status: group_text(groups, 3),
        },
        LineKind::VendorDaemonSimple => LineRecordView::VendorDaemon {
            name: group_text(groups, 1),
            status: outside::uppercase(group_text(groups, 2)),
        },
        LineKind::FeatureUsersOf => LineRecordView::Feature {
            name: group_text(groups, 1),
            vendor: None,
            total: int_or_zero(group_text(groups, 2)),
            used: int_or_zero(group_text(groups, 3)),
            opens_section: true,
        },
        LineKind::FeatureBrief => LineRecordView::Feature {
            name: group_text(groups, 1),
            vendor: None,
            total: int_or_zero(group_text(groups, 2)),
            used: int_or_zero(group_text(groups, 3)),
            opens_section: false,
        },
        LineKind::FeatureLine => LineRecordView::Feature {
            name: group_text(groups, 1),
            vendor: Some(group_text(groups, 2)),
            total: int_or_zero(group_text(groups, 3)),
            used: int_or_zero(group_text(groups, 4)),
            opens_section: true,
        },
        LineKind::UserLine => LineRecordView::User {
            username: group_text(groups, 1),
            host: group_text(groups, 2),
            display: group_text(groups, 3),
            start_time: group_text(groups, 4),
            feature: optional_group(groups, 5),
        },
    }
}

/// The regular expression of a layout.
pub open spec fn pattern_of(kind: LineKind) -> Seq<char> {
    match kind {
        LineKind::ServerStatus => patterns::SERVER_STATUS@,
        LineKind::VendorDaemon => patterns::VENDOR_DAEMON@,
        LineKind::VendorDaemonSimple => patterns::VENDOR_DAEMON_SIMPLE@,
        LineKind::FeatureUsersOf => patterns::FEATURE_USERS_OF@,
        LineKind::FeatureBrief => patterns::FEATURE_BRIEF@,
        LineKind::FeatureLine => patterns::FEATURE_LINE@,
        LineKind::UserLine => patterns::USER_LINE@,
    }
}

/// The layouts in the order in which they are tried. The short form of the
/// vendor daemon line is tried only while no vendor daemon is known.
pub open spec fn layouts(daemon_known: bool) -> Seq<LineKind> {
    let head = seq![LineKind::ServerStatus, LineKind::VendorDaemon];
    let simple = if daemon_known {
        Seq::empty()
    } else {
        seq![LineKind::VendorDaemonSimple]
    };
    let tail = seq![
        LineKind::FeatureUsersOf,
        LineKind::FeatureBrief,
        LineKind::FeatureLine,
        LineKind::UserLine,
    ];
    head + simple + tail
}

/// What a line says under the first of the given layouts that matches it.
pub open spec fn first_record(kinds: Seq<LineKind>, line: Seq<char>) -> LineRecordView
    decreases kinds.len(),
{
    if kinds.len() == 0 {
        LineRecordView::Other
    } else {
        match outside::regex_groups(pattern_of(kinds[0]), line) {
            Some(groups) => record_of(kinds[0], groups),
            None => first_record(kinds.drop_first(), line),
        }
    }
}

/// What a line says.
pub open spec fn record_of_line(line: Seq<char>, daemon_known: bool) -> LineRecordView {
    first_record(layouts(daemon_known), line)
}

/// Reads the text of a capture group; empty where the group took no part.
fn read_group(groups: &Vec<Option<String>>, i: usize) -> (r: String)
    ensures
        r@ == group_text(outside::groups_view(groups@), i as int),
{
    if i < groups.len() {
        match &groups[i] {
            Some(t) => t.clone(),
            None => String::new(),
        }
    } else {
        String::new()
    }
}

/// Reads the text of a capture group, if the group took part.
fn read_optional_group(groups: &Vec<Option<String>>, i: usize) -> (r: Option<String>)
    ensures
        optional_text(r) == optional_group(outside::groups_view(groups@), i as int),
{
    if i < groups.len() {
        match &groups[i] {
            Some(t) => Some(t.clone()),
            None => None,
        }
    } else {
        None
    }
}

/// Reads an integer; zero where the text writes none.
pub fn parse_int(value: &str) -> (r: i64)
    ensures
        r == int_or_zero(value@),
{
    match text::parse_i64(value) {
        Some(v) => v,
        None => 0,
    }
}

/// Turns the capture groups of a line into what the line says.
pub fn record_from_groups(kind: LineKind, groups: &Vec<Option<String>>) -> (r: LineRecord)
    ensures
        r@ == record_of(kind, outside::groups_view(groups@)),
        kind == LineKind::VendorDaemonSimple && outside::is_ascii_letters(
            group_text(outside::groups_view(groups@), 2),
        ) ==> r@ == (LineRecordView::VendorDaemon {
            name: group_text(outside::groups_view(groups@), 1),
            status: outside::ascii_uppercase(group_text(outside::groups_view(groups@), 2)),
        }),
{
    match kind {
        LineKind::ServerStatus => LineRecord::Server {
            port: text::parse_u16(read_group(groups, 1).as_str()),
            host: read_group(groups, 2),
        },
        LineKind::VendorDaemon => LineRecord::VendorDaemon {
            name: read_group(groups, 2),
            status: read_group(groups, 3),
        },
        LineKind::VendorDaemonSimple => LineRecord::VendorDaemon {
            name: read_group(groups, 1),
            status: outside::to_uppercase(read_group(groups, 2).as_str()),
        },
        LineKind::FeatureUsersOf => LineRecord::Feature {
            name: read_group(groups, 1),
            vendor: None,
            total: parse_int(read_group(groups, 2).as_str()),
            used: parse_int(read_group(groups, 3).as_str()),
            opens_section: true,
        },
        LineKind::FeatureBrief => LineRecord::Feature {
            name: read_group(groups, 1),
            vendor: None,
            total: parse_int(read_group(groups, 2).as_str()),
            used: parse_int(read_group(groups, 3).as_str()),
            opens_section: false,
        },
        LineKind::FeatureLine => LineRecord::Feature {
            name: read_group(groups, 1),
            vendor: Some(read_group(groups, 2)),
            total: parse_int(read_group(groups, 3).as_str()),
            used: parse_int(read_group(groups, 4).as_str()),
            opens_section: true,
        },
        LineKind::UserLine => LineRecord::User {
            username: read_group(groups, 1),
            host: read_group(groups, 2),
            display: read_group(groups, 3),
            start_time: read_group(groups, 4),
            feature: read_optional_group(groups, 5),
        },
    }
}

impl LineRecordView {
    /// Names are not empty, and counts are not negative.
    pub open spec fn is_sound(self) -> bool {
        match self {
            LineRecordView::Server { host, .. } => host.len() > 0,
            LineRecordView::VendorDaemon { name, .. } => name.len() > 0,
            LineRecordView::Feature { name, total, used, .. } => name.len() > 0 && total >= 0
                && used >= 0,
            LineRecordView::User { username, host, start_time, .. } => username.len() > 0
                && host.len() > 0 && start_time.len() > 0,
            LineRecordView::Other => true,
        }
    }
}

/// The layouts, ready for use.
pub struct LineReader {
    server_status: regex::Regex,
    vendor_daemon: regex::Regex,
    vendor_daemon_simple: regex::Regex,
    feature_users_of: regex::Regex,
    feature_brief: regex::Regex,
    feature_line: regex::Regex,
    user_line: regex::Regex,
}

/// Gives the layouts in the order in which they are tried.
fn layout_order(daemon_known: bool) -> (r: Vec<LineKind>)
    ensures
        r@ == layouts(daemon_known),
{
    let mut kinds: Vec<LineKind> = Vec::new();
    kinds.push(LineKind::ServerStatus);
    kinds.push(LineKind::VendorDaemon);
    if !daemon_known {
        kinds.push(LineKind::VendorDaemonSimple);
    }
    kinds.push(LineKind::FeatureUsersOf);
    kinds.push(LineKind::FeatureBrief);
    kinds.push(LineKind::FeatureLine);
    kinds.push(LineKind::UserLine);
    assert(kinds@ =~= layouts(daemon_known));
    kinds
}

impl LineReader {
    /// Each layout has its regular expression.
    pub closed spec fn wf(self) -> bool {
        &&& outside::regex_source(self.server_status) == pattern_of(LineKind::ServerStatus)
        &&& outside::regex_source(self.vendor_daemon) == pattern_of(LineKind::VendorDaemon)
        &&& outside::regex_source(self.vendor_daemon_simple) == pattern_of(
            LineKind::VendorDaemonSimple,
        )
        &&& outside::regex_source(self.feature_users_of) == pattern_of(LineKind::FeatureUsersOf)
        &&& outside::regex_source(self.feature_brief) == pattern_of(LineKind::FeatureBrief)
        &&& outside::regex_source(self.feature_line) == pattern_of(LineKind::FeatureLine)
        &&& outside::regex_source(self.user_line) == pattern_of(LineKind::UserLine)
    }

    /// Compiles the regular expressions of the layouts.
    pub fn new() -> (r: Self)
        ensures
            r.wf(),
    {
        LineReader {
            server_status: outside::compile(patterns::SERVER_STATUS),
            vendor_daemon: outside::compile(patterns::VENDOR_DAEMON),
            vendor_daemon_simple: outside::compile(patterns::VENDOR_DAEMON_SIMPLE),
            feature_users_of: outside::compile(patterns::FEATURE_USERS_OF),
            feature_brief: outside::compile(patterns::FEATURE_BRIEF),
            feature_line: outside::compile(patterns::FEATURE_LINE),
            user_line: outside::compile(patterns::USER_LINE),
        }
    }

    /// Matches a line against one layout.
    fn match_line(&self, kind: LineKind, line: &str) -> (r: Option<LineRecord>)
        requires
            self.wf(),
        ensures
            match r {
                Some(record) => outside::regex_groups(pattern_of(kind), line@) matches Some(groups)
                    && record@ == record_of(kind, groups) && record@.is_sound(),
                None => outside::regex_groups(pattern_of(kind), line@) is None,
            },
    {
        let regex = match kind {
            LineKind::ServerStatus => &self.server_status,
            LineKind::VendorDaemon => &self.vendor_daemon,
            LineKind::VendorDaemonSimple => &self.vendor_daemon_simple,
            LineKind::FeatureUsersOf => &self.feature_users_of,
            LineKind::FeatureBrief => &self.feature_brief,
            LineKind::FeatureLine => &self.feature_line,
            LineKind::UserLine => &self.user_line,
        };
        match outside::regex_captures(regex, line) {
            Some(groups) => {
                proof {
                    lemma_record_sound(kind, outside::groups_view(groups@));
                }
                Some(record_from_groups(kind, &groups))
            },
            None => None,
        }
    }

    /// Reads one line of the output.
    pub fn read_line(&self, line: &str, daemon_known: bool) -> (r: LineRecord)
        requires
            self.wf(),
        ensures
            r@ == record_of_line(line@, daemon_known),
            r@.is_sound(),
    {
        let kinds = layout_order(daemon_known);
        let mut i: usize = 0;
        assert(kinds@.skip(0) =~= kinds@);
        while i < kinds.len()
            invariant
                self.wf(),
                i <= kinds@.len(),
                first_record(kinds@.skip(i as int), line@) == record_of_line(line@, daemon_known),
            decreases kinds@.len() - i,
        {
            assert(kinds@.skip(i as int).drop_first() =~= kinds@.skip(i + 1));
            match self.match_line(kinds[i], line) {
                Some(record) => {
                    return record;
                },
                None => {},
            }
            i += 1;
        }
        LineRecord::Other
    }
}

/// A text without a sign at its start writes no negative integer.
proof fn lemma_unsigned(groups: Seq<Option<Seq<char>>>, i: int)
    requires
        0 <= i < groups.len(),
        patterns::is_unsigned(groups, i),
    ensures
        int_or_zero(group_text(groups, i)) >= 0,
{
    assert(groups[i]->0[0] != '-');
}

/// Where the capture groups fit the layout, what the line says is sound.
proof fn lemma_record_sound(kind: LineKind, groups: Seq<Option<Seq<char>>>)
    requires
        patterns::groups_fit(pattern_of(kind), groups),
    ensures
        record_of(kind, groups).is_sound(),
{
    match kind {
        LineKind::FeatureUsersOf | LineKind::FeatureBrief => {
            lemma_unsigned(groups, 2);
            lemma_unsigned(groups, 3);
        },
        LineKind::FeatureLine => {
            lemma_unsigned(groups, 3);
            lemma_unsigned(groups, 4);
        },
        _ => {},
    }
}

/// The position of the first feature of a name at or after `from`, or the
/// length of the table.
pub open spec fn find_from(table: Seq<FeatureUsageView>, name: Seq<char>, from: int) -> int
    decreases table.len() - from,
{
    if from < 0 || from >= table.len() || table[from].name == name {
        from
    } else {
        find_from(table, name, from + 1)
    }
}

/// The position of a feature in the table, or the length of the table.
pub open spec fn find(table: Seq<FeatureUsageView>, name: Seq<char>) -> int {
    find_from(table, name, 0)
}

/// The table with a feature of that name: the one it has, or a new one at the end.
pub open spec fn with_entry(table: Seq<FeatureUsageView>, name: Seq<char>) -> Seq<
    FeatureUsageView,
> {
    if find(table, name) < table.len() {
        table
    } else {
        table.push(FeatureUsageView::named(name))
    }
}

/// No two features of the table share a name.
pub open spec fn names_distinct(table: Seq<FeatureUsageView>) -> bool {
    forall|i: int, j: int|
        0 <= i < j < table.len() ==> (#[trigger] table[i]).name != (#[trigger] table[j]).name
}

/// The found position lies in the table or at its end, and holds the name where
/// it lies in the table; no earlier feature has the name.
pub proof fn lemma_find_from(table: Seq<FeatureUsageView>, name: Seq<char>, from: int)
    requires
        0 <= from <= table.len(),
    ensures
        from <= find_from(table, name, from) <= table.len(),
        find_from(table, name, from) < table.len() ==> table[find_from(table, name, from)].name
            == name,
        forall|i: int| from <= i < find_from(table, name, from) ==> table[i].name != name,
    decreases table.len() - from,
{
    if from < table.len() && table[from].name != name {
        lemma_find_from(table, name, from + 1);
    }
}

/// A position that holds the name, with no earlier feature of that name, is the
/// found one.
pub proof fn lemma_find_is(table: Seq<FeatureUsageView>, name: Seq<char>, at: int)
    requires
        0 <= at < table.len(),
        table[at].name == name,
        forall|i: int| 0 <= i < at ==> table[i].name != name,
    ensures
        find(table, name) == at,
{
    lemma_find_from(table, name, 0);
}

/// The features of the output, in the order in which they first appear.
pub struct FeatureTable {
    features: Vec<FeatureUsage>,
}

impl View for FeatureTable {
    type V = Seq<FeatureUsageView>;

    closed spec fn view(&self) -> Seq<FeatureUsageView> {
        lmutil::features_view(self.features@)
    }
}

impl Default for FeatureTable {
    fn default() -> (r: Self)
        ensures
            r@ == Seq::<FeatureUsageView>::empty(),
    {
        let r = FeatureTable { features: Vec::new() };
        assert(r@ =~= Seq::<FeatureUsageView>::empty());
        r
    }
}

impl FeatureTable {
    /// Gives the feature of a name, which is created where the table has none.
    pub fn entry(&mut self, name: &str) -> (feature: &mut FeatureUsage)
        ensures
            0 <= find(with_entry(old(self)@, name@), name@) < with_entry(old(self)@, name@).len(),
            feature@ == with_entry(old(self)@, name@)[find(with_entry(old(self)@, name@), name@)],
            final(self)@ == with_entry(old(self)@, name@).update(
                find(with_entry(old(self)@, name@), name@),
                final(feature)@,
            ),
    {
        let ghost table = self@;
        let mut i: usize = 0;
        while i < self.features.len() && !text::same(self.features[i].name.as_str(), name)
            invariant
                self@ == table,
                i <= self.features@.len(),
                find(table, name@) == find_from(table, name@, i as int),
            decreases self.features@.len() - i,
        {
            i += 1;
        }
        if i == self.features.len() {
            let feature = FeatureUsage {
                name: name.to_owned(),
                vendor: String::new(),
                total: 0,
                used: 0,
                users: Vec::new(),
            };
            assert(feature@ =~= FeatureUsageView::named(name@));
            self.features.push(feature);
            assert(self@ =~= table.push(FeatureUsageView::named(name@)));
        }
        assert(self@ == with_entry(table, name@));
        proof {
            lemma_find_from(table, name@, 0);
            lemma_find_is(self@, name@, i as int);
        }
        &mut self.features[i]
    }

    /// Hands the features out.
    pub fn into_vec(self) -> (r: Vec<FeatureUsage>)
        ensures
            lmutil::features_view(r@) == self@,
    {
        self.features
    }
}

/// How far the reading of an output has come. The features stand in the table
/// until the end.
pub struct Progress {
    pub status: ServerStatus,
    pub table: FeatureTable,
    pub current: Option<String>,
}

/// The model of [`Progress`].
#[verifier::ext_equal]
pub struct ProgressView {
    pub status: ServerStatusView,
    pub table: Seq<FeatureUsageView>,
    pub current: Option<Seq<char>>,
}

impl View for Progress {
    type V = ProgressView;

    open spec fn view(&self) -> ProgressView {
        ProgressView {
            status: self.status@,
            table: self.table@,
            current: optional_text(self.current),
        }
    }
}

/// The table with new counts for a feature.
pub open spec fn with_counts(
    table: Seq<FeatureUsageView>,
    name: Seq<char>,
    vendor: Option<Seq<char>>,
    total: i64,
    used: i64,
) -> Seq<FeatureUsageView> {
    let entries = with_entry(table, name);
    let at = find(entries, name);
    entries.update(
        at,
        FeatureUsageView {
            vendor: match vendor {
                Some(v) => v,
                None => entries[at].vendor,
            },
            total,
            used,
            ..entries[at]
        },
    )
}

/// The table with one more user of a feature.
pub open spec fn with_user(
    table: Seq<FeatureUsageView>,
    name: Seq<char>,
    user: UserUsageView,
) -> Seq<FeatureUsageView> {
    let entries = with_entry(table, name);
    let at = find(entries, name);
    entries.update(
        at,
        FeatureUsageView { users: entries[at].users.push(user), ..entries[at] },
    )
}

/// The feature that a user line speaks of: the one it names, or that of the section.
pub open spec fn user_feature(named: Option<Seq<char>>, current: Option<Seq<char>>) -> Seq<char> {
    match named {
        Some(name) => name,
        None => match current {
            Some(name) => name,
            None => Seq::empty(),
        },
    }
}

impl ProgressView {
    /// Nothing read yet.
    pub open spec fn start() -> Self {
        ProgressView {
            status: ServerStatusView::blank(),
            table: Seq::empty(),
            current: None,
        }
    }

    /// After one more line that says the given thing.
    pub open spec fn after(self, record: LineRecordView) -> Self {
        match record {
            LineRecordView::Server { port, host } => ProgressView {
                status: ServerStatusView {
                    lmgrd_port: match port {
                        Some(p) => p,
                        None => self.status.lmgrd_port,
                    },
                    server_host: host,
                    ..self.status
                },
                ..self
            },
            LineRecordView::VendorDaemon { name, status } => ProgressView {
                status: ServerStatusView { vendor_daemon: name, status, ..self.status },
                ..self
            },
            LineRecordView::Feature { name, vendor, total, used, opens_section } => ProgressView {
                table: with_counts(self.table, name, vendor, total, used),
                current: if opens_section {
                    Some(name)
                } else {
                    self.current
                },
                ..self
            },
            LineRecordView::User { username, host, display, start_time, feature } => {
                let user = UserUsageView {
                    username,
                    host,
                    display,
                    start_time,
                    feature: user_feature(feature, self.current),
                };
                ProgressView {
                    status: ServerStatusView {
                        users: self.status.users.push(user),
                        ..self.status
                    },
                    table: match self.current {
                        Some(name) => with_user(self.table, name, user),
                        None => self.table,
                    },
                    ..self
                }
            },
            LineRecordView::Other => self,
        }
    }

    /// A vendor daemon is known.
    pub open spec fn daemon_known(self) -> bool {
        self.status.vendor_daemon.len() > 0
    }
}

/// After reading the given lines.
pub open spec fn progress_after(lines: Seq<Seq<char>>) -> ProgressView
    decreases lines.len(),
{
    if lines.len() == 0 {
        ProgressView::start()
    } else {
        let before = progress_after(lines.drop_last());
        before.after(record_of_line(lines.last(), before.daemon_known()))
    }
}

/// Names are not empty, and counts are not negative.
pub open spec fn features_sound(features: Seq<FeatureUsageView>) -> bool {
    forall|i: int|
        0 <= i < features.len() ==> (#[trigger] features[i]).name.len() > 0 && features[i].total
            >= 0 && features[i].used >= 0
}

/// Users have a name, a host and a start time.
pub open spec fn users_sound(users: Seq<UserUsageView>) -> bool {
    forall|i: int|
        0 <= i < users.len() ==> (#[trigger] users[i]).username.len() > 0 && users[i].host.len()
            > 0 && users[i].start_time.len() > 0
}

impl ProgressView {
    /// What has been read is sound, and the open section has a name.
    pub open spec fn is_sound(self) -> bool {
        &&& features_sound(self.table)
        &&& users_sound(self.status.users)
        &&& self.current matches Some(name) ==> name.len() > 0
    }
}

/// Sound lines keep what has been read sound.
proof fn lemma_after_sound(progress: ProgressView, record: LineRecordView)
    requires
        progress.is_sound(),
        record.is_sound(),
    ensures
        progress.after(record).is_sound(),
{
    match record {
        LineRecordView::Feature { name, .. } => {
            lemma_entry_sound(progress.table, name);
        },
        LineRecordView::User { .. } => {
            if let Some(name) = progress.current {
                lemma_entry_sound(progress.table, name);
            }
        },
        _ => {},
    }
}

/// A new entry with a name keeps the table sound, and is found there.
proof fn lemma_entry_sound(table: Seq<FeatureUsageView>, name: Seq<char>)
    requires
        features_sound(table),
        name.len() > 0,
    ensures
        features_sound(with_entry(table, name)),
        0 <= find(with_entry(table, name), name) < with_entry(table, name).len(),
{
    let entries = with_entry(table, name);
    lemma_find_from(table, name, 0);
    if find(table, name) >= table.len() {
        lemma_find_is(entries, name, table.len() as int);
    }
}

impl Progress {
    /// Starts with nothing read.
    pub fn new() -> (r: Self)
        ensures
            r@ == ProgressView::start(),
    {
        Progress {
            status: ServerStatus::default(),
            table: FeatureTable::default(),
            current: None,
        }
    }

    /// Takes in what one more line says.
    pub fn apply(&mut self, record: LineRecord)
        ensures
            final(self)@ == old(self)@.after(record@),
    {
        match record {
            LineRecord::Server { port, host } => {
                match port {
                    Some(p) => {
                        self.status.lmgrd_port = p;
                    },
                    None => {},
                }
                self.status.server_host = host;
            },
            LineRecord::VendorDaemon { name, status } => {
                self.status.vendor_daemon = name;
                self.status.status = status;
            },
            LineRecord::Feature { name, vendor, total, used, opens_section } => {
                let feature = self.table.entry(name.as_str());
                match vendor {
                    Some(v) => {
                        feature.vendor = v;
                    },
                    None => {},
                }
                feature.total = total;
                feature.used = used;
                if opens_section {
                    self.current = Some(name);
                }
            },
            LineRecord::User { username, host, display, start_time, feature } => {
                let belongs = match feature {
                    Some(name) => name,
                    None => match &self.current {
                        Some(name) => name.clone(),
                        None => String::new(),
                    },
                };
                let user = UserUsage { username, host, display, start_time, feature: belongs };
                match &self.current {
                    Some(name) => {
                        let entry = self.table.entry(name.as_str());
                        let ghost before = entry@.users;
                        let copy = user.clone();
                        entry.users.push(copy);
                        assert(lmutil::users_view(entry.users@) =~= before.push(user@));
                    },
                    None => {},
                }
                let ghost before = self.status@.users;
                self.status.users.push(user);
                assert(lmutil::users_view(self.status.users@) =~= before.push(user@));
            },
            LineRecord::Other => {},
        }
    }
}

/// The text holds a message by which `lmutil` says that it failed: the server
/// cannot be reached, or the license file is wrong.
pub open spec fn is_failure_text(s: Seq<char>) -> bool {
    ||| text::contains_text(s, "Cannot connect to license server"@)
    ||| text::contains_text(s, "License server machine is down"@)
    ||| text::contains_text(s, "Error getting status"@)
    ||| text::contains_text(s, "lmgrd is not running"@)
    ||| text::contains_text(s, "Invalid license file syntax"@)
    ||| text::contains_text(s, "Failed to open the TCP port"@)
}

/// The first line, trimmed, that says that `lmutil` failed.
pub open spec fn first_failure(lines: Seq<Seq<char>>) -> Option<Seq<char>>
    decreases lines.len(),
{
    if lines.len() == 0 {
        None
    } else if is_failure_text(text::trimmed(lines[0])) {
        Some(text::trimmed(lines[0]))
    } else {
        first_failure(lines.drop_first())
    }
}

impl ServerStatusView {
    /// The output told a feature or a user.
    pub open spec fn has_data(self) -> bool {
        self.features.len() > 0 || self.users.len() > 0
    }

    /// The status in the light of the failure messages of the output, which
    /// count only where the output told neither a feature nor a user.
    pub open spec fn judged_by(self, output: Seq<char>) -> Self {
        match first_failure(text::lines_of(output)) {
            Some(line) if !self.has_data() => ServerStatusView {
                status: "DOWN"@,
                parse_error: "lmutil 采集失败: "@ + line,
                unreachable: true,
                ..self
            },
            _ => self,
        }
    }
}

/// What an output says, read at the given time.
pub open spec fn parsed(output: Seq<char>, parse_time: Seq<char>) -> ServerStatusView {
    let end = progress_after(text::lines_of(text::trimmed(output)));
    (ServerStatusView { features: end.table, parse_time, ..end.status }).judged_by(output)
}

/// Tells whether a text holds a failure message.
fn failure_text(s: &str) -> (r: bool)
    ensures
        r == is_failure_text(s@),
{
    text::contains(s, "Cannot connect to license server") || text::contains(
        s,
        "License server machine is down",
    ) || text::contains(s, "Error getting status") || text::contains(s, "lmgrd is not running")
        || text::contains(s, "Invalid license file syntax") || text::contains(
        s,
        "Failed to open the TCP port",
    )
}

/// Marks the server as down where the output told a failure, and neither a
/// feature nor a user.
pub fn detect_failure(status: &mut ServerStatus, output: &str)
    ensures
        final(status)@ == old(status)@.judged_by(output@),
{
    if status.features.len() > 0 || status.users.len() > 0 {
        return;
    }
    let lines = text::lines(output);
    let ghost all = text::lines_of(output@);
    let mut i: usize = 0;
    assert(all.skip(0) =~= all);
    while i < lines.len()
        invariant
            i <= lines@.len(),
            all == text::lines_of(output@),
            all == text::texts(lines@),
            first_failure(all) == first_failure(all.skip(i as int)),
            *status == *old(status),
            !status@.has_data(),
        decreases lines@.len() - i,
    {
        assert(all.skip(i as int).drop_first() =~= all.skip(i + 1));
        let trimmed = text::trim(lines[i].as_str());
        if failure_text(trimmed.as_str()) {
            let mut message = "lmutil 采集失败: ".to_owned();
            message.append(trimmed.as_str());
            status.status = "DOWN".to_owned();
            status.parse_error = message;
            status.unreachable = true;
            return;
        }
        i += 1;
    }
}

/// Reads the full output of `lmutil lmstat -a`, with the time of collection given.
pub fn parse_lmstat_output_at(output: &str, parse_time: String) -> (r: ServerStatus)
    ensures
        r@ == parsed(output@, parse_time@),
        features_sound(r@.features),
        users_sound(r@.users),
{
    let reader = LineReader::new();
    let trimmed = text::trim(output);
    let lines = text::lines(trimmed.as_str());
    let ghost all = text::lines_of(text::trimmed(output@));
    let mut progress = Progress::new();
    let mut i: usize = 0;
    while i < lines.len()
        invariant
            i <= lines@.len(),
            all == text::texts(lines@),
            progress@ == progress_after(all.take(i as int)),
            progress@.is_sound(),
            reader.wf(),
        decreases lines@.len() - i,
    {
        assert(all.take(i + 1).drop_last() =~= all.take(i as int));
        let daemon_known = !progress.status.vendor_daemon.as_str().is_empty();
        let record = reader.read_line(lines[i].as_str(), daemon_known);
        proof {
            lemma_after_sound(progress@, record@);
        }
        progress.apply(record);
        i += 1;
    }
    assert(all.take(i as int) =~= all);
    let mut status = progress.status;
    status.features = progress.table.into_vec();
    status.parse_time = parse_time;
    detect_failure(&mut status, output);
    status
}

/// Reads the full output of `lmutil lmstat -a`. The time of collection is that
/// of the call.
pub fn parse_lmstat_output(output: &str) -> (r: ServerStatus)
    ensures
        r@ == parsed(output@, r@.parse_time),
        outside::is_iso8601(r@.parse_time),
        features_sound(r@.features),
        users_sound(r@.users),
{
    parse_lmstat_output_at(output, outside::now_iso8601())
}

} // verus!
