//! What a license server reports, and how `lmutil` is run.

pub use crate::lmstat::parse_lmstat_output;

use crate::outside;
use crate::text;
use vstd::prelude::*;
use vstd::string::*;

verus! {

/// A seat held by one user.
#[derive(Debug, PartialEq, Eq)]
pub struct UserUsage {
    pub username: String,
    pub host: String,
    pub display: String,
    pub start_time: String,
    pub feature: String,
}

/// The model of [`UserUsage`].
#[verifier::ext_equal]
pub struct UserUsageView {
    pub username: Seq<char>,
    pub host: Seq<char>,
    pub display: Seq<char>,
    pub start_time: Seq<char>,
    pub feature: Seq<char>,
}

impl View for UserUsage {
    type V = UserUsageView;

    open spec fn view(&self) -> UserUsageView {
        UserUsageView {
            username: self.username@,
            host: self.host@,
            display: self.display@,
            start_time: self.start_time@,
            feature: self.feature@,
        }
    }
}

impl Clone for UserUsage {
    fn clone(&self) -> (r: Self)
        ensures
            r@ == self@,
    {
        UserUsage {
            username: self.username.clone(),
            host: self.host.clone(),
            display: self.display.clone(),
            start_time: self.start_time.clone(),
            feature: self.feature.clone(),
        }
    }
}

impl Default for UserUsage {
    fn default() -> (r: Self)
        ensures
            r@ == (UserUsageView {
                username: Seq::empty(),
                host: Seq::empty(),
                display: Seq::empty(),
                start_time: Seq::empty(),
                feature: Seq::empty(),
            }),
    {
        UserUsage {
            username: String::new(),
            host: String::new(),
            display: String::new(),
            start_time: String::new(),
            feature: String::new(),
        }
    }
}

/// The models of a list of users.
pub open spec fn users_view(users: Seq<UserUsage>) -> Seq<UserUsageView> {
    Seq::new(users.len(), |i: int| users[i]@)
}

/// Copies a list of users.
pub fn clone_users(users: &Vec<UserUsage>) -> (r: Vec<UserUsage>)
    ensures
        users_view(r@) == users_view(users@),
{
    let mut r: Vec<UserUsage> = Vec::new();
    let mut i: usize = 0;
    while i < users.len()
        invariant
            i <= users@.len(),
            users_view(r@) == users_view(users@).take(i as int),
        decreases users@.len() - i,
    {
        let ghost before = users_view(r@);
        let user = users[i].clone();
        r.push(user);
        assert(users_view(r@) =~= before.push(user@));
        assert(users_view(users@).take(i + 1) =~= users_view(users@).take(i as int).push(user@));
        i += 1;
    }
    assert(users_view(users@).take(i as int) =~= users_view(users@));
    r
}

/// The exact quotient of two counts.
#[derive(Debug, Clone, Copy, PartialEq, Eq, Structural)]
pub struct UsageRatio {
    pub numerator: i64,
    pub denominator: i64,
}

/// Licenses in use over licenses issued; zero where none are issued.
pub open spec fn ratio_of(used: i64, total: i64) -> UsageRatio {
    if total > 0 {
        UsageRatio { numerator: used, denominator: total }
    } else {
        UsageRatio { numerator: 0, denominator: 1 }
    }
}

/// The usage of one licensed feature.
#[derive(Debug)]
pub struct FeatureUsage {
    pub name: String,
    pub vendor: String,
    pub total: i64,
    pub used: i64,
    pub users: Vec<UserUsage>,
}

/// The model of [`FeatureUsage`].
#[verifier::ext_equal]
pub struct FeatureUsageView {
    pub name: Seq<char>,
    pub vendor: Seq<char>,
    pub total: i64,
    pub used: i64,
    pub users: Seq<UserUsageView>,
}

impl FeatureUsageView {
    /// A feature of which nothing but the name is known.
    pub open spec fn named(name: Seq<char>) -> Self {
        FeatureUsageView {
            name,
            vendor: Seq::empty(),
            total: 0,
            used: 0,
            users: Seq::empty(),
        }
    }

    /// The number of free licenses is an `i64`.
    pub open spec fn idle_in_range(self) -> bool {
        i64::MIN <= self.total - self.used <= i64::MAX
    }
}

impl View for FeatureUsage {
    type V = FeatureUsageView;

    open spec fn view(&self) -> FeatureUsageView {
        FeatureUsageView {
            name: self.name@,
            vendor: self.vendor@,
            total: self.total,
            used: self.used,
            users: users_view(self.users@),
        }
    }
}

impl Clone for FeatureUsage {
    fn clone(&self) -> (r: Self)
        ensures
            r@ == self@,
    {
        FeatureUsage {
            name: self.name.clone(),
            vendor: self.vendor.clone(),
            total: self.total,
            used: self.used,
            users: clone_users(&self.users),
        }
    }
}

impl Default for FeatureUsage {
    fn default() -> (r: Self)
        ensures
            r@ == FeatureUsageView::named(Seq::empty()),
    {
        let r = FeatureUsage {
            name: String::new(),
            vendor: String::new(),
            total: 0,
            used: 0,
            users: Vec::new(),
        };
        assert(r@ =~= FeatureUsageView::named(Seq::empty()));
        r
    }
}

impl FeatureUsage {
    /// Free licenses: those issued less those in use.
    pub fn idle(&self) -> (r: i64)
        requires
            self@.idle_in_range(),
        ensures
            r == self.total - self.used,
    {
        self.total - self.used
    }

    /// The share of the issued licenses that is in use.
    pub fn usage_ratio(&self) -> (r: UsageRatio)
        ensures
            r == ratio_of(self.used, self.total),
            r.denominator > 0,
            self.total > 0 ==> r.numerator * self.total == self.used * r.denominator,
            self.total <= 0 ==> r.numerator == 0,
    {
        if self.total > 0 {
            UsageRatio { numerator: self.used, denominator: self.total }
        } else {
            UsageRatio { numerator: 0, denominator: 1 }
        }
    }
}

/// The models of a list of features.
pub open spec fn features_view(features: Seq<FeatureUsage>) -> Seq<FeatureUsageView> {
    Seq::new(features.len(), |i: int| features[i]@)
}

/// Copies a list of features.
pub fn clone_features(features: &Vec<FeatureUsage>) -> (r: Vec<FeatureUsage>)
    ensures
        features_view(r@) == features_view(features@),
{
    let mut r: Vec<FeatureUsage> = Vec::new();
    let mut i: usize = 0;
    while i < features.len()
        invariant
            i <= features@.len(),
            features_view(r@) == features_view(features@).take(i as int),
        decreases features@.len() - i,
    {
        let ghost before = features_view(r@);
        let feature = features[i].clone();
        r.push(feature);
        assert(features_view(r@) =~= before.push(feature@));
        assert(features_view(features@).take(i + 1) =~= features_view(features@).take(
            i as int,
        ).push(feature@));
        i += 1;
    }
    assert(features_view(features@).take(i as int) =~= features_view(features@));
    r
}

/// The licenses issued, feature by feature.
pub open spec fn totals(features: Seq<FeatureUsageView>) -> Seq<i64> {
    Seq::new(features.len(), |i: int| features[i].total)
}

/// The licenses in use, feature by feature.
pub open spec fn useds(features: Seq<FeatureUsageView>) -> Seq<i64> {
    Seq::new(features.len(), |i: int| features[i].used)
}

/// The sum of a sequence of counts.
pub open spec fn sum(counts: Seq<i64>) -> int
    decreases counts.len(),
{
    if counts.len() == 0 {
        0
    } else {
        sum(counts.drop_last()) + counts.last()
    }
}

/// Adding the counts up from the left stays within `i64` at every step.
pub open spec fn sums_in_range(counts: Seq<i64>) -> bool {
    forall|k: int|
        0 <= k <= counts.len() ==> i64::MIN <= #[trigger] sum(counts.take(k)) <= i64::MAX
}

/// What a license server reports as a whole.
#[derive(Debug)]
pub struct ServerStatus {
    /// The configured name of the server.
    pub server_name: String,
    /// The host of the license server.
    pub server_host: String,
    /// The port of `lmgrd`.
    pub lmgrd_port: u16,
    /// The name of the vendor daemon, such as `snpslmd`.
    pub vendor_daemon: String,
    /// `UP`, `DOWN` or `UNSUPPORTED`; empty where the output tells none.
    pub status: String,
    pub features: Vec<FeatureUsage>,
    pub users: Vec<UserUsage>,
    /// When the data was collected (ISO 8601).
    pub parse_time: String,
    /// Not empty where the collection failed.
    pub parse_error: String,
    /// `lmutil` said that the server cannot be reached, so that a retry is pointless.
    pub unreachable: bool,
}

/// The model of [`ServerStatus`].
#[verifier::ext_equal]
pub struct ServerStatusView {
    pub server_name: Seq<char>,
    pub server_host: Seq<char>,
    pub lmgrd_port: u16,
    pub vendor_daemon: Seq<char>,
    pub status: Seq<char>,
    pub features: Seq<FeatureUsageView>,
    pub users: Seq<UserUsageView>,
    pub parse_time: Seq<char>,
    pub parse_error: Seq<char>,
    pub unreachable: bool,
}

impl ServerStatusView {
    /// A status that tells nothing.
    pub open spec fn blank() -> Self {
        ServerStatusView {
            server_name: Seq::empty(),
            server_host: Seq::empty(),
            lmgrd_port: 0,
            vendor_daemon: Seq::empty(),
            status: Seq::empty(),
            features: Seq::empty(),
            users: Seq::empty(),
            parse_time: Seq::empty(),
            parse_error: Seq::empty(),
            unreachable: false,
        }
    }

    /// The server counts as up: its status is `UP` in any ASCII case, or unknown.
    pub open spec fn is_up(self) -> bool {
        self.status.len() == 0 || is_up_text(self.status)
    }

    /// The license counts can be added up and subtracted within `i64`.
    pub open spec fn counts_in_range(self) -> bool {
        &&& sums_in_range(totals(self.features))
        &&& sums_in_range(useds(self.features))
        &&& forall|i: int|
            0 <= i < self.features.len() ==> (#[trigger] self.features[i]).idle_in_range()
    }
}

/// The text is `UP` in any ASCII case.
pub open spec fn is_up_text(s: Seq<char>) -> bool {
    &&& s.len() == 2
    &&& s[0] == 'U' || s[0] == 'u'
    &&& s[1] == 'P' || s[1] == 'p'
}

impl View for ServerStatus {
    type V = ServerStatusView;

    open spec fn view(&self) -> ServerStatusView {
        ServerStatusView {
            server_name: self.server_name@,
            server_host: self.server_host@,
            lmgrd_port: self.lmgrd_port,
            vendor_daemon: self.vendor_daemon@,
            status: self.status@,
            features: features_view(self.features@),
            users: users_view(self.users@),
            parse_time: self.parse_time@,
            parse_error: self.parse_error@,
            unreachable: self.unreachable,
        }
    }
}

impl Clone for ServerStatus {
    fn clone(&self) -> (r: Self)
        ensures
            r@ == self@,
    {
        ServerStatus {
            server_name: self.server_name.clone(),
            server_host: self.server_host.clone(),
            lmgrd_port: self.lmgrd_port,
            vendor_daemon: self.vendor_daemon.clone(),
            status: self.status.clone(),
            features: clone_features(&self.features),
            users: clone_users(&self.users),
            parse_time: self.parse_time.clone(),
            parse_error: self.parse_error.clone(),
            unreachable: self.unreachable,
        }
    }
}

impl Default for ServerStatus {
    fn default() -> (r: Self)
        ensures
            r@ == ServerStatusView::blank(),
    {
        let r = ServerStatus {
            server_name: String::new(),
            server_host: String::new(),
            lmgrd_port: 0,
            vendor_daemon: String::new(),
            status: String::new(),
            features: Vec::new(),
            users: Vec::new(),
            parse_time: String::new(),
            parse_error: String::new(),
            unreachable: false,
        };
        assert(r@ =~= ServerStatusView::blank());
        r
    }
}

impl ServerStatus {
    /// The licenses issued, over all features.
    pub fn total_licenses(&self) -> (r: i64)
        requires
            sums_in_range(totals(self@.features)),
        ensures
            r == sum(totals(self@.features)),
    {
        let ghost counts = totals(self@.features);
        let mut r: i64 = 0;
        let mut i: usize = 0;
        assert(counts.take(0) =~= Seq::<i64>::empty());
        while i < self.features.len()
            invariant
                i <= self.features@.len(),
                counts == totals(self@.features),
                sums_in_range(counts),
                r == sum(counts.take(i as int)),
            decreases self.features@.len() - i,
        {
            assert(counts.take(i + 1).drop_last() =~= counts.take(i as int));
            assert(sum(counts.take(i + 1)) == r + self.features@[i as int].total);
            r = r + self.features[i].total;
            i += 1;
        }
        assert(counts.take(i as int) =~= counts);
        r
    }

    /// The licenses in use, over all features.
    pub fn total_used(&self) -> (r: i64)
        requires
            sums_in_range(useds(self@.features)),
        ensures
            r == sum(useds(self@.features)),
    {
        let ghost counts = useds(self@.features);
        let mut r: i64 = 0;
        let mut i: usize = 0;
        assert(counts.take(0) =~= Seq::<i64>::empty());
        while i < self.features.len()
            invariant
                i <= self.features@.len(),
                counts == useds(self@.features),
                sums_in_range(counts),
                r == sum(counts.take(i as int)),
            decreases self.features@.len() - i,
        {
            assert(counts.take(i + 1).drop_last() =~= counts.take(i as int));
            assert(sum(counts.take(i + 1)) == r + self.features@[i as int].used);
            r = r + self.features[i].used;
            i += 1;
        }
        assert(counts.take(i as int) =~= counts);
        r
    }

    /// The share of all issued licenses that is in use.
    pub fn overall_usage_ratio(&self) -> (r: UsageRatio)
        requires
            sums_in_range(totals(self@.features)),
            sum(totals(self@.features)) > 0 ==> sums_in_range(useds(self@.features)),
        ensures
            r == ratio_of(sum(useds(self@.features)) as i64, sum(totals(self@.features)) as i64),
            r.denominator > 0,
            sum(totals(self@.features)) > 0 ==> r.numerator * sum(totals(self@.features)) == sum(
                useds(self@.features),
            ) * r.denominator,
            sum(totals(self@.features)) <= 0 ==> r.numerator == 0,
    {
        let total: i64 = self.total_licenses();
        if total > 0 {
            UsageRatio { numerator: self.total_used(), denominator: total }
        } else {
            UsageRatio { numerator: 0, denominator: 1 }
        }
    }

    /// Tells whether the server counts as up.
    pub fn is_up(&self) -> (r: bool)
        ensures
            r == self@.is_up(),
    {
        let chars = text::chars_of(self.status.as_str());
        chars.len() == 0 || (chars.len() == 2 && (chars[0] == 'U' || chars[0] == 'u') && (chars[1]
            == 'P' || chars[1] == 'p'))
    }

    /// Tells whether the license counts can be added up and subtracted within `i64`.
    pub fn counts_in_range(&self) -> (r: bool)
        ensures
            r == self@.counts_in_range(),
    {
        let ghost issued = totals(self@.features);
        let ghost taken = useds(self@.features);
        let mut total: i64 = 0;
        let mut used: i64 = 0;
        let mut i: usize = 0;
        assert(issued.take(0) =~= Seq::<i64>::empty());
        assert(taken.take(0) =~= Seq::<i64>::empty());
        while i < self.features.len()
            invariant
                i <= self.features@.len(),
                issued == totals(self@.features),
                taken == useds(self@.features),
                total == sum(issued.take(i as int)),
                used == sum(taken.take(i as int)),
                forall|k: int|
                    0 <= k <= i ==> i64::MIN <= #[trigger] sum(issued.take(k)) <= i64::MAX,
                forall|k: int|
                    0 <= k <= i ==> i64::MIN <= #[trigger] sum(taken.take(k)) <= i64::MAX,
                forall|k: int|
                    0 <= k < i ==> (#[trigger] self@.features[k]).idle_in_range(),
            decreases self.features@.len() - i,
        {
            assert(issued.take(i + 1).drop_last() =~= issued.take(i as int));
            assert(taken.take(i + 1).drop_last() =~= taken.take(i as int));
            assert(sum(issued.take(i + 1)) == total + self.features@[i as int].total);
            assert(sum(taken.take(i + 1)) == used + self.features@[i as int].used);
            assert(self@.features[i as int] == self.features@[i as int]@);
            match self.features[i].total.checked_sub(self.features[i].used) {
                Some(_) => {},
                None => {
                    return false;
                },
            }
            match total.checked_add(self.features[i].total) {
                Some(next) => {
                    total = next;
                },
                None => {
                    return false;
                },
            }
            match used.checked_add(self.features[i].used) {
                Some(next) => {
                    used = next;
                },
                None => {
                    return false;
                },
            }
            i += 1;
        }
        true
    }
}

/// Why a run of `lmutil` gave no output.
#[derive(Debug)]
pub enum LmutilError {
    /// The executable does not exist.
    NotFound,
    /// The run took too long.
    Timeout,
    /// The process ran but wrote nothing to its standard output.
    Failed { exit_code: Option<i32>, stderr: String },
    /// The operating system reported another error, given by its message.
    Io(String),
}

/// An exit code as the `Debug` form of `Option<i32>` writes it.
pub open spec fn exit_code_text(exit_code: Option<i32>) -> Seq<char> {
    match exit_code {
        Some(code) => "Some("@ + text::signed_decimal(code as int) + ")"@,
        None => "None"@,
    }
}

impl LmutilError {
    /// The message of the error.
    pub open spec fn message_view(self) -> Seq<char> {
        match self {
            LmutilError::NotFound => "找不到 lmutil 可执行文件"@,
            LmutilError::Timeout => "lmutil 执行超时"@,
            LmutilError::Failed { exit_code, stderr } => if stderr@.len() == 0 {
                "lmutil 无输出，退出码 "@ + exit_code_text(exit_code)
            } else {
                "lmutil 无输出，退出码 "@ + exit_code_text(exit_code) + "，stderr: "@ + stderr@
            },
            LmutilError::Io(message) => message@,
        }
    }

    /// Gives the message of the error.
    pub fn message(&self) -> (r: String)
        ensures
            r@ == self.message_view(),
    {
        match self {
            LmutilError::NotFound => "找不到 lmutil 可执行文件".to_owned(),
            LmutilError::Timeout => "lmutil 执行超时".to_owned(),
            LmutilError::Failed { exit_code, stderr } => {
                let mut r = "lmutil 无输出，退出码 ".to_owned();
                match exit_code {
                    Some(code) => {
                        r.append("Some(");
                        text::push_i64(&mut r, *code as i64);
                        r.append(")");
                    },
                    None => {
                        r.append("None");
                    },
                }
                assert(r@ =~= "lmutil 无输出，退出码 "@ + exit_code_text(*exit_code));
                if !stderr.as_str().is_empty() {
                    r.append("，stderr: ");
                    r.append(stderr.as_str());
                }
                r
            },
            LmutilError::Io(message) => message.clone(),
        }
    }
}

/// The program to run: the configured path, or `lmutil` where none is configured.
pub open spec fn program_view(lmutil_path: Seq<char>) -> Seq<char> {
    if lmutil_path.len() == 0 {
        "lmutil"@
    } else {
        lmutil_path
    }
}

/// Gives the program to run.
pub fn lmutil_program(lmutil_path: &str) -> (r: String)
    ensures
        r@ == program_view(lmutil_path@),
{
    if lmutil_path.is_empty() {
        "lmutil".to_owned()
    } else {
        lmutil_path.to_owned()
    }
}

/// The address of a license server as `lmutil` takes it: `port@host`.
pub open spec fn target_view(host: Seq<char>, port: u16) -> Seq<char> {
    text::decimal(port as nat) + "@"@ + host
}

/// The arguments of `lmutil` for a full status report of one server.
pub fn lmutil_args(host: &str, port: u16) -> (r: Vec<String>)
    ensures
        text::texts(r@) == seq!["lmstat"@, "-a"@, "-c"@, target_view(host@, port)],
{
    let mut target = String::new();
    text::push_u64(&mut target, port as u64);
    target.append("@");
    target.append(host);
    assert(target@ =~= target_view(host@, port));
    let mut r: Vec<String> = Vec::new();
    r.push("lmstat".to_owned());
    r.push("-a".to_owned());
    r.push("-c".to_owned());
    r.push(target);
    assert(text::texts(r@) =~= seq!["lmstat"@, "-a"@, "-c"@, target_view(host@, port)]);
    r
}

/// How many characters of the standard error are kept.
pub const STDERR_LIMIT: usize = 500;

/// Output that holds more than white space counts, whatever the exit code;
/// otherwise the run failed, with the start of what it wrote to its standard
/// error.
pub open spec fn judged_output(
    stdout: Seq<char>,
    exit_code: Option<i32>,
    stderr: Seq<char>,
    r: Result<String, LmutilError>,
) -> bool {
    if text::trimmed(stdout).len() > 0 {
        r matches Ok(out) && out@ == stdout
    } else {
        r matches Err(LmutilError::Failed { exit_code: code, stderr: kept }) && code == exit_code
            && kept@ == text::truncated(text::trimmed(stderr), STDERR_LIMIT as nat)
    }
}

/// Judges a finished run of `lmutil` by its decoded output.
pub fn judge_output(stdout: String, exit_code: Option<i32>, stderr: &str) -> (r: Result<
    String,
    LmutilError,
>)
    ensures
        judged_output(stdout@, exit_code, stderr@, r),
{
    if !text::trim(stdout.as_str()).as_str().is_empty() {
        return Ok(stdout);
    }
    let kept = text::trim(stderr);
    Err(LmutilError::Failed { exit_code, stderr: text::truncate(kept.as_str(), STDERR_LIMIT) })
}

/// What came of starting `lmutil` and waiting for it.
#[derive(Debug)]
pub enum ProcessEvent {
    /// The process could not be started.
    SpawnFailed { not_found: bool, message: String },
    /// Waiting for the process failed.
    WaitFailed { message: String },
    /// The process did not finish in time.
    TimedOut,
    /// The process finished.
    Finished { stdout: Vec<u8>, exit_code: Option<i32>, stderr: Vec<u8> },
}

/// Turns what came of a process into its output or an error. The bytes that it
/// wrote are decoded as UTF-8, with replacement characters for what is not
/// valid.
pub fn run_outcome(event: ProcessEvent) -> (r: Result<String, LmutilError>)
    ensures
        match event {
            ProcessEvent::SpawnFailed { not_found: true, .. } => r == Err::<String, LmutilError>(
                LmutilError::NotFound,
            ),
            ProcessEvent::SpawnFailed { not_found: false, message } => r == Err::<
                String,
                LmutilError,
            >(LmutilError::Io(message)),
            ProcessEvent::WaitFailed { message } => r == Err::<String, LmutilError>(
                LmutilError::Io(message),
            ),
            ProcessEvent::TimedOut => r == Err::<String, LmutilError>(LmutilError::Timeout),
            ProcessEvent::Finished { stdout, exit_code, stderr } => judged_output(
                outside::utf8_lossy(stdout@),
                exit_code,
                outside::utf8_lossy(stderr@),
                r,
            ),
        },
{
    match event {
        ProcessEvent::SpawnFailed { not_found, message } => if not_found {
            Err(LmutilError::NotFound)
        } else {
            Err(LmutilError::Io(message))
        },
        ProcessEvent::WaitFailed { message } => Err(LmutilError::Io(message)),
        ProcessEvent::TimedOut => Err(LmutilError::Timeout),
        ProcessEvent::Finished { stdout, exit_code, stderr } => {
            let out = outside::decode_lossy(stdout.as_slice());
            let err = outside::decode_lossy(stderr.as_slice());
            judge_output(out, exit_code, err.as_str())
        },
    }
}

} // verus!
