//! What the collector keeps: the servers to collect, the metrics, and the last
//! status of each server.

use crate::config::{self, Config, LicenseServerConfig, LicenseServerConfigView};
use crate::families::FamiliesView;
use crate::lmutil::{FeatureUsage, FeatureUsageView, ServerStatus, ServerStatusView};
use crate::metrics::{self, Metrics};
use crate::text;
use vstd::arithmetic::power2::*;
use vstd::prelude::*;
use vstd::string::*;

verus! {

/// The bits of the double 2^54. The bits of doubles from zero up are in the order
/// of the doubles, so smaller bits are those of a duration that is shorter.
pub const DURATION_LIMIT: u64 = 0x4350_0000_0000_0000;

/// 2^52: the step between the exponents in the bits of a double.
pub const EXPONENT_UNIT: u64 = 0x0010_0000_0000_0000;

/// The bits are those of a double that is not negative and less than 2^54, so
/// that its thousandths are a `u64`.
pub open spec fn is_duration(bits: u64) -> bool {
    bits < DURATION_LIMIT
}

/// The significand of a double, from its bits: what stands below the exponent,
/// and the leading bit where the exponent is not zero.
pub open spec fn significand(bits: u64) -> nat {
    if bits / EXPONENT_UNIT == 0 {
        (bits % EXPONENT_UNIT) as nat
    } else {
        (EXPONENT_UNIT + bits % EXPONENT_UNIT) as nat
    }
}

/// The scale of a double, from its bits: the double is its significand divided by
/// two to the power of the scale.
pub open spec fn scale(bits: u64) -> int {
    if bits / EXPONENT_UNIT == 0 {
        1074
    } else {
        1075 - bits / EXPONENT_UNIT
    }
}

/// The whole number that is nearest to a quotient; of two the even one.
pub open spec fn nearest_even(a: nat, d: nat) -> nat {
    let q = a / d;
    let r = a % d;
    if 2 * r < d || (2 * r == d && q % 2 == 0) {
        q
    } else {
        q + 1
    }
}

/// A duration in thousandths of a second, from the bits of the double that gives
/// it in seconds: the whole number nearest to the exact value of the double, of
/// two the even one.
pub open spec fn rounded_millis(bits: u64) -> nat {
    if scale(bits) >= 0 {
        nearest_even(significand(bits) * 1000, pow2(scale(bits) as nat))
    } else {
        significand(bits) * 1000 * pow2((-scale(bits)) as nat)
    }
}

/// Gives a power of two.
fn power_of_two(k: u64) -> (r: u64)
    requires
        k < 64,
    ensures
        r == pow2(k as nat),
{
    let mut r: u64 = 1;
    let mut i: u64 = 0;
    proof {
        lemma2_to64();
    }
    while i < k
        invariant
            i <= k < 64,
            r == pow2(i as nat),
        decreases k - i,
    {
        proof {
            lemma2_to64_rest();
            lemma_pow2_unfold((i + 1) as nat);
            if i + 1 < 63 {
                lemma_pow2_strictly_increases((i + 1) as nat, 63);
            }
        }
        r = r * 2;
        i += 1;
    }
    r
}

/// Rounds a duration to three decimals of a second: from the bits of the double
/// that gives it in seconds to thousandths of a second.
pub fn round3(seconds_bits: u64) -> (r: u64)
    requires
        is_duration(seconds_bits),
    ensures
        r == rounded_millis(seconds_bits),
{
    let exponent: u64 = seconds_bits / EXPONENT_UNIT;
    let fraction: u64 = seconds_bits % EXPONENT_UNIT;
    assert(exponent <= 1076 && fraction < EXPONENT_UNIT);
    let thousandths: u64 = if exponent == 0 {
        fraction * 1000
    } else {
        (EXPONENT_UNIT + fraction) * 1000
    };
    proof {
        lemma2_to64();
        lemma2_to64_rest();
    }
    if exponent == 1076 {
        return thousandths * 2;
    }
    let k: u64 = if exponent == 0 {
        1074
    } else {
        1075 - exponent
    };
    if k >= 64 {
        proof {
            if k > 64 {
                lemma_pow2_strictly_increases(64, k as nat);
            }
            vstd::arithmetic::div_mod::lemma_fundamental_div_mod_converse(
                thousandths as int,
                pow2(k as nat) as int,
                0,
                thousandths as int,
            );
        }
        return 0;
    }
    let d: u64 = power_of_two(k);
    proof {
        lemma_pow2_pos(k as nat);
    }
    let quotient: u64 = thousandths / d;
    let rest: u64 = thousandths % d;
    if rest < d - rest || (rest == d - rest && quotient % 2 == 0) {
        quotient
    } else {
        quotient + 1
    }
}

/// The host that a status is labelled with: its own, or the configured one where
/// it has none.
pub open spec fn host_label(
    server: LicenseServerConfigView,
    status: ServerStatusView,
) -> Seq<char> {
    if status.server_host.len() == 0 {
        server.host
    } else {
        status.server_host
    }
}

/// The port that a status is labelled with: its own, or the configured one where
/// it has none.
pub open spec fn port_label(
    server: LicenseServerConfigView,
    status: ServerStatusView,
) -> Seq<char> {
    text::decimal(
        if status.lmgrd_port == 0 {
            server.port as nat
        } else {
            status.lmgrd_port as nat
        },
    )
}

/// The outcome under which a collection is counted.
pub open spec fn outcome_label(status: ServerStatusView) -> Seq<char> {
    if status.is_up() {
        "success"@
    } else {
        "failure"@
    }
}

/// The metrics with the values of a feature.
pub open spec fn with_feature(
    all: FamiliesView,
    server: Seq<char>,
    feature: FeatureUsageView,
) -> FamiliesView {
    let labels = seq![server, feature.name, feature.vendor];
    let total = metrics::with_gauge(
        all,
        metrics::FEATURE_TOTAL@,
        labels,
        feature.total as int,
    );
    let used = metrics::with_gauge(total, metrics::FEATURE_USED@, labels, feature.used as int);
    let idle = metrics::with_gauge(
        used,
        metrics::FEATURE_IDLE@,
        labels,
        feature.total - feature.used,
    );
    metrics::with_gauge(
        idle,
        metrics::FEATURE_USERS@,
        seq![server, feature.name],
        feature.users.len() as i64 as int,
    )
}

/// The metrics with the values of features, one after the other.
pub open spec fn with_features(
    all: FamiliesView,
    server: Seq<char>,
    features: Seq<FeatureUsageView>,
) -> FamiliesView
    decreases features.len(),
{
    if features.len() == 0 {
        all
    } else {
        with_feature(with_features(all, server, features.drop_last()), server, features.last())
    }
}

/// The metrics with the values of a collection as a whole.
pub open spec fn with_summary(
    all: FamiliesView,
    server: LicenseServerConfigView,
    status: ServerStatusView,
    millis: nat,
) -> FamiliesView {
    let up = metrics::with_gauge(
        all,
        metrics::SERVER_STATUS@,
        seq![server.name, host_label(server, status), port_label(server, status)],
        if status.is_up() {
            1
        } else {
            0
        },
    );
    let counted = metrics::with_gauge(
        up,
        metrics::SERVER_FEATURES_TOTAL@,
        seq![server.name],
        status.features.len() as i64 as int,
    );
    let timed = metrics::with_decimal(
        counted,
        metrics::SCRAPE_DURATION@,
        seq![server.name],
        text::thousandths(millis),
    );
    metrics::with_count(
        timed,
        metrics::SCRAPE_TOTAL@,
        seq![server.name, outcome_label(status)],
    )
}

/// The metrics after a collection.
pub open spec fn updated(
    all: FamiliesView,
    server: LicenseServerConfigView,
    status: ServerStatusView,
    millis: nat,
) -> FamiliesView {
    with_features(with_summary(all, server, status, millis), server.name, status.features)
}

/// A list of statuses by server name.
pub open spec fn statuses_view(list: Seq<(String, ServerStatus)>) -> Seq<
    (Seq<char>, ServerStatusView),
> {
    Seq::new(list.len(), |i: int| (list[i].0@, list[i].1@))
}

/// The position of the first entry of a name at or after `from`, or the length
/// of the list.
pub open spec fn position_from(
    entries: Seq<(Seq<char>, ServerStatusView)>,
    name: Seq<char>,
    from: int,
) -> int
    decreases entries.len() - from,
{
    if from < 0 || from >= entries.len() || entries[from].0 == name {
        from
    } else {
        position_from(entries, name, from + 1)
    }
}

/// The list with a new status of a server, in the place of the earlier one or
/// at the end.
pub open spec fn stored(
    entries: Seq<(Seq<char>, ServerStatusView)>,
    name: Seq<char>,
    status: ServerStatusView,
) -> Seq<(Seq<char>, ServerStatusView)> {
    let at = position_from(entries, name, 0);
    if at < entries.len() {
        entries.update(at, (entries[at].0, status))
    } else {
        entries.push((name, status))
    }
}

/// Copies a list of statuses.
fn clone_statuses(list: &Vec<(String, ServerStatus)>) -> (r: Vec<(String, ServerStatus)>)
    ensures
        statuses_view(r@) == statuses_view(list@),
{
    let mut r: Vec<(String, ServerStatus)> = Vec::new();
    let mut i: usize = 0;
    while i < list.len()
        invariant
            i <= list@.len(),
            statuses_view(r@) == statuses_view(list@).take(i as int),
        decreases list@.len() - i,
    {
        let ghost before = statuses_view(r@);
        let name = list[i].0.clone();
        let status = list[i].1.clone();
        r.push((name, status));
        assert(statuses_view(r@) =~= before.push((name@, status@)));
        assert(statuses_view(list@).take(i + 1) =~= statuses_view(list@).take(i as int).push(
            (name@, status@),
        ));
        i += 1;
    }
    assert(statuses_view(list@).take(i as int) =~= statuses_view(list@));
    r
}

/// The collector: it collects the servers one after the other, and keeps what
/// came of it.
pub struct LicenseCollector {
    servers: Vec<LicenseServerConfig>,
    interval: u64,
    timeout: u64,
    retries: u32,
    metrics: Metrics,
    /// The last status of each server, in the order of the first collection.
    last_status: Vec<(String, ServerStatus)>,
}

/// The model of [`LicenseCollector`].
#[verifier::ext_equal]
pub struct LicenseCollectorView {
    pub servers: Seq<LicenseServerConfigView>,
    pub interval: int,
    pub timeout: int,
    pub retries: int,
    pub metrics: FamiliesView,
    pub last_status: Seq<(Seq<char>, ServerStatusView)>,
}

impl View for LicenseCollector {
    type V = LicenseCollectorView;

    closed spec fn view(&self) -> LicenseCollectorView {
        LicenseCollectorView {
            servers: config::servers_view(self.servers@),
            interval: self.interval as int,
            timeout: self.timeout as int,
            retries: self.retries as int,
            metrics: self.metrics@,
            last_status: statuses_view(self.last_status@),
        }
    }
}

impl LicenseCollectorView {
    /// The metrics hold the families of the collector.
    pub open spec fn wf(self) -> bool {
        metrics::has_all(self.metrics)
    }

    /// After a collection of a server.
    pub open spec fn recorded(
        self,
        server: LicenseServerConfigView,
        status: ServerStatusView,
        seconds_bits: u64,
    ) -> Self {
        LicenseCollectorView {
            metrics: updated(self.metrics, server, status, rounded_millis(seconds_bits)),
            last_status: stored(self.last_status, server.name, status),
            ..self
        }
    }
}

/// The free licenses of every feature are an `i64`.
pub open spec fn idles_in_range(features: Seq<FeatureUsageView>) -> bool {
    forall|i: int| 0 <= i < features.len() ==> (#[trigger] features[i]).idle_in_range()
}

impl LicenseCollector {
    /// Makes a collector that has not collected anything.
    pub fn new(config: &Config, metrics: Metrics) -> (r: Self)
        ensures
            r@ == (LicenseCollectorView {
                servers: config::servers_view(config.license_servers@),
                interval: config::at_least_one(config.collector.interval as int),
                timeout: config::at_least_one(config.collector.timeout as int),
                retries: config::at_least_one(config.collector.retries as int),
                metrics: metrics@,
                last_status: Seq::empty(),
            }),
    {
        let r = LicenseCollector {
            servers: config::clone_servers(&config.license_servers),
            interval: config.interval(),
            timeout: config.timeout(),
            retries: config.retries(),
            metrics,
            last_status: Vec::new(),
        };
        assert(r@.last_status =~= Seq::<(Seq<char>, ServerStatusView)>::empty());
        r
    }

    /// The number of servers to collect.
    pub fn server_count(&self) -> (r: usize)
        ensures
            r == self@.servers.len(),
    {
        self.servers.len()
    }

    /// The servers to collect, in the order in which they are collected.
    pub fn servers(&self) -> (r: Vec<LicenseServerConfig>)
        ensures
            config::servers_view(r@) == self@.servers,
    {
        config::clone_servers(&self.servers)
    }

    /// Seconds between collections.
    pub fn interval(&self) -> (r: u64)
        ensures
            r == self@.interval,
    {
        self.interval
    }

    /// Seconds that a run of `lmutil` may take.
    pub fn timeout(&self) -> (r: u64)
        ensures
            r == self@.timeout,
    {
        self.timeout
    }

    /// Attempts per collection.
    pub fn retries(&self) -> (r: u32)
        ensures
            r == self@.retries,
    {
        self.retries
    }

    /// The metrics.
    pub fn metrics(&self) -> (r: &Metrics)
        ensures
            r@ == self@.metrics,
    {
        &self.metrics
    }

    /// The last status of each server, in the order in which they were first
    /// collected.
    pub fn last_status(&self) -> (r: Vec<(String, ServerStatus)>)
        ensures
            statuses_view(r@) == self@.last_status,
    {
        clone_statuses(&self.last_status)
    }

    /// Sets the metrics of a feature.
    fn update_feature(&mut self, server: &str, feature: &FeatureUsage)
        requires
            old(self)@.wf(),
            feature@.idle_in_range(),
        ensures
            final(self)@.wf(),
            final(self)@ == (LicenseCollectorView {
                metrics: with_feature(old(self)@.metrics, server@, feature@),
                ..old(self)@
            }),
    {
        let name = feature.name.as_str();
        let vendor = feature.vendor.as_str();
        self.metrics.set_feature_total(server, name, vendor, feature.total);
        self.metrics.set_feature_used(server, name, vendor, feature.used);
        self.metrics.set_feature_idle(server, name, vendor, feature.idle());
        self.metrics.set_feature_users(server, name, feature.users.len() as i64);
    }

    /// Sets the metrics of a server after a collection. The seconds it took are
    /// given by the bits of a double.
    pub fn update_metrics(
        &mut self,
        server: &LicenseServerConfig,
        status: &ServerStatus,
        seconds_bits: u64,
    )
        requires
            old(self)@.wf(),
            is_duration(seconds_bits),
            idles_in_range(status@.features),
        ensures
            final(self)@.wf(),
            final(self)@ == (LicenseCollectorView {
                metrics: updated(
                    old(self)@.metrics,
                    server@,
                    status@,
                    rounded_millis(seconds_bits),
                ),
                ..old(self)@
            }),
    {
        let name = server.name.as_str();
        let host = if status.server_host.as_str().is_empty() {
            server.host.as_str()
        } else {
            status.server_host.as_str()
        };
        let port: u16 = if status.lmgrd_port == 0 {
            server.port
        } else {
            status.lmgrd_port
        };
        let mut port_label = String::new();
        text::push_u64(&mut port_label, port as u64);
        assert(port_label@ =~= text::decimal(port as nat));
        let is_up = status.is_up();
        self.metrics.set_server_status(
            name,
            host,
            port_label.as_str(),
            if is_up {
                1
            } else {
                0
            },
        );
        self.metrics.set_server_features_total(name, status.features.len() as i64);
        self.metrics.set_scrape_duration(name, round3(seconds_bits));
        self.metrics.count_scrape(
            name,
            if is_up {
                "success"
            } else {
                "failure"
            },
        );
        let ghost start = *self;
        let ghost features = status@.features;
        let mut i: usize = 0;
        assert(features.take(0) =~= Seq::<FeatureUsageView>::empty());
        while i < status.features.len()
            invariant
                i <= status.features@.len(),
                features == status@.features,
                idles_in_range(features),
                name@ == server@.name,
                start@.wf(),
                self@.wf(),
                self@ == (LicenseCollectorView {
                    metrics: with_features(start@.metrics, server@.name, features.take(i as int)),
                    ..start@
                }),
            decreases status.features@.len() - i,
        {
            assert(features.take(i + 1).drop_last() =~= features.take(i as int));
            assert(features[i as int] == status.features@[i as int]@);
            self.update_feature(name, &status.features[i]);
            i += 1;
        }
        assert(features.take(i as int) =~= features);
    }

    /// Keeps the status of a server.
    pub fn store_status(&mut self, server: &LicenseServerConfig, status: ServerStatus)
        ensures
            final(self)@ == (LicenseCollectorView {
                last_status: stored(old(self)@.last_status, server@.name, status@),
                ..old(self)@
            }),
    {
        let ghost entries = self@.last_status;
        let mut i: usize = 0;
        while i < self.last_status.len() && !text::same(
            self.last_status[i].0.as_str(),
            server.name.as_str(),
        )
            invariant
                *self == *old(self),
                entries == statuses_view(self.last_status@),
                i <= self.last_status@.len(),
                position_from(entries, server@.name, 0) == position_from(
                    entries,
                    server@.name,
                    i as int,
                ),
            decreases self.last_status@.len() - i,
        {
            i += 1;
        }
        if i < self.last_status.len() {
            self.last_status[i].1 = status;
            assert(statuses_view(self.last_status@) =~= entries.update(
                i as int,
                (entries[i as int].0, status@),
            ));
        } else {
            let name = server.name.clone();
            self.last_status.push((name, status));
            assert(statuses_view(self.last_status@) =~= entries.push((name@, status@)));
        }
    }

    /// Takes in a collection of a server. The seconds it took are given by the
    /// bits of a double.
    pub fn record(
        &mut self,
        server: &LicenseServerConfig,
        status: ServerStatus,
        seconds_bits: u64,
    )
        requires
            old(self)@.wf(),
            is_duration(seconds_bits),
            idles_in_range(status@.features),
        ensures
            final(self)@.wf(),
            final(self)@ == old(self)@.recorded(server@, status@, seconds_bits),
    {
        self.update_metrics(server, &status, seconds_bits);
        self.store_status(server, status);
    }
}

/// What the collection loop has to react to.
#[derive(Debug, Clone, Copy, PartialEq, Eq, Structural)]
pub enum LoopEvent {
    /// A round begins.
    RoundBegins { shutdown: bool },
    /// The shutdown signal changed, or its sender is gone.
    Signalled { sender_gone: bool, shutdown: bool },
    /// The interval since the last collection is over.
    IntervalOver,
}

/// What the collection loop does next.
#[derive(Debug, Clone, Copy, PartialEq, Eq, Structural)]
pub enum LoopAction {
    /// Collect all servers, then wait for the signal or the end of the interval.
    Collect,
    /// Begin another round.
    BeginRound,
    /// Stop.
    Stop,
}

/// Decides what the collection loop does next. It collects at once, then
/// whenever the interval is over, until the shutdown signal is set or its
/// sender is gone.
pub fn next_action(event: LoopEvent) -> (r: LoopAction)
    ensures
        r == (match event {
            LoopEvent::RoundBegins { shutdown: true } => LoopAction::Stop,
            LoopEvent::RoundBegins { shutdown: false } => LoopAction::Collect,
            LoopEvent::Signalled { sender_gone: false, shutdown: false } => LoopAction::BeginRound,
            LoopEvent::Signalled { .. } => LoopAction::Stop,
            LoopEvent::IntervalOver => LoopAction::BeginRound,
        }),
{
    match event {
        LoopEvent::RoundBegins { shutdown } => if shutdown {
            LoopAction::Stop
        } else {
            LoopAction::Collect
        },
        LoopEvent::Signalled { sender_gone, shutdown } => if sender_gone || shutdown {
            LoopAction::Stop
        } else {
            LoopAction::BeginRound
        },
        LoopEvent::IntervalOver => LoopAction::BeginRound,
    }
}

} // verus!
