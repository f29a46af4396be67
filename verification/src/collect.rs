//! Collecting one license server, with retries.
//!
//! A collection is a sequence of runs of `lmutil`. [`Collection::advance_at`]
//! takes what came of a run and decides whether another one follows.

use crate::config::{self, LicenseServerConfig, LicenseServerConfigView};
use crate::lmstat;
use crate::lmutil::{self, LmutilError, ServerStatus, ServerStatusView};
use crate::outside;
use crate::text;
use vstd::prelude::*;
use vstd::string::*;

verus! {

/// What came of a run of `lmutil`.
#[verifier::ext_equal]
pub enum RunView {
    Output(Seq<char>),
    NotFound,
    Timeout,
    /// Another failure, with its message.
    Failed(Seq<char>),
}

/// The model of the result of a run.
pub open spec fn run_view(run: Result<String, LmutilError>) -> RunView {
    match run {
        Ok(output) => RunView::Output(output@),
        Err(LmutilError::NotFound) => RunView::NotFound,
        Err(LmutilError::Timeout) => RunView::Timeout,
        Err(err) => RunView::Failed(err.message_view()),
    }
}

/// A status under the name, host and port of the configuration.
pub open spec fn identified(
    status: ServerStatusView,
    server: LicenseServerConfigView,
) -> ServerStatusView {
    ServerStatusView {
        server_name: server.name,
        server_host: server.host,
        lmgrd_port: server.port,
        ..status
    }
}

/// A collection in progress.
#[derive(Debug)]
pub struct Collection {
    server: LicenseServerConfig,
    timeout_secs: u64,
    attempts: u32,
    made: u32,
    last_error: ServerStatus,
}

/// The model of [`Collection`].
#[verifier::ext_equal]
pub struct CollectionView {
    pub server: LicenseServerConfigView,
    pub timeout_secs: u64,
    /// How many runs there may be.
    pub attempts: int,
    /// How many runs there have been.
    pub made: int,
    /// What is reported if no run succeeds.
    pub last_error: ServerStatusView,
}

/// What follows a run: another one, or the end with a status.
#[verifier::ext_equal]
pub enum StepView {
    Retry(CollectionView),
    Done(ServerStatusView),
}

impl CollectionView {
    /// A collection before its first run.
    pub open spec fn begun(
        server: LicenseServerConfigView,
        timeout_secs: u64,
        retries: u32,
        now: Seq<char>,
    ) -> Self {
        CollectionView {
            server,
            timeout_secs,
            attempts: config::at_least_one(retries as int),
            made: 0,
            last_error: identified(
                ServerStatusView {
                    status: "DOWN"@,
                    parse_error: "采集失败"@,
                    parse_time: now,
                    ..ServerStatusView::blank()
                },
                server,
            ),
        }
    }

    /// Another run may follow, and what is reported until then is sound.
    pub open spec fn wf(self) -> bool {
        &&& 0 <= self.made < self.attempts <= u32::MAX
        &&& lmstat::features_sound(self.last_error.features)
    }

    /// The failure to report, with another reason.
    pub open spec fn failing(self, reason: Seq<char>) -> ServerStatusView {
        ServerStatusView { parse_error: reason, ..self.last_error }
    }

    /// The status to report after a run, and whether the run settles it.
    pub open spec fn reaction(self, run: RunView, now: Seq<char>) -> (ServerStatusView, bool) {
        match run {
            RunView::Output(output) => if text::trimmed(output).len() == 0 {
                (self.last_error, false)
            } else {
                let status = identified(lmstat::parsed(output, now), self.server);
                (status, status.parse_error.len() == 0 || status.unreachable)
            },
            RunView::NotFound => (
                self.failing(
                    "找不到 lmutil 可执行文件: "@ + lmutil::program_view(self.server.lmutil_path),
                ),
                true,
            ),
            RunView::Timeout => (
                self.failing(
                    "lmutil 执行超时（"@ + text::decimal(self.timeout_secs as nat) + "s）"@,
                ),
                false,
            ),
            RunView::Failed(message) => (self.failing("lmutil 执行异常: "@ + message), false),
        }
    }

    /// What follows a run that ended at the given time.
    pub open spec fn step(self, run: RunView, now: Seq<char>) -> StepView {
        let (status, settled) = self.reaction(run, now);
        if settled || self.made + 1 >= self.attempts {
            StepView::Done(status)
        } else {
            StepView::Retry(
                CollectionView { made: self.made + 1, last_error: status, ..self },
            )
        }
    }
}

impl View for Collection {
    type V = CollectionView;

    closed spec fn view(&self) -> CollectionView {
        CollectionView {
            server: self.server@,
            timeout_secs: self.timeout_secs,
            attempts: self.attempts as int,
            made: self.made as int,
            last_error: self.last_error@,
        }
    }
}

/// What follows a run.
#[derive(Debug)]
pub enum Step {
    /// Run `lmutil` again.
    Retry(Collection),
    /// The collection is over.
    Done(ServerStatus),
}

impl View for Step {
    type V = StepView;

    open spec fn view(&self) -> StepView {
        match *self {
            Step::Retry(collection) => StepView::Retry(collection@),
            Step::Done(status) => StepView::Done(status@),
        }
    }
}

impl Collection {
    /// Begins to collect a server.
    pub fn begin(server: &LicenseServerConfig, timeout_secs: u64, retries: u32) -> (r: Self)
        ensures
            r@ == CollectionView::begun(
                server@,
                timeout_secs,
                retries,
                r@.last_error.parse_time,
            ),
            outside::is_iso8601(r@.last_error.parse_time),
            r@.wf(),
    {
        Collection::begin_at(server, timeout_secs, retries, outside::now_iso8601())
    }

    /// Takes what came of a run that has just ended.
    pub fn advance(self, run: Result<String, LmutilError>) -> (r: Step)
        requires
            self@.wf(),
        ensures
            exists|now: Seq<char>|
                outside::is_iso8601(now) && r@ == #[trigger] self@.step(run_view(run), now),
            r matches Step::Retry(next) ==> next@.wf(),
            r matches Step::Done(status) ==> lmstat::features_sound(status@.features),
    {
        self.advance_at(run, outside::now_iso8601())
    }

    /// Begins to collect a server at the given time.
    pub fn begin_at(
        server: &LicenseServerConfig,
        timeout_secs: u64,
        retries: u32,
        now: String,
    ) -> (r: Self)
        ensures
            r@ == CollectionView::begun(server@, timeout_secs, retries, now@),
            r@.wf(),
    {
        let mut last_error = ServerStatus::default();
        last_error.server_name = server.name.clone();
        last_error.server_host = server.host.clone();
        last_error.lmgrd_port = server.port;
        last_error.status = "DOWN".to_owned();
        last_error.parse_error = "采集失败".to_owned();
        last_error.parse_time = now;
        let attempts: u32 = if retries < 1 {
            1
        } else {
            retries
        };
        let r = Collection { server: server.clone(), timeout_secs, attempts, made: 0, last_error };
        assert(r@ =~= CollectionView::begun(server@, timeout_secs, retries, now@));
        r
    }

    /// Takes what came of a run that ended at the given time.
    pub fn advance_at(self, run: Result<String, LmutilError>, now: String) -> (r: Step)
        requires
            self@.wf(),
        ensures
            r@ == self@.step(run_view(run), now@),
            r matches Step::Retry(next) ==> next@.wf(),
            r matches Step::Done(status) ==> lmstat::features_sound(status@.features),
    {
        let ghost begin = self@;
        let Collection { server, timeout_secs, attempts, made, last_error } = self;
        let mut report = last_error;
        let mut settled = false;
        match run {
            Ok(output) => {
                if !text::trim(output.as_str()).as_str().is_empty() {
                    report = lmstat::parse_lmstat_output_at(output.as_str(), now);
                    report.server_name = server.name.clone();
                    report.server_host = server.host.clone();
                    report.lmgrd_port = server.port;
                    settled = report.parse_error.as_str().is_empty() || report.unreachable;
                }
            },
            Err(LmutilError::NotFound) => {
                let mut reason = "找不到 lmutil 可执行文件: ".to_owned();
                reason.append(lmutil::lmutil_program(server.lmutil_path.as_str()).as_str());
                report.parse_error = reason;
                settled = true;
            },
            Err(LmutilError::Timeout) => {
                let mut reason = "lmutil 执行超时（".to_owned();
                text::push_u64(&mut reason, timeout_secs);
                reason.append("s）");
                report.parse_error = reason;
            },
            Err(err) => {
                let mut reason = "lmutil 执行异常: ".to_owned();
                reason.append(err.message().as_str());
                report.parse_error = reason;
            },
        }
        assert((report@, settled) == begin.reaction(run_view(run), now@));
        if settled || made + 1 >= attempts {
            Step::Done(report)
        } else {
            Step::Retry(
                Collection { server, timeout_secs, attempts, made: made + 1, last_error: report },
            )
        }
    }
}

} // verus!
