//! What holds of every collection.

use crate::collect::{self, CollectionView, RunView, StepView};
use crate::config::{self, LicenseServerConfigView};
use crate::line_laws;
use crate::lmstat;
use crate::lmstat_laws;
use crate::lmutil::{self, ServerStatusView};
use crate::text;
use crate::text_laws;
use vstd::prelude::*;

verus! {

/// What follows a sequence of runs, each with the time at which it ended. Runs
/// after the end of the collection do not take place.
pub open spec fn after_runs(
    collection: CollectionView,
    runs: Seq<(RunView, Seq<char>)>,
) -> StepView
    decreases runs.len(),
{
    if runs.len() == 0 {
        StepView::Retry(collection)
    } else {
        match collection.step(runs[0].0, runs[0].1) {
            StepView::Retry(next) => after_runs(next, runs.drop_first()),
            StepView::Done(status) => StepView::Done(status),
        }
    }
}

/// The run may be repeated: it ran out of time, failed, or gave no output.
pub open spec fn is_retryable(run: RunView) -> bool {
    match run {
        RunView::Output(output) => text::trimmed(output).len() == 0,
        RunView::NotFound => false,
        RunView::Timeout => true,
        RunView::Failed(_) => true,
    }
}

/// The status tells a failed collection of the server.
pub open spec fn is_failure_of(status: ServerStatusView, server: LicenseServerConfigView) -> bool {
    &&& collect::identified(status, server) == status
    &&& status.status == "DOWN"@
    &&& !status.is_up()
    &&& status.parse_error.len() > 0
    &&& status.features.len() == 0
    &&& status.users.len() == 0
}

/// Another run may follow, and what is reported until then is a failure.
pub open spec fn in_progress(collection: CollectionView) -> bool {
    &&& collection.wf()
    &&& is_failure_of(collection.last_error, collection.server)
}

/// A collection that has just begun reports a failure until a run succeeds, and
/// may make as many runs as configured, at least one.
pub proof fn law_begun(
    server: LicenseServerConfigView,
    timeout_secs: u64,
    retries: u32,
    now: Seq<char>,
)
    ensures
        in_progress(CollectionView::begun(server, timeout_secs, retries, now)),
        CollectionView::begun(server, timeout_secs, retries, now).made == 0,
        CollectionView::begun(server, timeout_secs, retries, now).attempts == if retries == 0 {
            1
        } else {
            retries as int
        },
{
    reveal_strlit("DOWN");
    reveal_strlit("采集失败");
}

/// A run may be repeated exactly where it does not settle the collection: it
/// ran out of time, failed, or gave no output. A missing executable, an
/// unreachable server and a readable report all end the collection.
pub proof fn law_settled(collection: CollectionView, run: RunView, now: Seq<char>)
    ensures
        collection.reaction(run, now).1 <==> !is_retryable(run),
{
    if let RunView::Output(output) = run {
        lmstat_laws::law_unreachable(output, now);
    }
}

/// Every step keeps the server and the limits of the collection. It ends with a
/// failure of the server, or with what the output says, without an error.
proof fn lemma_step(collection: CollectionView, run: RunView, now: Seq<char>)
    requires
        in_progress(collection),
    ensures
        match collection.step(run, now) {
            StepView::Retry(next) => {
                &&& is_retryable(run)
                &&& in_progress(next)
                &&& next.server == collection.server
                &&& next.timeout_secs == collection.timeout_secs
                &&& next.attempts == collection.attempts
                &&& next.made == collection.made + 1
            },
            StepView::Done(status) => {
                &&& !is_retryable(run) || collection.made + 1 == collection.attempts
                &&& collect::identified(status, collection.server) == status
                &&& status.parse_error.len() > 0 ==> is_failure_of(status, collection.server)
                &&& status.parse_error.len() == 0 ==> {
                    &&& !is_retryable(run)
                    &&& run matches RunView::Output(output)
                    &&& status == collect::identified(
                        lmstat::parsed(output, now),
                        collection.server,
                    )
                }
            },
        },
{
    law_settled(collection, run, now);
    if let RunView::Output(output) = run {
        lmstat_laws::law_unreachable(output, now);
    }
    reveal_strlit("DOWN");
    reveal_strlit("找不到 lmutil 可执行文件: ");
    reveal_strlit("lmutil 执行超时（");
    reveal_strlit("lmutil 执行异常: ");
}

/// A collection ends after at most as many runs as it may make.
pub proof fn law_runs_bounded(
    server: LicenseServerConfigView,
    timeout_secs: u64,
    retries: u32,
    now: Seq<char>,
    runs: Seq<(RunView, Seq<char>)>,
)
    requires
        runs.len() >= config::at_least_one(retries as int),
    ensures
        after_runs(CollectionView::begun(server, timeout_secs, retries, now), runs) is Done,
{
    let collection = CollectionView::begun(server, timeout_secs, retries, now);
    law_begun(server, timeout_secs, retries, now);
    lemma_runs_bounded(collection, runs);
}

/// A collection in progress ends once its remaining runs are made.
proof fn lemma_runs_bounded(collection: CollectionView, runs: Seq<(RunView, Seq<char>)>)
    requires
        in_progress(collection),
        runs.len() >= collection.attempts - collection.made,
    ensures
        after_runs(collection, runs) is Done,
    decreases runs.len(),
{
    lemma_step(collection, runs[0].0, runs[0].1);
    if let StepView::Retry(next) = collection.step(runs[0].0, runs[0].1) {
        lemma_runs_bounded(next, runs.drop_first());
    }
}

/// As long as every run may be repeated and the limit is not reached, the
/// collection goes on.
pub proof fn law_retries(
    server: LicenseServerConfigView,
    timeout_secs: u64,
    retries: u32,
    now: Seq<char>,
    runs: Seq<(RunView, Seq<char>)>,
)
    requires
        forall|i: int| 0 <= i < runs.len() ==> is_retryable((#[trigger] runs[i]).0),
    ensures
        after_runs(CollectionView::begun(server, timeout_secs, retries, now), runs) is Retry
            <==> runs.len() < config::at_least_one(retries as int),
{
    let collection = CollectionView::begun(server, timeout_secs, retries, now);
    law_begun(server, timeout_secs, retries, now);
    if runs.len() < config::at_least_one(retries as int) {
        lemma_retries(collection, runs);
    } else {
        lemma_runs_bounded(collection, runs);
    }
}

/// A collection in progress goes on while its runs may be repeated.
proof fn lemma_retries(collection: CollectionView, runs: Seq<(RunView, Seq<char>)>)
    requires
        in_progress(collection),
        runs.len() < collection.attempts - collection.made,
        forall|i: int| 0 <= i < runs.len() ==> is_retryable((#[trigger] runs[i]).0),
    ensures
        after_runs(collection, runs) is Retry,
    decreases runs.len(),
{
    if runs.len() > 0 {
        lemma_step(collection, runs[0].0, runs[0].1);
        assert(is_retryable(runs[0].0));
        let rest = runs.drop_first();
        assert forall|i: int| 0 <= i < rest.len() implies is_retryable((#[trigger] rest[i]).0) by {
            assert(rest[i] == runs[i + 1]);
        }
        if let StepView::Retry(next) = collection.step(runs[0].0, runs[0].1) {
            lemma_retries(next, rest);
        }
    }
}

/// However a collection ends, it reports the configured name, host and port.
/// Where it reports an error, the server is down, with no features and no
/// users. Otherwise it reports what the first run with output said, and every
/// run before that one could be repeated.
pub proof fn law_collected(
    server: LicenseServerConfigView,
    timeout_secs: u64,
    retries: u32,
    now: Seq<char>,
    runs: Seq<(RunView, Seq<char>)>,
)
    ensures
        after_runs(CollectionView::begun(server, timeout_secs, retries, now), runs) matches
            StepView::Done(status) ==> {
            &&& status.server_name == server.name
            &&& status.server_host == server.host
            &&& status.lmgrd_port == server.port
            &&& status.parse_error.len() > 0 ==> is_failure_of(status, server)
            &&& status.parse_error.len() == 0 ==> exists|k: int|
                #[trigger] is_report_of(status, server, runs, k)
        },
{
    law_begun(server, timeout_secs, retries, now);
    lemma_collected(CollectionView::begun(server, timeout_secs, retries, now), runs);
}

/// The status is what run `k` said, and the runs before it could be repeated.
pub open spec fn is_report_of(
    status: ServerStatusView,
    server: LicenseServerConfigView,
    runs: Seq<(RunView, Seq<char>)>,
    k: int,
) -> bool {
    &&& 0 <= k < runs.len()
    &&& forall|i: int| 0 <= i < k ==> is_retryable((#[trigger] runs[i]).0)
    &&& !is_retryable(runs[k].0)
    &&& runs[k].0 matches RunView::Output(output)
    &&& status == collect::identified(lmstat::parsed(output, runs[k].1), server)
}

/// How a collection in progress ends.
proof fn lemma_collected(collection: CollectionView, runs: Seq<(RunView, Seq<char>)>)
    requires
        in_progress(collection),
    ensures
        after_runs(collection, runs) matches StepView::Done(status) ==> {
            &&& collect::identified(status, collection.server) == status
            &&& status.parse_error.len() > 0 ==> is_failure_of(status, collection.server)
            &&& status.parse_error.len() == 0 ==> exists|k: int|
                #[trigger] is_report_of(status, collection.server, runs, k)
        },
    decreases runs.len(),
{
    if runs.len() > 0 {
        lemma_step(collection, runs[0].0, runs[0].1);
        match collection.step(runs[0].0, runs[0].1) {
            StepView::Retry(next) => {
                let rest = runs.drop_first();
                lemma_collected(next, rest);
                if let StepView::Done(status) = after_runs(next, rest) {
                    if status.parse_error.len() == 0 {
                        let k = choose|k: int|
                            #[trigger] is_report_of(status, collection.server, rest, k);
                        assert forall|i: int| 0 <= i < k + 1 implies is_retryable(
                            (#[trigger] runs[i]).0,
                        ) by {
                            if i > 0 {
                                assert(runs[i] == rest[i - 1]);
                            }
                        }
                        assert(runs[k + 1] == rest[k]);
                        assert(is_report_of(status, collection.server, runs, k + 1));
                    }
                }
            },
            StepView::Done(status) => {
                if status.parse_error.len() == 0 {
                    assert(is_report_of(status, collection.server, runs, 0));
                }
            },
        }
    }
}

/// A missing executable ends the collection at once, and the error names the
/// program that was looked for.
pub proof fn law_missing_executable(collection: CollectionView, now: Seq<char>)
    ensures
        collection.step(RunView::NotFound, now) == StepView::Done(
            collection.failing(
                "找不到 lmutil 可执行文件: "@ + lmutil::program_view(collection.server.lmutil_path),
            ),
        ),
{
}

/// Before the first run the report is a failure without a reason of its own, of
/// the time at which the collection began.
pub proof fn law_begun_report(
    server: LicenseServerConfigView,
    timeout_secs: u64,
    retries: u32,
    now: Seq<char>,
)
    ensures
        ({
            let begun = CollectionView::begun(server, timeout_secs, retries, now);
            &&& begun.last_error.parse_error == "采集失败"@
            &&& begun.last_error.parse_time == now
            &&& !begun.last_error.unreachable
            &&& begun.server == server
            &&& begun.timeout_secs == timeout_secs
        }),
{
}

/// What is reported after a run: the final status, or what is reported until the
/// next run.
pub open spec fn reported(step: StepView) -> ServerStatusView {
    match step {
        StepView::Retry(next) => next.last_error,
        StepView::Done(status) => status,
    }
}

/// A run without output changes nothing of the report but its reason: how long
/// was waited, what the failure was, or which program is missing. A run that
/// simply wrote nothing leaves the reason too.
pub proof fn law_reasons(collection: CollectionView, run: RunView, now: Seq<char>)
    ensures
        ({
            let report = reported(collection.step(run, now));
            let path = collection.server.lmutil_path;
            &&& run matches RunView::Output(output) ==> text::trimmed(output).len() == 0
                ==> report == collection.last_error
            &&& run !is Output ==> report == (ServerStatusView {
                parse_error: report.parse_error,
                ..collection.last_error
            })
            &&& run is Timeout ==> exists|secs: Seq<char>|
                text::all_digits(secs) && text::digits_value(secs) == collection.timeout_secs
                    && report.parse_error == #[trigger] ("lmutil 执行超时（"@ + secs + "s）"@)
            &&& run matches RunView::Failed(message) ==> report.parse_error
                == "lmutil 执行异常: "@ + message
            &&& run is NotFound && path.len() > 0 ==> report.parse_error
                == "找不到 lmutil 可执行文件: "@ + path
            &&& run is NotFound && path.len() == 0 ==> report.parse_error
                == "找不到 lmutil 可执行文件: "@ + "lmutil"@
        }),
{
    if run is Timeout {
        let secs = text::decimal(collection.timeout_secs as nat);
        text_laws::law_decimal(collection.timeout_secs as nat);
        assert(reported(collection.step(run, now)).parse_error == "lmutil 执行超时（"@ + secs
            + "s）"@);
    }
}

/// Output ends a collection with what it says, under the configured name, host and
/// port.
pub proof fn law_output_ends(collection: CollectionView, output: Seq<char>, now: Seq<char>)
    requires
        text::trimmed(output).len() > 0,
    ensures
        collection.step(RunView::Output(output), now) matches StepView::Done(status) && {
            let said = lmstat::parsed(output, now);
            &&& status.server_name == collection.server.name
            &&& status.server_host == collection.server.host
            &&& status.lmgrd_port == collection.server.port
            &&& status.vendor_daemon == said.vendor_daemon
            &&& status.status == said.status
            &&& status.features == said.features
            &&& status.users == said.users
            &&& status.parse_time == now
            &&& status.parse_error == said.parse_error
            &&& status.unreachable == said.unreachable
        },
{
    law_settled(collection, RunView::Output(output), now);
    line_laws::law_parsed_keeps_reading(output, now);
}

/// A failure other than a missing executable or a timeout counts with its message.
pub proof fn law_run_view(run: Result<String, lmutil::LmutilError>)
    ensures
        run matches Ok(output) ==> collect::run_view(run) == RunView::Output(output@),
        run matches Err(error) ==> {
            &&& error is NotFound <==> collect::run_view(run) is NotFound
            &&& error is Timeout <==> collect::run_view(run) is Timeout
            &&& error is Failed || error is Io ==> collect::run_view(run) == RunView::Failed(
                error.message_view(),
            )
        },
{
}

} // verus!
