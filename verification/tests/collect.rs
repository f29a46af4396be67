use eda_license_collector::collect::{Collection, Step};
use eda_license_collector::config::LicenseServerConfig;
use eda_license_collector::lmutil::{
    lmutil_args, lmutil_program, run_outcome, LmutilError, ProcessEvent, ServerStatus,
};

fn server_with(lmutil_path: &str) -> LicenseServerConfig {
    LicenseServerConfig {
        name: "demo-server".to_owned(),
        host: "127.0.0.1".to_owned(),
        port: 27000,
        lmutil_path: lmutil_path.to_owned(),
        vendor_port: None,
    }
}

fn done(step: Step) -> ServerStatus {
    match step {
        Step::Done(status) => status,
        Step::Retry(_) => panic!("another run is asked for"),
    }
}

fn retry(step: Step) -> Collection {
    match step {
        Step::Retry(collection) => collection,
        Step::Done(status) => panic!("the collection ended: {}", status.parse_error),
    }
}

fn finished(stdout: &str, exit_code: Option<i32>, stderr: &str) -> ProcessEvent {
    ProcessEvent::Finished {
        stdout: stdout.as_bytes().to_vec(),
        exit_code,
        stderr: stderr.as_bytes().to_vec(),
    }
}

#[test]
fn missing_lmutil_binary_returns_actionable_error() {
    let binary = "definitely-not-a-real-lmutil";

    let collection = Collection::begin(&server_with(binary), 5, 3);
    let run = run_outcome(ProcessEvent::SpawnFailed {
        not_found: true,
        message: "No such file or directory (os error 2)".to_owned(),
    });
    let status = done(collection.advance(run));

    assert_eq!(status.server_name, "demo-server");
    assert_eq!(status.server_host, "127.0.0.1");
    assert_eq!(status.lmgrd_port, 27000);
    assert_eq!(status.status, "DOWN");
    assert!(!status.is_up());
    assert!(
        status.parse_error.contains("找不到 lmutil"),
        "parse_error: {}",
        status.parse_error
    );
    assert!(status.features.is_empty());
    assert_eq!(status.total_licenses(), 0);
    assert_eq!(
        status.parse_error,
        "找不到 lmutil 可执行文件: definitely-not-a-real-lmutil"
    );
}

#[test]
fn output_ends_the_collection_under_the_configured_name() {
    let collection = Collection::begin(&server_with(""), 5, 3);
    let output = "License server status: 27009@elsewhere\n\
                  Users of vcs:  (Total of 20 licenses issued;  Total of 12 licenses in use)\n";
    let status = done(collection.advance(run_outcome(finished(output, Some(1), ""))));
    assert_eq!(status.server_name, "demo-server");
    assert_eq!(status.server_host, "127.0.0.1");
    assert_eq!(status.lmgrd_port, 27000);
    assert!(status.parse_error.is_empty());
    assert_eq!(status.features[0].total, 20);
}

#[test]
fn unreachable_server_is_not_tried_again() {
    let collection = Collection::begin(&server_with(""), 5, 3);
    let status = done(collection.advance(Ok("lmgrd is not running".to_owned())));
    assert_eq!(status.status, "DOWN");
    assert_eq!(status.parse_error, "lmutil 采集失败: lmgrd is not running");
}

#[test]
fn timeouts_are_tried_again_up_to_the_limit() {
    let collection = Collection::begin_at(&server_with(""), 5, 3, "t0".to_owned());
    let collection = retry(collection.advance_at(Err(LmutilError::Timeout), "t1".to_owned()));
    let collection = retry(collection.advance_at(Err(LmutilError::Timeout), "t2".to_owned()));
    let status = done(collection.advance_at(Err(LmutilError::Timeout), "t3".to_owned()));
    assert_eq!(status.parse_error, "lmutil 执行超时（5s）");
    assert_eq!(status.parse_time, "t0");
    assert_eq!(status.status, "DOWN");
    assert!(!status.unreachable);
}

#[test]
fn a_later_run_may_succeed() {
    let collection = Collection::begin_at(&server_with(""), 5, 2, "t0".to_owned());
    let run = run_outcome(finished(" \n", Some(-9), "  no license file  "));
    let collection = retry(collection.advance_at(run, "t1".to_owned()));
    let status = done(collection.advance_at(Ok("  x\n".to_owned()), "t2".to_owned()));
    assert!(status.parse_error.is_empty());
    assert_eq!(status.parse_time, "t2");
}

#[test]
fn no_retries_still_means_one_run() {
    let collection = Collection::begin(&server_with(""), 5, 0);
    let status = done(collection.advance(Err(LmutilError::Io("boom".to_owned()))));
    assert_eq!(status.parse_error, "lmutil 执行异常: boom");
}

#[test]
fn blank_output_keeps_the_earlier_reason() {
    let collection = Collection::begin(&server_with(""), 7, 2);
    let collection = retry(collection.advance(Ok("\n".to_owned())));
    let status = done(collection.advance(Ok("\n".to_owned())));
    assert_eq!(status.parse_error, "采集失败");

    let collection = Collection::begin(&server_with(""), 7, 2);
    let collection = retry(collection.advance(Err(LmutilError::Timeout)));
    let status = done(collection.advance(Ok(String::new())));
    assert_eq!(status.parse_error, "lmutil 执行超时（7s）");
}

#[test]
fn failed_runs_tell_the_exit_code_and_the_standard_error() {
    let collection = Collection::begin(&server_with(""), 5, 1);
    let run = run_outcome(finished("", Some(1), "ERROR: no lmutil\n"));
    let status = done(collection.advance(run));
    assert_eq!(
        status.parse_error,
        "lmutil 执行异常: lmutil 无输出，退出码 Some(1)，stderr: ERROR: no lmutil"
    );
}

#[test]
fn process_events_become_results() {
    assert!(matches!(
        run_outcome(ProcessEvent::SpawnFailed { not_found: true, message: "x".to_owned() }),
        Err(LmutilError::NotFound)
    ));
    match run_outcome(ProcessEvent::SpawnFailed { not_found: false, message: "denied".to_owned() }) {
        Err(LmutilError::Io(message)) => assert_eq!(message, "denied"),
        other => panic!("{other:?}"),
    }
    match run_outcome(ProcessEvent::WaitFailed { message: "broken".to_owned() }) {
        Err(LmutilError::Io(message)) => assert_eq!(message, "broken"),
        other => panic!("{other:?}"),
    }
    assert!(matches!(run_outcome(ProcessEvent::TimedOut), Err(LmutilError::Timeout)));
    // The exit code does not matter where there is output.
    match run_outcome(finished("text\n", Some(3), "noise")) {
        Ok(output) => assert_eq!(output, "text\n"),
        other => panic!("{other:?}"),
    }
}

#[test]
fn output_that_is_not_utf8_is_replaced() {
    let event = ProcessEvent::Finished {
        stdout: vec![b'a', 0xff, b'b'],
        exit_code: Some(0),
        stderr: Vec::new(),
    };
    match run_outcome(event) {
        Ok(output) => assert_eq!(output, "a\u{fffd}b"),
        other => panic!("{other:?}"),
    }
}

#[test]
fn long_standard_error_is_cut_by_characters() {
    let stderr = "错".repeat(600);
    match run_outcome(finished("", None, &stderr)) {
        Err(LmutilError::Failed { exit_code, stderr }) => {
            assert_eq!(exit_code, None);
            assert_eq!(stderr, "错".repeat(500));
        }
        other => panic!("{other:?}"),
    }
}

#[test]
fn lmutil_is_called_with_port_and_host() {
    assert_eq!(lmutil_args("licsrv01", 27000), vec!["lmstat", "-a", "-c", "27000@licsrv01"]);
    assert_eq!(lmutil_program(""), "lmutil");
    assert_eq!(lmutil_program("/opt/flexlm/lmutil"), "/opt/flexlm/lmutil");
}

#[test]
fn lmutil_error_messages_are_actionable() {
    assert_eq!(LmutilError::NotFound.message(), "找不到 lmutil 可执行文件");
    assert_eq!(LmutilError::Timeout.message(), "lmutil 执行超时");

    let failed = LmutilError::Failed {
        exit_code: Some(1),
        stderr: "ERROR: lmutil not found.".to_owned(),
    };
    let message = failed.message();
    assert!(message.contains("退出码 Some(1)"));
    assert!(message.contains("ERROR: lmutil not found."));

    let silent = LmutilError::Failed {
        exit_code: None,
        stderr: String::new(),
    };
    assert!(silent.message().contains("lmutil 无输出"));
    assert_eq!(silent.message(), "lmutil 无输出，退出码 None");

    assert_eq!(LmutilError::Io("boom".to_owned()).message(), "boom");
}
