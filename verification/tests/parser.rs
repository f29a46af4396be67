use eda_license_collector::lmstat::{parse_int, parse_lmstat_output_at, LineReader, LineRecord};
use eda_license_collector::lmutil::parse_lmstat_output;

const FULL: &str = "\
lmutil - Copyright (c) 1989-2023 Flexera. All Rights Reserved.
Flexible License Manager status on Tue 6/2/2026 10:23

License server status: 27000@licsrv01
    License file(s) on licsrv01: /opt/flexlm/license.dat:

  licsrv01: license server UP (MASTER) v11.19.6

Vendor daemon status (on licsrv01):

   snpslmd: UP v11.19.6

Feature usage info:

Users of vcs:  (Total of 20 licenses issued;  Total of 12 licenses in use)

  \"vcs\" v2023.06, vendor: snpslmd, expiry: permanent(no expiration date)
  floating license

    jsmith desktop01:0 /dev/pts/3 06/02/2026 10:01
    lzhang desktop02:0 06/02/2026 09:15
    qzhou server07 /dev/pts/12 06/01/2026 18:40

Users of verdi:  (Total of 10 licenses issued;  Total of 3 licenses in use)

    awu desktop03:1 /dev/tty 06/02/2026 08:00
    fchen desktop04:0 /dev/tty 06/02/2026 08:30
";

const TABLE: &str = "\
Feature usage info:
Feature  Version  Vendor   Expiry    Total  Used
  vcs    2023.06 synopsys 01-jan-00 20     12
  verdi  synopsys 2023.06 10 3
xcelium: 40 licenses, 25 in use
";

const CONNECT_ERROR: &str = "\
lmutil - Copyright (c) 1989-2023 Flexera. All Rights Reserved.
Flexible License Manager status on Tue 6/2/2026 10:23

Error getting status: Cannot connect to license server system. (-15,10:10061)
";

fn read_line(line: &str, daemon_known: bool) -> LineRecord {
    LineReader::new().read_line(line, daemon_known)
}

fn ratio(numerator: i64, denominator: i64) -> f64 {
    numerator as f64 / denominator as f64
}

#[test]
fn parses_realistic_lmstat_output() {
    let status = parse_lmstat_output(FULL);

    assert_eq!(status.server_host, "licsrv01");
    assert_eq!(status.lmgrd_port, 27000);
    assert_eq!(status.vendor_daemon, "snpslmd");
    assert_eq!(status.status, "UP");
    assert!(status.is_up());
    assert!(status.parse_error.is_empty());

    assert_eq!(status.features.len(), 2);
    assert_eq!(status.total_licenses(), 30);
    assert_eq!(status.total_used(), 15);
    let overall = status.overall_usage_ratio();
    assert!((ratio(overall.numerator, overall.denominator) - 0.5).abs() < f64::EPSILON);

    let vcs = &status.features[0];
    assert_eq!(vcs.name, "vcs");
    assert_eq!(vcs.total, 20);
    assert_eq!(vcs.used, 12);
    assert_eq!(vcs.idle(), 8);
    assert_eq!(vcs.users.len(), 3);
    assert_eq!(vcs.users[0].username, "jsmith");
    assert_eq!(vcs.users[0].host, "desktop01:0");
    assert_eq!(vcs.users[0].display, "/dev/pts/3");
    assert_eq!(vcs.users[0].start_time, "06/02/2026 10:01");
    assert_eq!(vcs.users[0].feature, "vcs");
    assert_eq!(vcs.users[1].username, "lzhang");
    assert_eq!(vcs.users[1].display, "");

    let verdi = &status.features[1];
    assert_eq!(verdi.name, "verdi");
    assert_eq!(verdi.total, 10);
    assert_eq!(verdi.used, 3);
    assert_eq!(verdi.users.len(), 2);
    assert_eq!(verdi.users[1].username, "fchen");

    assert_eq!(
        status
            .users
            .iter()
            .map(|user| user.username.as_str())
            .collect::<Vec<_>>(),
        vec!["jsmith", "lzhang", "qzhou", "awu", "fchen"]
    );
}

#[test]
fn parses_legacy_table_and_brief_layouts() {
    let status = parse_lmstat_output(TABLE);

    // No date stands in the `verdi` line, so it is not a feature line.
    assert_eq!(status.features.len(), 2);

    let vcs = &status.features[0];
    assert_eq!(vcs.name, "vcs");
    assert_eq!(vcs.vendor, "synopsys");
    assert_eq!(vcs.total, 20);
    assert_eq!(vcs.used, 12);

    let xcelium = &status.features[1];
    assert_eq!(xcelium.name, "xcelium");
    assert_eq!(xcelium.total, 40);
    assert_eq!(xcelium.used, 25);

    assert_eq!(status.total_licenses(), 60);
    assert_eq!(status.total_used(), 37);
    assert!(status.users.is_empty());
}

#[test]
fn unreachable_server_is_reported_as_down() {
    let status = parse_lmstat_output(CONNECT_ERROR);

    assert_eq!(status.status, "DOWN");
    assert!(!status.is_up());
    assert!(status.unreachable);
    assert!(status.features.is_empty());
    assert!(
        status
            .parse_error
            .contains("Cannot connect to license server"),
        "parse_error: {}",
        status.parse_error
    );
    assert_eq!(
        status.parse_error,
        "lmutil 采集失败: Error getting status: Cannot connect to license server system. (-15,10:10061)"
    );
}

#[test]
fn keeps_successful_data_even_if_output_has_error_lines() {
    let output = "\
Flexible License Manager status on Thu 6/2/2026 10:23

Users of vcs:  (Total of 20 licenses issued;  Total of 12 licenses in use)

Error getting status: Cannot connect to license server system. (-15,10:10061)
";
    let status = parse_lmstat_output(output);

    assert_eq!(status.status, "");
    assert!(status.is_up());
    assert!(status.parse_error.is_empty());
    assert!(!status.unreachable);
    assert_eq!(status.features.len(), 1);
    assert_eq!(status.features[0].used, 12);
}

#[test]
fn repeated_feature_sections_are_merged_in_order() {
    let output = "\
Users of vcs:  (Total of 20 licenses issued;  Total of 12 licenses in use)
Users of verdi:  (Total of 10 licenses issued;  Total of 3 licenses in use)
Users of vcs:  (Total of 22 licenses issued;  Total of 14 licenses in use)
";
    let status = parse_lmstat_output(output);

    assert_eq!(status.features.len(), 2);
    assert_eq!(status.features[0].name, "vcs");
    assert_eq!(status.features[0].total, 22);
    assert_eq!(status.features[0].used, 14);
    assert_eq!(status.features[1].name, "verdi");
}

#[test]
fn empty_output_produces_empty_status() {
    let status = parse_lmstat_output("");

    assert!(status.features.is_empty());
    assert!(status.users.is_empty());
    assert_eq!(status.status, "");
    assert!(status.parse_error.is_empty());
    assert_eq!(status.total_licenses(), 0);
    let overall = status.overall_usage_ratio();
    assert_eq!(ratio(overall.numerator, overall.denominator), 0.0);
}

#[test]
fn blank_output_tells_nothing() {
    let status = parse_lmstat_output_at(" \r\n\t\u{3000}\n", "now".to_owned());
    assert_eq!(status.parse_time, "now");
    assert!(status.is_up());
    assert!(!status.unreachable);
    assert!(status.users.is_empty());
}

#[test]
fn collection_time_is_iso_8601_with_milliseconds() {
    let time = parse_lmstat_output("").parse_time;
    // 2026-06-02T10:23:00.000+08:00
    assert_eq!(time.len(), 29);
    assert_eq!(&time[10..11], "T");
    assert_eq!(&time[19..20], ".");
    assert!(&time[23..24] == "+" || &time[23..24] == "-");
}

#[test]
fn server_status_line_has_two_layouts() {
    match read_line("License server status: 27000@host1", false) {
        LineRecord::Server { port, host } => {
            assert_eq!(port, Some(27000));
            assert_eq!(host, "host1");
        }
        other => panic!("{other:?}"),
    }
    match read_line("LICENSE Server status: 27010 on host2", true) {
        LineRecord::Server { port, host } => {
            assert_eq!(port, Some(27010));
            assert_eq!(host, "host2");
        }
        other => panic!("{other:?}"),
    }
    match read_line("License server status: 99999@host3", false) {
        LineRecord::Server { port, host } => {
            assert_eq!(port, None);
            assert_eq!(host, "host3");
        }
        other => panic!("{other:?}"),
    }
}

#[test]
fn vendor_daemon_line_has_three_layouts() {
    for line in [
        "vendor daemon status: 27001 host: UP",
        "Vendor daemon status: 27001@host: UP",
    ] {
        match read_line(line, true) {
            LineRecord::VendorDaemon { name, status } => {
                assert_eq!(name, "host");
                assert_eq!(status, "UP");
            }
            other => panic!("{line}: {other:?}"),
        }
    }
    match read_line("   snpslmd: down v11.19.6", false) {
        LineRecord::VendorDaemon { name, status } => {
            assert_eq!(name, "snpslmd");
            assert_eq!(status, "DOWN");
        }
        other => panic!("{other:?}"),
    }
    // Once a vendor daemon is known, the short layout is not tried.
    assert!(matches!(
        read_line("   cdslmd: UP v11.19.6", true),
        LineRecord::Other
    ));
}

#[test]
fn first_vendor_daemon_of_the_short_layout_is_kept() {
    let status = parse_lmstat_output("status\n  snpslmd: UP v11\n  cdslmd: DOWN v11\n");
    assert_eq!(status.vendor_daemon, "snpslmd");
    assert_eq!(status.status, "UP");
}

#[test]
fn brief_layout_opens_no_section() {
    let output = "\
Users of vcs:  (Total of 20 licenses issued;  Total of 12 licenses in use)
xcelium: 40 licences, 25 used
  jsmith desktop01 06/02/2026 10:01
";
    let status = parse_lmstat_output(output);
    assert_eq!(status.features.len(), 2);
    assert_eq!(status.features[0].users.len(), 1);
    assert_eq!(status.features[0].users[0].feature, "vcs");
    assert_eq!(status.features[1].users.len(), 0);
    assert_eq!(status.features[1].total, 40);
}

#[test]
fn user_line_may_name_its_feature() {
    let output = "\
Users of vcs:  (Total of 20 licenses issued;  Total of 12 licenses in use)
  jsmith desktop01 :0 06/02/2026 10:01 (verdi)
";
    let status = parse_lmstat_output(output);
    // The user is listed under the open section, with the feature it names.
    assert_eq!(status.features.len(), 1);
    assert_eq!(status.features[0].users[0].feature, "verdi");
    assert_eq!(status.users[0].feature, "verdi");
    assert_eq!(status.users[0].display, ":0");
}

#[test]
fn users_outside_a_section_belong_to_no_feature() {
    let status = parse_lmstat_output("users\n  jsmith desktop01 06/02/2026 10:01\n");
    assert!(status.features.is_empty());
    assert_eq!(status.users.len(), 1);
    assert_eq!(status.users[0].feature, "");
}

#[test]
fn failure_message_outweighs_a_daemon_status() {
    let output = "License server status: 27000@licsrv01\n   snpslmd: UP v11.19.6\n\
        Error getting status: Cannot connect to license server system. (-15,10:10061)";
    let status = parse_lmstat_output(output);
    assert_eq!(status.status, "DOWN");
    assert!(!status.is_up());
    assert!(status.unreachable);
    assert_eq!(
        status.parse_error,
        "lmutil 采集失败: Error getting status: Cannot connect to license server system. (-15,10:10061)"
    );
    // What else was read stays.
    assert_eq!(status.vendor_daemon, "snpslmd");
    assert_eq!(status.server_host, "licsrv01");
    assert_eq!(status.lmgrd_port, 27000);
}

#[test]
fn users_alone_outweigh_a_failure_message() {
    let status =
        parse_lmstat_output("x\n  jsmith desktop01 06/02/2026 10:01\nlmgrd is not running\n");
    assert!(!status.unreachable);
    assert!(status.parse_error.is_empty());
    assert_eq!(status.status, "");
}

#[test]
fn daemon_status_without_a_failure_stays() {
    let status = parse_lmstat_output("x\n  snpslmd: DOWN v11\n");
    assert_eq!(status.status, "DOWN");
    assert!(!status.unreachable);
    assert!(status.parse_error.is_empty());
}

#[test]
fn white_space_around_the_output_changes_nothing() {
    for output in [FULL, TABLE, CONNECT_ERROR, "lmgrd is not running"] {
        let plain = parse_lmstat_output_at(output, "now".to_owned());
        let padded = format!("\r\n \t\u{3000}{output} \n\r\n\u{a0}");
        let padded = parse_lmstat_output_at(&padded, "now".to_owned());
        assert_eq!(format!("{plain:?}"), format!("{padded:?}"));
    }
}

#[test]
fn feature_users_are_the_users_behind_the_first_header() {
    let output = "\
users
  early desktop00 06/02/2026 09:00
Users of vcs:  (Total of 2 licenses issued;  Total of 2 licenses in use)
  jsmith desktop01 06/02/2026 10:01
Users of verdi:  (Total of 1 licenses issued;  Total of 1 licenses in use)
  awu desktop02 06/02/2026 10:02
Users of vcs:  (Total of 2 licenses issued;  Total of 2 licenses in use)
  jsmith desktop01 06/02/2026 10:01
";
    let status = parse_lmstat_output(output);
    let mut listed: Vec<String> = status
        .features
        .iter()
        .flat_map(|feature| feature.users.iter().map(|user| user.username.clone()))
        .collect();
    listed.sort();
    let mut behind: Vec<String> =
        status.users[1..].iter().map(|user| user.username.clone()).collect();
    behind.sort();
    assert_eq!(listed, behind);
    assert_eq!(listed, vec!["awu", "jsmith", "jsmith"]);
}

#[test]
fn counts_are_not_negative_and_names_not_empty() {
    for output in [FULL, TABLE, "vcs: 5 licenses, -3 in use", "Users of :  (Total of 1 licenses issued;  Total of 1 licenses in use)"] {
        for feature in parse_lmstat_output(output).features {
            assert!(!feature.name.is_empty());
            assert!(feature.total >= 0 && feature.used >= 0);
        }
    }
}

#[test]
fn every_failure_message_is_recognised() {
    for message in [
        "Cannot connect to license server",
        "License server machine is down",
        "Error getting status",
        "lmgrd is not running",
        "Invalid license file syntax",
        "Failed to open the TCP port",
    ] {
        let status = parse_lmstat_output(&format!("banner\n  note: {message} (-1)  \nmore\n"));
        assert!(status.unreachable, "{message}");
        assert_eq!(status.status, "DOWN");
        assert_eq!(
            status.parse_error,
            format!("lmutil 采集失败: note: {message} (-1)")
        );
    }
}

#[test]
fn numbers_out_of_range_count_as_zero() {
    assert_eq!(parse_int("9223372036854775807"), i64::MAX);
    assert_eq!(parse_int("9223372036854775808"), 0);
    assert_eq!(parse_int("-9223372036854775808"), i64::MIN);
    assert_eq!(parse_int("+7"), 7);
    assert_eq!(parse_int(""), 0);
    assert_eq!(parse_int("-"), 0);
    assert_eq!(parse_int("1a"), 0);
}

#[test]
fn lines_may_end_with_carriage_returns() {
    let output = "\
Users of vcs:  (Total of 20 licenses issued;  Total of 12 licenses in use)\r
  jsmith desktop01 06/02/2026 10:01\r
";
    let status = parse_lmstat_output(output);
    assert_eq!(status.features[0].users[0].start_time, "06/02/2026 10:01");
}
