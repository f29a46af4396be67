use eda_license_collector::lmutil::{FeatureUsage, ServerStatus, UsageRatio, UserUsage};
use eda_license_collector::report::report_lines;

fn value(ratio: UsageRatio) -> f64 {
    ratio.numerator as f64 / ratio.denominator as f64
}

#[test]
fn feature_usage_helpers() {
    let feature = FeatureUsage {
        total: 20,
        used: 12,
        ..Default::default()
    };
    assert_eq!(feature.idle(), 8);
    assert!((value(feature.usage_ratio()) - 0.6).abs() < f64::EPSILON);

    let empty = FeatureUsage::default();
    assert_eq!(empty.idle(), 0);
    assert_eq!(value(empty.usage_ratio()), 0.0);
}

#[test]
fn status_helpers() {
    let mut status = ServerStatus {
        status: "UP".to_owned(),
        features: vec![
            FeatureUsage {
                total: 10,
                used: 4,
                ..Default::default()
            },
            FeatureUsage {
                total: 6,
                used: 2,
                ..Default::default()
            },
        ],
        ..Default::default()
    };

    assert!(status.is_up());
    assert_eq!(status.total_licenses(), 16);
    assert_eq!(status.total_used(), 6);
    assert!((value(status.overall_usage_ratio()) - 0.375).abs() < f64::EPSILON);

    status.status = "DOWN".to_owned();
    assert!(!status.is_up());

    // An unknown status counts as up.
    status.status.clear();
    assert!(status.is_up());
}

#[test]
fn status_is_compared_without_case() {
    let mut status = ServerStatus::default();
    for (text, up) in [("up", true), ("Up", true), ("UPS", false), ("UNSUPPORTED", false)] {
        status.status = text.to_owned();
        assert_eq!(status.is_up(), up, "{text}");
    }
}

#[test]
fn counts_are_checked_for_their_range() {
    let counts = |total: i64, used: i64| FeatureUsage { total, used, ..Default::default() };
    let mut status = ServerStatus::default();
    assert!(status.counts_in_range());
    status.features = vec![counts(i64::MAX, 1), counts(0, 0)];
    assert!(status.counts_in_range());
    status.features = vec![counts(i64::MAX, 1), counts(1, 0)];
    assert!(!status.counts_in_range());
    status.features = vec![counts(0, i64::MIN)];
    assert!(!status.counts_in_range());
}

#[test]
fn copies_are_equal() {
    let user = UserUsage { username: "jsmith".to_owned(), ..Default::default() };
    assert_eq!(user.clone(), user);
    let feature = FeatureUsage { users: vec![user], ..Default::default() };
    assert_eq!(feature.clone().users, feature.users);
    let status = ServerStatus { features: vec![feature], lmgrd_port: 27000, ..Default::default() };
    let copy = status.clone();
    assert_eq!(copy.features[0].users, status.features[0].users);
    assert_eq!(copy.lmgrd_port, 27000);
}

#[test]
fn report_lists_servers_and_features() {
    let status = ServerStatus {
        server_host: "192.168.1.100".to_owned(),
        lmgrd_port: 27000,
        status: "UP".to_owned(),
        features: vec![
            FeatureUsage {
                name: "vcs".to_owned(),
                total: 20,
                used: 12,
                users: vec![UserUsage::default(), UserUsage::default()],
                ..Default::default()
            },
            FeatureUsage {
                name: "a-name-of-more-than-twenty".to_owned(),
                total: 12345,
                used: 5,
                ..Default::default()
            },
        ],
        ..Default::default()
    };
    let lines = report_lines(
        &vec![("main-server".to_owned(), status)],
        &vec![vec![" 60.0".to_owned(), "  0.0".to_owned()]],
    );
    assert_eq!(
        lines,
        vec![
            "",
            "=== main-server (192.168.1.100:27000) ===",
            "Status: UP",
            "Features: 2, Total: 12365, Used: 17",
            "  vcs                    12/  20 ( 60.0%) users=2",
            "  a-name-of-more-than-twenty    5/12345 (  0.0%) users=0",
        ]
    );
    assert_eq!(lines[4], format!("  {:<20} {:>4}/{:>4} ({:>5.1}%) users={}", "vcs", 12, 20, 60.0, 2));
}

#[test]
fn report_shows_unknown_status_and_errors() {
    let status = ServerStatus { parse_error: "采集失败".to_owned(), ..Default::default() };
    let lines = report_lines(
        &vec![("a".to_owned(), status), ("b".to_owned(), ServerStatus::default())],
        &vec![Vec::new(), Vec::new()],
    );
    assert_eq!(
        lines,
        vec![
            "",
            "=== a (:0) ===",
            "Status: UNKNOWN",
            "Features: 0, Total: 0, Used: 0",
            "Error: 采集失败",
            "",
            "=== b (:0) ===",
            "Status: UNKNOWN",
            "Features: 0, Total: 0, Used: 0",
        ]
    );
}

#[test]
fn empty_report_says_so() {
    assert_eq!(
        report_lines(&Vec::new(), &Vec::new()),
        vec!["没有可输出的采集结果，请检查 license_servers 配置"]
    );
}
