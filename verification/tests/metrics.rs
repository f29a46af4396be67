use eda_license_collector::collector::{
    next_action, round3, LoopAction, LoopEvent, DURATION_LIMIT,
};
use eda_license_collector::config::{
    CollectorSection, Config, LicenseServerConfig, PrometheusSection,
};
use eda_license_collector::lmutil::{FeatureUsage, ServerStatus, UserUsage};
use eda_license_collector::metrics::METRICS_CONTENT_TYPE;
use eda_license_collector::{LicenseCollector, Metrics};

fn collector_config() -> Config {
    Config {
        license_servers: vec![LicenseServerConfig {
            name: "main-server".to_owned(),
            host: "192.168.1.100".to_owned(),
            port: 27000,
            lmutil_path: String::new(),
            vendor_port: None,
        }],
        collector: CollectorSection { interval: 30, timeout: 15, retries: 3 },
        prometheus: PrometheusSection::default(),
    }
}

fn feature(name: &str, vendor: &str, total: i64, used: i64, users: usize) -> FeatureUsage {
    let mut feature = FeatureUsage::default();
    feature.name = name.to_owned();
    feature.vendor = vendor.to_owned();
    feature.total = total;
    feature.used = used;
    for _ in 0..users {
        feature.users.push(UserUsage::default());
    }
    feature
}

fn millis(seconds: f64) -> u64 {
    let bits = seconds.to_bits();
    assert!(bits < DURATION_LIMIT);
    round3(bits)
}

#[test]
fn round3_matches_python_round() {
    assert_eq!(millis(0.12349), 123);
    assert_eq!(millis(1.5), 1500);
    assert_eq!(millis(2.0004), 2000);
}

#[test]
fn rounding_goes_by_the_exact_value_of_the_double() {
    // These doubles lie below the half, and this one above it.
    assert_eq!(millis(1.0005), 1000);
    assert_eq!(millis(0.5005), 500);
    assert_eq!(millis(0.0005), 1);
    // Halves that a double holds exactly go to the even neighbour.
    assert_eq!(millis(0.0625), 62);
    assert_eq!(millis(0.1875), 188);
}

#[test]
fn rounding_covers_the_whole_range() {
    assert_eq!(millis(0.0), 0);
    assert_eq!(millis(f64::from_bits(1)), 0);
    assert_eq!(millis(f64::MIN_POSITIVE), 0);
    assert_eq!(millis(1e-12), 0);
    assert_eq!(millis(2_251_799_813_685_248.5), 2_251_799_813_685_248_500);
    assert_eq!(millis(9_007_199_254_740_992.0), 9_007_199_254_740_992_000);
    assert_eq!(
        round3(DURATION_LIMIT - 1),
        18_014_398_509_481_982_000
    );
    assert_eq!(DURATION_LIMIT, 18_014_398_509_481_984.0_f64.to_bits());
}

#[test]
fn rounding_agrees_with_three_decimals_of_std() {
    for i in 0..20_000u32 {
        for seconds in [
            f64::from(i) / 2000.0,
            f64::from(i) * 0.000_1,
            f64::from(i) / 64.0,
            f64::from(i) * 1234.567_85,
        ] {
            let digits = format!("{seconds:.3}").replace('.', "");
            assert_eq!(millis(seconds), digits.parse::<u64>().unwrap(), "{seconds}");
        }
    }
}

#[test]
fn metrics_reflect_server_status() {
    let config = collector_config();
    let mut collector = LicenseCollector::new(&config, Metrics::new().unwrap());
    let server = config.license_servers[0].clone();

    let status = ServerStatus {
        server_name: server.name.clone(),
        server_host: server.host.clone(),
        lmgrd_port: server.port,
        status: "UP".to_owned(),
        features: vec![FeatureUsage {
            name: "vcs".to_owned(),
            vendor: "snpslmd".to_owned(),
            total: 20,
            used: 12,
            users: vec![UserUsage::default(), UserUsage::default()],
        }],
        ..Default::default()
    };

    collector.update_metrics(&server, &status, 0.4567_f64.to_bits());

    let rendered = collector.metrics().render();
    assert!(rendered.contains(
        "flexlm_server_status{host=\"192.168.1.100\",port=\"27000\",server=\"main-server\"} 1"
    ));
    assert!(rendered.contains("flexlm_server_features_total{server=\"main-server\"} 1"));
    assert!(rendered.contains(
        "flexlm_feature_total{feature=\"vcs\",server=\"main-server\",vendor=\"snpslmd\"} 20"
    ));
    assert!(rendered.contains(
        "flexlm_feature_used{feature=\"vcs\",server=\"main-server\",vendor=\"snpslmd\"} 12"
    ));
    assert!(rendered.contains(
        "flexlm_feature_idle{feature=\"vcs\",server=\"main-server\",vendor=\"snpslmd\"} 8"
    ));
    assert!(rendered.contains("flexlm_feature_users{feature=\"vcs\",server=\"main-server\"} 2"));
    assert!(rendered.contains("flexlm_scrape_duration_seconds{server=\"main-server\"} 0.457"));
    assert!(
        rendered.contains("flexlm_scrape_total{server=\"main-server\",status=\"success\"} 1")
    );
}

#[test]
fn down_server_reports_zero_status() {
    let config = collector_config();
    let mut collector = LicenseCollector::new(&config, Metrics::new().unwrap());
    let server = config.license_servers[0].clone();

    let status = ServerStatus {
        server_host: server.host.clone(),
        lmgrd_port: server.port,
        status: "DOWN".to_owned(),
        parse_error: "采集失败".to_owned(),
        ..Default::default()
    };
    collector.update_metrics(&server, &status, 15.0_f64.to_bits());

    let rendered = collector.metrics().render();
    assert!(rendered.contains(
        "flexlm_server_status{host=\"192.168.1.100\",port=\"27000\",server=\"main-server\"} 0"
    ));
    assert!(
        rendered.contains("flexlm_scrape_total{server=\"main-server\",status=\"failure\"} 1")
    );
    assert!(rendered.contains("flexlm_scrape_duration_seconds{server=\"main-server\"} 15\n"));
}

#[test]
fn last_status_keeps_config_order() {
    let mut config = collector_config();
    config.license_servers.push(LicenseServerConfig {
        name: "backup-server".to_owned(),
        host: "192.168.1.101".to_owned(),
        port: 27000,
        lmutil_path: String::new(),
        vendor_port: None,
    });

    let mut collector = LicenseCollector::new(&config, Metrics::new().unwrap());
    assert_eq!(collector.server_count(), 2);

    for server in &config.license_servers {
        collector.store_status(server, ServerStatus::default());
    }
    let names: Vec<String> = collector
        .last_status()
        .into_iter()
        .map(|(name, _)| name)
        .collect();
    assert_eq!(names, vec!["main-server", "backup-server"]);
}

#[test]
fn later_status_takes_the_place_of_the_earlier_one() {
    let mut config = collector_config();
    let mut backup = config.license_servers[0].clone();
    backup.name = "backup-server".to_owned();
    config.license_servers.push(backup);
    let mut collector = LicenseCollector::new(&config, Metrics::new().unwrap());

    for text in ["UP", "DOWN"] {
        for server in &collector.servers() {
            let mut status = ServerStatus::default();
            status.status = format!("{text}-{}", server.name);
            collector.record(server, status, 0.001_f64.to_bits());
        }
    }
    let kept: Vec<(String, String)> = collector
        .last_status()
        .into_iter()
        .map(|(name, status)| (name, status.status))
        .collect();
    assert_eq!(
        kept,
        vec![
            ("main-server".to_owned(), "DOWN-main-server".to_owned()),
            ("backup-server".to_owned(), "DOWN-backup-server".to_owned()),
        ]
    );
}

#[test]
fn collector_takes_its_limits_from_the_configuration() {
    let mut config = collector_config();
    let collector = LicenseCollector::new(&config, Metrics::new().unwrap());
    assert_eq!(collector.interval(), 30);
    assert_eq!(collector.timeout(), 15);
    assert_eq!(collector.retries(), 3);
    assert_eq!(collector.servers()[0].host, "192.168.1.100");
    assert!(collector.last_status().is_empty());

    config.collector = CollectorSection { interval: 0, timeout: 0, retries: 0 };
    let collector = LicenseCollector::new(&config, Metrics::new().unwrap());
    assert_eq!(collector.interval(), 1);
    assert_eq!(collector.timeout(), 1);
    assert_eq!(collector.retries(), 1);
}

#[test]
fn status_without_host_is_labelled_by_the_configuration() {
    let config = collector_config();
    let mut collector = LicenseCollector::new(&config, Metrics::new().unwrap());
    let server = config.license_servers[0].clone();
    collector.update_metrics(&server, &ServerStatus::default(), 0);

    let mut elsewhere = ServerStatus::default();
    elsewhere.server_host = "licsrv01".to_owned();
    elsewhere.lmgrd_port = 27009;
    collector.update_metrics(&server, &elsewhere, 0);

    let rendered = collector.metrics().render();
    assert!(rendered.contains(
        "flexlm_server_status{host=\"192.168.1.100\",port=\"27000\",server=\"main-server\"} 1"
    ));
    assert!(rendered.contains(
        "flexlm_server_status{host=\"licsrv01\",port=\"27009\",server=\"main-server\"} 1"
    ));
}

#[test]
fn collections_are_counted_and_old_features_stay() {
    let config = collector_config();
    let mut collector = LicenseCollector::new(&config, Metrics::new().unwrap());
    let server = config.license_servers[0].clone();

    let mut first = ServerStatus::default();
    first.features = vec![feature("vcs", "snps", 20, 12, 1), feature("verdi", "snps", 10, 3, 0)];
    collector.record(&server, first, 0);
    let mut second = ServerStatus::default();
    second.features = vec![feature("vcs", "snps", 22, 25, 3)];
    collector.record(&server, second, 0);

    let rendered = collector.metrics().render();
    assert!(rendered.contains("status=\"success\"} 2\n"));
    assert!(rendered.contains("flexlm_server_features_total{server=\"main-server\"} 1\n"));
    let vcs = "{feature=\"vcs\",server=\"main-server\",vendor=\"snps\"}";
    assert!(rendered.contains(&format!("flexlm_feature_total{vcs} 22\n")));
    assert!(rendered.contains(&format!("flexlm_feature_used{vcs} 25\n")));
    assert!(rendered.contains(&format!("flexlm_feature_idle{vcs} -3\n")));
    let verdi = "{feature=\"verdi\",server=\"main-server\",vendor=\"snps\"}";
    assert!(rendered.contains(&format!("flexlm_feature_total{verdi} 10\n")));
    assert!(rendered.contains(&format!("flexlm_feature_idle{verdi} 7\n")));
}

#[test]
fn every_collection_is_counted_once() {
    let config = collector_config();
    let mut collector = LicenseCollector::new(&config, Metrics::new().unwrap());
    let server = config.license_servers[0].clone();
    for text in ["UP", "DOWN", "", "UNSUPPORTED", "up"] {
        let mut status = ServerStatus::default();
        status.status = text.to_owned();
        collector.update_metrics(&server, &status, 0);
    }
    let rendered = collector.metrics().render();
    assert!(rendered.contains("flexlm_scrape_total{server=\"main-server\",status=\"failure\"} 2\n"));
    assert!(rendered.contains("flexlm_scrape_total{server=\"main-server\",status=\"success\"} 3\n"));
    assert!(rendered.contains("server=\"main-server\"} 1\n"));
}

#[test]
fn registers_expected_metric_families() {
    let mut metrics = Metrics::new().unwrap();
    metrics.set_feature_total("srv", "vcs", "snpslmd", 20);
    metrics.set_feature_used("srv", "vcs", "snpslmd", 12);
    metrics.set_feature_idle("srv", "vcs", "snpslmd", 8);
    metrics.set_feature_users("srv", "vcs", 3);
    metrics.set_server_status("srv", "10.0.0.1", "27000", 1);
    metrics.set_server_features_total("srv", 1);
    metrics.set_scrape_duration("srv", 123);
    metrics.count_scrape("srv", "success");

    let rendered = metrics.render();
    assert!(rendered
        .contains("flexlm_feature_total{feature=\"vcs\",server=\"srv\",vendor=\"snpslmd\"} 20"));
    assert!(rendered
        .contains("flexlm_feature_used{feature=\"vcs\",server=\"srv\",vendor=\"snpslmd\"} 12"));
    assert!(rendered
        .contains("flexlm_feature_idle{feature=\"vcs\",server=\"srv\",vendor=\"snpslmd\"} 8"));
    assert!(rendered.contains("flexlm_feature_users{feature=\"vcs\",server=\"srv\"} 3"));
    assert!(rendered
        .contains("flexlm_server_status{host=\"10.0.0.1\",port=\"27000\",server=\"srv\"} 1"));
    assert!(rendered.contains("flexlm_server_features_total{server=\"srv\"} 1"));
    assert!(rendered.contains("flexlm_scrape_duration_seconds{server=\"srv\"} 0.123"));
    assert!(rendered.contains("flexlm_scrape_total{server=\"srv\",status=\"success\"} 1"));
    assert!(rendered.contains("# TYPE flexlm_feature_total gauge"));
    assert!(rendered.contains("# TYPE flexlm_scrape_total counter"));
    assert_eq!(metrics.registry().gather().len(), 8);
}

#[test]
fn families_carry_their_help_texts() {
    let mut metrics = Metrics::new().unwrap();
    metrics.set_feature_users("srv", "vcs", 3);
    assert_eq!(
        metrics.render(),
        "# HELP flexlm_feature_users Number of distinct users holding this feature\n\
         # TYPE flexlm_feature_users gauge\n\
         flexlm_feature_users{feature=\"vcs\",server=\"srv\"} 3\n"
    );
    let mut metrics = Metrics::new().unwrap();
    metrics.count_scrape("srv", "failure");
    metrics.count_scrape("srv", "failure");
    assert_eq!(
        metrics.render(),
        "# HELP flexlm_scrape_total Total number of scrape attempts\n\
         # TYPE flexlm_scrape_total counter\n\
         flexlm_scrape_total{server=\"srv\",status=\"failure\"} 2\n"
    );
}

#[test]
fn label_values_are_joined_for_the_key_of_a_sample() {
    let mut metrics = Metrics::new().unwrap();
    metrics.set_feature_users("a", "bc", 1);
    metrics.set_feature_users("ab", "c", 2);
    assert_eq!(
        metrics.render(),
        "# HELP flexlm_feature_users Number of distinct users holding this feature\n\
         # TYPE flexlm_feature_users gauge\n\
         flexlm_feature_users{feature=\"bc\",server=\"a\"} 2\n"
    );
}

#[test]
fn durations_are_written_in_seconds() {
    for (millis, text) in [(0, "0"), (5, "0.005"), (60_050, "60.05"), (15_123, "15.123")] {
        let mut metrics = Metrics::new().unwrap();
        metrics.set_scrape_duration("srv", millis);
        let line = format!("flexlm_scrape_duration_seconds{{server=\"srv\"}} {text}\n");
        assert!(metrics.render().ends_with(&line), "{millis}");
    }
}

#[test]
fn empty_metrics_render_without_panic() {
    let metrics = Metrics::new().unwrap();
    let rendered = metrics.render();
    // Families without samples are left out, so that a dashboard shows no data
    // where there is none.
    assert!(rendered.is_empty());
    assert_eq!(metrics.registry().gather().len(), 0);
}

#[test]
fn content_type_names_the_text_format() {
    assert_eq!(METRICS_CONTENT_TYPE, "text/plain; version=0.0.4; charset=utf-8");
}

#[test]
fn loop_collects_until_shutdown() {
    assert_eq!(next_action(LoopEvent::RoundBegins { shutdown: false }), LoopAction::Collect);
    assert_eq!(next_action(LoopEvent::RoundBegins { shutdown: true }), LoopAction::Stop);
    assert_eq!(next_action(LoopEvent::IntervalOver), LoopAction::BeginRound);
    for (sender_gone, shutdown, action) in [
        (false, false, LoopAction::BeginRound),
        (false, true, LoopAction::Stop),
        (true, false, LoopAction::Stop),
        (true, true, LoopAction::Stop),
    ] {
        assert_eq!(next_action(LoopEvent::Signalled { sender_gone, shutdown }), action);
    }
}
