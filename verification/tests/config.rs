use eda_license_collector::config::{
    config_text, default_interval, default_lmgrd_port, default_metrics_port, default_retries,
    default_timeout, override_names, resolve_config_path, strip_bom, CollectorSection, Config,
    LicenseServerConfig, PrometheusSection,
};
use serde_yaml::Value;

fn number(section: &Value, key: &str, default: u64) -> u64 {
    section.get(key).map_or(default, |value| value.as_u64().unwrap())
}

fn text(section: &Value, key: &str) -> String {
    section.get(key).map_or(String::new(), |value| value.as_str().unwrap().to_owned())
}

/// Reads a configuration, with the library's defaults for what is missing.
fn config_of(yaml: &str) -> Config {
    let document: Value = serde_yaml::from_str(yaml).unwrap();
    let missing = Value::Null;
    let section = |key: &str| document.get(key).unwrap_or(&missing);
    let collector = section("collector");
    Config {
        license_servers: section("license_servers")
            .as_sequence()
            .unwrap()
            .iter()
            .map(|server| LicenseServerConfig {
                name: text(server, "name"),
                host: text(server, "host"),
                port: number(server, "port", default_lmgrd_port().into()) as u16,
                lmutil_path: text(server, "lmutil_path"),
                vendor_port: None,
            })
            .collect(),
        collector: CollectorSection {
            interval: number(collector, "interval", default_interval()),
            timeout: number(collector, "timeout", default_timeout()),
            retries: number(collector, "retries", default_retries().into()) as u32,
        },
        prometheus: PrometheusSection {
            port: number(section("prometheus"), "port", default_metrics_port().into()) as u16,
        },
    }
}

fn resolve(file_name: &str, existing: &[&str]) -> String {
    let requested = Some(file_name.to_owned());
    let present = override_names(&requested)
        .iter()
        .map(|name| existing.contains(&name.as_str()))
        .collect();
    resolve_config_path(&requested, &present).unwrap_or(file_name.to_owned())
}

#[test]
fn resolves_appended_local_override_first() {
    assert_eq!(resolve("config.yaml", &["config.yaml.local"]), "config.yaml.local");
    assert_eq!(
        resolve("config.yaml", &["config.yaml.local", "config.local.yaml"]),
        "config.yaml.local"
    );
}

#[test]
fn resolves_dotted_local_override() {
    assert_eq!(resolve("config.yaml", &["config.local.yaml"]), "config.local.yaml");
}

#[test]
fn keeps_requested_path_without_override() {
    assert_eq!(resolve("config.yaml", &[]), "config.yaml");
    assert_eq!(resolve("config.yaml", &["config.yaml"]), "config.yaml");
}

#[test]
fn override_names_follow_the_last_dot() {
    let names = |name: &str| override_names(&Some(name.to_owned()));
    assert_eq!(names("a.b.yaml"), vec!["a.b.yaml.local", "a.b.local.yaml"]);
    assert_eq!(names("config"), vec!["config.local"]);
    assert_eq!(names(".yaml"), vec![".yaml.local"]);
    assert_eq!(names("config."), vec!["config..local", "config.local."]);
    assert!(override_names(&None).is_empty());
    assert_eq!(resolve_config_path(&None, &Vec::new()), None);
}

#[test]
fn parses_project_config_shape() {
    let yaml = r#"
prometheus:
  port: 9091
  scrape_interval: 30s
license_servers:
  - name: "main-server"
    host: "192.168.1.100"
    port: 27000
    lmutil_path: ""
collector:
  interval: 30
  timeout: 15
  retries: 3
alerts:
  enabled: true
  high_usage_threshold: 0.90
"#;
    let config = config_of(yaml);
    assert_eq!(config.prometheus.port, 9091);
    assert_eq!(config.license_servers.len(), 1);
    assert_eq!(config.license_servers[0].name, "main-server");
    assert_eq!(config.license_servers[0].port, 27000);
    assert_eq!(config.interval(), 30);
    assert_eq!(config.retries(), 3);
}

#[test]
fn applies_defaults_when_sections_missing() {
    let yaml = "license_servers:\n  - name: srv\n    host: 10.0.0.1\n";
    let config = config_of(yaml);
    assert_eq!(config.license_servers[0].port, 27000);
    assert_eq!(config.prometheus.port, 9091);
    assert_eq!(config.timeout(), 15);
}

#[test]
fn limits_are_at_least_one() {
    let mut config = Config::default();
    config.collector = CollectorSection { interval: 0, timeout: 0, retries: 0 };
    assert_eq!(config.interval(), 1);
    assert_eq!(config.timeout(), 1);
    assert_eq!(config.retries(), 1);
    let copy = config.clone();
    assert_eq!(copy.collector.interval, 0);
}

#[test]
fn requested_port_overrides_the_configured_one() {
    let config = Config::default();
    assert_eq!(config.metrics_port(None), 9091);
    assert_eq!(config.metrics_port(Some(9092)), 9092);
}

#[test]
fn loads_config_with_utf8_bom_and_chinese_comments() {
    let mut bytes = vec![0xEF, 0xBB, 0xBF];
    bytes.extend_from_slice(
        "# 中文注释\nlicense_servers:\n  - name: \"主服务器\"\n    host: 10.0.0.1\n".as_bytes(),
    );
    let config = config_of(&config_text(&bytes));
    assert_eq!(config.license_servers[0].name, "主服务器");
    assert_eq!(config.license_servers[0].port, 27000);
}

#[test]
fn bytes_that_are_not_utf8_are_replaced() {
    assert_eq!(config_text(b"name: \xc4\xe3\n"), "name: \u{fffd}\u{fffd}\n");
    assert_eq!(config_text("name: 你\n".as_bytes()), "name: 你\n");
}

#[test]
fn only_a_whole_byte_order_mark_is_dropped() {
    assert_eq!(strip_bom(&[0xef, 0xbb, 0xbf, 1]), &[1]);
    assert_eq!(strip_bom(&[0xef, 0xbb]), &[0xef, 0xbb]);
    assert_eq!(strip_bom(&[1, 0xef, 0xbb, 0xbf]), &[1, 0xef, 0xbb, 0xbf]);
}
