use bec_log_ingestor::config::{
    assemble_config, default_beamline_name, default_blocktime_millis, default_chunk_size,
    default_consumer, default_publish_interval, default_push_interval, default_watchdog_interval,
    BasicAuth, IngestorConfig, LokiConfig, MetricInterval, MetricIntervalsConfig, MetricsConfig,
    RedisConfig, UrlPort,
};
use bec_log_ingestor::name_map::NameMap;

fn url_port_from(table: &toml::Table) -> UrlPort {
    UrlPort {
        url: table["url"].as_str().unwrap().to_string(),
        port: table["port"].as_integer().unwrap() as u16,
    }
}

fn text_or(table: &toml::Table, key: &str, default: String) -> String {
    table.get(key).map(|v| v.as_str().unwrap().to_string()).unwrap_or(default)
}

fn redis_from(table: &toml::Table) -> RedisConfig {
    RedisConfig {
        url: url_port_from(table["url"].as_table().unwrap()),
        chunk_size: table
            .get("chunk_size")
            .map(|v| v.as_integer().unwrap() as u16)
            .unwrap_or(default_chunk_size()),
        blocktime_millis: table
            .get("blocktime_millis")
            .map(|v| v.as_integer().unwrap() as usize)
            .unwrap_or(default_blocktime_millis()),
        consumer_group: text_or(table, "consumer_group", default_consumer()),
        consumer_id: text_or(table, "consumer_id", default_consumer()),
    }
}

fn auth_from(table: &toml::Table) -> BasicAuth {
    BasicAuth {
        username: table["username"].as_str().unwrap().to_string(),
        password: table["password"].as_str().unwrap().to_string(),
    }
}

fn interval_from(value: &toml::Value) -> MetricInterval {
    let table = value.as_table().unwrap();
    let (kind, n) = table.iter().next().unwrap();
    let n = n.as_integer().unwrap() as u64;
    match kind.as_str() {
        "Millis" => MetricInterval::Millis(n),
        "Secondly" => MetricInterval::Secondly(n),
        "Minutely" => MetricInterval::Minutely(n),
        "Hourly" => MetricInterval::Hourly(n),
        "Daily" => MetricInterval::Daily(n),
        "Weekly" => MetricInterval::Weekly(n),
        other => panic!("unknown interval {other}"),
    }
}

fn intervals_from(table: &toml::Table) -> NameMap<MetricInterval> {
    let mut intervals = NameMap::new();
    if let Some(t) = table.get("intervals") {
        for (name, value) in t.as_table().unwrap() {
            intervals.insert(name.clone(), interval_from(value));
        }
    }
    intervals
}

fn ingestor_from(table: &toml::Table) -> IngestorConfig {
    let loki = table["loki"].as_table().unwrap();
    let metrics = table["metrics"].as_table().unwrap();
    IngestorConfig {
        redis: redis_from(table["redis"].as_table().unwrap()),
        loki: LokiConfig {
            url: loki["url"].as_str().unwrap().to_string(),
            auth: auth_from(loki["auth"].as_table().unwrap()),
            chunk_size: default_chunk_size(),
            beamline_name: text_or(loki, "beamline_name", default_beamline_name()),
            push_interval: default_push_interval(),
        },
        metrics: MetricsConfig {
            user_config_path: None,
            auth: auth_from(metrics["auth"].as_table().unwrap()),
            url: metrics["url"].as_str().unwrap().to_string(),
            intervals: intervals_from(metrics),
            dynamic: NameMap::new(),
            watchdog_interval: default_watchdog_interval(),
            publish_interval: default_publish_interval(),
        },
        enable_metrics: true,
        enable_logging: true,
        hostname: "test-host".to_string(),
    }
}

#[test]
fn test_port() {
    let test_str = "
url = \"http://127.0.0.1\"
port = 12345
";
    let table: toml::Table = toml::from_str(test_str).unwrap();
    let url = url_port_from(&table);
    assert_eq!(url.full_url(), "http://127.0.0.1:12345")
}

#[test]
fn test_redis() {
    let test_str = "
[url]
url = \"http://127.0.0.1\"
port = 12345
";
    let table: toml::Table = toml::from_str(test_str).unwrap();
    let redis = redis_from(&table);
    assert_eq!(redis.url.full_url(), "http://127.0.0.1:12345")
}

#[test]
fn test_ingestor() {
    let test_str = "
[redis.url]
url = \"http://127.0.0.1\"
port = 12345

[loki]
auth = { username = \"test_user\", password = \"test_password\" }
url = \"http://127.0.0.1/api/v1/push\"

[metrics]
auth = { username = \"test_user\", password = \"test_password\" }
url = \"http://127.0.0.1\"
";
    let table: toml::Table = toml::from_str(test_str).unwrap();
    let config = ingestor_from(&table);
    assert_eq!(config.redis.url.full_url(), "http://127.0.0.1:12345");
    assert_eq!(config.loki.url, "http://127.0.0.1/api/v1/push");
    assert_eq!(config.loki.auth.username, "test_user");
    assert_eq!(config.loki.auth.password, "test_password");
}

#[test]
fn test_redis_defaults() {
    let test_str = "
[url]
url = \"http://localhost\"
port = 6379
";
    let table: toml::Table = toml::from_str(test_str).unwrap();
    let redis = redis_from(&table);
    assert_eq!(redis.chunk_size, 100);
    assert_eq!(redis.blocktime_millis, 1000);
    assert_eq!(redis.consumer_group, "log-ingestor");
    assert_eq!(redis.consumer_id, "log-ingestor");
}

#[test]
fn test_interval_parse() {
    let test_str = "
url = \"http://localhost\"

[intervals]
metric_1 = { Weekly = 1 }
metric_2 = { Secondly = 10 }
        ";
    let table: toml::Table = toml::from_str(test_str).unwrap();
    let intervals = MetricIntervalsConfig { intervals: intervals_from(&table) };
    assert_eq!(intervals.intervals.len(), 2);
    assert_eq!(
        intervals.intervals.get(&"metric_1".to_string()),
        Some(&MetricInterval::Weekly(1))
    );
    assert_eq!(
        intervals.intervals.get(&"metric_2".to_string()),
        Some(&MetricInterval::Secondly(10))
    );
}

#[test]
fn full_url_renders_port_zero_and_max() {
    let zero = UrlPort { url: "redis://h".to_string(), port: 0 };
    assert_eq!(zero.full_url(), "redis://h:0");
    let max = UrlPort { url: "".to_string(), port: 65535 };
    assert_eq!(max.full_url(), ":65535");
}

#[test]
fn defaults_have_documented_values() {
    assert_eq!(default_chunk_size(), 100);
    assert_eq!(default_blocktime_millis(), 1000);
    assert_eq!(default_consumer(), "log-ingestor");
    assert_eq!(default_beamline_name(), "x99xa");
    assert_eq!(default_watchdog_interval(), MetricInterval::Minutely(1));
}

#[test]
fn interval_periods_in_seconds_and_millis() {
    assert_eq!(MetricInterval::Millis(1500).period(), (1, 500));
    assert_eq!(MetricInterval::Secondly(15).period(), (15, 0));
    assert_eq!(MetricInterval::Minutely(2).period(), (120, 0));
    assert_eq!(MetricInterval::Hourly(2).period(), (7200, 0));
    assert_eq!(MetricInterval::Daily(1).period(), (86400, 0));
    assert_eq!(MetricInterval::Weekly(1).period(), (604800, 0));
    assert!(MetricInterval::Weekly(1).is_representable());
    assert!(!MetricInterval::Weekly(u64::MAX).is_representable());
    assert!(MetricInterval::Millis(u64::MAX).is_representable());
}

fn table_of(entries: &[(&str, MetricInterval)]) -> NameMap<MetricInterval> {
    let mut m = NameMap::new();
    for (name, interval) in entries {
        m.insert(name.to_string(), *interval);
    }
    m
}

#[test]
fn interval_for_metric_uses_configured_then_default_then_one_minute() {
    let table: toml::Table = toml::from_str(
        "
[redis.url]
url = \"u\"
port = 1
[loki]
auth = { username = \"a\", password = \"b\" }
url = \"l\"
[metrics]
auth = { username = \"a\", password = \"b\" }
url = \"m\"
[metrics.intervals]
cpu_usage_pc = { Secondly = 5 }
",
    )
    .unwrap();
    let config = ingestor_from(&table);
    let cpu = "cpu_usage_pc".to_string();
    let other = "deployment".to_string();
    assert_eq!(config.metrics.interval_for_metric(&cpu), MetricInterval::Secondly(5));
    assert_eq!(config.metrics.interval_for_metric(&other), MetricInterval::Secondly(60));
    assert_eq!(config.metrics.interval_for_metric_or(&other, Some(60)), MetricInterval::Secondly(60));
    assert_eq!(config.metrics.interval_for_metric_or(&other, Some(7)), MetricInterval::Secondly(7));
    assert_eq!(config.metrics.interval_for_metric_or(&cpu, Some(7)), MetricInterval::Secondly(5));
}

#[test]
fn assemble_config_prefers_command_line_then_referenced_then_main() {
    let table: toml::Table = toml::from_str(
        "
[redis.url]
url = \"u\"
port = 1
[loki]
auth = { username = \"test-loki\", password = \"test-loki-password\" }
url = \"l\"
[metrics]
auth = { username = \"a\", password = \"b\" }
url = \"m\"
[metrics.intervals]
cpu_usage_percent = { Secondly = 1 }
ram_usage_bytes = { Secondly = 2 }
new_metric = { Secondly = 53 }
",
    )
    .unwrap();
    let config = ingestor_from(&table);
    let referenced = MetricIntervalsConfig {
        intervals: table_of(&[
            ("cpu_usage_percent", MetricInterval::Secondly(20)),
            ("ram_usage_bytes", MetricInterval::Secondly(15)),
            ("disk", MetricInterval::Hourly(1)),
        ]),
    };
    let command_line = MetricIntervalsConfig {
        intervals: table_of(&[
            ("cpu_usage_percent", MetricInterval::Secondly(30)),
            ("net", MetricInterval::Daily(1)),
        ]),
    };
    let config = assemble_config(config, Some(referenced), Some(command_line));
    let get = |n: &str| config.metrics.intervals.get(&n.to_string()).copied();
    assert_eq!(config.loki.auth.password, "test-loki-password");
    assert_eq!(config.loki.auth.username, "test-loki");
    assert_eq!(config.metrics.intervals.len(), 5);
    assert_eq!(get("cpu_usage_percent"), Some(MetricInterval::Secondly(30)));
    assert_eq!(get("ram_usage_bytes"), Some(MetricInterval::Secondly(15)));
    assert_eq!(get("new_metric"), Some(MetricInterval::Secondly(53)));
    assert_eq!(get("disk"), Some(MetricInterval::Hourly(1)));
    assert_eq!(get("net"), Some(MetricInterval::Daily(1)));
}

#[test]
fn assemble_config_without_extra_files_keeps_main_intervals() {
    let table: toml::Table = toml::from_str(
        "
[redis.url]
url = \"u\"
port = 1
[loki]
auth = { username = \"a\", password = \"b\" }
url = \"l\"
[metrics]
auth = { username = \"a\", password = \"b\" }
url = \"m\"
[metrics.intervals]
x = { Millis = 10 }
",
    )
    .unwrap();
    let config = assemble_config(ingestor_from(&table), None, None);
    assert_eq!(config.metrics.intervals.len(), 1);
    assert_eq!(config.metrics.intervals.get(&"x".to_string()), Some(&MetricInterval::Millis(10)));
}

#[test]
fn credentials_are_not_shown() {
    let auth = BasicAuth { username: "test-loki".into(), password: "test-loki-password".into() };
    assert_eq!(auth.debug_text(), "Basic auth: provided");
}
