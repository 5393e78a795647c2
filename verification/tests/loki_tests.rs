use bec_log_ingestor::config::{
    default_beamline_name, default_publish_interval, default_push_interval,
    default_watchdog_interval, BasicAuth, IngestorConfig, LokiConfig, MetricsConfig, RedisConfig,
    UrlPort,
};
use bec_log_ingestor::loki_push::{
    make_json_body, LokiPushBody, LokiPusher, PushAction, PushOutcome,
};
use bec_log_ingestor::models::log_message::{
    Elapsed, File, FloatBits, JsonText, LogLevel, LogMsg, LogRecord, NameId, Timestamp,
};
use bec_log_ingestor::models::{AckAction, RedisLogBatch};
use bec_log_ingestor::name_map::NameMap;
use serde_json::Value;

struct DummyLog {
    msg: String,
    level: String,
}

fn log_msg(d: DummyLog) -> LogMsg {
    LogMsg {
        service_name: "test_service".into(),
        text: "...".into(),
        record: LogRecord {
            elapsed: Elapsed { repr: "".into(), seconds: FloatBits(0.0f64.to_bits()) },
            exception: None,
            extra: JsonText("{}".into()),
            file: File { name: "".into(), path: "".into() },
            function: "".into(),
            level: LogLevel { icon: "".into(), name: d.level, no: 100 },
            line: 0,
            message: d.msg,
            module: "".into(),
            name: "".into(),
            process: NameId { name: "".into(), id: 0 },
            thread: NameId { name: "".into(), id: 0 },
            time: Timestamp { repr: "".into(), timestamp: FloatBits(0.0f64.to_bits()) },
        },
    }
}

fn hostname() -> String {
    gethostname::gethostname().into_string().unwrap_or("failed_to_parse_hostname".into())
}

fn config() -> IngestorConfig {
    IngestorConfig {
        redis: RedisConfig {
            url: UrlPort { url: "redis://localhost".into(), port: 6379 },
            chunk_size: 100,
            blocktime_millis: 1000,
            consumer_group: "log-ingestor".into(),
            consumer_id: "log-ingestor".into(),
        },
        loki: LokiConfig {
            url: "http://localhost/api/v1/push".into(),
            auth: BasicAuth { username: "test-loki".into(), password: "test-loki-password".into() },
            chunk_size: 100,
            beamline_name: default_beamline_name(),
            push_interval: default_push_interval(),
        },
        metrics: MetricsConfig {
            user_config_path: None,
            auth: BasicAuth { username: "m".into(), password: "p".into() },
            url: "http://localhost".into(),
            intervals: NameMap::new(),
            dynamic: NameMap::new(),
            watchdog_interval: default_watchdog_interval(),
            publish_interval: default_publish_interval(),
        },
        enable_metrics: true,
        enable_logging: true,
        hostname: hostname(),
    }
}

fn text(s: &str) -> Value {
    Value::String(s.to_string())
}

fn object(entries: Vec<(&str, Value)>) -> Value {
    let mut m = serde_json::Map::new();
    for (k, v) in entries {
        m.insert(k.to_string(), v);
    }
    Value::Object(m)
}

/// The JSON document the service sends, built from the library's push body.
fn body_json(body: &LokiPushBody) -> Value {
    let streams = body
        .streams
        .iter()
        .map(|s| {
            let values = s
                .values
                .iter()
                .map(|e| {
                    let stamp = ((f64::from_bits(e.time.timestamp.0) * 1_000_000_000.0) as i64).to_string();
                    Value::Array(vec![
                        Value::String(stamp),
                        text(&e.message),
                        object(vec![
                            ("file_name", text(&e.file_name)),
                            ("file_location", text(&e.file_location)),
                            ("function", text(&e.function)),
                            ("line", text(&e.line)),
                            ("module", text(&e.module)),
                            ("beamline_name", text(&e.beamline_name)),
                            ("proc_id", text(&e.proc_id)),
                            ("exception", serde_json::from_str(&e.exception.0).unwrap()),
                        ]),
                    ])
                })
                .collect();
            object(vec![
                (
                    "stream",
                    object(vec![
                        ("label", text(&s.label)),
                        ("hostname", text(&s.hostname)),
                        ("level", text(&s.level)),
                        ("service_name", text(&s.service_name)),
                    ]),
                ),
                ("values", Value::Array(values)),
            ])
        })
        .collect();
    object(vec![("streams", Value::Array(streams))])
}

#[test]
fn test_make_docs_values_empty() {
    let records: Vec<LogMsg> = vec![];
    let docs = make_json_body(&records, &config());
    assert_eq!(body_json(&docs).to_string(), "{\"streams\":[]}");
}

#[test]
fn test_make_docs_values_single() {
    let record = log_msg(DummyLog { msg: "hello".to_string(), level: "info".to_string() });
    let docs = make_json_body(&vec![record.clone()], &config());
    let hostname = hostname();
    assert_eq!(
        body_json(&docs).to_string(),
        format!(
            "{{\"streams\":[{{\"stream\":{{\"hostname\":\"{}\",\"label\":\"bec_logs\",\"level\":\"info\",\"service_name\":\"test_service\"}},\"values\":[[\"0\",\"hello\",{{\"beamline_name\":\"x99xa\",\"exception\":\"None\",\"file_location\":\"\",\"file_name\":\"\",\"function\":\"\",\"line\":\"0\",\"module\":\"\",\"proc_id\":\"0\"}}]]}}]}}",
            hostname
        )
    );
}

#[test]
fn test_make_docs_values_multiple() {
    let record1 = log_msg(DummyLog { msg: "a".to_string(), level: "info".to_string() });
    let record2 = log_msg(DummyLog { msg: "b".to_string(), level: "warn".to_string() });
    let docs = make_json_body(&vec![record1, record2], &config());
    let hostname = hostname();
    assert_eq!(
        body_json(&docs).to_string(),
        format!(
            "{{\"streams\":[{{\"stream\":{{\"hostname\":\"{}\",\"label\":\"bec_logs\",\"level\":\"info\",\"service_name\":\"test_service\"}},\"values\":[[\"0\",\"a\",{{\"beamline_name\":\"x99xa\",\"exception\":\"None\",\"file_location\":\"\",\"file_name\":\"\",\"function\":\"\",\"line\":\"0\",\"module\":\"\",\"proc_id\":\"0\"}}]]}},{{\"stream\":{{\"hostname\":\"{}\",\"label\":\"bec_logs\",\"level\":\"warn\",\"service_name\":\"test_service\"}},\"values\":[[\"0\",\"b\",{{\"beamline_name\":\"x99xa\",\"exception\":\"None\",\"file_location\":\"\",\"file_name\":\"\",\"function\":\"\",\"line\":\"0\",\"module\":\"\",\"proc_id\":\"0\"}}]]}}]}}",
            &hostname, &hostname
        )
    );
}

#[test]
fn streams_are_sorted_and_keep_record_order() {
    let mut msgs = Vec::new();
    for (msg, level, service) in [
        ("1", "warn", "b"),
        ("2", "info", "z"),
        ("3", "warn", "a"),
        ("4", "info", "z"),
        ("5", "ERROR", "z"),
    ] {
        let mut m = log_msg(DummyLog { msg: msg.into(), level: level.into() });
        m.service_name = service.into();
        msgs.push(m);
    }
    let body = make_json_body(&msgs, &config());
    let keys: Vec<(String, String, Vec<String>)> = body
        .streams
        .iter()
        .map(|s| {
            (s.level.clone(), s.service_name.clone(), s.values.iter().map(|e| e.message.clone()).collect())
        })
        .collect();
    assert_eq!(
        keys,
        vec![
            ("ERROR".to_string(), "z".to_string(), vec!["5".to_string()]),
            ("info".to_string(), "z".to_string(), vec!["2".to_string(), "4".to_string()]),
            ("warn".to_string(), "a".to_string(), vec!["3".to_string()]),
            ("warn".to_string(), "b".to_string(), vec!["1".to_string()]),
        ]
    );
}

#[test]
fn entry_fields_render_numbers_and_exception() {
    let mut m = log_msg(DummyLog { msg: "x".into(), level: "INFO".into() });
    m.record.line = 434;
    m.record.process.id = 222077;
    m.record.exception = Some(JsonText("{\"type\":\"ValueError\"}".into()));
    m.record.time.timestamp = FloatBits(1773154393.820180f64.to_bits());
    let body = make_json_body(&[m], &config());
    let e = &body.streams[0].values[0];
    assert_eq!(e.line, "434");
    assert_eq!(e.proc_id, "222077");
    assert_eq!(e.exception.0, "{\"type\":\"ValueError\"}");
    let json = body_json(&body).to_string();
    assert!(json.contains("\"1773154393820179968\""));
}

fn batch(ids: &[&str], msgs: &[&str]) -> RedisLogBatch {
    RedisLogBatch {
        entry_ids: ids.iter().map(|s| s.to_string()).collect(),
        records: msgs.iter().map(|m| log_msg(DummyLog { msg: m.to_string(), level: "info".into() })).collect(),
    }
}

#[test]
fn pusher_acknowledges_all_batch_ids_after_acceptance() {
    let config = config();
    let mut pusher = LokiPusher::new();
    assert!(!pusher.has_pending());
    pusher.load(vec![batch(&["1-0", "2-0"], &["a", "b"]), batch(&["3-0"], &["c"])], &config);
    assert!(pusher.has_pending());
    let body = pusher.pending_body().unwrap();
    assert_eq!(body.streams.len(), 1);
    assert_eq!(body.streams[0].values.len(), 3);
    let action = pusher.after_push(PushOutcome::Accepted);
    assert_eq!(
        action,
        PushAction::Acknowledge(AckAction::Ack(vec!["1-0".into(), "2-0".into(), "3-0".into()]))
    );
    assert!(!pusher.has_pending());
}

#[test]
fn pusher_gives_up_on_third_failure_in_a_row() {
    let config = config();
    let mut pusher = LokiPusher::new();
    pusher.load(vec![batch(&["1-0"], &["a"])], &config);
    assert_eq!(pusher.after_push(PushOutcome::Rejected), PushAction::RetryAfterPause);
    assert!(pusher.has_pending());
    assert_eq!(pusher.after_push(PushOutcome::Failed), PushAction::RetryAfterPause);
    assert_eq!(pusher.after_push(PushOutcome::Failed), PushAction::GiveUp);
}

#[test]
fn pusher_success_resets_failures() {
    let config = config();
    let mut pusher = LokiPusher::new();
    pusher.load(vec![batch(&["1-0"], &["a"])], &config);
    assert_eq!(pusher.after_push(PushOutcome::Failed), PushAction::RetryAfterPause);
    assert_eq!(pusher.after_push(PushOutcome::Failed), PushAction::RetryAfterPause);
    assert!(matches!(pusher.after_push(PushOutcome::Accepted), PushAction::Acknowledge(_)));
    pusher.load(vec![batch(&["2-0"], &["b"])], &config);
    assert_eq!(pusher.after_push(PushOutcome::Failed), PushAction::RetryAfterPause);
    assert_eq!(pusher.after_push(PushOutcome::Failed), PushAction::RetryAfterPause);
    assert_eq!(pusher.after_push(PushOutcome::Failed), PushAction::GiveUp);
}
