use bec_log_ingestor::config::{
    default_publish_interval, default_push_interval, default_watchdog_interval, BasicAuth,
    IngestorConfig, LokiConfig, MetricsConfig, RedisConfig, UrlPort,
};
use bec_log_ingestor::models::log_message::error_log_item;
use bec_log_ingestor::models::AckAction;
use bec_log_ingestor::name_map::NameMap;
use bec_log_ingestor::redis_logs::{
    after_acknowledgement, bad_data_error, bulk_payloads, code_message, consumer_group_outcome,
    endpoint_outcome, fatal_code, is_backoff_bounded, read_logs_result, records_for_batch,
    retryable_code, ConnectRetry, ProducerState, ReadLogsResult, RedisError, StreamEntry,
    StreamValue, BAD_DATA,
};

fn config() -> IngestorConfig {
    IngestorConfig {
        redis: RedisConfig {
            url: UrlPort { url: "redis://localhost".into(), port: 6379 },
            chunk_size: 10,
            blocktime_millis: 1000,
            consumer_group: "log-ingestor".into(),
            consumer_id: "log-ingestor".into(),
        },
        loki: LokiConfig {
            url: "".into(),
            auth: BasicAuth { username: "u".into(), password: "p".into() },
            chunk_size: 100,
            beamline_name: "x99xa".into(),
            push_interval: default_push_interval(),
        },
        metrics: MetricsConfig {
            user_config_path: None,
            auth: BasicAuth { username: "u".into(), password: "p".into() },
            url: "".into(),
            intervals: NameMap::new(),
            dynamic: NameMap::new(),
            watchdog_interval: default_watchdog_interval(),
            publish_interval: default_publish_interval(),
        },
        enable_metrics: false,
        enable_logging: true,
        hostname: "h".into(),
    }
}

#[test]
fn test_process_data_invalid_type() {
    let redis_val = StreamValue::Other;
    let result = bulk_payloads(&vec![redis_val]);
    assert!(result.is_err());
}

#[test]
fn bulk_payloads_of_binary_values() {
    let values = vec![StreamValue::BulkString(vec![1, 2]), StreamValue::BulkString(vec![])];
    assert_eq!(bulk_payloads(&values), Ok(vec![vec![1, 2], vec![]]));
    let mixed = vec![StreamValue::BulkString(vec![1]), StreamValue::Other];
    assert_eq!(bulk_payloads(&mixed), Err(RedisError::Retryable(BAD_DATA.into())));
    assert_eq!(bad_data_error(), RedisError::Retryable(BAD_DATA.into()));
}

#[test]
fn error_codes_are_described() {
    assert_eq!(code_message(&None), "Code: unknown");
    assert_eq!(retryable_code(&None), RedisError::Retryable("Code: unknown".into()));
    assert_eq!(
        fatal_code(&Some("NOAUTH".into())),
        RedisError::Fatal(("Code: NOAUTH".into(), Box::new(None)))
    );
}

#[test]
fn endpoint_and_group_outcomes() {
    let config = config();
    assert_eq!(endpoint_outcome(&Ok(true)), Ok(()));
    assert_eq!(
        endpoint_outcome(&Ok(false)),
        Err(RedisError::Retryable("No logging endpoint found".into()))
    );
    assert_eq!(
        endpoint_outcome(&Err(None)),
        Err(RedisError::Fatal(("Code: unknown".into(), Box::new(None))))
    );
    assert_eq!(consumer_group_outcome(&Ok(()), &config), Ok(()));
    assert_eq!(consumer_group_outcome(&Err(Some("BUSYGROUP".into())), &config), Ok(()));
    assert_eq!(
        consumer_group_outcome(&Err(Some("ERR".into())), &config),
        Err(RedisError::Fatal((
            "Failed to create Redis consumer group log-ingestor! Code: Some(\"ERR\")".into(),
            Box::new(None)
        )))
    );
    assert_eq!(
        consumer_group_outcome(&Err(None), &config),
        Err(RedisError::Fatal((
            "Failed to create Redis consumer group log-ingestor! Code: None".into(),
            Box::new(None)
        )))
    );
}

fn entry(id: &str, data: Option<StreamValue>) -> StreamEntry {
    StreamEntry { id: id.into(), data }
}

#[test]
fn read_reply_is_sorted_into_data_and_skipped() {
    let reply = vec![vec![
        entry("1-0", Some(StreamValue::BulkString(vec![9]))),
        entry("2-0", None),
        entry("3-0", Some(StreamValue::Other)),
        entry("4-0", None),
    ]];
    let r = read_logs_result(reply).unwrap();
    assert_eq!(
        r.entries,
        vec![("1-0".to_string(), StreamValue::BulkString(vec![9])), ("3-0".to_string(), StreamValue::Other)]
    );
    assert_eq!(r.skipped_ids, vec!["2-0".to_string(), "4-0".to_string()]);
    let empty = read_logs_result(vec![]).unwrap();
    assert!(empty.entries.is_empty() && empty.skipped_ids.is_empty());
}

#[test]
fn read_position_advances() {
    let mut p = ProducerState::new();
    assert_eq!(p.read_id(), "0");
    let step = p.on_read(ReadLogsResult {
        entries: vec![("1-0".into(), StreamValue::BulkString(vec![1])), ("2-0".into(), StreamValue::Other)],
        skipped_ids: vec![],
    });
    assert_eq!(p.read_id(), "2-0");
    let (values, ids) = step.batch.unwrap();
    assert_eq!(values, vec![StreamValue::BulkString(vec![1]), StreamValue::Other]);
    assert_eq!(ids, vec!["1-0".to_string(), "2-0".to_string()]);
    assert!(p.awaits_acknowledgement());
    assert_eq!(p.on_acknowledgement(AckAction::Ack(ids)), (vec!["1-0".to_string(), "2-0".to_string()], None));
    assert!(!p.awaits_acknowledgement());
    assert_eq!(p.read_id(), "2-0");
    let step = p.on_read(ReadLogsResult {
        entries: vec![("3-0".into(), StreamValue::Other)],
        skipped_ids: vec!["4-0".into()],
    });
    assert_eq!(p.read_id(), "4-0");
    assert_eq!(step.skipped_ids, vec!["4-0".to_string()]);
    assert!(p.awaits_acknowledgement());
    assert_eq!(
        p.on_acknowledgement(AckAction::AckAndStop(vec!["3-0".into()])),
        (
            vec!["3-0".to_string()],
            Some(RedisError::Fatal(("Non-retryable Loki response for buffered logs".into(), Box::new(None))))
        )
    );
    let step = p.on_read(ReadLogsResult { entries: vec![], skipped_ids: vec!["5-0".into()] });
    assert_eq!(p.read_id(), ">");
    assert!(step.batch.is_none());
    assert!(!p.awaits_acknowledgement());
    assert_eq!(step.skipped_ids, vec!["5-0".to_string()]);
}

#[test]
fn undecodable_batch_becomes_one_error_record() {
    let packed = vec![StreamValue::BulkString(b"test log".to_vec())];
    let records = records_for_batch(Err(bad_data_error()), packed);
    assert_eq!(records.len(), 1);
    assert_eq!(records[0].record.level.name, "ERROR");
    assert_eq!(records[0], error_log_item::<StreamValue>(vec![]).bec_codec.data.log_msg);
    let mut pack = error_log_item::<StreamValue>(vec![]);
    pack.bec_codec.data.log_msg.record.message = "fine".into();
    let records = records_for_batch(Ok(vec![pack.clone(), pack]), vec![]);
    assert_eq!(records.len(), 2);
    assert_eq!(records[1].record.message, "fine");
}

#[test]
fn stop_after_poison_acknowledgement() {
    assert_eq!(after_acknowledgement(&AckAction::Ack(vec![])), None);
    assert_eq!(
        after_acknowledgement(&AckAction::AckAndStop(vec!["1-0".into()])),
        Some(RedisError::Fatal(("Non-retryable Loki response for buffered logs".into(), Box::new(None))))
    );
}

#[test]
fn reconnection_backs_off_and_gives_up() {
    assert!(is_backoff_bounded(8, 300));
    assert!(!is_backoff_bounded(32, 1));
    assert!(!is_backoff_bounded(31, u64::MAX));
    let mut retry = ConnectRetry::new(3, 300);
    assert!(retry.may_attempt());
    assert_eq!(retry.record_failure(RedisError::Retryable("a".into())), 300);
    assert_eq!(retry.record_failure(RedisError::Retryable("b".into())), 600);
    assert!(retry.may_attempt());
    assert_eq!(retry.record_failure(RedisError::Retryable("Code: unknown".into())), 1200);
    assert!(!retry.may_attempt());
    assert_eq!(retry.give_up(), RedisError::Retryable("Code: unknown".into()));
    let mut retry = ConnectRetry::new(1, 10);
    retry.record_failure(RedisError::Retryable("No logging endpoint found".into()));
    assert!(!retry.may_attempt());
    assert_eq!(retry.give_up(), RedisError::Retryable("No logging endpoint found".into()));
    let retry = ConnectRetry::new(0, 10);
    assert!(!retry.may_attempt());
    assert_eq!(
        retry.give_up(),
        RedisError::Fatal(("Max retries exceeded".into(), Box::new(None)))
    );
}

#[test]
fn sent_and_skipped_entries_are_distinct() {
    let r = read_logs_result(vec![vec![
        entry("1-0", Some(StreamValue::Other)),
        entry("2-0", None),
        entry("3-0", Some(StreamValue::BulkString(vec![2]))),
    ]])
    .unwrap();
    for (id, _) in &r.entries {
        assert!(!r.skipped_ids.contains(id));
    }
    assert_eq!(r.skipped_ids, vec!["2-0".to_string()]);
}
