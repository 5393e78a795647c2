use bec_log_ingestor::models::log_message::{error_log_item, FloatBits, LogMessagePack};
use bec_log_ingestor::models::status_message::{
    BecStatus, ConversionError, ServiceStatus,
};
use bec_log_ingestor::models::dynamic_metric_message::{
    bool_dynamic_metric_value_type_name, float_dynamic_metric_value_type_name,
    int_dynamic_metric_value_type_name, str_dynamic_metric_value_type_name,
    DynamicMetricMessageMetricsValue, IntDynamicMetricValue,
};
use bec_log_ingestor::models::AckAction;
use bec_log_ingestor::redis_logs::{extract_records, StreamValue};

#[test]
fn test_error_log_item_contents() {
    let err_item = error_log_item::<StreamValue>(vec![]);
    assert_eq!(err_item.bec_codec.data.log_msg.record.level.name, "ERROR");
    assert_eq!(
        err_item.bec_codec.data.log_msg.record.message,
        "Error in ingestor processing log messages from Redis! Check log ingestor output for details."
    );
    assert_eq!(err_item.bec_codec.data.log_msg.record.level.no, 100);
    assert_eq!(err_item.bec_codec.data.log_msg.record.time.timestamp, FloatBits(0));
    assert_eq!(err_item.bec_codec.data.metadata.0, "{}");
}

#[test]
fn test_extract_records() {
    let mut pack = error_log_item::<StreamValue>(vec![]);
    pack.bec_codec.data.log_msg.record.message = "test".to_string();
    let records = extract_records(&vec![pack.clone()]);
    assert_eq!(records.len(), 1);
    assert_eq!(records[0].record.message, "test");
}

#[test]
fn test_extract_records_empty() {
    let records = extract_records(&Vec::<LogMessagePack>::new());
    assert!(records.is_empty());
}

#[test]
fn ack_action_ids_and_stop() {
    let ack = AckAction::Ack(vec!["1-0".into()]);
    let stop = AckAction::AckAndStop(vec!["2-0".into(), "3-0".into()]);
    assert_eq!(ack.entry_ids(), &["1-0".to_string()]);
    assert_eq!(stop.entry_ids(), &["2-0".to_string(), "3-0".to_string()]);
    assert!(!ack.should_stop());
    assert!(stop.should_stop());
}

#[test]
fn bec_status_accepts_exactly_the_four_statuses() {
    for v in [2i64, 1, 0, -1] {
        let s = BecStatus::try_from(v).unwrap();
        assert_eq!(s.value(), v);
        assert_eq!(i64::from(s), v);
    }
    for v in [3i64, -2, 100, i64::MIN] {
        assert_eq!(BecStatus::try_from(v), Err(ConversionError("invalid value")));
    }
    assert_eq!(ConversionError("invalid value").message(), "invalid value");
}

#[test]
fn service_status_numbers_round_trip() {
    for s in [ServiceStatus::RUNNING, ServiceStatus::BUSY, ServiceStatus::IDLE, ServiceStatus::ERROR] {
        assert_eq!(ServiceStatus::from_value(s.value()), Some(s));
    }
    assert_eq!(ServiceStatus::RUNNING.value(), 2);
    assert_eq!(ServiceStatus::ERROR.value(), -1);
    assert_eq!(ServiceStatus::from_value(5), None);
}

#[test]
fn dynamic_metric_kind_tags() {
    assert_eq!(bool_dynamic_metric_value_type_name(), "bool");
    assert_eq!(float_dynamic_metric_value_type_name(), "float");
    assert_eq!(int_dynamic_metric_value_type_name(), "int");
    assert_eq!(str_dynamic_metric_value_type_name(), "str");
    let v: DynamicMetricMessageMetricsValue =
        IntDynamicMetricValue { type_tag: "int".into(), value: 214 }.into();
    assert_eq!(
        v,
        DynamicMetricMessageMetricsValue::IntDynamicMetricValue(IntDynamicMetricValue {
            type_tag: "int".into(),
            value: 214
        })
    );
}
