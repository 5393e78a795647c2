use bec_log_ingestor::config::{
    default_publish_interval, default_push_interval, default_watchdog_interval, BasicAuth,
    DynamicMetric, DynamicMetricDtype, IngestorConfig, LokiConfig, MetricInterval, MetricsConfig,
    RedisConfig, RedisReadType, UrlPort,
};
use bec_log_ingestor::metrics::{
    compress_write_request, deployment_labels, deployment_labels_at, metric_definitions, metrics_to_restart, missing_status_error,
    undecodable_status_error, MetricsPublisher, PublishAction, PublishOutcome,
};
use bec_log_ingestor::metrics_core::prometheus::{Label, Sample, SampleValue};
use bec_log_ingestor::metrics_core::{
    dynamic_metric_labels, interpret_polled_value, labels_from_hashmap, multiplex_samples,
    numerical_sample_now, parse_redis_value, parse_redis_value_at, parsing_error, polling_step,
    sample_from_reading, sample_now,
    series_for_output, static_metric_def, BuiltinMetric, MetricDefinition, MetricError,
    MetricLabels, MetricOutput, PollStep,
};
use bec_log_ingestor::models::log_message::{FloatBits, JsonText};
use bec_log_ingestor::models::status_message::{
    Info, ServiceInfo, ServiceInfoInternal, ServiceInfoMessagePack, ServiceStatus,
    ServiceStatusPack, ServiceStatusPackInternal, ServiceVersions, StatusMessage,
    StatusMessagePack, StatusMessagePackInternal,
};
use bec_log_ingestor::name_map::NameMap;
use bec_log_ingestor::parsing::{debug_bytes, is_float_text};

fn test_config(dynamic: NameMap<DynamicMetric>) -> IngestorConfig {
    IngestorConfig {
        redis: RedisConfig {
            url: UrlPort { url: "".into(), port: 12345 },
            chunk_size: 5,
            blocktime_millis: 5,
            consumer_group: "".into(),
            consumer_id: "".into(),
        },
        loki: LokiConfig {
            url: "".into(),
            auth: BasicAuth { username: "user".into(), password: "pass".into() },
            chunk_size: 5,
            beamline_name: "test".into(),
            push_interval: default_push_interval(),
        },
        metrics: MetricsConfig {
            user_config_path: None,
            auth: BasicAuth { username: "user".into(), password: "pass".into() },
            url: "".into(),
            intervals: NameMap::new(),
            dynamic,
            watchdog_interval: default_watchdog_interval(),
            publish_interval: default_publish_interval(),
        },
        enable_metrics: false,
        enable_logging: false,
        hostname: "host-1".into(),
    }
}

fn labels(entries: &[(&str, &str)]) -> MetricLabels {
    let mut m = NameMap::new();
    for (k, v) in entries {
        m.insert(k.to_string(), v.to_string());
    }
    m
}

fn label_pairs(ls: &[Label]) -> Vec<(String, String)> {
    ls.iter().map(|l| (l.name.clone(), l.value.clone())).collect()
}

#[test]
fn test_definitions() {
    let config = test_config(NameMap::new());
    let defs = metric_definitions(&config);
    if let MetricDefinition::Static(def) = defs.get(&"cpu_usage_pc".to_string()).unwrap() {
        assert_eq!(def.2, None);
    } else {
        panic!("wrong type!")
    }
    if let MetricDefinition::Static(def) = defs.get(&"deployment".to_string()).unwrap() {
        assert_eq!(def.2, Some(60));
    } else {
        panic!("wrong type!")
    }
}

#[test]
fn definitions_include_dynamic_metrics() {
    let mut dynamic = NameMap::new();
    dynamic.insert(
        "dummy_metric".to_string(),
        DynamicMetric {
            read_type: RedisReadType::PubSub,
            key: "info/dynamic_metrics/test".into(),
            dtype: DynamicMetricDtype::Float,
        },
    );
    dynamic.insert(
        "ram_used_bytes".to_string(),
        DynamicMetric {
            read_type: RedisReadType::Poll(MetricInterval::Minutely(15)),
            key: "k".into(),
            dtype: DynamicMetricDtype::Int,
        },
    );
    let config = test_config(dynamic);
    let defs = metric_definitions(&config);
    assert_eq!(defs.len(), 5);
    match defs.get(&"dummy_metric".to_string()).unwrap() {
        MetricDefinition::Dynamic(d) => assert_eq!(d.key, "info/dynamic_metrics/test"),
        _ => panic!("wrong type!"),
    }
    assert!(matches!(defs.get(&"ram_used_bytes".to_string()).unwrap(), MetricDefinition::Dynamic(_)));
    match defs.get(&"deployment".to_string()).unwrap() {
        MetricDefinition::Static((f, l, i)) => {
            assert_eq!(*f, BuiltinMetric::Deployment);
            assert_eq!(*i, Some(60));
            assert_eq!(l.get(&"__name__".to_string()), Some(&"deployment".to_string()));
            assert_eq!(l.get(&"hostname".to_string()), Some(&"host-1".to_string()));
        }
        _ => panic!("wrong type!"),
    }
    let finished = vec!["deployment".to_string(), "unknown".to_string(), "cpu_usage_pc".to_string()];
    assert_eq!(metrics_to_restart(&finished, &defs), vec!["deployment".to_string(), "cpu_usage_pc".to_string()]);
}

#[test]
fn test_sample_now() {
    let samp = sample_now(SampleValue::Float(FloatBits(0.0f64.to_bits()))).unwrap();
    let ts = chrono::Utc::now().timestamp_millis();
    assert!(samp.timestamp > (ts - 10_000));
    assert!(samp.timestamp >= 0); // timestamp should be from the last ten seconds...
    assert_eq!(samp.value, SampleValue::Float(FloatBits(0)));
}

#[test]
fn test_create_metric_def() {
    let config = test_config(NameMap::new());
    let def = static_metric_def(BuiltinMetric::CpuUsagePc, "test_metric".to_string(), (&config, None, None));
    assert_eq!(def.0, "test_metric")
}

#[test]
fn static_labels_carry_name_host_and_extras() {
    let config = test_config(NameMap::new());
    let extras: &[(&str, &str)] = &[("a", "1"), ("hostname", "other"), ("a", "2")];
    let (_, def) = static_metric_def(BuiltinMetric::RamAvailBytes, "ram".to_string(), (&config, Some(5), Some(extras)));
    match def {
        MetricDefinition::Static((f, l, i)) => {
            assert_eq!(f, BuiltinMetric::RamAvailBytes);
            assert_eq!(i, Some(5));
            assert_eq!(l.len(), 3);
            assert_eq!(l.get(&"a".to_string()), Some(&"2".to_string()));
            assert_eq!(l.get(&"hostname".to_string()), Some(&"other".to_string()));
            assert_eq!(l.get(&"__name__".to_string()), Some(&"ram".to_string()));
        }
        _ => panic!("wrong type!"),
    }
    let l = dynamic_metric_labels(&config, &"dyn".to_string());
    assert_eq!(label_pairs(&labels_from_hashmap(&l)), vec![
        ("hostname".to_string(), "host-1".to_string()),
        ("__name__".to_string(), "dyn".to_string()),
    ]);
}

fn dm(dtype: DynamicMetricDtype) -> DynamicMetric {
    DynamicMetric { read_type: RedisReadType::PubSub, key: "info/dynamic_metrics/test".into(), dtype }
}

#[test]
fn parse_string_value_becomes_labelled_one() {
    let r = parse_redis_value(&dm(DynamicMetricDtype::String), "hello".into()).unwrap();
    match r {
        (MetricOutput::SampleForMultiplexing((s, values)), Some(extra)) => {
            assert_eq!(s.value, SampleValue::Integer(1));
            assert!(values.is_empty());
            assert_eq!(extra.get(&"value".to_string()), Some(&"hello".to_string()));
        }
        _ => panic!("wrong output"),
    }
}

#[test]
fn parse_numbers_and_errors() {
    match parse_redis_value(&dm(DynamicMetricDtype::Int), "-42".into()).unwrap() {
        (MetricOutput::NumericalSample(s), None) => assert_eq!(s.value, SampleValue::Integer(-42)),
        _ => panic!("wrong output"),
    }
    match parse_redis_value(&dm(DynamicMetricDtype::Float), "9.9".into()).unwrap() {
        (MetricOutput::NumericalSample(s), None) => assert_eq!(s.value, SampleValue::FloatText("9.9".into())),
        _ => panic!("wrong output"),
    }
    assert_eq!(
        parse_redis_value(&dm(DynamicMetricDtype::Int), "4x".into()).unwrap_err(),
        MetricError::Retryable(
            "Could not parse dynamically defined metric at: info/dynamic_metrics/test as a Int value: \"4x\". Detail: invalid digit found in string"
                .into()
        )
    );
    assert_eq!(
        parse_redis_value(&dm(DynamicMetricDtype::Float), "".into()).unwrap_err(),
        MetricError::Retryable(
            "Could not parse dynamically defined metric at: info/dynamic_metrics/test as a Float value: \"\". Detail: cannot parse float from empty string"
                .into()
        )
    );
    assert_eq!(
        parse_redis_value(&dm(DynamicMetricDtype::Float), "1.2.3".into()).unwrap_err(),
        MetricError::Retryable(
            "Could not parse dynamically defined metric at: info/dynamic_metrics/test as a Float value: \"1.2.3\". Detail: invalid float literal"
                .into()
        )
    );
    assert!(parse_redis_value(&dm(DynamicMetricDtype::Int), "99999999999999999999".into()).is_err());
    let int_error = |text: &str| match parse_redis_value(&dm(DynamicMetricDtype::Int), text.into()) {
        Err(MetricError::Retryable(m)) => m,
        _ => panic!("expected a parse error"),
    };
    let detail = |m: String| m.split(". Detail: ").nth(1).unwrap().to_string();
    assert_eq!(detail(int_error("")), "cannot parse integer from empty string");
    assert_eq!(detail(int_error("-")), "invalid digit found in string");
    assert_eq!(detail(int_error("+-1")), "invalid digit found in string");
    assert_eq!(detail(int_error("99999999999999999999")), "number too large to fit in target type");
    assert_eq!(detail(int_error("-99999999999999999999")), "number too small to fit in target type");
    assert_eq!(detail(int_error("99999999999999999999x")), "number too large to fit in target type");
    assert_eq!(detail(int_error("12x99999999999999999999")), "invalid digit found in string");
    assert_eq!(
        int_error("4x"),
        format!(
            "Could not parse dynamically defined metric at: info/dynamic_metrics/test as a Int value: {:?}. Detail: {}",
            "4x",
            "4x".parse::<i64>().unwrap_err()
        )
    );
}

#[test]
fn float_text_agrees_with_rust_parsing() {
    let cases = [
        "0", "1", "-1", "+1.5", ".5", "5.", ".", "", "e5", "1e5", "1E-5", "1e+", "1e", "inf", "-Infinity",
        "NaN", "nan", "infinit", "infinityy", "1_0", " 1", "1 ", "0x10", "1.5e3.2", "+", "-.e1", "3.14159",
        "1e400", "INF", "iNf", "++1", "-0.0",
    ];
    for c in cases {
        assert_eq!(is_float_text(&c.to_string()), c.parse::<f64>().is_ok(), "{c:?}");
    }
}

#[test]
fn polled_values_are_interpreted() {
    let config = dm(DynamicMetricDtype::Int);
    assert_eq!(
        interpret_polled_value(&config, &vec![]).unwrap_err(),
        MetricError::Retryable("No value found at dynamically defined key: \"info/dynamic_metrics/test\"".into())
    );
    match interpret_polled_value(&config, &b"214".to_vec()).unwrap() {
        (MetricOutput::NumericalSample(s), None) => assert_eq!(s.value, SampleValue::Integer(214)),
        _ => panic!("wrong output"),
    }
    let bad = vec![0xff, 0x31];
    let expected_detail = std::str::from_utf8(&bad).unwrap_err().to_string();
    assert_eq!(
        interpret_polled_value(&config, &bad).unwrap_err(),
        MetricError::Retryable(format!(
            "Could not parse dynamically defined metric at: info/dynamic_metrics/test as a Int value: [255, 49]. Detail: {expected_detail}"
        ))
    );
    assert_eq!(debug_bytes(&[]), "[]");
    assert_eq!(debug_bytes(&[1, 22, 255]), format!("{:?}", vec![1u8, 22, 255]));
}

#[test]
fn parsing_error_message() {
    let e = parsing_error(&dm(DynamicMetricDtype::String), &"\"v\"".to_string(), &"d".to_string());
    assert_eq!(
        e,
        MetricError::Retryable(
            "Could not parse dynamically defined metric at: info/dynamic_metrics/test as a String value: \"v\". Detail: d".into()
        )
    );
}

#[test]
fn series_carry_sample_and_labels() {
    let sample = Sample { value: SampleValue::Integer(3), timestamp: 5678 };
    let ts = multiplex_samples(sample.clone(), labels(&[("__name__", "m"), ("value", "x")]), vec!["x".into()]);
    assert_eq!(ts.len(), 1);
    assert_eq!(ts[0].samples, vec![sample.clone()]);
    assert_eq!(label_pairs(&ts[0].labels), vec![
        ("__name__".to_string(), "m".to_string()),
        ("value".to_string(), "x".to_string()),
    ]);
    let ts = series_for_output(MetricOutput::NumericalSample(sample.clone()), labels(&[("a", "b")]));
    assert_eq!(ts[0].samples, vec![sample]);
    assert_eq!(label_pairs(&ts[0].labels), vec![("a".to_string(), "b".to_string())]);
}

#[test]
fn polling_steps_follow_the_result() {
    let base = labels(&[("__name__", "m"), ("hostname", "h")]);
    match polling_step(Err(MetricError::Fatal("Finished".into())), &base) {
        PollStep::Stop(m) => assert_eq!(m, "Finished"),
        _ => panic!("wrong step"),
    }
    match polling_step(Err(MetricError::Retryable("Busy".into())), &base) {
        PollStep::Skip(m) => assert_eq!(m, "Busy"),
        _ => panic!("wrong step"),
    }
    let out = numerical_sample_now(SampleValue::Integer(1)).unwrap();
    match polling_step(Ok((out, Some(labels(&[("hostname", "x"), ("v", "1")])))), &base) {
        PollStep::Emit(ts) => {
            assert_eq!(ts.len(), 1);
            assert_eq!(label_pairs(&ts[0].labels), vec![
                ("__name__".to_string(), "m".to_string()),
                ("hostname".to_string(), "x".to_string()),
                ("v".to_string(), "1".to_string()),
            ]);
        }
        _ => panic!("wrong step"),
    }
}

fn status(info: Info) -> StatusMessagePack {
    StatusMessagePack {
        bec_codec: StatusMessagePackInternal {
            encoder_name: "BECMessage".into(),
            type_tag: "StatusMessage".into(),
            data: StatusMessage {
                info,
                metadata: JsonText("{}".into()),
                name: "DeviceServer".into(),
                status: ServiceStatusPack {
                    bec_codec: ServiceStatusPackInternal {
                        encoder_name: "Enum".into(),
                        type_tag: "BECStatus".into(),
                        data: ServiceStatus::RUNNING,
                    },
                },
            },
        },
    }
}

#[test]
fn deployment_labels_from_versions() {
    let info = Info::ServiceInfo(ServiceInfoMessagePack {
        bec_codec: ServiceInfoInternal {
            encoder_name: "BaseModel".into(),
            type_tag: "ServiceInfo".into(),
            data: ServiceInfo {
                hostname: "susuwatari".into(),
                timestamp: None,
                user: "david".into(),
                versions: Some(ServiceVersions {
                    bec_ipython_client: "3.91.0".into(),
                    bec_lib: "3.91.1".into(),
                    bec_server: "3.91.2".into(),
                    bec_widgets: "2.45.13".into(),
                }),
            },
        },
    });
    match deployment_labels(&status(info)).unwrap() {
        (MetricOutput::NumericalSample(s), Some(l)) => {
            assert_eq!(s.value, SampleValue::Integer(1));
            assert_eq!(l.get(&"bec_server".to_string()), Some(&"3.91.2".to_string()));
            assert_eq!(l.get(&"bec_lib".to_string()), Some(&"3.91.1".to_string()));
            assert_eq!(l.get(&"bec_ipython_client".to_string()), Some(&"3.91.0".to_string()));
            assert_eq!(l.get(&"bec_widgets".to_string()), Some(&"2.45.13".to_string()));
        }
        _ => panic!("wrong output"),
    }
    match deployment_labels(&status(Info::Object(JsonText("{}".into())))) {
        Err(MetricError::Fatal(m)) => {
            assert!(m.starts_with("Status update ") && m.ends_with(" contained malformed ServiceInfo"));
            assert_eq!(m, "Status update Object({}) contained malformed ServiceInfo");
        }
        _ => panic!("wrong output"),
    }
    assert_eq!(
        deployment_labels(&status(Info::Object(JsonText("{\"a\":1}".into())))).unwrap_err(),
        MetricError::Fatal("Status update Object({\"a\": Number(1)}) contained malformed ServiceInfo".into())
    );
    assert_eq!(
        missing_status_error(),
        MetricError::Retryable("No status update found at user/services/status/DeviceServer".into())
    );
    assert_eq!(
        undecodable_status_error(&"eof".to_string()),
        MetricError::Retryable("Failed to parse status message from redis: eof".into())
    );
}

#[test]
fn publisher_stops_at_fourth_failure() {
    let mut p = MetricsPublisher::new();
    assert_eq!(p.after_publish(PublishOutcome::Failed), PublishAction::RetryAfterPause);
    assert_eq!(p.after_publish(PublishOutcome::Failed), PublishAction::RetryAfterPause);
    assert_eq!(p.after_publish(PublishOutcome::Answered), PublishAction::Continue);
    for _ in 0..3 {
        assert_eq!(p.after_publish(PublishOutcome::Failed), PublishAction::RetryAfterPause);
    }
    assert_eq!(p.after_publish(PublishOutcome::Failed), PublishAction::Exit);
}

#[test]
fn samples_carry_the_clock_reading_in_milliseconds() {
    let s = sample_from_reading(SampleValue::Integer(7), Some((1_773_154_393, 820_179_968))).unwrap();
    assert_eq!(s, Sample { value: SampleValue::Integer(7), timestamp: 1_773_154_393_820 });
    let s = sample_from_reading(SampleValue::Integer(7), Some((0, 999_999))).unwrap();
    assert_eq!(s.timestamp, 0);
    let clock = MetricError::Retryable(
        "System clock reads before the Unix epoch or beyond the dates it can represent".into(),
    );
    assert_eq!(sample_from_reading(SampleValue::Integer(7), None), Err(clock.clone()));
    assert_eq!(sample_from_reading(SampleValue::Integer(7), Some((u64::MAX, 0))), Err(clock.clone()));
    match parse_redis_value_at(&dm(DynamicMetricDtype::String), "".into(), Some((2, 5_000_000))).unwrap() {
        (MetricOutput::SampleForMultiplexing((s, values)), Some(extra)) => {
            assert_eq!(s, Sample { value: SampleValue::Integer(1), timestamp: 2005 });
            assert!(values.is_empty());
            assert_eq!(extra.get(&"value".to_string()), Some(&"".to_string()));
        }
        _ => panic!("wrong output"),
    }
    match parse_redis_value_at(&dm(DynamicMetricDtype::Int), "-3".into(), Some((1, 0))).unwrap() {
        (MetricOutput::NumericalSample(s), None) => {
            assert_eq!(s, Sample { value: SampleValue::Integer(-3), timestamp: 1000 })
        }
        _ => panic!("wrong output"),
    }
    assert_eq!(parse_redis_value_at(&dm(DynamicMetricDtype::Float), "1.5".into(), None).unwrap_err(), clock);
    assert!(parse_redis_value_at(&dm(DynamicMetricDtype::Float), "x".into(), None).unwrap_err()
        != MetricError::Retryable("System clock reads before the Unix epoch or beyond the dates it can represent".into()));
}

#[test]
fn deployment_sample_carries_the_clock_reading() {
    let info = Info::ServiceInfo(ServiceInfoMessagePack {
        bec_codec: ServiceInfoInternal {
            encoder_name: "BaseModel".into(),
            type_tag: "ServiceInfo".into(),
            data: ServiceInfo {
                hostname: "h".into(),
                timestamp: None,
                user: "u".into(),
                versions: Some(ServiceVersions {
                    bec_ipython_client: "1".into(),
                    bec_lib: "2".into(),
                    bec_server: "3".into(),
                    bec_widgets: "4".into(),
                }),
            },
        },
    });
    match deployment_labels_at(&status(info), Some((10, 250_000_000))).unwrap() {
        (MetricOutput::NumericalSample(s), Some(_)) => {
            assert_eq!(s, Sample { value: SampleValue::Integer(1), timestamp: 10_250 })
        }
        _ => panic!("wrong output"),
    }
    assert_eq!(
        deployment_labels_at(&status(Info::Object(JsonText("{\"b\":\"x\"}".into()))), None).unwrap_err(),
        MetricError::Fatal("Status update Object({\"b\": String(\"x\")}) contained malformed ServiceInfo".into())
    );
}

#[test]
fn publication_body_is_snappy_compressed() {
    let payload = b"metrics metrics metrics metrics metrics".to_vec();
    let compressed = compress_write_request(&payload).unwrap();
    assert_eq!(compressed, snap::raw::Encoder::new().compress_vec(&payload).unwrap());
    assert_ne!(compressed, payload);
    assert_eq!(snap::raw::Decoder::new().decompress_vec(&compressed).unwrap(), payload);
    assert_eq!(compress_write_request(&[]), Some(vec![0]));
}
