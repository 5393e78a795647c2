//! The core of the metrics service: what a metric function yields, how its result becomes
//! time series with labels, and how values read for dynamically defined metrics are parsed.

pub mod prometheus;

use vstd::prelude::*;
use vstd::string::*;
use crate::config::{DynamicMetric, DynamicMetricDtype, IngestorConfig};
use crate::name_map::{lemma_text_view, text_view, NameMap};
use crate::parsing::{
    byte_list_text, debug_bytes, debug_str, debug_text, float_error_text, float_error_message,
    int_parse_error_text, int_text_value, is_float_text, parse_i64, utf8_text, utf8_error_text,
    valid_float_text,
};
use vstd::utf8::{decode_utf8, valid_utf8};
use self::prometheus::{Label, Sample, SampleValue, TimeSeries};

verus! {

/// A failure of a metric function: worth trying again at the next tick, or fatal to the
/// metric's task.
#[derive(Debug, Clone, PartialEq)]
pub enum MetricError {
    Retryable(String),
    Fatal(String),
}

/// What a metric function yields: one sample, or a sample to be spread over the possible
/// values of a label.
#[derive(Debug)]
pub enum MetricOutput {
    NumericalSample(Sample),
    SampleForMultiplexing((Sample, Vec<String>)),
}

/// The labels of a metric, by name.
pub type MetricLabels = NameMap<String>;

/// A metric's own default interval, in seconds.
pub type MetricDefaultIntervalSeconds = Option<u32>;

/// The result of one call of a metric function: the output and extra labels, or an error.
pub type MetricFuncResult = Result<(MetricOutput, Option<MetricLabels>), MetricError>;

/// The metrics built into the service.
#[derive(Clone, Copy, Debug, PartialEq, Eq, Structural)]
pub enum BuiltinMetric {
    /// The versions of the BEC deployment, read from the device server's status.
    Deployment,
    /// The CPU usage of the host, in percent.
    CpuUsagePc,
    /// The memory in use on the host, in bytes.
    RamUsedBytes,
    /// The memory available on the host, in bytes.
    RamAvailBytes,
}

/// A built-in metric with its labels and its own default interval.
pub type StaticMetricDefinition = (BuiltinMetric, MetricLabels, MetricDefaultIntervalSeconds);

/// How a metric is produced: by a built-in function, or from a Redis key named in the
/// configuration.
pub enum MetricDefinition {
    Static(StaticMetricDefinition),
    Dynamic(DynamicMetric),
}

/// The metrics to run, by name.
pub type MetricDefinitions = NameMap<MetricDefinition>;


/// A reading of the system clock; the library only carries it.
#[verifier::external_type_specification]
#[verifier::external_body]
pub struct ExSystemTime(std::time::SystemTime);

/// Reads the system clock with `std::time::SystemTime::now()`. Nothing is promised of the
/// reading.
#[verifier::external_body]
fn clock_now() -> std::time::SystemTime {
    std::time::SystemTime::now()
}

/// The time from the Unix epoch to `t`, from `SystemTime::duration_since(UNIX_EPOCH)`, as
/// whole seconds and the nanoseconds past them; `None` when `t` is earlier than the epoch.
/// The nanoseconds are less than one billion, as `Duration::subsec_nanos` documents;
/// nothing else is promised, since a clock reading is no function of the program's values.
#[verifier::external_body]
fn since_epoch(t: &std::time::SystemTime) -> (r: Option<(u64, u32)>)
    ensures
        r matches Some((_, nanos)) ==> nanos < 1_000_000_000,
{
    match t.duration_since(std::time::UNIX_EPOCH) {
        Ok(d) => Some((d.as_secs(), d.subsec_nanos())),
        Err(_) => None,
    }
}

/// The last second chrono is sure to represent for this library: 8 * 10^12 seconds after the
/// Unix epoch, before the year 255,000 and well inside chrono's last date (31 December
/// 262142).
pub const LAST_REPRESENTED_SECOND: u64 = 8_000_000_000_000;

/// The instant `secs` seconds and `nanos` nanoseconds after the Unix epoch in milliseconds:
/// chrono's `DateTime::from_timestamp(secs, nanos)`, read with `timestamp_millis()`. chrono
/// returns `None` only when the day of the instant lies outside its dates (years -262143 to
/// 262142) or the nanoseconds are out of range; so it returns a value for every instant from
/// the epoch to `LAST_REPRESENTED_SECOND`. The milliseconds are
/// `secs * 1000 + nanos / 1_000_000`.
#[verifier::external_body]
fn timestamp_millis(secs: i64, nanos: u32) -> (r: Option<i64>)
    requires
        nanos < 1_000_000_000,
    ensures
        0 <= secs <= LAST_REPRESENTED_SECOND ==> r is Some,
        r matches Some(m) ==> m == secs * 1000 + nanos / 1_000_000,
{
    match chrono::DateTime::from_timestamp(secs, nanos) {
        Some(t) => Some(t.timestamp_millis()),
        None => None,
    }
}

/// A clock reading that a sample can be timestamped with: taken after the Unix epoch and
/// within the dates chrono represents.
pub open spec fn reading_in_range(reading: Option<(u64, u32)>) -> bool {
    reading matches Some((secs, nanos)) && secs <= LAST_REPRESENTED_SECOND && nanos < 1_000_000_000
}

/// `s` carries `value` and is timestamped with the milliseconds of the clock reading.
pub open spec fn stamped(s: Sample, value: SampleValue, reading: Option<(u64, u32)>) -> bool {
    &&& s.value == value
    &&& stamped_at(s, reading)
}

/// `s` is timestamped with the milliseconds of the clock reading.
pub open spec fn stamped_at(s: Sample, reading: Option<(u64, u32)>) -> bool {
    reading matches Some((secs, nanos)) && s.timestamp == secs * 1000 + nanos / 1_000_000
}

/// The message for a sample that cannot be timestamped because the clock cannot be read.
pub open spec fn clock_error_text() -> Seq<char> {
    "System clock reads before the Unix epoch or beyond the dates it can represent"@
}

/// `r` is the retryable error for a clock that cannot be read.
pub open spec fn is_clock_failure<T>(r: Result<T, MetricError>) -> bool {
    r matches Err(MetricError::Retryable(m)) && m@ == clock_error_text()
}

/// The retryable error for a clock that cannot be read.
pub fn clock_error() -> (e: MetricError)
    ensures
        e matches MetricError::Retryable(m) && m@ == clock_error_text(),
{
    MetricError::Retryable(
        String::from_str("System clock reads before the Unix epoch or beyond the dates it can represent"),
    )
}

/// A sample of `value` timestamped with a clock reading (whole seconds since the Unix epoch
/// and the nanoseconds past them): its milliseconds since the epoch. A reading that is absent
/// or beyond the dates chrono represents gives the clock error; a reading in range always
/// gives the sample.
pub fn sample_from_reading(value: SampleValue, reading: Option<(u64, u32)>) -> (r: Result<
    Sample,
    MetricError,
>)
    ensures
        r matches Ok(s) ==> stamped(s, value, reading),
        reading_in_range(reading) ==> r is Ok,
        r is Err ==> is_clock_failure(r),
{
    match reading {
        Some((secs, nanos)) => {
            if nanos >= 1_000_000_000 || secs > i64::MAX as u64 {
                return Err(clock_error());
            }
            match timestamp_millis(secs as i64, nanos) {
                Some(timestamp) => Ok(Sample { timestamp, value }),
                None => Err(clock_error()),
            }
        },
        None => Err(clock_error()),
    }
}

/// The current reading of the system clock, as whole seconds since the Unix epoch and the
/// nanoseconds past them; `None` when the clock reads earlier than the epoch.
pub(crate) fn clock_reading() -> (r: Option<(u64, u32)>)
    ensures
        r matches Some((_, nanos)) ==> nanos < 1_000_000_000,
{
    let now = clock_now();
    since_epoch(&now)
}

/// A sample of `value` taken now: timestamped with the system clock's reading in
/// milliseconds, as `sample_from_reading` does, or the clock error.
pub fn sample_now(value: SampleValue) -> (r: Result<Sample, MetricError>)
    ensures
        r matches Ok(s) ==> s.value == value && s.timestamp >= 0,
        r is Err ==> is_clock_failure(r),
{
    let reading = clock_reading();
    sample_from_reading(value, reading)
}

/// A single sample of `value` taken now; a retryable error when the clock cannot be read.
pub fn numerical_sample_now(value: SampleValue) -> (r: Result<MetricOutput, MetricError>)
    ensures
        r matches Ok(o) ==> o matches MetricOutput::NumericalSample(s) && s.value == value && s.timestamp
            >= 0,
        r is Err ==> is_clock_failure(r),
{
    match sample_now(value) {
        Ok(s) => Ok(MetricOutput::NumericalSample(s)),
        Err(e) => Err(e),
    }
}

/// `labels` has one label per entry of the map, with the entry's name and value, and no
/// name twice.
pub open spec fn labels_describe(labels: Seq<Label>, m: Map<Seq<char>, Seq<char>>) -> bool {
    &&& forall|i: int| 0 <= i < labels.len() ==> #[trigger] m.contains_key(labels[i].name@) && m[labels[i].name@] == labels[i].value@
    &&& forall|k: Seq<char>| #[trigger] m.contains_key(k) ==> exists|i: int| 0 <= i < labels.len() && #[trigger] labels[i].name@ == k
    &&& forall|i: int, j: int| 0 <= i < labels.len() && 0 <= j < labels.len() && i != j ==> #[trigger] labels[i].name@ != #[trigger] labels[j].name@
}

/// The labels of a label map, one per entry, in the map's order.
pub fn labels_from_hashmap(labels: &MetricLabels) -> (r: Vec<Label>)
    ensures
        labels_describe(r@, text_view(labels@)),
        r@.len() == labels@.len(),
        forall|q: int| 0 <= q < r@.len() ==> #[trigger] r@[q].name@ == labels.entries()[q].0@ && r@[q].value@
            == labels.entries()[q].1@,
{
    let n = labels.len();
    let mut r: Vec<Label> = Vec::new();
    let mut i: usize = 0;
    while i < n
        invariant
            n == labels.entries().len(),
            n == labels@.len(),
            crate::name_map::names_unique(labels.entries()),
            forall|q: int| 0 <= q < labels.entries().len() ==> {
                &&& #[trigger] labels@.contains_key(labels.entries()[q].0@)
                &&& labels@[labels.entries()[q].0@] == labels.entries()[q].1
            },
            forall|k: Seq<char>| #[trigger] labels@.contains_key(k) ==> exists|q: int|
                0 <= q < labels.entries().len() && #[trigger] labels.entries()[q].0@ == k,
            i <= n,
            r@.len() == i,
            forall|q: int| 0 <= q < i ==> #[trigger] r@[q].name@ == labels.entries()[q].0@ && r@[q].value@
                == labels.entries()[q].1@,
        decreases n - i,
    {
        let name = labels.name_at(i).clone();
        let value = labels.value_at(i).clone();
        r.push(Label { name, value });
        i = i + 1;
    }
    proof {
        let m = text_view(labels@);
        assert forall|q: int| 0 <= q < r@.len() implies #[trigger] m.contains_key(r@[q].name@) && m[r@[q].name@]
            == r@[q].value@ by {
            assert(labels@.contains_key(labels.entries()[q].0@));
        }
        assert forall|k: Seq<char>| #[trigger] m.contains_key(k) implies exists|q: int|
            0 <= q < r@.len() && #[trigger] r@[q].name@ == k by {
            let q = choose|q: int| 0 <= q < labels.entries().len() && #[trigger] labels.entries()[q].0@ == k;
            assert(r@[q].name@ == k);
        }
        assert forall|a: int, b: int| 0 <= a < r@.len() && 0 <= b < r@.len() && a != b implies #[trigger] r@[a].name@
            != #[trigger] r@[b].name@ by {
            assert(r@[a].name@ == labels.entries()[a].0@);
            assert(r@[b].name@ == labels.entries()[b].0@);
        }
    }
    r
}

/// `series` is one time series holding just `sample`, labelled by the map `labels`.
pub open spec fn single_series(series: Seq<TimeSeries>, sample: Sample, labels: Map<Seq<char>, Seq<char>>) -> bool {
    &&& series.len() == 1
    &&& series[0].samples@ == seq![sample]
    &&& labels_describe(series[0].labels@, labels)
}

/// The time series for a sample that is spread over the possible values of a label: one
/// series holding the sample, labelled by `owned_labels` (the value itself travels as a
/// label; the list of possible values is not used).
pub fn multiplex_samples(sample: Sample, owned_labels: MetricLabels, possible_values: Vec<String>) -> (r: Vec<TimeSeries>)
    ensures
        single_series(r@, sample, text_view(owned_labels@)),
{
    let labels = labels_from_hashmap(&owned_labels);
    let mut samples: Vec<Sample> = Vec::new();
    samples.push(sample);
    let mut r: Vec<TimeSeries> = Vec::new();
    r.push(TimeSeries { samples, labels });
    proof {
        assert(r@[0].samples@ =~= seq![sample]);
    }
    r
}

/// The sample a metric output carries.
pub open spec fn output_sample(o: MetricOutput) -> Sample {
    match o {
        MetricOutput::NumericalSample(s) => s,
        MetricOutput::SampleForMultiplexing((s, _)) => s,
    }
}

/// The time series for a metric output with the given labels.
pub fn series_for_output(output: MetricOutput, labels: MetricLabels) -> (r: Vec<TimeSeries>)
    ensures
        single_series(r@, output_sample(output), text_view(labels@)),
{
    match output {
        MetricOutput::NumericalSample(sample) => {
            let l = labels_from_hashmap(&labels);
            let mut samples: Vec<Sample> = Vec::new();
            samples.push(sample);
            let mut r: Vec<TimeSeries> = Vec::new();
            r.push(TimeSeries { samples, labels: l });
            proof {
                assert(r@[0].samples@ =~= seq![sample]);
            }
            r
        },
        MetricOutput::SampleForMultiplexing((sample, possible_values)) => {
            multiplex_samples(sample, labels, possible_values)
        },
    }
}

/// The labels of an output: the metric's labels, overridden by the extra labels of the
/// result where names coincide.
pub open spec fn merged_labels(labels: Map<Seq<char>, String>, extra: Option<MetricLabels>) -> Map<Seq<char>, Seq<char>> {
    match extra {
        Some(e) => text_view(labels).union_prefer_right(text_view(e@)),
        None => text_view(labels),
    }
}

/// The labels of an output are the metric's labels and the extra labels: every name of
/// either, with the extra label's value where there is one and the metric's value otherwise;
/// without extra labels, exactly the metric's labels.
pub proof fn lemma_merged_labels(labels: Map<Seq<char>, String>, extra: Option<MetricLabels>)
    ensures
        forall|k: Seq<char>| #[trigger] merged_labels(labels, extra).contains_key(k) <==> (labels.contains_key(k)
            || (match extra {
            Some(e) => e@.contains_key(k),
            None => false,
        })),
        forall|k: Seq<char>| #[trigger] merged_labels(labels, extra).contains_key(k) ==> merged_labels(
            labels,
            extra,
        )[k] == match extra {
            Some(e) => if e@.contains_key(k) {
                e@[k]@
            } else {
                labels[k]@
            },
            None => labels[k]@,
        },
        extra is None ==> merged_labels(labels, extra).dom() == labels.dom(),
{
}

/// What a polling metric task does after one call of its function.
pub enum PollStep {
    /// A fatal error: the task ends, reporting the message.
    Stop(String),
    /// A temporary error: the task reports the message and waits for the next tick.
    Skip(String),
    /// Send these time series to the publisher.
    Emit(Vec<TimeSeries>),
}

/// Decides what follows one call of a metric function with the given labels.
pub fn polling_step(result: MetricFuncResult, labels: &MetricLabels) -> (step: PollStep)
    ensures
        result matches Err(MetricError::Fatal(m)) ==> step matches PollStep::Stop(s) && s == m,
        result matches Err(MetricError::Retryable(m)) ==> step matches PollStep::Skip(s) && s == m,
        result matches Ok((output, extra)) ==> step matches PollStep::Emit(series) && single_series(
            series@,
            output_sample(output),
            merged_labels(labels@, extra),
        ),
        result matches Ok((output, None)) ==> step matches PollStep::Emit(series) && series@.len() == 1
            && series@[0].samples@ == seq![output_sample(output)] && labels_describe(
            series@[0].labels@,
            text_view(labels@),
        ),
{
    match result {
        Err(MetricError::Fatal(m)) => PollStep::Stop(m),
        Err(MetricError::Retryable(m)) => PollStep::Skip(m),
        Ok((output, extra)) => {
            let mut owned = labels.copied();
            match extra {
                Some(e) => {
                    let ghost ev = e@;
                    owned.extend(e);
                    proof {
                        lemma_text_view(labels@, ev, Seq::empty(), vstd::pervasive::arbitrary());
                    }
                },
                None => {},
            }
            PollStep::Emit(series_for_output(output, owned))
        },
    }
}

/// The message for a value of a dynamically defined metric that cannot be parsed.
pub open spec fn parsing_error_text(
    key: Seq<char>,
    dtype: DynamicMetricDtype,
    value_debug: Seq<char>,
    detail: Seq<char>,
) -> Seq<char> {
    "Could not parse dynamically defined metric at: "@ + key + " as a "@ + dtype.spec_name() + " value: "@
        + value_debug + ". Detail: "@ + detail
}

/// A retryable error for a value of a dynamically defined metric that cannot be parsed;
/// `value_debug` is the value as `Debug` shows it, `detail` the parser's message.
pub fn parsing_error(config: &DynamicMetric, value_debug: &String, detail: &String) -> (e: MetricError)
    ensures
        e matches MetricError::Retryable(m) && m@ == parsing_error_text(
            config.key@,
            config.dtype,
            value_debug@,
            detail@,
        ),
{
    let mut m = String::from_str("Could not parse dynamically defined metric at: ");
    m.append(config.key.as_str());
    m.append(" as a ");
    let name = config.dtype.name();
    m.append(name.as_str());
    m.append(" value: ");
    m.append(value_debug.as_str());
    m.append(". Detail: ");
    m.append(detail.as_str());
    MetricError::Retryable(m)
}

/// `r` is the clock error, which only a reading that is absent or out of range gives.
pub open spec fn clock_refused<T>(r: Result<T, MetricError>, reading: Option<(u64, u32)>) -> bool {
    is_clock_failure(r) && !reading_in_range(reading)
}

/// A clock reading as `std::time::Duration` gives it: the nanoseconds below one billion.
pub open spec fn well_formed_reading(reading: Option<(u64, u32)>) -> bool {
    reading matches Some((_, nanos)) ==> nanos < 1_000_000_000
}

/// The result of parsing the text read for a dynamically defined metric, a sample being
/// timestamped with the clock reading `reading`. A value that parses gives its sample, or
/// the clock error when the reading is absent or out of range; a value that does not parse
/// gives the parsing error.
pub open spec fn parsed_value_matches(
    config: DynamicMetric,
    text: Seq<char>,
    reading: Option<(u64, u32)>,
    r: MetricFuncResult,
) -> bool {
    match config.dtype {
        DynamicMetricDtype::String => clock_refused(r, reading) || (r matches Ok(
            (MetricOutput::SampleForMultiplexing((s, values)), Some(extra)),
        ) && stamped(s, SampleValue::Integer(1), reading) && values@.len() == 0 && text_view(extra@)
            == map!["value"@ => text]),
        DynamicMetricDtype::Float => if valid_float_text(text) {
            clock_refused(r, reading) || (r matches Ok((MetricOutput::NumericalSample(s), None))
                && s.value matches SampleValue::FloatText(t) && t@ == text && stamped_at(s, reading))
        } else {
            r matches Err(MetricError::Retryable(m)) && m@ == parsing_error_text(
                config.key@,
                config.dtype,
                debug_text(text),
                float_error_text(text),
            )
        },
        DynamicMetricDtype::Int => if int_text_value(text) is Some && i64::MIN <= int_text_value(text)->0
            <= i64::MAX {
            clock_refused(r, reading) || (r matches Ok((MetricOutput::NumericalSample(s), None))
                && stamped(s, SampleValue::Integer(int_text_value(text)->0 as i64), reading))
        } else {
            r matches Err(MetricError::Retryable(m)) && m@ == parsing_error_text(
                config.key@,
                config.dtype,
                debug_text(text),
                int_parse_error_text(text),
            )
        },
    }
}

/// Parses the text read for a dynamically defined metric according to its type: text
/// becomes a sample of 1 labelled `value` = the text; floats and integers become a sample of
/// their value; text that does not parse gives a retryable error. Samples are timestamped
/// with the clock reading `reading`, as `sample_from_reading` does.
pub fn parse_redis_value_at(config: &DynamicMetric, redis_value: String, reading: Option<(u64, u32)>) -> (r:
    MetricFuncResult)
    ensures
        parsed_value_matches(*config, redis_value@, reading, r),
{
    match config.dtype {
        DynamicMetricDtype::String => {
            let ghost text = redis_value@;
            let mut extra: MetricLabels = NameMap::new();
            extra.insert(String::from_str("value"), redis_value);
            proof {
                lemma_text_view(Map::empty(), Map::empty(), "value"@, vstd::pervasive::arbitrary());
                assert(text_view(extra@) =~= map![ "value"@ => text ]);
            }
            match sample_from_reading(SampleValue::Integer(1), reading) {
                Ok(sample) => Ok((MetricOutput::SampleForMultiplexing((sample, Vec::new())), Some(extra))),
                Err(e) => Err(e),
            }
        },
        DynamicMetricDtype::Float => {
            if is_float_text(&redis_value) {
                match sample_from_reading(SampleValue::FloatText(redis_value), reading) {
                    Ok(s) => Ok((MetricOutput::NumericalSample(s), None)),
                    Err(e) => Err(e),
                }
            } else {
                let shown = debug_str(redis_value.as_str());
                let detail = float_error_message(&redis_value);
                Err(parsing_error(config, &shown, &detail))
            }
        },
        DynamicMetricDtype::Int => {
            match parse_i64(redis_value.as_str()) {
                Ok(v) => match sample_from_reading(SampleValue::Integer(v), reading) {
                    Ok(s) => Ok((MetricOutput::NumericalSample(s), None)),
                    Err(e) => Err(e),
                },
                Err(detail) => {
                    let shown = debug_str(redis_value.as_str());
                    Err(parsing_error(config, &shown, &detail))
                },
            }
        },
    }
}

/// Parses the text read for a dynamically defined metric as `parse_redis_value_at` does,
/// timestamping samples with the system clock's current reading.
pub fn parse_redis_value(config: &DynamicMetric, redis_value: String) -> (r: MetricFuncResult)
    ensures
        exists|reading: Option<(u64, u32)>|
            well_formed_reading(reading) && #[trigger] parsed_value_matches(*config, redis_value@, reading, r),
{
    let reading = clock_reading();
    let ghost text = redis_value@;
    let r = parse_redis_value_at(config, redis_value, reading);
    assert(well_formed_reading(reading) && parsed_value_matches(*config, text, reading, r));
    r
}

/// The message for a dynamically defined key that holds nothing.
pub open spec fn empty_key_text(key: Seq<char>) -> Seq<char> {
    "No value found at dynamically defined key: "@ + debug_text(key)
}

/// Interprets the bytes read from the key of a polled dynamically defined metric: nothing
/// stored is a retryable error, bytes that are not UTF-8 give a parse error, and UTF-8 text
/// is parsed according to the metric's type.
pub fn interpret_polled_value(config: &DynamicMetric, value: &Vec<u8>) -> (r: MetricFuncResult)
    ensures
        value@.len() == 0 ==> (r matches Err(MetricError::Retryable(m)) && m@ == empty_key_text(config.key@)),
        value@.len() > 0 && !valid_utf8(value@) ==> (r matches Err(MetricError::Retryable(m)) && m@
            == parsing_error_text(config.key@, config.dtype, byte_list_text(value@), utf8_error_text(value@))),
        value@.len() > 0 && valid_utf8(value@) ==> exists|reading: Option<(u64, u32)>|
            well_formed_reading(reading) && #[trigger] parsed_value_matches(
                *config,
                decode_utf8(value@),
                reading,
                r,
            ),
{
    if value.len() == 0 {
        let mut m = String::from_str("No value found at dynamically defined key: ");
        let shown = debug_str(config.key.as_str());
        m.append(shown.as_str());
        return Err(MetricError::Retryable(m));
    }
    match utf8_text(value.as_slice()) {
        Ok(text) => parse_redis_value(config, text),
        Err(detail) => {
            let shown = debug_bytes(value.as_slice());
            Err(parsing_error(config, &shown, &detail))
        },
    }
}

/// The labels of the task of a dynamically defined metric: the default labels and the
/// metric's name under `__name__`.
pub fn dynamic_metric_labels(config: &IngestorConfig, name: &String) -> (labels: MetricLabels)
    ensures
        text_view(labels@) == map![ "hostname"@ => config.hostname@ ].insert("__name__"@, name@),
{
    let mut labels = config.default_labels();
    let ghost before = labels@;
    let n = name.clone();
    labels.insert(String::from_str("__name__"), n);
    proof {
        lemma_text_view(before, Map::empty(), "__name__"@, n);
    }
    labels
}

/// The label map of a list of (name, value) pairs, later pairs winning over earlier ones.
pub open spec fn pairs_map(pairs: Seq<(&str, &str)>) -> Map<Seq<char>, Seq<char>>
    decreases pairs.len(),
{
    if pairs.len() == 0 {
        Map::empty()
    } else {
        pairs_map(pairs.drop_last()).insert(pairs.last().0@, pairs.last().1@)
    }
}

/// The labels of a built-in metric: the default labels, its name under `__name__`, and the
/// extra labels given (which win over the others).
pub open spec fn static_labels(
    config: IngestorConfig,
    name: Seq<char>,
    extra: Option<&[(&str, &str)]>,
) -> Map<Seq<char>, Seq<char>> {
    let base = map![ "hostname"@ => config.hostname@ ].insert("__name__"@, name);
    match extra {
        Some(pairs) => base.union_prefer_right(pairs_map(pairs@)),
        None => base,
    }
}

/// The definition of a built-in metric, named `name`, with the default labels, its name and
/// the extra labels, and its own default interval.
pub fn static_metric_def(
    func: BuiltinMetric,
    name: String,
    settings: (&IngestorConfig, MetricDefaultIntervalSeconds, Option<&[(&str, &str)]>),
) -> (def: (String, MetricDefinition))
    ensures
        def.0 == name,
        def.1 matches MetricDefinition::Static((f, labels, interval)) && f == func && interval
            == settings.1 && text_view(labels@) == static_labels(*settings.0, name@, settings.2),
{
    let (config, default_interval, extra_labels) = settings;
    let mut labels = dynamic_metric_labels(config, &name);
    match extra_labels {
        Some(pairs) => {
            let ghost base = text_view(labels@);
            let mut i: usize = 0;
            assert(pairs@.take(0) =~= Seq::<(&str, &str)>::empty());
            assert(base.union_prefer_right(Map::empty()) =~= base);
            while i < pairs.len()
                invariant
                    i <= pairs@.len(),
                    text_view(labels@) == base.union_prefer_right(pairs_map(pairs@.take(i as int))),
                decreases pairs@.len() - i,
            {
                let (k, v) = pairs[i];
                let ghost before = labels@;
                let value = String::from_str(v);
                labels.insert(String::from_str(k), value);
                proof {
                    lemma_text_view(before, Map::empty(), k@, value);
                    assert(pairs@.take(i + 1).drop_last() =~= pairs@.take(i as int));
                    assert(base.union_prefer_right(pairs_map(pairs@.take(i as int))).insert(k@, v@)
                        =~= base.union_prefer_right(pairs_map(pairs@.take(i as int)).insert(k@, v@)));
                }
                i = i + 1;
            }
            proof {
                assert(pairs@.take(i as int) =~= pairs@);
            }
        },
        None => {},
    }
    (name, MetricDefinition::Static((func, labels, default_interval)))
}

} // verus!
