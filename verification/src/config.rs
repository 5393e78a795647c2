//! Configuration of the ingestor: endpoints, credentials, chunking, metric intervals and
//! dynamically defined metrics, and the rules that merge interval settings from several files.

use vstd::prelude::*;
use vstd::string::*;
use crate::name_map::{lemma_text_view, text_view, NameMap};
use crate::text::{decimal_digits, decimal_string};

verus! {

/// The path of a file on disk; the library only carries it.
#[verifier::external_type_specification]
#[verifier::external_body]
pub struct ExPathBuf(std::path::PathBuf);

/// A host URL together with the port the service listens on.
pub struct UrlPort {
    pub url: String,
    pub port: u16,
}

impl UrlPort {
    /// The URL followed by a colon and the port in decimal, e.g. `http://127.0.0.1:12345`.
    pub fn full_url(&self) -> (s: String)
        ensures
            s@ == self.url@ + ":"@ + decimal_digits(self.port as nat),
    {
        let mut s = self.url.clone();
        s.append(":");
        let port = decimal_string(self.port as u64);
        s.append(port.as_str());
        s
    }
}

/// Credentials for HTTP basic authentication.
pub struct BasicAuth {
    pub username: String,
    pub password: String,
}

impl BasicAuth {
    /// How the credentials are shown when the configuration is printed: a fixed text that
    /// reveals neither the user name nor the password.
    pub fn debug_text(&self) -> (s: String)
        ensures
            s@ == "Basic auth: provided"@,
    {
        String::from_str("Basic auth: provided")
    }
}

/// Default number of records to read from Redis or push to Loki at once.
pub fn default_chunk_size() -> (n: u16)
    ensures
        n == 100,
{
    100
}

/// Default timeout for blocking stream reads, in milliseconds.
pub fn default_blocktime_millis() -> (n: usize)
    ensures
        n == 1000,
{
    1000
}

/// Default value for both the consumer group and the consumer ID.
pub fn default_consumer() -> (s: String)
    ensures
        s@ == "log-ingestor"@,
{
    String::from_str("log-ingestor")
}

/// Default value for the beamline name.
pub fn default_beamline_name() -> (s: String)
    ensures
        s@ == "x99xa"@,
{
    String::from_str("x99xa")
}

/// Logging and metrics are each enabled unless the configuration says otherwise.
pub fn default_enabled() -> (b: bool)
    ensures
        b,
{
    true
}

/// Default pace at which buffered logs are pushed to Loki: once per second.
pub fn default_push_interval() -> (i: MetricInterval)
    ensures
        i == MetricInterval::Secondly(1),
{
    MetricInterval::Secondly(1)
}

/// Default pace of the watchdog that restarts crashed metric tasks: once per minute.
pub fn default_watchdog_interval() -> (i: MetricInterval)
    ensures
        i == MetricInterval::Minutely(1),
{
    MetricInterval::Minutely(1)
}

/// Default pace at which collected metrics are published: every fifteen seconds.
pub fn default_publish_interval() -> (i: MetricInterval)
    ensures
        i == MetricInterval::Secondly(15),
{
    MetricInterval::Secondly(15)
}

/// Connection and stream-reading settings for Redis.
pub struct RedisConfig {
    pub url: UrlPort,
    pub chunk_size: u16,
    pub blocktime_millis: usize,
    pub consumer_group: String,
    pub consumer_id: String,
}

/// Push settings for Loki.
pub struct LokiConfig {
    pub url: String,
    pub auth: BasicAuth,
    pub chunk_size: u16,
    pub beamline_name: String,
    pub push_interval: MetricInterval,
}

/// A repetition period; `Hourly(2)` means every two hours, not twice an hour.
#[derive(Clone, Copy, Debug, PartialEq, Eq, Structural)]
pub enum MetricInterval {
    Millis(u64),
    Secondly(u64),
    Minutely(u64),
    Hourly(u64),
    Daily(u64),
    Weekly(u64),
}

impl MetricInterval {
    /// The length of the period in milliseconds.
    pub open spec fn period_millis(self) -> int {
        match self {
            MetricInterval::Millis(n) => n as int,
            MetricInterval::Secondly(n) => n * 1000,
            MetricInterval::Minutely(n) => n * 60_000,
            MetricInterval::Hourly(n) => n * 3_600_000,
            MetricInterval::Daily(n) => n * 86_400_000,
            MetricInterval::Weekly(n) => n * 604_800_000,
        }
    }

    /// The period in whole seconds fits in 64 bits.
    pub open spec fn representable(self) -> bool {
        match self {
            MetricInterval::Millis(_) => true,
            MetricInterval::Secondly(_) => true,
            MetricInterval::Minutely(n) => n * 60 <= u64::MAX,
            MetricInterval::Hourly(n) => n * 3600 <= u64::MAX,
            MetricInterval::Daily(n) => n * 86400 <= u64::MAX,
            MetricInterval::Weekly(n) => n * 604800 <= u64::MAX,
        }
    }

    /// Whether the period in whole seconds fits in 64 bits.
    pub fn is_representable(&self) -> (b: bool)
        ensures
            b == self.representable(),
    {
        match *self {
            MetricInterval::Millis(_) => true,
            MetricInterval::Secondly(_) => true,
            MetricInterval::Minutely(n) => n <= u64::MAX / 60,
            MetricInterval::Hourly(n) => n <= u64::MAX / 3600,
            MetricInterval::Daily(n) => n <= u64::MAX / 86400,
            MetricInterval::Weekly(n) => n <= u64::MAX / 604800,
        }
    }

    /// The period as whole seconds and the remaining milliseconds.
    pub fn period(&self) -> (r: (u64, u64))
        requires
            self.representable(),
        ensures
            r.1 < 1000,
            r.0 * 1000 + r.1 == self.period_millis(),
    {
        match *self {
            MetricInterval::Millis(n) => (n / 1000, n % 1000),
            MetricInterval::Secondly(n) => (n, 0),
            MetricInterval::Minutely(n) => (n * 60, 0),
            MetricInterval::Hourly(n) => (n * 3600, 0),
            MetricInterval::Daily(n) => (n * 86400, 0),
            MetricInterval::Weekly(n) => (n * 604800, 0),
        }
    }
}

/// Each unit is the one below it taken a fixed number of times: a second is 1000
/// milliseconds, a minute 60 seconds, an hour 60 minutes, a day 24 hours and a week 7 days;
/// `n` periods of a unit last `n` times one.
pub proof fn lemma_interval_units(n: u64)
    ensures
        MetricInterval::Millis(1).period_millis() == 1,
        MetricInterval::Secondly(n).period_millis() == n * MetricInterval::Millis(1000).period_millis(),
        MetricInterval::Minutely(n).period_millis() == n * MetricInterval::Secondly(60).period_millis(),
        MetricInterval::Hourly(n).period_millis() == n * MetricInterval::Minutely(60).period_millis(),
        MetricInterval::Daily(n).period_millis() == n * MetricInterval::Hourly(24).period_millis(),
        MetricInterval::Weekly(n).period_millis() == n * MetricInterval::Daily(7).period_millis(),
{
}

/// A file that holds nothing but metric intervals.
pub struct MetricIntervalsConfig {
    pub intervals: NameMap<MetricInterval>,
}

/// How a dynamically defined metric's value is read from Redis.
#[derive(Clone, Copy, Debug, PartialEq, Eq, Structural)]
pub enum RedisReadType {
    /// Read the key at the given period.
    Poll(MetricInterval),
    /// Subscribe to the key as a channel.
    PubSub,
}

/// How the text read for a dynamically defined metric is interpreted.
#[derive(Clone, Copy, Debug, PartialEq, Eq, Structural)]
pub enum DynamicMetricDtype {
    Float,
    Int,
    String,
}

impl DynamicMetricDtype {
    /// The name of the type as written in the configuration.
    pub open spec fn spec_name(self) -> Seq<char> {
        match self {
            DynamicMetricDtype::Float => "Float"@,
            DynamicMetricDtype::Int => "Int"@,
            DynamicMetricDtype::String => "String"@,
        }
    }

    /// The name of the type as written in the configuration.
    pub fn name(&self) -> (s: String)
        ensures
            s@ == self.spec_name(),
    {
        match *self {
            DynamicMetricDtype::Float => String::from_str("Float"),
            DynamicMetricDtype::Int => String::from_str("Int"),
            DynamicMetricDtype::String => String::from_str("String"),
        }
    }
}

/// A metric whose value is read from a Redis key named in the configuration.
pub struct DynamicMetric {
    pub read_type: RedisReadType,
    pub key: String,
    pub dtype: DynamicMetricDtype,
}

impl DynamicMetric {
    /// A field-by-field copy.
    pub fn copied(&self) -> (r: Self)
        ensures
            r == *self,
    {
        DynamicMetric { read_type: self.read_type, key: self.key.clone(), dtype: self.dtype }
    }
}

/// Settings of the metrics service.
pub struct MetricsConfig {
    pub user_config_path: Option<std::path::PathBuf>,
    pub auth: BasicAuth,
    pub url: String,
    pub intervals: NameMap<MetricInterval>,
    pub dynamic: NameMap<DynamicMetric>,
    pub watchdog_interval: MetricInterval,
    pub publish_interval: MetricInterval,
}

/// The interval of a metric that is not configured and has no default of its own.
pub open spec fn fallback_interval() -> MetricInterval {
    MetricInterval::Secondly(60)
}

/// The interval used for a metric: the configured one, else the metric's own default
/// in seconds, else one minute.
pub open spec fn chosen_interval(
    intervals: Map<Seq<char>, MetricInterval>,
    name: Seq<char>,
    default_seconds: Option<u32>,
) -> MetricInterval {
    if intervals.contains_key(name) {
        intervals[name]
    } else {
        match default_seconds {
            Some(s) => MetricInterval::Secondly(s as u64),
            None => fallback_interval(),
        }
    }
}

/// A metric that is not configured and has no default of its own runs once a minute; a
/// configured interval always wins, and a metric's own default wins over the minute.
pub proof fn lemma_interval_choice(
    intervals: Map<Seq<char>, MetricInterval>,
    name: Seq<char>,
    default_seconds: Option<u32>,
)
    ensures
        intervals.contains_key(name) ==> chosen_interval(intervals, name, default_seconds) == intervals[name],
        !intervals.contains_key(name) && default_seconds is None ==> chosen_interval(
            intervals,
            name,
            default_seconds,
        ).period_millis() == 60_000,
        default_seconds matches Some(s) ==> (!intervals.contains_key(name) ==> chosen_interval(
            intervals,
            name,
            default_seconds,
        ).period_millis() == s * 1000),
{
}

impl MetricsConfig {
    /// The interval for `metric_name`; one minute if it is not configured.
    pub fn interval_for_metric(&self, metric_name: &String) -> (i: MetricInterval)
        ensures
            i == chosen_interval(self.intervals@, metric_name@, None),
    {
        self.interval_for_metric_or(metric_name, None)
    }

    /// The interval for `metric_name`; the metric's own default (in seconds) if it is not
    /// configured, and one minute if it has none.
    pub fn interval_for_metric_or(&self, metric_name: &String, default_seconds: Option<u32>) -> (i:
        MetricInterval)
        ensures
            i == chosen_interval(self.intervals@, metric_name@, default_seconds),
    {
        match self.intervals.get(metric_name) {
            Some(interval) => *interval,
            None => match default_seconds {
                Some(s) => MetricInterval::Secondly(s as u64),
                None => MetricInterval::Secondly(60),
            },
        }
    }
}

/// The complete configuration of the ingestor.
pub struct IngestorConfig {
    pub redis: RedisConfig,
    pub loki: LokiConfig,
    pub metrics: MetricsConfig,
    pub enable_metrics: bool,
    pub enable_logging: bool,
    /// Name of the host the ingestor runs on; attached to every log stream.
    pub hostname: String,
}

impl IngestorConfig {
    /// The labels every metric carries: the host name.
    pub fn default_labels(&self) -> (labels: NameMap<String>)
        ensures
            text_view(labels@) == map![ "hostname"@ => self.hostname@ ],
    {
        let mut labels: NameMap<String> = NameMap::new();
        labels.insert(String::from_str("hostname"), self.hostname.clone());
        proof {
            lemma_text_view(Map::empty(), Map::empty(), "hostname"@, self.hostname);
            assert(map![ "hostname"@ => self.hostname@ ] =~= Map::<Seq<char>, Seq<char>>::empty().insert("hostname"@, self.hostname@));
        }
        labels
    }
}

/// The intervals of an optional intervals file, empty when there is none.
pub open spec fn optional_intervals(file: Option<MetricIntervalsConfig>) -> Map<Seq<char>, MetricInterval> {
    match file {
        Some(f) => f.intervals@,
        None => Map::empty(),
    }
}

/// The interval a metric gets from three layers of settings, in decreasing order of
/// preference: the command-line file, the file referenced from the main configuration,
/// and the main configuration itself.
pub open spec fn layered_interval(
    direct: Map<Seq<char>, MetricInterval>,
    referenced: Map<Seq<char>, MetricInterval>,
    command_line: Map<Seq<char>, MetricInterval>,
    name: Seq<char>,
) -> Option<MetricInterval> {
    if command_line.contains_key(name) {
        Some(command_line[name])
    } else if referenced.contains_key(name) {
        Some(referenced[name])
    } else if direct.contains_key(name) {
        Some(direct[name])
    } else {
        None
    }
}

/// Merges the metric intervals of the main configuration with those of the file the
/// main configuration references (when it exists) and of the file given on the command
/// line. Every other setting is kept as it is.
pub fn assemble_config(
    config: IngestorConfig,
    referenced: Option<MetricIntervalsConfig>,
    command_line: Option<MetricIntervalsConfig>,
) -> (assembled: IngestorConfig)
    ensures
        assembled.metrics.intervals@ == config.metrics.intervals@.union_prefer_right(
            optional_intervals(referenced),
        ).union_prefer_right(optional_intervals(command_line)),
        forall|name: Seq<char>|
            #![trigger assembled.metrics.intervals@.contains_key(name)]
            {
                &&& assembled.metrics.intervals@.contains_key(name) <==> layered_interval(
                    config.metrics.intervals@,
                    optional_intervals(referenced),
                    optional_intervals(command_line),
                    name,
                ) is Some
                &&& assembled.metrics.intervals@.contains_key(name) ==> Some(
                    assembled.metrics.intervals@[name],
                ) == layered_interval(
                    config.metrics.intervals@,
                    optional_intervals(referenced),
                    optional_intervals(command_line),
                    name,
                )
            },
        assembled.redis == config.redis,
        assembled.loki == config.loki,
        assembled.metrics.user_config_path == config.metrics.user_config_path,
        assembled.metrics.auth == config.metrics.auth,
        assembled.metrics.url == config.metrics.url,
        assembled.metrics.dynamic == config.metrics.dynamic,
        assembled.metrics.watchdog_interval == config.metrics.watchdog_interval,
        assembled.metrics.publish_interval == config.metrics.publish_interval,
        assembled.enable_metrics == config.enable_metrics,
        assembled.enable_logging == config.enable_logging,
        assembled.hostname == config.hostname,
{
    let mut config = config;
    let ghost direct = config.metrics.intervals@;
    if let Some(file) = referenced {
        config.metrics.intervals.extend(file.intervals);
    } else {
        assert(direct.union_prefer_right(Map::empty()) =~= direct);
    }
    let ghost middle = config.metrics.intervals@;
    if let Some(file) = command_line {
        config.metrics.intervals.extend(file.intervals);
    } else {
        assert(middle.union_prefer_right(Map::empty()) =~= middle);
    }
    config
}

} // verus!
