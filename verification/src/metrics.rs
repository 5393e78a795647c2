//! The metrics the service runs, the labels of the deployment metric, the restart decisions
//! of the watchdog, and the retry rule of the publisher.

use vstd::prelude::*;
use vstd::string::*;
use crate::config::{DynamicMetric, IngestorConfig};
use crate::metrics_core::{
    clock_reading, clock_refused, sample_from_reading, stamped, well_formed_reading, static_labels, static_metric_def, BuiltinMetric, MetricDefinition,
    MetricDefinitions, MetricError, MetricFuncResult, MetricLabels, MetricOutput,
};
use crate::metrics_core::prometheus::SampleValue;
use crate::models::status_message::{Info, StatusMessagePack};
use crate::name_map::{entries_map, lemma_entries_prefix, lemma_text_view, text_view, NameMap};

verus! {

/// The Redis key holding the status of the BEC device server.
pub const DEPLOYMENT_STATUS_KEY: &'static str = "user/services/status/DeviceServer";

/// The built-in metric of a name, with its own default interval in seconds.
pub open spec fn builtin_metric(name: Seq<char>) -> Option<(BuiltinMetric, Option<u32>)> {
    if name == "deployment"@ {
        Some((BuiltinMetric::Deployment, Some(60u32)))
    } else if name == "cpu_usage_pc"@ {
        Some((BuiltinMetric::CpuUsagePc, None))
    } else if name == "ram_used_bytes"@ {
        Some((BuiltinMetric::RamUsedBytes, None))
    } else if name == "ram_avail_bytes"@ {
        Some((BuiltinMetric::RamAvailBytes, None))
    } else {
        None
    }
}

/// The built-in metrics by name: `deployment` reads the deployment's versions once a minute
/// by default, `cpu_usage_pc` the CPU usage, `ram_used_bytes` the memory in use and
/// `ram_avail_bytes` the memory available; no other name is built in, and no two names share
/// a function.
pub proof fn lemma_builtin_metrics()
    ensures
        builtin_metric("deployment"@) == Some((BuiltinMetric::Deployment, Some(60u32))),
        builtin_metric("cpu_usage_pc"@) == Some((BuiltinMetric::CpuUsagePc, None::<u32>)),
        builtin_metric("ram_used_bytes"@) == Some((BuiltinMetric::RamUsedBytes, None::<u32>)),
        builtin_metric("ram_avail_bytes"@) == Some((BuiltinMetric::RamAvailBytes, None::<u32>)),
        forall|k: Seq<char>| #[trigger] builtin_metric(k) is Some ==> k == "deployment"@ || k == "cpu_usage_pc"@
            || k == "ram_used_bytes"@ || k == "ram_avail_bytes"@,
        forall|a: Seq<char>, b: Seq<char>|
            #[trigger] builtin_metric(a) is Some && #[trigger] builtin_metric(b) is Some && a != b
                ==> (builtin_metric(a)->0).0 != (builtin_metric(b)->0).0,
{
    reveal_strlit("deployment");
    reveal_strlit("cpu_usage_pc");
    reveal_strlit("ram_used_bytes");
    reveal_strlit("ram_avail_bytes");
    assert("deployment"@.len() != "cpu_usage_pc"@.len());
    assert("deployment"@.len() != "ram_used_bytes"@.len());
    assert("deployment"@.len() != "ram_avail_bytes"@.len());
    assert("cpu_usage_pc"@.len() != "ram_used_bytes"@.len());
    assert("cpu_usage_pc"@.len() != "ram_avail_bytes"@.len());
    assert("ram_used_bytes"@[4] != "ram_avail_bytes"@[4]);
}

/// The definitions of configured dynamic metrics.
pub open spec fn dynamic_defs(m: Map<Seq<char>, DynamicMetric>) -> Map<Seq<char>, MetricDefinition> {
    m.map_values(|d: DynamicMetric| MetricDefinition::Dynamic(d))
}

/// Every metric to run: the built-in ones (the deployment metric once a minute by default,
/// the CPU and memory metrics at the configured or fallback interval) and the dynamically
/// defined ones of the configuration; a dynamic metric with a built-in metric's name
/// replaces it.
pub fn metric_definitions(config: &IngestorConfig) -> (defs: MetricDefinitions)
    ensures
        forall|k: Seq<char>| #[trigger] defs@.contains_key(k) <==> (builtin_metric(k) is Some
            || config.metrics.dynamic@.contains_key(k)),
        forall|k: Seq<char>| #[trigger] config.metrics.dynamic@.contains_key(k) ==> defs@[k]
            == MetricDefinition::Dynamic(config.metrics.dynamic@[k]),
        forall|k: Seq<char>| #[trigger] builtin_metric(k) is Some && !config.metrics.dynamic@.contains_key(k)
            ==> (defs@[k] matches MetricDefinition::Static((f, labels, interval)) && (f, interval)
            == builtin_metric(k)->0 && text_view(labels@) == static_labels(*config, k, None)),
        !config.metrics.dynamic@.contains_key("deployment"@) ==> (defs@["deployment"@] matches
            MetricDefinition::Static((f, _, interval)) && f == BuiltinMetric::Deployment && interval
            == Some(60u32)),
        !config.metrics.dynamic@.contains_key("cpu_usage_pc"@) ==> (defs@["cpu_usage_pc"@] matches
            MetricDefinition::Static((f, _, interval)) && f == BuiltinMetric::CpuUsagePc && interval
            is None),
        !config.metrics.dynamic@.contains_key("ram_used_bytes"@) ==> (defs@["ram_used_bytes"@] matches
            MetricDefinition::Static((f, _, interval)) && f == BuiltinMetric::RamUsedBytes && interval
            is None),
        !config.metrics.dynamic@.contains_key("ram_avail_bytes"@) ==> (defs@["ram_avail_bytes"@] matches
            MetricDefinition::Static((f, _, interval)) && f == BuiltinMetric::RamAvailBytes && interval
            is None),
{
    proof {
        lemma_builtin_metrics();
        reveal_strlit("deployment");
        reveal_strlit("cpu_usage_pc");
        reveal_strlit("ram_used_bytes");
        reveal_strlit("ram_avail_bytes");
    }
    let mut defs: MetricDefinitions = NameMap::new();
    let (n, d) = static_metric_def(BuiltinMetric::Deployment, String::from_str("deployment"), (config, Some(60), None));
    let ghost d1 = d;
    defs.insert(n, d);
    let (n, d) = static_metric_def(BuiltinMetric::CpuUsagePc, String::from_str("cpu_usage_pc"), (config, None, None));
    let ghost d2 = d;
    defs.insert(n, d);
    let (n, d) = static_metric_def(BuiltinMetric::RamUsedBytes, String::from_str("ram_used_bytes"), (config, None, None));
    let ghost d3 = d;
    defs.insert(n, d);
    let (n, d) = static_metric_def(BuiltinMetric::RamAvailBytes, String::from_str("ram_avail_bytes"), (config, None, None));
    let ghost d4 = d;
    defs.insert(n, d);
    let ghost statics = defs@;
    assert(statics == Map::<Seq<char>, MetricDefinition>::empty().insert("deployment"@, d1).insert("cpu_usage_pc"@, d2)
        .insert("ram_used_bytes"@, d3).insert("ram_avail_bytes"@, d4));
    assert forall|k: Seq<char>| #[trigger] statics.contains_key(k) <==> builtin_metric(k) is Some by {}
    assert forall|k: Seq<char>| #[trigger] builtin_metric(k) is Some implies (statics[k] matches MetricDefinition::Static((f, labels, interval))
        && (f, interval) == builtin_metric(k)->0 && text_view(labels@) == static_labels(*config, k, None)) by {
        assert("deployment"@.len() == 10);
        assert("cpu_usage_pc"@.len() == 12);
        assert("ram_used_bytes"@.len() == 14);
        assert("ram_avail_bytes"@.len() == 15);
        if k == "deployment"@ {
            assert(statics[k] == d1);
        } else if k == "cpu_usage_pc"@ {
            assert(statics[k] == d2);
        } else if k == "ram_used_bytes"@ {
            assert(statics[k] == d3);
        } else {
            assert(statics[k] == d4);
        }
    }

    let dynamic = &config.metrics.dynamic;
    let count = dynamic.len();
    let mut dyn_defs: MetricDefinitions = NameMap::new();
    let mut i: usize = 0;
    assert(dynamic.entries().take(0) =~= Seq::<(String, DynamicMetric)>::empty());
    assert(dynamic_defs(entries_map(dynamic.entries().take(0))) =~= Map::<Seq<char>, MetricDefinition>::empty());
    while i < count
        invariant
            count == dynamic.entries().len(),
            crate::name_map::names_unique(dynamic.entries()),
            dynamic@ == entries_map(dynamic.entries()),
            i <= count,
            dyn_defs@ == dynamic_defs(entries_map(dynamic.entries().take(i as int))),
        decreases count - i,
    {
        let name = dynamic.name_at(i).clone();
        let def = MetricDefinition::Dynamic(dynamic.value_at(i).copied());
        let ghost before = dyn_defs@;
        proof {
            lemma_entries_prefix(dynamic.entries(), i as int);
        }
        dyn_defs.insert(name, def);
        proof {
            assert(dynamic_defs(entries_map(dynamic.entries().take(i + 1))) =~= before.insert(name@, def));
        }
        i = i + 1;
    }
    proof {
        assert(dynamic.entries().take(count as int) =~= dynamic.entries());
    }
    defs.extend(dyn_defs);
    defs
}

/// The error for a device server status that is missing.
pub fn missing_status_error() -> (e: MetricError)
    ensures
        e matches MetricError::Retryable(m) && m@ == "No status update found at "@ + DEPLOYMENT_STATUS_KEY@,
{
    let mut m = String::from_str("No status update found at ");
    m.append(DEPLOYMENT_STATUS_KEY);
    MetricError::Retryable(m)
}

/// The error for a device server status that cannot be decoded; `detail` is the decoder's
/// message.
pub fn undecodable_status_error(detail: &String) -> (e: MetricError)
    ensures
        e matches MetricError::Retryable(m) && m@ == "Failed to parse status message from redis: "@ + detail@,
{
    let mut m = String::from_str("Failed to parse status message from redis: ");
    m.append(detail.as_str());
    MetricError::Retryable(m)
}

/// The text `Debug` gives the JSON object written by `json`, as `serde_json` parses it into
/// a `Map`; `None` when `json` does not hold a JSON object.
pub uninterp spec fn json_object_debug_text(json: Seq<char>) -> Option<Seq<char>>;

/// Parses `json` as a JSON object with `serde_json::from_str::<Map<String, Value>>` and
/// formats the map as `Debug` shows it (for example `{"a": Number(1)}`); `None` when the text
/// is not a JSON object. The contract names the text without stating its characters.
#[verifier::external_body]
fn json_object_debug(json: &String) -> (r: Option<String>)
    ensures
        r matches Some(d) ==> json_object_debug_text(json@) == Some(d@),
        r is None <==> json_object_debug_text(json@) is None,
{
    match serde_json::from_str::<serde_json::Map<String, serde_json::Value>>(json) {
        Ok(map) => Some(format!("{:?}", map)),
        Err(_) => None,
    }
}

/// How the error for a status without service info shows the info: `Object(` and the
/// object as `Debug` shows it, then `)`; the JSON text itself if it is not an object.
pub open spec fn shown_info(json: Seq<char>) -> Seq<char> {
    match json_object_debug_text(json) {
        Some(d) => "Object("@ + d + ")"@,
        None => "Object("@ + json + ")"@,
    }
}

/// The result of the deployment metric for a status, a sample being timestamped with the
/// clock reading `reading`: for a service info, a sample of 1 labelled with the four versions,
/// or the clock error when the reading is absent or out of range; for any other info, the
/// fatal error that shows it.
pub open spec fn deployment_result(status: StatusMessagePack, reading: Option<(u64, u32)>, r: MetricFuncResult) -> bool {
    &&& (status.bec_codec.data.info matches Info::ServiceInfo(i) ==> clock_refused(r, reading) || (r matches Ok((MetricOutput::NumericalSample(s), Some(labels)))
            && stamped(s, SampleValue::Integer(1), reading) && text_view(labels@) == map![
                "bec_lib"@ => i.bec_codec.data.versions->0.bec_lib@,
                "bec_ipython_client"@ => i.bec_codec.data.versions->0.bec_ipython_client@,
                "bec_server"@ => i.bec_codec.data.versions->0.bec_server@,
                "bec_widgets"@ => i.bec_codec.data.versions->0.bec_widgets@
            ]))
    &&& (status.bec_codec.data.info matches Info::Object(t) ==> (r matches Err(MetricError::Fatal(m)) && m@
            == "Status update "@ + shown_info(t.0@) + " contained malformed ServiceInfo"@))
}

/// The deployment metric for a device server status: a sample of 1, timestamped with the
/// clock reading `reading` as `sample_from_reading` does, labelled with the versions of
/// `bec_lib`, `bec_ipython_client`, `bec_server` and `bec_widgets`; a status whose info is
/// not a service info is a fatal error that shows the info.
pub fn deployment_labels_at(status: &StatusMessagePack, reading: Option<(u64, u32)>) -> (r: MetricFuncResult)
    requires
        status.bec_codec.data.info matches Info::ServiceInfo(i) ==> i.bec_codec.data.versions is Some,
    ensures
        deployment_result(*status, reading, r),
{
    let info = &status.bec_codec.data.info;
    match info {
        Info::ServiceInfo(service) => {
            let versions = match &service.bec_codec.data.versions {
                Some(v) => v,
                None => {
                    proof {
                        assert(false);
                    }
                    return Err(MetricError::Fatal(String::new()));
                },
            };
            proof {
                reveal_strlit("bec_lib");
                reveal_strlit("bec_ipython_client");
                reveal_strlit("bec_server");
                reveal_strlit("bec_widgets");
            }
            let mut labels: MetricLabels = NameMap::new();
            let ghost l0 = labels@;
            let a = versions.bec_lib.clone();
            labels.insert(String::from_str("bec_lib"), a);
            let ghost l1 = labels@;
            let b = versions.bec_ipython_client.clone();
            labels.insert(String::from_str("bec_ipython_client"), b);
            let ghost l2 = labels@;
            let c = versions.bec_server.clone();
            labels.insert(String::from_str("bec_server"), c);
            let ghost l3 = labels@;
            let d = versions.bec_widgets.clone();
            labels.insert(String::from_str("bec_widgets"), d);
            proof {
                lemma_text_view(l0, l0, "bec_lib"@, a);
                lemma_text_view(l1, l1, "bec_ipython_client"@, b);
                lemma_text_view(l2, l2, "bec_server"@, c);
                lemma_text_view(l3, l3, "bec_widgets"@, d);
                assert(text_view(labels@) =~= map![
                    "bec_lib"@ => versions.bec_lib@,
                    "bec_ipython_client"@ => versions.bec_ipython_client@,
                    "bec_server"@ => versions.bec_server@,
                    "bec_widgets"@ => versions.bec_widgets@
                ]);
            }
            match sample_from_reading(SampleValue::Integer(1), reading) {
                Ok(s) => Ok((MetricOutput::NumericalSample(s), Some(labels))),
                Err(e) => Err(e),
            }
        },
        Info::Object(t) => {
            let mut shown = String::from_str("Object(");
            match json_object_debug(&t.0) {
                Some(d) => shown.append(d.as_str()),
                None => shown.append(t.0.as_str()),
            }
            shown.append(")");
            let mut m = String::from_str("Status update ");
            m.append(shown.as_str());
            m.append(" contained malformed ServiceInfo");
            Err(MetricError::Fatal(m))
        },
    }
}

/// The deployment metric for a device server status, as `deployment_labels_at` gives it
/// with the system clock's current reading.
pub fn deployment_labels(status: &StatusMessagePack) -> (r: MetricFuncResult)
    requires
        status.bec_codec.data.info matches Info::ServiceInfo(i) ==> i.bec_codec.data.versions is Some,
    ensures
        exists|reading: Option<(u64, u32)>|
            well_formed_reading(reading) && #[trigger] deployment_result(*status, reading, r),
{
    let reading = clock_reading();
    let r = deployment_labels_at(status, reading);
    assert(well_formed_reading(reading) && deployment_result(*status, reading, r));
    r
}

/// The finished metric tasks that are restarted: those of built-in metrics, in order.
pub open spec fn restartable_names(finished: Seq<String>, defs: Map<Seq<char>, MetricDefinition>) -> Seq<Seq<char>>
    decreases finished.len(),
{
    if finished.len() == 0 {
        Seq::empty()
    } else {
        let earlier = restartable_names(finished.drop_last(), defs);
        let k = finished.last()@;
        if defs.contains_key(k) && defs[k] is Static {
            earlier.push(k)
        } else {
            earlier
        }
    }
}

/// The tasks restarted are exactly the finished ones of built-in metrics, in the order
/// they finished; finished tasks of unknown names are not restarted.
pub proof fn lemma_restart_only_builtin(finished: Seq<String>, defs: Map<Seq<char>, MetricDefinition>)
    ensures
        restartable_names(finished, defs) == finished.filter(
            |n: String| defs.contains_key(n@) && defs[n@] is Static,
        ).map_values(|n: String| n@),
    decreases finished.len(),
{
    reveal(Seq::filter);
    if finished.len() > 0 {
        lemma_restart_only_builtin(finished.drop_last(), defs);
        let kept = finished.drop_last().filter(|n: String| defs.contains_key(n@) && defs[n@] is Static);
        assert(kept.push(finished.last()).map_values(|n: String| n@) =~= kept.map_values(|n: String| n@).push(
            finished.last()@,
        ));
    } else {
        assert(finished.filter(|n: String| defs.contains_key(n@) && defs[n@] is Static).map_values(
            |n: String| n@,
        ) =~= Seq::<Seq<char>>::empty());
    }
}

/// The names of the finished metric tasks to restart: those of built-in metrics; names
/// that are not defined are passed over. Restarting dynamically defined metrics is not
/// supported, so none may be among the finished ones.
pub fn metrics_to_restart(finished: &Vec<String>, defs: &MetricDefinitions) -> (r: Vec<String>)
    requires
        forall|i: int| 0 <= i < finished@.len() ==> !(defs@.contains_key(#[trigger] finished@[i]@)
            && defs@[finished@[i]@] is Dynamic),
    ensures
        r@.map_values(|s: String| s@) == restartable_names(finished@, defs@),
{
    let mut r: Vec<String> = Vec::new();
    let mut i: usize = 0;
    assert(finished@.take(0) =~= Seq::<String>::empty());
    while i < finished.len()
        invariant
            i <= finished@.len(),
            r@.map_values(|s: String| s@) == restartable_names(finished@.take(i as int), defs@),
        decreases finished@.len() - i,
    {
        proof {
            assert(finished@.take(i + 1).drop_last() =~= finished@.take(i as int));
        }
        match defs.get(&finished[i]) {
            Some(MetricDefinition::Static(_)) => {
                let ghost before = r@;
                r.push(finished[i].clone());
                proof {
                    assert(r@.map_values(|s: String| s@) =~= before.map_values(|s: String| s@).push(finished@[i as int]@));
                }
            },
            _ => {},
        }
        i = i + 1;
    }
    proof {
        assert(finished@.take(i as int) =~= finished@);
    }
    r
}

/// The bytes of `bytes` compressed in the raw Snappy format, as `snap`'s raw encoder writes
/// them.
pub uninterp spec fn snappy_compressed(bytes: Seq<u8>) -> Seq<u8>;

/// The largest payload the raw Snappy encoder takes: one whose worst-case compressed size,
/// `32 + n + n / 6` bytes, fits in 32 bits.
pub open spec fn compressible(n: int) -> bool {
    32 + n + n / 6 <= u32::MAX
}

/// Compresses `bytes` with `snap::raw::Encoder::new().compress_vec`. `snap` fails only when
/// the worst-case compressed size does not fit in 32 bits, which `requires` rules out, so
/// the result is always there.
#[verifier::external_body]
fn snappy_compress(bytes: &[u8]) -> (r: Option<Vec<u8>>)
    requires
        compressible(bytes@.len() as int),
    ensures
        r is Some,
        r matches Some(c) ==> c@ == snappy_compressed(bytes@),
{
    match snap::raw::Encoder::new().compress_vec(bytes) {
        Ok(c) => Some(c),
        Err(_) => None,
    }
}

/// The body of a publication: the encoded write request compressed in the raw Snappy format;
/// `None` for a request too large to compress.
pub fn compress_write_request(encoded: &[u8]) -> (r: Option<Vec<u8>>)
    ensures
        r is Some <==> compressible(encoded@.len() as int),
        r matches Some(c) ==> c@ == snappy_compressed(encoded@),
{
    let n = encoded.len() as u64;
    if n > 4_294_967_295 || 32 + n + n / 6 > 4_294_967_295 {
        None
    } else {
        snappy_compress(encoded)
    }
}

/// The exit status of the service when metrics cannot be published (EX_UNAVAILABLE).
pub const PUBLISH_UNAVAILABLE: i32 = 0x45;

/// The number of failed publications in a row that the publisher tolerates.
pub const MAX_PUBLISH_RETRIES: u8 = 3;

/// What came of one publication of metrics.
#[derive(Clone, Copy, Debug, PartialEq, Eq, Structural)]
pub enum PublishOutcome {
    /// The request got an answer, whatever its status.
    Answered,
    /// The request did not get an answer.
    Failed,
}

/// What the publisher does after a publication; the published batch is dropped either way.
#[derive(Clone, Copy, Debug, PartialEq, Eq, Structural)]
pub enum PublishAction {
    /// Carry on with the next batch.
    Continue,
    /// Wait five seconds, then carry on.
    RetryAfterPause,
    /// Stop the service with status `PUBLISH_UNAVAILABLE`.
    Exit,
}

/// The failure count of the publisher after `n` failed publications in a row, starting
/// from `start`, as long as it has not stopped.
pub open spec fn publish_failures_after(start: u8, n: nat) -> int
    decreases n,
{
    if n == 0 {
        start as int
    } else {
        publish_failures_after(start, (n - 1) as nat) + 1
    }
}

/// The failure count of the metrics publisher.
pub struct MetricsPublisher {
    retries: u8,
}

impl MetricsPublisher {
    /// The number of failed publications since the last answered one.
    pub closed spec fn spec_retries(&self) -> u8 {
        self.retries
    }

    #[verifier::type_invariant]
    spec fn bounded(self) -> bool {
        self.retries <= MAX_PUBLISH_RETRIES
    }

    /// A publisher with no failures.
    pub fn new() -> (p: Self)
        ensures
            p.spec_retries() == 0,
    {
        MetricsPublisher { retries: 0 }
    }

    /// Decides what follows a publication: an answer clears the failure count; a failure
    /// is tolerated three times in a row, and the fourth stops the service.
    pub fn after_publish(&mut self, outcome: PublishOutcome) -> (action: PublishAction)
        ensures
            outcome == PublishOutcome::Answered ==> action == PublishAction::Continue && final(self).spec_retries() == 0,
            outcome == PublishOutcome::Failed && old(self).spec_retries() == MAX_PUBLISH_RETRIES ==> action
                == PublishAction::Exit && final(self).spec_retries() == old(self).spec_retries(),
            outcome == PublishOutcome::Failed && old(self).spec_retries() < MAX_PUBLISH_RETRIES ==> action
                == PublishAction::RetryAfterPause && final(self).spec_retries() == old(self).spec_retries() + 1,
            old(self).spec_retries() <= MAX_PUBLISH_RETRIES,
    {
        proof {
            use_type_invariant(&*self);
        }
        match outcome {
            PublishOutcome::Answered => {
                self.retries = 0;
                PublishAction::Continue
            },
            PublishOutcome::Failed => {
                if self.retries == MAX_PUBLISH_RETRIES {
                    PublishAction::Exit
                } else {
                    self.retries = self.retries + 1;
                    PublishAction::RetryAfterPause
                }
            },
        }
    }
}

/// From a fresh count, the publisher tolerates three failures in a row: after `n` of them
/// the count is `n`, and it stops at the fourth.
pub proof fn lemma_publisher_stops_at_fourth_failure(n: nat)
    ensures
        publish_failures_after(0, n) == n,
        (publish_failures_after(0, n) == MAX_PUBLISH_RETRIES) <==> n == 3,
    decreases n,
{
    if n > 0 {
        lemma_publisher_stops_at_fourth_failure((n - 1) as nat);
    }
}

} // verus!
