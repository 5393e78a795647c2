//! The rules of the Redis reader: how stream entries are sorted into log data and entries
//! to skip, how failures are classified, how reconnection backs off, and how the read
//! position and acknowledgements advance.

use vstd::prelude::*;
use vstd::string::*;
use crate::config::IngestorConfig;
use crate::models::log_message::{error_log_item, LogMessagePack, LogMsg};
use crate::models::AckAction;
use crate::parsing::debug_text;

verus! {

/// The Redis stream that BEC services write their logs to.
pub const LOGGING_ENDPOINT: &'static str = "info/log";

/// Reported when a stream reply does not hold the one key that was asked for.
pub const KEY_MISMATCH: &'static str = "We got a response for request with one key, there must be one key!";

/// Reported when a stream entry has no `data` field.
pub const NO_DATA: &'static str = "Uh oh, log message contained no data";

/// Reported when a stream entry's data is not binary or cannot be decoded.
pub const BAD_DATA: &'static str = "Log message data not binary-data or could not be decoded!";

/// A failure of the Redis side: worth retrying after reconnecting, or fatal (with the failure
/// that led to it, if any).
#[derive(Debug, PartialEq)]
pub enum RedisError {
    Retryable(String),
    Fatal((String, Box<Option<RedisError>>)),
}

/// The text describing a Redis error code: `Code: ` and the code, or `unknown` without one.
pub open spec fn code_text(code: Option<Seq<char>>) -> Seq<char> {
    "Code: "@ + match code {
        Some(c) => c,
        None => "unknown"@,
    }
}

/// The characters of an optional string.
pub open spec fn optional_view(s: Option<String>) -> Option<Seq<char>> {
    match s {
        Some(c) => Some(c@),
        None => None,
    }
}

/// The text describing a Redis error code: `Code: ` and the code, or `unknown` without one.
pub fn code_message(code: &Option<String>) -> (m: String)
    ensures
        m@ == code_text(optional_view(*code)),
{
    let mut m = String::from_str("Code: ");
    match code {
        Some(c) => m.append(c.as_str()),
        None => m.append("unknown"),
    }
    m
}

/// A retryable error for a failed Redis call with the given error code.
pub fn retryable_code(code: &Option<String>) -> (e: RedisError)
    ensures
        e matches RedisError::Retryable(m) && m@ == code_text(optional_view(*code)),
{
    RedisError::Retryable(code_message(code))
}

/// A fatal error, with no earlier cause, for a failed Redis call with the given error code.
pub fn fatal_code(code: &Option<String>) -> (e: RedisError)
    ensures
        e matches RedisError::Fatal((m, cause)) && m@ == code_text(optional_view(*code)) && *cause
            == None::<RedisError>,
{
    RedisError::Fatal((code_message(code), Box::new(None)))
}

/// The error for log data that is not binary or cannot be decoded.
pub fn bad_data_error() -> (e: RedisError)
    ensures
        e matches RedisError::Retryable(m) && m@ == BAD_DATA@,
{
    RedisError::Retryable(String::from_str(BAD_DATA))
}

/// The text Rust's `Debug` gives an optional string slice: `None`, or `Some(` and the
/// string as `Debug` shows it, then `)`.
pub open spec fn option_debug_text(code: Option<Seq<char>>) -> Seq<char> {
    match code {
        Some(c) => "Some("@ + debug_text(c) + ")"@,
        None => "None"@,
    }
}

/// Formats an optional string as `Debug` shows an `Option<&str>` (`None`, or `Some("…")`
/// with the string as `Debug` shows it).
#[verifier::external_body]
fn debug_code(code: &Option<String>) -> (s: String)
    ensures
        s@ == option_debug_text(optional_view(*code)),
{
    format!("{:?}", code.as_deref())
}

/// The error code Redis answers when a consumer group already exists.
pub open spec fn busy_group_code() -> Seq<char> {
    "BUSYGROUP"@
}

/// The message for a consumer group that could not be created.
pub open spec fn group_failure_text(group: Seq<char>, code: Option<Seq<char>>) -> Seq<char> {
    "Failed to create Redis consumer group "@ + group + "! Code: "@ + option_debug_text(code)
}

/// Decides what creating the consumer group came to: success, or a group that already
/// exists (Redis error code `BUSYGROUP`), lets reading go on; any other failure is fatal.
/// `created` is the result of the creation, with the Redis error code on failure.
pub fn consumer_group_outcome(created: &Result<(), Option<String>>, config: &IngestorConfig) -> (r:
    Result<(), RedisError>)
    ensures
        r is Ok <==> (created is Ok || (created matches Err(Some(c)) && c@ == busy_group_code())),
        r matches Err(e) ==> created matches Err(code) && e matches RedisError::Fatal((m, cause))
            && m@ == group_failure_text(config.redis.consumer_group@, optional_view(*code))
            && *cause == None::<RedisError>,
{
    match created {
        Ok(()) => Ok(()),
        Err(code) => {
            let busy = match code {
                Some(c) => {
                    let b = String::from_str("BUSYGROUP");
                    *c == b
                },
                None => false,
            };
            if busy {
                Ok(())
            } else {
                let mut m = String::from_str("Failed to create Redis consumer group ");
                m.append(config.redis.consumer_group.as_str());
                m.append("! Code: ");
                let d = debug_code(code);
                m.append(d.as_str());
                Err(RedisError::Fatal((m, Box::new(None))))
            }
        },
    }
}

/// Decides whether the logging stream can be read: a failed existence check is fatal, a
/// missing stream is worth retrying, an existing stream lets the consumer group be set up.
/// `exists` is the result of the existence check, with the Redis error code on failure.
pub fn endpoint_outcome(exists: &Result<bool, Option<String>>) -> (r: Result<(), RedisError>)
    ensures
        r is Ok <==> exists == Ok::<bool, Option<String>>(true),
        exists matches Err(code) ==> r matches Err(RedisError::Fatal((m, cause))) && m@ == code_text(
            optional_view(*code),
        ) && *cause == None::<RedisError>,
        exists == Ok::<bool, Option<String>>(false) ==> (r matches Err(RedisError::Retryable(m)) && m@
            == "No logging endpoint found"@),
{
    match exists {
        Ok(true) => Ok(()),
        Ok(false) => Err(RedisError::Retryable(String::from_str("No logging endpoint found"))),
        Err(code) => Err(fatal_code(code)),
    }
}

/// The value stored in a stream entry field: binary data, or anything else.
#[derive(Clone, Debug, PartialEq)]
pub enum StreamValue {
    BulkString(Vec<u8>),
    Other,
}

/// A stream entry: its ID and the value of its `data` field, if it has one.
#[derive(Clone, Debug, PartialEq)]
pub struct StreamEntry {
    pub id: String,
    pub data: Option<StreamValue>,
}

/// The entries read in one go, sorted into those with data and the IDs of those without.
#[derive(Clone, Debug, PartialEq)]
pub struct ReadLogsResult {
    pub entries: Vec<(String, StreamValue)>,
    pub skipped_ids: Vec<String>,
}

/// The entries that carry data, as (ID, data) pairs in stream order.
pub open spec fn entries_with_data(s: Seq<StreamEntry>) -> Seq<(String, StreamValue)>
    decreases s.len(),
{
    if s.len() == 0 {
        Seq::empty()
    } else {
        let earlier = entries_with_data(s.drop_last());
        match s.last().data {
            Some(v) => earlier.push((s.last().id, v)),
            None => earlier,
        }
    }
}

/// The IDs of the entries without data, in stream order.
pub open spec fn ids_without_data(s: Seq<StreamEntry>) -> Seq<String>
    decreases s.len(),
{
    if s.len() == 0 {
        Seq::empty()
    } else {
        let earlier = ids_without_data(s.drop_last());
        match s.last().data {
            Some(_) => earlier,
            None => earlier.push(s.last().id),
        }
    }
}

/// A read keeps the entries that carry data, in stream order, and the IDs of those that do
/// not, in stream order.
pub proof fn lemma_read_partition(s: Seq<StreamEntry>)
    ensures
        entries_with_data(s) == s.filter(|e: StreamEntry| e.data is Some).map_values(
            |e: StreamEntry| (e.id, e.data->0),
        ),
        ids_without_data(s) == s.filter(|e: StreamEntry| e.data is None).map_values(|e: StreamEntry| e.id),
    decreases s.len(),
{
    reveal(Seq::filter);
    if s.len() > 0 {
        lemma_read_partition(s.drop_last());
        let with = s.drop_last().filter(|e: StreamEntry| e.data is Some);
        let without = s.drop_last().filter(|e: StreamEntry| e.data is None);
        assert(with.push(s.last()).map_values(|e: StreamEntry| (e.id, e.data->0)) =~= with.map_values(
            |e: StreamEntry| (e.id, e.data->0),
        ).push((s.last().id, s.last().data->0)));
        assert(without.push(s.last()).map_values(|e: StreamEntry| e.id) =~= without.map_values(
            |e: StreamEntry| e.id,
        ).push(s.last().id));
    } else {
        assert(s.filter(|e: StreamEntry| e.data is Some).map_values(|e: StreamEntry| (e.id, e.data->0))
            =~= Seq::<(String, StreamValue)>::empty());
        assert(s.filter(|e: StreamEntry| e.data is None).map_values(|e: StreamEntry| e.id)
            =~= Seq::<String>::empty());
    }
}

/// The backoff doubles with each failure, starting from one.
pub proof fn lemma_backoff_doubles(n: nat)
    ensures
        pow2(0) == 1,
        pow2(n + 1) == 2 * pow2(n),
        pow2(n) == vstd::arithmetic::power2::pow2(n),
    decreases n,
{
    vstd::arithmetic::power2::lemma_pow2_unfold(n + 1);
    if n > 0 {
        lemma_backoff_doubles((n - 1) as nat);
        vstd::arithmetic::power2::lemma_pow2_unfold(n);
    } else {
        vstd::arithmetic::power::lemma_pow0(2);
    }
}

/// No two entries of a stream share an ID.
pub open spec fn stream_ids_distinct(s: Seq<StreamEntry>) -> bool {
    forall|i: int, j: int| 0 <= i < s.len() && 0 <= j < s.len() && i != j ==> #[trigger] s[i].id@ != #[trigger] s[j].id@
}

/// Some entry of the stream carries the ID, with data or without, as `with_data` says.
spec fn has_source(s: Seq<StreamEntry>, id: String, with_data: bool) -> bool {
    exists|p: int| 0 <= p < s.len() && #[trigger] s[p].id == id && (s[p].data is Some) == with_data
}

/// Every entry with data and every ID without data comes from an entry of the stream with,
/// respectively without, data.
proof fn lemma_partition_sources(s: Seq<StreamEntry>)
    ensures
        forall|i: int| 0 <= i < entries_with_data(s).len() ==> has_source(s, #[trigger] entries_with_data(s)[i].0, true),
        forall|j: int| 0 <= j < ids_without_data(s).len() ==> has_source(s, #[trigger] ids_without_data(s)[j], false),
    decreases s.len(),
{
    if s.len() > 0 {
        let t = s.drop_last();
        let n = s.len() - 1;
        lemma_partition_sources(t);
        assert forall|i: int| 0 <= i < entries_with_data(s).len() implies has_source(
            s,
            #[trigger] entries_with_data(s)[i].0,
            true,
        ) by {
            if i < entries_with_data(t).len() {
                assert(entries_with_data(s)[i] == entries_with_data(t)[i]);
                assert(has_source(t, entries_with_data(t)[i].0, true));
                let p = choose|p: int| 0 <= p < t.len() && #[trigger] t[p].id == entries_with_data(t)[i].0 && (t[p].data is Some) == true;
                assert(s[p] == t[p]);
            } else {
                assert(entries_with_data(s)[i].0 == s[n].id);
                assert(s[n].id == entries_with_data(s)[i].0);
            }
        }
        assert forall|j: int| 0 <= j < ids_without_data(s).len() implies has_source(
            s,
            #[trigger] ids_without_data(s)[j],
            false,
        ) by {
            if j < ids_without_data(t).len() {
                assert(ids_without_data(s)[j] == ids_without_data(t)[j]);
                assert(has_source(t, ids_without_data(t)[j], false));
                let q = choose|q: int| 0 <= q < t.len() && #[trigger] t[q].id == ids_without_data(t)[j] && (t[q].data is Some) == false;
                assert(s[q] == t[q]);
            } else {
                assert(ids_without_data(s)[j] == s[n].id);
                assert(s[n].id == ids_without_data(s)[j]);
            }
        }
    }
}

/// With distinct stream IDs, no entry is both among those with data and among those without.
proof fn lemma_partition_distinct(s: Seq<StreamEntry>)
    requires
        stream_ids_distinct(s),
    ensures
        forall|i: int, j: int|
            0 <= i < entries_with_data(s).len() && 0 <= j < ids_without_data(s).len() ==> #[trigger] entries_with_data(s)[i].0@
                != #[trigger] ids_without_data(s)[j]@,
{
    lemma_partition_sources(s);
    assert forall|i: int, j: int|
        0 <= i < entries_with_data(s).len() && 0 <= j < ids_without_data(s).len() implies #[trigger] entries_with_data(s)[i].0@
            != #[trigger] ids_without_data(s)[j]@ by {
        assert(has_source(s, entries_with_data(s)[i].0, true));
        assert(has_source(s, ids_without_data(s)[j], false));
        let p = choose|p: int| 0 <= p < s.len() && #[trigger] s[p].id == entries_with_data(s)[i].0 && (s[p].data is Some) == true;
        let q = choose|q: int| 0 <= q < s.len() && #[trigger] s[q].id == ids_without_data(s)[j] && (s[q].data is Some) == false;
        assert(p != q);
    }
}

/// Sorts the entries of a stream reply. `keys` holds, for each stream in the reply, its
/// entries; only the logging stream is asked for, so only the first is looked at. An empty
/// reply yields nothing to do.
pub fn read_logs_result(keys: Vec<Vec<StreamEntry>>) -> (r: Result<ReadLogsResult, RedisError>)
    ensures
        r matches Ok(res) && (keys@.len() == 0 ==> res.entries@.len() == 0 && res.skipped_ids@.len()
            == 0) && (keys@.len() > 0 ==> res.entries@ == entries_with_data(keys@[0]@)
            && res.skipped_ids@ == ids_without_data(keys@[0]@)) && (keys@.len() > 0 && stream_ids_distinct(
            keys@[0]@,
        ) ==> read_ids_distinct(res)),
{
    let mut keys = keys;
    if keys.len() == 0 {
        return Ok(ReadLogsResult { entries: Vec::new(), skipped_ids: Vec::new() });
    }
    let first = keys.remove(0);
    let ghost all = first@;
    let mut rest = first;
    let total: usize = rest.len();
    let mut taken: usize = 0;
    let mut entries: Vec<(String, StreamValue)> = Vec::new();
    let mut skipped_ids: Vec<String> = Vec::new();
    while rest.len() > 0
        invariant
            all.len() == total,
            taken + rest@.len() == all.len(),
            rest@ == all.subrange(taken as int, all.len() as int),
            entries@ == entries_with_data(all.take(taken as int)),
            skipped_ids@ == ids_without_data(all.take(taken as int)),
        decreases rest@.len(),
    {
        let e = rest.remove(0);
        proof {
            assert(all[taken as int] == e);
            assert(all.take(taken + 1).drop_last() =~= all.take(taken as int));
        }
        match e.data {
            Some(v) => entries.push((e.id, v)),
            None => skipped_ids.push(e.id),
        }
        taken = taken + 1;
        proof {
            assert(rest@ =~= all.subrange(taken as int, all.len() as int));
        }
    }
    proof {
        assert(all.take(taken as int) =~= all);
    }
    proof {
        if stream_ids_distinct(all) {
            lemma_partition_distinct(all);
        }
    }
    Ok(ReadLogsResult { entries, skipped_ids })
}

/// The binary payloads of stream values; an error if any value is not binary.
pub fn bulk_payloads(values: &Vec<StreamValue>) -> (r: Result<Vec<Vec<u8>>, RedisError>)
    ensures
        r is Ok <==> forall|i: int| 0 <= i < values@.len() ==> #[trigger] values@[i] is BulkString,
        r matches Ok(p) ==> p@.len() == values@.len() && forall|i: int| 0 <= i < p@.len() ==> (values@[i]
            matches StreamValue::BulkString(b) && #[trigger] p@[i]@ == b@),
        r matches Err(e) ==> e matches RedisError::Retryable(m) && m@ == BAD_DATA@,
{
    let mut payloads: Vec<Vec<u8>> = Vec::new();
    let mut i: usize = 0;
    while i < values.len()
        invariant
            i <= values@.len(),
            payloads@.len() == i,
            forall|j: int| 0 <= j < i ==> #[trigger] values@[j] is BulkString,
            forall|j: int| 0 <= j < i ==> (values@[j] matches StreamValue::BulkString(b) && #[trigger] payloads@[j]@ == b@),
        decreases values@.len() - i,
    {
        match &values[i] {
            StreamValue::BulkString(b) => {
                payloads.push(b.clone());
            },
            StreamValue::Other => {
                return Err(bad_data_error());
            },
        }
        i = i + 1;
    }
    Ok(payloads)
}

/// The log records inside decoded stream entries, in order.
pub fn extract_records(messages: &Vec<LogMessagePack>) -> (records: Vec<LogMsg>)
    ensures
        records@.len() == messages@.len(),
        forall|i: int| 0 <= i < records@.len() ==> #[trigger] records@[i] == messages@[i].bec_codec.data.log_msg,
{
    let mut records: Vec<LogMsg> = Vec::new();
    let mut i: usize = 0;
    while i < messages.len()
        invariant
            i <= messages@.len(),
            records@.len() == i,
            forall|j: int| 0 <= j < i ==> #[trigger] records@[j] == messages@[j].bec_codec.data.log_msg,
        decreases messages@.len() - i,
    {
        records.push(messages[i].bec_codec.data.log_msg.copied());
        i = i + 1;
    }
    records
}

/// The records to forward for a batch: those decoded from the entries, or, when decoding
/// failed, the single stand-in error record.
pub fn records_for_batch(decoded: Result<Vec<LogMessagePack>, RedisError>, packed: Vec<StreamValue>) -> (records: Vec<LogMsg>)
    ensures
        decoded matches Ok(ms) ==> records@.len() == ms@.len() && forall|i: int| 0 <= i < records@.len()
            ==> #[trigger] records@[i] == ms@[i].bec_codec.data.log_msg,
        decoded is Err ==> records@.len() == 1 && crate::models::log_message::is_undecodable_record(
            records@[0],
        ),
{
    match decoded {
        Ok(ms) => extract_records(&ms),
        Err(_) => {
            let mut items: Vec<LogMessagePack> = Vec::new();
            items.push(error_log_item(packed));
            extract_records(&items)
        },
    }
}

/// The power of two with exponent `n`.
pub open spec fn pow2(n: nat) -> nat
    decreases n,
{
    if n == 0 {
        1
    } else {
        2 * pow2((n - 1) as nat)
    }
}

proof fn lemma_pow2_monotonic(a: nat, b: nat)
    requires
        a <= b,
    ensures
        pow2(a) <= pow2(b),
        pow2(a) >= 1,
    decreases b,
{
    if b > a {
        lemma_pow2_monotonic(a, (b - 1) as nat);
    } else if a > 0 {
        lemma_pow2_monotonic((a - 1) as nat, (a - 1) as nat);
    }
}

/// The waits between connection attempts stay within 64 bits: the longest is
/// `initial_sleep * 2^(max_retries - 1)` milliseconds.
pub open spec fn backoff_bounded(max_retries: u8, initial_sleep: u64) -> bool {
    &&& max_retries <= 31
    &&& (max_retries == 0 || initial_sleep * pow2((max_retries - 1) as nat) <= u64::MAX)
}

/// Whether the waits between connection attempts stay within 64 bits.
pub fn is_backoff_bounded(max_retries: u8, initial_sleep: u64) -> (b: bool)
    ensures
        b == backoff_bounded(max_retries, initial_sleep),
{
    if max_retries > 31 {
        return false;
    }
    if max_retries == 0 {
        return true;
    }
    let mut wait: u64 = initial_sleep;
    let mut k: u8 = 0;
    assert(initial_sleep * pow2(0) == initial_sleep) by {
        assert(pow2(0) == 1);
    }
    while k < max_retries - 1
        invariant
            k <= max_retries - 1,
            max_retries <= 31,
            wait == initial_sleep * pow2(k as nat),
        decreases max_retries - 1 - k,
    {
        if wait > u64::MAX / 2 {
            proof {
                lemma_pow2_monotonic((k + 1) as nat, (max_retries - 1) as nat);
                assert(initial_sleep * pow2((k + 1) as nat) == 2 * wait) by (nonlinear_arith)
                    requires wait == initial_sleep * pow2(k as nat), pow2((k + 1) as nat) == 2 * pow2(k as nat);
                assert(initial_sleep * pow2((k + 1) as nat) <= initial_sleep * pow2((max_retries - 1) as nat)) by (nonlinear_arith)
                    requires pow2((k + 1) as nat) <= pow2((max_retries - 1) as nat);
            }
            return false;
        }
        proof {
            assert(initial_sleep * pow2((k + 1) as nat) == 2 * wait) by (nonlinear_arith)
                requires wait == initial_sleep * pow2(k as nat), pow2((k + 1) as nat) == 2 * pow2(k as nat);
        }
        wait = wait * 2;
        k = k + 1;
    }
    true
}

/// The reconnection schedule: up to `max_retries` attempts, waiting `initial_sleep`
/// milliseconds after the first failure and twice as long after each further one.
pub struct ConnectRetry {
    attempts: u8,
    max_retries: u8,
    initial_sleep: u64,
    last_error: Option<RedisError>,
}

impl ConnectRetry {
    #[verifier::type_invariant]
    spec fn within_schedule(self) -> bool {
        &&& backoff_bounded(self.max_retries, self.initial_sleep)
        &&& self.attempts <= self.max_retries
        &&& (self.attempts == 0 <==> self.last_error is None)
    }

    /// The number of failed attempts so far.
    pub closed spec fn spec_attempts(&self) -> u8 {
        self.attempts
    }

    /// The most attempts allowed.
    pub closed spec fn spec_max_retries(&self) -> u8 {
        self.max_retries
    }

    /// The wait after the first failure, in milliseconds.
    pub closed spec fn spec_initial_sleep(&self) -> u64 {
        self.initial_sleep
    }

    /// The failure of the latest attempt, if any.
    pub closed spec fn spec_last_error(&self) -> Option<RedisError> {
        self.last_error
    }

    /// A schedule with no attempt made yet.
    pub fn new(max_retries: u8, initial_sleep: u64) -> (r: Self)
        requires
            backoff_bounded(max_retries, initial_sleep),
        ensures
            r.spec_attempts() == 0,
            r.spec_max_retries() == max_retries,
            r.spec_initial_sleep() == initial_sleep,
            r.spec_last_error() is None,
    {
        ConnectRetry { attempts: 0, max_retries, initial_sleep, last_error: None }
    }

    /// Whether another attempt may be made.
    pub fn may_attempt(&self) -> (b: bool)
        ensures
            b == (self.spec_attempts() < self.spec_max_retries()),
    {
        self.attempts < self.max_retries
    }

    /// Records a failed attempt and returns how many milliseconds to wait before the next:
    /// `initial_sleep * 2^n` after the failure numbered `n` from zero.
    pub fn record_failure(&mut self, error: RedisError) -> (wait: u64)
        requires
            old(self).spec_attempts() < old(self).spec_max_retries(),
        ensures
            wait == old(self).spec_initial_sleep() * pow2(old(self).spec_attempts() as nat),
            final(self).spec_attempts() == old(self).spec_attempts() + 1,
            final(self).spec_max_retries() == old(self).spec_max_retries(),
            final(self).spec_initial_sleep() == old(self).spec_initial_sleep(),
            final(self).spec_last_error() == Some(error),
    {
        proof {
            use_type_invariant(&*self);
        }
        let mut wait: u64 = self.initial_sleep;
        let mut k: u8 = 0;
        assert(pow2(0) == 1);
        assert(self.initial_sleep * 1 == self.initial_sleep);
        while k < self.attempts
            invariant
                k <= self.attempts,
                self.attempts < self.max_retries,
                backoff_bounded(self.max_retries, self.initial_sleep),
                wait == self.initial_sleep * pow2(k as nat),
            decreases self.attempts - k,
        {
            proof {
                lemma_pow2_monotonic((k + 1) as nat, (self.max_retries - 1) as nat);
                assert(self.initial_sleep * pow2((k + 1) as nat) == 2 * wait) by (nonlinear_arith)
                    requires wait == self.initial_sleep * pow2(k as nat), pow2((k + 1) as nat) == 2 * pow2(k as nat);
                assert(self.initial_sleep * pow2((k + 1) as nat) <= self.initial_sleep * pow2((self.max_retries - 1) as nat)) by (nonlinear_arith)
                    requires pow2((k + 1) as nat) <= pow2((self.max_retries - 1) as nat);
            }
            wait = wait * 2;
            k = k + 1;
        }
        let attempts = self.attempts + 1;
        let max_retries = self.max_retries;
        let initial_sleep = self.initial_sleep;
        *self = ConnectRetry { attempts, max_retries, initial_sleep, last_error: Some(error) };
        wait
    }

    /// The error once every attempt has failed: the failure of the last attempt, as it was;
    /// when no attempt was allowed at all, a fatal "Max retries exceeded" with no cause.
    pub fn give_up(self) -> (e: RedisError)
        ensures
            self.spec_last_error() is Some <==> self.spec_attempts() > 0,
            self.spec_last_error() matches Some(last) ==> e == last,
            self.spec_last_error() is None ==> (e matches RedisError::Fatal((m, cause)) && m@
                == "Max retries exceeded"@ && *cause == None::<RedisError>),
    {
        proof {
            use_type_invariant(&self);
        }
        match self.last_error {
            Some(last) => last,
            None => RedisError::Fatal((String::from_str("Max retries exceeded"), Box::new(None))),
        }
    }
}

/// The read position a fresh reader starts from: the beginning of the stream.
pub open spec fn initial_read_id() -> Seq<char> {
    "0"@
}

/// The read position that follows a read: after the last entry seen (the last skipped one
/// if any, else the last one with data); once a read brings no data, only new entries
/// (`>`) are asked for.
pub open spec fn next_read_id(current: Seq<char>, result: ReadLogsResult) -> Seq<char> {
    if result.entries@.len() == 0 {
        ">"@
    } else if result.skipped_ids@.len() > 0 {
        result.skipped_ids@.last()@
    } else {
        result.entries@.last().0@
    }
}

/// What the reader does with one read: acknowledge the entries without data and, if any
/// entries carry data, forward their values with their IDs.
pub struct ReadStep {
    pub skipped_ids: Vec<String>,
    pub batch: Option<(Vec<StreamValue>, Vec<String>)>,
}

/// What happens to the Redis reader: a read of the stream, or the acknowledgement the Loki
/// pusher hands back for the batch it was sent.
pub enum ProducerEvent {
    Read(ReadLogsResult),
    Acknowledge(AckAction),
}

/// The IDs of the entries of a read that carry data, in stream order.
pub open spec fn sent_ids(result: ReadLogsResult) -> Seq<Seq<char>> {
    result.entries@.map_values(|e: (String, StreamValue)| e.0@)
}

/// The IDs of the batch awaiting acknowledgement after an event, if any; `None` when the
/// event may not happen then. A read may only happen when no batch awaits acknowledgement,
/// and sends the entries with data as the new awaited batch; an acknowledgement may only
/// come for an awaited batch, and clears it.
pub open spec fn producer_step(in_flight: Option<Seq<Seq<char>>>, event: ProducerEvent) -> Option<
    Option<Seq<Seq<char>>>,
> {
    match event {
        ProducerEvent::Read(result) => if in_flight is None {
            Some(
                if result.entries@.len() > 0 {
                    Some(sent_ids(result))
                } else {
                    None
                },
            )
        } else {
            None
        },
        ProducerEvent::Acknowledge(_) => if in_flight is Some {
            Some(None)
        } else {
            None
        },
    }
}

/// The batch awaiting acknowledgement after a run of events from the start, or `None` if
/// some event in the run may not happen.
pub open spec fn producer_run(events: Seq<ProducerEvent>) -> Option<Option<Seq<Seq<char>>>>
    decreases events.len(),
{
    if events.len() == 0 {
        Some(None)
    } else {
        match producer_run(events.drop_last()) {
            Some(in_flight) => producer_step(in_flight, events.last()),
            None => None,
        }
    }
}

/// The number of reads in a run that sent a batch.
pub open spec fn batches_sent(events: Seq<ProducerEvent>) -> int
    decreases events.len(),
{
    if events.len() == 0 {
        0
    } else {
        batches_sent(events.drop_last()) + if events.last() matches ProducerEvent::Read(r)
            && r.entries@.len() > 0 {
            1int
        } else {
            0int
        }
    }
}

/// The number of acknowledgements in a run.
pub open spec fn acknowledgements(events: Seq<ProducerEvent>) -> int
    decreases events.len(),
{
    if events.len() == 0 {
        0
    } else {
        acknowledgements(events.drop_last()) + if events.last() is Acknowledge {
            1int
        } else {
            0int
        }
    }
}

/// At most one batch sent by the Redis reader awaits its acknowledgement: in every run the
/// reader can take, the batches sent exceed the acknowledgements by zero or one, a batch
/// awaits exactly when they exceed them by one, and no read can follow while it awaits.
pub proof fn lemma_at_most_one_batch_in_flight(events: Seq<ProducerEvent>, next: ReadLogsResult)
    ensures
        producer_run(events) matches Some(in_flight) ==> {
            &&& 0 <= batches_sent(events) - acknowledgements(events) <= 1
            &&& (in_flight is Some <==> batches_sent(events) - acknowledgements(events) == 1)
        },
        producer_run(events) matches Some(Some(_)) ==> producer_run(events.push(ProducerEvent::Read(next)))
            is None,
    decreases events.len(),
{
    assert(events.push(ProducerEvent::Read(next)).drop_last() =~= events);
    if events.len() > 0 {
        lemma_at_most_one_batch_in_flight(events.drop_last(), next);
    }
}

/// The stream IDs the reader acknowledges on an event: on a read, those of the entries
/// without data; on an acknowledgement, those the pusher handed back.
pub open spec fn step_acks(event: ProducerEvent) -> Seq<Seq<char>> {
    match event {
        ProducerEvent::Read(result) => result.skipped_ids@.map_values(|id: String| id@),
        ProducerEvent::Acknowledge(action) => action.spec_entry_ids().map_values(|id: String| id@),
    }
}

/// No entry of a read is both among those with data and among those without, as holds when
/// the stream's entry IDs are distinct.
pub open spec fn read_ids_distinct(result: ReadLogsResult) -> bool {
    forall|i: int, j: int|
        0 <= i < result.entries@.len() && 0 <= j < result.skipped_ids@.len() ==> #[trigger] result.entries@[i].0@
            != #[trigger] result.skipped_ids@[j]@
}

/// Sent entries are acknowledged only through the pusher's action: what a read acknowledges
/// holds none of the IDs it sends, and what an acknowledgement acknowledges is exactly the
/// pusher's IDs.
pub proof fn lemma_sent_ids_acknowledged_only_by_pusher(event: ProducerEvent, id: Seq<char>)
    requires
        event matches ProducerEvent::Read(result) ==> read_ids_distinct(result),
    ensures
        event matches ProducerEvent::Read(result) && sent_ids(result).contains(id) ==> !step_acks(event).contains(id),
        event matches ProducerEvent::Acknowledge(action) ==> step_acks(event) == action.spec_entry_ids().map_values(
            |i: String| i@,
        ),
{
    if let ProducerEvent::Read(result) = event {
        if sent_ids(result).contains(id) && step_acks(event).contains(id) {
            let i = choose|i: int| 0 <= i < sent_ids(result).len() && sent_ids(result)[i] == id;
            let j = choose|j: int| 0 <= j < step_acks(event).len() && step_acks(event)[j] == id;
            assert(result.entries@[i].0@ != result.skipped_ids@[j]@);
        }
    }
}

/// The position the Redis reader reads from, and the IDs of the batch it sent that awaits
/// acknowledgement, if any.
pub struct ProducerState {
    read_id: String,
    in_flight: Option<Vec<String>>,
}

impl ProducerState {
    /// The stream ID the next read starts after.
    pub closed spec fn spec_read_id(&self) -> Seq<char> {
        self.read_id@
    }

    /// The IDs of the batch awaiting acknowledgement, if any.
    pub closed spec fn spec_in_flight(&self) -> Option<Seq<Seq<char>>> {
        match self.in_flight {
            Some(ids) => Some(ids@.map_values(|id: String| id@)),
            None => None,
        }
    }

    /// A reader at the beginning of the stream, with no batch awaiting acknowledgement.
    pub fn new() -> (p: Self)
        ensures
            p.spec_read_id() == initial_read_id(),
            p.spec_in_flight() == producer_run(Seq::empty())->0,
    {
        ProducerState { read_id: String::from_str("0"), in_flight: None }
    }

    /// Whether a sent batch awaits acknowledgement.
    pub fn awaits_acknowledgement(&self) -> (b: bool)
        ensures
            b == self.spec_in_flight() is Some,
    {
        self.in_flight.is_some()
    }

    /// Takes the acknowledgement of the awaited batch: clears it, hands back the stream IDs to
    /// acknowledge (those of the pusher's action), and says whether the reader reads on
    /// (`None`) or stops with a fatal error, as `after_acknowledgement` does.
    pub fn on_acknowledgement(&mut self, action: AckAction) -> (r: (Vec<String>, Option<RedisError>))
        requires
            old(self).spec_in_flight() is Some,
        ensures
            Some(final(self).spec_in_flight()) == producer_step(
                old(self).spec_in_flight(),
                ProducerEvent::Acknowledge(action),
            ),
            final(self).spec_read_id() == old(self).spec_read_id(),
            r.0@.map_values(|id: String| id@) == step_acks(ProducerEvent::Acknowledge(action)),
            r.1 is None <==> !(action is AckAndStop),
            r.1 matches Some(e) ==> e matches RedisError::Fatal((m, cause)) && m@
                == "Non-retryable Loki response for buffered logs"@ && *cause == None::<RedisError>,
    {
        self.in_flight = None;
        let stop = after_acknowledgement(&action);
        let ids = match action {
            AckAction::Ack(ids) => ids,
            AckAction::AckAndStop(ids) => ids,
        };
        (ids, stop)
    }

    /// The stream ID the next read starts after.
    pub fn read_id(&self) -> (id: &String)
        ensures
            id@ == self.spec_read_id(),
    {
        &self.read_id
    }

    /// Takes the result of a read: advances the read position and says what to acknowledge
    /// right away and what to forward.
    pub fn on_read(&mut self, result: ReadLogsResult) -> (step: ReadStep)
        requires
            old(self).spec_in_flight() is None,
        ensures
            Some(final(self).spec_in_flight()) == producer_step(
                old(self).spec_in_flight(),
                ProducerEvent::Read(result),
            ),
            final(self).spec_read_id() == next_read_id(old(self).spec_read_id(), result),
            step.skipped_ids@ == result.skipped_ids@,
            step.skipped_ids@.map_values(|id: String| id@) == step_acks(ProducerEvent::Read(result)),
            result.entries@.len() == 0 ==> step.batch is None,
            result.entries@.len() > 0 ==> step.batch is Some,
            step.batch is Some ==> {
                let (values, ids) = step.batch->0;
                &&& values@.len() == result.entries@.len()
                &&& ids@.len() == result.entries@.len()
                &&& forall|i: int| 0 <= i < ids@.len() ==> #[trigger] values@[i] == result.entries@[i].1
                &&& forall|i: int| 0 <= i < ids@.len() ==> #[trigger] ids@[i] == result.entries@[i].0
            },
    {
        let ghost entries = result.entries@;
        let n = result.entries.len();
        if n == 0 {
            self.read_id = String::from_str(">");
            return ReadStep { skipped_ids: result.skipped_ids, batch: None };
        }
        let nskipped = result.skipped_ids.len();
        if nskipped > 0 {
            self.read_id = result.skipped_ids[nskipped - 1].clone();
        } else {
            self.read_id = result.entries[n - 1].0.clone();
        }
        let mut values: Vec<StreamValue> = Vec::new();
        let mut ids: Vec<String> = Vec::new();
        let mut kept: Vec<String> = Vec::new();
        let mut rest = result.entries;
        let mut taken: usize = 0;
        while rest.len() > 0
            invariant
                entries.len() == n,
                taken + rest@.len() == entries.len(),
                rest@ == entries.subrange(taken as int, entries.len() as int),
                values@.len() == taken,
                ids@.len() == taken,
                kept@.len() == taken,
                forall|i: int| 0 <= i < taken ==> #[trigger] values@[i] == entries[i].1,
                forall|i: int| 0 <= i < taken ==> #[trigger] ids@[i] == entries[i].0,
                forall|i: int| 0 <= i < taken ==> #[trigger] kept@[i] == entries[i].0,
            decreases rest@.len(),
        {
            let (id, v) = rest.remove(0);
            proof {
                assert(entries[taken as int] == (id, v));
            }
            values.push(v);
            kept.push(id.clone());
            ids.push(id);
            taken = taken + 1;
            proof {
                assert(rest@ =~= entries.subrange(taken as int, entries.len() as int));
            }
        }
        proof {
            assert(kept@.map_values(|id: String| id@) =~= entries.map_values(
                |e: (String, StreamValue)| e.0@,
            ));
        }
        self.in_flight = Some(kept);
        ReadStep { skipped_ids: result.skipped_ids, batch: Some((values, ids)) }
    }
}

/// After the acknowledgement asked for by the pusher: `None` to read on, or the fatal error
/// the reader stops with when the pusher asked it to stop.
pub fn after_acknowledgement(action: &AckAction) -> (r: Option<RedisError>)
    ensures
        r is None <==> !(action is AckAndStop),
        r matches Some(e) ==> e matches RedisError::Fatal((m, cause)) && m@
            == "Non-retryable Loki response for buffered logs"@ && *cause == None::<RedisError>,
{
    if action.should_stop() {
        Some(
            RedisError::Fatal(
                (String::from_str("Non-retryable Loki response for buffered logs"), Box::new(None)),
            ),
        )
    } else {
        None
    }
}

} // verus!
