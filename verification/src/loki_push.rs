//! The document pushed to Loki, and the rules of the pusher: which records go into which
//! stream, when buffered logs are retried, acknowledged or given up on.

use vstd::prelude::*;
use vstd::string::*;
use crate::config::{IngestorConfig, LokiConfig};
use crate::models::log_message::{JsonText, LogMsg, Timestamp};
use crate::models::{AckAction, RedisLogBatch};
use crate::text::{decimal_digits, decimal_string, lemma_seq_lt_asymmetric, lemma_seq_lt_total,
    lemma_seq_lt_transitive, seq_lt, str_less};

verus! {

/// One log line as Loki ingests it: the time, the message and the structured metadata.
pub struct LokiEntry {
    /// Written out as nanoseconds since the Unix epoch when the document is serialised.
    pub time: Timestamp,
    pub message: String,
    pub file_name: String,
    pub file_location: String,
    pub function: String,
    pub line: String,
    pub module: String,
    pub beamline_name: String,
    pub proc_id: String,
    /// The record's exception as JSON, or the JSON string `"None"` when it has none.
    pub exception: JsonText,
}

/// The log lines of one level and one service, labelled for Loki.
pub struct LokiStream {
    pub label: String,
    pub hostname: String,
    pub level: String,
    pub service_name: String,
    pub values: Vec<LokiEntry>,
}

/// The body of one push to Loki.
pub struct LokiPushBody {
    pub streams: Vec<LokiStream>,
}

/// The stream a record belongs to: its level name and the name of its service.
pub open spec fn stream_key(m: LogMsg) -> (Seq<char>, Seq<char>) {
    (m.record.level.name@, m.service_name@)
}

/// The key a stream is labelled with.
pub open spec fn key_of(s: LokiStream) -> (Seq<char>, Seq<char>) {
    (s.level@, s.service_name@)
}

/// Streams are ordered by level name, then by service name, in character order.
pub open spec fn key_lt(a: (Seq<char>, Seq<char>), b: (Seq<char>, Seq<char>)) -> bool {
    seq_lt(a.0, b.0) || (a.0 == b.0 && seq_lt(a.1, b.1))
}

/// The JSON of a record's exception: the exception itself, or the string "None".
pub open spec fn exception_json(m: LogMsg) -> Seq<char> {
    match m.record.exception {
        Some(t) => t.0@,
        None => "\"None\""@,
    }
}

/// `e` is the Loki line for record `m` of a service at beamline `beamline`.
pub open spec fn entry_matches(e: LokiEntry, m: LogMsg, beamline: Seq<char>) -> bool {
    &&& e.time == m.record.time
    &&& e.message@ == m.record.message@
    &&& e.file_name@ == m.record.file.name@
    &&& e.file_location@ == m.record.file.path@
    &&& e.function@ == m.record.function@
    &&& e.line@ == decimal_digits(m.record.line as nat)
    &&& e.module@ == m.record.module@
    &&& e.beamline_name@ == beamline
    &&& e.proc_id@ == decimal_digits(m.record.process.id as nat)
    &&& e.exception.0@ == exception_json(m)
}

/// The records with the given stream key, in their original order.
pub open spec fn messages_with_key(msgs: Seq<LogMsg>, key: (Seq<char>, Seq<char>)) -> Seq<LogMsg>
    decreases msgs.len(),
{
    if msgs.len() == 0 {
        Seq::empty()
    } else {
        let earlier = messages_with_key(msgs.drop_last(), key);
        if stream_key(msgs.last()) == key {
            earlier.push(msgs.last())
        } else {
            earlier
        }
    }
}

/// `values` are the Loki lines of `msgs`, one for one and in order.
pub open spec fn values_match(values: Seq<LokiEntry>, msgs: Seq<LogMsg>, beamline: Seq<char>) -> bool {
    &&& values.len() == msgs.len()
    &&& forall|k: int| 0 <= k < values.len() ==> entry_matches(#[trigger] values[k], msgs[k], beamline)
}

/// `streams` is the Loki document for `msgs`: one stream per stream key that occurs, in
/// increasing key order, each labelled `bec_logs` with the host name, and each holding the
/// lines of exactly the records with its key, in their original order.
pub open spec fn body_describes(
    streams: Seq<LokiStream>,
    msgs: Seq<LogMsg>,
    beamline: Seq<char>,
    hostname: Seq<char>,
) -> bool {
    &&& forall|a: int, b: int|
        0 <= a < b < streams.len() ==> key_lt(key_of(#[trigger] streams[a]), key_of(#[trigger] streams[b]))
    &&& forall|j: int| 0 <= j < streams.len() ==> {
        &&& (#[trigger] streams[j]).label@ == "bec_logs"@
        &&& streams[j].hostname@ == hostname
        &&& streams[j].values@.len() > 0
        &&& values_match(streams[j].values@, messages_with_key(msgs, key_of(streams[j])), beamline)
    }
    &&& forall|k: int| 0 <= k < msgs.len() ==> exists|j: int|
        0 <= j < streams.len() && key_of(#[trigger] streams[j]) == stream_key(#[trigger] msgs[k])
}

/// Facts about the key order: it is a strict total order.
pub proof fn lemma_key_order(a: (Seq<char>, Seq<char>), b: (Seq<char>, Seq<char>), c: (Seq<char>, Seq<char>))
    ensures
        !key_lt(a, a),
        !(key_lt(a, b) && key_lt(b, a)),
        key_lt(a, b) && key_lt(b, c) ==> key_lt(a, c),
        a == b || key_lt(a, b) || key_lt(b, a),
{
    lemma_seq_lt_asymmetric(a.0, b.0);
    lemma_seq_lt_asymmetric(a.1, b.1);
    lemma_seq_lt_total(a.0, b.0);
    lemma_seq_lt_total(a.1, b.1);
    if key_lt(a, b) && key_lt(b, c) {
        if seq_lt(a.0, b.0) && seq_lt(b.0, c.0) {
            lemma_seq_lt_transitive(a.0, b.0, c.0);
        }
        if a.0 == b.0 && b.0 == c.0 {
            lemma_seq_lt_transitive(a.1, b.1, c.1);
        }
    }
    if a.0 == b.0 && a.1 == b.1 {
        assert(a == b);
    }
}

/// Adding a record to the end adds it to the records of its own key only.
pub proof fn lemma_messages_with_key_push(msgs: Seq<LogMsg>, m: LogMsg, key: (Seq<char>, Seq<char>))
    ensures
        messages_with_key(msgs.push(m), key) == if stream_key(m) == key {
            messages_with_key(msgs, key).push(m)
        } else {
            messages_with_key(msgs, key)
        },
{
    assert(msgs.push(m).drop_last() =~= msgs);
}

/// No record has the key, so none is selected.
pub proof fn lemma_messages_with_key_none(msgs: Seq<LogMsg>, key: (Seq<char>, Seq<char>))
    requires
        forall|k: int| 0 <= k < msgs.len() ==> stream_key(#[trigger] msgs[k]) != key,
    ensures
        messages_with_key(msgs, key) == Seq::<LogMsg>::empty(),
    decreases msgs.len(),
{
    if msgs.len() > 0 {
        let p = msgs.drop_last();
        assert forall|k: int| 0 <= k < p.len() implies stream_key(#[trigger] p[k]) != key by {
            assert(p[k] == msgs[k]);
        }
        lemma_messages_with_key_none(p, key);
        assert(stream_key(msgs[msgs.len() - 1]) != key);
    }
}

/// A Loki line made for a record carries the record's time and message, its file's name as
/// `file_name` and its file's path as `file_location`, its function and module, and the
/// beamline name.
pub proof fn lemma_line_fields(e: LokiEntry, m: LogMsg, beamline: Seq<char>)
    requires
        entry_matches(e, m, beamline),
    ensures
        e.time == m.record.time,
        e.message@ == m.record.message@,
        e.file_name@ == m.record.file.name@,
        e.file_location@ == m.record.file.path@,
        e.function@ == m.record.function@,
        e.module@ == m.record.module@,
        e.beamline_name@ == beamline,
{
}

/// The records of a stream are exactly those of the records whose level and service are the
/// stream's, in their original order.
pub proof fn lemma_messages_with_key_filter(msgs: Seq<LogMsg>, key: (Seq<char>, Seq<char>))
    ensures
        messages_with_key(msgs, key) == msgs.filter(
            |m: LogMsg| m.record.level.name@ == key.0 && m.service_name@ == key.1,
        ),
    decreases msgs.len(),
{
    reveal(Seq::filter);
    if msgs.len() > 0 {
        lemma_messages_with_key_filter(msgs.drop_last(), key);
    }
}

/// Every record selected for a key is one of the records, and has that key.
pub proof fn lemma_messages_with_key_members(msgs: Seq<LogMsg>, key: (Seq<char>, Seq<char>))
    ensures
        forall|i: int| 0 <= i < messages_with_key(msgs, key).len() ==> {
            &&& msgs.contains(#[trigger] messages_with_key(msgs, key)[i])
            &&& stream_key(messages_with_key(msgs, key)[i]) == key
        },
    decreases msgs.len(),
{
    if msgs.len() > 0 {
        let p = msgs.drop_last();
        lemma_messages_with_key_members(p, key);
        assert forall|i: int| 0 <= i < messages_with_key(msgs, key).len() implies {
            &&& msgs.contains(#[trigger] messages_with_key(msgs, key)[i])
            &&& stream_key(messages_with_key(msgs, key)[i]) == key
        } by {
            if i < messages_with_key(p, key).len() {
                assert(messages_with_key(msgs, key)[i] == messages_with_key(p, key)[i]);
                let q = choose|q: int| 0 <= q < p.len() && p[q] == messages_with_key(p, key)[i];
                assert(msgs[q] == p[q]);
            } else {
                assert(messages_with_key(msgs, key)[i] == msgs.last());
                assert(msgs[msgs.len() - 1] == msgs.last());
            }
        }
    }
}

/// Every line of a Loki document for some records is made from one of those records, of
/// the stream's level and service: it carries that record's message, its file's name as
/// `file_name` and its file's path as `file_location`.
pub proof fn lemma_document_lines_come_from_records(
    streams: Seq<LokiStream>,
    msgs: Seq<LogMsg>,
    beamline: Seq<char>,
    hostname: Seq<char>,
    j: int,
    k: int,
)
    requires
        body_describes(streams, msgs, beamline, hostname),
        0 <= j < streams.len(),
        0 <= k < streams[j].values@.len(),
    ensures
        exists|m: LogMsg| {
            &&& #[trigger] msgs.contains(m)
            &&& m.record.level.name@ == streams[j].level@
            &&& m.service_name@ == streams[j].service_name@
            &&& streams[j].values@[k].message@ == m.record.message@
            &&& streams[j].values@[k].file_name@ == m.record.file.name@
            &&& streams[j].values@[k].file_location@ == m.record.file.path@
        },
{
    let key = key_of(streams[j]);
    let sel = messages_with_key(msgs, key);
    assert(values_match(streams[j].values@, sel, beamline));
    let m = sel[k];
    assert(entry_matches(streams[j].values@[k], m, beamline));
    lemma_messages_with_key_members(msgs, key);
    assert(msgs.contains(sel[k]));
    lemma_line_fields(streams[j].values@[k], m, beamline);
}

/// Whether stream key `(al, asv)` comes strictly before `(bl, bsv)`.
fn key_less(al: &String, asv: &String, bl: &String, bsv: &String) -> (r: bool)
    ensures
        r == key_lt((al@, asv@), (bl@, bsv@)),
{
    if str_less(al, bl) {
        true
    } else if *al == *bl {
        str_less(asv, bsv)
    } else {
        false
    }
}

/// The Loki line of a record and the key of the stream it belongs to.
pub fn json_from_logmsg(msg: &LogMsg, config: &LokiConfig) -> (r: (LokiEntry, (String, String)))
    ensures
        entry_matches(r.0, *msg, config.beamline_name@),
        r.0.time == msg.record.time,
        r.0.message@ == msg.record.message@,
        r.0.file_name@ == msg.record.file.name@,
        r.0.file_location@ == msg.record.file.path@,
        r.0.function@ == msg.record.function@,
        r.0.module@ == msg.record.module@,
        r.0.beamline_name@ == config.beamline_name@,
        r.1.0@ == msg.record.level.name@,
        r.1.1@ == msg.service_name@,
{
    let exception = match &msg.record.exception {
        Some(t) => t.copied(),
        None => JsonText(String::from_str("\"None\"")),
    };
    let entry = LokiEntry {
        time: msg.record.time.copied(),
        message: msg.record.message.clone(),
        file_name: msg.record.file.name.clone(),
        file_location: msg.record.file.path.clone(),
        function: msg.record.function.clone(),
        line: decimal_string(msg.record.line as u64),
        module: msg.record.module.clone(),
        beamline_name: config.beamline_name.clone(),
        proc_id: decimal_string(msg.record.process.id as u64),
        exception,
    };
    (entry, (msg.record.level.name.clone(), msg.service_name.clone()))
}

/// The first position whose stream key does not come before `(level, service)`.
fn stream_position(streams: &Vec<LokiStream>, level: &String, service: &String) -> (r: usize)
    ensures
        r <= streams@.len(),
        forall|p: int| 0 <= p < r ==> key_lt(key_of(#[trigger] streams@[p]), (level@, service@)),
        r < streams@.len() ==> !key_lt(key_of(streams@[r as int]), (level@, service@)),
{
    let mut i: usize = 0;
    while i < streams.len()
        invariant
            i <= streams@.len(),
            forall|p: int| 0 <= p < i ==> key_lt(key_of(#[trigger] streams@[p]), (level@, service@)),
        decreases streams@.len() - i,
    {
        if !key_less(&streams[i].level, &streams[i].service_name, level, service) {
            return i;
        }
        i = i + 1;
    }
    i
}

/// Adding a record whose key already has a stream, at position `pos`.
#[verifier::spinoff_prover]
#[verifier::rlimit(40)]
proof fn lemma_extend_stream(
    old_streams: Seq<LokiStream>,
    new_streams: Seq<LokiStream>,
    msgs: Seq<LogMsg>,
    m: LogMsg,
    e: LokiEntry,
    pos: int,
    beamline: Seq<char>,
    hostname: Seq<char>,
)
    requires
        body_describes(old_streams, msgs, beamline, hostname),
        0 <= pos < old_streams.len(),
        key_of(old_streams[pos]) == stream_key(m),
        entry_matches(e, m, beamline),
        new_streams.len() == old_streams.len(),
        forall|j: int| 0 <= j < old_streams.len() && j != pos ==> new_streams[j] == old_streams[j],
        new_streams[pos].label == old_streams[pos].label,
        new_streams[pos].hostname == old_streams[pos].hostname,
        new_streams[pos].level == old_streams[pos].level,
        new_streams[pos].service_name == old_streams[pos].service_name,
        new_streams[pos].values@ == old_streams[pos].values@.push(e),
    ensures
        body_describes(new_streams, msgs.push(m), beamline, hostname),
{
    let key = stream_key(m);
    let all = msgs.push(m);
    assert forall|a: int, b: int| 0 <= a < b < new_streams.len() implies key_lt(
        key_of(#[trigger] new_streams[a]),
        key_of(#[trigger] new_streams[b]),
    ) by {
        assert(key_of(new_streams[a]) == key_of(old_streams[a]));
        assert(key_of(new_streams[b]) == key_of(old_streams[b]));
        assert(key_lt(key_of(old_streams[a]), key_of(old_streams[b])));
    }
    assert forall|j: int| 0 <= j < new_streams.len() implies {
        &&& (#[trigger] new_streams[j]).label@ == "bec_logs"@
        &&& new_streams[j].hostname@ == hostname
        &&& new_streams[j].values@.len() > 0
        &&& values_match(new_streams[j].values@, messages_with_key(all, key_of(new_streams[j])), beamline)
    } by {
        lemma_messages_with_key_push(msgs, m, key_of(new_streams[j]));
        assert(old_streams[j].label@ == "bec_logs"@);
        if j == pos {
            let vs = new_streams[j].values@;
            let ms = messages_with_key(all, key);
            assert(values_match(old_streams[j].values@, messages_with_key(msgs, key), beamline));
            assert forall|k: int| 0 <= k < vs.len() implies entry_matches(#[trigger] vs[k], ms[k], beamline) by {
                if k < vs.len() - 1 {
                    assert(vs[k] == old_streams[j].values@[k]);
                    assert(ms[k] == messages_with_key(msgs, key)[k]);
                }
            }
        } else {
            lemma_key_order(key_of(old_streams[j]), key, key);
            if j < pos {
                assert(key_lt(key_of(old_streams[j]), key_of(old_streams[pos])));
            } else {
                assert(key_lt(key_of(old_streams[pos]), key_of(old_streams[j])));
            }
            assert(key_of(new_streams[j]) != key);
        }
    }
    assert forall|k: int| 0 <= k < all.len() implies exists|j: int|
        0 <= j < new_streams.len() && key_of(#[trigger] new_streams[j]) == stream_key(#[trigger] all[k]) by {
        if k < msgs.len() {
            assert(all[k] == msgs[k]);
            let j = choose|j: int| 0 <= j < old_streams.len() && key_of(#[trigger] old_streams[j]) == stream_key(msgs[k]);
            assert(key_of(new_streams[j]) == key_of(old_streams[j]));
        } else {
            assert(all[k] == m);
            assert(key_of(new_streams[pos]) == key);
        }
    }
}

/// Adding a record whose key has no stream yet: a new stream goes in at position `pos`.
#[verifier::spinoff_prover]
#[verifier::rlimit(40)]
proof fn lemma_insert_stream(
    old_streams: Seq<LokiStream>,
    s: LokiStream,
    msgs: Seq<LogMsg>,
    m: LogMsg,
    e: LokiEntry,
    pos: int,
    beamline: Seq<char>,
    hostname: Seq<char>,
)
    requires
        body_describes(old_streams, msgs, beamline, hostname),
        0 <= pos <= old_streams.len(),
        forall|p: int| 0 <= p < pos ==> key_lt(key_of(#[trigger] old_streams[p]), stream_key(m)),
        pos < old_streams.len() ==> !key_lt(key_of(old_streams[pos]), stream_key(m)),
        pos < old_streams.len() ==> key_of(old_streams[pos]) != stream_key(m),
        entry_matches(e, m, beamline),
        key_of(s) == stream_key(m),
        s.label@ == "bec_logs"@,
        s.hostname@ == hostname,
        s.values@ == seq![e],
    ensures
        body_describes(old_streams.insert(pos, s), msgs.push(m), beamline, hostname),
{
    let key = stream_key(m);
    let all = msgs.push(m);
    let t = old_streams.insert(pos, s);
    // every existing stream comes before or after the new key
    assert forall|q: int| 0 <= q < old_streams.len() implies (q < pos ==> key_lt(key_of(#[trigger] old_streams[q]), key))
        && (q >= pos ==> key_lt(key, key_of(old_streams[q]))) by {
        if q >= pos {
            lemma_key_order(key_of(old_streams[pos]), key, key_of(old_streams[q]));
            lemma_key_order(key, key_of(old_streams[pos]), key_of(old_streams[q]));
            if q > pos {
                assert(key_lt(key_of(old_streams[pos]), key_of(old_streams[q])));
            }
        }
    }
    assert forall|q: int| 0 <= q < old_streams.len() implies key_of(#[trigger] old_streams[q]) != key by {
        lemma_key_order(key_of(old_streams[q]), key, key);
        if q < pos {
            assert(key_lt(key_of(old_streams[q]), key));
        } else {
            assert(key_lt(key, key_of(old_streams[q])));
        }
    }
    assert forall|a: int, b: int| 0 <= a < b < t.len() implies key_lt(
        key_of(#[trigger] t[a]),
        key_of(#[trigger] t[b]),
    ) by {
        if a < pos && b < pos {
            assert(t[a] == old_streams[a] && t[b] == old_streams[b]);
        } else if a < pos && b == pos {
            assert(t[a] == old_streams[a]);
        } else if a < pos {
            assert(t[a] == old_streams[a] && t[b] == old_streams[b - 1]);
            assert(key_lt(key_of(old_streams[a]), key));
            assert(key_lt(key, key_of(old_streams[b - 1])));
            lemma_key_order(key_of(old_streams[a]), key, key_of(old_streams[b - 1]));
        } else if a == pos {
            assert(t[b] == old_streams[b - 1]);
        } else {
            assert(t[a] == old_streams[a - 1] && t[b] == old_streams[b - 1]);
        }
    }
    assert forall|k: int| 0 <= k < msgs.len() implies stream_key(#[trigger] msgs[k]) != key by {
        let j = choose|j: int| 0 <= j < old_streams.len() && key_of(#[trigger] old_streams[j]) == stream_key(msgs[k]);
        assert(key_of(old_streams[j]) != key);
    }
    lemma_messages_with_key_none(msgs, key);
    assert forall|j: int| 0 <= j < t.len() implies {
        &&& (#[trigger] t[j]).label@ == "bec_logs"@
        &&& t[j].hostname@ == hostname
        &&& t[j].values@.len() > 0
        &&& values_match(t[j].values@, messages_with_key(all, key_of(t[j])), beamline)
    } by {
        lemma_messages_with_key_push(msgs, m, key_of(t[j]));
        if j == pos {
            assert(messages_with_key(all, key) =~= seq![m]);
        } else {
            let q = if j < pos { j } else { j - 1 };
            assert(t[j] == old_streams[q]);
            assert(key_of(old_streams[q]) != key);
        }
    }
    assert forall|k: int| 0 <= k < all.len() implies exists|j: int|
        0 <= j < t.len() && key_of(#[trigger] t[j]) == stream_key(#[trigger] all[k]) by {
        if k < msgs.len() {
            assert(all[k] == msgs[k]);
            let j = choose|j: int| 0 <= j < old_streams.len() && key_of(#[trigger] old_streams[j]) == stream_key(msgs[k]);
            if j < pos {
                assert(t[j] == old_streams[j]);
            } else {
                assert(t[j + 1] == old_streams[j]);
            }
        } else {
            assert(all[k] == m);
            assert(t[pos] == s);
        }
    }
}

/// The Loki document for `msgs`: the records grouped into one stream per level and
/// service, streams in increasing key order, lines within a stream in record order.
pub fn make_json_body(msgs: &[LogMsg], config: &IngestorConfig) -> (body: LokiPushBody)
    ensures
        body_describes(body.streams@, msgs@, config.loki.beamline_name@, config.hostname@),
{
    let ghost beamline = config.loki.beamline_name@;
    let ghost hostname = config.hostname@;
    let mut streams: Vec<LokiStream> = Vec::new();
    let mut i: usize = 0;
    assert(msgs@.take(0) =~= Seq::<LogMsg>::empty());
    while i < msgs.len()
        invariant
            i <= msgs@.len(),
            beamline == config.loki.beamline_name@,
            hostname == config.hostname@,
            body_describes(streams@, msgs@.take(i as int), beamline, hostname),
        decreases msgs@.len() - i,
    {
        let (entry, (level, service)) = json_from_logmsg(&msgs[i], &config.loki);
        let ghost m = msgs@[i as int];
        let ghost old_streams = streams@;
        proof {
            assert(msgs@.take(i + 1) =~= msgs@.take(i as int).push(m));
        }
        let pos = stream_position(&streams, &level, &service);
        if pos < streams.len() && streams[pos].level == level && streams[pos].service_name == service {
            let mut s = streams.remove(pos);
            s.values.push(entry);
            streams.insert(pos, s);
            proof {
                assert(streams@ =~= old_streams.update(pos as int, s));
                lemma_extend_stream(old_streams, streams@, msgs@.take(i as int), m, entry, pos as int, beamline, hostname);
            }
        } else {
            let mut values: Vec<LokiEntry> = Vec::new();
            values.push(entry);
            proof {
                assert(values@ =~= seq![entry]);
            }
            let s = LokiStream {
                label: String::from_str("bec_logs"),
                hostname: config.hostname.clone(),
                level,
                service_name: service,
                values,
            };
            streams.insert(pos, s);
            proof {
                lemma_insert_stream(old_streams, s, msgs@.take(i as int), m, entry, pos as int, beamline, hostname);
            }
        }
        i = i + 1;
    }
    proof {
        assert(msgs@.take(i as int) =~= msgs@);
    }
    LokiPushBody { streams }
}

/// The exit status of the service when Loki cannot be reached (EX_UNAVAILABLE).
pub const SERVICE_UNAVAILABLE: i32 = 69;

/// The number of consecutive failed pushes after which the pusher gives up.
pub const MAX_PUSH_ATTEMPTS: u8 = 3;

/// Seconds to wait before pushing the same logs again.
pub const RETRY_PAUSE_SECS: u64 = 5;

/// The entry IDs of a list of batches, batch after batch.
pub open spec fn batch_ids(batches: Seq<RedisLogBatch>) -> Seq<String>
    decreases batches.len(),
{
    if batches.len() == 0 {
        Seq::empty()
    } else {
        batch_ids(batches.drop_last()) + batches.last().entry_ids@
    }
}

/// The records of a list of batches, batch after batch.
pub open spec fn batch_records(batches: Seq<RedisLogBatch>) -> Seq<LogMsg>
    decreases batches.len(),
{
    if batches.len() == 0 {
        Seq::empty()
    } else {
        batch_records(batches.drop_last()) + batches.last().records@
    }
}

/// The records of a list of batches are the batches' records laid end to end, first batch
/// first; likewise their entry IDs. So records and IDs come in the order the batches came.
pub proof fn lemma_batches_in_arrival_order(batches: Seq<RedisLogBatch>)
    ensures
        batch_records(batches) == batches.map_values(|b: RedisLogBatch| b.records@).flatten(),
        batch_ids(batches) == batches.map_values(|b: RedisLogBatch| b.entry_ids@).flatten(),
    decreases batches.len(),
{
    if batches.len() > 0 {
        let p = batches.drop_last();
        lemma_batches_in_arrival_order(p);
        let rs = batches.map_values(|b: RedisLogBatch| b.records@);
        let is = batches.map_values(|b: RedisLogBatch| b.entry_ids@);
        assert(rs =~= p.map_values(|b: RedisLogBatch| b.records@).push(batches.last().records@));
        assert(is =~= p.map_values(|b: RedisLogBatch| b.entry_ids@).push(batches.last().entry_ids@));
        p.map_values(|b: RedisLogBatch| b.records@).lemma_flatten_push(batches.last().records@);
        p.map_values(|b: RedisLogBatch| b.entry_ids@).lemma_flatten_push(batches.last().entry_ids@);
    } else {
        assert(batches.map_values(|b: RedisLogBatch| b.records@) =~= Seq::<Seq<LogMsg>>::empty());
        assert(batches.map_values(|b: RedisLogBatch| b.entry_ids@) =~= Seq::<Seq<String>>::empty());
    }
}

/// Batches received one after the other give the records of the first, then those of the
/// second; likewise their entry IDs.
pub proof fn lemma_batches_concatenate(first: Seq<RedisLogBatch>, second: Seq<RedisLogBatch>)
    ensures
        batch_records(first + second) == batch_records(first) + batch_records(second),
        batch_ids(first + second) == batch_ids(first) + batch_ids(second),
{
    lemma_batches_in_arrival_order(first);
    lemma_batches_in_arrival_order(second);
    lemma_batches_in_arrival_order(first + second);
    assert((first + second).map_values(|b: RedisLogBatch| b.records@) =~= first.map_values(
        |b: RedisLogBatch| b.records@,
    ) + second.map_values(|b: RedisLogBatch| b.records@));
    assert((first + second).map_values(|b: RedisLogBatch| b.entry_ids@) =~= first.map_values(
        |b: RedisLogBatch| b.entry_ids@,
    ) + second.map_values(|b: RedisLogBatch| b.entry_ids@));
    vstd::seq_lib::lemma_flatten_concat(
        first.map_values(|b: RedisLogBatch| b.records@),
        second.map_values(|b: RedisLogBatch| b.records@),
    );
    vstd::seq_lib::lemma_flatten_concat(
        first.map_values(|b: RedisLogBatch| b.entry_ids@),
        second.map_values(|b: RedisLogBatch| b.entry_ids@),
    );
}

/// Logs that have been turned into a push body and not yet accepted by Loki.
pub struct PendingPush {
    pub ack_ids: Vec<String>,
    pub records: Vec<LogMsg>,
    pub body: LokiPushBody,
}

/// What came of one push to Loki.
#[derive(Clone, Copy, Debug, PartialEq, Eq, Structural)]
pub enum PushOutcome {
    /// Loki answered with a success status.
    Accepted,
    /// Loki answered with an error status.
    Rejected,
    /// The request did not get an answer.
    Failed,
}

/// What the pusher does after a push.
#[derive(Debug, PartialEq)]
pub enum PushAction {
    /// Hand these entry IDs back to the Redis reader for acknowledgement.
    Acknowledge(AckAction),
    /// Wait `RETRY_PAUSE_SECS` seconds and push the same logs again.
    RetryAfterPause,
    /// Stop the service with status `SERVICE_UNAVAILABLE`.
    GiveUp,
}

/// The retry count after one more push with the given outcome.
pub open spec fn next_retries(retries: u8, outcome: PushOutcome) -> u8 {
    match outcome {
        PushOutcome::Accepted => 0,
        _ => if retries == u8::MAX { u8::MAX } else { (retries + 1) as u8 },
    }
}

/// The retry count after `n` failed pushes in a row, starting from `start`.
pub open spec fn retries_after_failures(start: u8, n: nat) -> u8
    decreases n,
{
    if n == 0 {
        start
    } else {
        next_retries(retries_after_failures(start, (n - 1) as nat), PushOutcome::Failed)
    }
}

/// The state of the Loki pusher between pushes.
pub struct LokiPusher {
    pending: Option<PendingPush>,
    retries: u8,
}

impl LokiPusher {
    /// The logs waiting to be accepted by Loki, if any.
    pub closed spec fn spec_pending(&self) -> Option<PendingPush> {
        self.pending
    }

    /// The number of failed pushes since the last accepted one.
    pub closed spec fn spec_retries(&self) -> u8 {
        self.retries
    }

    /// A pusher with nothing pending and no failures.
    pub fn new() -> (p: Self)
        ensures
            p.spec_pending() is None,
            p.spec_retries() == 0,
    {
        LokiPusher { pending: None, retries: 0 }
    }

    /// Whether logs are waiting to be accepted.
    pub fn has_pending(&self) -> (b: bool)
        ensures
            b == self.spec_pending() is Some,
    {
        self.pending.is_some()
    }

    /// The body to push, if logs are waiting.
    pub fn pending_body(&self) -> (b: Option<&LokiPushBody>)
        ensures
            b matches Some(body) ==> self.spec_pending() matches Some(p) && *body == p.body,
            b is None <==> self.spec_pending() is None,
    {
        match &self.pending {
            Some(p) => Some(&p.body),
            None => None,
        }
    }

    /// Takes freshly received batches: their entry IDs and records are gathered in order and
    /// the push body is built from the records.
    pub fn load(&mut self, batches: Vec<RedisLogBatch>, config: &IngestorConfig)
        requires
            old(self).spec_pending() is None,
        ensures
            final(self).spec_retries() == old(self).spec_retries(),
            final(self).spec_pending() matches Some(p) && {
                &&& p.ack_ids@ == batch_ids(batches@)
                &&& p.records@ == batch_records(batches@)
                &&& p.records@ == batches@.map_values(|b: RedisLogBatch| b.records@).flatten()
                &&& p.ack_ids@ == batches@.map_values(|b: RedisLogBatch| b.entry_ids@).flatten()
                &&& body_describes(p.body.streams@, p.records@, config.loki.beamline_name@, config.hostname@)
            },
    {
        let ghost all = batches@;
        let mut rest = batches;
        let total: usize = rest.len();
        let mut taken: usize = 0;
        let mut ack_ids: Vec<String> = Vec::new();
        let mut records: Vec<LogMsg> = Vec::new();
        while rest.len() > 0
            invariant
                all.len() == total,
                taken + rest@.len() == all.len(),
                rest@ == all.subrange(taken as int, all.len() as int),
                ack_ids@ == batch_ids(all.take(taken as int)),
                records@ == batch_records(all.take(taken as int)),
            decreases rest@.len(),
        {
            let mut batch = rest.remove(0);
            proof {
                assert(all[taken as int] == batch);
                assert(all.take(taken + 1).drop_last() =~= all.take(taken as int));
            }
            ack_ids.append(&mut batch.entry_ids);
            records.append(&mut batch.records);
            taken = taken + 1;
            proof {
                assert(rest@ =~= all.subrange(taken as int, all.len() as int));
            }
        }
        proof {
            assert(all.take(taken as int) =~= all);
        }
        proof {
            lemma_batches_in_arrival_order(all);
        }
        let body = make_json_body(records.as_slice(), config);
        self.pending = Some(PendingPush { ack_ids, records, body });
    }

    /// Decides what follows a push of the pending logs. An accepted push hands the entry IDs
    /// back for acknowledgement and clears the failure count; a failed or rejected push keeps
    /// the logs for another try, unless it is the third failure in a row.
    pub fn after_push(&mut self, outcome: PushOutcome) -> (action: PushAction)
        requires
            old(self).spec_pending() is Some,
        ensures
            final(self).spec_retries() == next_retries(old(self).spec_retries(), outcome),
            outcome == PushOutcome::Accepted ==> {
                &&& final(self).spec_pending() is None
                &&& action matches PushAction::Acknowledge(AckAction::Ack(ids))
                    && ids@ == old(self).spec_pending()->0.ack_ids@
            },
            outcome != PushOutcome::Accepted ==> {
                &&& final(self).spec_pending() == old(self).spec_pending()
                &&& (action == PushAction::GiveUp) == (final(self).spec_retries() >= MAX_PUSH_ATTEMPTS)
                &&& (action == PushAction::RetryAfterPause) == (final(self).spec_retries() < MAX_PUSH_ATTEMPTS)
            },
    {
        match outcome {
            PushOutcome::Accepted => {
                self.retries = 0;
                let pending = self.pending.take();
                match pending {
                    Some(p) => PushAction::Acknowledge(AckAction::Ack(p.ack_ids)),
                    None => PushAction::GiveUp,
                }
            },
            _ => {
                self.retries = self.retries.saturating_add(1);
                if self.retries >= MAX_PUSH_ATTEMPTS {
                    PushAction::GiveUp
                } else {
                    PushAction::RetryAfterPause
                }
            },
        }
    }
}

/// Starting from an accepted push, the pusher counts each further failure and reaches the
/// limit at exactly the third failure in a row.
pub proof fn lemma_gives_up_on_third_failure(n: nat)
    ensures
        n <= 255 ==> retries_after_failures(0, n) == n,
        (retries_after_failures(0, n) >= MAX_PUSH_ATTEMPTS) <==> n >= 3,
    decreases n,
{
    if n > 0 {
        lemma_gives_up_on_third_failure((n - 1) as nat);
    }
}

} // verus!
