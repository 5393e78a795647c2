//! Log messages as BEC services publish them.
//!
//! Floating-point fields are held as their IEEE-754 bit patterns, and free-form JSON
//! fields as their JSON text; the library never interprets either.

use vstd::prelude::*;
use vstd::string::*;

verus! {

/// A 64-bit floating-point number held as its IEEE-754 bit pattern.
#[derive(Clone, Copy, Debug, PartialEq, Eq, Structural)]
pub struct FloatBits(pub u64);

/// A JSON value held as its JSON text.
#[derive(Clone, Debug, PartialEq)]
pub struct JsonText(pub String);

impl JsonText {
    /// A copy of the text.
    pub fn copied(&self) -> (r: Self)
        ensures
            r == *self,
    {
        JsonText(self.0.clone())
    }

    /// The empty JSON object `{}`.
    pub fn empty_object() -> (r: Self)
        ensures
            r.0@ == "{}"@,
    {
        JsonText(String::from_str("{}"))
    }
}

/// Time since the service started, as text and in seconds.
#[derive(Debug, PartialEq, Clone)]
pub struct Elapsed {
    pub repr: String,
    pub seconds: FloatBits,
}

/// The source file a record was emitted from.
#[derive(Debug, PartialEq, Clone)]
pub struct File {
    pub name: String,
    pub path: String,
}

/// The severity of a record.
#[derive(Debug, PartialEq, Clone)]
pub struct LogLevel {
    pub icon: String,
    pub name: String,
    pub no: usize,
}

/// A process or thread: its name and numeric ID.
#[derive(Debug, PartialEq, Clone)]
pub struct NameId {
    pub name: String,
    pub id: usize,
}

/// When a record was emitted, as text and in seconds since the Unix epoch.
#[derive(Debug, PartialEq, Clone)]
pub struct Timestamp {
    pub repr: String,
    pub timestamp: FloatBits,
}

/// One log record.
#[derive(Debug, PartialEq, Clone)]
pub struct LogRecord {
    pub elapsed: Elapsed,
    pub exception: Option<JsonText>,
    pub extra: JsonText,
    pub file: File,
    pub function: String,
    pub level: LogLevel,
    pub line: usize,
    pub message: String,
    pub module: String,
    pub name: String,
    pub process: NameId,
    pub thread: NameId,
    pub time: Timestamp,
}

/// A record together with the service that emitted it and its formatted text.
#[derive(Debug, PartialEq, Clone)]
pub struct LogMsg {
    pub record: LogRecord,
    pub service_name: String,
    pub text: String,
}

/// The payload of a log stream entry.
#[derive(Debug, PartialEq, Clone)]
pub struct LogMessage {
    pub log_type: String,
    pub log_msg: LogMsg,
    pub metadata: JsonText,
}

/// The codec envelope around a log message.
#[derive(Debug, PartialEq, Clone)]
pub struct LogMessagePackInternal {
    pub encoder_name: String,
    pub type_tag: String,
    pub data: LogMessage,
}

/// A log stream entry as it is stored in Redis (under the key `__bec_codec__`).
#[derive(Debug, PartialEq, Clone)]
pub struct LogMessagePack {
    pub bec_codec: LogMessagePackInternal,
}

impl Elapsed {
    /// A field-by-field copy.
    pub fn copied(&self) -> (r: Self)
        ensures
            r == *self,
    {
        Elapsed { repr: self.repr.clone(), seconds: self.seconds }
    }
}

impl File {
    /// A field-by-field copy.
    pub fn copied(&self) -> (r: Self)
        ensures
            r == *self,
    {
        File { name: self.name.clone(), path: self.path.clone() }
    }
}

impl LogLevel {
    /// A field-by-field copy.
    pub fn copied(&self) -> (r: Self)
        ensures
            r == *self,
    {
        LogLevel { icon: self.icon.clone(), name: self.name.clone(), no: self.no }
    }
}

impl NameId {
    /// A field-by-field copy.
    pub fn copied(&self) -> (r: Self)
        ensures
            r == *self,
    {
        NameId { name: self.name.clone(), id: self.id }
    }
}

impl Timestamp {
    /// A field-by-field copy.
    pub fn copied(&self) -> (r: Self)
        ensures
            r == *self,
    {
        Timestamp { repr: self.repr.clone(), timestamp: self.timestamp }
    }
}

impl LogRecord {
    /// A field-by-field copy.
    pub fn copied(&self) -> (r: Self)
        ensures
            r == *self,
    {
        let exception = match &self.exception {
            Some(e) => Some(e.copied()),
            None => None,
        };
        LogRecord {
            elapsed: self.elapsed.copied(),
            exception,
            extra: self.extra.copied(),
            file: self.file.copied(),
            function: self.function.clone(),
            level: self.level.copied(),
            line: self.line,
            message: self.message.clone(),
            module: self.module.clone(),
            name: self.name.clone(),
            process: self.process.copied(),
            thread: self.thread.copied(),
            time: self.time.copied(),
        }
    }
}

impl LogMsg {
    /// A field-by-field copy.
    pub fn copied(&self) -> (r: Self)
        ensures
            r == *self,
    {
        LogMsg {
            record: self.record.copied(),
            service_name: self.service_name.clone(),
            text: self.text.clone(),
        }
    }
}

/// The message of the record that stands in for stream entries that could not be decoded.
pub open spec fn undecodable_message() -> Seq<char> {
    "Error in ingestor processing log messages from Redis! Check log ingestor output for details."@
}

/// `m` is the record that stands in for undecodable stream entries: level `ERROR` (number
/// 100), the message `undecodable_message()`, the extra data `{}`, no exception, and every
/// other text empty and every other number zero.
pub open spec fn is_undecodable_record(m: LogMsg) -> bool {
    &&& m.service_name@ == Seq::<char>::empty()
    &&& m.text@ == Seq::<char>::empty()
    &&& m.record.level.name@ == "ERROR"@
    &&& m.record.level.icon@ == Seq::<char>::empty()
    &&& m.record.level.no == 100
    &&& m.record.message@ == undecodable_message()
    &&& m.record.exception is None
    &&& m.record.extra.0@ == "{}"@
    &&& m.record.elapsed.repr@ == Seq::<char>::empty()
    &&& m.record.elapsed.seconds == FloatBits(0)
    &&& m.record.file.name@ == Seq::<char>::empty()
    &&& m.record.file.path@ == Seq::<char>::empty()
    &&& m.record.function@ == Seq::<char>::empty()
    &&& m.record.line == 0
    &&& m.record.module@ == Seq::<char>::empty()
    &&& m.record.name@ == Seq::<char>::empty()
    &&& m.record.process.name@ == Seq::<char>::empty()
    &&& m.record.process.id == 0
    &&& m.record.thread.name@ == Seq::<char>::empty()
    &&& m.record.thread.id == 0
    &&& m.record.time.repr@ == Seq::<char>::empty()
    &&& m.record.time.timestamp == FloatBits(0)
}

/// The record that stands in for stream entries that could not be decoded: level `ERROR`
/// (number 100), a fixed message pointing to the ingestor's own output, and every other
/// field empty, zero or absent. The undecodable entries themselves are not copied into it;
/// the ingestor reports them on its own output.
pub fn error_log_item<T>(_undecodable: Vec<T>) -> (pack: LogMessagePack)
    ensures
        pack.bec_codec.encoder_name@ == Seq::<char>::empty(),
        pack.bec_codec.type_tag@ == Seq::<char>::empty(),
        pack.bec_codec.data.log_type@ == Seq::<char>::empty(),
        pack.bec_codec.data.metadata.0@ == "{}"@,
        is_undecodable_record(pack.bec_codec.data.log_msg),
{
    LogMessagePack {
        bec_codec: LogMessagePackInternal {
            encoder_name: String::new(),
            type_tag: String::new(),
            data: LogMessage {
                log_type: String::new(),
                log_msg: LogMsg {
                    record: LogRecord {
                        elapsed: Elapsed { repr: String::new(), seconds: FloatBits(0) },
                        exception: None,
                        extra: JsonText::empty_object(),
                        file: File { name: String::new(), path: String::new() },
                        function: String::new(),
                        level: LogLevel {
                            icon: String::new(),
                            name: String::from_str("ERROR"),
                            no: 100,
                        },
                        line: 0,
                        message: String::from_str(
                            "Error in ingestor processing log messages from Redis! Check log ingestor output for details.",
                        ),
                        module: String::new(),
                        name: String::new(),
                        process: NameId { name: String::new(), id: 0 },
                        thread: NameId { name: String::new(), id: 0 },
                        time: Timestamp { repr: String::new(), timestamp: FloatBits(0) },
                    },
                    service_name: String::new(),
                    text: String::new(),
                },
                metadata: JsonText::empty_object(),
            },
        },
    }
}

} // verus!
