//! Messages exchanged with BEC through Redis, and the batches handed between the Redis
//! reader and the Loki pusher.

pub mod log_message;
pub mod status_message;
pub mod dynamic_metric_message;

use vstd::prelude::*;
use self::log_message::LogMsg;

verus! {

/// What the Loki pusher asks the Redis reader to acknowledge.
#[derive(Debug, Clone, PartialEq)]
pub enum AckAction {
    /// Acknowledge these stream entries and carry on.
    Ack(Vec<String>),
    /// Acknowledge these stream entries and stop reading.
    AckAndStop(Vec<String>),
}

impl AckAction {
    /// The stream entry IDs to acknowledge, whichever the variant.
    pub open spec fn spec_entry_ids(&self) -> Seq<String> {
        match self {
            AckAction::Ack(ids) => ids@,
            AckAction::AckAndStop(ids) => ids@,
        }
    }

    /// The stream entry IDs to acknowledge, whichever the variant.
    pub fn entry_ids(&self) -> (ids: &[String])
        ensures
            ids@ == self.spec_entry_ids(),
    {
        match self {
            AckAction::Ack(ids) => ids.as_slice(),
            AckAction::AckAndStop(ids) => ids.as_slice(),
        }
    }

    /// Whether the reader must stop after acknowledging.
    pub fn should_stop(&self) -> (b: bool)
        ensures
            b <==> self is AckAndStop,
    {
        match self {
            AckAction::Ack(_) => false,
            AckAction::AckAndStop(_) => true,
        }
    }
}

/// Log records read from Redis together with the stream entry IDs they came from.
#[derive(Debug, Clone)]
pub struct RedisLogBatch {
    pub entry_ids: Vec<String>,
    pub records: Vec<LogMsg>,
}

} // verus!
