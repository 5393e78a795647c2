//! The Prometheus remote-write messages that metrics are published in.

use vstd::prelude::*;
use crate::models::log_message::FloatBits;

verus! {

/// A label of a time series.
#[derive(Clone, Debug, PartialEq)]
pub struct Label {
    pub name: String,
    pub value: String,
}

/// The value of a sample. Prometheus carries every value as a 64-bit float; the library
/// keeps the value as it got it, and it is converted when the message is encoded.
#[derive(Clone, Debug, PartialEq)]
pub enum SampleValue {
    /// An integer.
    Integer(i64),
    /// A float, as its IEEE-754 bit pattern.
    Float(FloatBits),
    /// Text that Rust parses as a float.
    FloatText(String),
}

/// A value together with the time it was taken, in milliseconds since the Unix epoch.
#[derive(Clone, Debug, PartialEq)]
pub struct Sample {
    pub value: SampleValue,
    pub timestamp: i64,
}

/// Samples of one metric with one set of labels.
#[derive(Clone, Debug, PartialEq)]
pub struct TimeSeries {
    pub labels: Vec<Label>,
    pub samples: Vec<Sample>,
}

/// The body of one remote-write request.
#[derive(Clone, Debug, PartialEq)]
pub struct WriteRequest {
    pub timeseries: Vec<TimeSeries>,
}

} // verus!
