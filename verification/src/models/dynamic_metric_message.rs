//! Messages through which BEC services publish values of dynamically defined metrics.

use vstd::prelude::*;
use vstd::string::*;
use vstd::std_specs::convert::FromSpecImpl;
use super::log_message::{FloatBits, JsonText};
use crate::name_map::NameMap;

pub use super::status_message::ConversionError;

verus! {

/// A boolean metric value.
#[derive(Clone, Debug, PartialEq)]
pub struct BoolDynamicMetricValue {
    pub type_tag: String,
    pub value: bool,
}

/// A floating-point metric value.
#[derive(Clone, Debug, PartialEq)]
pub struct FloatDynamicMetricValue {
    pub type_tag: String,
    pub value: FloatBits,
}

/// An integer metric value.
#[derive(Clone, Debug, PartialEq)]
pub struct IntDynamicMetricValue {
    pub type_tag: String,
    pub value: i64,
}

/// A text metric value.
#[derive(Clone, Debug, PartialEq)]
pub struct StrDynamicMetricValue {
    pub type_tag: String,
    pub value: String,
}

/// One metric value of any of the four kinds.
#[derive(Clone, Debug, PartialEq)]
pub enum DynamicMetricMessageMetricsValue {
    StrDynamicMetricValue(StrDynamicMetricValue),
    IntDynamicMetricValue(IntDynamicMetricValue),
    FloatDynamicMetricValue(FloatDynamicMetricValue),
    BoolDynamicMetricValue(BoolDynamicMetricValue),
}

impl From<StrDynamicMetricValue> for DynamicMetricMessageMetricsValue {
    fn from(value: StrDynamicMetricValue) -> (r: Self) {
        DynamicMetricMessageMetricsValue::StrDynamicMetricValue(value)
    }
}

impl FromSpecImpl<StrDynamicMetricValue> for DynamicMetricMessageMetricsValue {
    open spec fn obeys_from_spec() -> bool {
        true
    }

    open spec fn from_spec(value: StrDynamicMetricValue) -> Self {
        DynamicMetricMessageMetricsValue::StrDynamicMetricValue(value)
    }
}

impl From<IntDynamicMetricValue> for DynamicMetricMessageMetricsValue {
    fn from(value: IntDynamicMetricValue) -> (r: Self) {
        DynamicMetricMessageMetricsValue::IntDynamicMetricValue(value)
    }
}

impl FromSpecImpl<IntDynamicMetricValue> for DynamicMetricMessageMetricsValue {
    open spec fn obeys_from_spec() -> bool {
        true
    }

    open spec fn from_spec(value: IntDynamicMetricValue) -> Self {
        DynamicMetricMessageMetricsValue::IntDynamicMetricValue(value)
    }
}

impl From<FloatDynamicMetricValue> for DynamicMetricMessageMetricsValue {
    fn from(value: FloatDynamicMetricValue) -> (r: Self) {
        DynamicMetricMessageMetricsValue::FloatDynamicMetricValue(value)
    }
}

impl FromSpecImpl<FloatDynamicMetricValue> for DynamicMetricMessageMetricsValue {
    open spec fn obeys_from_spec() -> bool {
        true
    }

    open spec fn from_spec(value: FloatDynamicMetricValue) -> Self {
        DynamicMetricMessageMetricsValue::FloatDynamicMetricValue(value)
    }
}

impl From<BoolDynamicMetricValue> for DynamicMetricMessageMetricsValue {
    fn from(value: BoolDynamicMetricValue) -> (r: Self) {
        DynamicMetricMessageMetricsValue::BoolDynamicMetricValue(value)
    }
}

impl FromSpecImpl<BoolDynamicMetricValue> for DynamicMetricMessageMetricsValue {
    open spec fn obeys_from_spec() -> bool {
        true
    }

    open spec fn from_spec(value: BoolDynamicMetricValue) -> Self {
        DynamicMetricMessageMetricsValue::BoolDynamicMetricValue(value)
    }
}

/// The codec envelope around one metric value.
#[derive(Clone, Debug, PartialEq)]
pub struct DynamicMetricMessageMetricsValueMsgPackInternal {
    pub encoder_name: String,
    pub type_tag: String,
    pub data: DynamicMetricMessageMetricsValue,
}

/// One metric value as it is encoded (under the key `__bec_codec__`).
#[derive(Clone, Debug, PartialEq)]
pub struct DynamicMetricMessageMetricsValueMsgPack {
    pub bec_codec: DynamicMetricMessageMetricsValueMsgPackInternal,
}

/// Values of named metrics, with optional metadata and time of measurement.
pub struct DynamicMetricMessage {
    pub metadata: JsonText,
    pub metrics: NameMap<DynamicMetricMessageMetricsValueMsgPack>,
    pub timestamp: Option<FloatBits>,
}

/// The codec envelope around a metrics message.
pub struct DynamicMetricPackInternal {
    pub encoder_name: String,
    pub type_tag: String,
    pub data: DynamicMetricMessage,
}

/// A metrics message as it is stored in Redis (under the key `__bec_codec__`).
pub struct DynamicMetricMessagePack {
    pub bec_codec: DynamicMetricPackInternal,
}

/// The kind tag of a boolean value when the message leaves it out: `bool`.
pub fn bool_dynamic_metric_value_type_name() -> (s: String)
    ensures
        s@ == "bool"@,
{
    String::from_str("bool")
}

/// The kind tag of a floating-point value when the message leaves it out: `float`.
pub fn float_dynamic_metric_value_type_name() -> (s: String)
    ensures
        s@ == "float"@,
{
    String::from_str("float")
}

/// The kind tag of an integer value when the message leaves it out: `int`.
pub fn int_dynamic_metric_value_type_name() -> (s: String)
    ensures
        s@ == "int"@,
{
    String::from_str("int")
}

/// The kind tag of a text value when the message leaves it out: `str`.
pub fn str_dynamic_metric_value_type_name() -> (s: String)
    ensures
        s@ == "str"@,
{
    String::from_str("str")
}

} // verus!
