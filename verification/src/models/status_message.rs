//! Status messages that BEC services publish about themselves.

use vstd::prelude::*;
use vstd::std_specs::convert::FromSpecImpl;
use vstd::std_specs::convert::TryFromSpecImpl;
use vstd::std_specs::convert::FromSpec;
use vstd::std_specs::convert::TryFromSpec;
use super::log_message::{FloatBits, JsonText};

verus! {

/// Error from converting a value that lies outside a closed set.
#[derive(Debug, Clone, PartialEq)]
pub struct ConversionError(pub &'static str);

impl ConversionError {
    /// The text of the error.
    pub fn message(&self) -> (s: &'static str)
        ensures
            s == self.0,
    {
        self.0
    }
}

/// The statuses a BEC service can report, as numbers: 2, 1, 0 or -1.
#[derive(Clone, Copy, Debug, PartialEq, Eq, Structural)]
pub struct BecStatus(i64);

/// The numbers a BEC status may take.
pub open spec fn is_status_value(v: i64) -> bool {
    v == 2 || v == 1 || v == 0 || v == -1
}

/// The error for a number that is not a BEC status.
pub open spec fn invalid_status_error() -> ConversionError {
    ConversionError("invalid value")
}

impl BecStatus {
    /// The number of the status.
    pub closed spec fn spec_value(self) -> i64 {
        self.0
    }

    /// The number of the status.
    pub fn value(&self) -> (v: i64)
        ensures
            v == self.spec_value(),
            is_status_value(v),
    {
        proof {
            use_type_invariant(self);
        }
        self.0
    }

    #[verifier::type_invariant]
    spec fn holds_status_value(self) -> bool {
        is_status_value(self.0)
    }
}

impl TryFrom<i64> for BecStatus {
    type Error = ConversionError;

    fn try_from(value: i64) -> (r: Result<BecStatus, ConversionError>) {
        if value == 2 || value == 1 || value == 0 || value == -1 {
            Ok(BecStatus(value))
        } else {
            Err(ConversionError("invalid value"))
        }
    }
}

impl TryFromSpecImpl<i64> for BecStatus {
    open spec fn obeys_try_from_spec() -> bool {
        true
    }

    closed spec fn try_from_spec(value: i64) -> Result<BecStatus, ConversionError> {
        if is_status_value(value) {
            Ok(BecStatus(value))
        } else {
            Err(invalid_status_error())
        }
    }
}

impl From<BecStatus> for i64 {
    fn from(value: BecStatus) -> (r: i64) {
        value.0
    }
}

impl FromSpecImpl<BecStatus> for i64 {
    open spec fn obeys_from_spec() -> bool {
        true
    }

    closed spec fn from_spec(value: BecStatus) -> i64 {
        value.0
    }
}

/// Converting a number to a status and back gives the number again, and a number
/// converts exactly when it is one of the four statuses.
pub proof fn lemma_bec_status_roundtrip(v: i64)
    ensures
        <BecStatus as TryFromSpec<i64>>::try_from_spec(v) is Ok <==> is_status_value(v),
        <BecStatus as TryFromSpec<i64>>::try_from_spec(v) matches Ok(s) ==> <i64 as FromSpec<BecStatus>>::from_spec(s) == v && s.spec_value() == v,
        <BecStatus as TryFromSpec<i64>>::try_from_spec(v) matches Err(e) ==> e == invalid_status_error(),
{
}

/// Versions of the BEC packages a service runs.
#[derive(Clone, Debug, PartialEq)]
pub struct ServiceVersions {
    pub bec_ipython_client: String,
    pub bec_lib: String,
    pub bec_server: String,
    pub bec_widgets: String,
}

/// What a service tells about itself.
#[derive(Clone, Debug, PartialEq)]
pub struct ServiceInfo {
    pub hostname: String,
    pub timestamp: Option<FloatBits>,
    pub user: String,
    pub versions: Option<ServiceVersions>,
}

/// The codec envelope around a service info.
#[derive(Clone, Debug, PartialEq)]
pub struct ServiceInfoInternal {
    pub encoder_name: String,
    pub type_tag: String,
    pub data: ServiceInfo,
}

/// A service info as it is encoded (under the key `__bec_codec__`).
#[derive(Clone, Debug, PartialEq)]
pub struct ServiceInfoMessagePack {
    pub bec_codec: ServiceInfoInternal,
}

/// The info part of a status message: a service info, or any other JSON object.
#[derive(Clone, Debug, PartialEq)]
pub enum Info {
    ServiceInfo(ServiceInfoMessagePack),
    Object(JsonText),
}

/// The state a service is in.
#[allow(non_camel_case_types, clippy::upper_case_acronyms)]
#[derive(Clone, Copy, Debug, PartialEq, Eq, Structural)]
pub enum ServiceStatus {
    RUNNING,
    BUSY,
    IDLE,
    ERROR,
}

impl ServiceStatus {
    /// The number of each state: RUNNING 2, BUSY 1, IDLE 0, ERROR -1.
    pub open spec fn spec_value(self) -> i64 {
        match self {
            ServiceStatus::RUNNING => 2,
            ServiceStatus::BUSY => 1,
            ServiceStatus::IDLE => 0,
            ServiceStatus::ERROR => -1i64,
        }
    }

    /// The number of the state.
    pub fn value(&self) -> (v: i64)
        ensures
            v == self.spec_value(),
    {
        match *self {
            ServiceStatus::RUNNING => 2,
            ServiceStatus::BUSY => 1,
            ServiceStatus::IDLE => 0,
            ServiceStatus::ERROR => -1,
        }
    }

    /// The state with the given number, if there is one.
    pub fn from_value(v: i64) -> (s: Option<ServiceStatus>)
        ensures
            s matches Some(st) ==> st.spec_value() == v,
            s is None <==> !is_status_value(v),
    {
        if v == 2 {
            Some(ServiceStatus::RUNNING)
        } else if v == 1 {
            Some(ServiceStatus::BUSY)
        } else if v == 0 {
            Some(ServiceStatus::IDLE)
        } else if v == -1 {
            Some(ServiceStatus::ERROR)
        } else {
            None
        }
    }
}

/// Each state has its own number, and the numbers are exactly those of the BEC status.
pub proof fn lemma_service_status_numbers(a: ServiceStatus, b: ServiceStatus)
    ensures
        a.spec_value() == b.spec_value() ==> a == b,
        is_status_value(a.spec_value()),
{
}

/// The codec envelope around a service state.
#[derive(Clone, Debug, PartialEq)]
pub struct ServiceStatusPackInternal {
    pub encoder_name: String,
    pub type_tag: String,
    pub data: ServiceStatus,
}

/// A service state as it is encoded (under the key `__bec_codec__`).
#[derive(Clone, Debug, PartialEq)]
pub struct ServiceStatusPack {
    pub bec_codec: ServiceStatusPackInternal,
}

/// A status message: the name of the service, its state, its info and free metadata.
#[derive(Clone, Debug, PartialEq)]
pub struct StatusMessage {
    pub info: Info,
    pub metadata: JsonText,
    pub name: String,
    pub status: ServiceStatusPack,
}

/// The codec envelope around a status message.
#[derive(Clone, Debug, PartialEq)]
pub struct StatusMessagePackInternal {
    pub encoder_name: String,
    pub type_tag: String,
    pub data: StatusMessage,
}

/// A status message as it is stored in Redis (under the key `__bec_codec__`).
#[derive(Clone, Debug, PartialEq)]
pub struct StatusMessagePack {
    pub bec_codec: StatusMessagePackInternal,
}

} // verus!
