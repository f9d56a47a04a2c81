//! The header of telemetry messages, and when a message is still good.

use crate::text::{blank, decimal, decimal_text, is_blank, joined};
use vstd::prelude::*;

verus! {

/// The version of the header that is understood.
pub const SCHEMA_VERSION: u16 = 1;

/// How urgent a message is.
#[derive(Debug, Clone, Copy, PartialEq, Eq, Structural)]
pub enum Priority {
    Low,
    Normal,
    High,
    Critical,
}

/// What every message carries.
#[derive(Debug, Clone, PartialEq, Eq)]
pub struct MessageHeader {
    pub sequence: u64,
    pub source_time_ns: u64,
    pub receive_time_ns: u64,
    pub expire_time_ns: u64,
    pub vehicle_id: String,
    pub schema_version: u16,
    pub message_type: String,
    pub priority: Priority,
    pub stream_id: String,
}

/// A message.
#[derive(Debug, Clone, PartialEq)]
pub struct TelemetryEnvelope<T> {
    pub kind: String,
    pub topic: String,
    pub header: MessageHeader,
    pub payload: T,
}

/// Why a message is not taken.
#[derive(Debug, Clone, Copy, PartialEq, Eq, Structural)]
pub enum ValidationError {
    UnsupportedSchema { expected: u16, actual: u16 },
    Expired { expire_time_ns: u64, now_ns: u64 },
    MissingVehicleId,
    MissingStreamId,
}

impl ValidationError {
    /// The sentence that describes the error.
    pub open spec fn text(self) -> Seq<char> {
        match self {
            ValidationError::UnsupportedSchema { expected, actual } => "schema version "@
                + decimal_text(actual as nat) + " is not supported; expected "@ + decimal_text(
                expected as nat,
            ),
            ValidationError::Expired { expire_time_ns, now_ns } => "message expired at "@
                + decimal_text(expire_time_ns as nat) + "; now is "@ + decimal_text(now_ns as nat),
            ValidationError::MissingVehicleId => "vehicle id is empty"@,
            ValidationError::MissingStreamId => "stream id is empty"@,
        }
    }

    /// The sentence that describes the error.
    pub fn message(&self) -> (text: String)
        ensures
            text@ == self.text(),
    {
        match self {
            ValidationError::UnsupportedSchema { expected, actual } => {
                let start = joined("schema version ", decimal(*actual as u64).as_str());
                let middle = joined(start.as_str(), " is not supported; expected ");
                joined(middle.as_str(), decimal(*expected as u64).as_str())
            },
            ValidationError::Expired { expire_time_ns, now_ns } => {
                let start = joined("message expired at ", decimal(*expire_time_ns).as_str());
                let middle = joined(start.as_str(), "; now is ");
                joined(middle.as_str(), decimal(*now_ns).as_str())
            },
            ValidationError::MissingVehicleId => "vehicle id is empty".to_owned(),
            ValidationError::MissingStreamId => "stream id is empty".to_owned(),
        }
    }
}

/// Why a message with this header is not taken at the given time, or nothing. A message without an
/// expiry time never expires.
pub open spec fn header_fault(header: MessageHeader, now_ns: u64) -> Option<ValidationError> {
    if header.schema_version != SCHEMA_VERSION {
        Some(
            ValidationError::UnsupportedSchema {
                expected: SCHEMA_VERSION,
                actual: header.schema_version,
            },
        )
    } else if 0 < header.expire_time_ns < now_ns {
        Some(ValidationError::Expired { expire_time_ns: header.expire_time_ns, now_ns })
    } else if is_blank(header.vehicle_id@) {
        Some(ValidationError::MissingVehicleId)
    } else if is_blank(header.stream_id@) {
        Some(ValidationError::MissingStreamId)
    } else {
        None
    }
}

/// Whether a message with this header is taken at the given time.
pub fn validate_header(header: &MessageHeader, now_ns: u64) -> (result: Result<(), ValidationError>)
    ensures
        match header_fault(*header, now_ns) {
            None => result is Ok,
            Some(error) => result == Err::<(), ValidationError>(error),
        },
{
    if header.schema_version != SCHEMA_VERSION {
        return Err(
            ValidationError::UnsupportedSchema {
                expected: SCHEMA_VERSION,
                actual: header.schema_version,
            },
        );
    }
    if header.expire_time_ns > 0 && header.expire_time_ns < now_ns {
        return Err(
            ValidationError::Expired { expire_time_ns: header.expire_time_ns, now_ns },
        );
    }
    if blank(header.vehicle_id.as_str()) {
        return Err(ValidationError::MissingVehicleId);
    }
    if blank(header.stream_id.as_str()) {
        return Err(ValidationError::MissingStreamId);
    }
    Ok(())
}

/// Whether a frame is taken at the given time. `parsed` is the envelope that the frame's text
/// holds, or what its parser said.
pub fn validate_json_frame<T>(
    parsed: Result<TelemetryEnvelope<T>, String>,
    now_ns: u64,
) -> (result: Result<(), String>)
    ensures
        match parsed {
            Err(message) => result is Err && result->Err_0@ == message@,
            Ok(envelope) => match header_fault(envelope.header, now_ns) {
                None => result is Ok,
                Some(error) => result is Err && result->Err_0@ == error.text(),
            },
        },
{
    match parsed {
        Err(message) => Err(message),
        Ok(envelope) => match validate_header(&envelope.header, now_ns) {
            Ok(_) => Ok(()),
            Err(error) => Err(error.message()),
        },
    }
}

/// A message that is taken at some time was good at every earlier time.
pub proof fn lemma_good_until_expiry(header: MessageHeader, earlier_ns: u64, later_ns: u64)
    requires
        earlier_ns <= later_ns,
        header_fault(header, later_ns) is None,
    ensures
        header_fault(header, earlier_ns) is None,
{
}

} // verus!
