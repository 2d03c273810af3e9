//! Protocol-level error types.
//!
//! These errors represent failures in encoding/decoding the OI wire format,
//! independent of any I/O or transport concerns.

use vstd::prelude::*;
use crate::text::{decimal, hex_byte, push_decimal, push_hex_byte, string_of};

verus! {

/// Errors from protocol encoding/decoding operations.
#[non_exhaustive]
#[derive(Debug, Clone, Copy, PartialEq, Eq)]
pub enum ProtocolError {
    /// Not enough bytes to decode a sensor packet or stream frame.
    InsufficientData {
        /// Minimum bytes required.
        need: usize,
        /// Bytes actually available.
        got: usize,
    },
    /// A stream frame checksum did not match.
    Checksum {
        /// Checksum byte that would have made the frame sum zero.
        expected: u8,
        /// Received checksum byte from the robot.
        actual: u8,
    },
    /// An unrecognised sensor packet ID was encountered.
    UnknownPacketId(u8),
    /// A required sensor field was not present in the decoded data.
    MissingSensorField {
        /// Human-readable name of the missing field.
        field: &'static str,
    },
    /// The provided buffer was too small for the encoded output.
    BufferTooSmall {
        /// Minimum buffer size required.
        need: usize,
        /// Actual buffer size provided.
        got: usize,
    },
    /// The input contains more items than the OI protocol allows.
    TooManyItems {
        /// Maximum allowed number of items.
        max: usize,
        /// Number of items provided.
        got: usize,
    },
    /// The input contains fewer items than the OI protocol requires.
    TooFewItems {
        /// Minimum required number of items.
        min: usize,
        /// Number of items provided.
        got: usize,
    },
    /// More data was provided than expected for the requested packet list.
    UnexpectedData {
        /// Number of trailing bytes that were not consumed.
        trailing: usize,
    },
}

/// The human-readable message of an error.
pub open spec fn protocol_error_text(e: ProtocolError) -> Seq<char> {
    match e {
        ProtocolError::InsufficientData { need, got } =>
            "insufficient data: need "@ + decimal(need as nat) + " bytes, got "@ + decimal(got as nat),
        ProtocolError::Checksum { expected, actual } =>
            "checksum mismatch: expected "@ + hex_byte(expected) + ", got "@ + hex_byte(actual),
        ProtocolError::UnknownPacketId(id) => "unknown packet id: "@ + decimal(id as nat),
        ProtocolError::MissingSensorField { field } => "missing sensor field: "@ + field@,
        ProtocolError::BufferTooSmall { need, got } =>
            "buffer too small: need "@ + decimal(need as nat) + " bytes, got "@ + decimal(got as nat),
        ProtocolError::TooManyItems { max, got } =>
            "too many items: max "@ + decimal(max as nat) + ", got "@ + decimal(got as nat),
        ProtocolError::TooFewItems { min, got } =>
            "too few items: min "@ + decimal(min as nat) + ", got "@ + decimal(got as nat),
        ProtocolError::UnexpectedData { trailing } =>
            "unexpected trailing data: "@ + decimal(trailing as nat) + " bytes not consumed"@,
    }
}

impl ProtocolError {
    /// The human-readable message of this error.
    pub fn to_string(&self) -> (s: String)
        ensures
            s@ == protocol_error_text(*self),
    {
        match *self {
            ProtocolError::InsufficientData { need, got } => {
                let mut s = string_of("insufficient data: need ");
                push_decimal(&mut s, need as u64);
                s.append(" bytes, got ");
                push_decimal(&mut s, got as u64);
                s
            },
            ProtocolError::Checksum { expected, actual } => {
                let mut s = string_of("checksum mismatch: expected ");
                push_hex_byte(&mut s, expected);
                s.append(", got ");
                push_hex_byte(&mut s, actual);
                s
            },
            ProtocolError::UnknownPacketId(id) => {
                let mut s = string_of("unknown packet id: ");
                push_decimal(&mut s, id as u64);
                s
            },
            ProtocolError::MissingSensorField { field } => {
                let mut s = string_of("missing sensor field: ");
                s.append(field);
                s
            },
            ProtocolError::BufferTooSmall { need, got } => {
                let mut s = string_of("buffer too small: need ");
                push_decimal(&mut s, need as u64);
                s.append(" bytes, got ");
                push_decimal(&mut s, got as u64);
                s
            },
            ProtocolError::TooManyItems { max, got } => {
                let mut s = string_of("too many items: max ");
                push_decimal(&mut s, max as u64);
                s.append(", got ");
                push_decimal(&mut s, got as u64);
                s
            },
            ProtocolError::TooFewItems { min, got } => {
                let mut s = string_of("too few items: min ");
                push_decimal(&mut s, min as u64);
                s.append(", got ");
                push_decimal(&mut s, got as u64);
                s
            },
            ProtocolError::UnexpectedData { trailing } => {
                let mut s = string_of("unexpected trailing data: ");
                push_decimal(&mut s, trailing as u64);
                s.append(" bytes not consumed");
                s
            },
        }
    }
}

} // verus!
