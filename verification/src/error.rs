//! Error types for the control layer.
//!
//! The main [`Error<E>`] type is generic over the transport's error type `E`.

use vstd::prelude::*;
use vstd::std_specs::convert::FromSpecImpl;
use crate::protocol::error::ProtocolError;

verus! {

/// A domain validation error (independent of transport).
#[derive(Debug, Clone, PartialEq, Eq)]
pub struct ValidationError {
    /// The field/type that failed validation.
    pub field: &'static str,
    /// A human-readable reason.
    pub reason: &'static str,
}

impl ValidationError {
    /// The human-readable message: `invalid value for <field>: <reason>`.
    pub fn to_string(&self) -> (s: String)
        ensures
            s@ == "invalid value for "@ + self.field@ + ": "@ + self.reason@,
    {
        let mut s = String::from_str("invalid value for ");
        s.append(self.field);
        s.append(": ");
        s.append(self.reason);
        s
    }
}

/// Errors that can occur when interacting with the robot.
///
/// `E` is the transport's error type.
#[derive(Debug)]
pub enum Error<E> {
    /// An underlying transport I/O operation failed.
    Io(E),
    /// A protocol-level error (checksum, parse, malformed data).
    Protocol(ProtocolError),
    /// A value was invalid for its domain type.
    Validation(ValidationError),
    /// The transport reported end of stream (the connection went away).
    Disconnected,
}

impl<E> From<ProtocolError> for Error<E> {
    fn from(e: ProtocolError) -> (r: Self)
        ensures
            r == Error::<E>::Protocol(e),
    {
        Error::Protocol(e)
    }
}

impl<E> FromSpecImpl<ProtocolError> for Error<E> {
    open spec fn obeys_from_spec() -> bool {
        true
    }

    open spec fn from_spec(e: ProtocolError) -> Self {
        Error::Protocol(e)
    }
}

impl<E> From<ValidationError> for Error<E> {
    fn from(e: ValidationError) -> (r: Self)
        ensures
            r == Error::<E>::Validation(e),
    {
        Error::Validation(e)
    }
}

impl<E> FromSpecImpl<ValidationError> for Error<E> {
    open spec fn obeys_from_spec() -> bool {
        true
    }

    open spec fn from_spec(e: ValidationError) -> Self {
        Error::Validation(e)
    }
}

/// Error returned when a mode transition fails, preserving the robot
/// so the caller can recover.
#[derive(Debug)]
pub struct TransitionError<R, E> {
    /// The robot, returned in its original mode.
    pub create: R,
    /// The underlying error.
    pub source: Error<E>,
}

/// Error returned when `start()` fails, preserving the transport
/// so the caller can retry or reuse it.
#[derive(Debug)]
pub struct ConnectError<T, E> {
    /// The transport handle, returned to the caller.
    pub transport: T,
    /// The underlying error.
    pub source: Error<E>,
}

} // verus!
