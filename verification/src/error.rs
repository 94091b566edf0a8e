//! Error types for the wire and RPC layers.
//!
//! [`WireError`] covers byte-level concerns: framing, serialization, socket
//! I/O. [`PatinaError`] is the higher-level error surface that callers see:
//! transport failure, errors reported by the peer, and connection lifecycle
//! events.

use crate::envelope::ErrorData;
use bincode::error::{DecodeError, EncodeError};
use vstd::prelude::*;
use vstd::std_specs::convert::FromSpec;

verus! {

/// `std::io::Error`, carried through unread.
#[verifier::external_type_specification]
#[verifier::external_body]
pub struct ExIoError(std::io::Error);

/// `bincode::error::EncodeError`, carried through unread.
#[verifier::external_type_specification]
#[verifier::external_body]
pub struct ExEncodeError(bincode::error::EncodeError);

/// `bincode::error::DecodeError`, carried through unread.
#[verifier::external_type_specification]
#[verifier::external_body]
pub struct ExDecodeError(bincode::error::DecodeError);

/// Errors produced while encoding or decoding envelopes.
///
/// The framing layer reports oversized frames as I/O errors, so the `Io`
/// variant covers both transport and framing faults. Any of these variants
/// taints the byte stream: the caller is expected to drop the connection
/// rather than attempt recovery.
#[derive(Debug)]
pub enum WireError {
    /// Transport or framing failure (socket read or write, oversized frame).
    Io(std::io::Error),
    /// An outgoing envelope failed to serialize.
    Encode(EncodeError),
    /// An incoming frame failed to deserialize.
    Decode(DecodeError),
}

/// The kind of an I/O error, as far as framing tells kinds apart.
#[derive(Debug, Clone, Copy, PartialEq, Eq)]
pub enum IoKind {
    /// What arrived is not valid.
    InvalidData,
    /// What was to be sent is not valid.
    InvalidInput,
    /// Any other kind.
    Other,
}

/// The kind of an I/O error.
pub uninterp spec fn io_kind(error: std::io::Error) -> IoKind;

/// `std::io::Error::kind`, which an error has for good.
#[verifier::external_body]
fn kind_of(error: &std::io::Error) -> (kind: IoKind)
    ensures
        kind == io_kind(*error),
{
    match error.kind() {
        std::io::ErrorKind::InvalidData => IoKind::InvalidData,
        std::io::ErrorKind::InvalidInput => IoKind::InvalidInput,
        _ => IoKind::Other,
    }
}

impl WireError {
    /// The kind of a transport or framing failure.
    pub fn io_kind(&self) -> (kind: Option<IoKind>)
        ensures
            kind == (match self {
                WireError::Io(error) => Some(io_kind(*error)),
                _ => None,
            }),
    {
        match self {
            WireError::Io(error) => Some(kind_of(error)),
            _ => None,
        }
    }
}

/// Errors observable by RPC callers.
#[derive(Debug)]
pub enum PatinaError {
    /// Transport or codec failure.
    Wire(WireError),
    /// The peer answered this call with an error envelope.
    Remote {
        /// HTTP-like status code chosen by the remote handler.
        code: u16,
        /// Human-readable message from the remote handler.
        message: String,
    },
    /// The connection closed before a response arrived, or was already closed
    /// when the call was made.
    Closed,
    /// The server has no handler for the requested method.
    UnknownMethod(String),
}

/// Older name of [`PatinaError`].
pub type RpcError = PatinaError;

impl PatinaError {
    /// An application-level failure for a handler to return. The caller sees
    /// it as [`PatinaError::Remote`] with the given code and message.
    pub fn application(code: u16, message: String) -> (error: Self)
        ensures
            error == (PatinaError::Remote { code, message }),
    {
        PatinaError::Remote { code, message }
    }
}

impl From<std::io::Error> for WireError {
    fn from(e: std::io::Error) -> (error: Self) {
        WireError::Io(e)
    }
}

impl vstd::std_specs::convert::FromSpecImpl<std::io::Error> for WireError {
    open spec fn obeys_from_spec() -> bool {
        true
    }

    open spec fn from_spec(e: std::io::Error) -> Self {
        WireError::Io(e)
    }
}

impl From<EncodeError> for WireError {
    fn from(e: EncodeError) -> (error: Self) {
        WireError::Encode(e)
    }
}

impl vstd::std_specs::convert::FromSpecImpl<EncodeError> for WireError {
    open spec fn obeys_from_spec() -> bool {
        true
    }

    open spec fn from_spec(e: EncodeError) -> Self {
        WireError::Encode(e)
    }
}

impl From<DecodeError> for WireError {
    fn from(e: DecodeError) -> (error: Self) {
        WireError::Decode(e)
    }
}

impl vstd::std_specs::convert::FromSpecImpl<DecodeError> for WireError {
    open spec fn obeys_from_spec() -> bool {
        true
    }

    open spec fn from_spec(e: DecodeError) -> Self {
        WireError::Decode(e)
    }
}

impl From<WireError> for PatinaError {
    fn from(e: WireError) -> (error: Self) {
        PatinaError::Wire(e)
    }
}

impl vstd::std_specs::convert::FromSpecImpl<WireError> for PatinaError {
    open spec fn obeys_from_spec() -> bool {
        true
    }

    open spec fn from_spec(e: WireError) -> Self {
        PatinaError::Wire(e)
    }
}

impl From<ErrorData> for PatinaError {
    fn from(e: ErrorData) -> (error: Self) {
        PatinaError::Remote { code: e.code, message: e.message }
    }
}

impl vstd::std_specs::convert::FromSpecImpl<ErrorData> for PatinaError {
    open spec fn obeys_from_spec() -> bool {
        true
    }

    open spec fn from_spec(e: ErrorData) -> Self {
        PatinaError::Remote { code: e.code, message: e.message }
    }
}

impl From<std::io::Error> for PatinaError {
    fn from(e: std::io::Error) -> (error: Self) {
        PatinaError::Wire(WireError::Io(e))
    }
}

impl vstd::std_specs::convert::FromSpecImpl<std::io::Error> for PatinaError {
    open spec fn obeys_from_spec() -> bool {
        true
    }

    open spec fn from_spec(e: std::io::Error) -> Self {
        PatinaError::Wire(WireError::Io(e))
    }
}

// ---------------------------------------------------------------------------
// Laws
// ---------------------------------------------------------------------------

/// An error that is passed on stays the error that it is: those of the wire keep
/// their kind, and one that the peer reported keeps its code and its message,
/// whatever the code.
pub proof fn law_errors_are_passed_on_unchanged(
    io: std::io::Error,
    encode: EncodeError,
    decode: DecodeError,
    wire: WireError,
    reported: ErrorData,
)
    ensures
        <WireError as FromSpec<std::io::Error>>::from_spec(io) == WireError::Io(io),
        <WireError as FromSpec<EncodeError>>::from_spec(encode) == WireError::Encode(encode),
        <WireError as FromSpec<DecodeError>>::from_spec(decode) == WireError::Decode(decode),
        <PatinaError as FromSpec<WireError>>::from_spec(wire) == PatinaError::Wire(wire),
        <PatinaError as FromSpec<std::io::Error>>::from_spec(io) == PatinaError::Wire(
            WireError::Io(io),
        ),
        <PatinaError as FromSpec<ErrorData>>::from_spec(reported) == (PatinaError::Remote {
            code: reported.code,
            message: reported.message,
        }),
        <WireError as FromSpec<std::io::Error>>::obeys_from_spec(),
        <WireError as FromSpec<EncodeError>>::obeys_from_spec(),
        <WireError as FromSpec<DecodeError>>::obeys_from_spec(),
        <PatinaError as FromSpec<WireError>>::obeys_from_spec(),
        <PatinaError as FromSpec<std::io::Error>>::obeys_from_spec(),
        <PatinaError as FromSpec<ErrorData>>::obeys_from_spec(),
{
}

} // verus!
