//! The error taxonomy of the driver: one kind per semantic failure.
use vstd::prelude::*;
use vstd::string::StringExecFns;

verus! {

/// Every failure the driver surfaces to a caller.
#[derive(Debug)]
pub enum Error {
    /// Socket-level failure; the connection is unusable afterwards.
    IOError { detail: String },
    /// The pool could not provide a connection.
    ConnectionError,
    /// A string payload exceeds the largest encodable length.
    StringTooLong,
    /// A map has more entries than the largest encodable count.
    MapTooBig,
    /// A byte-string payload exceeds the largest encodable length.
    BytesTooBig,
    /// A list has more entries than the largest encodable count.
    ListTooLong,
    /// Configuration validation failed.
    InvalidConfig,
    /// The handshake reply selected no offered protocol version.
    UnsupportedVersion(String),
    /// A protocol reply did not match the requested operation.
    UnexpectedMessage(String),
    /// A value carried a type marker whose kind the decoder does not know.
    UnknownType(String),
    /// A frame carried a message tag the driver does not know.
    UnknownMessage(String),
    /// A decoded value did not match the expected shape.
    ConversionError,
    /// The server rejected the HELLO credentials, saying why.
    AuthenticationError(Vec<u8>),
    /// A leading byte was no legal type marker.
    InvalidTypeMarker(String),
    /// A frame ended before the value it announced was complete.
    DeserializationError(String),
    /// The transport layer failed below the protocol.
    CommunicationError,
    /// A FAILURE payload from the server, with its classification code.
    Server { code: Vec<u8>, message: Vec<u8> },
}

/// The error for a protocol reply that does not answer the request,
/// carrying both the request name and a description of the reply.
pub fn unexpected(response: &str, request: &str) -> (e: Error)
    ensures
        e is UnexpectedMessage,
        e matches Error::UnexpectedMessage(m) && m@ == "unexpected response for "@ + request@
            + ": "@ + response@,
{
    let mut detail = String::from_str("unexpected response for ");
    detail.append(request);
    detail.append(": ");
    detail.append(response);
    Error::UnexpectedMessage(detail)
}

} // verus!
