//! Wire-level message types.
//!
//! Every byte that travels across a Patina connection belongs to an
//! [`Envelope`]. The variants split the protocol into request, response and
//! error flows plus a lightweight keep-alive. The `payload` fields are opaque
//! to this layer: callers serialize their arguments into those bytes before an
//! envelope reaches the wire.

use vstd::prelude::*;

verus! {

/// Top-level message wrapper.
#[derive(Debug, Clone, PartialEq, Eq)]
pub enum Envelope {
    Request(RequestData),
    Response(ResponseData),
    Error(ErrorData),
    Heartbeat,
}

/// Initiates a call. `id` is unique per in-flight request on a connection,
/// `method` selects the server-side handler and `payload` carries the
/// serialized arguments.
#[derive(Debug, Clone, PartialEq, Eq)]
pub struct RequestData {
    pub id: u64,
    pub method: String,
    pub payload: Vec<u8>,
}

/// Successful reply to a request. `id` equals the request's `id`.
#[derive(Debug, Clone, PartialEq, Eq)]
pub struct ResponseData {
    pub id: u64,
    pub payload: Vec<u8>,
}

/// Failure reply. `code` follows the HTTP convention.
#[derive(Debug, Clone, PartialEq, Eq)]
pub struct ErrorData {
    pub id: u64,
    pub code: u16,
    pub message: String,
}

/// What an [`Envelope`] says: its view, with texts as character sequences and
/// payloads as byte sequences.
#[verifier::ext_equal]
pub enum Message {
    Request { id: u64, method: Seq<char>, payload: Seq<u8> },
    Response { id: u64, payload: Seq<u8> },
    Error { id: u64, code: u16, message: Seq<char> },
    Heartbeat,
}

impl View for Envelope {
    type V = Message;

    open spec fn view(&self) -> Message {
        match self {
            Envelope::Request(r) => Message::Request {
                id: r.id,
                method: r.method@,
                payload: r.payload@,
            },
            Envelope::Response(r) => Message::Response { id: r.id, payload: r.payload@ },
            Envelope::Error(e) => Message::Error { id: e.id, code: e.code, message: e.message@ },
            Envelope::Heartbeat => Message::Heartbeat,
        }
    }
}

impl Message {
    /// The in-flight request that this message answers, if it answers one.
    pub open spec fn answers(self) -> Option<u64> {
        match self {
            Message::Response { id, .. } => Some(id),
            Message::Error { id, .. } => Some(id),
            _ => None,
        }
    }
}

// ---------------------------------------------------------------------------
// Laws
// ---------------------------------------------------------------------------

/// Responses and errors answer the request whose id they carry, whatever else
/// they carry. Requests and heartbeats answer nothing.
pub proof fn law_only_replies_answer(
    id: u64,
    method: Seq<char>,
    payload: Seq<u8>,
    code: u16,
    message: Seq<char>,
)
    ensures
        (Message::Response { id, payload }).answers() == Some(id),
        (Message::Error { id, code, message }).answers() == Some(id),
        (Message::Request { id, method, payload }).answers() == None::<u64>,
        Message::Heartbeat.answers() == None::<u64>,
{
}

/// An envelope says exactly what its fields hold.
pub proof fn law_envelope_says_its_fields(
    request: RequestData,
    response: ResponseData,
    error: ErrorData,
)
    ensures
        Envelope::Request(request)@ == (Message::Request {
            id: request.id,
            method: request.method@,
            payload: request.payload@,
        }),
        Envelope::Response(response)@ == (Message::Response {
            id: response.id,
            payload: response.payload@,
        }),
        Envelope::Error(error)@ == (Message::Error {
            id: error.id,
            code: error.code,
            message: error.message@,
        }),
        Envelope::Heartbeat@ == Message::Heartbeat,
{
}

} // verus!
