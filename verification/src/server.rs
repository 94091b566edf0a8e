//! Server-side multiplexer.
//!
//! A [`Server`] is a frozen registry of handlers by method name. Each request
//! that arrives on a connection is routed to the handler of its method, and
//! what the handler returns goes back under the id of the request. Reading
//! frames, running handlers concurrently and writing replies is left to the
//! caller, which feeds this module's decisions with what it met.
//!
//! * [`Handler`] is what handlers implement;
//! * [`handler_fn`] makes a handler of a function;
//! * [`ServerBuilder`] collects handlers and [`ServerBuilder::build`] freezes
//!   them.

use crate::body::body;
use crate::client::{outcome, Connection, Outcome, Step, WriteAction, WriteEvent};
use crate::codec::{law_stream_round_trip, received, written};
use crate::envelope::{Envelope, ErrorData, Message, RequestData, ResponseData};
use crate::error::WireError;
use std::marker::PhantomData;
use vstd::hash_map::StringHashMap;
use vstd::prelude::*;
use vstd::string::StringExecFns;

verus! {

/// Bound on the queue of replies that wait to be written.
pub const WRITER_CHANNEL_CAPACITY: usize = 128;

/// Status code for a request that names a method without a handler.
pub const UNKNOWN_METHOD_CODE: u16 = 404;

// ---------------------------------------------------------------------------
// Handlers
// ---------------------------------------------------------------------------

/// Error returned by a [`Handler`] when business logic fails. The server adds
/// the id of the request when it builds the reply.
#[derive(Debug, Clone)]
pub struct HandlerError {
    /// HTTP-like status code for the caller.
    pub code: u16,
    /// Human-readable message for the caller.
    pub message: String,
}

impl HandlerError {
    pub fn new(code: u16, message: String) -> (error: Self)
        ensures
            error == (HandlerError { code, message }),
    {
        HandlerError { code, message }
    }
}

/// Implemented by anything that the server can dispatch a request to. State
/// that a handler needs lives behind `&self`.
///
/// `R` is what handling a request gives: the result, or a promise of it.
pub trait Handler<R = Result<Vec<u8>, HandlerError>> {
    /// Handles one request.
    fn handle(&self, payload: Vec<u8>) -> (reply: R);
}

/// A function as a [`Handler`].
#[verifier::reject_recursive_types(R)]
pub struct FnHandler<F: Fn(Vec<u8>) -> R, R> {
    f: F,
    reply: PhantomData<R>,
}

impl<F: Fn(Vec<u8>) -> R, R> FnHandler<F, R> {
    /// The function that handles requests.
    pub closed spec fn function(self) -> F {
        self.f
    }

    #[verifier::type_invariant]
    spec fn takes_any_payload(self) -> bool {
        forall|payload: Vec<u8>| call_requires(self.f, (payload,))
    }
}

impl<F: Fn(Vec<u8>) -> R, R> Handler<R> for FnHandler<F, R> {
    fn handle(&self, payload: Vec<u8>) -> (reply: R)
        ensures
            call_ensures(self.function(), (payload,), reply),
    {
        proof {
            use_type_invariant(self);
        }
        (self.f)(payload)
    }
}

/// Makes a handler of a function. A service of its own should rather implement
/// [`Handler`] on a struct, with its state behind `&self`.
pub fn handler_fn<F: Fn(Vec<u8>) -> R, R>(f: F) -> (handler: FnHandler<F, R>)
    requires
        forall|payload: Vec<u8>| call_requires(f, (payload,)),
    ensures
        handler.function() == f,
{
    FnHandler { f, reply: PhantomData }
}

// ---------------------------------------------------------------------------
// The registry
// ---------------------------------------------------------------------------

/// Frozen registry of handlers by method name.
#[verifier::reject_recursive_types(H)]
pub struct Server<H> {
    handlers: StringHashMap<H>,
}

/// Mutable counterpart to [`Server`], which collects handlers.
#[verifier::reject_recursive_types(H)]
pub struct ServerBuilder<H> {
    handlers: StringHashMap<H>,
}

impl<H> View for Server<H> {
    type V = Map<Seq<char>, H>;

    closed spec fn view(&self) -> Map<Seq<char>, H> {
        self.handlers@
    }
}

impl<H> View for ServerBuilder<H> {
    type V = Map<Seq<char>, H>;

    closed spec fn view(&self) -> Map<Seq<char>, H> {
        self.handlers@
    }
}

impl<H> Default for ServerBuilder<H> {
    fn default() -> (builder: Self)
        ensures
            builder@ == Map::<Seq<char>, H>::empty(),
    {
        ServerBuilder { handlers: StringHashMap::new() }
    }
}

impl<H> ServerBuilder<H> {
    /// Registers a handler under `method`. Later registrations for the same
    /// method overwrite earlier ones.
    pub fn register(self, method: String, handler: H) -> (builder: Self)
        ensures
            builder@ == self@.insert(method@, handler),
    {
        let mut handlers = self.handlers;
        handlers.insert(method, handler);
        ServerBuilder { handlers }
    }

    /// Freezes the registry.
    pub fn build(self) -> (server: Server<H>)
        ensures
            server@ == self@,
    {
        Server { handlers: self.handlers }
    }
}

// ---------------------------------------------------------------------------
// Requests and replies
// ---------------------------------------------------------------------------

/// What a handler said, with texts as character sequences and payloads as byte
/// sequences.
pub enum Handled {
    Payload(Seq<u8>),
    Failed { code: u16, message: Seq<char> },
}

/// What a handler's result says.
pub open spec fn handled(result: Result<Vec<u8>, HandlerError>) -> Handled {
    match result {
        Ok(payload) => Handled::Payload(payload@),
        Err(error) => Handled::Failed { code: error.code, message: error.message@ },
    }
}

/// The reply to the request with this id.
pub open spec fn reply_message(id: u64, said: Handled) -> Message {
    match said {
        Handled::Payload(payload) => Message::Response { id, payload },
        Handled::Failed { code, message } => Message::Error { id, code, message },
    }
}

/// What a request for a method without a handler is answered.
pub open spec fn unknown_method(method: Seq<char>) -> Handled {
    Handled::Failed { code: UNKNOWN_METHOD_CODE, message: "unknown method: "@ + method }
}

/// Whether `handler` may answer `payload` with `reply`.
pub open spec fn answers<H: Handler<R>, R>(handler: H, payload: Vec<u8>, reply: R) -> bool {
    call_ensures(H::handle, (&handler, payload), reply)
}

/// Where a request stands after it was routed.
pub enum Dispatched<R> {
    /// The handler of its method has it. Its reply goes out under `id`.
    Running { id: u64, reply: R },
    /// It is answered already.
    Answered(Envelope),
}

/// The envelope for what a handler returned.
pub fn reply(id: u64, result: Result<Vec<u8>, HandlerError>) -> (envelope: Envelope)
    ensures
        envelope@ == reply_message(id, handled(result)),
        match result {
            Ok(payload) => envelope == Envelope::Response(ResponseData { id, payload }),
            Err(error) => envelope == Envelope::Error(
                ErrorData { id, code: error.code, message: error.message },
            ),
        },
{
    match result {
        Ok(payload) => Envelope::Response(ResponseData { id, payload }),
        Err(error) => Envelope::Error(ErrorData { id, code: error.code, message: error.message }),
    }
}

/// What a connection met while it waited for a frame.
pub enum FrameEvent {
    /// An envelope arrived.
    Frame(Envelope),
    /// What arrived was too large or no envelope.
    Failed,
    /// The peer closed the connection.
    Ended,
}

impl FrameEvent {
    /// What reading the next frame of a stream came to: an envelope, an error, or
    /// the end of the stream.
    pub fn of(read: Option<Result<Envelope, WireError>>) -> (event: Self)
        ensures
            event == (match read {
                Some(Ok(envelope)) => FrameEvent::Frame(envelope),
                Some(Err(_)) => FrameEvent::Failed,
                None => FrameEvent::Ended,
            }),
    {
        match read {
            Some(Ok(envelope)) => FrameEvent::Frame(envelope),
            Some(Err(_)) => FrameEvent::Failed,
            None => FrameEvent::Ended,
        }
    }
}

/// What a connection is to do.
pub enum FrameAction {
    /// Dispatch this request in a task of its own and read on.
    Spawn(RequestData),
    /// Read on.
    Ignore,
    /// Stop reading, let the replies that are left go out, and close.
    Close,
    /// Close at once: read no further frame, and drop the replies of requests
    /// that are still running.
    Abort,
}

/// One step of a connection's reading half. Heartbeats and stray replies are
/// ignored. A frame that is too large or no envelope taints the stream, and the
/// connection is terminated at once.
pub fn on_frame(event: FrameEvent) -> (action: FrameAction)
    ensures
        match event {
            FrameEvent::Frame(Envelope::Request(request)) => action == FrameAction::Spawn(request),
            FrameEvent::Frame(_) => action is Ignore,
            FrameEvent::Failed => action is Abort,
            FrameEvent::Ended => action is Close,
        },
{
    match event {
        FrameEvent::Frame(Envelope::Request(request)) => FrameAction::Spawn(request),
        FrameEvent::Frame(_) => FrameAction::Ignore,
        FrameEvent::Failed => FrameAction::Abort,
        FrameEvent::Ended => FrameAction::Close,
    }
}

/// One step of a connection's writing half. Replies are written in the order in
/// which they were queued, and a heartbeat whenever the connection was idle,
/// until there are no more or writing fails.
pub fn on_write(event: WriteEvent) -> (action: WriteAction)
    ensures
        match event {
            WriteEvent::Queued(envelope) => action == WriteAction::Send(envelope),
            WriteEvent::Idle => action == WriteAction::Send(Envelope::Heartbeat),
            WriteEvent::Sent => action is Receive,
            _ => action is Stop,
        },
{
    match event {
        WriteEvent::Queued(envelope) => WriteAction::Send(envelope),
        WriteEvent::Idle => WriteAction::Send(Envelope::Heartbeat),
        WriteEvent::Sent => WriteAction::Receive,
        _ => WriteAction::Stop,
    }
}

impl<H> Server<H> {
    pub fn builder() -> (builder: ServerBuilder<H>)
        ensures
            builder@ == Map::<Seq<char>, H>::empty(),
    {
        ServerBuilder::default()
    }

    /// Routes a request: its payload goes to the handler of its method, and if
    /// there is none, the request is answered right away.
    pub fn dispatch<R>(&self, request: RequestData) -> (dispatched: Dispatched<R>) where
        H: Handler<R>,

        ensures
            ({
                if self@.contains_key(request.method@) {
                    dispatched matches Dispatched::Running { id, reply } && id == request.id
                        && answers(self@[request.method@], request.payload, reply)
                        && call_ensures(
                        H::handle,
                        (&self@[request.method@], request.payload),
                        reply,
                    )
                } else {
                    dispatched matches Dispatched::Answered(envelope) && envelope@
                        == reply_message(request.id, unknown_method(request.method@)) && envelope@
                        == (Message::Error {
                        id: request.id,
                        code: 404,
                        message: "unknown method: "@ + request.method@,
                    })
                }
            }),
    {
        match self.handlers.get(request.method.as_str()) {
            Some(handler) => Dispatched::Running {
                id: request.id,
                reply: handler.handle(request.payload),
            },
            None => Dispatched::Answered(
                reply(
                    request.id,
                    Err(
                        HandlerError::new(
                            UNKNOWN_METHOD_CODE,
                            "unknown method: ".to_owned().concat(request.method.as_str()),
                        ),
                    ),
                ),
            ),
        }
    }
}

// ---------------------------------------------------------------------------
// Laws
// ---------------------------------------------------------------------------

/// A later registration for a method takes the place of an earlier one, and
/// registrations for other methods are not touched by it.
pub proof fn law_later_registration_wins<H>(
    registry: Map<Seq<char>, H>,
    method: Seq<char>,
    earlier: H,
    later: H,
    other: Seq<char>,
)
    requires
        other != method,
    ensures
        registry.insert(method, earlier).insert(method, later) == registry.insert(method, later),
        registry.insert(method, later)[method] == later,
        registry.insert(method, later).contains_key(other) == registry.contains_key(other),
        registry.insert(method, later)[other] == registry[other],
{
    assert(registry.insert(method, earlier).insert(method, later) =~= registry.insert(
        method,
        later,
    ));
}

/// A reply answers the request whose id it carries.
pub proof fn law_reply_answers_its_request(id: u64, said: Handled)
    ensures
        reply_message(id, said).answers() == Some(id),
{
}

/// What the server said is what the caller gets: a payload as it is, an error
/// with its code and message, and for an unknown method a 404 that names it.
pub proof fn law_caller_gets_what_was_said(id: u64, said: Handled, method: Seq<char>)
    ensures
        outcome(Some(reply_message(id, said))) == (match said {
            Handled::Payload(payload) => Outcome::Payload(payload),
            Handled::Failed { code, message } => Outcome::Remote { code, message },
        }),
        outcome(Some(reply_message(id, unknown_method(method)))) == (Outcome::Remote {
            code: 404,
            message: "unknown method: "@ + method,
        }),
{
}

/// A call from end to end. The request arrives as it was sent, the reply
/// arrives as it was sent, and it is the waiter of this call that is woken, to
/// find what the server said.
pub proof fn law_call_end_to_end<W>(
    connection: Connection<W>,
    waiter: W,
    method: Seq<char>,
    payload: Seq<u8>,
    said: Handled,
    limit: nat,
)
    requires
        !connection.closed,
        limit <= u32::MAX,
        ({
            let request = Message::Request { id: connection.next_id, method, payload };
            request.fits_memory() && body(request).len() <= limit
        }),
        ({
            let reply = reply_message(connection.next_id, said);
            reply.fits_memory() && body(reply).len() <= limit
        }),
    ensures
        ({
            let request = Message::Request { id: connection.next_id, method, payload };
            let reply = reply_message(connection.next_id, said);
            &&& received(written(seq![request]), limit) == seq![request]
            &&& received(written(seq![reply]), limit) == seq![reply]
            &&& connection.after(Step::Called(waiter)).addressee(reply) == Some(waiter)
            &&& outcome(Some(reply)) == (match said {
                Handled::Payload(payload) => Outcome::Payload(payload),
                Handled::Failed { code, message } => Outcome::Remote { code, message },
            })
        }),
{
    let request = Message::Request { id: connection.next_id, method, payload };
    let reply = reply_message(connection.next_id, said);
    lemma_one_message(request, limit);
    lemma_one_message(reply, limit);
}

/// One message that was written is the one message that is read.
proof fn lemma_one_message(m: Message, limit: nat)
    requires
        limit <= u32::MAX,
        m.fits_memory(),
        body(m).len() <= limit,
    ensures
        received(written(seq![m]), limit) == seq![m],
{
    law_stream_round_trip(seq![m], seq![], limit);
    assert(written(seq![m]) + Seq::<u8>::empty() =~= written(seq![m]));
    assert(seq![m] + Seq::<Message>::empty() =~= seq![m]);
}

/// A handler is run on the payload of the request, all of it and unchanged, and
/// any reply it may give to that payload may be the reply.
pub proof fn law_handler_gets_the_whole_payload<H: Handler<R>, R>(
    handler: H,
    payload: Vec<u8>,
    reply: R,
)
    ensures
        answers(handler, payload, reply) <==> call_ensures(
            H::handle,
            (&handler, payload),
            reply,
        ),
{
}

/// A handler made of a function answers with what the function returns for the
/// payload.
pub proof fn law_function_handler_runs_its_function<F: Fn(Vec<u8>) -> R, R>(
    handler: FnHandler<F, R>,
    payload: Vec<u8>,
    reply: R,
)
    requires
        answers(handler, payload, reply),
    ensures
        call_ensures(handler.function(), (payload,), reply),
{
}

/// A handler's payload goes back as a response and its failure as an error, both
/// under the id of the request, with nothing left out and nothing added.
pub proof fn law_reply_says_what_the_handler_said(
    id: u64,
    payload: Vec<u8>,
    error: HandlerError,
    bytes: Seq<u8>,
    code: u16,
    text: Seq<char>,
)
    ensures
        handled(Ok(payload)) == Handled::Payload(payload@),
        handled(Err(error)) == (Handled::Failed { code: error.code, message: error.message@ }),
        reply_message(id, Handled::Payload(bytes)) == (Message::Response { id, payload: bytes }),
        reply_message(id, Handled::Failed { code, message: text }) == (Message::Error {
            id,
            code,
            message: text,
        }),
{
}

/// Two handlers that said different things are answered differently.
pub proof fn law_replies_tell_results_apart(id: u64, a: Handled, b: Handled)
    requires
        reply_message(id, a) == reply_message(id, b),
    ensures
        a == b,
{
}

/// A request for a method without a handler is answered with 404 and a message
/// that names the method, so that two methods are never confused.
pub proof fn law_unknown_method_is_named(a: Seq<char>, b: Seq<char>)
    ensures
        unknown_method(a) == (Handled::Failed { code: 404, message: "unknown method: "@ + a }),
        unknown_method(a) == unknown_method(b) ==> a == b,
{
    let n = "unknown method: "@.len() as int;
    assert(("unknown method: "@ + a).skip(n) =~= a);
    assert(("unknown method: "@ + b).skip(n) =~= b);
}

} // verus!
