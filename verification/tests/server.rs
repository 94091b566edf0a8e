//! The server's side of a connection, and calls from end to end.

use bytes::BytesMut;
use patina_rpc::client::{CallEvent, ReadAction, ReadEvent, WriteAction, WriteEvent};
use patina_rpc::server::{
    on_frame, on_write, reply, Dispatched, FrameAction, FrameEvent, UNKNOWN_METHOD_CODE,
};
use patina_rpc::{
    handler_fn, Client, Envelope, ErrorData, Handler, HandlerError, RequestData, ResponseData,
    RpcError, Server, WireCodec,
};

type Reply = Result<Vec<u8>, HandlerError>;

fn request(id: u64, method: &str, payload: Vec<u8>) -> RequestData {
    RequestData { id, method: method.to_string(), payload }
}

fn echo(payload: Vec<u8>) -> Reply {
    Ok(payload)
}

fn boom(_: Vec<u8>) -> Reply {
    Err(HandlerError::new(500, "boom".to_string()))
}

fn upper(payload: Vec<u8>) -> Reply {
    Ok(payload.into_iter().map(|b| b.to_ascii_uppercase()).collect())
}

/// Dispatches a request and builds the reply to it.
fn answer<H: Handler>(server: &Server<H>, request: RequestData) -> Envelope {
    match server.dispatch(request) {
        Dispatched::Running { id, reply: result } => reply(id, result),
        Dispatched::Answered(envelope) => envelope,
    }
}

/// Sends an envelope through a codec at each end.
fn over_the_wire(envelope: Envelope) -> Envelope {
    let mut wire = BytesMut::new();
    WireCodec::new().encode(envelope, &mut wire).expect("send");
    WireCodec::new().decode(&mut wire).expect("decode ok").expect("frame arrives")
}

/// A whole call: request and reply both go over the wire.
fn call<H: Handler>(
    client: &mut Client<()>,
    server: &Server<H>,
    method: &str,
    payload: Vec<u8>,
) -> Result<Vec<u8>, RpcError> {
    let (guard, sent) = client.call(method.to_string(), payload, ())?;
    let arrived = match on_frame(FrameEvent::Frame(over_the_wire(sent))) {
        FrameAction::Spawn(request) => request,
        _ => panic!("expected a request"),
    };
    let replied = over_the_wire(answer(server, arrived));
    match client.on_read(ReadEvent::Frame(replied)) {
        ReadAction::Deliver { waiter: (), reply } => {
            client.finish_call(guard, CallEvent::Replied(Some(reply))).expect("a caller")
        }
        _ => panic!("expected a delivery"),
    }
}

#[test]
fn unknown_method_returns_404_remote_error() {
    let server: Server<UpperHandler> = Server::builder().build();
    let mut client = Client::new();
    match call(&mut client, &server, "nonexistent", vec![]) {
        Err(RpcError::Remote { code: 404, message }) => {
            assert!(
                message.contains("nonexistent"),
                "expected method name in message, got: {message}"
            );
            assert_eq!(message, "unknown method: nonexistent");
        }
        other => panic!("expected RpcError::Remote {{ code: 404 }}, got {other:?}"),
    }
    assert_eq!(UNKNOWN_METHOD_CODE, 404);
}

#[test]
fn empty_server_knows_no_method() {
    let server: Server<UpperHandler> = Server::builder().build();
    assert_eq!(
        answer(&server, request(9, "any", vec![1])),
        Envelope::Error(ErrorData { id: 9, code: 404, message: "unknown method: any".to_string() })
    );
}

#[test]
fn handler_error_propagates_to_caller() {
    let server = Server::builder().register("boom".to_string(), handler_fn(boom)).build();
    let mut client = Client::new();
    match call(&mut client, &server, "boom", vec![]) {
        Err(RpcError::Remote { code: 500, message }) => assert_eq!(message, "boom"),
        other => panic!("expected RpcError::Remote {{ code: 500 }}, got {other:?}"),
    }
}

#[test]
fn payload_comes_back_under_the_id_of_its_request() {
    let server = Server::builder().register("echo".to_string(), handler_fn(echo)).build();
    assert_eq!(
        answer(&server, request(42, "echo", vec![1, 2, 3])),
        Envelope::Response(ResponseData { id: 42, payload: vec![1, 2, 3] })
    );
    let mut client = Client::new();
    for i in 0..10u8 {
        assert_eq!(call(&mut client, &server, "echo", vec![i; 3]).expect("call"), vec![i; 3]);
    }
    assert_eq!(client.pending_count(), 0);
}

#[test]
fn later_registration_overwrites_earlier() {
    let pick: Vec<fn(Vec<u8>) -> Reply> = vec![echo, upper];
    let server = Server::builder()
        .register("m".to_string(), handler_fn(pick[0]))
        .register("other".to_string(), handler_fn(pick[0]))
        .register("m".to_string(), handler_fn(pick[1]))
        .build();
    let mut client = Client::new();
    assert_eq!(call(&mut client, &server, "m", b"hello".to_vec()).unwrap(), b"HELLO");
    assert_eq!(call(&mut client, &server, "other", b"hello".to_vec()).unwrap(), b"hello");
}

struct UpperHandler;

impl Handler for UpperHandler {
    fn handle(&self, payload: Vec<u8>) -> Reply {
        Ok(payload.into_iter().map(|b| b.to_ascii_uppercase()).collect())
    }
}

#[test]
fn handler_fn_and_trait_impl_behave_identically() {
    let by_trait = Server::builder().register("trait_upper".to_string(), UpperHandler).build();
    let by_fn = Server::builder().register("fn_upper".to_string(), handler_fn(upper)).build();
    let mut client = Client::new();

    let input = b"hello".to_vec();
    let trait_result =
        call(&mut client, &by_trait, "trait_upper", input.clone()).expect("trait call");
    let fn_result = call(&mut client, &by_fn, "fn_upper", input.clone()).expect("fn call");

    assert_eq!(trait_result, b"HELLO");
    assert_eq!(fn_result, b"HELLO");
    assert_eq!(trait_result, fn_result);
}

#[test]
fn reader_step_for_each_frame() {
    match on_frame(FrameEvent::Frame(Envelope::Request(request(1, "m", vec![2])))) {
        FrameAction::Spawn(spawned) => assert_eq!(spawned, request(1, "m", vec![2])),
        _ => panic!("expected a spawn"),
    }
    let response = Envelope::Response(ResponseData { id: 1, payload: vec![] });
    let error = Envelope::Error(ErrorData { id: 1, code: 1, message: String::new() });
    for ignored in [Envelope::Heartbeat, response, error] {
        assert!(matches!(on_frame(FrameEvent::Frame(ignored)), FrameAction::Ignore));
    }
    assert!(matches!(on_frame(FrameEvent::Failed), FrameAction::Abort));
    assert!(matches!(on_frame(FrameEvent::Ended), FrameAction::Close));
}

#[test]
fn writer_step_for_each_event() {
    match on_write(WriteEvent::Queued(Envelope::Heartbeat)) {
        WriteAction::Send(envelope) => assert_eq!(envelope, Envelope::Heartbeat),
        _ => panic!("expected a send"),
    }
    match on_write(WriteEvent::Idle) {
        WriteAction::Send(envelope) => assert_eq!(envelope, Envelope::Heartbeat),
        _ => panic!("expected a heartbeat"),
    }
    assert!(matches!(on_write(WriteEvent::Sent), WriteAction::Receive));
    for last in [WriteEvent::Cancelled, WriteEvent::QueueClosed, WriteEvent::SendFailed] {
        assert!(matches!(on_write(last), WriteAction::Stop));
    }
}

#[test]
fn handler_error_keeps_code_and_message() {
    let error = HandlerError::new(503, "service down".to_string());
    assert_eq!(error.code, 503);
    assert_eq!(error.message, "service down");
    assert_eq!(
        reply(7, Err(error.clone())),
        Envelope::Error(ErrorData { id: 7, code: 503, message: "service down".to_string() })
    );
}

#[test]
fn oversized_frame_terminates_the_connection() {
    let mut codec = WireCodec::new();
    let mut wire = BytesMut::new();
    let frame = Envelope::Request(request(1, "slow", vec![]));
    codec.encode(frame, &mut wire).expect("send");
    wire.extend_from_slice(&67_108_865u32.to_be_bytes());

    let first = FrameEvent::of(codec.decode(&mut wire).transpose());
    assert!(matches!(on_frame(first), FrameAction::Spawn(_)));
    let second = FrameEvent::of(codec.decode(&mut wire).transpose());
    assert!(matches!(on_frame(second), FrameAction::Abort));
    assert!(matches!(on_frame(FrameEvent::of(None)), FrameAction::Close));
}
