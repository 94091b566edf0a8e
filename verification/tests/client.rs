//! The client's side of a connection.

use patina_rpc::client::{
    call_result, CallEvent, PendingGuard, PendingMap, ReadAction, ReadEvent, WriteAction,
    WriteEvent,
};
use patina_rpc::{Client, Envelope, ErrorData, PatinaError, RequestData, ResponseData};
use tokio::sync::oneshot;

/// A sender whose receiver is gone: these tests never send through it.
fn dummy_sender() -> oneshot::Sender<Envelope> {
    let (tx, _rx) = oneshot::channel();
    tx
}

#[test]
fn pending_map_insert_take_round_trips() {
    let mut map = PendingMap::default();
    assert_eq!(map.len(), 0);

    map.insert(7, dummy_sender());
    assert_eq!(map.len(), 1);

    assert!(map.take(7).is_some(), "take returns the inserted sender");
    assert_eq!(map.len(), 0, "take removes the entry");
    assert!(map.take(7).is_none(), "second take is empty");
}

#[test]
fn pending_map_drain_returns_all_and_empties() {
    let mut map = PendingMap::default();
    map.insert(1, dummy_sender());
    map.insert(2, dummy_sender());
    map.insert(3, dummy_sender());

    let drained = map.drain();
    assert_eq!(drained.len(), 3, "drain returns every sender");
    assert_eq!(map.len(), 0, "drain empties the map");
    assert!(map.drain().is_empty(), "second drain is empty");
}

#[test]
fn armed_guard_removes_entry_on_drop() {
    let mut map = PendingMap::default();
    map.insert(42, dummy_sender());
    let guard = PendingGuard { id: 42, armed: true };
    guard.release(&mut map);
    assert_eq!(map.len(), 0, "armed guard removes its id on drop");
}

#[test]
fn disarmed_guard_leaves_entry_on_drop() {
    let mut map = PendingMap::default();
    map.insert(42, dummy_sender());
    let mut guard = PendingGuard { id: 42, armed: true };
    guard.disarm();
    guard.release(&mut map);
    assert_eq!(
        map.len(),
        1,
        "disarmed guard leaves the entry (reader owns removal)"
    );
}

#[test]
fn pending_map_keeps_each_waiter_under_its_id() {
    let mut map = PendingMap::default();
    map.insert(1, "a");
    map.insert(2, "b");
    map.insert(1, "c");
    assert_eq!(map.len(), 2, "an id is overwritten");
    map.remove(9);
    assert_eq!(map.len(), 2);
    let mut drained = map.drain();
    drained.sort();
    assert_eq!(drained, vec!["b", "c"]);
}

fn request(envelope: Envelope) -> RequestData {
    match envelope {
        Envelope::Request(request) => request,
        other => panic!("expected a request, got {other:?}"),
    }
}

fn response(id: u64, payload: Vec<u8>) -> Envelope {
    Envelope::Response(ResponseData { id, payload })
}

/// Starts a call and returns its guard and its request.
fn start<W>(client: &mut Client<W>, waiter: W) -> (PendingGuard, RequestData) {
    let (guard, envelope) = client.call("echo".to_string(), vec![1, 2], waiter).expect("call");
    (guard, request(envelope))
}

#[test]
fn calls_are_numbered_from_zero() {
    let mut client = Client::new();
    for i in 0..5u64 {
        let (guard, request) = start(&mut client, i);
        assert_eq!(guard.id, i);
        assert!(guard.armed);
        assert_eq!(
            request,
            RequestData { id: i, method: "echo".to_string(), payload: vec![1, 2] }
        );
        assert_eq!(client.pending_count(), i as usize + 1);
    }
    assert!(!client.is_closed());
}

#[test]
fn concurrent_calls_multiplex_correctly() {
    let mut client = Client::new();
    let mut guards = Vec::new();
    for i in 0..100u32 {
        let (guard, envelope) =
            client.call("echo".to_string(), i.to_le_bytes().to_vec(), i).expect("call");
        guards.push((guard, request(envelope)));
    }

    // The echoes come back in reverse, and each finds its own caller.
    let mut seen = std::collections::HashSet::new();
    while let Some((guard, request)) = guards.pop() {
        let reply = response(request.id, request.payload.clone());
        match client.on_read(ReadEvent::Frame(reply)) {
            ReadAction::Deliver { waiter, reply } => {
                assert_eq!(waiter.to_le_bytes().to_vec(), request.payload);
                let result = client.finish_call(guard, CallEvent::Replied(Some(reply)));
                assert_eq!(result.expect("a caller").expect("ok"), waiter.to_le_bytes().to_vec());
                seen.insert(waiter);
            }
            _ => panic!("expected a delivery"),
        }
    }
    assert_eq!(seen.len(), 100, "all 100 calls completed independently");
    assert_eq!(client.pending_count(), 0, "no entries leaked after success");
}

#[test]
fn timed_out_call_does_not_leak_pending_entry() {
    let mut client = Client::new();
    assert_eq!(client.pending_count(), 0);
    let (guard, request) = start(&mut client, "slow");
    assert_eq!(client.pending_count(), 1);

    assert!(client.finish_call(guard, CallEvent::Dropped).is_none());
    assert_eq!(client.pending_count(), 0, "a cancelled call removes its entry");

    // The late answer finds nobody.
    let action = client.on_read(ReadEvent::Frame(response(request.id, vec![])));
    assert!(matches!(action, ReadAction::Ignore));
    assert!(!client.is_closed());
}

#[test]
fn failed_send_closes_the_call_and_removes_its_entry() {
    let mut client = Client::new();
    let (guard, _) = start(&mut client, ());
    let result = client.finish_call(guard, CallEvent::SendFailed);
    assert!(matches!(result, Some(Err(PatinaError::Closed))));
    assert_eq!(client.pending_count(), 0);
}

#[test]
fn answered_call_leaves_other_entries_alone() {
    let mut client = Client::new();
    let (first, _) = start(&mut client, 'a');
    let (_second, _) = start(&mut client, 'b');
    // The reader has not run yet; a disarmed guard removes nothing.
    let result = client.finish_call(first, CallEvent::Replied(Some(response(0, vec![9]))));
    assert_eq!(result.unwrap().unwrap(), vec![9]);
    assert_eq!(client.pending_count(), 2);
}

#[test]
fn connection_drop_wakes_pending_callers() {
    let mut client = Client::new();
    let (tx, mut rx) = oneshot::channel::<Envelope>();
    let (guard, _) = start(&mut client, tx);
    assert_eq!(client.pending_count(), 1, "call should be parked");

    match client.on_read(ReadEvent::Ended) {
        ReadAction::Stop { waiters } => assert_eq!(waiters.len(), 1),
        _ => panic!("expected a stop"),
    }
    // The waiters are dropped, so the receiver has nothing to wait for.
    assert!(matches!(rx.try_recv(), Err(oneshot::error::TryRecvError::Closed)));
    let result = client.finish_call(guard, CallEvent::Replied(None));
    assert!(matches!(result, Some(Err(PatinaError::Closed))));
    assert!(client.is_closed(), "is_closed reflects reader exit");
    assert_eq!(client.pending_count(), 0);
}

#[test]
fn every_end_of_reading_drains_and_closes() {
    for event in [ReadEvent::Cancelled, ReadEvent::Failed, ReadEvent::Ended] {
        let mut client = Client::new();
        start(&mut client, 1);
        start(&mut client, 2);
        match client.on_read(event) {
            ReadAction::Stop { mut waiters } => {
                waiters.sort();
                assert_eq!(waiters, vec![1, 2]);
            }
            _ => panic!("expected a stop"),
        }
        assert!(client.is_closed());
        assert_eq!(client.pending_count(), 0);
        let refused = client.call("late".to_string(), vec![], 3);
        assert!(matches!(refused, Err(PatinaError::Closed)));
        assert_eq!(client.pending_count(), 0, "a refused call parks nobody");
    }
}

#[test]
fn heartbeats_and_requests_are_ignored_by_the_reader() {
    let mut client = Client::new();
    start(&mut client, ());
    let stray = Envelope::Request(RequestData { id: 0, method: "m".to_string(), payload: vec![] });
    assert!(matches!(client.on_read(ReadEvent::Frame(Envelope::Heartbeat)), ReadAction::Ignore));
    assert!(matches!(client.on_read(ReadEvent::Frame(stray)), ReadAction::Ignore));
    assert_eq!(client.pending_count(), 1);
}

#[test]
fn error_envelope_reaches_its_caller() {
    let mut client = Client::new();
    let (guard, request) = start(&mut client, 'w');
    let error = ErrorData { id: request.id, code: 500, message: "boom".to_string() };
    match client.on_read(ReadEvent::Frame(Envelope::Error(error))) {
        ReadAction::Deliver { waiter: 'w', reply } => {
            match client.finish_call(guard, CallEvent::Replied(Some(reply))) {
                Some(Err(PatinaError::Remote { code: 500, message })) => {
                    assert_eq!(message, "boom")
                }
                other => panic!("expected Remote, got {other:?}"),
            }
        }
        _ => panic!("expected a delivery"),
    }
}

#[test]
fn writer_sends_in_order_and_stops_for_good() {
    let mut client: Client<()> = Client::new();
    let queued = response(1, vec![1]);
    match client.on_write(WriteEvent::Queued(queued.clone())) {
        WriteAction::Send(envelope) => assert_eq!(envelope, queued),
        _ => panic!("expected a send"),
    }
    assert!(matches!(client.on_write(WriteEvent::Sent), WriteAction::Receive));
    for _ in 0..2 {
        match client.on_write(WriteEvent::Idle) {
            WriteAction::Send(envelope) => assert_eq!(envelope, Envelope::Heartbeat),
            _ => panic!("expected a heartbeat"),
        }
        assert!(matches!(client.on_write(WriteEvent::Sent), WriteAction::Receive));
    }
    assert!(!client.is_closed());

    for event in [WriteEvent::Cancelled, WriteEvent::QueueClosed, WriteEvent::SendFailed] {
        let mut client = Client::new();
        start(&mut client, 5);
        assert!(matches!(client.on_write(event), WriteAction::Stop));
        assert!(client.is_closed());
        assert_eq!(client.pending_count(), 1, "the reader frees the waiters");
        match client.on_read(ReadEvent::Cancelled) {
            ReadAction::Stop { waiters } => assert_eq!(waiters, vec![5]),
            _ => panic!("expected a stop"),
        }
    }
}

#[test]
fn result_of_a_call_for_each_reply() {
    assert_eq!(call_result(Some(response(3, vec![4]))).unwrap(), vec![4]);
    assert!(matches!(call_result(Some(Envelope::Heartbeat)), Err(PatinaError::Closed)));
    assert!(matches!(call_result(None), Err(PatinaError::Closed)));
    let error = ErrorData { id: 1, code: 418, message: "teapot".to_string() };
    match call_result(Some(Envelope::Error(error))) {
        Err(PatinaError::Remote { code, message }) => {
            assert_eq!(code, 418);
            assert_eq!(message, "teapot");
        }
        other => panic!("expected Remote, got {other:?}"),
    }
}

#[test]
fn what_a_stream_gives_is_an_event() {
    let frame = ReadEvent::of(Some(Ok(Envelope::Heartbeat)));
    assert!(matches!(frame, ReadEvent::Frame(Envelope::Heartbeat)));
    let error = std::io::Error::new(std::io::ErrorKind::InvalidData, "too large");
    assert!(matches!(ReadEvent::of(Some(Err(error.into()))), ReadEvent::Failed));
    assert!(matches!(ReadEvent::of(None), ReadEvent::Ended));
}
