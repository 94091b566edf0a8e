//! Client-side multiplexer.
//!
//! Many concurrent callers share one connection. A call takes the next id,
//! parks a waiter under it and hands the request to the writing half of the
//! connection; the reading half takes the waiter out again when the answer
//! with that id arrives. [`Client`] holds the state that the two halves and the
//! callers share and decides what happens on each of their events; moving bytes
//! and waking tasks is left to the caller.
//!
//! A caller that gives up releases its [`PendingGuard`], which removes its id
//! so that a late answer finds nobody and is dropped. When either half of the
//! connection stops, the client is closed for good: the reading half hands out
//! all waiters that are left, so that no caller waits forever, and every later
//! call is refused.

use crate::envelope::{Envelope, Message, RequestData};
use crate::error::{PatinaError, WireError};
use std::collections::HashMap;
use vstd::prelude::*;
use vstd::std_specs::iter::IteratorSpec;

verus! {

broadcast use vstd::std_specs::hash::group_hash_axioms;

/// How long a connection may be idle before a heartbeat is written, in seconds.
pub const HEARTBEAT_PERIOD_SECS: u64 = 30;

/// Bound on the queue of requests that wait to be written.
pub const CLIENT_WRITER_CHANNEL_CAPACITY: usize = 128;

// ---------------------------------------------------------------------------
// Calls in flight
// ---------------------------------------------------------------------------

/// Registry of calls in flight: the waiter parked under each id.
pub struct PendingMap<W> {
    inner: HashMap<u64, W>,
}

/// Whether `waiters` are the waiters of `map`, each of them once.
pub open spec fn lists_all<W>(map: Map<u64, W>, waiters: Seq<W>) -> bool {
    exists|ids: Seq<u64>| #[trigger]
        ids.no_duplicates() && ids.to_set() == map.dom() && waiters == ids.map_values(
            |id: u64| map[id],
        )
}

impl<W> View for PendingMap<W> {
    type V = Map<u64, W>;

    closed spec fn view(&self) -> Map<u64, W> {
        self.inner@
    }
}

impl<W> Default for PendingMap<W> {
    fn default() -> (map: Self)
        ensures
            map@ == Map::<u64, W>::empty(),
    {
        PendingMap { inner: HashMap::new() }
    }
}

impl<W> PendingMap<W> {
    /// Parks a waiter under `id`. Overwrites any prior entry for that id.
    pub fn insert(&mut self, id: u64, waiter: W)
        ensures
            final(self)@ == old(self)@.insert(id, waiter),
    {
        self.inner.insert(id, waiter);
    }

    /// Removes `id` and returns its waiter if present.
    pub fn take(&mut self, id: u64) -> (waiter: Option<W>)
        ensures
            final(self)@ == old(self)@.remove(id),
            waiter == (if old(self)@.contains_key(id) {
                Some(old(self)@[id])
            } else {
                None
            }),
    {
        self.inner.remove(&id)
    }

    /// Drops the entry of `id` if present.
    pub fn remove(&mut self, id: u64)
        ensures
            final(self)@ == old(self)@.remove(id),
    {
        self.inner.remove(&id);
    }

    /// Removes and returns every parked waiter, in no particular order.
    pub fn drain(&mut self) -> (waiters: Vec<W>)
        ensures
            final(self)@ == Map::<u64, W>::empty(),
            lists_all(old(self)@, waiters@),
    {
        let mut ids: Vec<u64> = Vec::new();
        let ghost keys = self.inner.keys().remaining().unref();
        for id in iter: self.inner.keys()
            invariant
                iter.seq().unref() == keys,
                ids@ == keys.take(iter.index()),
        {
            ids.push(*id);
        }
        assert(ids@ =~= keys);
        let mut waiters: Vec<W> = Vec::new();
        let mut i: usize = 0;
        while i < ids.len()
            invariant
                i <= ids@.len(),
                ids@.no_duplicates(),
                ids@.to_set() == old(self)@.dom(),
                waiters@.len() == i,
                forall|j: int| 0 <= j < i ==> waiters@[j] == old(self)@[ids@[j]],
                forall|id: u64|
                    self.inner@.contains_key(id) <==> exists|j: int|
                        i <= j < ids@.len() && ids@[j] == id,
                forall|id: u64| self.inner@.contains_key(id) ==> self.inner@[id] == old(self)@[id],
            decreases ids@.len() - i,
        {
            assert(self.inner@.contains_key(ids@[i as int]));
            if let Some(waiter) = self.inner.remove(&ids[i]) {
                waiters.push(waiter);
            }
            i = i + 1;
        }
        assert(self.inner@ =~= Map::<u64, W>::empty());
        assert(waiters@ =~= ids@.map_values(|id: u64| old(self)@[id]));
        waiters
    }

    /// Number of entries.
    pub fn len(&self) -> (n: usize)
        ensures
            n == self@.len(),
    {
        self.inner.len()
    }
}

/// A caller's claim on its entry. Its holder releases it when the call is over,
/// however it ended.
pub struct PendingGuard {
    pub id: u64,
    pub armed: bool,
}

impl PendingGuard {
    /// Makes the guard inert. Called once the call has its answer, because by
    /// then the reading half has removed the entry.
    pub fn disarm(&mut self)
        ensures
            final(self).id == old(self).id,
            !final(self).armed,
    {
        self.armed = false;
    }

    /// Gives up the claim: an armed guard removes its entry, an inert one
    /// leaves `map` alone.
    pub fn release<W>(self, map: &mut PendingMap<W>)
        ensures
            final(map)@ == (if self.armed {
                old(map)@.remove(self.id)
            } else {
                old(map)@
            }),
    {
        if self.armed {
            map.remove(self.id);
        }
    }
}

// ---------------------------------------------------------------------------
// The state of a connection
// ---------------------------------------------------------------------------

/// The id behind `id`. Ids wrap around.
pub open spec fn next(id: u64) -> u64 {
    if id == u64::MAX {
        0
    } else {
        (id + 1) as u64
    }
}

/// The state that callers, reader and writer share: the view of a [`Client`].
#[verifier::ext_equal]
pub struct Connection<W> {
    /// The id of the next call.
    pub next_id: u64,
    /// The waiter of each call in flight.
    pub in_flight: Map<u64, W>,
    /// Whether the connection is closed.
    pub closed: bool,
}

/// Something that happens on a connection.
pub enum Step<W> {
    /// A call that brings its waiter.
    Called(W),
    /// A caller gave up on the call with this id.
    Released(u64),
    /// A message arrived.
    Received(Message),
    /// The reading half stopped.
    ReaderStopped,
    /// The writing half stopped.
    WriterStopped,
}

impl<W> Connection<W> {
    /// A connection on which nothing has happened yet.
    pub open spec fn new() -> Self {
        Connection { next_id: 0, in_flight: Map::empty(), closed: false }
    }

    /// The state after a step.
    pub open spec fn after(self, step: Step<W>) -> Self {
        match step {
            Step::Called(waiter) => if self.closed {
                self
            } else {
                Connection {
                    next_id: next(self.next_id),
                    in_flight: self.in_flight.insert(self.next_id, waiter),
                    closed: false,
                }
            },
            Step::Released(id) => Connection { in_flight: self.in_flight.remove(id), ..self },
            Step::Received(m) => match m.answers() {
                Some(id) => Connection { in_flight: self.in_flight.remove(id), ..self },
                None => self,
            },
            Step::ReaderStopped => Connection { in_flight: Map::empty(), closed: true, ..self },
            Step::WriterStopped => Connection { closed: true, ..self },
        }
    }

    /// The state after steps in order.
    pub open spec fn after_all(self, steps: Seq<Step<W>>) -> Self
        decreases steps.len(),
    {
        if steps.len() == 0 {
            self
        } else {
            self.after_all(steps.drop_last()).after(steps.last())
        }
    }

    /// The waiter that a message is for, if it answers a call in flight.
    pub open spec fn addressee(self, m: Message) -> Option<W> {
        match m.answers() {
            Some(id) => if self.in_flight.contains_key(id) {
                Some(self.in_flight[id])
            } else {
                None
            },
            None => None,
        }
    }
}

/// How a call ended.
pub enum Outcome {
    /// The payload of the response.
    Payload(Seq<u8>),
    /// The peer reported an error.
    Remote { code: u16, message: Seq<char> },
    /// The connection closed first.
    Closed,
}

/// How a call ends on the message that its waiter was given, or on none.
pub open spec fn outcome(reply: Option<Message>) -> Outcome {
    match reply {
        Some(Message::Response { payload, .. }) => Outcome::Payload(payload),
        Some(Message::Error { code, message, .. }) => Outcome::Remote { code, message },
        _ => Outcome::Closed,
    }
}

/// The outcome that a result stands for. A call ends in no other error.
pub open spec fn said(result: Result<Vec<u8>, PatinaError>) -> Option<Outcome> {
    match result {
        Ok(payload) => Some(Outcome::Payload(payload@)),
        Err(PatinaError::Remote { code, message }) => Some(
            Outcome::Remote { code, message: message@ },
        ),
        Err(PatinaError::Closed) => Some(Outcome::Closed),
        Err(_) => None,
    }
}

/// What a waiter was given.
pub open spec fn given(reply: Option<Envelope>) -> Option<Message> {
    match reply {
        Some(envelope) => Some(envelope@),
        None => None,
    }
}

// ---------------------------------------------------------------------------
// The client
// ---------------------------------------------------------------------------

/// What became of a call after its request was handed out.
pub enum CallEvent {
    /// The writing half was gone and did not take the request.
    SendFailed,
    /// The waiter was given this envelope, or was dropped without one.
    Replied(Option<Envelope>),
    /// The caller gave up, for instance on a timeout.
    Dropped,
}

/// What the reading half met.
pub enum ReadEvent {
    /// The other half stopped.
    Cancelled,
    /// An envelope arrived.
    Frame(Envelope),
    /// What arrived was no envelope.
    Failed,
    /// The peer closed the connection.
    Ended,
}

impl ReadEvent {
    /// What reading the next frame of a stream came to: an envelope, an error, or
    /// the end of the stream.
    pub fn of(read: Option<Result<Envelope, WireError>>) -> (event: Self)
        ensures
            event == (match read {
                Some(Ok(envelope)) => ReadEvent::Frame(envelope),
                Some(Err(_)) => ReadEvent::Failed,
                None => ReadEvent::Ended,
            }),
    {
        match read {
            Some(Ok(envelope)) => ReadEvent::Frame(envelope),
            Some(Err(_)) => ReadEvent::Failed,
            None => ReadEvent::Ended,
        }
    }
}

/// What the reading half is to do.
pub enum ReadAction<W> {
    /// Wake `waiter` with `reply` and read on.
    Deliver { waiter: W, reply: Envelope },
    /// Read on.
    Ignore,
    /// Stop, drop `waiters`, and stop the other half.
    Stop { waiters: Vec<W> },
}

/// What the writing half met.
pub enum WriteEvent {
    /// The other half stopped.
    Cancelled,
    /// A request was queued.
    Queued(Envelope),
    /// Nothing was queued for a whole heartbeat period.
    Idle,
    /// All callers are gone.
    QueueClosed,
    /// The request was written.
    Sent,
    /// Writing failed.
    SendFailed,
}

/// What the writing half is to do.
pub enum WriteAction {
    /// Wait for the next request, for one heartbeat period at most.
    Receive,
    /// Write this envelope.
    Send(Envelope),
    /// Stop, and stop the other half.
    Stop,
}

/// The client's side of one multiplexed connection. `W` is what wakes a parked
/// caller.
pub struct Client<W> {
    next_id: u64,
    pending: PendingMap<W>,
    closed: bool,
}

impl<W> View for Client<W> {
    type V = Connection<W>;

    closed spec fn view(&self) -> Connection<W> {
        Connection { next_id: self.next_id, in_flight: self.pending@, closed: self.closed }
    }
}

/// How a call ends on the envelope that its waiter was given, or on none.
pub fn call_result(reply: Option<Envelope>) -> (result: Result<Vec<u8>, PatinaError>)
    ensures
        said(result) == Some(outcome(given(reply))),
        match reply {
            Some(Envelope::Response(response)) => result == Ok::<Vec<u8>, PatinaError>(
                response.payload,
            ),
            Some(Envelope::Error(error)) => result matches Err(
                PatinaError::Remote { code, message },
            ) && code == error.code && message == error.message,
            _ => result matches Err(PatinaError::Closed),
        },
{
    match reply {
        Some(Envelope::Response(response)) => Ok(response.payload),
        Some(Envelope::Error(error)) => Err(PatinaError::from(error)),
        _ => Err(PatinaError::Closed),
    }
}

impl<W> Client<W> {
    /// The client of a connection that was just opened.
    pub fn new() -> (client: Self)
        ensures
            client@ == Connection::<W>::new(),
            client@.next_id == 0,
            client@.in_flight == Map::<u64, W>::empty(),
            !client@.closed,
    {
        Client { next_id: 0, pending: PendingMap::default(), closed: false }
    }

    /// Starts a call: parks `waiter` under the next id and returns the request
    /// to send, with the guard for the entry. A closed client refuses.
    pub fn call(&mut self, method: String, payload: Vec<u8>, waiter: W) -> (r: Result<
        (PendingGuard, Envelope),
        PatinaError,
    >)
        ensures
            final(self)@ == old(self)@.after(Step::Called(waiter)),
            final(self)@.closed == old(self)@.closed,
            match r {
                Ok((guard, request)) => {
                    &&& !old(self)@.closed
                    &&& final(self)@.next_id == old(self)@.next_id.wrapping_add(1)
                    &&& final(self)@.in_flight == old(self)@.in_flight.insert(
                        old(self)@.next_id,
                        waiter,
                    )
                    &&& guard == (PendingGuard { id: old(self)@.next_id, armed: true })
                    &&& request@ == (Message::Request {
                        id: old(self)@.next_id,
                        method: method@,
                        payload: payload@,
                    })
                },
                Err(e) => {
                    &&& old(self)@.closed
                    &&& e == PatinaError::Closed
                    &&& final(self)@ == old(self)@
                },
            },
    {
        if self.closed {
            return Err(PatinaError::Closed);
        }
        let id = self.next_id;
        self.next_id = id.wrapping_add(1);
        self.pending.insert(id, waiter);
        let guard = PendingGuard { id, armed: true };
        Ok((guard, Envelope::Request(RequestData { id, method, payload })))
    }

    /// Ends a call. Unless the waiter was taken out to be woken or dropped, the
    /// entry is removed. Gives the caller's result, if there is still a caller.
    pub fn finish_call(&mut self, guard: PendingGuard, event: CallEvent) -> (r: Option<
        Result<Vec<u8>, PatinaError>,
    >)
        ensures
            final(self)@ == (if guard.armed && !(event is Replied) {
                old(self)@.after(Step::Released(guard.id))
            } else {
                old(self)@
            }),
            final(self)@.closed == old(self)@.closed,
            final(self)@.next_id == old(self)@.next_id,
            final(self)@.in_flight == (if guard.armed && !(event is Replied) {
                old(self)@.in_flight.remove(guard.id)
            } else {
                old(self)@.in_flight
            }),
            match event {
                CallEvent::SendFailed => r matches Some(Err(PatinaError::Closed)),
                CallEvent::Replied(reply) => {
                    &&& r is Some
                    &&& said(r->0) == Some(outcome(given(reply)))
                    &&& match reply {
                        Some(Envelope::Response(response)) => r->0 == Ok::<Vec<u8>, PatinaError>(
                            response.payload,
                        ),
                        Some(Envelope::Error(error)) => r->0 matches Err(
                            PatinaError::Remote { code, message },
                        ) && code == error.code && message == error.message,
                        _ => r->0 matches Err(PatinaError::Closed),
                    }
                },
                CallEvent::Dropped => r is None,
            },
    {
        let mut guard = guard;
        match event {
            CallEvent::SendFailed => {
                guard.release(&mut self.pending);
                Some(Err(PatinaError::Closed))
            },
            CallEvent::Replied(reply) => {
                let result = call_result(reply);
                guard.disarm();
                guard.release(&mut self.pending);
                Some(result)
            },
            CallEvent::Dropped => {
                guard.release(&mut self.pending);
                None
            },
        }
    }

    /// Number of calls in flight.
    pub fn pending_count(&self) -> (n: usize)
        ensures
            n == self@.in_flight.len(),
    {
        self.pending.len()
    }

    /// Whether either half of the connection has stopped. Calls are refused
    /// from then on.
    pub fn is_closed(&self) -> (closed: bool)
        ensures
            closed == self@.closed,
    {
        self.closed
    }

    /// One step of the reading half. An answer goes to the waiter of its call
    /// and is dropped if there is none; a heartbeat or a stray request is
    /// ignored; anything else ends the connection and frees all waiters.
    pub fn on_read(&mut self, event: ReadEvent) -> (action: ReadAction<W>)
        ensures
            match event {
                ReadEvent::Frame(envelope) => {
                    &&& final(self)@ == old(self)@.after(Step::Received(envelope@))
                    &&& final(self)@.closed == old(self)@.closed
                    &&& final(self)@.next_id == old(self)@.next_id
                    &&& match old(self)@.addressee(envelope@) {
                        Some(waiter) => action == (ReadAction::Deliver { waiter, reply: envelope }),
                        None => action is Ignore,
                    }
                },
                _ => {
                    &&& final(self)@ == old(self)@.after(Step::ReaderStopped)
                    &&& final(self)@.closed
                    &&& final(self)@.in_flight == Map::<u64, W>::empty()
                    &&& action matches ReadAction::Stop { waiters } && lists_all(
                        old(self)@.in_flight,
                        waiters@,
                    )
                },
            },
    {
        match event {
            ReadEvent::Frame(envelope) => {
                let id = match &envelope {
                    Envelope::Response(response) => Some(response.id),
                    Envelope::Error(error) => Some(error.id),
                    Envelope::Heartbeat => None,
                    Envelope::Request(_) => None,
                };
                match id {
                    Some(id) => match self.pending.take(id) {
                        Some(waiter) => ReadAction::Deliver { waiter, reply: envelope },
                        None => ReadAction::Ignore,
                    },
                    None => ReadAction::Ignore,
                }
            },
            _ => {
                self.closed = true;
                ReadAction::Stop { waiters: self.pending.drain() }
            },
        }
    }

    /// One step of the writing half. Requests are written in the order in which
    /// they were queued, and a heartbeat whenever the connection was idle;
    /// anything that goes wrong ends the connection.
    pub fn on_write(&mut self, event: WriteEvent) -> (action: WriteAction)
        ensures
            match event {
                WriteEvent::Queued(envelope) => {
                    &&& final(self)@ == old(self)@
                    &&& action == WriteAction::Send(envelope)
                },
                WriteEvent::Idle => {
                    &&& final(self)@ == old(self)@
                    &&& action == WriteAction::Send(Envelope::Heartbeat)
                },
                WriteEvent::Sent => final(self)@ == old(self)@ && action is Receive,
                _ => {
                    &&& final(self)@ == old(self)@.after(Step::WriterStopped)
                    &&& final(self)@.closed
                    &&& final(self)@.in_flight == old(self)@.in_flight
                    &&& action is Stop
                },
            },
    {
        match event {
            WriteEvent::Queued(envelope) => WriteAction::Send(envelope),
            WriteEvent::Idle => WriteAction::Send(Envelope::Heartbeat),
            WriteEvent::Sent => WriteAction::Receive,
            _ => {
                self.closed = true;
                WriteAction::Stop
            },
        }
    }
}

// ---------------------------------------------------------------------------
// Laws
// ---------------------------------------------------------------------------

/// The id of the `n`th call behind the one with the id `first`.
pub open spec fn id_of_call(first: u64, n: nat) -> u64 {
    ((first + n) % 0x1_0000_0000_0000_0000) as u64
}

/// Calls are numbered one after the other, and an id comes back only after all
/// other ids have been used.
pub proof fn law_ids_are_unique(first: u64, i: nat, j: nat)
    requires
        i < j < i + 0x1_0000_0000_0000_0000,
    ensures
        id_of_call(first, 0) == first,
        next(id_of_call(first, i)) == id_of_call(first, i + 1),
        id_of_call(first, i) != id_of_call(first, j),
{
}

/// No id of a call in flight is handed out again before ids wrap around: on a
/// new connection, none is within the first `u64::MAX` steps.
pub proof fn law_no_call_is_overwritten<W>(steps: Seq<Step<W>>)
    requires
        steps.len() <= u64::MAX,
    ensures
        ({
            let connection = Connection::<W>::new().after_all(steps);
            &&& connection.next_id <= steps.len()
            &&& forall|id: u64| #[trigger]
                connection.in_flight.contains_key(id) ==> id < connection.next_id
            &&& !connection.in_flight.contains_key(connection.next_id)
        }),
    decreases steps.len(),
{
    if steps.len() > 0 {
        law_no_call_is_overwritten(steps.drop_last());
    }
}

/// Whether a step has nothing to do with the call with this id.
pub open spec fn leaves_alone<W>(step: Step<W>, id: u64) -> bool {
    match step {
        Step::Called(_) => true,
        Step::Released(released) => released != id,
        Step::Received(m) => m.answers() != Some(id),
        Step::ReaderStopped => false,
        Step::WriterStopped => true,
    }
}

/// The answer to a call goes to that call's waiter, whatever happened to other
/// calls in between, and takes the call out of flight.
pub proof fn law_reply_reaches_its_caller<W>(
    connection: Connection<W>,
    waiter: W,
    others: Seq<Step<W>>,
    reply: Message,
)
    requires
        !connection.closed,
        reply.answers() == Some(connection.next_id),
        others.len() < u64::MAX,
        forall|i: int|
            0 <= i < others.len() ==> leaves_alone(#[trigger] others[i], connection.next_id),
    ensures
        ({
            let before = connection.after(Step::Called(waiter)).after_all(others);
            &&& before.addressee(reply) == Some(waiter)
            &&& !before.after(Step::Received(reply)).in_flight.contains_key(connection.next_id)
        }),
{
    lemma_stays_in_flight(connection.after(Step::Called(waiter)), connection.next_id, others, 0);
}

/// A call stays in flight, with its waiter, through steps that have nothing to
/// do with it, if too few ids are left for its own to come back.
proof fn lemma_stays_in_flight<W>(
    connection: Connection<W>,
    id: u64,
    steps: Seq<Step<W>>,
    n: nat,
)
    requires
        connection.in_flight.contains_key(id),
        connection.next_id == id_of_call(id, n + 1),
        n + steps.len() < u64::MAX,
        forall|i: int| 0 <= i < steps.len() ==> leaves_alone(#[trigger] steps[i], id),
    ensures
        ({
            let later = connection.after_all(steps);
            &&& later.in_flight.contains_key(id)
            &&& later.in_flight[id] == connection.in_flight[id]
            &&& exists|m: nat|
                m <= n + steps.len() && later.next_id == #[trigger] id_of_call(id, m + 1)
        }),
    decreases steps.len(),
{
    if steps.len() > 0 {
        let most = steps.drop_last();
        assert forall|i: int| 0 <= i < most.len() implies leaves_alone(#[trigger] most[i], id) by {
            assert(most[i] == steps[i]);
        }
        lemma_stays_in_flight(connection, id, most, n);
        let before = connection.after_all(most);
        let m = choose|m: nat|
            m <= n + most.len() && before.next_id == #[trigger] id_of_call(id, m + 1);
        assert(leaves_alone(steps.last(), id));
        law_ids_are_unique(id, 0, m + 1);
        law_ids_are_unique(id, m + 1, m + 2);
        let later = connection.after_all(steps);
        if later.next_id == before.next_id {
            assert(later.next_id == id_of_call(id, m + 1));
        } else {
            assert(later.next_id == id_of_call(id, (m + 1) + 1));
        }
    } else {
        assert(connection.next_id == id_of_call(id, n + 1));
    }
}

/// No call leaks its entry: whether the caller gives up, the request cannot be
/// sent or the answer arrives, the calls in flight are again those from before
/// the call.
pub proof fn law_no_entry_leaks<W>(connection: Connection<W>, waiter: W, reply: Message)
    requires
        !connection.closed,
        !connection.in_flight.contains_key(connection.next_id),
        reply.answers() == Some(connection.next_id),
    ensures
        ({
            let called = connection.after(Step::Called(waiter));
            &&& called.in_flight.contains_key(connection.next_id)
            &&& called.after(Step::Released(connection.next_id)).in_flight == connection.in_flight
            &&& called.after(Step::Received(reply)).in_flight == connection.in_flight
        }),
{
    assert(connection.in_flight.insert(connection.next_id, waiter).remove(connection.next_id)
        =~= connection.in_flight);
}

/// Each call in flight is counted once.
pub proof fn law_calls_are_counted<W>(connection: Connection<W>, waiter: W)
    requires
        !connection.closed,
        connection.in_flight.dom().finite(),
        !connection.in_flight.contains_key(connection.next_id),
    ensures
        connection.after(Step::Called(waiter)).in_flight.len() == connection.in_flight.len() + 1,
{
}

/// An answer that comes too late finds nobody and changes nothing; nor does a
/// heartbeat or a stray request.
pub proof fn law_late_reply_is_dropped<W>(connection: Connection<W>, m: Message)
    requires
        m.answers() matches Some(id) ==> !connection.in_flight.contains_key(id),
    ensures
        connection.addressee(m) is None,
        connection.after(Step::Received(m)) == connection,
{
    if let Some(id) = m.answers() {
        assert(connection.in_flight.remove(id) =~= connection.in_flight);
    }
}

/// Answers to two calls may arrive in either order: each finds its own caller,
/// and both leave the same state behind.
pub proof fn law_replies_commute<W>(connection: Connection<W>, a: Message, b: Message)
    requires
        a.answers() is Some,
        b.answers() is Some,
        a.answers() != b.answers(),
    ensures
        connection.after(Step::Received(a)).addressee(b) == connection.addressee(b),
        connection.after(Step::Received(b)).addressee(a) == connection.addressee(a),
        connection.after(Step::Received(a)).after(Step::Received(b)) == connection.after(
            Step::Received(b),
        ).after(Step::Received(a)),
{
    let x = a.answers()->0;
    let y = b.answers()->0;
    assert(connection.in_flight.remove(x).remove(y) =~= connection.in_flight.remove(y).remove(x));
}

/// Closing is for good: whatever happens on a closed connection, it stays
/// closed and takes on no call.
pub proof fn law_closed_is_permanent<W>(connection: Connection<W>, steps: Seq<Step<W>>)
    requires
        connection.closed,
    ensures
        connection.after_all(steps).closed,
        connection.after_all(steps).next_id == connection.next_id,
        forall|id: u64|
            (#[trigger] connection.after_all(steps).in_flight.contains_key(id))
                ==> connection.in_flight.contains_key(id),
    decreases steps.len(),
{
    if steps.len() > 0 {
        law_closed_is_permanent(connection, steps.drop_last());
    }
}

/// Once the reading half has stopped, nobody waits any more, and nobody ever
/// will.
pub proof fn law_nobody_waits_after_disconnect<W>(connection: Connection<W>, steps: Seq<Step<W>>)
    ensures
        connection.after(Step::ReaderStopped).after_all(steps).in_flight == Map::<u64, W>::empty(),
        connection.after(Step::ReaderStopped).after_all(steps).closed,
{
    let stopped = connection.after(Step::ReaderStopped);
    law_closed_is_permanent(stopped, steps);
    assert(stopped.after_all(steps).in_flight =~= Map::<u64, W>::empty()) by {
        assert forall|id: u64| !stopped.after_all(steps).in_flight.contains_key(id) by {
            assert(!stopped.in_flight.contains_key(id));
        }
    }
}

/// All waiters of a closing connection are freed: every call in flight has its
/// waiter among those that are listed, and there are no more of them.
pub proof fn law_disconnect_frees_every_waiter<W>(in_flight: Map<u64, W>, waiters: Seq<W>)
    requires
        lists_all(in_flight, waiters),
    ensures
        waiters.len() == in_flight.len(),
        forall|id: u64| in_flight.contains_key(id) ==> waiters.contains(#[trigger] in_flight[id]),
{
    let ids = choose|ids: Seq<u64>| #[trigger]
        ids.no_duplicates() && ids.to_set() == in_flight.dom() && waiters == ids.map_values(
            |id: u64| in_flight[id],
        );
    ids.unique_seq_to_set();
    assert forall|id: u64| in_flight.contains_key(id) implies waiters.contains(
        #[trigger] in_flight[id],
    ) by {
        assert(ids.to_set().contains(id));
        let i = ids.index_of(id);
        assert(waiters[i] == in_flight[id]);
    }
}

/// A connection starts with the id zero, with no call in flight, and open.
pub proof fn law_connection_starts_empty<W>(id: u64)
    ensures
        Connection::<W>::new().next_id == 0,
        !Connection::<W>::new().in_flight.contains_key(id),
        !Connection::<W>::new().closed,
{
}

/// A call on an open connection parks its waiter under the next id and leaves
/// every other entry alone; ids go up by one and start over behind the last. A
/// call on a closed connection changes nothing.
pub proof fn law_call_parks_its_waiter<W>(connection: Connection<W>, waiter: W, other: u64)
    ensures
        connection.closed ==> connection.after(Step::Called(waiter)) == connection,
        !connection.closed ==> ({
            let called = connection.after(Step::Called(waiter));
            &&& !called.closed
            &&& called.next_id == (connection.next_id + 1) % 0x1_0000_0000_0000_0000
            &&& called.in_flight.contains_key(connection.next_id)
            &&& called.in_flight[connection.next_id] == waiter
            &&& other != connection.next_id ==> {
                &&& called.in_flight.contains_key(other) <==> connection.in_flight.contains_key(
                    other,
                )
                &&& connection.in_flight.contains_key(other) ==> called.in_flight[other]
                    == connection.in_flight[other]
            }
        }),
{
}

/// Giving up a call takes its id out of flight, whatever else is in flight and
/// whatever happened since it was started. No other entry, nor the next id, nor
/// whether the connection is closed, is touched by it.
pub proof fn law_giving_up_frees_the_id<W>(connection: Connection<W>, id: u64, other: u64)
    ensures
        ({
            let released = connection.after(Step::Released(id));
            &&& !released.in_flight.contains_key(id)
            &&& other != id ==> {
                &&& released.in_flight.contains_key(other) <==> connection.in_flight.contains_key(
                    other,
                )
                &&& connection.in_flight.contains_key(other) ==> released.in_flight[other]
                    == connection.in_flight[other]
            }
            &&& released.next_id == connection.next_id
            &&& released.closed == connection.closed
        }),
{
}

/// A call that was given up is out of flight, whatever happened between its start
/// and its end, and stays out of flight, so that a late answer finds nobody, until
/// its id is handed out again.
pub proof fn law_given_up_call_is_forgotten<W>(
    connection: Connection<W>,
    waiter: W,
    before: Seq<Step<W>>,
    later: Seq<Step<W>>,
    reply: Message,
)
    requires
        reply.answers() == Some(connection.next_id),
        forall|i: int| 0 <= i < later.len() ==> !((#[trigger] later[i]) is Called),
    ensures
        ({
            let given_up = connection.after(Step::Called(waiter)).after_all(before).after(
                Step::Released(connection.next_id),
            );
            &&& !given_up.after_all(later).in_flight.contains_key(connection.next_id)
            &&& given_up.after_all(later).addressee(reply) is None
        }),
    decreases later.len(),
{
    if later.len() > 0 {
        let most = later.drop_last();
        assert forall|i: int| 0 <= i < most.len() implies !((#[trigger] most[i]) is Called) by {
            assert(most[i] == later[i]);
        }
        law_given_up_call_is_forgotten(connection, waiter, before, most, reply);
        assert(!(later.last() is Called));
    }
}

/// A message that arrives never closes a connection and never moves its next id.
/// It takes out of flight the call that it answers, if it is a response or an
/// error, and no other; a request or a heartbeat changes nothing.
pub proof fn law_message_ends_only_its_call<W>(connection: Connection<W>, m: Message, id: u64)
    ensures
        ({
            let received = connection.after(Step::Received(m));
            &&& received.closed == connection.closed
            &&& received.next_id == connection.next_id
            &&& received.in_flight.contains_key(id) <==> {
                &&& connection.in_flight.contains_key(id)
                &&& !(m matches Message::Response { id: answered, .. } && answered == id)
                &&& !(m matches Message::Error { id: answered, .. } && answered == id)
            }
            &&& received.in_flight.contains_key(id) ==> received.in_flight[id]
                == connection.in_flight[id]
            &&& m is Request || m is Heartbeat ==> received == connection
        }),
{
}

/// A response or an error is for the waiter under its id, if there is one. Nothing
/// else is for anybody.
pub proof fn law_reply_is_for_the_waiter_of_its_id<W>(
    connection: Connection<W>,
    id: u64,
    payload: Seq<u8>,
    code: u16,
    text: Seq<char>,
)
    ensures
        connection.in_flight.contains_key(id) ==> {
            &&& connection.addressee(Message::Response { id, payload }) == Some(
                connection.in_flight[id],
            )
            &&& connection.addressee(Message::Error { id, code, message: text }) == Some(
                connection.in_flight[id],
            )
        },
        !connection.in_flight.contains_key(id) ==> {
            &&& connection.addressee(Message::Response { id, payload }) == None::<W>
            &&& connection.addressee(Message::Error { id, code, message: text }) == None::<W>
        },
        connection.addressee(Message::Request { id, method: text, payload }) == None::<W>,
        connection.addressee(Message::Heartbeat) == None::<W>,
{
}

/// When the reading half stops, the connection is closed and nothing is in flight
/// any more. When the writing half stops, it is closed and the calls in flight
/// wait for the reading half. Neither moves the next id.
pub proof fn law_stopping_closes<W>(connection: Connection<W>, id: u64)
    ensures
        connection.after(Step::ReaderStopped).closed,
        !connection.after(Step::ReaderStopped).in_flight.contains_key(id),
        connection.after(Step::ReaderStopped).next_id == connection.next_id,
        connection.after(Step::WriterStopped).closed,
        connection.after(Step::WriterStopped).in_flight == connection.in_flight,
        connection.after(Step::WriterStopped).next_id == connection.next_id,
{
}

/// Steps take effect one after the other, in order.
pub proof fn law_steps_take_effect_in_order<W>(
    connection: Connection<W>,
    steps: Seq<Step<W>>,
    more: Seq<Step<W>>,
    step: Step<W>,
)
    ensures
        connection.after_all(seq![]) == connection,
        connection.after_all(steps.push(step)) == connection.after_all(steps).after(step),
        connection.after_all(steps + more) == connection.after_all(steps).after_all(more),
    decreases more.len(),
{
    assert(steps.push(step).drop_last() =~= steps);
    if more.len() == 0 {
        assert(steps + more =~= steps);
    } else {
        law_steps_take_effect_in_order(connection, steps, more.drop_last(), step);
        assert((steps + more).drop_last() =~= steps + more.drop_last());
        assert((steps + more).last() == more.last());
    }
}

/// A connection that was open is closed exactly if one of its halves has stopped.
pub proof fn law_only_a_stop_closes<W>(connection: Connection<W>, steps: Seq<Step<W>>)
    requires
        !connection.closed,
    ensures
        connection.after_all(steps).closed <==> exists|i: int|
            0 <= i < steps.len() && ((#[trigger] steps[i]) is ReaderStopped || steps[i]
                is WriterStopped),
    decreases steps.len(),
{
    if steps.len() > 0 {
        let most = steps.drop_last();
        law_only_a_stop_closes(connection, most);
        assert(steps.last() == steps[steps.len() - 1]);
        if connection.after_all(most).closed {
            let i = choose|i: int|
                0 <= i < most.len() && ((#[trigger] most[i]) is ReaderStopped || most[i]
                    is WriterStopped);
            assert(steps[i] == most[i]);
            assert(steps[i] is ReaderStopped || steps[i] is WriterStopped);
        } else {
            assert forall|i: int| 0 <= i < most.len() implies !((#[trigger] steps[i])
                is ReaderStopped || steps[i] is WriterStopped) by {
                assert(steps[i] == most[i]);
            }
        }
    }
}

/// A connection on which only calls were made has given out the ids from its first
/// one on, and all of them are in flight, each with its own waiter.
pub proof fn law_calls_are_numbered_in_order<W>(waiters: Seq<W>, i: int)
    requires
        0 <= i < waiters.len() <= u64::MAX,
    ensures
        ({
            let called = Connection::<W>::new().after_all(
                waiters.map_values(|waiter: W| Step::Called(waiter)),
            );
            &&& called.next_id == waiters.len()
            &&& called.in_flight.contains_key(i as u64)
            &&& called.in_flight[i as u64] == waiters[i]
            &&& !called.closed
        }),
    decreases waiters.len(),
{
    let steps = waiters.map_values(|waiter: W| Step::Called(waiter));
    let most = waiters.drop_last();
    assert(steps.drop_last() =~= most.map_values(|waiter: W| Step::Called(waiter)));
    assert(steps.last() == Step::Called(waiters.last()));
    let before = Connection::<W>::new().after_all(steps.drop_last());
    assert(Connection::<W>::new().after_all(steps) == before.after(steps.last()));
    if i < most.len() {
        law_calls_are_numbered_in_order(most, i);
    } else if most.len() > 0 {
        law_calls_are_numbered_in_order(most, 0);
    } else {
        assert(before == Connection::<W>::new());
    }
}

/// What has nothing to do with a call: other callers giving up, messages that do
/// not carry its id as an answer, further calls, and a writing half that stops.
pub proof fn law_what_leaves_a_call_alone<W>(
    id: u64,
    other: u64,
    waiter: W,
    payload: Seq<u8>,
    code: u16,
    text: Seq<char>,
)
    ensures
        leaves_alone(Step::Called(waiter), id),
        leaves_alone(Step::<W>::WriterStopped, id),
        !leaves_alone(Step::<W>::ReaderStopped, id),
        leaves_alone(Step::<W>::Released(other), id) <==> other != id,
        leaves_alone(Step::<W>::Received(Message::Response { id: other, payload }), id) <==> other
            != id,
        leaves_alone(Step::<W>::Received(Message::Error { id: other, code, message: text }), id)
            <==> other != id,
        leaves_alone(
            Step::<W>::Received(Message::Request { id: other, method: text, payload }),
            id,
        ),
        leaves_alone(Step::<W>::Received(Message::Heartbeat), id),
{
}

/// A call ends with the payload of a response or with the code and the message of
/// an error, and as closed on anything else and on nothing.
pub proof fn law_call_ends_with_what_the_reply_says(
    id: u64,
    payload: Seq<u8>,
    code: u16,
    text: Seq<char>,
)
    ensures
        outcome(Some(Message::Response { id, payload })) == Outcome::Payload(payload),
        outcome(Some(Message::Error { id, code, message: text })) == (Outcome::Remote {
            code,
            message: text,
        }),
        outcome(Some(Message::Request { id, method: text, payload })) == Outcome::Closed,
        outcome(Some(Message::Heartbeat)) == Outcome::Closed,
        outcome(None) == Outcome::Closed,
{
}

/// Results tell outcomes apart: a payload, an error of the peer and a closed
/// connection are said by one result each, and other errors say none of them.
pub proof fn law_result_says_the_outcome(
    payload: Vec<u8>,
    code: u16,
    text: String,
    wire: WireError,
    envelope: Envelope,
)
    ensures
        said(Ok(payload)) == Some(Outcome::Payload(payload@)),
        said(Err(PatinaError::Remote { code, message: text })) == Some(
            Outcome::Remote { code, message: text@ },
        ),
        said(Err(PatinaError::Closed)) == Some(Outcome::Closed),
        said(Err(PatinaError::Wire(wire))) == None::<Outcome>,
        said(Err(PatinaError::UnknownMethod(text))) == None::<Outcome>,
        given(Some(envelope)) == Some(envelope@),
        given(None) == None::<Message>,
{
}

/// The waiters that a closing connection hands out are those in flight, one for
/// each id.
pub proof fn law_waiters_are_listed_by_id<W>(in_flight: Map<u64, W>, waiters: Seq<W>)
    requires
        lists_all(in_flight, waiters),
    ensures
        exists|ids: Seq<u64>|
            {
                &&& #[trigger] ids.len() == waiters.len()
                &&& forall|i: int, j: int| 0 <= i < j < ids.len() ==> ids[i] != ids[j]
                &&& forall|id: u64| in_flight.contains_key(id) <==> ids.contains(id)
                &&& forall|i: int| 0 <= i < ids.len() ==> waiters[i] == in_flight[#[trigger] ids[i]]
            },
{
    let ids = choose|ids: Seq<u64>| #[trigger]
        ids.no_duplicates() && ids.to_set() == in_flight.dom() && waiters == ids.map_values(
            |id: u64| in_flight[id],
        );
    assert forall|id: u64| in_flight.contains_key(id) <==> ids.contains(id) by {
        assert(ids.to_set().contains(id) <==> in_flight.dom().contains(id));
    }
    assert(ids.len() == waiters.len());
}

/// An idle connection sends a heartbeat every thirty seconds.
pub proof fn law_heartbeat_period()
    ensures
        HEARTBEAT_PERIOD_SECS == 30,
{
}

} // verus!
