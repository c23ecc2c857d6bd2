//! The state that a connection shares with whoever drives its transport.
//!
//! Streams queue their work here and the driver picks it up, so every operation that
//! leaves something for the driver hands back the driver's waker. It is to be woken
//! only once this state has been let go of.

use bytes::Bytes;
use kio::{Waiter, WaiterList};
use std::collections::{HashMap, HashSet, VecDeque};
use std::task::Poll;
use vstd::prelude::*;

use crate::ez::connection::{
    joined, ClosedModel, ConnectionClosed, ConnectionError, ConnectionStats,
};
use crate::ez::priority::{
    DEFAULT_PRIORITY, Priorities, applied_in_order, distinct, dropped, first_update, in_sync,
    law_distinct_updates_all_stand, lemma_dropped, lemma_first_of, lemma_first_update, lemma_moved,
    lemma_owed, moved, owed, settled, urgency_at,
};
use crate::ez::stream::{StreamError, StreamId};
use crate::payload::payload;
use crate::text::{from_utf8_lossy, utf8_lossy};
use crate::waiters::{identity, registered};

verus! {

broadcast use vstd::std_specs::hash::group_hash_axioms;

/// The code of a connection whose handles are all dropped: "drop" in ascii.
pub const DROP_CODE: u64 = 0x64726F70;

/// How many datagrams are held for the application before more are dropped.
pub const DATAGRAM_CAPACITY: usize = 64;

/// The streams of one direction that are being opened.
pub struct DriverOpen<T> {
    next: StreamId,
    capacity: u64,
    create: Vec<(StreamId, T)>,
    waiters: WaiterList,
}

/// What a [`DriverOpen`] holds.
pub struct OpenModel<T> {
    /// The identifier of the next stream.
    pub next: StreamId,
    /// How many more streams the peer allows.
    pub capacity: u64,
    /// The streams that the transport has yet to be told of, with their handles.
    pub create: Seq<(StreamId, T)>,
    /// Whoever waits for the peer to allow more.
    pub waiting: Set<int>,
}

impl<T> View for DriverOpen<T> {
    type V = OpenModel<T>;

    closed spec fn view(&self) -> OpenModel<T> {
        OpenModel {
            next: self.next,
            capacity: self.capacity,
            create: self.create@,
            waiting: registered(self.waiters),
        }
    }
}

impl<T> OpenModel<T> {
    /// No stream opened, and none allowed, yet.
    pub open spec fn idle(self, next: StreamId) -> bool {
        &&& self.next == next
        &&& self.capacity == 0
        &&& self.create == Seq::<(StreamId, T)>::empty()
        &&& self.waiting == Set::<int>::empty()
    }

    /// The streams not yet announced follow each other in the order of their
    /// identifiers, all of the kind of the next one and all before it.
    pub open spec fn ordered(self) -> bool {
        &&& forall|i: int, j: int| 0 <= i < j < self.create.len() ==> self.create[i].0.0 < self.create[j].0.0
        &&& forall|i: int|
            0 <= i < self.create.len() ==> (#[trigger] self.create[i]).0.0 < self.next.0
                && self.create[i].0.0 % 4 == self.next.0 % 4
    }

    /// A stream opened with a handle.
    pub open spec fn opened(self, handle: T) -> OpenModel<T> {
        OpenModel {
            next: StreamId((self.next.0 + 4) as u64),
            capacity: (self.capacity - 1) as u64,
            create: self.create.push((self.next, handle)),
            ..self
        }
    }
}

impl<T> DriverOpen<T> {
    /// No stream opened, and none allowed, yet.
    pub fn new(next: StreamId) -> (open: Self)
        ensures
            open@.idle(next),
    {
        DriverOpen { next, capacity: 0, create: Vec::new(), waiters: WaiterList::new() }
    }

    /// Take one stream off what the peer allows.
    fn reserve(&mut self) -> (id: StreamId)
        requires
            old(self)@.capacity > 0,
            old(self)@.next.0 + 4 <= u64::MAX,
        ensures
            id == old(self)@.next,
            final(self)@ == (OpenModel {
                next: StreamId((old(self)@.next.0 + 4) as u64),
                capacity: (old(self)@.capacity - 1) as u64,
                ..old(self)@
            }),
    {
        self.capacity = self.capacity - 1;
        self.next.increment()
    }

    /// Hand out the streams that the transport has yet to be told of.
    fn take_created(&mut self) -> (created: Vec<(StreamId, T)>)
        ensures
            created@ == old(self)@.create,
            final(self)@ == (OpenModel { create: Seq::empty(), ..old(self)@ }),
    {
        let mut created: Vec<(StreamId, T)> = Vec::new();
        core::mem::swap(&mut created, &mut self.create);
        created
    }

    /// Note how many streams the peer allows, as far as the transport knows: those that it
    /// has yet to be told of are taken off. If any are left, whoever waits for that is
    /// handed out to be woken.
    fn refill(&mut self, allowed: u64) -> (woken: WaiterList)
        ensures
            refilled(old(self)@, final(self)@, allowed, woken),
    {
        let opened: u64 = self.create.len() as u64;
        self.capacity = allowed.saturating_sub(opened);
        if self.capacity > 0 {
            self.waiters.take()
        } else {
            WaiterList::new()
        }
    }
}

/// What learning of the peer's allowance does: what is left of it once the streams that
/// the transport has yet to be told of are taken off may be opened.
pub open spec fn refilled<T>(before: OpenModel<T>, after: OpenModel<T>, allowed: u64, woken: WaiterList) -> bool {
    let capacity = if allowed > before.create.len() {
        (allowed - before.create.len()) as u64
    } else {
        0
    };
    &&& after == (OpenModel { capacity, waiting: after.waiting, ..before })
    &&& if capacity > 0 {
        registered(woken) == before.waiting && after.waiting == Set::<int>::empty()
    } else {
        registered(woken) == Set::<int>::empty() && after.waiting == before.waiting
    }
}

/// The state that a connection, its streams and its driver share. `W` wakes the driver,
/// `S` and `R` are the handles of the sending and receiving halves of a stream.
pub struct DriverState<W, S, R> {
    send: HashSet<u64>,
    recv: HashSet<u64>,
    waker: Option<W>,
    bi: DriverOpen<(S, R)>,
    uni: DriverOpen<S>,
    priorities: Priorities,
    accepted_bi: VecDeque<(StreamId, S, R)>,
    accept_bi: WaiterList,
    accepted_uni: VecDeque<(StreamId, R)>,
    accept_uni: WaiterList,
    datagrams: VecDeque<Bytes>,
    datagram: WaiterList,
    close_requested: ConnectionClosed,
    closed: ConnectionClosed,
    established: bool,
    handshake: WaiterList,
    alpn: Option<Vec<u8>>,
    server_name: Option<String>,
    certificates: Option<Vec<Vec<u8>>>,
    stats: ConnectionStats,
}

/// What a [`DriverState`] holds.
pub struct DriverModel<W, S, R> {
    /// The streams with something to send, or to be told of their receiving half.
    pub send: Set<u64>,
    pub recv: Set<u64>,
    /// What wakes the driver, while it sleeps.
    pub waker: Option<W>,
    pub bi: OpenModel<(S, R)>,
    pub uni: OpenModel<S>,
    pub priorities: Priorities,
    /// The streams that the peer opened and the application has not accepted, and
    /// whoever waits for one.
    pub accepted_bi: Seq<(StreamId, S, R)>,
    pub accept_bi: Set<int>,
    pub accepted_uni: Seq<(StreamId, R)>,
    pub accept_uni: Set<int>,
    /// The datagrams that the application has not received, and whoever waits for one.
    pub datagrams: Seq<Seq<u8>>,
    pub datagram: Set<int>,
    /// Why the application closes the connection, and why it has come to its end.
    pub close_requested: ClosedModel,
    pub closed: ClosedModel,
    /// Whether the handshake has completed, and whoever waits for it.
    pub established: bool,
    pub handshake: Set<int>,
    pub alpn: Option<Vec<u8>>,
    pub server_name: Option<String>,
    pub certificates: Option<Vec<Vec<u8>>>,
    pub stats: ConnectionStats,
}

impl<W, S, R> View for DriverState<W, S, R> {
    type V = DriverModel<W, S, R>;

    closed spec fn view(&self) -> DriverModel<W, S, R> {
        DriverModel {
            send: self.send@,
            recv: self.recv@,
            waker: self.waker,
            bi: self.bi@,
            uni: self.uni@,
            priorities: self.priorities,
            accepted_bi: self.accepted_bi@,
            accept_bi: registered(self.accept_bi),
            accepted_uni: self.accepted_uni@,
            accept_uni: registered(self.accept_uni),
            datagrams: self.datagrams@.map_values(|datagram: Bytes| payload(datagram)),
            datagram: registered(self.datagram),
            close_requested: self.close_requested@,
            closed: self.closed@,
            established: self.established,
            handshake: registered(self.handshake),
            alpn: self.alpn,
            server_name: self.server_name,
            certificates: self.certificates,
            stats: self.stats,
        }
    }
}

impl<W, S, R> DriverModel<W, S, R> {
    /// The ranking is sound, and no more datagrams are held than there is room for.
    pub open spec fn wf(self) -> bool {
        &&& self.priorities.wf()
        &&& self.datagrams.len() <= DATAGRAM_CAPACITY
    }

    /// Why the connection is unusable, if it is: because the application closes it, or
    /// else because it has come to its end.
    pub open spec fn failure(self) -> Option<ConnectionError> {
        if self.close_requested.error is Some {
            self.close_requested.error
        } else {
            self.closed.error
        }
    }

    /// What looking for a failure does: unless there is one already, whoever asked is
    /// parked until there is.
    pub open spec fn watched(self, after: Self, waiter: Waiter) -> bool {
        if self.close_requested.error is Some {
            after.close_requested == self.close_requested && after.closed == self.closed
        } else {
            &&& self.close_requested.polled(after.close_requested, waiter, Poll::Pending)
            &&& if self.closed.error is Some {
                after.closed == self.closed
            } else {
                self.closed.polled(after.closed, waiter, Poll::Pending)
            }
        }
    }
}

impl<W, S, R> DriverModel<W, S, R> {
    /// A stream noted as having something to send, and the waker to wake for it.
    pub open spec fn noted_send(self, id: StreamId) -> (Self, Option<W>) {
        if self.send.contains(id.0) {
            (self, None)
        } else {
            (DriverModel { send: self.send.insert(id.0), waker: None, ..self }, self.waker)
        }
    }

    /// A stream whose receiving half is noted, and the waker to wake for it.
    pub open spec fn noted_recv(self, id: StreamId) -> (Self, Option<W>) {
        if self.recv.contains(id.0) {
            (self, None)
        } else {
            (DriverModel { recv: self.recv.insert(id.0), waker: None, ..self }, self.waker)
        }
    }

    /// Nothing waits for the driver, apart from datagrams to send.
    pub open spec fn quiet(self) -> bool {
        &&& self.bi.create.len() == 0
        &&& self.uni.create.len() == 0
        &&& self.send == Set::<u64>::empty()
        &&& self.recv == Set::<u64>::empty()
    }

    /// Why the connection came to its end: because the application closed it; or else
    /// because of what this side, or the peer, told the other; or else because of what
    /// went wrong.
    pub open spec fn ended_with(
        self,
        error: ConnectionError,
        local: Option<(u64, Vec<u8>)>,
        peer: Option<(u64, Vec<u8>)>,
        failure: Option<String>,
    ) -> bool {
        if self.close_requested.error is Some {
            Some(error) == self.close_requested.error
        } else if local is Some {
            error matches ConnectionError::Local(code, reason) && code == (local->0).0 && reason@
                == utf8_lossy((local->0).1@)
        } else if peer is Some {
            error matches ConnectionError::Remote(code, reason) && code == (peer->0).0 && reason@
                == utf8_lossy((peer->0).1@)
        } else if failure is Some {
            error == ConnectionError::Unknown(failure->0)
        } else {
            error matches ConnectionError::Unknown(reason) && reason@ == "no error message"@
        }
    }
}

/// What retiring a send stream does to the state: it leaves the ranking, and every stream
/// whose urgency changes by that gets an update.
pub open spec fn retired<W, S, R>(
    before: DriverModel<W, S, R>,
    after: DriverModel<W, S, R>,
    id: StreamId,
) -> bool {
    &&& after == (DriverModel { priorities: after.priorities, ..before })
    &&& after.priorities.orders() == before.priorities.orders().remove(id.0)
    &&& if before.priorities.orders().contains_key(id.0) {
        forall|x: u64| #[trigger]
            after.priorities.updates().index_opt(x) == dropped(
                before.priorities.orders(),
                after.priorities.orders(),
                before.priorities.updates(),
                id.0,
                x,
            )
    } else {
        after.priorities.updates() == before.priorities.updates()
    }
}

/// What a pass of the driver begins with.
pub enum PassStart {
    /// Close the connection with a code and a reason.
    Close(u64, String),
    /// Wait for the handshake.
    Wait,
    /// Go on.
    Run,
}

/// The code and reason with which a connection is closed because of an error.
pub open spec fn closes_with(error: ConnectionError, code: u64, reason: String) -> bool {
    match error {
        ConnectionError::Local(c, r) => code == c && reason == r,
        ConnectionError::Remote(c, r) => code == c && reason == r,
        ConnectionError::Dropped => code == DROP_CODE && reason@ == "dropped"@,
        ConnectionError::Transport(e) => code == 500 && reason == e.text,
        ConnectionError::Unknown(r) => code == 501 && reason == r,
    }
}

/// The code and reason with which to close a connection because of an error.
pub fn close_frame(error: ConnectionError) -> (frame: (u64, String))
    ensures
        closes_with(error, frame.0, frame.1),
{
    match error {
        ConnectionError::Local(code, reason) => (code, reason),
        ConnectionError::Dropped => (DROP_CODE, "dropped".to_owned()),
        // This shouldn't happen, but just echo it back in case.
        ConnectionError::Remote(code, reason) => (code, reason),
        ConnectionError::Transport(error) => (500, error.text),
        ConnectionError::Unknown(reason) => (501, reason),
    }
}

/// The outcome of a pass: the driver sleeps only if there was nothing to do and no
/// keep-alive was scheduled, which the transport has yet to send.
pub fn pass_outcome(sleep: bool, keep_alive: bool) -> (outcome: Poll<Result<(), ConnectionError>>)
    ensures
        outcome == if sleep && !keep_alive {
            Poll::Pending
        } else {
            Poll::Ready(Ok::<(), ConnectionError>(()))
        },
{
    if sleep && !keep_alive {
        Poll::Pending
    } else {
        Poll::Ready(Ok(()))
    }
}

impl<W, S, R> DriverState<W, S, R> {
    /// The state of a connection that has yet to be established.
    pub fn new(server: bool) -> (state: Self)
        ensures
            state@.wf(),
            state@.send == Set::<u64>::empty(),
            state@.recv == Set::<u64>::empty(),
            state@.waker is None,
            state@.bi.idle(StreamId::of_kind(server, true)),
            state@.uni.idle(StreamId::of_kind(server, false)),
            state@.priorities.orders() == Map::<u64, i32>::empty(),
            state@.priorities.updates() == Map::<u64, u8>::empty(),
            state@.accepted_bi == Seq::<(StreamId, S, R)>::empty(),
            state@.accept_bi == Set::<int>::empty(),
            state@.accepted_uni == Seq::<(StreamId, R)>::empty(),
            state@.accept_uni == Set::<int>::empty(),
            state@.datagrams == Seq::<Seq<u8>>::empty(),
            state@.datagram == Set::<int>::empty(),
            state@.failure() is None,
            state@.close_requested.waiting == Set::<int>::empty(),
            state@.closed.waiting == Set::<int>::empty(),
            !state@.established,
            state@.handshake == Set::<int>::empty(),
            state@.alpn is None,
            state@.server_name is None,
            state@.certificates is None,
            state@.stats == (ConnectionStats {
                bytes_sent: 0,
                bytes_received: 0,
                bytes_lost: 0,
                packets_sent: 0,
                packets_received: 0,
                packets_lost: 0,
                rtt: None,
                send_rate: None,
            }),
    {
        let state = DriverState {
            send: HashSet::new(),
            recv: HashSet::new(),
            waker: None,
            bi: DriverOpen::new(StreamId::first(server, true)),
            uni: DriverOpen::new(StreamId::first(server, false)),
            priorities: Priorities::new(),
            accepted_bi: VecDeque::new(),
            accept_bi: WaiterList::new(),
            accepted_uni: VecDeque::new(),
            accept_uni: WaiterList::new(),
            datagrams: VecDeque::new(),
            datagram: WaiterList::new(),
            close_requested: ConnectionClosed::new(),
            closed: ConnectionClosed::new(),
            established: false,
            handshake: WaiterList::new(),
            alpn: None,
            server_name: None,
            certificates: None,
            stats: ConnectionStats::default(),
        };
        assert(state@.datagrams =~= Seq::<Seq<u8>>::empty());
        state
    }

    /// Ask for the connection to be closed, handing out whoever waits to hear of it.
    pub fn close(&mut self, err: ConnectionError) -> (woken: WaiterList)
        ensures
            old(self)@.close_requested.aborted(final(self)@.close_requested, err, woken),
            final(self)@ == (DriverModel { close_requested: final(self)@.close_requested, ..old(self)@ }),
    {
        self.close_requested.abort(err)
    }

    /// Poll until the connection has come to its end.
    ///
    /// A request to close does not make this resolve: the transport must have had an
    /// opportunity to tell the peer.
    pub fn closed(&mut self, waiter: &Waiter) -> (result: Poll<ConnectionError>)
        ensures
            old(self)@.closed.polled(final(self)@.closed, *waiter, result),
            final(self)@ == (DriverModel { closed: final(self)@.closed, ..old(self)@ }),
    {
        self.closed.poll(waiter)
    }

    /// Record that the connection has come to its end.
    pub fn finish_close(&mut self, err: ConnectionError) -> (woken: WaiterList)
        ensures
            old(self)@.closed.aborted(final(self)@.closed, err, woken),
            final(self)@ == (DriverModel { closed: final(self)@.closed, ..old(self)@ }),
    {
        self.closed.abort(err)
    }

    /// Poll until the application asks for the connection to be closed.
    pub fn close_requested(&mut self, waiter: &Waiter) -> (result: Poll<ConnectionError>)
        ensures
            old(self)@.close_requested.polled(final(self)@.close_requested, *waiter, result),
            final(self)@ == (DriverModel { close_requested: final(self)@.close_requested, ..old(self)@ }),
    {
        self.close_requested.poll(waiter)
    }

    /// Poll until the connection is unusable, for whichever reason.
    pub fn error(&mut self, waiter: &Waiter) -> (result: Poll<ConnectionError>)
        ensures
            result == (match old(self)@.failure() {
                Some(error) => Poll::Ready(error),
                None => Poll::Pending,
            }),
            old(self)@.watched(final(self)@, *waiter),
            final(self)@ == (DriverModel {
                close_requested: final(self)@.close_requested,
                closed: final(self)@.closed,
                ..old(self)@
            }),
    {
        if let Poll::Ready(err) = self.close_requested.poll(waiter) {
            return Poll::Ready(err);
        }
        self.closed.poll(waiter)
    }

    /// What an operation of a stream reports that has to wait: the connection being
    /// unusable, if it is.
    pub fn stream_error<T>(&mut self, waiter: &Waiter) -> (result: Poll<Result<T, StreamError>>)
        ensures
            result == (match old(self)@.failure() {
                Some(error) => Poll::Ready(Err::<T, StreamError>(StreamError::Connection(error))),
                None => Poll::Pending,
            }),
            old(self)@.watched(final(self)@, *waiter),
            final(self)@ == (DriverModel {
                close_requested: final(self)@.close_requested,
                closed: final(self)@.closed,
                ..old(self)@
            }),
    {
        match self.error(waiter) {
            Poll::Ready(error) => Poll::Ready(Err(StreamError::from(error))),
            Poll::Pending => Poll::Pending,
        }
    }

    /// What flushing a stream reports that has to wait: the connection having come to its
    /// end, if it has. Until then what is queued may still be sent.
    pub fn stream_end<T>(&mut self, waiter: &Waiter) -> (result: Poll<Result<T, StreamError>>)
        ensures
            result == (match old(self)@.closed.error {
                Some(error) => Poll::Ready(Err::<T, StreamError>(StreamError::Connection(error))),
                None => Poll::Pending,
            }),
            old(self)@.closed.error is Some ==> final(self)@ == old(self)@,
            old(self)@.closed.error is None ==> old(self)@.closed.polled(
                final(self)@.closed,
                *waiter,
                Poll::Pending,
            ),
            final(self)@ == (DriverModel { closed: final(self)@.closed, ..old(self)@ }),
    {
        match self.closed(waiter) {
            Poll::Ready(error) => Poll::Ready(Err(StreamError::from(error))),
            Poll::Pending => Poll::Pending,
        }
    }

    /// Whether the connection is unusable, for whichever reason.
    pub fn is_closed(&self) -> (closed: bool)
        ensures
            closed == (self@.failure() is Some),
    {
        self.close_requested.is_closed() || self.closed.is_closed()
    }

    /// Poll for the handshake to complete, or for the connection to fail before it does.
    pub fn poll_handshake(&mut self, waiter: &Waiter) -> (result: Poll<Result<(), ConnectionError>>)
        ensures
            old(self)@.established ==> result == Poll::<Result<(), ConnectionError>>::Ready(Ok(()))
                && final(self)@ == old(self)@,
            !old(self)@.established ==> {
                &&& old(self)@.watched(final(self)@, *waiter)
                &&& result == (match old(self)@.failure() {
                    Some(error) => Poll::Ready(Err::<(), ConnectionError>(error)),
                    None => Poll::Pending,
                })
                &&& final(self)@ == (DriverModel {
                    close_requested: final(self)@.close_requested,
                    closed: final(self)@.closed,
                    handshake: final(self)@.handshake,
                    ..old(self)@
                })
                &&& if result is Pending {
                    joined(old(self)@.handshake, final(self)@.handshake, *waiter)
                } else {
                    final(self)@.handshake == old(self)@.handshake
                }
            },
    {
        if self.established {
            return Poll::Ready(Ok(()));
        }
        if let Poll::Ready(err) = self.error(waiter) {
            return Poll::Ready(Err(err));
        }
        self.handshake.register(waiter);
        Poll::Pending
    }

    /// Record that the handshake has completed and what it settled, handing out whoever
    /// waits for it. An empty protocol means that none was negotiated.
    pub fn complete_handshake(&mut self, alpn: Vec<u8>, certificates: Option<Vec<Vec<u8>>>) -> (woken: WaiterList)
        ensures
            registered(woken) == old(self)@.handshake,
            final(self)@ == (DriverModel {
                established: true,
                handshake: Set::empty(),
                alpn: if alpn@.len() == 0 {
                    None
                } else {
                    Some(alpn)
                },
                certificates,
                ..old(self)@
            }),
    {
        self.alpn = if alpn.len() == 0 {
            None
        } else {
            Some(alpn)
        };
        self.certificates = certificates;
        self.established = true;
        self.handshake.take()
    }

    /// Take the driver's waker, if any, to be woken.
    pub fn wake(&mut self) -> (waker: Option<W>)
        ensures
            waker == old(self)@.waker,
            final(self)@ == (DriverModel { waker: None, ..old(self)@ }),
    {
        self.waker.take()
    }

    /// Note that a stream has something to send. The driver is to be woken unless it
    /// had been told already.
    pub fn send(&mut self, id: StreamId) -> (waker: Option<W>)
        ensures
            (final(self)@, waker) == old(self)@.noted_send(id),
    {
        if !self.send.insert(id.0) {
            assert(self@.send =~= old(self)@.send);
            return None;
        }
        self.waker.take()
    }

    /// Note that something happened to the receiving half of a stream. The driver is to
    /// be woken unless it had been told already.
    pub fn recv(&mut self, id: StreamId) -> (waker: Option<W>)
        ensures
            (final(self)@, waker) == old(self)@.noted_recv(id),
    {
        if !self.recv.insert(id.0) {
            assert(self@.recv =~= old(self)@.recv);
            return None;
        }
        self.waker.take()
    }

    /// Note that a stream has something to send, unless it is closed: the driver
    /// retires a closed stream, so it would be told of one that it no longer tracks.
    pub fn notify(&mut self, id: StreamId, closed: bool) -> (waker: Option<W>)
        ensures
            (final(self)@, waker) == if closed {
                (old(self)@, None)
            } else {
                old(self)@.noted_send(id)
            },
    {
        if closed {
            return None;
        }
        self.send(id)
    }

    /// The identifier of the next bidirectional stream.
    pub fn next_bi(&self) -> (id: StreamId)
        ensures
            id == self@.bi.next,
    {
        self.bi.next
    }

    /// The identifier of the next unidirectional stream.
    pub fn next_uni(&self) -> (id: StreamId)
        ensures
            id == self@.uni.next,
    {
        self.uni.next
    }

    /// Try to open the next bidirectional stream, although it may not be possible yet.
    ///
    /// `handles` makes the stream's two handles; the driver keeps one pair and the
    /// caller gets a clone of it. The driver is to be woken.
    pub fn open_bi<F: FnOnce(StreamId) -> (S, R)>(&mut self, waiter: &Waiter, handles: F) -> (result: Poll<
        Result<(Option<W>, StreamId, S, R), ConnectionError>,
    >) where S: Clone, R: Clone
        requires
            old(self)@.wf(),
            old(self)@.bi.next.0 + 4 <= u64::MAX,
            handles.requires((old(self)@.bi.next,)),
        ensures
            final(self)@.wf(),
            old(self)@.watched(final(self)@, *waiter),
            final(self)@ == (DriverModel {
                close_requested: final(self)@.close_requested,
                closed: final(self)@.closed,
                bi: final(self)@.bi,
                priorities: final(self)@.priorities,
                waker: final(self)@.waker,
                ..old(self)@
            }),
            result matches Poll::Ready(Err(error)) ==> {
                &&& old(self)@.failure() == Some(error)
                &&& final(self)@.bi == old(self)@.bi
                &&& final(self)@.priorities == old(self)@.priorities
                &&& final(self)@.waker == old(self)@.waker
            },
            result is Pending ==> {
                &&& old(self)@.failure() is None && old(self)@.bi.capacity == 0
                &&& final(self)@.bi == (OpenModel {
                    waiting: final(self)@.bi.waiting,
                    ..old(self)@.bi
                })
                &&& joined(old(self)@.bi.waiting, final(self)@.bi.waiting, *waiter)
                &&& final(self)@.priorities == old(self)@.priorities
                &&& final(self)@.waker == old(self)@.waker
            },
            result matches Poll::Ready(Ok((waker, id, send, recv))) ==> {
                &&& old(self)@.failure() is None && old(self)@.bi.capacity > 0
                &&& id == old(self)@.bi.next
                &&& handles.ensures((id,), final(self)@.bi.create.last().1)
                &&& final(self)@.bi == old(self)@.bi.opened(final(self)@.bi.create.last().1)
                &&& call_ensures(S::clone, (&final(self)@.bi.create.last().1.0,), send)
                &&& call_ensures(R::clone, (&final(self)@.bi.create.last().1.1,), recv)
                &&& final(self)@.priorities.orders() == old(self)@.priorities.orders().insert(
                    id.0,
                    DEFAULT_PRIORITY,
                )
                &&& moved(
                    &old(self)@.priorities,
                    &final(self)@.priorities,
                    id,
                    DEFAULT_PRIORITY,
                )
                &&& waker == old(self)@.waker && final(self)@.waker is None
            },
    {
        if let Poll::Ready(err) = self.error(waiter) {
            return Poll::Ready(Err(err));
        }
        if self.bi.capacity == 0 {
            self.bi.waiters.register(waiter);
            return Poll::Pending;
        }
        let id = self.bi.reserve();
        let pair = handles(id);
        let send = pair.0.clone();
        let recv = pair.1.clone();
        self.bi.create.push((id, pair));
        assert(self@.bi == old(self)@.bi.opened(pair));
        self.register_send(id);
        Poll::Ready(Ok((self.waker.take(), id, send, recv)))
    }

    /// Try to open the next unidirectional stream, although it may not be possible yet.
    pub fn open_uni<F: FnOnce(StreamId) -> S>(&mut self, waiter: &Waiter, handle: F) -> (result: Poll<
        Result<(Option<W>, StreamId, S), ConnectionError>,
    >) where S: Clone
        requires
            old(self)@.wf(),
            old(self)@.uni.next.0 + 4 <= u64::MAX,
            handle.requires((old(self)@.uni.next,)),
        ensures
            final(self)@.wf(),
            old(self)@.watched(final(self)@, *waiter),
            final(self)@ == (DriverModel {
                close_requested: final(self)@.close_requested,
                closed: final(self)@.closed,
                uni: final(self)@.uni,
                priorities: final(self)@.priorities,
                waker: final(self)@.waker,
                ..old(self)@
            }),
            result matches Poll::Ready(Err(error)) ==> {
                &&& old(self)@.failure() == Some(error)
                &&& final(self)@.uni == old(self)@.uni
                &&& final(self)@.priorities == old(self)@.priorities
                &&& final(self)@.waker == old(self)@.waker
            },
            result is Pending ==> {
                &&& old(self)@.failure() is None && old(self)@.uni.capacity == 0
                &&& final(self)@.uni == (OpenModel {
                    waiting: final(self)@.uni.waiting,
                    ..old(self)@.uni
                })
                &&& joined(old(self)@.uni.waiting, final(self)@.uni.waiting, *waiter)
                &&& final(self)@.priorities == old(self)@.priorities
                &&& final(self)@.waker == old(self)@.waker
            },
            result matches Poll::Ready(Ok((waker, id, send))) ==> {
                &&& old(self)@.failure() is None && old(self)@.uni.capacity > 0
                &&& id == old(self)@.uni.next
                &&& handle.ensures((id,), final(self)@.uni.create.last().1)
                &&& final(self)@.uni == old(self)@.uni.opened(final(self)@.uni.create.last().1)
                &&& call_ensures(S::clone, (&final(self)@.uni.create.last().1,), send)
                &&& final(self)@.priorities.orders() == old(self)@.priorities.orders().insert(
                    id.0,
                    DEFAULT_PRIORITY,
                )
                &&& moved(
                    &old(self)@.priorities,
                    &final(self)@.priorities,
                    id,
                    DEFAULT_PRIORITY,
                )
                &&& waker == old(self)@.waker && final(self)@.waker is None
            },
    {
        if let Poll::Ready(err) = self.error(waiter) {
            return Poll::Ready(Err(err));
        }
        if self.uni.capacity == 0 {
            self.uni.waiters.register(waiter);
            return Poll::Pending;
        }
        let id = self.uni.reserve();
        let kept = handle(id);
        let send = kept.clone();
        self.uni.create.push((id, kept));
        assert(self@.uni == old(self)@.uni.opened(kept));
        self.register_send(id);
        Poll::Ready(Ok((self.waker.take(), id, send)))
    }

    /// Rank a new send stream, at the default send order.
    pub fn register_send(&mut self, id: StreamId)
        requires
            old(self)@.wf(),
        ensures
            final(self)@.wf(),
            final(self)@ == (DriverModel { priorities: final(self)@.priorities, ..old(self)@ }),
            final(self)@.priorities.orders() == old(self)@.priorities.orders().insert(
                id.0,
                DEFAULT_PRIORITY,
            ),
            moved(&old(self)@.priorities, &final(self)@.priorities, id, DEFAULT_PRIORITY),
    {
        self.priorities.insert(id);
    }

    /// Change a stream's send order, where higher values are sent first. The driver is
    /// to be woken so that it applies what this implies.
    pub fn set_priority(&mut self, id: StreamId, order: i32) -> (waker: Option<W>)
        requires
            old(self)@.wf(),
        ensures
            final(self)@.wf(),
            final(self)@ == (DriverModel {
                priorities: final(self)@.priorities,
                waker: None,
                ..old(self)@
            }),
            waker == old(self)@.waker,
            old(self)@.priorities.orders().contains_key(id.0) ==> {
                &&& final(self)@.priorities.orders() == old(self)@.priorities.orders().insert(id.0, order)
                &&& moved(&old(self)@.priorities, &final(self)@.priorities, id, order)
            },
            !old(self)@.priorities.orders().contains_key(id.0) ==> {
                &&& final(self)@.priorities.orders() == old(self)@.priorities.orders()
                &&& final(self)@.priorities.updates() == old(self)@.priorities.updates()
            },
    {
        self.priorities.set(id, order);
        self.waker.take()
    }

    /// The send order that a stream is registered at.
    pub fn priority_of(&self, id: StreamId) -> (order: Option<i32>)
        ensures
            order == self@.priorities.orders().index_opt(id.0),
    {
        self.priorities.order(id)
    }

    /// The urgency assigned to a stream, if it is registered.
    pub fn urgency_of(&self, id: StreamId) -> (urgency: Option<u8>)
        requires
            self@.wf(),
        ensures
            urgency is Some <==> self@.priorities.orders().contains_key(id.0),
            urgency matches Some(band) ==> band == urgency_at(
                self@.priorities.orders(),
                self@.priorities.orders()[id.0],
            ),
    {
        self.priorities.urgency(id)
    }

    /// Drop a send stream from the ranking.
    pub fn retire_send(&mut self, id: StreamId)
        requires
            old(self)@.wf(),
        ensures
            final(self)@.wf(),
            retired(old(self)@, final(self)@, id),
    {
        self.priorities.remove(id);
    }

    /// Queue a bidirectional stream that the peer opened, and rank its sending half,
    /// handing out whoever waits to accept one.
    pub fn queue_bi(&mut self, id: StreamId, send: S, recv: R) -> (woken: WaiterList)
        requires
            old(self)@.wf(),
        ensures
            final(self)@.wf(),
            registered(woken) == old(self)@.accept_bi,
            final(self)@ == (DriverModel {
                accepted_bi: old(self)@.accepted_bi.push((id, send, recv)),
                accept_bi: Set::empty(),
                priorities: final(self)@.priorities,
                ..old(self)@
            }),
            final(self)@.priorities.orders() == old(self)@.priorities.orders().insert(
                id.0,
                DEFAULT_PRIORITY,
            ),
            moved(&old(self)@.priorities, &final(self)@.priorities, id, DEFAULT_PRIORITY),
    {
        self.register_send(id);
        self.accepted_bi.push_back((id, send, recv));
        self.accept_bi.take()
    }

    /// Queue a unidirectional stream that the peer opened, handing out whoever waits to
    /// accept one.
    pub fn queue_uni(&mut self, id: StreamId, recv: R) -> (woken: WaiterList)
        ensures
            registered(woken) == old(self)@.accept_uni,
            final(self)@ == (DriverModel {
                accepted_uni: old(self)@.accepted_uni.push((id, recv)),
                accept_uni: Set::empty(),
                ..old(self)@
            }),
    {
        self.accepted_uni.push_back((id, recv));
        self.accept_uni.take()
    }

    /// Poll for a bidirectional stream that the peer opened.
    pub fn poll_accept_bi(&mut self, waiter: &Waiter) -> (result: Poll<
        Result<(StreamId, S, R), ConnectionError>,
    >)
        ensures
            old(self)@.accepted_bi.len() > 0 ==> {
                &&& result == Poll::<Result<(StreamId, S, R), ConnectionError>>::Ready(
                    Ok(old(self)@.accepted_bi.first()),
                )
                &&& final(self)@ == (DriverModel {
                    accepted_bi: old(self)@.accepted_bi.drop_first(),
                    ..old(self)@
                })
            },
            old(self)@.accepted_bi.len() == 0 ==> {
                &&& old(self)@.watched(final(self)@, *waiter)
                &&& result == (match old(self)@.failure() {
                    Some(error) => Poll::Ready(Err::<(StreamId, S, R), ConnectionError>(error)),
                    None => Poll::Pending,
                })
                &&& final(self)@ == (DriverModel {
                    close_requested: final(self)@.close_requested,
                    closed: final(self)@.closed,
                    accept_bi: final(self)@.accept_bi,
                    ..old(self)@
                })
                &&& if result is Pending {
                    joined(old(self)@.accept_bi, final(self)@.accept_bi, *waiter)
                } else {
                    final(self)@.accept_bi == old(self)@.accept_bi
                }
            },
    {
        if let Some(stream) = self.accepted_bi.pop_front() {
            assert(self@.accepted_bi =~= old(self)@.accepted_bi.drop_first());
            return Poll::Ready(Ok(stream));
        }
        assert(self@.accepted_bi =~= old(self)@.accepted_bi);
        if let Poll::Ready(err) = self.error(waiter) {
            return Poll::Ready(Err(err));
        }
        self.accept_bi.register(waiter);
        Poll::Pending
    }

    /// Poll for a unidirectional stream that the peer opened.
    pub fn poll_accept_uni(&mut self, waiter: &Waiter) -> (result: Poll<
        Result<(StreamId, R), ConnectionError>,
    >)
        ensures
            old(self)@.accepted_uni.len() > 0 ==> {
                &&& result == Poll::<Result<(StreamId, R), ConnectionError>>::Ready(
                    Ok(old(self)@.accepted_uni.first()),
                )
                &&& final(self)@ == (DriverModel {
                    accepted_uni: old(self)@.accepted_uni.drop_first(),
                    ..old(self)@
                })
            },
            old(self)@.accepted_uni.len() == 0 ==> {
                &&& old(self)@.watched(final(self)@, *waiter)
                &&& result == (match old(self)@.failure() {
                    Some(error) => Poll::Ready(Err::<(StreamId, R), ConnectionError>(error)),
                    None => Poll::Pending,
                })
                &&& final(self)@ == (DriverModel {
                    close_requested: final(self)@.close_requested,
                    closed: final(self)@.closed,
                    accept_uni: final(self)@.accept_uni,
                    ..old(self)@
                })
                &&& if result is Pending {
                    joined(old(self)@.accept_uni, final(self)@.accept_uni, *waiter)
                } else {
                    final(self)@.accept_uni == old(self)@.accept_uni
                }
            },
    {
        if let Some(stream) = self.accepted_uni.pop_front() {
            assert(self@.accepted_uni =~= old(self)@.accepted_uni.drop_first());
            return Poll::Ready(Ok(stream));
        }
        assert(self@.accepted_uni =~= old(self)@.accepted_uni);
        if let Poll::Ready(err) = self.error(waiter) {
            return Poll::Ready(Err(err));
        }
        self.accept_uni.register(waiter);
        Poll::Pending
    }

    /// Queue a datagram from the peer, handing out whoever waits for one.
    ///
    /// If the application can't keep up the new datagram is dropped, which datagrams
    /// allow for.
    pub fn queue_datagram(&mut self, data: &[u8]) -> (woken: WaiterList)
        requires
            old(self)@.wf(),
        ensures
            final(self)@.wf(),
            old(self)@.datagrams.len() < DATAGRAM_CAPACITY ==> {
                &&& registered(woken) == old(self)@.datagram
                &&& final(self)@ == (DriverModel {
                    datagrams: old(self)@.datagrams.push(data@),
                    datagram: Set::empty(),
                    ..old(self)@
                })
            },
            old(self)@.datagrams.len() == DATAGRAM_CAPACITY ==> {
                &&& registered(woken) == Set::<int>::empty()
                &&& final(self)@ == old(self)@
            },
    {
        if self.datagrams.len() >= DATAGRAM_CAPACITY {
            return WaiterList::new();
        }
        self.datagrams.push_back(Bytes::copy_from_slice(data));
        assert(self@.datagrams =~= old(self)@.datagrams.push(data@));
        self.datagram.take()
    }

    /// Poll for a datagram from the peer.
    pub fn poll_dgram_in(&mut self, waiter: &Waiter) -> (result: Poll<Result<Bytes, ConnectionError>>)
        ensures
            old(self)@.datagrams.len() > 0 ==> {
                &&& result matches Poll::Ready(Ok(datagram)) && payload(datagram)
                    == old(self)@.datagrams.first()
                &&& final(self)@ == (DriverModel {
                    datagrams: old(self)@.datagrams.drop_first(),
                    ..old(self)@
                })
            },
            old(self)@.datagrams.len() == 0 ==> {
                &&& old(self)@.watched(final(self)@, *waiter)
                &&& result == (match old(self)@.failure() {
                    Some(error) => Poll::Ready(Err::<Bytes, ConnectionError>(error)),
                    None => Poll::Pending,
                })
                &&& final(self)@ == (DriverModel {
                    close_requested: final(self)@.close_requested,
                    closed: final(self)@.closed,
                    datagram: final(self)@.datagram,
                    ..old(self)@
                })
                &&& if result is Pending {
                    joined(old(self)@.datagram, final(self)@.datagram, *waiter)
                } else {
                    final(self)@.datagram == old(self)@.datagram
                }
            },
    {
        if let Some(datagram) = self.datagrams.pop_front() {
            assert(self@.datagrams =~= old(self)@.datagrams.drop_first());
            return Poll::Ready(Ok(datagram));
        }
        assert(self@.datagrams =~= old(self)@.datagrams);
        if let Poll::Ready(err) = self.error(waiter) {
            return Poll::Ready(Err(err));
        }
        self.datagram.register(waiter);
        Poll::Pending
    }

    /// The most recent statistics.
    pub fn stats(&self) -> (stats: ConnectionStats)
        ensures
            stats == self@.stats,
    {
        self.stats
    }

    /// The negotiated protocol, if there is one.
    pub fn alpn(&self) -> (alpn: Option<&[u8]>)
        ensures
            alpn is Some <==> self@.alpn is Some,
            alpn matches Some(name) ==> name@ == self@.alpn->0@,
    {
        match &self.alpn {
            Some(alpn) => Some(alpn.as_slice()),
            None => None,
        }
    }

    /// The TLS server name, if there is one.
    pub fn server_name(&self) -> (name: Option<&str>)
        ensures
            name is Some <==> self@.server_name is Some,
            name matches Some(name) ==> name@ == self@.server_name->0@,
    {
        match &self.server_name {
            Some(name) => Some(name.as_str()),
            None => None,
        }
    }

    /// Set the TLS server name.
    pub fn set_server_name(&mut self, name: Option<String>)
        ensures
            final(self)@ == (DriverModel { server_name: name, ..old(self)@ }),
    {
        self.server_name = name;
    }

    /// The peer's certificate chain, leaf first, if it presented one.
    pub fn peer_certificates(&self) -> (certificates: Option<&Vec<Vec<u8>>>)
        ensures
            certificates is Some <==> self@.certificates is Some,
            certificates matches Some(chain) ==> *chain == self@.certificates->0,
    {
        self.certificates.as_ref()
    }

    /// Begin a pass of the driver: close the connection if the application asks for it,
    /// and otherwise go on once the handshake is over.
    ///
    /// While the connection drains it is too late to close it.
    pub fn begin(&mut self, waiter: &Waiter, draining: bool, established: bool) -> (start: PassStart)
        ensures
            final(self)@ == (DriverModel { close_requested: final(self)@.close_requested, ..old(self)@ }),
            draining ==> final(self)@ == old(self)@,
            !draining && old(self)@.close_requested.error is Some ==> {
                &&& start matches PassStart::Close(code, reason) && closes_with(
                    old(self)@.close_requested.error->0,
                    code,
                    reason,
                )
                &&& final(self)@ == old(self)@
            },
            !draining && old(self)@.close_requested.error is None
                ==> old(self)@.close_requested.polled(
                final(self)@.close_requested,
                *waiter,
                Poll::Pending,
            ),
            draining || old(self)@.close_requested.error is None ==> start == if established {
                PassStart::Run
            } else {
                PassStart::Wait
            },
    {
        if !draining {
            if let Poll::Ready(error) = self.close_requested(waiter) {
                let (code, reason) = close_frame(error);
                return PassStart::Close(code, reason);
            }
        }
        if established {
            PassStart::Run
        } else {
            PassStart::Wait
        }
    }

    /// Note what wakes the driver. This comes before looking for work, so that whoever
    /// leaves some either finds the waker or is found.
    pub fn park(&mut self, waker: W)
        ensures
            final(self)@ == (DriverModel { waker: Some(waker), ..old(self)@ }),
    {
        self.waker = Some(waker);
    }

    /// Note the latest statistics, and tell whether there is nothing for the driver to
    /// do, given whether datagrams wait to be sent.
    pub fn inspect(&mut self, stats: ConnectionStats, datagrams: bool) -> (sleep: bool)
        ensures
            sleep == (old(self)@.quiet() && !datagrams),
            final(self)@ == (DriverModel { stats, ..old(self)@ }),
    {
        self.stats = stats;
        self.is_quiet() && !datagrams
    }

    /// Whether nothing waits for the driver, apart from datagrams to send.
    pub fn is_quiet(&self) -> (quiet: bool)
        ensures
            quiet == self@.quiet(),
    {
        self.bi.create.len() == 0 && self.uni.create.len() == 0 && self.send.is_empty()
            && self.recv.is_empty()
    }

    /// Hand out the bidirectional streams that the transport has yet to be told of.
    pub fn created_bi(&mut self) -> (created: Vec<(StreamId, (S, R))>)
        ensures
            created@ == old(self)@.bi.create,
            final(self)@ == (DriverModel {
                bi: OpenModel { create: Seq::empty(), ..old(self)@.bi },
                ..old(self)@
            }),
    {
        self.bi.take_created()
    }

    /// Hand out the unidirectional streams that the transport has yet to be told of.
    pub fn created_uni(&mut self) -> (created: Vec<(StreamId, S)>)
        ensures
            created@ == old(self)@.uni.create,
            final(self)@ == (DriverModel {
                uni: OpenModel { create: Seq::empty(), ..old(self)@.uni },
                ..old(self)@
            }),
    {
        self.uni.take_created()
    }

    /// Note how many streams of each direction the peer allows, handing out whoever
    /// waits for a direction in which it allows any.
    pub fn allow(&mut self, bi: u64, uni: u64) -> (woken: (WaiterList, WaiterList))
        ensures
            refilled(old(self)@.bi, final(self)@.bi, bi, woken.0),
            refilled(old(self)@.uni, final(self)@.uni, uni, woken.1),
            final(self)@ == (DriverModel { bi: final(self)@.bi, uni: final(self)@.uni, ..old(self)@ }),
    {
        (self.bi.refill(bi), self.uni.refill(uni))
    }

    /// Hand out the streams to flush: those to send on, and those to receive on.
    pub fn take_work(&mut self) -> (work: (HashSet<u64>, HashSet<u64>))
        ensures
            work.0@ == old(self)@.send,
            work.1@ == old(self)@.recv,
            final(self)@ == (DriverModel { send: Set::empty(), recv: Set::empty(), ..old(self)@ }),
    {
        let mut send: HashSet<u64> = HashSet::new();
        let mut recv: HashSet<u64> = HashSet::new();
        core::mem::swap(&mut send, &mut self.send);
        core::mem::swap(&mut recv, &mut self.recv);
        (send, recv)
    }

    /// Record that the connection has come to its end, handing out whoever waits for
    /// that, and whoever waits to hear that it is closing.
    pub fn conclude(
        &mut self,
        local: Option<(u64, Vec<u8>)>,
        peer: Option<(u64, Vec<u8>)>,
        failure: Option<String>,
    ) -> (woken: (WaiterList, WaiterList))
        ensures
            exists|error: ConnectionError| #[trigger]
                old(self)@.ended_with(error, local, peer, failure) && old(self)@.closed.aborted(
                    final(self)@.closed,
                    error,
                    woken.0,
                ) && old(self)@.close_requested.aborted(final(self)@.close_requested, error, woken.1),
            final(self)@ == (DriverModel {
                closed: final(self)@.closed,
                close_requested: final(self)@.close_requested,
                ..old(self)@
            }),
    {
        let error = if let Some(error) = self.close_requested.error() {
            error
        } else if let Some((code, reason)) = &local {
            ConnectionError::Local(*code, from_utf8_lossy(reason.as_slice()))
        } else if let Some((code, reason)) = &peer {
            ConnectionError::Remote(*code, from_utf8_lossy(reason.as_slice()))
        } else if let Some(text) = &failure {
            ConnectionError::Unknown(text.clone())
        } else {
            ConnectionError::Unknown("no error message".to_owned())
        };
        assert(old(self)@.ended_with(error, local, peer, failure));
        let ended = self.finish_close(error.clone());
        let closing = self.close(error);
        (ended, closing)
    }
}

/// What to do with a stream that has something to receive.
#[derive(Clone, Copy, Debug, PartialEq, Eq, Structural)]
pub enum ReadStep {
    /// Hand it to the receiving half that is there.
    Flush,
    /// Accept it: the peer opened it, and it runs both ways.
    AcceptBi,
    /// Accept it: the peer opened it, and it runs one way.
    AcceptUni,
}

/// The streams that a driver tracks, with their handles.
pub struct Driver<S, R> {
    send: HashMap<u64, S>,
    recv: HashMap<u64, R>,
}

impl<S, R> Driver<S, R> {
    /// The handles of the sending halves.
    pub closed spec fn senders(&self) -> Map<u64, S> {
        self.send@
    }

    /// The handles of the receiving halves.
    pub closed spec fn receivers(&self) -> Map<u64, R> {
        self.recv@
    }

    /// A driver that tracks nothing.
    pub fn new() -> (driver: Self)
        ensures
            driver.senders() == Map::<u64, S>::empty(),
            driver.receivers() == Map::<u64, R>::empty(),
    {
        Driver { send: HashMap::new(), recv: HashMap::new() }
    }

    /// Track a bidirectional stream that the transport was told of.
    pub fn track_bi(&mut self, id: StreamId, handles: (S, R))
        ensures
            final(self).senders() == old(self).senders().insert(id.0, handles.0),
            final(self).receivers() == old(self).receivers().insert(id.0, handles.1),
    {
        self.send.insert(id.0, handles.0);
        self.recv.insert(id.0, handles.1);
    }

    /// Track a unidirectional stream that the transport was told of.
    pub fn track_uni(&mut self, id: StreamId, handle: S)
        ensures
            final(self).senders() == old(self).senders().insert(id.0, handle),
            final(self).receivers() == old(self).receivers(),
    {
        self.send.insert(id.0, handle);
    }

    /// The handle of a stream's sending half, unless it has been retired.
    pub fn sender(&self, id: StreamId) -> (handle: Option<&S>)
        ensures
            handle is Some <==> self.senders().contains_key(id.0),
            handle matches Some(handle) ==> *handle == self.senders()[id.0],
    {
        self.send.get(&id.0)
    }

    /// The handle of a stream's receiving half, unless it has been retired.
    pub fn receiver(&self, id: StreamId) -> (handle: Option<&R>)
        ensures
            handle is Some <==> self.receivers().contains_key(id.0),
            handle matches Some(handle) ==> *handle == self.receivers()[id.0],
    {
        self.recv.get(&id.0)
    }

    /// Retire a stream's sending half if flushing it has closed it. It leaves the
    /// ranking too, which promotes the streams that it was holding back.
    pub fn flushed_send<W>(&mut self, state: &mut DriverState<W, S, R>, id: StreamId, closed: bool)
        requires
            old(state)@.wf(),
        ensures
            final(state)@.wf(),
            final(self).receivers() == old(self).receivers(),
            !closed ==> final(self).senders() == old(self).senders() && final(state)@ == old(state)@,
            closed ==> {
                &&& final(self).senders() == old(self).senders().remove(id.0)
                &&& retired(old(state)@, final(state)@, id)
            },
    {
        if closed {
            self.send.remove(&id.0);
            state.retire_send(id);
        }
    }

    /// Retire a stream's receiving half if flushing it has closed it.
    pub fn flushed_recv(&mut self, id: StreamId, closed: bool)
        ensures
            final(self).senders() == old(self).senders(),
            final(self).receivers() == if closed {
                old(self).receivers().remove(id.0)
            } else {
                old(self).receivers()
            },
    {
        if closed {
            self.recv.remove(&id.0);
        }
    }

    /// What to do with a stream that has something to receive.
    pub fn readable(&self, id: StreamId) -> (step: ReadStep)
        ensures
            step == if self.receivers().contains_key(id.0) {
                ReadStep::Flush
            } else if id.bi() {
                ReadStep::AcceptBi
            } else {
                ReadStep::AcceptUni
            },
    {
        if self.recv.contains_key(&id.0) {
            ReadStep::Flush
        } else if id.is_bi() {
            ReadStep::AcceptBi
        } else {
            ReadStep::AcceptUni
        }
    }

    /// Accept a bidirectional stream: track one pair of handles, and queue the other
    /// for the application.
    pub fn accept_bi<W>(
        &mut self,
        state: &mut DriverState<W, S, R>,
        id: StreamId,
        kept: (S, R),
        given: (S, R),
    ) -> (woken: WaiterList)
        requires
            old(state)@.wf(),
        ensures
            final(state)@.wf(),
            final(self).senders() == old(self).senders().insert(id.0, kept.0),
            final(self).receivers() == old(self).receivers().insert(id.0, kept.1),
            registered(woken) == old(state)@.accept_bi,
            final(state)@ == (DriverModel {
                accepted_bi: old(state)@.accepted_bi.push((id, given.0, given.1)),
                accept_bi: Set::empty(),
                priorities: final(state)@.priorities,
                ..old(state)@
            }),
            final(state)@.priorities.orders() == old(state)@.priorities.orders().insert(
                id.0,
                DEFAULT_PRIORITY,
            ),
            moved(&old(state)@.priorities, &final(state)@.priorities, id, DEFAULT_PRIORITY),
    {
        self.track_bi(id, kept);
        state.queue_bi(id, given.0, given.1)
    }

    /// Accept a unidirectional stream: track one handle, and queue the other for the
    /// application.
    pub fn accept_uni<W>(
        &mut self,
        state: &mut DriverState<W, S, R>,
        id: StreamId,
        kept: R,
        given: R,
    ) -> (woken: WaiterList)
        ensures
            final(self).senders() == old(self).senders(),
            final(self).receivers() == old(self).receivers().insert(id.0, kept),
            registered(woken) == old(state)@.accept_uni,
            final(state)@ == (DriverModel {
                accepted_uni: old(state)@.accepted_uni.push((id, given)),
                accept_uni: Set::empty(),
                ..old(state)@
            }),
    {
        self.recv.insert(id.0, kept);
        state.queue_uni(id, given)
    }

    /// Take the urgencies to apply to the transport. Those of streams that the transport
    /// was not told of yet are left for the next pass.
    pub fn urgencies<W>(&self, state: &mut DriverState<W, S, R>) -> (updates: Vec<(StreamId, u8)>)
        requires
            old(state)@.wf(),
        ensures
            final(state)@.wf(),
            final(state)@ == (DriverModel { priorities: final(state)@.priorities, ..old(state)@ }),
            final(state)@.priorities.orders() == old(state)@.priorities.orders(),
            forall|id: u64| #[trigger]
                final(state)@.priorities.updates().index_opt(id) == if self.senders().contains_key(id) {
                    None
                } else {
                    old(state)@.priorities.updates().index_opt(id)
                },
            forall|id: u64| #[trigger]
                first_update(updates@, id) == if self.senders().contains_key(id) {
                    old(state)@.priorities.updates().index_opt(id)
                } else {
                    None
                },
            distinct(updates@),
    {
        let pending = state.priorities.take();
        let (updates, left) = partition(&pending, &self.send);
        state.priorities.defer(left);
        updates
    }
}

/// The update for a stream among those for which a side was chosen.
spec fn chosen(pending: Map<u64, u8>, id: u64, side: bool) -> Option<u8> {
    if side {
        pending.index_opt(id)
    } else {
        None
    }
}

/// Part updates into those of streams that are tracked and those of streams that are
/// not.
fn partition<S>(pending: &HashMap<u64, u8>, known: &HashMap<u64, S>) -> (parts: (
    Vec<(StreamId, u8)>,
    Vec<(StreamId, u8)>,
))
    ensures
        forall|id: u64| #[trigger]
            first_update(parts.0@, id) == chosen(pending@, id, known@.contains_key(id)),
        forall|id: u64| #[trigger]
            first_update(parts.1@, id) == chosen(pending@, id, !known@.contains_key(id)),
        distinct(parts.0@),
{
    let mut ready: Vec<(StreamId, u8)> = Vec::new();
    let mut left: Vec<(StreamId, u8)> = Vec::new();
    for entry in it: pending.iter()
        invariant
            forall|k: int| 0 <= k < it.seq().len() ==> pending@.contains_key(*(#[trigger] it.seq()[k]).0)
                && pending@[*it.seq()[k].0] == *it.seq()[k].1,
            forall|x: u64| #[trigger] pending@.contains_key(x) ==> it.seq().contains((&x, &pending@[x])),
            it.seq().no_duplicates(),
            distinct(ready@),
            forall|i: int, k: int| #![trigger ready@[i], it.seq()[k]]
                0 <= i < ready@.len() && it.index() <= k < it.seq().len() ==> ready@[i].0.0
                    != *it.seq()[k].0,
            forall|x: u64| #[trigger] first_update(ready@, x) is Some ==> known@.contains_key(x)
                && pending@.contains_key(x) && first_update(ready@, x) == Some(pending@[x]),
            forall|x: u64| #[trigger] first_update(left@, x) is Some ==> !known@.contains_key(x)
                && pending@.contains_key(x) && first_update(left@, x) == Some(pending@[x]),
            forall|k: int| 0 <= k < it.index() ==> placed(
                ready@,
                left@,
                *(#[trigger] it.seq()[k]).0,
                known@.contains_key(*it.seq()[k].0),
            ),
    {
        let id: u64 = *entry.0;
        let urgency: u8 = *entry.1;
        let ghost ready0 = ready@;
        let ghost left0 = left@;
        if known.contains_key(&id) {
            ready.push((StreamId(id), urgency));
            assert(ready@.drop_last() =~= ready0);
        } else {
            left.push((StreamId(id), urgency));
            assert(left@.drop_last() =~= left0);
        }
        proof {
            assert(*it.seq()[it.index()].0 == id);
            assert forall|i: int, k: int| #![trigger ready@[i], it.seq()[k]]
                0 <= i < ready@.len() && it.index() + 1 <= k < it.seq().len() implies ready@[i].0.0
                != *it.seq()[k].0 by {
                if i < ready0.len() {
                    assert(ready@[i] == ready0[i]);
                } else if *it.seq()[k].0 == id {
                    assert(it.seq()[k] == it.seq()[it.index()]);
                }
            }
            assert forall|i: int, j: int| 0 <= i < j < ready@.len() implies ready@[i].0 != ready@[j].0 by {
                assert(ready@[i] == ready0[i]);
                if j < ready0.len() {
                    assert(ready@[j] == ready0[j]);
                }
            }
            assert forall|x: u64| #[trigger] first_update(ready@, x) == (if first_update(ready0, x) is None
                && known@.contains_key(id) && x == id {
                Some(urgency)
            } else {
                first_update(ready0, x)
            }) by {}
            assert forall|x: u64| #[trigger] first_update(left@, x) == (if first_update(left0, x) is None
                && !known@.contains_key(id) && x == id {
                Some(urgency)
            } else {
                first_update(left0, x)
            }) by {}
            assert forall|k: int| 0 <= k < it.index() + 1 implies placed(
                ready@,
                left@,
                *(#[trigger] it.seq()[k]).0,
                known@.contains_key(*it.seq()[k].0),
            ) by {
                if k < it.index() {
                    assert(placed(
                        ready0,
                        left0,
                        *it.seq()[k].0,
                        known@.contains_key(*it.seq()[k].0),
                    ));
                }
            }
        }
    }
    proof {
        assert forall|x: u64| pending@.contains_key(x) implies placed(
            ready@,
            left@,
            x,
            #[trigger] known@.contains_key(x),
        ) by {}
    }
    (ready, left)
}

spec fn placed(ready: Seq<(StreamId, u8)>, left: Seq<(StreamId, u8)>, id: u64, known: bool) -> bool {
    if known {
        first_update(ready, id) is Some
    } else {
        first_update(left, id) is Some
    }
}

/// What may be opened once the allowance of the peer is known: with the streams that were
/// opened and not announced, it makes up that allowance, unless they exceed it already.
/// Whoever waits is woken exactly if there is one to open.
pub open spec fn credited<T>(before: OpenModel<T>, after: OpenModel<T>, allowed: u64, woken: Set<int>) -> bool {
    &&& after.next == before.next && after.create == before.create
    &&& before.create.len() <= allowed ==> after.create.len() + after.capacity == allowed
    &&& before.create.len() > allowed ==> after.capacity == 0
    &&& after.capacity > 0 ==> woken == before.waiting && after.waiting =~= Set::<int>::empty()
    &&& after.capacity == 0 ==> woken =~= Set::<int>::empty() && after.waiting == before.waiting
}

/// No identifier is handed out twice: opening a stream keeps the streams that are being
/// opened in order, and so does announcing them or learning of the peer's allowance.
pub proof fn law_opened_streams_are_distinct<T>(
    open: OpenModel<T>,
    handle: T,
    after: OpenModel<T>,
    capacity: u64,
    woken: WaiterList,
)
    requires
        open.ordered(),
        open.next.0 + 4 <= u64::MAX,
        refilled(open, after, capacity, woken),
    ensures
        open.opened(handle).ordered(),
        open.opened(handle).next.bi() == open.next.bi(),
        open.opened(handle).next.by_server() == open.next.by_server(),
        (OpenModel { create: Seq::empty(), ..open }).ordered(),
        after.ordered(),
{
    let opened = open.opened(handle);
    assert forall|i: int, j: int| 0 <= i < j < opened.create.len() implies opened.create[i].0.0
        < opened.create[j].0.0 by {}
    assert forall|i: int| 0 <= i < opened.create.len() implies (#[trigger] opened.create[i]).0.0
        < opened.next.0 && opened.create[i].0.0 % 4 == opened.next.0 % 4 by {
        if i < open.create.len() {
            assert(opened.create[i] == open.create[i]);
        }
    }
}

/// The streams of one direction that the transport has yet to be told of, those of a pass
/// under way and those still queued, and those that may be opened besides, are no more than
/// the peer allows.
pub open spec fn within_allowance<T>(announcing: Seq<(StreamId, T)>, open: OpenModel<T>, allowed: u64) -> bool {
    announcing.len() + open.create.len() + open.capacity <= allowed
}

/// The peer is never asked for more streams than it allows: whatever happens to the
/// streams of one direction, in whichever order, those that wait to be announced and those
/// that may still be opened stay within what the transport is allowed. So every stream can
/// be announced when its turn comes.
pub proof fn law_streams_stay_within_the_allowance<T>(
    announcing: Seq<(StreamId, T)>,
    open: OpenModel<T>,
    allowed: u64,
    more: u64,
    handle: T,
    after: OpenModel<T>,
    woken: WaiterList,
)
    requires
        within_allowance(announcing, open, allowed),
        more >= allowed,
        refilled(open, after, more, woken),
    ensures
        // The peer allows more.
        within_allowance(announcing, open, more),
        // A stream is opened.
        open.capacity > 0 ==> within_allowance(announcing, open.opened(handle), allowed),
        // A pass takes the streams that have been opened.
        announcing.len() == 0 ==> within_allowance(
            open.create,
            OpenModel { create: Seq::empty(), ..open },
            allowed,
        ),
        // A stream is announced, which the transport counts.
        announcing.len() > 0 ==> allowed > 0 && within_allowance(
            announcing.drop_first(),
            open,
            (allowed - 1) as u64,
        ),
        // A pass that has announced its streams learns of the allowance, even where others
        // have been opened meanwhile.
        announcing.len() == 0 ==> within_allowance(announcing, after, more),
        after.capacity > 0 ==> after.create.len() + after.capacity == more,
{
}

/// No wakeup is lost: once the driver has found nothing to do and gone to sleep, the
/// next stream with something for it wakes it.
pub proof fn law_a_sleeping_driver_is_woken_by_new_work<W, S, R>(
    before: DriverModel<W, S, R>,
    waker: W,
    stats: ConnectionStats,
    id: StreamId,
)
    requires
        before.quiet(),
        before.waker == Some(waker),
    ensures
        ({
            let asleep = DriverModel { stats, ..before };
            &&& asleep.noted_send(id).1 == Some(waker)
            &&& asleep.noted_recv(id).1 == Some(waker)
            &&& !asleep.noted_send(id).0.quiet()
            &&& !asleep.noted_recv(id).0.quiet()
        }),
{
    assert(before.send.insert(id.0).contains(id.0));
    assert(before.recv.insert(id.0).contains(id.0));
}

/// A request to close is an error at once for whoever uses the connection, but not the
/// end of it: that comes only when the driver is done.
pub proof fn law_a_close_request_is_an_error_before_the_end<W, S, R>(
    before: DriverModel<W, S, R>,
    after: DriverModel<W, S, R>,
    error: ConnectionError,
    woken: WaiterList,
    polled: ClosedModel,
    waiter: Waiter,
    result: Poll<ConnectionError>,
)
    requires
        before.failure() is None,
        before.close_requested.aborted(after.close_requested, error, woken),
        after == (DriverModel { close_requested: after.close_requested, ..before }),
        after.closed.polled(polled, waiter, result),
    ensures
        after.failure() == Some(error),
        result is Pending,
{
}

/// What the application closed a connection with is what it ends with, whatever the
/// transport has to say.
pub proof fn law_a_connection_ends_with_the_close_requested<W, S, R>(
    model: DriverModel<W, S, R>,
    error: ConnectionError,
    local: Option<(u64, Vec<u8>)>,
    peer: Option<(u64, Vec<u8>)>,
    failure: Option<String>,
)
    requires
        model.close_requested.error is Some,
        model.ended_with(error, local, peer, failure),
    ensures
        model.failure() == Some(error),
{
}

/// Applying the urgencies that a driver takes, one after the other, keeps the transport in sync with the
/// ranking, also for the streams that it was not told of yet.
pub proof fn law_applying_urgencies_keeps_in_sync<S>(
    senders: Map<u64, S>,
    orders: Map<u64, i32>,
    pending: Map<u64, u8>,
    after: Map<u64, u8>,
    updates: Seq<(StreamId, u8)>,
    applied: Map<u64, u8>,
)
    requires
        in_sync(orders, pending, applied),
        forall|id: u64| #[trigger]
            after.index_opt(id) == if senders.contains_key(id) {
                None
            } else {
                pending.index_opt(id)
            },
        forall|id: u64| #[trigger]
            first_update(updates, id) == if senders.contains_key(id) {
                pending.index_opt(id)
            } else {
                None
            },
        distinct(updates),
    ensures
        in_sync(orders, after, applied_in_order(applied, updates)),
{
    let now = applied_in_order(applied, updates);
    assert forall|id: u64| #[trigger] orders.contains_key(id) implies now.union_prefer_right(after).index_opt(
        id,
    ) == Some(urgency_at(orders, orders[id])) by {
        assert(applied.union_prefer_right(pending).index_opt(id) == Some(urgency_at(orders, orders[id])));
        assert(after.index_opt(id) == if senders.contains_key(id) {
            None
        } else {
            pending.index_opt(id)
        });
        law_distinct_updates_all_stand(applied, updates, id);
    }
}

/// Two states of a connection that agree on what is open to the application: its streams and
/// datagrams, how it was set up and how it ended.
pub open spec fn same_connection<W, S, R>(a: DriverModel<W, S, R>, b: DriverModel<W, S, R>) -> bool {
    &&& a.accepted_bi == b.accepted_bi && a.accept_bi == b.accept_bi
    &&& a.accepted_uni == b.accepted_uni && a.accept_uni == b.accept_uni
    &&& a.datagrams == b.datagrams && a.datagram == b.datagram
    &&& a.close_requested == b.close_requested && a.closed == b.closed
    &&& a.established == b.established && a.handshake == b.handshake
    &&& a.alpn == b.alpn && a.server_name == b.server_name && a.certificates == b.certificates
}

/// Two states of a connection that agree on what is open to the driver: the streams being
/// opened and flushed, their ranking, the statistics, and what wakes it.
pub open spec fn same_work<W, S, R>(a: DriverModel<W, S, R>, b: DriverModel<W, S, R>) -> bool {
    &&& a.send == b.send && a.recv == b.recv && a.waker == b.waker && a.bi == b.bi && a.uni == b.uni
    &&& a.priorities == b.priorities && a.stats == b.stats
}

/// A stream that has something for the driver is noted, and the driver is woken for it
/// exactly if it was not noted before: then its waker is handed out, once. A closed stream is
/// not noted. Nobody else is forgotten, and nothing else changes.
pub proof fn law_a_note_wakes_the_driver_once<W, S, R>()
    ensures
        forall|state: &mut DriverState<W, S, R>, id: StreamId, waker: Option<W>|
            #[trigger] call_ensures(DriverState::<W, S, R>::send, (state, id), waker) ==> {
                &&& notes(state@.send, state@.waker, id.0, final(state)@.send, final(state)@.waker, waker)
                &&& final(state)@.recv == state@.recv && same_but_notes(state@, final(state)@)
            },
        forall|state: &mut DriverState<W, S, R>, id: StreamId, waker: Option<W>|
            #[trigger] call_ensures(DriverState::<W, S, R>::recv, (state, id), waker) ==> {
                &&& notes(state@.recv, state@.waker, id.0, final(state)@.recv, final(state)@.waker, waker)
                &&& final(state)@.send == state@.send && same_but_notes(state@, final(state)@)
            },
        forall|state: &mut DriverState<W, S, R>, id: StreamId, closed: bool, waker: Option<W>|
            #[trigger] call_ensures(DriverState::<W, S, R>::notify, (state, id, closed), waker) ==> {
                &&& !closed ==> notes(
                    state@.send,
                    state@.waker,
                    id.0,
                    final(state)@.send,
                    final(state)@.waker,
                    waker,
                )
                &&& closed ==> waker is None && final(state)@.send == state@.send && final(state)@.waker
                    == state@.waker
                &&& final(state)@.recv == state@.recv && same_but_notes(state@, final(state)@)
            },
{
}

/// What noting a stream comes to.
pub open spec fn notes<W>(
    before: Set<u64>,
    parked: Option<W>,
    id: u64,
    after: Set<u64>,
    left: Option<W>,
    woken: Option<W>,
) -> bool {
    &&& forall|x: u64| #[trigger] after.contains(x) <==> before.contains(x) || x == id
    &&& before.contains(id) ==> woken is None && left == parked
    &&& !before.contains(id) ==> woken == parked && left is None
}

pub open spec fn same_but_notes<W, S, R>(a: DriverModel<W, S, R>, b: DriverModel<W, S, R>) -> bool {
    &&& same_connection(a, b)
    &&& a.bi == b.bi && a.uni == b.uni && a.priorities == b.priorities && a.stats == b.stats
}

/// What opening a stream in one direction comes to, whether it succeeds, waits or fails.
pub open spec fn opens<T>(
    before: OpenModel<T>,
    after: OpenModel<T>,
    failed: bool,
    opened: Option<StreamId>,
    waits: bool,
    waiter: int,
) -> bool {
    &&& opened is Some <==> !failed && before.capacity > 0
    &&& waits <==> !failed && before.capacity == 0
    &&& opened is Some ==> {
        &&& opened->0 == before.next
        &&& after.next.0 == before.next.0 + 4
        &&& after.capacity + 1 == before.capacity
        &&& after.create.len() == before.create.len() + 1
        &&& after.create.drop_last() =~= before.create
        &&& after.create.last().0 == before.next
        &&& after.waiting == before.waiting
    }
    &&& opened is None ==> after.next == before.next && after.capacity == before.capacity && after.create
        == before.create
    &&& waits ==> after.waiting.contains(waiter)
    &&& forall|x: int| #[trigger] after.waiting.contains(x) ==> x == waiter || before.waiting.contains(x)
    &&& !waits ==> after.waiting == before.waiting
}

/// A stream is opened exactly while the connection lasts and the peer allows one, which is
/// then used up. It gets the next identifier, is queued to be announced behind those opened
/// before it, is ranked at the default, and the driver is woken for it. Otherwise whoever asks
/// waits, or is told why the connection is unusable. The other direction is left alone.
pub proof fn law_a_stream_is_opened_while_the_peer_allows_one<W, S: Clone, R: Clone, B, U>() where
    B: FnOnce(StreamId) -> (S, R),
    U: FnOnce(StreamId) -> S,

    ensures
        forall|
            state: &mut DriverState<W, S, R>,
            waiter: &Waiter,
            handles: B,
            result: Poll<Result<(Option<W>, StreamId, S, R), ConnectionError>>,
        |
            #[trigger] call_ensures(DriverState::<W, S, R>::open_bi::<B>, (state, waiter, handles), result)
                && state@.bi.next.0 + 4 <= u64::MAX ==> {
                let opened = match result {
                    Poll::Ready(Ok((_, id, _, _))) => Some(id),
                    _ => None,
                };
                &&& opens(
                    state@.bi,
                    final(state)@.bi,
                    state@.failure() is Some,
                    opened,
                    result is Pending,
                    identity(*waiter),
                )
                &&& result matches Poll::Ready(Err(error)) ==> state@.failure() == Some(error)
                &&& result matches Poll::Ready(Ok((waker, id, send, recv))) ==> {
                    &&& waker == state@.waker && final(state)@.waker is None
                    &&& final(state)@.priorities.orders() == state@.priorities.orders().insert(id.0, 0)
                    &&& handles.ensures((id,), final(state)@.bi.create.last().1)
                    &&& call_ensures(S::clone, (&final(state)@.bi.create.last().1.0,), send)
                    &&& call_ensures(R::clone, (&final(state)@.bi.create.last().1.1,), recv)
                }
                &&& opened is None ==> final(state)@.waker == state@.waker && final(state)@.priorities
                    == state@.priorities
                &&& final(state)@.uni == state@.uni && final(state)@.send == state@.send
                    && final(state)@.recv == state@.recv
            },
        forall|
            state: &mut DriverState<W, S, R>,
            waiter: &Waiter,
            handle: U,
            result: Poll<Result<(Option<W>, StreamId, S), ConnectionError>>,
        |
            #[trigger] call_ensures(DriverState::<W, S, R>::open_uni::<U>, (state, waiter, handle), result)
                && state@.uni.next.0 + 4 <= u64::MAX ==> {
                let opened = match result {
                    Poll::Ready(Ok((_, id, _))) => Some(id),
                    _ => None,
                };
                &&& opens(
                    state@.uni,
                    final(state)@.uni,
                    state@.failure() is Some,
                    opened,
                    result is Pending,
                    identity(*waiter),
                )
                &&& result matches Poll::Ready(Err(error)) ==> state@.failure() == Some(error)
                &&& result matches Poll::Ready(Ok((waker, id, send))) ==> {
                    &&& waker == state@.waker && final(state)@.waker is None
                    &&& final(state)@.priorities.orders() == state@.priorities.orders().insert(id.0, 0)
                    &&& handle.ensures((id,), final(state)@.uni.create.last().1)
                    &&& call_ensures(S::clone, (&final(state)@.uni.create.last().1,), send)
                }
                &&& opened is None ==> final(state)@.waker == state@.waker && final(state)@.priorities
                    == state@.priorities
                &&& final(state)@.bi == state@.bi && final(state)@.send == state@.send
                    && final(state)@.recv == state@.recv
            },
{
}

/// What a poll of a queue comes to: what came first comes out first, also once the connection
/// is unusable; an empty one waits while the connection lasts, and fails after that, with
/// the reason.
pub open spec fn takes_first<T>(
    before: Seq<T>,
    after: Seq<T>,
    failure: Option<ConnectionError>,
    waiting: Set<int>,
    left_waiting: Set<int>,
    waiter: int,
    result: Poll<Result<T, ConnectionError>>,
) -> bool {
    &&& before.len() > 0 ==> {
        &&& result == Poll::<Result<T, ConnectionError>>::Ready(Ok(before[0]))
        &&& after.len() == before.len() - 1
        &&& forall|i: int| 0 <= i < after.len() ==> after[i] == before[i + 1]
    }
    &&& before.len() == 0 ==> {
        &&& after.len() == 0
        &&& result is Pending <==> failure is None
        &&& failure is Some ==> result == Poll::<Result<T, ConnectionError>>::Ready(Err(failure->0))
    }
    &&& result is Pending ==> left_waiting.contains(waiter)
    &&& forall|x: int| #[trigger] left_waiting.contains(x) ==> x == waiter || waiting.contains(x)
    &&& !(result is Pending) ==> left_waiting == waiting
}

/// Streams that the peer opens come out in the order in which they came, each once, and
/// whoever waits for one is woken when one comes; one that runs both ways is ranked. They are
/// handed over even if the connection has become unusable.
pub proof fn law_accepted_streams_come_out_in_order<W, S, R>()
    ensures
        forall|state: &mut DriverState<W, S, R>, id: StreamId, send: S, recv: R, woken: WaiterList|
            #[trigger] call_ensures(DriverState::<W, S, R>::queue_bi, (state, id, send, recv), woken) ==> {
                &&& final(state)@.accepted_bi.len() == state@.accepted_bi.len() + 1
                &&& final(state)@.accepted_bi.drop_last() =~= state@.accepted_bi
                &&& final(state)@.accepted_bi.last() == (id, send, recv)
                &&& registered(woken) == state@.accept_bi && final(state)@.accept_bi =~= Set::<int>::empty()
                &&& final(state)@.priorities.orders() == state@.priorities.orders().insert(id.0, 0)
                &&& final(state)@.accepted_uni == state@.accepted_uni && final(state)@.accept_uni
                    == state@.accept_uni
            },
        forall|state: &mut DriverState<W, S, R>, id: StreamId, recv: R, woken: WaiterList|
            #[trigger] call_ensures(DriverState::<W, S, R>::queue_uni, (state, id, recv), woken) ==> {
                &&& final(state)@.accepted_uni.len() == state@.accepted_uni.len() + 1
                &&& final(state)@.accepted_uni.drop_last() =~= state@.accepted_uni
                &&& final(state)@.accepted_uni.last() == (id, recv)
                &&& registered(woken) == state@.accept_uni && final(state)@.accept_uni =~= Set::<int>::empty()
                &&& final(state)@.accepted_bi == state@.accepted_bi && final(state)@.accept_bi
                    == state@.accept_bi
                &&& same_work(state@, final(state)@)
            },
        forall|
            state: &mut DriverState<W, S, R>,
            waiter: &Waiter,
            result: Poll<Result<(StreamId, S, R), ConnectionError>>,
        |
            #[trigger] call_ensures(DriverState::<W, S, R>::poll_accept_bi, (state, waiter), result) ==> {
                &&& takes_first(
                    state@.accepted_bi,
                    final(state)@.accepted_bi,
                    state@.failure(),
                    state@.accept_bi,
                    final(state)@.accept_bi,
                    identity(*waiter),
                    result,
                )
                &&& final(state)@.accepted_uni == state@.accepted_uni && same_work(state@, final(state)@)
            },
        forall|
            state: &mut DriverState<W, S, R>,
            waiter: &Waiter,
            result: Poll<Result<(StreamId, R), ConnectionError>>,
        |
            #[trigger] call_ensures(DriverState::<W, S, R>::poll_accept_uni, (state, waiter), result) ==> {
                &&& takes_first(
                    state@.accepted_uni,
                    final(state)@.accepted_uni,
                    state@.failure(),
                    state@.accept_uni,
                    final(state)@.accept_uni,
                    identity(*waiter),
                    result,
                )
                &&& final(state)@.accepted_bi == state@.accepted_bi && same_work(state@, final(state)@)
            },
{
}

/// Datagrams come out in the order in which they came, as they came. One that finds as many
/// queued as are held is dropped, and the others stay; otherwise it is queued last, and
/// whoever waits is woken.
pub proof fn law_datagrams_come_out_in_order<W, S, R>()
    ensures
        forall|state: &mut DriverState<W, S, R>, data: &[u8], woken: WaiterList|
            #[trigger] call_ensures(DriverState::<W, S, R>::queue_datagram, (state, data), woken)
                && state@.wf() ==> {
                &&& state@.datagrams.len() < 64 ==> {
                    &&& final(state)@.datagrams.len() == state@.datagrams.len() + 1
                    &&& final(state)@.datagrams.drop_last() =~= state@.datagrams
                    &&& final(state)@.datagrams.last() == data@
                    &&& registered(woken) == state@.datagram && final(state)@.datagram =~= Set::<int>::empty()
                }
                &&& state@.datagrams.len() >= 64 ==> final(state)@.datagrams == state@.datagrams
                    && registered(woken) =~= Set::<int>::empty() && final(state)@.datagram == state@.datagram
                &&& final(state)@.datagrams.len() <= 64
                &&& same_work(state@, final(state)@)
            },
        forall|state: &mut DriverState<W, S, R>, waiter: &Waiter, result: Poll<Result<Bytes, ConnectionError>>|
            #[trigger] call_ensures(DriverState::<W, S, R>::poll_dgram_in, (state, waiter), result) ==> {
                &&& state@.datagrams.len() > 0 ==> {
                    &&& result matches Poll::Ready(Ok(datagram))
                    &&& payload(datagram) == state@.datagrams[0]
                    &&& final(state)@.datagrams.len() == state@.datagrams.len() - 1
                    &&& forall|i: int|
                        0 <= i < final(state)@.datagrams.len() ==> final(state)@.datagrams[i]
                            == state@.datagrams[i + 1]
                }
                &&& state@.datagrams.len() == 0 ==> {
                    &&& final(state)@.datagrams.len() == 0
                    &&& result is Pending <==> state@.failure() is None
                    &&& state@.failure() is Some ==> result == Poll::<Result<Bytes, ConnectionError>>::Ready(
                        Err(state@.failure()->0),
                    )
                }
                &&& result is Pending ==> final(state)@.datagram.contains(identity(*waiter))
                &&& same_work(state@, final(state)@)
            },
{
}

/// A connection is unusable from when the application closes it, and has come to its end only
/// when the driver says so; the first word on each stands. Whoever asks is told what the
/// application closed it with, or else what it ended with, and otherwise waits.
pub proof fn law_a_connection_is_unusable_once_it_is_closed<W, S, R>()
    ensures
        forall|state: &mut DriverState<W, S, R>, err: ConnectionError, woken: WaiterList|
            #[trigger] call_ensures(DriverState::<W, S, R>::close, (state, err), woken) ==> {
                &&& final(state)@.close_requested.error == Some(
                    if state@.close_requested.error is Some {
                        state@.close_requested.error->0
                    } else {
                        err
                    },
                )
                &&& state@.close_requested.error is None ==> registered(woken)
                    == state@.close_requested.waiting
                &&& final(state)@.closed == state@.closed && same_work(state@, final(state)@)
            },
        forall|state: &mut DriverState<W, S, R>, err: ConnectionError, woken: WaiterList|
            #[trigger] call_ensures(DriverState::<W, S, R>::finish_close, (state, err), woken) ==> {
                &&& final(state)@.closed.error == Some(
                    if state@.closed.error is Some {
                        state@.closed.error->0
                    } else {
                        err
                    },
                )
                &&& state@.closed.error is None ==> registered(woken) == state@.closed.waiting
                &&& final(state)@.close_requested == state@.close_requested && same_work(state@, final(state)@)
            },
        forall|state: &mut DriverState<W, S, R>, waiter: &Waiter, result: Poll<ConnectionError>|
            #[trigger] call_ensures(DriverState::<W, S, R>::closed, (state, waiter), result) ==> {
                &&& told(state@.closed.error, result)
                &&& result is Pending ==> final(state)@.closed.waiting.contains(identity(*waiter))
                &&& final(state)@.closed.error == state@.closed.error && final(state)@.close_requested
                    == state@.close_requested && same_work(state@, final(state)@)
            },
        forall|state: &mut DriverState<W, S, R>, waiter: &Waiter, result: Poll<ConnectionError>|
            #[trigger] call_ensures(DriverState::<W, S, R>::close_requested, (state, waiter), result) ==> {
                &&& told(state@.close_requested.error, result)
                &&& result is Pending ==> final(state)@.close_requested.waiting.contains(identity(*waiter))
                &&& final(state)@.close_requested.error == state@.close_requested.error && final(state)@.closed
                    == state@.closed && same_work(state@, final(state)@)
            },
        forall|state: &mut DriverState<W, S, R>, waiter: &Waiter, result: Poll<ConnectionError>|
            #[trigger] call_ensures(DriverState::<W, S, R>::error, (state, waiter), result) ==> {
                &&& told(first_of(state@.close_requested.error, state@.closed.error), result)
                &&& result is Pending ==> final(state)@.close_requested.waiting.contains(identity(*waiter))
                    && final(state)@.closed.waiting.contains(identity(*waiter))
                &&& same_work(state@, final(state)@)
            },
        forall|state: &DriverState<W, S, R>, is: bool|
            #[trigger] call_ensures(DriverState::<W, S, R>::is_closed, (state,), is) ==> (is
                <==> state@.close_requested.error is Some || state@.closed.error is Some),
{
}

/// Whoever asks for an error is told it if there is one, and waits otherwise.
pub open spec fn told(error: Option<ConnectionError>, result: Poll<ConnectionError>) -> bool {
    match result {
        Poll::Ready(given) => error == Some(given),
        Poll::Pending => error is None,
    }
}

pub open spec fn first_of(a: Option<ConnectionError>, b: Option<ConnectionError>) -> Option<ConnectionError> {
    if a is Some {
        a
    } else {
        b
    }
}

/// A stream that has to wait fails with its connection: its operations as soon as that is
/// unusable, and what is queued on it only once that has come to its end.
pub proof fn law_a_stream_fails_with_its_connection<W, S, R, T>()
    ensures
        forall|state: &mut DriverState<W, S, R>, waiter: &Waiter, result: Poll<Result<T, StreamError>>|
            #[trigger] call_ensures(DriverState::<W, S, R>::stream_error::<T>, (state, waiter), result)
                ==> match result {
                Poll::Ready(Ok(_)) => false,
                Poll::Ready(Err(error)) => error is Connection && first_of(
                    state@.close_requested.error,
                    state@.closed.error,
                ) == Some(error->Connection_0),
                Poll::Pending => state@.close_requested.error is None && state@.closed.error is None
                    && final(state)@.closed.waiting.contains(identity(*waiter)),
            },
        forall|state: &mut DriverState<W, S, R>, waiter: &Waiter, result: Poll<Result<T, StreamError>>|
            #[trigger] call_ensures(DriverState::<W, S, R>::stream_end::<T>, (state, waiter), result)
                ==> match result {
                Poll::Ready(Ok(_)) => false,
                Poll::Ready(Err(error)) => error is Connection && state@.closed.error == Some(
                    error->Connection_0,
                ),
                Poll::Pending => state@.closed.error is None && final(state)@.closed.waiting.contains(
                    identity(*waiter),
                ),
            },
{
}

/// The handshake is over once it has completed, whatever happens to the connection after
/// that, and everyone who waited for it is handed out. Until then whoever waits is told of a
/// failure. What it settled is kept: the certificates, and the protocol unless it is empty.
pub proof fn law_a_completed_handshake_stays_completed<W, S, R>()
    ensures
        forall|
            state: &mut DriverState<W, S, R>,
            alpn: Vec<u8>,
            certificates: Option<Vec<Vec<u8>>>,
            woken: WaiterList,
        |
            #[trigger] call_ensures(
                DriverState::<W, S, R>::complete_handshake,
                (state, alpn, certificates),
                woken,
            ) ==> {
                &&& final(state)@.established && registered(woken) == state@.handshake
                &&& final(state)@.handshake =~= Set::<int>::empty()
                &&& final(state)@.alpn is None <==> alpn@.len() == 0
                &&& alpn@.len() > 0 ==> final(state)@.alpn == Some(alpn)
                &&& final(state)@.certificates == certificates
                &&& final(state)@.server_name == state@.server_name && same_work(state@, final(state)@)
            },
        forall|state: &mut DriverState<W, S, R>, waiter: &Waiter, result: Poll<Result<(), ConnectionError>>|
            #[trigger] call_ensures(DriverState::<W, S, R>::poll_handshake, (state, waiter), result) ==> {
                let failure = first_of(state@.close_requested.error, state@.closed.error);
                &&& result == Poll::<Result<(), ConnectionError>>::Ready(Ok(())) <==> state@.established
                &&& result is Pending <==> !state@.established && failure is None
                &&& result matches Poll::Ready(Err(error)) ==> failure == Some(error)
                &&& result is Pending ==> final(state)@.handshake.contains(identity(*waiter))
                &&& final(state)@.established == state@.established && same_work(state@, final(state)@)
            },
{
}

/// Every way of leaving something for the driver takes what wakes it: it is handed out to be
/// woken, once. Parking puts it in place, in place of the one that was.
pub proof fn law_a_parked_waker_is_taken_once<W, S, R>()
    ensures
        forall|state: &mut DriverState<W, S, R>, waker: Option<W>|
            #[trigger] call_ensures(DriverState::<W, S, R>::wake, (state,), waker) ==> waker == state@.waker
                && final(state)@.waker is None && final(state)@.send == state@.send && final(state)@.recv
                == state@.recv && same_but_notes(state@, final(state)@),
        forall|state: &mut DriverState<W, S, R>, waker: W|
            #[trigger] call_ensures(DriverState::<W, S, R>::park, (state, waker), ()) ==> final(state)@.waker
                == Some(waker) && final(state)@.send == state@.send && final(state)@.recv == state@.recv
                && same_but_notes(state@, final(state)@),
        forall|state: &mut DriverState<W, S, R>, id: StreamId, order: i32, waker: Option<W>|
            #[trigger] call_ensures(DriverState::<W, S, R>::set_priority, (state, id, order), waker) ==> {
                &&& waker == state@.waker && final(state)@.waker is None
                &&& state@.priorities.orders().contains_key(id.0) ==> final(state)@.priorities.orders()
                    == state@.priorities.orders().insert(id.0, order)
                &&& !state@.priorities.orders().contains_key(id.0) ==> final(state)@.priorities.orders()
                    == state@.priorities.orders()
                &&& same_connection(state@, final(state)@)
                &&& final(state)@.send == state@.send && final(state)@.recv == state@.recv
            },
{
}

/// The driver has something to do exactly if a stream waits to be announced or flushed, or a
/// datagram to be sent. What it takes is all that there is, and is not found again.
pub proof fn law_the_driver_takes_all_of_its_work<W, S, R>()
    ensures
        forall|state: &DriverState<W, S, R>, quiet: bool|
            #[trigger] call_ensures(DriverState::<W, S, R>::is_quiet, (state,), quiet) ==> (quiet <==> {
                &&& state@.bi.create.len() == 0 && state@.uni.create.len() == 0
                &&& forall|id: u64| !#[trigger] state@.send.contains(id)
                &&& forall|id: u64| !#[trigger] state@.recv.contains(id)
            }),
        forall|state: &mut DriverState<W, S, R>, stats: ConnectionStats, datagrams: bool, sleep: bool|
            #[trigger] call_ensures(DriverState::<W, S, R>::inspect, (state, stats, datagrams), sleep) ==> {
                &&& sleep ==> !datagrams && state@.bi.create.len() == 0 && state@.uni.create.len() == 0
                    && state@.send =~= Set::<u64>::empty() && state@.recv =~= Set::<u64>::empty()
                &&& !sleep ==> datagrams || state@.bi.create.len() > 0 || state@.uni.create.len() > 0
                    || state@.send !~= Set::<u64>::empty() || state@.recv !~= Set::<u64>::empty()
                &&& final(state)@.stats == stats && same_connection(state@, final(state)@)
                &&& final(state)@.send == state@.send && final(state)@.recv == state@.recv
                &&& final(state)@.bi == state@.bi && final(state)@.uni == state@.uni && final(state)@.waker
                    == state@.waker
            },
        forall|state: &mut DriverState<W, S, R>, work: (std::collections::HashSet<u64>, std::collections::HashSet<u64>)|
            #[trigger] call_ensures(DriverState::<W, S, R>::take_work, (state,), work) ==> {
                &&& forall|id: u64| #[trigger] work.0@.contains(id) <==> state@.send.contains(id)
                &&& forall|id: u64| #[trigger] work.1@.contains(id) <==> state@.recv.contains(id)
                &&& final(state)@.send =~= Set::<u64>::empty() && final(state)@.recv =~= Set::<u64>::empty()
                &&& same_but_notes(state@, final(state)@) && final(state)@.waker == state@.waker
            },
        forall|state: &mut DriverState<W, S, R>, created: Vec<(StreamId, (S, R))>|
            #[trigger] call_ensures(DriverState::<W, S, R>::created_bi, (state,), created) ==> {
                &&& created@ == state@.bi.create && final(state)@.bi.create.len() == 0
                &&& final(state)@.bi.next == state@.bi.next && final(state)@.bi.capacity == state@.bi.capacity
                &&& final(state)@.bi.waiting == state@.bi.waiting && final(state)@.uni == state@.uni
            },
        forall|state: &mut DriverState<W, S, R>, created: Vec<(StreamId, S)>|
            #[trigger] call_ensures(DriverState::<W, S, R>::created_uni, (state,), created) ==> {
                &&& created@ == state@.uni.create && final(state)@.uni.create.len() == 0
                &&& final(state)@.uni.next == state@.uni.next && final(state)@.uni.capacity
                    == state@.uni.capacity
                &&& final(state)@.uni.waiting == state@.uni.waiting && final(state)@.bi == state@.bi
            },
        forall|state: &mut DriverState<W, S, R>, bi: u64, uni: u64, woken: (WaiterList, WaiterList)|
            #[trigger] call_ensures(DriverState::<W, S, R>::allow, (state, bi, uni), woken) ==> {
                &&& credited(state@.bi, final(state)@.bi, bi, registered(woken.0))
                &&& credited(state@.uni, final(state)@.uni, uni, registered(woken.1))
                &&& final(state)@.send == state@.send && final(state)@.recv == state@.recv
                &&& final(state)@.waker == state@.waker && same_connection(state@, final(state)@)
            },
{
    assert forall|state: &DriverState<W, S, R>, quiet: bool|
        #[trigger] call_ensures(DriverState::<W, S, R>::is_quiet, (state,), quiet) implies (quiet <==> {
        &&& state@.bi.create.len() == 0 && state@.uni.create.len() == 0
        &&& forall|id: u64| !#[trigger] state@.send.contains(id)
        &&& forall|id: u64| !#[trigger] state@.recv.contains(id)
    }) by {
        assert(state@.send =~= Set::<u64>::empty() <==> forall|id: u64| !#[trigger] state@.send.contains(id));
        assert(state@.recv =~= Set::<u64>::empty() <==> forall|id: u64| !#[trigger] state@.recv.contains(id));
    }
}

/// A connection is closed with what the application closed it with. The transport is told the
/// code and reason of the error, whoever it comes from, and a code of its own for one that has
/// none.
pub proof fn law_the_transport_is_told_why(error: ConnectionError, frame: (u64, String), sleep: bool, keep_alive: bool)
    requires
        call_ensures(close_frame, (error,), frame),
    ensures
        error matches ConnectionError::Local(code, reason) ==> frame.0 == code && frame.1 == reason,
        error matches ConnectionError::Remote(code, reason) ==> frame.0 == code && frame.1 == reason,
        error matches ConnectionError::Transport(failure) ==> frame.0 == 500 && frame.1 == failure.text,
        error matches ConnectionError::Unknown(reason) ==> frame.0 == 501 && frame.1 == reason,
        error is Dropped ==> frame.0 == 0x64726F70 && frame.1@ == "dropped"@,
        forall|outcome: Poll<Result<(), ConnectionError>>|
            #[trigger] call_ensures(pass_outcome, (sleep, keep_alive), outcome) ==> {
                &&& outcome is Pending <==> sleep && !keep_alive
                &&& !(outcome is Pending) ==> outcome == Poll::<Result<(), ConnectionError>>::Ready(Ok(()))
            },
{
}

/// A connection ends with what the application closed it with, if it did; or else with what
/// this side told the peer, or the peer told this one; or else with what went wrong. Everyone
/// who waits to hear of the end, or of the closing, is handed out.
pub proof fn law_the_end_is_told_by_whoever_knows_best<W, S, R>()
    ensures
        forall|
            state: &mut DriverState<W, S, R>,
            local: Option<(u64, Vec<u8>)>,
            peer: Option<(u64, Vec<u8>)>,
            failure: Option<String>,
            woken: (WaiterList, WaiterList),
        |
            #[trigger] call_ensures(
                DriverState::<W, S, R>::conclude,
                (state, local, peer, failure),
                woken,
            ) && state@.closed.error is None ==> {
                let end = final(state)@.closed.error;
                let asked = state@.close_requested.error;
                &&& end is Some
                &&& asked is Some ==> end == asked && final(state)@.close_requested.error == asked
                &&& asked is None ==> final(state)@.close_requested.error == end
                &&& asked is None && local is Some ==> end->0 is Local && end->0->Local_0 == (local->0).0
                    && end->0->Local_1@ == utf8_lossy((local->0).1@)
                &&& asked is None && local is None && peer is Some ==> end->0 is Remote && end->0->Remote_0
                    == (peer->0).0 && end->0->Remote_1@ == utf8_lossy((peer->0).1@)
                &&& asked is None && local is None && peer is None && failure is Some ==> end == Some(
                    ConnectionError::Unknown(failure->0),
                )
                &&& asked is None && local is None && peer is None && failure is None ==> end->0 is Unknown
                &&& registered(woken.0) == state@.closed.waiting
                &&& asked is None ==> registered(woken.1) == state@.close_requested.waiting
            },
{
}

/// A driver tracks the streams that it was given, and hands out the handles that it was given
/// with them. Retiring one half of a stream retires that half alone, and exactly if it was
/// closed. A stream that is not tracked was opened by the peer, and is of the kind that its
/// identifier tells.
pub proof fn law_a_driver_tracks_what_it_was_given<W, S, R>()
    ensures
        forall|driver: Driver<S, R>|
            #[trigger] call_ensures(Driver::<S, R>::new, (), driver) ==> forall|id: u64|
                !#[trigger] driver.senders().contains_key(id) && !driver.receivers().contains_key(id),
        forall|driver: &mut Driver<S, R>, id: StreamId, handles: (S, R)|
            #[trigger] call_ensures(Driver::<S, R>::track_bi, (driver, id, handles), ()) ==> {
                &&& final(driver).senders() == driver.senders().insert(id.0, handles.0)
                &&& final(driver).receivers() == driver.receivers().insert(id.0, handles.1)
            },
        forall|driver: &mut Driver<S, R>, id: StreamId, handle: S|
            #[trigger] call_ensures(Driver::<S, R>::track_uni, (driver, id, handle), ()) ==> {
                &&& final(driver).senders() == driver.senders().insert(id.0, handle)
                &&& final(driver).receivers() == driver.receivers()
            },
        forall|driver: &Driver<S, R>, id: StreamId, handle: Option<&S>|
            #[trigger] call_ensures(Driver::<S, R>::sender, (driver, id), handle) ==> {
                &&& handle is Some <==> driver.senders().contains_key(id.0)
                &&& handle is Some ==> *(handle->0) == driver.senders()[id.0]
            },
        forall|driver: &Driver<S, R>, id: StreamId, handle: Option<&R>|
            #[trigger] call_ensures(Driver::<S, R>::receiver, (driver, id), handle) ==> {
                &&& handle is Some <==> driver.receivers().contains_key(id.0)
                &&& handle is Some ==> *(handle->0) == driver.receivers()[id.0]
            },
        forall|driver: &Driver<S, R>, id: StreamId, step: ReadStep|
            #[trigger] call_ensures(Driver::<S, R>::readable, (driver, id), step) ==> {
                &&& step is Flush <==> driver.receivers().contains_key(id.0)
                &&& step is AcceptBi ==> id.0 % 4 < 2
                &&& step is AcceptUni ==> id.0 % 4 >= 2
            },
        forall|driver: &mut Driver<S, R>, id: StreamId, closed: bool|
            #[trigger] call_ensures(Driver::<S, R>::flushed_recv, (driver, id, closed), ()) ==> {
                &&& final(driver).senders() == driver.senders()
                &&& closed ==> final(driver).receivers() == driver.receivers().remove(id.0)
                &&& !closed ==> final(driver).receivers() == driver.receivers()
            },
        forall|driver: &mut Driver<S, R>, state: &mut DriverState<W, S, R>, id: StreamId, closed: bool|
            #[trigger] call_ensures(Driver::<S, R>::flushed_send::<W>, (driver, state, id, closed), ()) ==> {
                &&& final(driver).receivers() == driver.receivers()
                &&& closed ==> final(driver).senders() == driver.senders().remove(id.0)
                    && final(state)@.priorities.orders() == state@.priorities.orders().remove(id.0)
                &&& !closed ==> final(driver).senders() == driver.senders() && final(state)@ == state@
                &&& same_connection(state@, final(state)@)
            },
{
}

/// A stream that the peer opened is tracked with one pair of handles, and the application gets
/// the other, behind the streams that came before it; whoever waits for one is handed out.
pub proof fn law_an_accepted_stream_is_tracked_and_queued<W, S, R>()
    ensures
        forall|
            driver: &mut Driver<S, R>,
            state: &mut DriverState<W, S, R>,
            id: StreamId,
            kept: (S, R),
            given: (S, R),
            woken: WaiterList,
        |
            #[trigger] call_ensures(Driver::<S, R>::accept_bi::<W>, (driver, state, id, kept, given), woken)
                ==> {
                &&& final(driver).senders() == driver.senders().insert(id.0, kept.0)
                &&& final(driver).receivers() == driver.receivers().insert(id.0, kept.1)
                &&& final(state)@.accepted_bi.len() == state@.accepted_bi.len() + 1
                &&& final(state)@.accepted_bi.drop_last() =~= state@.accepted_bi
                &&& final(state)@.accepted_bi.last() == (id, given.0, given.1)
                &&& registered(woken) == state@.accept_bi
                &&& final(state)@.priorities.orders() == state@.priorities.orders().insert(id.0, 0)
            },
        forall|
            driver: &mut Driver<S, R>,
            state: &mut DriverState<W, S, R>,
            id: StreamId,
            kept: R,
            given: R,
            woken: WaiterList,
        |
            #[trigger] call_ensures(Driver::<S, R>::accept_uni::<W>, (driver, state, id, kept, given), woken)
                ==> {
                &&& final(driver).senders() == driver.senders()
                &&& final(driver).receivers() == driver.receivers().insert(id.0, kept)
                &&& final(state)@.accepted_uni.len() == state@.accepted_uni.len() + 1
                &&& final(state)@.accepted_uni.drop_last() =~= state@.accepted_uni
                &&& final(state)@.accepted_uni.last() == (id, given)
                &&& registered(woken) == state@.accept_uni
                &&& final(state)@.priorities == state@.priorities
            },
{
}

/// A connection tells what was settled: its protocol, its names and certificates, its
/// statistics, and the next identifiers.
pub proof fn law_a_connection_tells_what_was_settled<W, S, R>(state: &DriverState<W, S, R>)
    ensures
        forall|stats: ConnectionStats|
            #[trigger] call_ensures(DriverState::<W, S, R>::stats, (state,), stats) ==> stats == state@.stats,
        forall|alpn: Option<&[u8]>|
            #[trigger] call_ensures(DriverState::<W, S, R>::alpn, (state,), alpn) ==> {
                &&& alpn is None <==> state@.alpn is None
                &&& alpn is Some ==> alpn->0@ == state@.alpn->0@
            },
        forall|name: Option<&str>|
            #[trigger] call_ensures(DriverState::<W, S, R>::server_name, (state,), name) ==> {
                &&& name is None <==> state@.server_name is None
                &&& name is Some ==> name->0@ == state@.server_name->0@
            },
        forall|chain: Option<&Vec<Vec<u8>>>|
            #[trigger] call_ensures(DriverState::<W, S, R>::peer_certificates, (state,), chain) ==> {
                &&& chain is None <==> state@.certificates is None
                &&& chain is Some ==> *(chain->0) == state@.certificates->0
            },
        forall|id: StreamId|
            #[trigger] call_ensures(DriverState::<W, S, R>::next_bi, (state,), id) ==> id == state@.bi.next,
        forall|id: StreamId|
            #[trigger] call_ensures(DriverState::<W, S, R>::next_uni, (state,), id) ==> id == state@.uni.next,
        forall|id: StreamId, order: Option<i32>|
            #[trigger] call_ensures(DriverState::<W, S, R>::priority_of, (state, id), order) ==> {
                &&& order is Some <==> state@.priorities.orders().contains_key(id.0)
                &&& order is Some ==> order->0 == state@.priorities.orders()[id.0]
            },
        forall|server: bool, made: DriverState<W, S, R>|
            #[trigger] call_ensures(DriverState::<W, S, R>::new, (server,), made) ==> {
                &&& made@.bi.next.0 == (if server { 1int } else { 0 })
                &&& made@.uni.next.0 == (if server { 3int } else { 2 })
                &&& made@.bi.capacity == 0 && made@.uni.capacity == 0 && made@.quiet()
                &&& made@.failure() is None && !made@.established && made@.waker is None
                &&& made@.datagrams.len() + made@.accepted_bi.len() + made@.accepted_uni.len() == 0
            },
{
}

/// A pass closes the connection exactly if the application asked for it and the connection does
/// not drain already: with the code and reason that it asked for. Otherwise it runs once the
/// handshake is over, and waits until then; whoever drives it is told of a request to come.
pub proof fn law_a_pass_begins_with_the_request_to_close<W, S, R>()
    ensures
        forall|state: &mut DriverState<W, S, R>, waiter: &Waiter, draining: bool, established: bool, start: PassStart|
            #[trigger] call_ensures(
                DriverState::<W, S, R>::begin,
                (state, waiter, draining, established),
                start,
            ) ==> {
                let asked = state@.close_requested.error;
                &&& start is Close <==> !draining && asked is Some
                &&& start is Run <==> established && (draining || asked is None)
                &&& start is Wait <==> !established && (draining || asked is None)
                &&& start is Close && asked->0 is Local ==> start == PassStart::Close(
                    asked->0->Local_0,
                    asked->0->Local_1,
                )
                &&& start is Close && asked->0 is Dropped ==> start->Close_0 == 0x64726F70 && start->Close_1@
                    == "dropped"@
                &&& !draining && asked is None ==> final(state)@.close_requested.waiting.contains(
                    identity(*waiter),
                )
                &&& final(state)@.close_requested.error == asked && final(state)@.closed == state@.closed
                &&& same_work(state@, final(state)@)
            },
{
}

/// A connection that nobody closed, and of which nothing is known, ends with words that say so.
pub proof fn law_an_end_without_a_reason_says_so<W, S, R>()
    ensures
        forall|state: &mut DriverState<W, S, R>, woken: (WaiterList, WaiterList)|
            #[trigger] call_ensures(
                DriverState::<W, S, R>::conclude,
                (state, None::<(u64, Vec<u8>)>, None::<(u64, Vec<u8>)>, None::<String>),
                woken,
            ) && state@.closed.error is None && state@.close_requested.error is None ==> {
                &&& final(state)@.closed.error->0 is Unknown
                &&& final(state)@.closed.error->0->Unknown_0@ == "no error message"@
            },
{
}

/// A stream is ranked at zero when it is registered, and forgotten when it is retired; nothing
/// else of the connection changes, and every stream keeps getting the urgency that it is owed.
pub proof fn law_a_connection_keeps_its_streams_ranked<W, S, R>(applied: Map<u64, u8>)
    ensures
        forall|state: &mut DriverState<W, S, R>, id: StreamId|
            #[trigger] call_ensures(DriverState::<W, S, R>::register_send, (state, id), ()) ==> {
                &&& ranks(state@, final(state)@, state@.priorities.orders().insert(id.0, 0), applied)
                &&& final(state)@.waker == state@.waker
            },
        forall|state: &mut DriverState<W, S, R>, id: StreamId|
            #[trigger] call_ensures(DriverState::<W, S, R>::retire_send, (state, id), ()) ==> {
                &&& ranks(state@, final(state)@, state@.priorities.orders().remove(id.0), applied)
                &&& final(state)@.waker == state@.waker
            },
        forall|state: &mut DriverState<W, S, R>, id: StreamId, order: i32, waker: Option<W>|
            #[trigger] call_ensures(DriverState::<W, S, R>::set_priority, (state, id, order), waker) ==> ranks(
                state@,
                final(state)@,
                if state@.priorities.orders().contains_key(id.0) {
                    state@.priorities.orders().insert(id.0, order)
                } else {
                    state@.priorities.orders()
                },
                applied,
            ),
        forall|state: &DriverState<W, S, R>, id: StreamId, urgency: Option<u8>|
            #[trigger] call_ensures(DriverState::<W, S, R>::urgency_of, (state, id), urgency) ==> {
                &&& urgency is Some <==> state@.priorities.orders().contains_key(id.0)
                &&& urgency is Some ==> urgency->0 == owed(state@.priorities.orders(), id.0)
            },
{
    assert forall|state: &mut DriverState<W, S, R>, id: StreamId|
        #[trigger] call_ensures(DriverState::<W, S, R>::register_send, (state, id), ()) implies {
        &&& ranks(state@, final(state)@, state@.priorities.orders().insert(id.0, 0), applied)
        &&& final(state)@.waker == state@.waker
    } by {
        lemma_moved(&state@.priorities, &final(state)@.priorities, id, DEFAULT_PRIORITY, applied);
    }
    assert forall|state: &mut DriverState<W, S, R>, id: StreamId|
        #[trigger] call_ensures(DriverState::<W, S, R>::retire_send, (state, id), ()) implies {
        &&& ranks(state@, final(state)@, state@.priorities.orders().remove(id.0), applied)
        &&& final(state)@.waker == state@.waker
    } by {
        if state@.priorities.orders().contains_key(id.0) {
            lemma_dropped(&state@.priorities, &final(state)@.priorities, id, applied);
        } else {
            assert(state@.priorities.orders().remove(id.0) =~= state@.priorities.orders());
        }
    }
    assert forall|state: &mut DriverState<W, S, R>, id: StreamId, order: i32, waker: Option<W>|
        #[trigger] call_ensures(DriverState::<W, S, R>::set_priority, (state, id, order), waker) implies ranks(
        state@,
        final(state)@,
        if state@.priorities.orders().contains_key(id.0) {
            state@.priorities.orders().insert(id.0, order)
        } else {
            state@.priorities.orders()
        },
        applied,
    ) by {
        if state@.priorities.orders().contains_key(id.0) {
            lemma_moved(&state@.priorities, &final(state)@.priorities, id, order, applied);
        }
    }
    assert forall|state: &DriverState<W, S, R>, id: StreamId, urgency: Option<u8>|
        #[trigger] call_ensures(DriverState::<W, S, R>::urgency_of, (state, id), urgency) implies {
        &&& urgency is Some <==> state@.priorities.orders().contains_key(id.0)
        &&& urgency is Some ==> urgency->0 == owed(state@.priorities.orders(), id.0)
    } by {
        lemma_owed(state@.priorities.orders(), id.0);
    }
}

/// The streams of a connection are ranked anew, and nothing else of it changes.
pub open spec fn ranks<W, S, R>(
    before: DriverModel<W, S, R>,
    after: DriverModel<W, S, R>,
    orders: Map<u64, i32>,
    applied: Map<u64, u8>,
) -> bool {
    &&& after.priorities.orders() == orders
    &&& settled(before.priorities.orders(), before.priorities.updates(), applied) ==> settled(
        after.priorities.orders(),
        after.priorities.updates(),
        applied,
    )
    &&& same_connection(before, after) && before.stats == after.stats
    &&& before.send == after.send && before.recv == after.recv && before.bi == after.bi && before.uni
        == after.uni
}

/// The driver takes every update of a stream that it tracks, and no other: those stay for when
/// the transport has been told of their streams.
pub proof fn law_updates_wait_for_their_stream<W, S, R>(driver: &Driver<S, R>)
    ensures
        forall|state: &mut DriverState<W, S, R>, updates: Vec<(StreamId, u8)>|
            #[trigger] call_ensures(Driver::<S, R>::urgencies::<W>, (driver, state), updates) ==> {
                let (before, after) = (state@.priorities.updates(), final(state)@.priorities.updates());
                &&& forall|k: int|
                    0 <= k < updates@.len() ==> driver.senders().contains_key((#[trigger] updates@[k]).0.0)
                        && before.contains_key(updates@[k].0.0) && updates@[k].1 == before[updates@[k].0.0]
                &&& forall|id: u64| #[trigger]
                    before.contains_key(id) && driver.senders().contains_key(id) ==> !after.contains_key(id)
                        && exists|k: int| 0 <= k < updates@.len() && (#[trigger] updates@[k]).0.0 == id
                &&& forall|id: u64|
                    !driver.senders().contains_key(id) ==> (#[trigger] after.contains_key(id)
                        == before.contains_key(id)) && (before.contains_key(id) ==> after[id] == before[id])
                &&& forall|i: int, j: int| 0 <= i < j < updates@.len() ==> updates@[i].0 != updates@[j].0
                &&& final(state)@.priorities.orders() == state@.priorities.orders()
                &&& same_connection(state@, final(state)@) && final(state)@.waker == state@.waker
            },
{
    assert forall|state: &mut DriverState<W, S, R>, updates: Vec<(StreamId, u8)>|
        #[trigger] call_ensures(Driver::<S, R>::urgencies::<W>, (driver, state), updates) implies {
        let (before, after) = (state@.priorities.updates(), final(state)@.priorities.updates());
        &&& forall|k: int|
            0 <= k < updates@.len() ==> driver.senders().contains_key((#[trigger] updates@[k]).0.0)
                && before.contains_key(updates@[k].0.0) && updates@[k].1 == before[updates@[k].0.0]
        &&& forall|id: u64| #[trigger]
            before.contains_key(id) && driver.senders().contains_key(id) ==> !after.contains_key(id) && exists|
                k: int,
            |
                0 <= k < updates@.len() && (#[trigger] updates@[k]).0.0 == id
        &&& forall|id: u64|
            !driver.senders().contains_key(id) ==> (#[trigger] after.contains_key(id) == before.contains_key(id))
                && (before.contains_key(id) ==> after[id] == before[id])
        &&& forall|i: int, j: int| 0 <= i < j < updates@.len() ==> updates@[i].0 != updates@[j].0
        &&& final(state)@.priorities.orders() == state@.priorities.orders()
        &&& same_connection(state@, final(state)@) && final(state)@.waker == state@.waker
    } by {
        let (before, after) = (state@.priorities.updates(), final(state)@.priorities.updates());
        let (known, list) = (driver.senders(), updates@);
        assert forall|id: u64| #[trigger] after.index_opt(id) == (if known.contains_key(id) {
            None
        } else {
            before.index_opt(id)
        }) by {}
        assert forall|k: int| 0 <= k < list.len() implies known.contains_key((#[trigger] list[k]).0.0)
            && before.contains_key(list[k].0.0) && list[k].1 == before[list[k].0.0] by {
            assert forall|j: int| 0 <= j < k implies (#[trigger] list[j]).0 != list[k].0 by {}
            lemma_first_of(list, k);
            assert(first_update(list, list[k].0.0) is Some);
        }
        assert forall|id: u64| #[trigger]
            before.contains_key(id) && known.contains_key(id) implies !after.contains_key(id) && exists|k: int|
            0 <= k < list.len() && (#[trigger] list[k]).0.0 == id by {
            assert(after.index_opt(id) is None);
            assert(first_update(list, id) == before.index_opt(id));
            lemma_first_update(list, id);
        }
        assert forall|id: u64| !known.contains_key(id) implies (#[trigger] after.contains_key(id)
            == before.contains_key(id)) && (before.contains_key(id) ==> after[id] == before[id]) by {
            assert(after.index_opt(id) == before.index_opt(id));
        }
    }
}

/// The name of a server is the last one that was set, and setting it changes nothing else.
pub proof fn law_a_server_name_is_kept<W, S, R>()
    ensures
        forall|state: &mut DriverState<W, S, R>, name: Option<String>|
            #[trigger] call_ensures(DriverState::<W, S, R>::set_server_name, (state, name), ()) ==> {
                &&& final(state)@.server_name == name
                &&& final(state)@.alpn == state@.alpn && final(state)@.certificates == state@.certificates
                &&& same_work(state@, final(state)@)
            },
{
}

/// Somebody who waits on a connection that can be used is told as soon as it no longer can, and
/// waiting does not make it so.
pub open spec fn hears<W, S, R>(before: DriverModel<W, S, R>, after: DriverModel<W, S, R>, waiter: int) -> bool {
    &&& before.close_requested.error is None && before.closed.error is None
    &&& after.close_requested.error is None && after.closed.error is None
    &&& after.close_requested.waiting.contains(waiter) && after.closed.waiting.contains(waiter)
}

/// Whoever waits for a connection, to be established or for a stream or a datagram, waits only
/// while the connection can be used, and hears of it when it is closed or comes to its end.
pub proof fn law_whoever_waits_hears_of_a_failure<W, S: Clone, R: Clone, T, B, U>() where
    B: FnOnce(StreamId) -> (S, R),
    U: FnOnce(StreamId) -> S,

    ensures
        forall|state: &mut DriverState<W, S, R>, waiter: &Waiter, result: Poll<Result<(), ConnectionError>>|
            #[trigger] call_ensures(DriverState::<W, S, R>::poll_handshake, (state, waiter), result) && result is Pending
                ==> hears(state@, final(state)@, identity(*waiter)),
        forall|state: &mut DriverState<W, S, R>, waiter: &Waiter, result: Poll<Result<(StreamId, S, R), ConnectionError>>|
            #[trigger] call_ensures(DriverState::<W, S, R>::poll_accept_bi, (state, waiter), result) && result is Pending
                ==> hears(state@, final(state)@, identity(*waiter)),
        forall|state: &mut DriverState<W, S, R>, waiter: &Waiter, result: Poll<Result<(StreamId, R), ConnectionError>>|
            #[trigger] call_ensures(DriverState::<W, S, R>::poll_accept_uni, (state, waiter), result) && result is Pending
                ==> hears(state@, final(state)@, identity(*waiter)),
        forall|state: &mut DriverState<W, S, R>, waiter: &Waiter, result: Poll<Result<Bytes, ConnectionError>>|
            #[trigger] call_ensures(DriverState::<W, S, R>::poll_dgram_in, (state, waiter), result) && result is Pending
                ==> hears(state@, final(state)@, identity(*waiter)),
        forall|state: &mut DriverState<W, S, R>, waiter: &Waiter, result: Poll<Result<T, StreamError>>|
            #[trigger] call_ensures(DriverState::<W, S, R>::stream_error::<T>, (state, waiter), result) && result is Pending
                ==> hears(state@, final(state)@, identity(*waiter)),
        forall|state: &mut DriverState<W, S, R>, waiter: &Waiter, handles: B, result: Poll<Result<(Option<W>, StreamId, S, R), ConnectionError>>|
            #[trigger] call_ensures(DriverState::<W, S, R>::open_bi::<B>, (state, waiter, handles), result) && result is Pending
                ==> hears(state@, final(state)@, identity(*waiter)),
        forall|state: &mut DriverState<W, S, R>, waiter: &Waiter, handle: U, result: Poll<Result<(Option<W>, StreamId, S), ConnectionError>>|
            #[trigger] call_ensures(DriverState::<W, S, R>::open_uni::<U>, (state, waiter, handle), result) && result is Pending
                ==> hears(state@, final(state)@, identity(*waiter)),
{
}

} // verus!
