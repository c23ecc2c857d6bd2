//! What a connection reports of itself, and what ends it.

use kio::{Waiter, WaiterList};
use std::task::Poll;
use std::time::Duration;
use vstd::prelude::*;

use crate::waiters::{identity, registered};

verus! {

/// The errors of the transport that are told apart here.
#[derive(Clone, Copy, Debug, PartialEq, Eq, Structural)]
pub enum TransportErrorKind {
    /// There is nothing left to do, or no capacity to do it with.
    Done,
    /// The peer asked for the stream to stop, with this code.
    StreamStopped(u64),
    /// The transport does not know the stream any more.
    InvalidStreamState(u64),
    /// Anything else, which is an error of the whole connection.
    Other,
}

/// An error that the transport reported, with its description.
#[derive(Debug)]
pub struct TransportError {
    pub kind: TransportErrorKind,
    pub text: String,
}

impl Clone for TransportError {
    fn clone(&self) -> (copy: Self)
        ensures
            copy == *self,
    {
        TransportError { kind: self.kind, text: self.text.clone() }
    }
}

/// Why a connection ended.
#[derive(Debug)]
pub enum ConnectionError {
    /// The transport failed.
    Transport(TransportError),
    /// The peer closed the connection, with a code and a reason.
    Remote(u64, String),
    /// This side closed the connection, with a code and a reason.
    Local(u64, String),
    /// All handles of the connection were dropped without an explicit close.
    Dropped,
    /// Anything else, with its description.
    Unknown(String),
}

impl Clone for ConnectionError {
    fn clone(&self) -> (copy: Self)
        ensures
            copy == *self,
    {
        match self {
            ConnectionError::Transport(error) => ConnectionError::Transport(error.clone()),
            ConnectionError::Remote(code, reason) => ConnectionError::Remote(*code, reason.clone()),
            ConnectionError::Local(code, reason) => ConnectionError::Local(*code, reason.clone()),
            ConnectionError::Dropped => ConnectionError::Dropped,
            ConnectionError::Unknown(reason) => ConnectionError::Unknown(reason.clone()),
        }
    }
}

/// The counters that the transport keeps for a connection.
#[derive(Clone, Copy, Debug)]
pub struct TransportStats {
    pub sent_bytes: u64,
    pub recv_bytes: u64,
    pub lost_bytes: u64,
    pub sent: usize,
    pub recv: usize,
    pub lost: usize,
}

/// What the transport knows of a path.
#[derive(Clone, Copy, Debug)]
pub struct PathStats {
    /// The smoothed round-trip time.
    pub rtt: Duration,
    /// The estimated delivery rate, in bytes per second.
    pub delivery_rate: u64,
}

/// A point-in-time snapshot of connection statistics.
#[derive(Clone, Copy, Debug)]
pub struct ConnectionStats {
    /// Total bytes sent, including retransmissions and overhead.
    pub bytes_sent: u64,
    /// Total bytes received, including duplicates and overhead.
    pub bytes_received: u64,
    /// Total bytes detected as lost.
    pub bytes_lost: u64,
    /// Total packets sent.
    pub packets_sent: u64,
    /// Total packets received.
    pub packets_received: u64,
    /// Total packets detected as lost.
    pub packets_lost: u64,
    /// Smoothed round-trip time for the active path, if one is established.
    pub rtt: Option<Duration>,
    /// Estimated send rate in bits per second, if a path is established.
    pub send_rate: Option<u64>,
}

/// Bytes per second as bits per second, as far as they can be told.
pub open spec fn bits_per_second(bytes: u64) -> u64 {
    if bytes * 8 <= u64::MAX {
        (bytes * 8) as u64
    } else {
        u64::MAX
    }
}

impl ConnectionStats {
    /// Snapshot the counters of a connection. The active path carries the round-trip
    /// time and the delivery rate.
    pub fn from_transport(stats: TransportStats, path: Option<PathStats>) -> (snapshot: Self)
        ensures
            snapshot == (ConnectionStats {
                bytes_sent: stats.sent_bytes,
                bytes_received: stats.recv_bytes,
                bytes_lost: stats.lost_bytes,
                packets_sent: stats.sent as u64,
                packets_received: stats.recv as u64,
                packets_lost: stats.lost as u64,
                rtt: match path {
                    Some(path) => Some(path.rtt),
                    None => None,
                },
                send_rate: match path {
                    Some(path) => Some(bits_per_second(path.delivery_rate)),
                    None => None,
                },
            }),
    {
        ConnectionStats {
            bytes_sent: stats.sent_bytes,
            bytes_received: stats.recv_bytes,
            bytes_lost: stats.lost_bytes,
            packets_sent: stats.sent as u64,
            packets_received: stats.recv as u64,
            packets_lost: stats.lost as u64,
            rtt: match path {
                Some(path) => Some(path.rtt),
                None => None,
            },
            send_rate: match path {
                Some(path) => match path.delivery_rate.checked_mul(8) {
                    Some(rate) => Some(rate),
                    None => Some(u64::MAX),
                },
                None => None,
            },
        }
    }
}

impl Default for ConnectionStats {
    fn default() -> (snapshot: Self)
        ensures
            snapshot == (ConnectionStats {
                bytes_sent: 0,
                bytes_received: 0,
                bytes_lost: 0,
                packets_sent: 0,
                packets_received: 0,
                packets_lost: 0,
                rtt: None,
                send_rate: None,
            }),
    {
        ConnectionStats {
            bytes_sent: 0,
            bytes_received: 0,
            bytes_lost: 0,
            packets_sent: 0,
            packets_received: 0,
            packets_lost: 0,
            rtt: None,
            send_rate: None,
        }
    }
}

/// The first error that something ended with, and everyone waiting to hear of it.
///
/// Every blocked read, write, accept and handshake parks here, so this is the list that
/// most needs weak registrations: a caller that gives up releases its slot.
#[derive(Debug)]
pub struct ConnectionClosed {
    err: Option<ConnectionError>,
    waiters: WaiterList,
}

/// What a [`ConnectionClosed`] holds.
pub struct ClosedModel {
    pub error: Option<ConnectionError>,
    pub waiting: Set<int>,
}

/// Whoever waits on a list once `waiter` has been registered with it: that one, and
/// nobody who was not waiting before.
pub open spec fn joined(before: Set<int>, after: Set<int>, waiter: Waiter) -> bool {
    &&& after.contains(identity(waiter))
    &&& after.subset_of(before.insert(identity(waiter)))
}

impl ClosedModel {
    /// A poll for the error: it is reported if there is one, and waited for otherwise.
    pub open spec fn polled(self, after: ClosedModel, waiter: Waiter, result: Poll<ConnectionError>) -> bool {
        match self.error {
            Some(error) => result == Poll::Ready(error) && after == self,
            None => {
                &&& result is Pending
                &&& after.error is None
                &&& joined(self.waiting, after.waiting, waiter)
            },
        }
    }

    /// An abort: the first one sets the error and takes everyone who waits for it.
    pub open spec fn aborted(self, after: ClosedModel, error: ConnectionError, woken: WaiterList) -> bool {
        match self.error {
            Some(_) => after == self && registered(woken) == Set::<int>::empty(),
            None => {
                &&& after.error == Some(error)
                &&& after.waiting == Set::<int>::empty()
                &&& registered(woken) == self.waiting
            },
        }
    }
}

impl View for ConnectionClosed {
    type V = ClosedModel;

    closed spec fn view(&self) -> ClosedModel {
        ClosedModel { error: self.err, waiting: registered(self.waiters) }
    }
}

impl ConnectionClosed {
    /// Not closed, with nobody waiting.
    pub fn new() -> (closed: Self)
        ensures
            closed@.error is None,
            closed@.waiting == Set::<int>::empty(),
    {
        ConnectionClosed { err: None, waiters: WaiterList::new() }
    }

    /// Close with an error, unless it is closed already, handing out the waiters to
    /// wake.
    pub fn abort(&mut self, err: ConnectionError) -> (woken: WaiterList)
        ensures
            old(self)@.aborted(final(self)@, err, woken),
    {
        if self.err.is_some() {
            return WaiterList::new();
        }
        self.err = Some(err);
        self.waiters.take()
    }

    /// Poll until it is closed.
    pub fn poll(&mut self, waiter: &Waiter) -> (result: Poll<ConnectionError>)
        ensures
            old(self)@.polled(final(self)@, *waiter, result),
    {
        if let Some(err) = &self.err {
            return Poll::Ready(err.clone());
        }
        self.waiters.register(waiter);
        Poll::Pending
    }

    /// The error that it was closed with.
    pub fn error(&self) -> (error: Option<ConnectionError>)
        ensures
            error == self@.error,
    {
        match &self.err {
            Some(err) => Some(err.clone()),
            None => None,
        }
    }

    /// Whether it is closed.
    pub fn is_closed(&self) -> (closed: bool)
        ensures
            closed == (self@.error is Some),
    {
        self.err.is_some()
    }
}

impl Default for ConnectionClosed {
    fn default() -> (closed: Self)
        ensures
            closed@.error is None,
            closed@.waiting == Set::<int>::empty(),
    {
        ConnectionClosed::new()
    }
}

/// The first error stands: whatever a connection is aborted with later, whoever polls is
/// told the first.
pub proof fn law_the_first_error_stands(
    open: ClosedModel,
    closed: ClosedModel,
    again: ClosedModel,
    polled: ClosedModel,
    first: ConnectionError,
    second: ConnectionError,
    woken: WaiterList,
    late: WaiterList,
    waiter: Waiter,
    result: Poll<ConnectionError>,
)
    requires
        open.error is None,
        open.aborted(closed, first, woken),
        closed.aborted(again, second, late),
        again.polled(polled, waiter, result),
    ensures
        result == Poll::Ready(first),
        polled.error == Some(first),
{
}

/// Whoever waits to hear of the end is woken by it: a waiter registered by a poll is
/// among those that the abort hands out.
pub proof fn law_a_parked_waiter_is_woken_by_the_abort(
    before: ClosedModel,
    parked: ClosedModel,
    after: ClosedModel,
    waiter: Waiter,
    error: ConnectionError,
    woken: WaiterList,
)
    requires
        before.polled(parked, waiter, Poll::Pending),
        parked.aborted(after, error, woken),
    ensures
        registered(woken).contains(identity(waiter)),
{
}

/// What came of handing a datagram to the queue that the driver drains.
pub enum DatagramOutcome {
    /// It was queued.
    Queued,
    /// There was no room for it.
    Full,
    /// The driver is gone.
    Disconnected,
}

/// The outcome of sending a datagram, and whether the driver has to be woken for it.
///
/// Datagrams are unreliable: one that finds the queue full is dropped, so that
/// backpressure surfaces as packet loss.
pub fn send_datagram(outcome: DatagramOutcome) -> (result: Result<bool, ConnectionError>)
    ensures
        result == (match outcome {
            DatagramOutcome::Queued => Ok(true),
            DatagramOutcome::Full => Ok(false),
            DatagramOutcome::Disconnected => Err(ConnectionError::Dropped),
        }),
{
    match outcome {
        DatagramOutcome::Queued => Ok(true),
        DatagramOutcome::Full => Ok(false),
        DatagramOutcome::Disconnected => Err(ConnectionError::Dropped),
    }
}

/// The largest datagram that can be sent, given the size that was published: zero means
/// that the peer takes no datagrams.
pub fn max_datagram_size(published: usize) -> (size: Option<usize>)
    ensures
        size == if published == 0 {
            None
        } else {
            Some(published)
        },
{
    if published == 0 {
        None
    } else {
        Some(published)
    }
}

/// A snapshot counts what the transport counted, each thing for itself. The rate is that of
/// the path in bits, eight to the byte, or the most that can be told; without a path there is
/// none, nor a round trip.
pub proof fn law_a_snapshot_counts_what_the_transport_counted(
    stats: TransportStats,
    path: Option<PathStats>,
    snapshot: ConnectionStats,
)
    requires
        call_ensures(ConnectionStats::from_transport, (stats, path), snapshot),
    ensures
        snapshot.bytes_sent == stats.sent_bytes && snapshot.bytes_received == stats.recv_bytes,
        snapshot.bytes_lost == stats.lost_bytes && snapshot.packets_sent == stats.sent,
        snapshot.packets_received == stats.recv && snapshot.packets_lost == stats.lost,
        snapshot.rtt is Some <==> path is Some,
        snapshot.send_rate is Some <==> path is Some,
        path is Some ==> snapshot.rtt->0 == (path->0).rtt,
        path is Some && (path->0).delivery_rate <= u64::MAX / 8 ==> snapshot.send_rate->0 == 8
            * (path->0).delivery_rate,
        path is Some && (path->0).delivery_rate > u64::MAX / 8 ==> snapshot.send_rate->0 == u64::MAX,
{
}

/// Nothing has been counted at first.
pub proof fn law_nothing_is_counted_at_first(snapshot: ConnectionStats)
    requires
        call_ensures(ConnectionStats::default, (), snapshot),
    ensures
        snapshot.bytes_sent + snapshot.bytes_received + snapshot.bytes_lost == 0,
        snapshot.packets_sent + snapshot.packets_received + snapshot.packets_lost == 0,
        snapshot.rtt is None && snapshot.send_rate is None,
{
}

/// The first error that something is closed with stands, and everyone who waited for it is
/// handed out by it; a later one changes nothing and wakes nobody. Whoever polls is told the
/// error if there is one, and otherwise waits, without driving out others that still do.
pub proof fn law_everyone_is_told_the_first_error()
    ensures
        forall|closed: &mut ConnectionClosed, err: ConnectionError, woken: WaiterList|
            #[trigger] call_ensures(ConnectionClosed::abort, (closed, err), woken) ==> {
                &&& closed@.error is None ==> final(closed)@.error == Some(err) && registered(woken)
                    == closed@.waiting && final(closed)@.waiting =~= Set::<int>::empty()
                &&& closed@.error is Some ==> final(closed)@.error == closed@.error && registered(woken)
                    =~= Set::<int>::empty() && final(closed)@.waiting == closed@.waiting
            },
        forall|closed: &mut ConnectionClosed, waiter: &Waiter, result: Poll<ConnectionError>|
            #[trigger] call_ensures(ConnectionClosed::poll, (closed, waiter), result) ==> {
                &&& final(closed)@.error == closed@.error
                &&& result is Pending <==> closed@.error is None
                &&& forall|error: ConnectionError|
                    result == Poll::Ready(error) <==> closed@.error == Some(error)
                &&& result is Pending ==> final(closed)@.waiting.contains(identity(*waiter))
                &&& forall|other: int| #[trigger]
                    final(closed)@.waiting.contains(other) ==> other == identity(*waiter)
                        || closed@.waiting.contains(other)
            },
        forall|closed: &ConnectionClosed, error: Option<ConnectionError>|
            #[trigger] call_ensures(ConnectionClosed::error, (closed,), error) ==> error == closed@.error,
        forall|closed: &ConnectionClosed, is: bool|
            #[trigger] call_ensures(ConnectionClosed::is_closed, (closed,), is) ==> (is
                <==> closed@.error is Some),
        forall|closed: ConnectionClosed|
            #[trigger] call_ensures(ConnectionClosed::new, (), closed) ==> closed@.error is None
                && closed@.waiting =~= Set::<int>::empty(),
{
}

/// A datagram that finds no room is dropped without an error, and the driver is woken exactly
/// for one that was queued; only a driver that is gone is an error. The peer takes datagrams
/// exactly if it published a size for them, which is then the limit.
pub proof fn law_a_full_queue_drops_datagrams_silently(
    outcome: DatagramOutcome,
    result: Result<bool, ConnectionError>,
    published: usize,
    size: Option<usize>,
)
    requires
        call_ensures(send_datagram, (outcome,), result),
        call_ensures(max_datagram_size, (published,), size),
    ensures
        result == Ok::<bool, ConnectionError>(true) <==> outcome is Queued,
        result == Ok::<bool, ConnectionError>(false) <==> outcome is Full,
        result is Err <==> outcome is Disconnected,
        result is Err ==> result->Err_0 is Dropped,
        size is None <==> published == 0,
        size is Some ==> size->0 == published,
{
}

/// A clone of an error is the same error.
pub proof fn law_a_cloned_error_is_the_same()
    ensures
        forall|error: ConnectionError, copy: ConnectionError|
            #[trigger] call_ensures(<ConnectionError as Clone>::clone, (&error,), copy) ==> copy == error,
        forall|error: TransportError, copy: TransportError|
            #[trigger] call_ensures(<TransportError as Clone>::clone, (&error,), copy) ==> copy == error,
        forall|closed: ConnectionClosed|
            #[trigger] call_ensures(<ConnectionClosed as Default>::default, (), closed) ==> closed@.error is None
                && (forall|x: int| !#[trigger] closed@.waiting.contains(x)),
{
}

} // verus!
