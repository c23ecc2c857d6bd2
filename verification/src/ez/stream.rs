//! Stream identifiers, and what ends a stream.

use vstd::prelude::*;
use vstd::std_specs::convert::FromSpecImpl;

use crate::ez::connection::ConnectionError;

verus! {

/// A QUIC stream identifier.
///
/// The low bit names the initiator (clear for the client, set for the server) and
/// the bit above it the direction (clear for bidirectional, set for
/// unidirectional). The remaining bits count the streams of that kind.
#[derive(Clone, Copy, Debug, PartialEq, Eq, Structural, PartialOrd, Ord, Hash)]
pub struct StreamId(pub u64);

impl StreamId {
    /// Whether the identifier names a bidirectional stream.
    pub open spec fn bi(self) -> bool {
        (self.0 / 2) % 2 == 0
    }

    /// Whether the server initiates the stream.
    pub open spec fn by_server(self) -> bool {
        self.0 % 2 == 1
    }

    /// The first stream of a kind: who initiates it, and in which direction it runs.
    pub open spec fn of_kind(server: bool, bi: bool) -> StreamId {
        StreamId(
            (if server {
                1u64
            } else {
                0
            } + if bi {
                0
            } else {
                2u64
            }) as u64,
        )
    }

    /// The first stream of a kind: who initiates it, and in which direction it runs.
    pub fn first(server: bool, bi: bool) -> (id: StreamId)
        ensures
            id == StreamId::of_kind(server, bi),
            id.bi() == bi,
            id.by_server() == server,
    {
        if bi {
            if server {
                StreamId(1)
            } else {
                StreamId(0)
            }
        } else {
            if server {
                StreamId(3)
            } else {
                StreamId(2)
            }
        }
    }

    /// Hand out this identifier and move on to the next one of the same kind.
    pub fn increment(&mut self) -> (id: StreamId)
        requires
            old(self).0 + 4 <= u64::MAX,
        ensures
            id == *old(self),
            final(self).0 == old(self).0 + 4,
            final(self).bi() == old(self).bi(),
            final(self).by_server() == old(self).by_server(),
    {
        let id = *self;
        self.0 = self.0 + 4;
        id
    }

    /// Whether the stream carries data both ways.
    pub fn is_bi(&self) -> (bi: bool)
        ensures
            bi == self.bi(),
    {
        (self.0 / 2) % 2 == 0
    }

    /// Whether the stream carries data one way only.
    pub fn is_uni(&self) -> (uni: bool)
        ensures
            uni == !self.bi(),
    {
        !self.is_bi()
    }
}

impl From<u64> for StreamId {
    fn from(id: u64) -> (result: StreamId) {
        StreamId(id)
    }
}

impl FromSpecImpl<u64> for StreamId {
    open spec fn obeys_from_spec() -> bool {
        true
    }

    open spec fn from_spec(id: u64) -> StreamId {
        StreamId(id)
    }
}

impl From<StreamId> for u64 {
    fn from(id: StreamId) -> (result: u64) {
        id.0
    }
}

impl FromSpecImpl<StreamId> for u64 {
    open spec fn obeys_from_spec() -> bool {
        true
    }

    open spec fn from_spec(id: StreamId) -> u64 {
        id.0
    }
}

/// Why a stream can no longer be used.
#[derive(Debug)]
pub enum StreamError {
    /// The connection ended.
    Connection(ConnectionError),
    /// The sender reset the stream, with this code.
    Reset(u64),
    /// The receiver asked for the stream to stop, with this code.
    Stop(u64),
    /// The stream was finished, or the transport has discarded it.
    Closed,
}

impl From<ConnectionError> for StreamError {
    fn from(error: ConnectionError) -> (result: StreamError) {
        StreamError::Connection(error)
    }
}

impl FromSpecImpl<ConnectionError> for StreamError {
    open spec fn obeys_from_spec() -> bool {
        true
    }

    open spec fn from_spec(error: ConnectionError) -> StreamError {
        StreamError::Connection(error)
    }
}

/// The two low bits of an identifier tell its kind, and nothing else does: every identifier
/// is that of the first stream of its kind plus a multiple of four.
pub proof fn law_the_low_bits_tell_the_kind(id: StreamId, server: bool, bi: bool, first: StreamId)
    requires
        call_ensures(StreamId::first, (server, bi), first),
    ensures
        first.0 < 4,
        first.0 % 2 == 1 <==> server,
        first.0 >= 2 <==> !bi,
        id.0 % 4 == first.0 <==> (id.0 % 2 == 1) == server && (id.0 % 4 < 2) == bi,
        forall|is: bool| #[trigger] call_ensures(StreamId::is_bi, (&id,), is) ==> (is <==> id.0 % 4 < 2),
        forall|is: bool| #[trigger] call_ensures(StreamId::is_uni, (&id,), is) ==> (is <==> id.0 % 4 >= 2),
{
}

/// The identifiers that are handed out one after the other differ, grow and stay of their
/// kind: the next one is four further on, the least that is of the same kind.
pub proof fn law_identifiers_grow_within_their_kind()
    ensures
        forall|id: &mut StreamId, given: StreamId|
            #[trigger] call_ensures(StreamId::increment, (id,), given) && id.0 + 4 <= u64::MAX ==> {
                &&& given == *id
                &&& final(id).0 == id.0 + 4
                &&& final(id).0 % 4 == id.0 % 4
            },
{
}

/// An identifier is its number, and an error of the connection stays what it is.
pub proof fn law_conversions_keep_what_they_convert(number: u64, id: StreamId, error: ConnectionError)
    ensures
        forall|made: StreamId|
            #[trigger] call_ensures(<StreamId as From<u64>>::from, (number,), made) ==> made.0 == number,
        forall|made: u64|
            #[trigger] call_ensures(<u64 as From<StreamId>>::from, (id,), made) ==> made == id.0,
        forall|made: StreamError|
            #[trigger] call_ensures(<StreamError as From<ConnectionError>>::from, (error,), made) ==> made
                == StreamError::Connection(error),
{
}

} // verus!
