//! How a session ends.
//!
//! Either side ends a session with a capsule on the stream of its request, and the
//! connection is closed after it. The first end that is recorded is the one that every
//! operation reports.

use vstd::prelude::*;
use vstd::std_specs::convert::FromSpecImpl;
use web_transport_proto::error_to_http3;

use crate::proto::{
    close_capsule, encode_close, frame_data, from_big_endian, http3_error,
    law_a_close_capsule_holds_its_code_and_reason, law_a_varint_is_read_back, put_varint, varint_at,
    varint_bytes, varint_len, VARINT_LIMIT,
};
use crate::session::headers::UnknownSession;
use crate::text::{from_utf8_lossy, utf8_lossy};
use crate::traits::error::Error;

verus! {

/// Why a connection was lost.
#[derive(Debug)]
pub enum ConnectionLost {
    /// The peer does not speak the version.
    VersionMismatch,
    /// The peer broke the protocol.
    TransportError(String),
    /// The peer's transport closed the connection.
    ConnectionClosed(String),
    /// The peer's application closed the connection.
    ApplicationClosed(String),
    /// The peer no longer knows the connection.
    Reset,
    /// The peer has been silent for too long.
    TimedOut,
    /// This side closed the connection.
    LocallyClosed,
    /// There are no identifiers left for more connections.
    CidsExhausted,
}

/// What went wrong with a session, rather than with its connection.
#[derive(Debug)]
pub enum WebTransportError {
    /// The peer named a session that there is none of.
    UnknownSession,
    /// The peer closed the session, with a code and a reason.
    Closed(u32, String),
    /// The header of a stream could not be written.
    WriteError(String),
}

/// Why a datagram was not sent.
#[derive(Debug)]
pub enum SendDatagramError {
    /// The peer takes none.
    UnsupportedByPeer,
    /// This side sends none.
    Disabled,
    /// It was too large.
    TooLarge,
    /// The connection was lost.
    ConnectionLost(ConnectionLost),
}

/// Why an operation of a session failed.
#[derive(Debug)]
pub enum SessionError {
    ConnectionError(ConnectionLost),
    WebTransportError(WebTransportError),
    SendDatagramError(SendDatagramError),
}

impl Clone for ConnectionLost {
    fn clone(&self) -> (copy: Self)
        ensures
            copy == *self,
    {
        match self {
            ConnectionLost::VersionMismatch => ConnectionLost::VersionMismatch,
            ConnectionLost::TransportError(text) => ConnectionLost::TransportError(text.clone()),
            ConnectionLost::ConnectionClosed(text) => ConnectionLost::ConnectionClosed(text.clone()),
            ConnectionLost::ApplicationClosed(text) => ConnectionLost::ApplicationClosed(text.clone()),
            ConnectionLost::Reset => ConnectionLost::Reset,
            ConnectionLost::TimedOut => ConnectionLost::TimedOut,
            ConnectionLost::LocallyClosed => ConnectionLost::LocallyClosed,
            ConnectionLost::CidsExhausted => ConnectionLost::CidsExhausted,
        }
    }
}

impl Clone for WebTransportError {
    fn clone(&self) -> (copy: Self)
        ensures
            copy == *self,
    {
        match self {
            WebTransportError::UnknownSession => WebTransportError::UnknownSession,
            WebTransportError::Closed(code, reason) => WebTransportError::Closed(*code, reason.clone()),
            WebTransportError::WriteError(text) => WebTransportError::WriteError(text.clone()),
        }
    }
}

impl Clone for SendDatagramError {
    fn clone(&self) -> (copy: Self)
        ensures
            copy == *self,
    {
        match self {
            SendDatagramError::UnsupportedByPeer => SendDatagramError::UnsupportedByPeer,
            SendDatagramError::Disabled => SendDatagramError::Disabled,
            SendDatagramError::TooLarge => SendDatagramError::TooLarge,
            SendDatagramError::ConnectionLost(error) => SendDatagramError::ConnectionLost(error.clone()),
        }
    }
}

impl Clone for SessionError {
    fn clone(&self) -> (copy: Self)
        ensures
            copy == *self,
    {
        match self {
            SessionError::ConnectionError(error) => SessionError::ConnectionError(error.clone()),
            SessionError::WebTransportError(error) => SessionError::WebTransportError(error.clone()),
            SessionError::SendDatagramError(error) => SessionError::SendDatagramError(error.clone()),
        }
    }
}

impl From<ConnectionLost> for SessionError {
    fn from(error: ConnectionLost) -> (result: SessionError) {
        SessionError::ConnectionError(error)
    }
}

impl FromSpecImpl<ConnectionLost> for SessionError {
    open spec fn obeys_from_spec() -> bool {
        true
    }

    open spec fn from_spec(error: ConnectionLost) -> SessionError {
        SessionError::ConnectionError(error)
    }
}

impl From<WebTransportError> for SessionError {
    fn from(error: WebTransportError) -> (result: SessionError) {
        SessionError::WebTransportError(error)
    }
}

impl FromSpecImpl<WebTransportError> for SessionError {
    open spec fn obeys_from_spec() -> bool {
        true
    }

    open spec fn from_spec(error: WebTransportError) -> SessionError {
        SessionError::WebTransportError(error)
    }
}

impl From<SendDatagramError> for SessionError {
    fn from(error: SendDatagramError) -> (result: SessionError) {
        SessionError::SendDatagramError(error)
    }
}

impl FromSpecImpl<SendDatagramError> for SessionError {
    open spec fn obeys_from_spec() -> bool {
        true
    }

    open spec fn from_spec(error: SendDatagramError) -> SessionError {
        SessionError::SendDatagramError(error)
    }
}

impl From<UnknownSession> for SessionError {
    fn from(error: UnknownSession) -> (result: SessionError) {
        SessionError::WebTransportError(WebTransportError::UnknownSession)
    }
}

impl FromSpecImpl<UnknownSession> for SessionError {
    open spec fn obeys_from_spec() -> bool {
        true
    }

    open spec fn from_spec(error: UnknownSession) -> SessionError {
        SessionError::WebTransportError(WebTransportError::UnknownSession)
    }
}

impl Error for SessionError {
    /// The code and reason that the session was closed with, where that is what went wrong.
    fn session_error(&self) -> (result: Option<(u32, String)>)
        ensures
            result == match *self {
                SessionError::WebTransportError(WebTransportError::Closed(code, reason)) => Some(
                    (code, reason),
                ),
                _ => None,
            },
    {
        match self {
            SessionError::WebTransportError(WebTransportError::Closed(code, reason)) => Some(
                (*code, reason.clone()),
            ),
            _ => None,
        }
    }
}

/// Whether an error is about the end of the session or its connection, rather than about
/// the operation that failed.
pub open spec fn is_end(error: SessionError) -> bool {
    match error {
        SessionError::ConnectionError(_) => true,
        SessionError::WebTransportError(error) => error is Closed,
        SessionError::SendDatagramError(error) => error is ConnectionLost,
    }
}

/// What an operation reports that failed with an error.
pub open spec fn reported(stored: Option<SessionError>, error: SessionError) -> SessionError {
    if stored is Some && is_end(error) {
        stored->0
    } else {
        error
    }
}

/// Replace an error about the connection with how the session ended, if it has.
pub fn map_error_with(stored: Option<&SessionError>, error: SessionError) -> (result: SessionError)
    ensures
        result == reported(
            match stored {
                Some(end) => Some(*end),
                None => None,
            },
            error,
        ),
{
    if let Some(end) = stored {
        let about_end = match &error {
            SessionError::ConnectionError(_) => true,
            SessionError::WebTransportError(WebTransportError::Closed(_, _)) => true,
            SessionError::SendDatagramError(SendDatagramError::ConnectionLost(_)) => true,
            _ => false,
        };
        if about_end {
            return end.clone();
        }
    }
    error
}

/// The error of a header that could not be written: that of the connection if it was
/// lost, or else what the stream has to say.
pub fn write_failed(lost: Option<ConnectionLost>, text: String) -> (error: SessionError)
    ensures
        error == match lost {
            Some(lost) => SessionError::ConnectionError(lost),
            None => SessionError::WebTransportError(WebTransportError::WriteError(text)),
        },
{
    match lost {
        Some(lost) => SessionError::ConnectionError(lost),
        None => SessionError::WebTransportError(WebTransportError::WriteError(text)),
    }
}

/// What was read from the stream of the request.
pub enum CapsuleEvent {
    /// The capsule that closes the session, with a code and a reason.
    Close(u32, String),
    /// A capsule that means nothing, on purpose.
    Grease,
    /// A capsule of a type that is not known.
    Unknown,
    /// The end of the stream.
    End,
    /// Something that is no capsule.
    Failed,
}

/// What to do about it.
pub enum CapsuleStep {
    /// Read the next capsule.
    Read,
    /// Stop reading. The session was closed with this code and reason, if it was.
    Stop(Option<(u32, String)>),
}

/// Look at a capsule: the session goes on until it is closed, or until there are no more
/// capsules.
pub fn read_capsules(event: CapsuleEvent) -> (step: CapsuleStep)
    ensures
        step == match event {
            CapsuleEvent::Close(code, reason) => CapsuleStep::Stop(Some((code, reason))),
            CapsuleEvent::Grease => CapsuleStep::Read,
            CapsuleEvent::Unknown => CapsuleStep::Read,
            CapsuleEvent::End => CapsuleStep::Stop(None),
            CapsuleEvent::Failed => CapsuleStep::Stop(None),
        },
{
    match event {
        CapsuleEvent::Close(code, reason) => CapsuleStep::Stop(Some((code, reason))),
        CapsuleEvent::Grease | CapsuleEvent::Unknown => CapsuleStep::Read,
        CapsuleEvent::End | CapsuleEvent::Failed => CapsuleStep::Stop(None),
    }
}

/// Look at a capsule where anything that is no capsule ends the session with an error,
/// and the end of the stream does not end it.
pub fn run_closed(event: CapsuleEvent) -> (step: CapsuleStep)
    ensures
        match event {
            CapsuleEvent::Close(code, reason) => step == CapsuleStep::Stop(Some((code, reason))),
            CapsuleEvent::Grease => step is Read,
            CapsuleEvent::Unknown => step is Read,
            CapsuleEvent::End => step == CapsuleStep::Stop(None),
            CapsuleEvent::Failed => step matches CapsuleStep::Stop(Some((code, reason))) && code == 500
                && reason@ == "capsule error"@,
        },
{
    match event {
        CapsuleEvent::Close(code, reason) => CapsuleStep::Stop(Some((code, reason))),
        CapsuleEvent::Grease | CapsuleEvent::Unknown => CapsuleStep::Read,
        CapsuleEvent::End => CapsuleStep::Stop(None),
        CapsuleEvent::Failed => CapsuleStep::Stop(Some((500, "capsule error".to_owned()))),
    }
}

/// The frame that carries a capsule on the stream of the request.
pub open spec fn data_frame(capsule: Seq<u8>) -> Seq<u8> {
    varint_bytes(0x00) + varint_bytes(capsule.len() as u64) + capsule
}

/// The frame that closes a session, unless the capsule in it is too large.
pub fn close_frame(code: u32, reason: String) -> (frame: Option<Vec<u8>>)
    ensures
        ({
            let capsule = close_capsule(code, vstd::utf8::encode_utf8(reason@));
            if capsule.len() < VARINT_LIMIT {
                frame matches Some(bytes) && bytes@ == data_frame(capsule)
            } else {
                frame is None
            }
        }),
{
    let capsule = encode_close(code, reason);
    let len: u64 = capsule.len() as u64;
    if len >= VARINT_LIMIT {
        return None;
    }
    let mut frame: Vec<u8> = Vec::new();
    put_varint(&mut frame, frame_data());
    put_varint(&mut frame, len);
    frame.extend_from_slice(capsule.as_slice());
    assert(frame@ =~= data_frame(capsule@));
    Some(frame)
}

/// What to do to close a session.
pub enum CloseStep<S> {
    /// Nothing: it has ended already, or is ending.
    Nothing,
    /// Close the connection with a code and a reason.
    Connection(u64, Vec<u8>),
    /// Write a frame to the stream of the request and finish it, wait for the peer to
    /// close the connection, and close it with a code if that does not come about.
    /// Without a frame, close it at once.
    Capsule(S, Option<Vec<u8>>, u64),
}

/// What came of asking the peer to close the connection.
#[derive(Clone, Copy, Debug, PartialEq, Eq, Structural)]
pub enum GracefulOutcome {
    /// The frame could not be written.
    WriteFailed,
    /// The stream could not be finished.
    FinishFailed,
    /// The peer closed the connection.
    PeerClosed,
    /// The peer took too long.
    TimedOut,
}

/// Whether this side has to close the connection itself.
pub fn close_with_capsule(outcome: GracefulOutcome) -> (force: bool)
    ensures
        force == !(outcome is PeerClosed),
{
    match outcome {
        GracefulOutcome::PeerClosed => false,
        _ => true,
    }
}

/// The code, before it is shifted, of a session that is dropped without being closed.
pub const DROP_CODE: u32 = 0x636E6E6F;

/// The code, before it is shifted, of a stream that is dropped without being read to its
/// end.
pub const RECV_DROP_CODE: u32 = 0x44454356;

/// What to close the connection with when the last handle of a session is dropped,
/// unless it is closed.
pub fn session_dropped(closed: bool) -> (close: Option<(u64, String)>)
    ensures
        closed ==> close is None,
        !closed ==> (close matches Some((code, reason)) && code == http3_error(DROP_CODE) && reason@
            == "connection dropped"@),
{
    if closed {
        None
    } else {
        Some((error_to_http3(DROP_CODE), "connection dropped".to_owned()))
    }
}

/// What to stop a stream with when it is dropped, unless it is closed.
pub fn stream_dropped(closed: bool) -> (code: Option<u64>)
    ensures
        code == if closed {
            None
        } else {
            Some(http3_error(RECV_DROP_CODE))
        },
{
    if closed {
        None
    } else {
        Some(error_to_http3(RECV_DROP_CODE))
    }
}

/// How long the peer is given to close the connection: three round trips, and no less
/// than a tenth of a second. In nanoseconds.
pub fn close_timeout(rtt: u128) -> (timeout: u128)
    requires
        rtt * 3 <= u128::MAX,
    ensures
        timeout == if rtt * 3 > 100_000_000 {
            rtt * 3
        } else {
            100_000_000
        },
{
    if rtt * 3 > 100_000_000 {
        rtt * 3
    } else {
        100_000_000
    }
}

/// How a session ended, and what it takes to end it. `S` is the sending half of the
/// stream of its request.
pub struct SessionState<S> {
    webtransport: bool,
    error: Option<SessionError>,
    connect: Option<S>,
}

/// What a [`SessionState`] holds.
pub struct SessionModel<S> {
    /// Whether the connection carries a session, rather than being used as it is.
    pub webtransport: bool,
    /// How the session ended. Set once.
    pub error: Option<SessionError>,
    /// The stream to close the session on. Taken once.
    pub connect: Option<S>,
}

impl<S> View for SessionState<S> {
    type V = SessionModel<S>;

    closed spec fn view(&self) -> SessionModel<S> {
        SessionModel { webtransport: self.webtransport, error: self.error, connect: self.connect }
    }
}

impl<S> SessionModel<S> {
    /// The step that closes the session, with a code and a reason.
    pub open spec fn closes(self, step: CloseStep<S>, code: u32, reason: Seq<u8>) -> bool {
        if self.error is Some {
            step is Nothing
        } else if !self.webtransport {
            step matches CloseStep::Connection(actual, text) && actual == code && text@ == reason
        } else {
            match self.connect {
                None => step is Nothing,
                Some(connect) => {
                    let capsule = close_capsule(code, vstd::utf8::encode_utf8(utf8_lossy(reason)));
                    &&& step matches CloseStep::Capsule(stream, frame, actual) && stream == connect
                        && actual == http3_error(code) && if capsule.len() < VARINT_LIMIT {
                        frame matches Some(bytes) && bytes@ == data_frame(capsule)
                    } else {
                        frame is None
                    }
                },
            }
        }
    }

    /// What closing the session leaves.
    pub open spec fn closed(self) -> Self {
        if self.error is Some {
            self
        } else {
            SessionModel {
                error: Some(SessionError::ConnectionError(ConnectionLost::LocallyClosed)),
                connect: if self.webtransport {
                    None
                } else {
                    self.connect
                },
                ..self
            }
        }
    }

    /// What the end of the capsules leaves.
    pub open spec fn ended(self, close: Option<(u32, String)>) -> Self {
        if self.error is Some {
            self
        } else {
            SessionModel {
                error: Some(
                    match close {
                        Some((code, reason)) => SessionError::WebTransportError(
                            WebTransportError::Closed(code, reason),
                        ),
                        None => SessionError::ConnectionError(ConnectionLost::LocallyClosed),
                    },
                ),
                ..self
            }
        }
    }
}

impl<S> SessionState<S> {
    /// A session whose request was made on a stream.
    pub fn new(connect: S) -> (state: Self)
        ensures
            state@ == (SessionModel { webtransport: true, error: None, connect: Some(connect) }),
    {
        SessionState { webtransport: true, error: None, connect: Some(connect) }
    }

    /// A connection used as it is.
    pub fn raw() -> (state: Self)
        ensures
            state@ == (SessionModel::<S> { webtransport: false, error: None, connect: None }),
    {
        SessionState { webtransport: false, error: None, connect: None }
    }

    /// Close the session with a code and a reason. If it has ended already, this does
    /// nothing.
    pub fn close(&mut self, code: u32, reason: &[u8]) -> (step: CloseStep<S>)
        ensures
            old(self)@.closes(step, code, reason@),
            final(self)@ == old(self)@.closed(),
    {
        if self.error.is_some() {
            return CloseStep::Nothing;
        }
        self.error = Some(SessionError::ConnectionError(ConnectionLost::LocallyClosed));
        if !self.webtransport {
            let mut text: Vec<u8> = Vec::new();
            text.extend_from_slice(reason);
            assert(text@ =~= reason@);
            return CloseStep::Connection(code as u64, text);
        }
        match self.connect.take() {
            Some(stream) => {
                let frame = close_frame(code, from_utf8_lossy(reason));
                CloseStep::Capsule(stream, frame, error_to_http3(code))
            },
            None => CloseStep::Nothing,
        }
    }

    /// Record that there are no more capsules, and what the peer closed the session
    /// with, if it did. The connection is then to be closed with the code and reason
    /// returned, unless the session had ended already: whoever ended it sees to that.
    pub fn run_recv(&mut self, close: Option<(u32, String)>) -> (teardown: Option<(u64, String)>)
        ensures
            final(self)@ == old(self)@.ended(close),
            teardown is Some <==> old(self)@.error is None,
            teardown matches Some((code, reason)) ==> match close {
                Some((c, r)) => code == http3_error(c) && reason == r,
                None => code == http3_error(0) && reason@ == ""@,
            },
    {
        if self.error.is_some() {
            return None;
        }
        match close {
            Some((code, reason)) => {
                self.error = Some(
                    SessionError::WebTransportError(WebTransportError::Closed(code, reason.clone())),
                );
                Some((error_to_http3(code), reason))
            },
            None => {
                self.error = Some(SessionError::ConnectionError(ConnectionLost::LocallyClosed));
                Some((error_to_http3(0), "".to_owned()))
            },
        }
    }

    /// Replace an error about the connection with how the session ended, if it has.
    pub fn map_error(&self, error: SessionError) -> (result: SessionError)
        ensures
            result == reported(self@.error, error),
    {
        map_error_with(self.error.as_ref(), error)
    }

    /// Why the session is closed, given why its connection is, if it is.
    pub fn close_reason(&self, error: Option<ConnectionLost>) -> (result: Option<SessionError>)
        ensures
            result == match error {
                Some(error) => Some(reported(self@.error, SessionError::ConnectionError(error))),
                None => None,
            },
    {
        match error {
            Some(error) => Some(self.map_error(SessionError::ConnectionError(error))),
            None => None,
        }
    }
}

/// The first end of a session stands: closing it afterwards, or a capsule that arrives
/// afterwards, changes nothing, and every error about the connection is reported as it.
pub proof fn law_the_first_end_stands<S>(
    model: SessionModel<S>,
    close: Option<(u32, String)>,
    step: CloseStep<S>,
    code: u32,
    reason: Seq<u8>,
    error: SessionError,
)
    requires
        model.error is Some,
        model.closes(step, code, reason),
        is_end(error),
    ensures
        model.closed() == model,
        model.ended(close) == model,
        step is Nothing,
        reported(model.error, error) == model.error->0,
{
}

/// What the peer closes a session with is what the application is told, whatever way the
/// connection goes down after that.
pub proof fn law_the_close_of_the_peer_is_reported<S>(
    model: SessionModel<S>,
    code: u32,
    reason: String,
    lost: ConnectionLost,
)
    requires
        model.error is None,
    ensures
        reported(model.ended(Some((code, reason))).error, SessionError::ConnectionError(lost))
            == SessionError::WebTransportError(WebTransportError::Closed(code, reason)),
{
}

/// An error that is about the operation rather than the end of the session is reported
/// as it is.
pub proof fn law_other_errors_are_reported_as_they_are(stored: Option<SessionError>, error: SessionError)
    requires
        !is_end(error),
    ensures
        reported(stored, error) == error,
{
}

/// What a frame on the stream of the request holds, read back as the peer reads it: a frame
/// of data, in it a capsule that closes a session and fills the frame, and in that a code
/// and a reason.
pub open spec fn reads_as_close(frame: Seq<u8>, code: u32, reason: Seq<u8>) -> bool {
    let size = varint_at(frame.skip(1));
    let capsule = frame.skip(1 + (size->0).1 as int);
    let len = varint_at(capsule.skip(2));
    let start = 2 + (len->0).1 as int;
    &&& varint_at(frame) == Some((0u64, 1nat))
    &&& size is Some && (size->0).0 == capsule.len()
    &&& varint_at(capsule) == Some((0x2843u64, 2nat))
    &&& len is Some && (len->0).0 == capsule.len() - start
    &&& capsule.len() == start + 4 + reason.len()
    &&& from_big_endian(capsule.subrange(start, start + 4)) == code
    &&& capsule.skip(start + 4) == reason
}

proof fn lemma_close_frame(code: u32, reason: Seq<u8>)
    requires
        4 + reason.len() < 0x1_0000_0000,
    ensures
        close_capsule(code, reason).len() < VARINT_LIMIT,
        reads_as_close(data_frame(close_capsule(code, reason)), code, reason),
{
    let capsule = close_capsule(code, reason);
    let frame = data_frame(capsule);
    law_a_close_capsule_holds_its_code_and_reason(code, reason);
    let size = capsule.len() as u64;
    let first = varint_bytes(0x00);
    let second = varint_bytes(size);
    law_a_varint_is_read_back(0x00, second + capsule);
    law_a_varint_is_read_back(size, capsule);
    assert(frame =~= first + (second + capsule));
    assert(frame.skip(1) =~= second + capsule);
    assert(frame.skip(1 + varint_len(size) as int) =~= capsule);
}

/// What one side closes a session with is what the other side reads: the frame of the
/// closing step, read back, holds the very code and reason, and it goes on the stream of the
/// request. (A reason that is not text is replaced by text first, and it has to fit the 32
/// bits that the capsule has for its length.) If the peer does not close the connection, it
/// is closed with the code that stands for this one. A connection that is used as it is is
/// closed with the code and the reason as they are. One that has ended is left alone.
pub proof fn law_the_peer_reads_what_a_session_is_closed_with<S>()
    ensures
        forall|state: &mut SessionState<S>, code: u32, reason: &[u8], step: CloseStep<S>|
            #[trigger] call_ensures(SessionState::<S>::close, (state, code, reason), step) ==> {
                let text = vstd::utf8::encode_utf8(utf8_lossy(reason@));
                let live = state@.error is None;
                &&& step is Capsule <==> live && state@.webtransport && state@.connect is Some
                &&& step is Connection <==> live && !state@.webtransport
                &&& step matches CloseStep::Capsule(stream, frame, fallback) ==> {
                    &&& state@.connect == Some(stream)
                    &&& fallback == http3_error(code)
                    &&& 4 + text.len() < 0x1_0000_0000 ==> frame is Some && reads_as_close(
                        frame->0@,
                        code,
                        text,
                    )
                }
                &&& step matches CloseStep::Connection(actual, told) ==> actual == code && told@ == reason@
                &&& final(state)@.webtransport == state@.webtransport
                &&& live ==> final(state)@.error == Some(
                    SessionError::ConnectionError(ConnectionLost::LocallyClosed),
                )
                &&& live && state@.webtransport ==> final(state)@.connect is None
                &&& !live || !state@.webtransport ==> final(state)@.connect == state@.connect
                &&& !live ==> final(state)@.error == state@.error
            },
{
    assert forall|state: &mut SessionState<S>, code: u32, reason: &[u8], step: CloseStep<S>|
        #[trigger] call_ensures(SessionState::<S>::close, (state, code, reason), step) && 4
            + vstd::utf8::encode_utf8(utf8_lossy(reason@)).len() < 0x1_0000_0000
            && step is Capsule implies step->Capsule_1 is Some && reads_as_close(
        step->Capsule_1->0@,
        code,
        vstd::utf8::encode_utf8(utf8_lossy(reason@)),
    ) by {
        lemma_close_frame(code, vstd::utf8::encode_utf8(utf8_lossy(reason@)));
    }
}

/// The frame that closes a session holds the code and the reason that it was made with.
pub proof fn law_a_close_frame_is_read_back(code: u32, reason: String, frame: Option<Vec<u8>>)
    requires
        call_ensures(close_frame, (code, reason), frame),
        4 + vstd::utf8::encode_utf8(reason@).len() < 0x1_0000_0000,
    ensures
        frame is Some,
        reads_as_close(frame->0@, code, vstd::utf8::encode_utf8(reason@)),
{
    lemma_close_frame(code, vstd::utf8::encode_utf8(reason@));
}

/// What the peer closed a session with is kept as its end, with the same code and reason, and
/// answered by closing the connection with the code that stands for it and the same reason.
/// Without a word from the peer it is the code zero and no reason. A session that had ended
/// keeps its end, and whoever ended it sees to the connection. Nothing else changes.
pub proof fn law_the_word_of_the_peer_is_kept<S>()
    ensures
        forall|state: &mut SessionState<S>, close: Option<(u32, String)>, teardown: Option<(u64, String)>|
            #[trigger] call_ensures(SessionState::<S>::run_recv, (state, close), teardown) ==> {
                &&& teardown is None <==> state@.error is Some
                &&& state@.error is Some ==> final(state)@.error == state@.error
                &&& state@.error is None && close is Some ==> {
                    &&& final(state)@.error == Some(
                        SessionError::WebTransportError(
                            WebTransportError::Closed((close->0).0, (close->0).1),
                        ),
                    )
                    &&& (teardown->0).0 == http3_error((close->0).0)
                    &&& (teardown->0).1 == (close->0).1
                }
                &&& state@.error is None && close is None ==> {
                    &&& final(state)@.error == Some(
                        SessionError::ConnectionError(ConnectionLost::LocallyClosed),
                    )
                    &&& (teardown->0).0 == http3_error(0)
                    &&& (teardown->0).1@.len() == 0
                }
                &&& final(state)@.webtransport == state@.webtransport && final(state)@.connect
                    == state@.connect
            },
{
    reveal_strlit("");
}

/// Reading goes on past capsules that mean nothing, and stops at the one that closes the
/// session, with its code and reason, or where there are no more. Something that is no
/// capsule ends a session without a word; where it is to be an error, it ends with one.
pub proof fn law_reading_stops_where_the_session_is_closed(event: CapsuleEvent, step: CapsuleStep)
    ensures
        call_ensures(read_capsules, (event,), step) || call_ensures(run_closed, (event,), step) ==> {
            &&& step is Read <==> event is Grease || event is Unknown
            &&& event matches CapsuleEvent::Close(code, reason) ==> step == CapsuleStep::Stop(
                Some((code, reason)),
            )
            &&& event is End ==> step == CapsuleStep::Stop(None)
        },
        call_ensures(read_capsules, (event,), step) && event is Failed ==> step == CapsuleStep::Stop(None),
        call_ensures(run_closed, (event,), step) && event is Failed ==> {
            &&& step matches CapsuleStep::Stop(Some((code, reason))) && code == 500 && reason@
                == "capsule error"@
        },
{
}

/// Once a session has ended, whatever goes wrong with the connection is reported as that end;
/// an error of the operation itself is reported as it is, and so is everything while the
/// session goes on. An open connection has no reason to be closed.
pub proof fn law_an_ended_session_reports_its_end<S>(state: &SessionState<S>)
    ensures
        forall|error: SessionError, result: SessionError|
            #[trigger] call_ensures(SessionState::<S>::map_error, (state, error), result)
                ==> reports_the_end(state@.error, error, result),
        forall|stored: Option<&SessionError>, error: SessionError, result: SessionError|
            #[trigger] call_ensures(map_error_with, (stored, error), result) ==> reports_the_end(
                match stored {
                    Some(end) => Some(*end),
                    None => None,
                },
                error,
                result,
            ),
        forall|lost: Option<ConnectionLost>, result: Option<SessionError>|
            #[trigger] call_ensures(SessionState::<S>::close_reason, (state, lost), result) ==> {
                &&& result is None <==> lost is None
                &&& lost is Some && state@.error is Some ==> result == state@.error
                &&& lost is Some && state@.error is None ==> result == Some(
                    SessionError::ConnectionError(lost->0),
                )
            },
{
}

pub open spec fn reports_the_end(end: Option<SessionError>, error: SessionError, result: SessionError) -> bool {
    let of_connection = match error {
        SessionError::ConnectionError(_) => true,
        SessionError::WebTransportError(WebTransportError::Closed(_, _)) => true,
        SessionError::WebTransportError(_) => false,
        SessionError::SendDatagramError(SendDatagramError::ConnectionLost(_)) => true,
        SessionError::SendDatagramError(_) => false,
    };
    if of_connection && end is Some {
        Some(result) == end
    } else {
        result == error
    }
}

/// A session has a code and a reason to tell exactly if that is how it was closed.
pub proof fn law_only_a_closed_session_tells_a_code(error: SessionError, told: Option<(u32, String)>)
    requires
        call_ensures(SessionError::session_error, (&error,), told),
    ensures
        forall|code: u32, reason: String|
            told == Some((code, reason)) <==> error == SessionError::WebTransportError(
                WebTransportError::Closed(code, reason),
            ),
{
}

/// A header that could not be written is an error of the connection exactly if that was lost.
pub proof fn law_a_lost_connection_fails_a_header(lost: Option<ConnectionLost>, text: String, error: SessionError)
    requires
        call_ensures(write_failed, (lost, text), error),
    ensures
        lost is Some ==> error == SessionError::ConnectionError(lost->0),
        lost is None ==> error == SessionError::WebTransportError(WebTransportError::WriteError(text)),
{
}

/// This side closes the connection itself unless the peer did. The peer is given three round
/// trips, and never less than a tenth of a second.
pub proof fn law_the_peer_is_given_time_to_close(outcome: GracefulOutcome, force: bool, rtt: u128, timeout: u128)
    requires
        call_ensures(close_with_capsule, (outcome,), force),
        call_ensures(close_timeout, (rtt,), timeout),
    ensures
        force <==> outcome != GracefulOutcome::PeerClosed,
        timeout >= 3 * rtt && timeout >= 100_000_000,
        timeout == 3 * rtt || timeout == 100_000_000,
{
}

/// A session or a stream that is dropped before it is closed is closed with a code that says
/// so, and one that is closed is left alone.
pub proof fn law_what_is_dropped_open_is_closed(closed: bool, close: Option<(u64, String)>, code: Option<u64>)
    requires
        call_ensures(session_dropped, (closed,), close),
        call_ensures(stream_dropped, (closed,), code),
    ensures
        close is None <==> closed,
        code is None <==> closed,
        close matches Some((code, reason)) ==> code == http3_error(0x636E6E6F) && reason@
            == "connection dropped"@,
        code matches Some(code) ==> code == http3_error(0x44454356),
{
}

/// A session begins open, with the stream of its request to close it on; a connection that is
/// used as it is has none.
pub proof fn law_a_session_begins_open<S>()
    ensures
        forall|connect: S, state: SessionState<S>|
            #[trigger] call_ensures(SessionState::<S>::new, (connect,), state) ==> state@.webtransport
                && state@.error is None && state@.connect == Some(connect),
        forall|state: SessionState<S>|
            #[trigger] call_ensures(SessionState::<S>::raw, (), state) ==> !state@.webtransport
                && state@.error is None && state@.connect is None,
{
}

/// An error of a session says what it was made from, and a clone says the same. Only the word of
/// the peer that it closed the session is told as the end of the session.
pub proof fn law_an_error_says_what_it_was_made_from(error: SessionError, told: Option<(u32, String)>)
    requires
        call_ensures(<SessionError as Error>::session_error, (&error,), told),
    ensures
        forall|copy: SessionError|
            #[trigger] call_ensures(<SessionError as Clone>::clone, (&error,), copy) ==> copy == error,
        forall|lost: ConnectionLost|
            #[trigger] call_ensures(<SessionError as From<ConnectionLost>>::from, (lost,), error) ==> error
                == SessionError::ConnectionError(lost) && told is None,
        forall|inner: WebTransportError|
            #[trigger] call_ensures(<SessionError as From<WebTransportError>>::from, (inner,), error) ==> {
                &&& error == SessionError::WebTransportError(inner)
                &&& told is Some <==> inner is Closed
                &&& inner matches WebTransportError::Closed(code, reason) ==> told == Some((code, reason))
            },
        forall|inner: SendDatagramError|
            #[trigger] call_ensures(<SessionError as From<SendDatagramError>>::from, (inner,), error) ==> error
                == SessionError::SendDatagramError(inner) && told is None,
        forall|unknown: UnknownSession|
            #[trigger] call_ensures(<SessionError as From<UnknownSession>>::from, (unknown,), error) ==> error
                == SessionError::WebTransportError(WebTransportError::UnknownSession) && told is None,
        forall|lost: ConnectionLost, copy: ConnectionLost|
            #[trigger] call_ensures(<ConnectionLost as Clone>::clone, (&lost,), copy) ==> copy == lost,
        forall|inner: WebTransportError, copy: WebTransportError|
            #[trigger] call_ensures(<WebTransportError as Clone>::clone, (&inner,), copy) ==> copy == inner,
        forall|inner: SendDatagramError, copy: SendDatagramError|
            #[trigger] call_ensures(<SendDatagramError as Clone>::clone, (&inner,), copy) ==> copy == inner,
{
}

} // verus!
