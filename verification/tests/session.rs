//! WebTransport sessions on top of a connection.

use std::task::Poll;

use bytes::Bytes;
use web_transport::session::accept::{AcceptEvent, AcceptStep, SessionAccept};
use web_transport::session::close::{
    close_frame, close_timeout, close_with_capsule, map_error_with, read_capsules, run_closed,
    session_dropped, stream_dropped, write_failed, CapsuleEvent, CapsuleStep, CloseStep,
    ConnectionLost, GracefulOutcome, SendDatagramError, SessionError, SessionState,
    WebTransportError,
};
use web_transport::session::headers::{decode_bi, decode_uni, HeaderStep, Headers, UnknownSession};
use web_transport::session::open::{Open, OpenError, OpenEvent, OpenStep};
use web_transport::session::protocol::protocol;
use web_transport::session::server::{accept, ServerEvent, ServerStep};
use web_transport::traits::error::Error;
use web_transport_proto::{error_to_http3, Capsule, Frame, StreamUni, VarInt};

const SESSIONS: [u64; 8] = [
    0,
    4,
    63,
    64,
    16383,
    16384,
    1_073_741_824,
    4_611_686_018_427_387_903,
];

#[test]
fn headers_name_the_type_and_the_session() {
    let headers = Headers::new(4);
    assert_eq!(headers.uni(), [0x40, 0x54, 0x04]);
    assert_eq!(headers.bi(), [0x40, 0x41, 0x04]);
    assert_eq!(&headers.frame_datagram(b"x")[..], [0x04, b'x']);
    assert_eq!(headers.session_id(), Some(4));
    for session in SESSIONS {
        let mut uni = Vec::new();
        StreamUni::WEBTRANSPORT.encode(&mut uni);
        VarInt::from_u64(session).unwrap().encode(&mut uni);
        assert_eq!(Headers::new(session).uni(), uni);
    }

    let raw = Headers::raw();
    assert!(raw.uni().is_empty() && raw.bi().is_empty());
    assert_eq!(&raw.frame_datagram(b"x")[..], b"x");
    assert_eq!(raw.session_id(), None);
}

#[test]
fn datagrams_are_read_back() {
    for session in SESSIONS {
        let headers = Headers::new(session);
        let framed = headers.frame_datagram(b"payload");
        let data = headers.strip_datagram_header(framed.clone()).unwrap();
        assert_eq!(&data[..], b"payload");
        assert_eq!(
            Headers::new(session ^ 1).strip_datagram_header(framed),
            Err(UnknownSession)
        );
    }
    // A datagram may end in the middle of its header.
    let headers = Headers::new(16384);
    for cut in 0..4 {
        let framed = headers.frame_datagram(b"").slice(..cut);
        assert_eq!(headers.strip_datagram_header(framed), Err(UnknownSession));
    }
    let raw = Headers::raw().strip_datagram_header(Bytes::from_static(b"raw"));
    assert_eq!(&raw.unwrap()[..], b"raw");
}

#[test]
fn datagram_sizes_leave_room_for_the_header() {
    let headers = Headers::new(64);
    assert_eq!(headers.max_datagram_size(Some(1200)), 1198);
    assert_eq!(headers.max_datagram_size(Some(1)), 0);
    assert_eq!(headers.max_datagram_size(None), 0);
    assert_eq!(headers.datagram_send_buffer_space(100), 98);
    assert_eq!(headers.datagram_send_buffer_space(0), 0);
    assert_eq!(Headers::raw().max_datagram_size(Some(1200)), 1200);
}

#[test]
fn codes_are_shifted_only_for_sessions() {
    assert_eq!(Headers::new(0).close_code(0), 0x52e4a40fa8db);
    assert_eq!(Headers::new(0).close_code(30), 0x52e4a40fa8db + 31);
    assert_eq!(Headers::new(0).close_code(u32::MAX), 0x52e5ac983162);
    assert_eq!(Headers::raw().close_code(30), 30);
}

/// Read a header the way it is read from a stream: as many bytes as are asked for.
fn read(
    bytes: &[u8],
    session: u64,
    decode: impl Fn(&[u8], u64) -> HeaderStep,
) -> (HeaderStep, usize) {
    let mut len = 0;
    loop {
        match decode(&bytes[..len], session) {
            HeaderStep::More(count) => len += count,
            step => return (step, len),
        }
    }
}

#[test]
fn stream_headers_are_read_exactly() {
    for session in SESSIONS {
        let headers = Headers::new(session);
        let mut uni = headers.uni().to_vec();
        let mut bi = headers.bi().to_vec();
        let (uni_len, bi_len) = (uni.len(), bi.len());
        uni.extend_from_slice(b"data");
        bi.extend_from_slice(b"data");
        assert_eq!(
            read(&uni, session, decode_uni),
            (HeaderStep::Complete(0x54), uni_len)
        );
        assert_eq!(
            read(&bi, session, decode_bi),
            (HeaderStep::Complete(0x41), bi_len)
        );
        assert_eq!(read(&uni, session ^ 1, decode_uni).0, HeaderStep::Unknown);
        assert_eq!(read(&bi, session ^ 1, decode_bi).0, HeaderStep::Unknown);
    }
    // A stream of another type names no session.
    assert_eq!(read(&[0x03, 0xFF], 4, decode_uni), (HeaderStep::Complete(0x03), 1));
    assert_eq!(read(&[0x01, 0xFF], 4, decode_bi), (HeaderStep::Complete(0x01), 1));
    assert_eq!(decode_uni(&[], 4), HeaderStep::More(1));
    assert_eq!(decode_uni(&[0xC0], 4), HeaderStep::More(7));
    assert_eq!(decode_uni(&[0x40], 4), HeaderStep::More(1));
    assert_eq!(decode_uni(&[0x80, 0], 4), HeaderStep::More(2));
}

#[test]
fn only_streams_of_the_session_are_accepted() {
    let mut state: SessionAccept<&str> = SessionAccept::new();
    type Event = AcceptEvent<&'static str, &'static str>;
    let decoded = |typ: u64, stream| -> Event {
        AcceptEvent::Decoded(Poll::Ready(Some(Ok((typ, stream)))))
    };
    assert!(matches!(state.poll_accept_uni(Event::Start), AcceptStep::Accept));
    assert!(matches!(
        state.poll_accept_uni(Event::Accepted(Poll::Ready(Ok("a")))),
        AcceptStep::Decode("a")
    ));
    assert!(matches!(
        state.poll_accept_uni(Event::Accepted(Poll::Pending)),
        AcceptStep::Poll
    ));
    assert!(matches!(
        state.poll_accept_uni(Event::Accepted(Poll::Ready(Err("lost")))),
        AcceptStep::Done(Poll::Ready(Err("lost")))
    ));
    let encoder = StreamUni::QPACK_ENCODER.0.into_inner();
    let decoder = StreamUni::QPACK_DECODER.0.into_inner();
    for typ in [encoder, decoder, 0x21, 0x00] {
        assert!(matches!(state.poll_accept_uni(decoded(typ, "q")), AcceptStep::Accept));
    }
    assert!(matches!(
        state.poll_accept_uni(Event::Decoded(Poll::Ready(Some(Err(UnknownSession))))),
        AcceptStep::Accept
    ));
    let webtransport = StreamUni::WEBTRANSPORT.0.into_inner();
    assert!(matches!(
        state.poll_accept_uni(decoded(webtransport, "w")),
        AcceptStep::Done(Poll::Ready(Ok("w")))
    ));
    for event in [Event::Decoded(Poll::Ready(None)), Event::Decoded(Poll::Pending)] {
        assert!(matches!(
            state.poll_accept_uni(event),
            AcceptStep::Done(Poll::Pending)
        ));
    }

    let frame = Frame::WEBTRANSPORT.0.into_inner();
    assert!(matches!(
        state.poll_accept_bi(decoded(frame, "w")),
        AcceptStep::Done(Poll::Ready(Ok("w")))
    ));
    assert!(matches!(state.poll_accept_bi(decoded(0x54, "w")), AcceptStep::Accept));
    assert!(matches!(state.poll_accept_bi(Event::Start), AcceptStep::Accept));
    assert!(matches!(
        state.poll_accept_bi(Event::Decoded(Poll::Pending)),
        AcceptStep::Done(Poll::Pending)
    ));
}

#[test]
fn a_stream_is_opened_once_its_header_is_written() {
    type Event = OpenEvent<Vec<u8>, &'static str, &'static str>;
    let header = b"header";
    let mut open: Open<Vec<u8>> = Open::new();
    assert!(matches!(open.poll(header, Event::Start), OpenStep::Take));
    assert!(matches!(
        open.poll(header, Event::Taken(Poll::Pending)),
        OpenStep::Done(Poll::Pending)
    ));
    let mut step = open.poll(header, Event::Taken(Poll::Ready(Ok(Vec::new()))));
    let mut polls = 0;
    let stream = loop {
        step = match step {
            OpenStep::Write(offset) => {
                polls += 1;
                if polls % 2 == 0 {
                    // It waits in the middle, and resumes where it was.
                    assert!(matches!(
                        open.poll(header, Event::Written(Poll::Pending)),
                        OpenStep::Done(Poll::Pending)
                    ));
                    open.poll(header, Event::Start)
                } else {
                    let stream = open.stream().unwrap();
                    let end = (offset + 2).min(header.len());
                    stream.extend_from_slice(&header[offset..end]);
                    open.poll(header, Event::Written(Poll::Ready(Ok(end - offset))))
                }
            }
            OpenStep::Done(Poll::Ready(Ok(stream))) => break stream,
            _ => panic!("the stream is there"),
        };
    };
    assert_eq!(stream, header);
    assert!(open.stream().is_none());

    assert!(matches!(
        open.poll(header, Event::Taken(Poll::Ready(Err("lost")))),
        OpenStep::Done(Poll::Ready(Err(OpenError::Connection("lost"))))
    ));
    open.poll(header, Event::Taken(Poll::Ready(Ok(Vec::new()))));
    assert!(open.clone().stream().is_none());
    assert!(matches!(
        open.poll(header, Event::Written(Poll::Ready(Err("reset")))),
        OpenStep::Done(Poll::Ready(Err(OpenError::Header("reset"))))
    ));
    // A connection used as it is has no headers to write.
    let mut open: Open<Vec<u8>> = Open::new();
    assert!(matches!(
        open.poll(b"", Event::Taken(Poll::Ready(Ok(b"s".to_vec())))),
        OpenStep::Done(Poll::Ready(Ok(_)))
    ));
}

#[test]
fn a_session_is_closed_with_a_capsule() {
    let mut state = SessionState::new("connect");
    let (frame, code) = match state.close(30, b"bye\xFF") {
        CloseStep::Capsule("connect", Some(frame), code) => (frame, code),
        _ => panic!("the session is closed with a capsule"),
    };
    assert_eq!(code, error_to_http3(30));
    let mut bytes = &frame[..];
    assert_eq!(Frame::decode(&mut bytes).unwrap(), Frame::DATA);
    let len = VarInt::decode(&mut bytes).unwrap().into_inner();
    assert_eq!(len as usize, bytes.len());
    match Capsule::decode(&mut bytes).unwrap() {
        Capsule::CloseWebTransportSession { code, reason } => {
            assert_eq!((code, reason.as_str()), (30, "bye\u{FFFD}"));
        }
        other => panic!("expected a close, got {other:?}"),
    }
    assert_eq!(
        close_frame(1, "ab".to_string()).unwrap(),
        [0x00, 0x09, 0x68, 0x43, 0x06, 0, 0, 0, 1, b'a', b'b']
    );

    // Closing again does nothing, and neither does a capsule that comes too late.
    assert!(matches!(state.close(31, b"again"), CloseStep::Nothing));
    assert_eq!(state.run_recv(Some((1, "late".to_string()))), None);
    assert!(matches!(
        state.map_error(ConnectionLost::TimedOut.into()),
        SessionError::ConnectionError(ConnectionLost::LocallyClosed)
    ));
}

#[test]
fn a_raw_connection_is_closed_with_its_own_code() {
    let mut state: SessionState<()> = SessionState::raw();
    assert!(matches!(
        state.close(30, b"bye"),
        CloseStep::Connection(30, reason) if reason == b"bye"
    ));
}

#[test]
fn the_close_of_the_peer_is_what_operations_report() {
    let mut state = SessionState::new("connect");
    assert!(state.close_reason(None).is_none());
    assert!(matches!(
        state.close_reason(Some(ConnectionLost::Reset)),
        Some(SessionError::ConnectionError(ConnectionLost::Reset))
    ));
    assert_eq!(
        state.run_recv(Some((7, "gone".to_string()))),
        Some((error_to_http3(7), "gone".to_string()))
    );
    let is_close = |error| {
        matches!(
            error,
            SessionError::WebTransportError(WebTransportError::Closed(7, reason))
                if reason == "gone"
        )
    };
    assert!(is_close(state.map_error(ConnectionLost::Reset.into())));
    assert!(is_close(state.map_error(
        SendDatagramError::ConnectionLost(ConnectionLost::TimedOut).into()
    )));
    assert!(is_close(
        state.map_error(WebTransportError::Closed(1, "other".to_string()).into())
    ));
    assert!(is_close(
        state.close_reason(Some(ConnectionLost::LocallyClosed)).unwrap()
    ));
    // An error of the operation itself is reported as it is.
    assert!(matches!(
        state.map_error(SendDatagramError::TooLarge.into()),
        SessionError::SendDatagramError(SendDatagramError::TooLarge)
    ));
    assert!(matches!(
        state.map_error(UnknownSession.into()),
        SessionError::WebTransportError(WebTransportError::UnknownSession)
    ));
    assert!(matches!(
        map_error_with(None, ConnectionLost::Reset.into()),
        SessionError::ConnectionError(ConnectionLost::Reset)
    ));

    let mut silent = SessionState::new("connect");
    assert_eq!(silent.run_recv(None), Some((error_to_http3(0), String::new())));
    assert!(matches!(
        silent.map_error(ConnectionLost::Reset.into()),
        SessionError::ConnectionError(ConnectionLost::LocallyClosed)
    ));
    assert!(matches!(silent.close(1, b""), CloseStep::Nothing));
}

#[test]
fn capsules_are_read_until_the_session_closes() {
    for event in [CapsuleEvent::Grease, CapsuleEvent::Unknown] {
        assert!(matches!(read_capsules(event), CapsuleStep::Read));
    }
    for event in [CapsuleEvent::Grease, CapsuleEvent::Unknown] {
        assert!(matches!(run_closed(event), CapsuleStep::Read));
    }
    let close = || CapsuleEvent::Close(7, "gone".to_string());
    for step in [read_capsules(close()), run_closed(close())] {
        assert!(matches!(step, CapsuleStep::Stop(Some((7, reason))) if reason == "gone"));
    }
    assert!(matches!(read_capsules(CapsuleEvent::End), CapsuleStep::Stop(None)));
    assert!(matches!(run_closed(CapsuleEvent::End), CapsuleStep::Stop(None)));
    assert!(matches!(read_capsules(CapsuleEvent::Failed), CapsuleStep::Stop(None)));
    assert!(matches!(
        run_closed(CapsuleEvent::Failed),
        CapsuleStep::Stop(Some((500, reason))) if reason == "capsule error"
    ));
}

#[test]
fn the_peer_is_given_time_to_close() {
    assert_eq!(close_timeout(0), 100_000_000);
    assert_eq!(close_timeout(33_333_333), 100_000_000);
    assert_eq!(close_timeout(50_000_000), 150_000_000);
    assert!(!close_with_capsule(GracefulOutcome::PeerClosed));
    for outcome in [
        GracefulOutcome::WriteFailed,
        GracefulOutcome::FinishFailed,
        GracefulOutcome::TimedOut,
    ] {
        assert!(close_with_capsule(outcome));
    }
}

#[test]
fn what_is_dropped_is_closed_with_a_code() {
    assert_eq!(
        session_dropped(false),
        Some((91143682298479, "connection dropped".to_string()))
    );
    assert_eq!(session_dropped(true), None);
    assert_eq!(stream_dropped(false), Some(91143142080384));
    assert_eq!(stream_dropped(true), None);
}

#[test]
fn headers_that_cannot_be_written_say_why() {
    assert!(matches!(
        write_failed(Some(ConnectionLost::Reset), "x".to_string()),
        SessionError::ConnectionError(ConnectionLost::Reset)
    ));
    assert!(matches!(
        write_failed(None, "x".to_string()),
        SessionError::WebTransportError(WebTransportError::WriteError(text)) if text == "x"
    ));
}

#[test]
fn a_server_outlives_a_failed_request() {
    type Event = ServerEvent<u8, u16, ()>;
    assert!(matches!(accept(Event::Incoming(Some(3))), ServerStep::Handshake(3)));
    assert!(matches!(accept(Event::Requested(Err(()))), ServerStep::Wait));
    assert!(matches!(accept(Event::Requested(Ok(9))), ServerStep::Done(Some(9))));
    assert!(matches!(accept(Event::Incoming(None)), ServerStep::Done(None)));
}

#[test]
fn the_protocol_is_answered_or_negotiated() {
    assert_eq!(protocol(Some(Some("moq")), Some("h3")), Some("moq"));
    assert_eq!(protocol(Some(None), Some("h3")), None);
    assert_eq!(protocol(None, Some("moq-00")), Some("moq-00"));
    assert_eq!(protocol(None, None), None);
}

#[test]
fn only_a_closed_session_has_a_code() {
    let closed = WebTransportError::Closed(7, "bye".to_string());
    assert_eq!(
        SessionError::from(closed).session_error(),
        Some((7, "bye".to_string()))
    );
    let lost = SessionError::from(ConnectionLost::TimedOut);
    assert_eq!(lost.session_error(), None);
    assert_eq!(lost.stream_error(), None);
    assert_eq!(SessionError::from(UnknownSession).session_error(), None);
}
