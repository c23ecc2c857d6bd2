//! A session over either of two transports.

use std::task::{Context, Poll, Waker};

use bytes::Bytes;
use web_transport::any::{WebTransportErrorAny, WebTransportSessionAny};
use web_transport::traits::error::Error;
use web_transport::traits::poll::{RecvStream, SendStream, Session};
use web_transport::traits::stats::Stats;

/// A transport that answers everything with its name, and fails when told to.
#[derive(Clone, Default)]
struct Named {
    name: &'static str,
    code: u32,
    log: Vec<String>,
}

#[derive(Debug)]
struct NamedError(u32);

impl Error for NamedError {
    fn session_error(&self) -> Option<(u32, String)> {
        Some((self.0, "named".to_string()))
    }

    fn stream_error(&self) -> Option<u32> {
        Some(self.0 + 1)
    }
}

struct NamedStats(u64);

impl Stats for NamedStats {
    fn bytes_sent(&self) -> Option<u64> {
        Some(self.0)
    }
}

impl Named {
    fn polled<T>(&self, value: T) -> Poll<Result<T, NamedError>> {
        match self.code {
            0 => Poll::Pending,
            1 => Poll::Ready(Ok(value)),
            code => Poll::Ready(Err(NamedError(code))),
        }
    }
}

impl SendStream for Named {
    type Error = NamedError;

    fn poll_write(&mut self, _: &mut Context<'_>, buf: &[u8]) -> Poll<Result<usize, NamedError>> {
        self.polled(buf.len().min(3))
    }

    fn set_priority(&mut self, order: i32) {
        self.log.push(format!("priority {order}"));
    }

    fn finish(&mut self) -> Result<(), NamedError> {
        Err(NamedError(self.code))
    }

    fn reset(&mut self, code: u32) {
        self.log.push(format!("reset {code}"));
    }

    fn poll_closed(&mut self, _: &mut Context<'_>) -> Poll<Result<(), NamedError>> {
        self.polled(())
    }
}

impl RecvStream for Named {
    type Error = NamedError;

    fn poll_read(
        &mut self,
        _: &mut Context<'_>,
        dst: &mut [u8],
    ) -> Poll<Result<Option<usize>, NamedError>> {
        let size = dst.len().min(self.name.len());
        dst[..size].copy_from_slice(&self.name.as_bytes()[..size]);
        self.polled(Some(size))
    }

    fn stop(&mut self, code: u32) {
        self.log.push(format!("stop {code}"));
    }

    fn poll_closed(&mut self, _: &mut Context<'_>) -> Poll<Result<(), NamedError>> {
        self.polled(())
    }
}

impl Session for Named {
    type SendStream = Named;
    type RecvStream = Named;
    type Error = NamedError;
    type Stats = NamedStats;

    fn poll_accept_uni(&mut self, _: &mut Context<'_>) -> Poll<Result<Named, NamedError>> {
        self.polled(self.clone())
    }

    fn poll_accept_bi(&mut self, _: &mut Context<'_>) -> Poll<Result<(Named, Named), NamedError>> {
        self.polled((self.clone(), self.clone()))
    }

    fn poll_open_uni(&mut self, _: &mut Context<'_>) -> Poll<Result<Named, NamedError>> {
        self.polled(self.clone())
    }

    fn poll_open_bi(&mut self, _: &mut Context<'_>) -> Poll<Result<(Named, Named), NamedError>> {
        self.polled((self.clone(), self.clone()))
    }

    fn poll_send_datagram(
        &mut self,
        _: &mut Context<'_>,
        payload: &[u8],
    ) -> Poll<Result<(), NamedError>> {
        self.log.push(format!("datagram {}", payload.len()));
        self.polled(())
    }

    fn poll_recv_datagram(&mut self, _: &mut Context<'_>) -> Poll<Result<Bytes, NamedError>> {
        self.polled(Bytes::from_static(self.name.as_bytes()))
    }

    fn max_datagram_size(&self) -> usize {
        self.name.len()
    }

    fn protocol(&self) -> Option<&str> {
        Some(self.name)
    }

    fn close(&mut self, code: u32, reason: &str) {
        self.log.push(format!("close {code} {reason}"));
    }

    fn poll_closed(&mut self, _: &mut Context<'_>) -> Poll<NamedError> {
        Poll::Ready(NamedError(self.code))
    }

    fn stats(&self) -> NamedStats {
        NamedStats(self.name.len() as u64)
    }
}

type Any = WebTransportSessionAny<Named, Named>;

fn named(name: &'static str, code: u32) -> Named {
    Named {
        name,
        code,
        log: Vec::new(),
    }
}

fn both(code: u32) -> [(Any, &'static str); 2] {
    [
        (Any::Quinn(named("quic", code)), "quic"),
        (Any::WebSocket(named("socket", code)), "socket"),
    ]
}

fn unwrap<T, E>(poll: Poll<Result<T, E>>) -> T {
    match poll {
        Poll::Ready(Ok(value)) => value,
        _ => panic!("expected a value"),
    }
}

#[test]
fn operations_go_to_the_transport_in_use() {
    let mut cx = Context::from_waker(Waker::noop());
    for (mut session, name) in both(1) {
        let mut dst = [0; 16];
        let mut recv = unwrap(session.poll_accept_uni(&mut cx));
        assert_eq!(unwrap(recv.poll_read(&mut cx, &mut dst)), Some(name.len()));
        assert_eq!(&dst[..name.len()], name.as_bytes());
        let chunk = unwrap(recv.poll_read_chunk(&mut cx, 2)).unwrap();
        assert_eq!(&chunk[..], &name.as_bytes()[..2]);
        recv.stop(4);

        let mut send = unwrap(session.poll_open_uni(&mut cx));
        assert_eq!(unwrap(send.poll_write(&mut cx, b"hello")), 3);
        let mut buf = Bytes::from_static(b"hello");
        assert_eq!(unwrap(send.poll_write_buf(&mut cx, &mut buf)), 3);
        assert_eq!(&buf[..], b"lo");
        send.set_priority(5);
        send.reset(6);
        assert!(send.finish().is_err());
        unwrap(send.poll_closed(&mut cx));

        let (_, mut recv) = unwrap(session.poll_open_bi(&mut cx));
        unwrap(recv.poll_closed(&mut cx));
        unwrap(session.poll_accept_bi(&mut cx));
        unwrap(session.poll_send_datagram(&mut cx, b"abc"));
        assert_eq!(unwrap(session.poll_recv_datagram(&mut cx)), name);
        assert_eq!(session.max_datagram_size(), name.len());
        assert_eq!(session.protocol(), Some(name));
        assert_eq!(session.stats().bytes_sent(), Some(name.len() as u64));
        assert_eq!(session.stats().packets_lost(), None);
        session.close(7, "bye");

        let inner = match session {
            Any::Quinn(inner) | Any::WebSocket(inner) => inner,
        };
        assert_eq!(inner.log, ["datagram 3", "close 7 bye"]);
    }
    assert_eq!(Any::Quinn(named("quic", 0)).into_quic().name, "quic");
}

#[test]
fn errors_come_from_the_transport_in_use() {
    let mut cx = Context::from_waker(Waker::noop());
    for (mut session, name) in both(9) {
        let error = match session.poll_accept_uni(&mut cx) {
            Poll::Ready(Err(error)) => error,
            _ => panic!("expected an error"),
        };
        assert_eq!(error.session_error(), Some((9, "named".to_string())));
        assert_eq!(error.stream_error(), Some(10));
        match (&error, name) {
            (WebTransportErrorAny::Quinn(_), "quic") => {}
            (WebTransportErrorAny::WebSocket(_), "socket") => {}
            _ => panic!("the error is of the other transport"),
        }
        assert!(session.poll_closed(&mut cx).is_ready());
    }
    for (mut session, _) in both(0) {
        assert!(session.poll_accept_bi(&mut cx).is_pending());
        assert!(session.poll_recv_datagram(&mut cx).is_pending());
    }
}
