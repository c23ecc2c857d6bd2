//! Tests for the traits' provided methods.
//!
//! The streams here accept or produce one byte per poll, so a partial transfer is
//! the normal case rather than an edge case. That is what the `_all` helpers exist
//! to paper over, and getting it wrong is invisible on a stream that happens to
//! take everything in one call.

use std::{
    sync::Arc,
    task::{Context, Poll, Wake, Waker},
};

use bytes::Bytes;
use web_transport::traits::error::Error;
use web_transport::traits::poll::{read_chunk, read_more, wrote, wrote_buf, ReadBuf};
use web_transport::traits::stats::StatsUnavailable;
use web_transport::{PollRecvStream, PollSendStream, PollSession};

struct Noop;

impl Wake for Noop {
    fn wake(self: Arc<Self>) {}
}

fn ready<T>(poll: Poll<T>) -> T {
    match poll {
        Poll::Ready(value) => value,
        Poll::Pending => panic!("expected Ready"),
    }
}

/// Run a step until it reports that it is done.
fn run<E: std::fmt::Debug>(mut step: impl FnMut(&mut Context<'_>) -> Poll<Result<bool, E>>) {
    let waker = Waker::from(Arc::new(Noop));
    let mut cx = Context::from_waker(&waker);
    while !ready(step(&mut cx)).unwrap() {}
}

/// Run one operation, which is ready at once.
fn once<T>(step: impl FnOnce(&mut Context<'_>) -> Poll<T>) -> T {
    let waker = Waker::from(Arc::new(Noop));
    let mut cx = Context::from_waker(&waker);
    ready(step(&mut cx))
}

#[derive(Debug)]
struct TestError;

impl Error for TestError {
    fn session_error(&self) -> Option<(u32, String)> {
        None
    }
}

/// Accepts at most one byte per call.
#[derive(Default)]
struct DripSend {
    written: Vec<u8>,
}

impl PollSendStream for DripSend {
    type Error = TestError;

    fn poll_write(&mut self, _cx: &mut Context<'_>, buf: &[u8]) -> Poll<Result<usize, TestError>> {
        match buf.first() {
            Some(&byte) => {
                self.written.push(byte);
                Poll::Ready(Ok(1))
            }
            None => Poll::Ready(Ok(0)),
        }
    }

    fn set_priority(&mut self, _order: i32) {}

    fn finish(&mut self) -> Result<(), TestError> {
        Ok(())
    }

    fn reset(&mut self, _code: u32) {}

    fn poll_closed(&mut self, _cx: &mut Context<'_>) -> Poll<Result<(), TestError>> {
        Poll::Ready(Ok(()))
    }
}

/// Produces at most one byte per call.
struct DripRecv {
    remaining: Bytes,
}

impl PollRecvStream for DripRecv {
    type Error = TestError;

    fn poll_read(
        &mut self,
        _cx: &mut Context<'_>,
        dst: &mut [u8],
    ) -> Poll<Result<Option<usize>, TestError>> {
        if self.remaining.is_empty() || dst.is_empty() {
            return Poll::Ready(Ok(None));
        }

        dst[0] = self.remaining[0];
        self.remaining = self.remaining.slice(1..);
        Poll::Ready(Ok(Some(1)))
    }

    fn stop(&mut self, _code: u32) {}

    fn poll_closed(&mut self, _cx: &mut Context<'_>) -> Poll<Result<(), TestError>> {
        Poll::Ready(Ok(()))
    }
}

/// A chunk is written to its end, however little of it is taken at a time.
#[test]
fn write_chunk_writes_the_whole_chunk() {
    let mut stream = DripSend::default();
    let mut chunk = Bytes::from_static(b"hello");
    run(|cx| stream.poll_write_all_buf(cx, &mut chunk));
    assert_eq!(stream.written, b"hello");
}

#[test]
fn write_all_writes_the_whole_slice() {
    let mut stream = DripSend::default();
    let mut pos = 0;
    run(|cx| stream.poll_write_all(cx, b"hello", &mut pos));
    assert_eq!(pos, 5);
    assert_eq!(stream.written, b"hello");
}

#[test]
fn write_all_buf_drains_the_buffer() {
    let mut stream = DripSend::default();
    let mut buf = Bytes::from_static(b"hello");
    run(|cx| stream.poll_write_all_buf(cx, &mut buf));
    assert_eq!(stream.written, b"hello");
    assert!(buf.is_empty());
}

/// A single `write_buf` is allowed to be partial, and must advance the buffer by
/// exactly what it took.
#[test]
fn write_buf_reports_and_advances_by_what_it_took() {
    let mut stream = DripSend::default();
    let mut buf = Bytes::from_static(b"hello");
    assert_eq!(once(|cx| stream.poll_write_buf(cx, &mut buf)).unwrap(), 1);
    assert_eq!(stream.written, b"h");
    assert_eq!(&buf[..], b"ello");
}

#[test]
fn read_all_reads_until_the_stream_ends() {
    let mut stream = DripRecv {
        remaining: Bytes::from_static(b"hello"),
    };
    let mut buf = ReadBuf::unlimited();
    run(|cx| stream.poll_read_all_buf(cx, &mut buf));
    assert_eq!(&buf.freeze()[..], b"hello");
}

/// `read_chunk` is a single read, so one byte at a time is a valid answer here.
#[test]
fn read_chunk_returns_what_is_available() {
    let mut stream = DripRecv {
        remaining: Bytes::from_static(b"hello"),
    };
    assert_eq!(&once(|cx| stream.poll_read_chunk(cx, 16)).unwrap().unwrap()[..], b"h");
}

#[test]
fn read_chunk_reports_end_of_stream() {
    let mut stream = DripRecv {
        remaining: Bytes::new(),
    };
    assert!(once(|cx| stream.poll_read_chunk(cx, 16)).unwrap().is_none());
}

#[test]
fn read_all_buf_fills_the_buffer_then_stops() {
    let mut stream = DripRecv {
        remaining: Bytes::from_static(b"hello"),
    };
    let mut buf = ReadBuf::limited(3);
    run(|cx| stream.poll_read_all_buf(cx, &mut buf));
    assert_eq!(buf.filled().len(), 3);
    assert_eq!(buf.filled(), b"hel");
}

/// The reason the poll surface is its own trait: a `!Send` type can implement it.
/// A thread-per-core runtime — `io_uring`, say — whose streams never leave the
/// thread that owns them is then expressible, and drivable from a poll loop.
///
/// This is a compile-time claim; there is nothing to assert at runtime.
#[test]
fn a_not_send_type_can_implement_the_poll_surface() {
    struct ThreadBound {
        _rc: std::rc::Rc<()>,
    }

    impl PollSendStream for ThreadBound {
        type Error = TestError;

        fn poll_write(
            &mut self,
            _cx: &mut Context<'_>,
            buf: &[u8],
        ) -> Poll<Result<usize, TestError>> {
            Poll::Ready(Ok(buf.len()))
        }

        fn set_priority(&mut self, _order: i32) {}

        fn finish(&mut self) -> Result<(), TestError> {
            Ok(())
        }

        fn reset(&mut self, _code: u32) {}

        fn poll_closed(&mut self, _cx: &mut Context<'_>) -> Poll<Result<(), TestError>> {
            Poll::Ready(Ok(()))
        }
    }

    let mut stream = ThreadBound {
        _rc: Default::default(),
    };
    let waker = Waker::from(Arc::new(Noop));
    let mut cx = Context::from_waker(&waker);

    let Poll::Ready(Ok(size)) = stream.poll_write(&mut cx, b"hi") else {
        panic!("expected a completed write");
    };
    assert_eq!(size, 2);
}

/// Fills whatever destination it is handed, so the `max` bound has to come from
/// the caller rather than from the stream being polite.
struct FloodRecv;

impl PollRecvStream for FloodRecv {
    type Error = TestError;

    fn poll_read(
        &mut self,
        _cx: &mut Context<'_>,
        dst: &mut [u8],
    ) -> Poll<Result<Option<usize>, TestError>> {
        dst.fill(b'x');
        Poll::Ready(Ok(Some(dst.len())))
    }

    fn stop(&mut self, _code: u32) {}

    fn poll_closed(&mut self, _cx: &mut Context<'_>) -> Poll<Result<(), TestError>> {
        Poll::Ready(Ok(()))
    }
}

/// `poll_read_chunk` documents "up to `max` bytes", so the default must bound the slice
/// it hands out.
#[test]
fn read_chunk_never_exceeds_max() {
    for max in [1usize, 3, 5, 7, 100, 1000, 4095] {
        let chunk = once(|cx| FloodRecv.poll_read_chunk(cx, max)).unwrap().unwrap();
        assert!(
            chunk.len() <= max,
            "read_chunk({max}) returned {} bytes",
            chunk.len()
        );
    }
}

/// The reason `PollSession` is its own trait: a `!Send` session can implement it,
/// so a thread-per-core runtime is expressible end to end rather than only for its
/// streams.
///
/// This is a compile-time claim; there is nothing to assert at runtime.
#[test]
fn a_not_send_session_can_implement_the_poll_surface() {
    struct ThreadBound {
        _rc: std::rc::Rc<()>,
    }

    impl PollSession for ThreadBound {
        type SendStream = FloodSend;
        type RecvStream = FloodRecv;
        type Error = TestError;
        type Stats = StatsUnavailable;

        fn poll_accept_uni(&mut self, _cx: &mut Context<'_>) -> Poll<Result<FloodRecv, TestError>> {
            Poll::Pending
        }

        fn poll_accept_bi(
            &mut self,
            _cx: &mut Context<'_>,
        ) -> Poll<Result<(FloodSend, FloodRecv), TestError>> {
            Poll::Pending
        }

        fn poll_open_uni(&mut self, _cx: &mut Context<'_>) -> Poll<Result<FloodSend, TestError>> {
            Poll::Pending
        }

        fn poll_open_bi(
            &mut self,
            _cx: &mut Context<'_>,
        ) -> Poll<Result<(FloodSend, FloodRecv), TestError>> {
            Poll::Pending
        }

        fn poll_send_datagram(
            &mut self,
            _cx: &mut Context<'_>,
            _payload: &[u8],
        ) -> Poll<Result<(), TestError>> {
            Poll::Ready(Ok(()))
        }

        fn poll_recv_datagram(&mut self, _cx: &mut Context<'_>) -> Poll<Result<Bytes, TestError>> {
            Poll::Pending
        }

        fn max_datagram_size(&self) -> usize {
            0
        }

        fn protocol(&self) -> Option<&str> {
            None
        }

        fn close(&mut self, _code: u32, _reason: &str) {}

        fn stats(&self) -> StatsUnavailable {
            StatsUnavailable
        }

        fn poll_closed(&mut self, _cx: &mut Context<'_>) -> Poll<TestError> {
            Poll::Pending
        }
    }

    let session = ThreadBound {
        _rc: Default::default(),
    };
    assert_eq!(session.max_datagram_size(), 0);
}

/// Accepts every write, so it can stand in as a session's stream type.
struct FloodSend;

impl PollSendStream for FloodSend {
    type Error = TestError;

    fn poll_write(&mut self, _cx: &mut Context<'_>, buf: &[u8]) -> Poll<Result<usize, TestError>> {
        Poll::Ready(Ok(buf.len()))
    }

    fn set_priority(&mut self, _order: i32) {}

    fn finish(&mut self) -> Result<(), TestError> {
        Ok(())
    }

    fn reset(&mut self, _code: u32) {}

    fn poll_closed(&mut self, _cx: &mut Context<'_>) -> Poll<Result<(), TestError>> {
        Poll::Ready(Ok(()))
    }
}

/// A destination with no room must not read as end of stream.
///
/// `None` means the peer finished; a full buffer means try again with space. The
/// backends draw that distinction in `poll_read`, and the defaults have to keep it
/// — collapsing the two turns "buffer full" into silent truncation.
#[test]
fn defaults_a_full_destination_is_not_end_of_stream() {
    let mut stream = DripRecv {
        remaining: Bytes::from_static(b"hello"),
    };

    let mut empty = ReadBuf::limited(0);
    assert_eq!(once(|cx| stream.poll_read_buf(cx, &mut empty)).unwrap(), Some(0));

    // Still readable afterwards: nothing was consumed and nothing was closed.
    assert_eq!(&once(|cx| stream.poll_read_chunk(cx, 16)).unwrap().unwrap()[..], b"h");
}

/// Asking for zero bytes is likewise not end of stream.
#[test]
fn a_zero_max_chunk_is_not_end_of_stream() {
    let mut stream = DripRecv {
        remaining: Bytes::from_static(b"hello"),
    };

    let chunk = once(|cx| stream.poll_read_chunk(cx, 0)).unwrap();
    assert_eq!(chunk.as_deref(), Some(&[][..]));

    assert_eq!(&once(|cx| stream.poll_read_chunk(cx, 16)).unwrap().unwrap()[..], b"h");
}

/// Gives nothing, but records how much it was asked for.
#[derive(Default)]
struct AskedRecv {
    asked: Vec<usize>,
}

impl PollRecvStream for AskedRecv {
    type Error = TestError;

    fn poll_read(
        &mut self,
        _cx: &mut Context<'_>,
        dst: &mut [u8],
    ) -> Poll<Result<Option<usize>, TestError>> {
        self.asked.push(dst.len());
        Poll::Ready(Ok(None))
    }

    fn stop(&mut self, _code: u32) {}

    fn poll_closed(&mut self, _cx: &mut Context<'_>) -> Poll<Result<(), TestError>> {
        Poll::Ready(Ok(()))
    }
}

/// One read is asked for, into all of a buffer's room, or for a chunk of a bounded size;
/// where there is nothing to ask for, none is.
#[test]
fn reads_ask_for_what_there_is_room_for() {
    let mut stream = AskedRecv::default();

    let mut buf = ReadBuf::limited(20_000);
    buf.put(vec![1; 5], 5);
    assert_eq!(buf.offer(), 19_995);
    assert_eq!(once(|cx| stream.poll_read_buf(cx, &mut buf)).unwrap(), None);
    assert_eq!(buf.filled(), [1; 5]);

    let mut buf = ReadBuf::unlimited();
    assert_eq!(buf.offer(), 8192);
    assert_eq!(buf.room(), usize::MAX);
    assert_eq!(once(|cx| stream.poll_read_buf(cx, &mut buf)).unwrap(), None);

    for max in [0, 1, 8192, 20_000] {
        let chunk = once(|cx| stream.poll_read_chunk(cx, max)).unwrap();
        assert_eq!(chunk.is_some(), max == 0);
    }
    assert_eq!(stream.asked, [19_995, 8192, 1, 8192, 8192]);
}

/// What the helpers make of each outcome of the one call that they are built on.
#[test]
fn every_outcome_of_a_call_is_handed_on() {
    type Written = Poll<Result<usize, &'static str>>;
    let mut pos = 2;
    assert_eq!(wrote(5, &mut pos, Written::Ready(Ok(2))), Poll::Ready(Ok(false)));
    assert_eq!(pos, 4);
    assert_eq!(wrote(5, &mut pos, Written::Pending), Poll::Pending);
    assert_eq!(wrote(5, &mut pos, Written::Ready(Err("lost"))), Poll::Ready(Err("lost")));
    assert_eq!(wrote(5, &mut pos, Written::Ready(Ok(1))), Poll::Ready(Ok(true)));
    assert_eq!(pos, 5);

    let mut buf = Bytes::from_static(b"hello");
    assert_eq!(wrote_buf(&mut buf, Written::Pending), Poll::Pending);
    assert_eq!(wrote_buf(&mut buf, Written::Ready(Err("lost"))), Poll::Ready(Err("lost")));
    assert_eq!(&buf[..], b"hello");
    assert_eq!(wrote_buf(&mut buf, Written::Ready(Ok(3))), Poll::Ready(Ok(3)));
    assert_eq!(&buf[..], b"lo");

    type Read = Poll<Result<Option<usize>, &'static str>>;
    let mut buf = ReadBuf::limited(8);
    assert_eq!(buf.read(b"abcd".to_vec(), Read::Ready(Ok(Some(3)))), Poll::Ready(Ok(Some(3))));
    assert_eq!(buf.read(b"xyz".to_vec(), Read::Pending), Poll::Pending);
    assert_eq!(buf.read(b"xyz".to_vec(), Read::Ready(Ok(None))), Poll::Ready(Ok(None)));
    assert_eq!(buf.filled(), b"abc");
    assert_eq!(buf.room(), 5);
    buf.put(b"de".to_vec(), 2);
    assert_eq!(
        read_chunk(buf, Read::Ready(Ok(Some(3)))),
        Poll::Ready(Ok(Some(Bytes::from_static(b"abcde"))))
    );
    let empty = || ReadBuf::limited(8);
    assert_eq!(read_chunk(empty(), Read::Ready(Ok(None))), Poll::Ready(Ok(None)));
    assert_eq!(read_chunk(empty(), Read::Ready(Err("lost"))), Poll::Ready(Err("lost")));
    assert_eq!(read_chunk(empty(), Read::Pending), Poll::Pending);

    assert_eq!(read_more(4, Read::Ready(Ok(Some(1)))), Poll::Ready(Ok(false)));
    assert_eq!(read_more(0, Read::Ready(Ok(Some(1)))), Poll::Ready(Ok(true)));
    assert_eq!(read_more(4, Read::Ready(Ok(Some(0)))), Poll::Ready(Ok(true)));
    assert_eq!(read_more(4, Read::Ready(Ok(None))), Poll::Ready(Ok(true)));
    assert_eq!(read_more(4, Read::Ready(Err("lost"))), Poll::Ready(Err("lost")));
    assert_eq!(read_more(4, Read::Pending), Poll::Pending);
}
