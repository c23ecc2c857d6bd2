//! Sessions in the browser.

use std::future::Future;
use std::pin::Pin;
use std::sync::{Arc, Mutex};
use std::task::{Context, Poll, Waker};

use web_transport::browser::datagram::{poll_send_datagram, DatagramEvent, DatagramStep};
use web_transport::browser::error::{closed_code, Error, Source};
use web_transport::browser::incoming::{should_adopt_orphan, Incoming, IncomingOp};
use web_transport::browser::recv::{RecvStep, RecvStream};
use web_transport::browser::send::{SendStream, WriteStep};
use web_transport::traits::error::Error as _;

#[test]
fn only_older_orphans_preempt_an_inflight_read() {
    assert!(should_adopt_orphan(Some(2), 1));
    assert!(!should_adopt_orphan(Some(1), 2));
    assert!(should_adopt_orphan(None, 2));
}

/// The browser's queue: values are handed to reads in the order in which they were made.
#[derive(Clone, Default)]
struct Queue {
    state: Arc<Mutex<(usize, Vec<Option<&'static str>>)>>,
}

struct Read {
    queue: Queue,
    slot: usize,
}

impl Queue {
    fn read(&self) -> Read {
        let mut state = self.state.lock().unwrap();
        state.1.push(None);
        Read {
            queue: self.clone(),
            slot: state.1.len() - 1,
        }
    }

    fn reads(&self) -> usize {
        self.state.lock().unwrap().1.len()
    }

    fn push(&self, value: &'static str) {
        let mut state = self.state.lock().unwrap();
        let next = state.0;
        state.1[next] = Some(value);
        state.0 += 1;
    }
}

impl Future for Read {
    type Output = &'static str;

    fn poll(self: Pin<&mut Self>, _: &mut Context<'_>) -> Poll<&'static str> {
        match self.queue.state.lock().unwrap().1[self.slot] {
            Some(value) => Poll::Ready(value),
            None => Poll::Pending,
        }
    }
}

#[test]
fn a_dropped_read_is_taken_over() {
    let queue = Queue::default();
    let mut incoming: Incoming<Read, &'static str> = Incoming::new();
    let mut cx = Context::from_waker(Waker::noop());
    let mut first = IncomingOp::new();
    let mut second = first.clone();
    let mut third = IncomingOp::new();

    assert!(incoming.poll(&mut first, &mut cx, "a", || queue.read()).is_pending());
    assert!(incoming.poll(&mut second, &mut cx, "b", || queue.read()).is_pending());
    assert_eq!((first.order(), second.order()), (Some(0), Some(1)));
    let waiting: Vec<_> = incoming.waiters().iter().map(|(k, v)| (*k, *v)).collect();
    assert_eq!(waiting, [(0, "a"), (1, "b")]);

    // The handle of the oldest read goes away; whoever is left waits for its read.
    assert!(first.release(&mut incoming));
    assert!(!first.release(&mut incoming));
    assert!(incoming.poll(&mut second, &mut cx, "b", || queue.read()).is_pending());
    assert_eq!(second.order(), Some(0));
    // A handle without a read takes over the one that this left, rather than adding one.
    assert!(incoming.poll(&mut third, &mut cx, "c", || queue.read()).is_pending());
    assert_eq!(third.order(), Some(1));
    assert_eq!(queue.reads(), 2);

    queue.push("one");
    queue.push("two");
    assert_eq!(
        incoming.poll(&mut second, &mut cx, "b", || queue.read()),
        Poll::Ready("one")
    );
    assert_eq!(
        incoming.poll(&mut third, &mut cx, "c", || queue.read()),
        Poll::Ready("two")
    );
    assert_eq!(second.order(), None);
    assert!(incoming.waiters().is_empty());
    assert!(incoming.poll(&mut second, &mut cx, "b", || queue.read()).is_pending());
    assert_eq!(second.order(), Some(2));
}

#[test]
fn a_resolved_read_is_forgotten() {
    let mut incoming: Incoming<&str, &str> = Incoming::new();
    assert!(!incoming.exhausted());
    let mut op = IncomingOp::new();
    assert_eq!(incoming.settle(&mut op, 3, "read", Poll::<u8>::Pending), Poll::Pending);
    assert_eq!(op.order(), Some(3));
    assert_eq!(incoming.settle(&mut op, 3, "read", Poll::Ready(7)), Poll::Ready(7));
    assert_eq!(op.order(), None);
}

fn chunk(step: RecvStep<bytes::Bytes>) -> Vec<u8> {
    match step {
        RecvStep::Read(chunk) => chunk.to_vec(),
        RecvStep::End => panic!("the stream ended"),
        RecvStep::Fill => panic!("the stream is empty"),
    }
}

#[test]
fn a_stream_is_read_in_order() {
    let mut stream = RecvStream::new();
    assert!(matches!(stream.poll_read_chunk(4), RecvStep::Fill));
    // Asking for no bytes is not end of stream.
    assert_eq!(chunk(stream.poll_read_chunk(0)), b"");

    stream.filled(Some(b"hello world".to_vec()));
    assert_eq!(chunk(stream.poll_read_chunk(4)), b"hell");
    let mut dst = [b'-'; 6];
    assert!(matches!(stream.poll_read(&mut dst[..5]), RecvStep::Read(5)));
    assert_eq!(&dst, b"o wor-");
    assert!(matches!(stream.poll_read(&mut dst), RecvStep::Read(2)));
    assert_eq!(&dst, b"ldwor-");
    assert!(matches!(stream.poll_read(&mut dst), RecvStep::Fill));
    assert!(matches!(stream.poll_read(&mut []), RecvStep::Read(0)));

    // An empty chunk is not the end either.
    stream.filled(Some(Vec::new()));
    assert!(matches!(stream.poll_read(&mut dst), RecvStep::Fill));
    stream.filled(None);
    assert!(matches!(stream.poll_read(&mut dst), RecvStep::End));
    assert!(matches!(stream.poll_read_chunk(9), RecvStep::End));
}

#[test]
fn one_write_is_outstanding_at_a_time() {
    let mut stream = SendStream::new();
    assert!(matches!(stream.poll_write(), WriteStep::Settle));
    assert!(matches!(
        stream.settled(Poll::Pending, 5),
        WriteStep::Done(Poll::Pending)
    ));
    assert!(matches!(
        stream.settled(Poll::Ready(Err(Error::Closed)), 5),
        WriteStep::Done(Poll::Ready(Err(Error::Closed)))
    ));
    assert!(matches!(stream.settled(Poll::Ready(Ok(())), 5), WriteStep::Write));
    assert!(matches!(
        stream.settled(Poll::Ready(Ok(())), 0),
        WriteStep::Done(Poll::Ready(Ok(0)))
    ));

    assert!(stream.finish());
    assert!(!stream.finish());
    assert!(matches!(
        stream.poll_write(),
        WriteStep::Done(Poll::Ready(Err(Error::Closed)))
    ));
    let mut stream = SendStream::new();
    stream.reset();
    assert!(!stream.finish());
}

#[test]
fn datagrams_wait_for_room() {
    assert!(matches!(poll_send_datagram(DatagramEvent::Start), DatagramStep::Settle));
    assert!(matches!(
        poll_send_datagram(DatagramEvent::Settled(Poll::Pending)),
        DatagramStep::Done(Poll::Pending)
    ));
    assert!(matches!(
        poll_send_datagram(DatagramEvent::Settled(Poll::Ready(Ok(())))),
        DatagramStep::Room
    ));
    assert!(matches!(poll_send_datagram(DatagramEvent::Room(Ok(true))), DatagramStep::Write));
    assert!(matches!(poll_send_datagram(DatagramEvent::Room(Ok(false))), DatagramStep::Ready));
    assert!(matches!(
        poll_send_datagram(DatagramEvent::Ready(Poll::Ready(Ok(())))),
        DatagramStep::RoomWhenReady
    ));
    // Another handle may take the room before this one is polled.
    assert!(matches!(
        poll_send_datagram(DatagramEvent::RoomWhenReady(Ok(true))),
        DatagramStep::Room
    ));
    assert!(matches!(
        poll_send_datagram(DatagramEvent::RoomWhenReady(Ok(false))),
        DatagramStep::Closed
    ));
    assert!(matches!(
        poll_send_datagram(DatagramEvent::Closed(Poll::Ready(Ok(())))),
        DatagramStep::Done(Poll::Ready(Err(Error::Closed)))
    ));
    for event in [
        DatagramEvent::Settled(Poll::Ready(Err(Error::Unknown("x".into())))),
        DatagramEvent::Room(Err(Error::Unknown("x".into()))),
        DatagramEvent::Ready(Poll::Ready(Err(Error::Unknown("x".into())))),
        DatagramEvent::RoomWhenReady(Err(Error::Unknown("x".into()))),
        DatagramEvent::Closed(Poll::Ready(Err(Error::Unknown("x".into())))),
    ] {
        assert!(matches!(
            poll_send_datagram(event),
            DatagramStep::Done(Poll::Ready(Err(Error::Unknown(text)))) if text == "x"
        ));
    }
}

#[test]
fn errors_are_told_apart_by_their_source() {
    let text = || "why".to_string();
    let stream = Error::classify(Source::Stream, Some(7), text());
    assert_eq!(stream.code(), Some(7));
    assert_eq!(stream.stream_error(), Some(7));
    assert_eq!(stream.session_error(), None);
    assert!(matches!(closed_code(Err(stream)), Ok(Some(7))));

    let session = Error::classify(Source::Session, None, text());
    assert_eq!(session.code(), Some(0));
    assert_eq!(session.session_error(), Some((0, text())));
    assert_eq!(session.stream_error(), None);
    assert!(matches!(closed_code(Err(session)), Err(Error::Session { code: 0, .. })));

    let other = Error::classify(Source::Other, Some(7), text());
    assert_eq!(other.code(), None);
    assert!(matches!(closed_code(Ok(())), Ok(None)));
    let unnamed = Error::classify(Source::Stream, None, text());
    assert!(matches!(closed_code(Err(unnamed)), Err(Error::Stream(None, _))));

    assert_eq!(
        Error::closed(Some(9), Some(text())).session_error(),
        Some((9, text()))
    );
    assert_eq!(
        Error::closed(None, None).session_error(),
        Some((0, String::new()))
    );
    assert_eq!(Error::Closed.clone().code(), None);
}
