//! The sending half of a stream.

use std::collections::HashMap;
use std::task::Poll;

use bytes::Bytes;
use web_transport::ez::connection::{TransportError, TransportErrorKind};
use web_transport::ez::driver::DriverState;
use web_transport::ez::priority::DEFAULT_PRIORITY;
use web_transport::ez::send::{FlushEvent, FlushStep, SendState, DROP_CODE};
use web_transport::ez::stream::{StreamError, StreamId};

type Driver = DriverState<(), (), ()>;

fn client_uni() -> StreamId {
    StreamId::first(false, false)
}

/// A stream registered on an existing driver, so several can be ranked against each other
/// the way one connection's streams are.
fn new_test_on(driver: &mut Driver, id: StreamId) -> StreamId {
    driver.register_send(id);
    id
}

/// The urgency handed to the transport.
fn urgency(driver: &Driver, id: StreamId) -> u8 {
    driver.urgency_of(id).expect("stream is ranked on construction")
}

/// Streams have to share a driver to be ranked against each other, since the ranking is
/// connection-wide.
fn connection<const N: usize>(orders: [i32; N]) -> (Driver, [StreamId; N]) {
    let mut driver = Driver::new(false);
    let streams = std::array::from_fn(|i| {
        // Distinct client-uni ids: 2, 6, 10, ...
        let stream = new_test_on(&mut driver, StreamId::from(2 + i as u64 * 4));
        driver.set_priority(stream, orders[i]);
        stream
    });
    (driver, streams)
}

#[test]
fn higher_priority_is_sent_first() {
    let (driver, [low, high]) = connection([1, 2]);

    // Lower urgencies are sent first.
    assert!(urgency(&driver, high) < urgency(&driver, low));
}

#[test]
fn untouched_stream_is_outranked_by_any_promotion() {
    for priority in [1, 55, 100, 128, 200, 255, i32::MAX] {
        let mut driver = Driver::new(false);
        let untouched = new_test_on(&mut driver, client_uni());
        let promoted = new_test_on(&mut driver, StreamId::from(6));

        driver.set_priority(promoted, priority);

        assert!(
            urgency(&driver, promoted) < urgency(&driver, untouched),
            "priority {priority} should outrank an untouched stream"
        );
    }
}

/// The mirror of the above, and the reason the `i32` is signed: a stream can ask to go
/// *behind* everything that never set a priority.
#[test]
fn a_demoted_stream_falls_behind_an_untouched_one() {
    for priority in [-1, -55, -1000, i32::MIN] {
        let mut driver = Driver::new(false);
        let untouched = new_test_on(&mut driver, client_uni());
        let demoted = new_test_on(&mut driver, StreamId::from(6));

        driver.set_priority(demoted, priority);

        assert!(
            urgency(&driver, demoted) > urgency(&driver, untouched),
            "priority {priority} should fall behind an untouched stream"
        );
    }
}

#[test]
fn explicit_default_matches_untouched() {
    let mut driver = Driver::new(false);
    let untouched = new_test_on(&mut driver, client_uni());
    let explicit = new_test_on(&mut driver, StreamId::from(6));

    driver.set_priority(explicit, DEFAULT_PRIORITY);

    assert_eq!(urgency(&driver, explicit), urgency(&driver, untouched));
}

/// Equal priorities share a band so that they take turns, rather than inventing a strict
/// order between streams the caller called equal.
#[test]
fn equal_priorities_share_an_urgency() {
    let (driver, [a, b]) = connection([7, 7]);

    assert_eq!(urgency(&driver, a), urgency(&driver, b));
}

fn error(kind: TransportErrorKind) -> TransportError {
    TransportError {
        kind,
        text: format!("{kind:?}"),
    }
}

/// Flush a stream to a transport that takes up to `budget` bytes, collecting what it gets.
/// Returns who was woken, and whether the stream was finished.
fn flush(
    state: &mut SendState<u32>,
    mut budget: usize,
    capacity: usize,
    out: &mut Vec<u8>,
) -> (Option<u32>, bool) {
    let mut finished = false;
    let mut step = state.flush(FlushEvent::Start);
    loop {
        step = match step {
            FlushStep::ShutDown(_) => state.flush(FlushEvent::ShutDown(Ok(()))),
            FlushStep::Send => {
                let chunk = state.next_chunk().unwrap().to_vec();
                let sent = budget.min(chunk.len());
                budget -= sent;
                out.extend_from_slice(&chunk[..sent]);
                if sent == 0 && !chunk.is_empty() {
                    state.flush(FlushEvent::Sent(Err(error(TransportErrorKind::Done))))
                } else {
                    state.flush(FlushEvent::Sent(Ok(sent)))
                }
            }
            FlushStep::Writable => state.flush(FlushEvent::Writable(Ok(()))),
            FlushStep::Finish => {
                finished = true;
                state.flush(FlushEvent::Finished(Ok(())))
            }
            FlushStep::Capacity => state.flush(FlushEvent::Capacity(Ok(capacity))),
            FlushStep::Done(waker) => return (waker, finished),
            FlushStep::Failed(error) => panic!("the connection failed: {}", error.text),
        };
    }
}

fn ready(result: Poll<Result<usize, StreamError>>) -> usize {
    match result {
        Poll::Ready(Ok(n)) => n,
        other => panic!("expected a write, got {other:?}"),
    }
}

#[test]
fn a_new_stream_waits_for_capacity() {
    let mut state = SendState::new(client_uni());
    assert!(state.poll_write(1, b"hello").is_pending());

    let mut out = Vec::new();
    assert_eq!(flush(&mut state, 0, 3, &mut out), (Some(1), false));
    assert_eq!(ready(state.poll_write(2, b"hello")), 3);
    assert!(state.poll_write(3, b"lo").is_pending());
    assert_eq!(state.next_chunk(), Some(&b"hel"[..]));
    assert_eq!(state.id(), StreamId::from(2));
}

#[test]
fn a_buffer_is_advanced_by_what_was_written() {
    let mut state = SendState::new(client_uni());
    let mut out = Vec::new();
    flush(&mut state, 0, 3, &mut out);

    let mut buf = Bytes::from_static(b"hello");
    assert_eq!(ready(state.poll_write_buf(1, &mut buf)), 3);
    assert_eq!(&buf[..], b"lo");
    assert!(state.poll_write_buf(1, &mut buf).is_pending());
    assert_eq!(&buf[..], b"lo");
}

#[test]
fn bytes_reach_the_transport_in_order() {
    let mut state = SendState::new(client_uni());
    let mut out = Vec::new();
    flush(&mut state, 0, 100, &mut out);
    for word in ["one ", "two ", "three ", "four"] {
        assert_eq!(ready(state.poll_write(1, word.as_bytes())), word.len());
    }
    assert!(state.poll_flushed(2).is_pending());

    // Part of a chunk goes out, and the rest of it stays first in line.
    assert_eq!(flush(&mut state, 6, 0, &mut out), (None, false));
    assert_eq!(out, b"one tw");
    assert_eq!(state.next_chunk(), Some(&b"o "[..]));
    assert!(state.poll_flushed(3).is_pending());

    // The flush waiter is woken once the queue is empty, without capacity for more.
    assert_eq!(flush(&mut state, 100, 0, &mut out), (Some(3), false));
    assert_eq!(out, b"one two three four");
    assert!(matches!(state.poll_flushed(4), Poll::Ready(Ok(()))));
}

#[test]
fn a_stream_is_finished_after_its_data() {
    let mut state = SendState::new(client_uni());
    let mut out = Vec::new();
    flush(&mut state, 0, 100, &mut out);
    ready(state.poll_write(1, b"data"));
    assert!(state.finish().is_ok());
    assert!(matches!(state.finish(), Err(StreamError::Closed)));
    assert!(matches!(state.is_finished(), Ok(true)));
    assert!(matches!(
        state.poll_write(1, b"more"),
        Poll::Ready(Err(StreamError::Closed))
    ));
    assert!(state.poll_closed(7).is_pending());

    assert_eq!(flush(&mut state, 2, 0, &mut out), (None, false));
    assert_eq!(flush(&mut state, 2, 0, &mut out), (Some(7), true));
    assert_eq!(out, b"data");
    assert!(state.is_closed());
    assert!(matches!(state.poll_closed(8), Poll::Ready(Ok(()))));
}

#[test]
fn shutting_down_twice_finishes_once() {
    let mut state: SendState<u32> = SendState::new(client_uni());
    assert!(matches!(state.shut_down(), Ok(true)));
    assert!(matches!(state.shut_down(), Ok(false)));
    state.reset(4);
    assert!(matches!(state.shut_down(), Err(StreamError::Reset(4))));
}

#[test]
fn a_reset_goes_before_the_data() {
    let mut state = SendState::new(client_uni());
    let mut out = Vec::new();
    flush(&mut state, 0, 100, &mut out);
    ready(state.poll_write(1, b"data"));
    state.reset(9);
    assert!(matches!(
        state.flush(FlushEvent::Start),
        FlushStep::ShutDown(9)
    ));
    assert!(matches!(
        state.flush(FlushEvent::ShutDown(Ok(()))),
        FlushStep::Done(None)
    ));
    assert!(state.is_closed());
    assert!(matches!(
        state.poll_closed(1),
        Poll::Ready(Err(StreamError::Reset(9)))
    ));
    assert!(matches!(state.is_finished(), Err(StreamError::Reset(9))));
}

#[test]
fn a_stop_discards_what_was_queued() {
    let mut state = SendState::new(client_uni());
    let mut out = Vec::new();
    flush(&mut state, 0, 2, &mut out);
    ready(state.poll_write(1, b"data"));
    assert!(state.poll_write(5, b"ta").is_pending());

    assert!(matches!(state.flush(FlushEvent::Start), FlushStep::Send));
    let stopped = error(TransportErrorKind::StreamStopped(33));
    assert!(matches!(
        state.flush(FlushEvent::Sent(Err(stopped))),
        FlushStep::Done(Some(5))
    ));
    assert!(state.is_closed());
    assert_eq!(state.next_chunk(), None);
    assert!(matches!(
        state.poll_write(1, b"more"),
        Poll::Ready(Err(StreamError::Stop(33)))
    ));
    assert!(matches!(state.finish(), Err(StreamError::Stop(33))));
}

/// A stream that the transport has discarded is no successful flush: the bytes never left.
#[test]
fn a_discarded_stream_is_not_flushed() {
    for kind in [
        TransportErrorKind::InvalidStreamState(2),
        TransportErrorKind::Done,
    ] {
        let mut state = SendState::new(client_uni());
        let mut out = Vec::new();
        flush(&mut state, 0, 2, &mut out);
        ready(state.poll_write(1, b"da"));
        assert!(matches!(state.flush(FlushEvent::Start), FlushStep::Send));
        assert!(matches!(
            state.flush(FlushEvent::Sent(Ok(1))),
            FlushStep::Writable
        ));
        assert!(matches!(
            state.flush(FlushEvent::Writable(Err(error(kind)))),
            FlushStep::Done(None)
        ));
        assert!(matches!(
            state.poll_flushed(1),
            Poll::Ready(Err(StreamError::Closed))
        ));
        assert!(matches!(state.is_finished(), Ok(true)));
        assert!(matches!(state.shut_down(), Err(StreamError::Closed)));
    }
}

/// A stream is finished, too, once the peer has closed it; shutting it down still tells
/// why it ended.
#[test]
fn a_stream_stopped_by_the_peer_is_finished() {
    let mut state: SendState<u32> = SendState::new(client_uni());
    assert!(matches!(state.is_finished(), Ok(false)));
    assert!(matches!(state.flush(FlushEvent::Start), FlushStep::Capacity));
    let stopped = error(TransportErrorKind::StreamStopped(7));
    assert!(matches!(
        state.flush(FlushEvent::Capacity(Err(stopped))),
        FlushStep::Done(None)
    ));
    assert!(matches!(state.is_finished(), Ok(true)));
    assert!(matches!(state.finish(), Err(StreamError::Stop(7))));
    assert!(matches!(state.shut_down(), Err(StreamError::Stop(7))));

    // Flushing the stream again forgets nothing.
    assert!(matches!(state.flush(FlushEvent::Start), FlushStep::Done(None)));
    assert!(state.is_closed());
    assert!(matches!(
        state.poll_closed(1),
        Poll::Ready(Err(StreamError::Stop(7)))
    ));

    // A reset is an error either way.
    state.reset(3);
    assert!(matches!(state.is_finished(), Err(StreamError::Reset(3))));
}

/// An error of the whole connection is handed on, and ends no stream by itself.
#[test]
fn a_connection_error_is_propagated() {
    let mut state: SendState<u32> = SendState::new(client_uni());
    assert!(matches!(state.flush(FlushEvent::Start), FlushStep::Capacity));
    match state.flush(FlushEvent::Capacity(Err(error(TransportErrorKind::Other)))) {
        FlushStep::Failed(error) => assert_eq!(error.text, "Other"),
        _ => panic!("the error was swallowed"),
    }
    assert!(!state.is_closed());
}

#[test]
fn a_dropped_stream_is_reset_unless_it_has_ended() {
    let mut state: SendState<u32> = SendState::new(client_uni());
    assert!(state.abandon());
    assert!(matches!(
        state.is_finished(),
        Err(StreamError::Reset(DROP_CODE))
    ));
    assert!(!state.abandon());

    let mut state: SendState<u32> = SendState::new(client_uni());
    state.finish().unwrap();
    assert!(!state.abandon());
    assert!(matches!(state.is_finished(), Ok(true)));
}

/// Removing the top stream from the ranking of a connection moves the others up.
#[test]
fn retiring_a_stream_promotes_the_others() {
    let (mut driver, [a, b, c]) = connection([3, 2, 1]);
    driver.retire_send(a);
    let found: HashMap<u64, Option<u8>> =
        [a, b, c].iter().map(|id| (id.0, driver.urgency_of(*id))).collect();
    assert_eq!(found[&a.0], None);
    assert_eq!(found[&b.0], Some(0));
    assert_eq!(found[&c.0], Some(1));
    assert_eq!(driver.priority_of(b), Some(2));
}
