//! The state that a connection shares with its driver, and the driver's passes.

use std::sync::atomic::{AtomicBool, Ordering};
use std::sync::Arc;
use std::task::{Poll, Wake, Waker};

use kio::Waiter;
use web_transport::ez::connection::{
    max_datagram_size, send_datagram, ConnectionClosed, ConnectionError, ConnectionStats,
    DatagramOutcome, PathStats, TransportError, TransportErrorKind, TransportStats,
};
use web_transport::ez::driver::{
    close_frame, pass_outcome, Driver, DriverState, ReadStep, DATAGRAM_CAPACITY, DROP_CODE,
};
use web_transport::ez::pass::{Pass, PassStep};
use web_transport::ez::stream::{StreamError, StreamId};
use web_transport::traits::stats::{Stats, StatsUnavailable};

type State = DriverState<&'static str, String, String>;

#[derive(Default)]
struct Flag {
    woken: AtomicBool,
}

impl Wake for Flag {
    fn wake(self: Arc<Self>) {
        self.woken.store(true, Ordering::SeqCst);
    }
}

fn waiter() -> (Arc<Flag>, Waiter) {
    let flag = Arc::new(Flag::default());
    let waiter = Waiter::new(Waker::from(flag.clone()));
    (flag, waiter)
}

impl Flag {
    fn woken(&self) -> bool {
        self.woken.swap(false, Ordering::SeqCst)
    }
}

fn local() -> ConnectionError {
    ConnectionError::Local(42, "done".to_string())
}

fn send_handle(id: StreamId) -> String {
    format!("send {}", id.0)
}

fn handles(id: StreamId) -> (String, String) {
    (format!("send {}", id.0), format!("recv {}", id.0))
}

#[test]
fn closed_waits_for_driver_completion() {
    let mut state = State::new(false);
    let waiter = Waiter::noop();
    let err = ConnectionError::Local(42, "done".to_string());

    assert!(state.closed(&waiter).is_pending());

    state.close(err.clone());

    assert!(state.close_requested(&waiter).is_ready());
    assert!(state.closed(&waiter).is_pending());

    state.finish_close(err);

    assert!(state.closed(&waiter).is_ready());
}

#[test]
fn local_close_is_an_error_before_driver_is_closed() {
    let mut state = State::new(false);
    let waiter = Waiter::noop();

    state.close(ConnectionError::Local(42, "done".to_string())).wake();

    assert!(matches!(
        state.error(&waiter),
        Poll::Ready(ConnectionError::Local(42, reason)) if reason == "done"
    ));
    assert!(state.closed(&waiter).is_pending());
    assert!(state.is_closed());
}

#[test]
fn the_first_error_stands_and_wakes_everyone() {
    let mut closed = ConnectionClosed::new();
    let (flag, parked) = waiter();
    assert!(closed.poll(&parked).is_pending());
    assert!(!closed.is_closed());
    closed.abort(ConnectionError::Dropped).wake();
    assert!(flag.woken());

    assert!(closed.poll(&parked).is_ready());
    closed.abort(local()).wake();
    assert!(!flag.woken());
    assert!(matches!(closed.error(), Some(ConnectionError::Dropped)));
}

#[test]
fn streams_are_opened_with_the_ids_of_their_kind() {
    for (server, bi, uni) in [(false, [0, 4], [2, 6]), (true, [1, 5], [3, 7])] {
        let mut state = State::new(server);
        let (flag, parked) = waiter();

        // The peer allows none yet.
        assert!(state.open_uni(&parked, send_handle).is_pending());
        assert!(state.open_bi(&parked, handles).is_pending());
        let (mut bi_woken, mut uni_woken) = state.allow(2, 0);
        uni_woken.wake();
        assert!(!flag.woken());
        bi_woken.wake();
        assert!(flag.woken());
        state.allow(2, 2).1.wake();
        assert!(flag.woken());

        state.park("driver");
        for (n, id) in bi.into_iter().enumerate() {
            match state.open_bi(&parked, handles) {
                Poll::Ready(Ok((waker, got, send, recv))) => {
                    assert_eq!(waker, if n == 0 { Some("driver") } else { None });
                    assert_eq!(got, StreamId::from(id));
                    assert!(got.is_bi() && !got.is_uni());
                    assert_eq!(send, format!("send {id}"));
                    assert_eq!(recv, format!("recv {id}"));
                }
                _ => panic!("the peer allows a stream"),
            }
        }
        assert!(state.open_bi(&parked, handles).is_pending());
        for id in uni {
            match state.open_uni(&parked, send_handle) {
                Poll::Ready(Ok((_, got, send))) => {
                    assert_eq!(u64::from(got), id);
                    assert!(got.is_uni());
                    assert_eq!(send, format!("send {id}"));
                    assert_eq!(state.priority_of(got), Some(0));
                }
                _ => panic!("the peer allows a stream"),
            }
        }
        assert_eq!(state.next_bi().0, bi[1] + 4);
        assert_eq!(state.next_uni().0, uni[1] + 4);
        assert_eq!(state.created_bi().len(), 2);
        let created: Vec<u64> = state.created_uni().iter().map(|(id, _)| id.0).collect();
        assert_eq!(created, uni);
        assert!(state.created_uni().is_empty());
    }
}

#[test]
fn a_closed_connection_opens_and_accepts_nothing() {
    let mut state = State::new(false);
    state.allow(1, 1);
    state.close(local());
    let waiter = Waiter::noop();
    assert!(matches!(
        state.open_bi(&waiter, handles),
        Poll::Ready(Err(ConnectionError::Local(42, _)))
    ));
    assert!(matches!(
        state.open_uni(&waiter, send_handle),
        Poll::Ready(Err(ConnectionError::Local(42, _)))
    ));
    assert!(matches!(
        state.poll_accept_uni(&waiter),
        Poll::Ready(Err(ConnectionError::Local(42, _)))
    ));
    assert!(matches!(
        state.stream_error::<()>(&waiter),
        Poll::Ready(Err(StreamError::Connection(ConnectionError::Local(42, _))))
    ));
    // What is queued may still be sent until the driver is done.
    assert!(state.stream_end::<()>(&waiter).is_pending());
    state.finish_close(ConnectionError::Dropped);
    assert!(matches!(
        state.stream_end::<()>(&waiter),
        Poll::Ready(Err(StreamError::Connection(ConnectionError::Dropped)))
    ));
}

#[test]
fn accepted_streams_come_out_in_order() {
    let mut state = State::new(true);
    let (flag, parked) = waiter();
    assert!(state.poll_accept_bi(&parked).is_pending());
    assert!(state.poll_accept_uni(&parked).is_pending());

    state.queue_bi(StreamId(0), "s0".into(), "r0".into()).wake();
    assert!(flag.woken());
    state.queue_bi(StreamId(4), "s4".into(), "r4".into()).wake();
    state.queue_uni(StreamId(2), "r2".into()).wake();
    assert!(flag.woken());
    assert_eq!(state.urgency_of(StreamId(4)), Some(0));

    match state.poll_accept_bi(&parked) {
        Poll::Ready(Ok((id, send, recv))) => {
            assert_eq!((id.0, send.as_str(), recv.as_str()), (0, "s0", "r0"));
        }
        _ => panic!("a stream is there"),
    }
    match state.poll_accept_uni(&parked) {
        Poll::Ready(Ok((id, recv))) => assert_eq!((id.0, recv.as_str()), (2, "r2")),
        _ => panic!("a stream is there"),
    }
    // A stream that arrived is handed over though the connection is closing.
    state.close(local());
    assert!(matches!(state.poll_accept_bi(&parked), Poll::Ready(Ok(_))));
    assert!(matches!(state.poll_accept_bi(&parked), Poll::Ready(Err(_))));
}

#[test]
fn datagrams_past_the_limit_are_dropped() {
    let mut state = State::new(true);
    let (flag, parked) = waiter();
    assert!(state.poll_dgram_in(&parked).is_pending());
    for i in 0..DATAGRAM_CAPACITY + 3 {
        state.queue_datagram(&[i as u8]).wake();
    }
    assert!(flag.woken());
    for i in 0..DATAGRAM_CAPACITY {
        match state.poll_dgram_in(&parked) {
            Poll::Ready(Ok(datagram)) => assert_eq!(&datagram[..], &[i as u8]),
            _ => panic!("a datagram is there"),
        }
    }
    assert!(state.poll_dgram_in(&parked).is_pending());
}

#[test]
fn the_handshake_wakes_whoever_waits_for_it() {
    let mut state = State::new(false);
    let (flag, parked) = waiter();
    assert!(state.poll_handshake(&parked).is_pending());
    assert_eq!(state.alpn(), None);
    state
        .complete_handshake(b"h3".to_vec(), Some(vec![vec![1, 2]]))
        .wake();
    assert!(flag.woken());
    assert!(matches!(state.poll_handshake(&parked), Poll::Ready(Ok(()))));
    assert_eq!(state.alpn(), Some(&b"h3"[..]));
    assert_eq!(state.peer_certificates(), Some(&vec![vec![1, 2]]));

    // Peers that negotiate no protocol have completed the handshake all the same.
    let mut state = State::new(false);
    state.complete_handshake(Vec::new(), None);
    assert!(matches!(state.poll_handshake(&parked), Poll::Ready(Ok(()))));
    assert_eq!(state.alpn(), None);

    let mut state = State::new(false);
    state.close(local());
    assert!(matches!(state.poll_handshake(&parked), Poll::Ready(Err(_))));
    state.set_server_name(Some("example.com".to_string()));
    assert_eq!(state.server_name(), Some("example.com"));
}

#[test]
fn a_sleeping_driver_is_woken_once() {
    let mut state = State::new(false);
    let stats = ConnectionStats::default();
    state.park("driver");
    assert!(state.inspect(stats, false));
    assert_eq!(state.send(StreamId(2)), Some("driver"));
    assert_eq!(state.send(StreamId(2)), None);
    assert_eq!(state.recv(StreamId(2)), None);
    assert!(!state.inspect(stats, false));

    state.park("driver");
    assert_eq!(state.notify(StreamId(6), true), None);
    assert_eq!(state.notify(StreamId(6), false), Some("driver"));
    state.park("driver");
    assert_eq!(state.wake(), Some("driver"));
    assert_eq!(state.wake(), None);

    let (send, recv) = state.take_work();
    let mut send: Vec<u64> = send.into_iter().collect();
    send.sort();
    assert_eq!(send, [2, 6]);
    assert_eq!(recv.into_iter().collect::<Vec<u64>>(), [2]);
    assert!(!state.inspect(stats, true));
    assert!(state.inspect(stats, false));
}

#[test]
fn errors_are_closed_with_their_codes() {
    let text = |text: &str| text.to_string();
    assert_eq!(close_frame(local()), (42, text("done")));
    assert_eq!(
        close_frame(ConnectionError::Remote(7, text("gone"))),
        (7, text("gone"))
    );
    assert_eq!(close_frame(ConnectionError::Dropped), (DROP_CODE, text("dropped")));
    assert_eq!(DROP_CODE, u64::from(u32::from_be_bytes(*b"drop")));
    let failed = TransportError {
        kind: TransportErrorKind::Other,
        text: text("TlsFail"),
    };
    assert_eq!(
        close_frame(ConnectionError::Transport(failed)),
        (500, text("TlsFail"))
    );
    assert_eq!(
        close_frame(ConnectionError::Unknown(text("?"))),
        (501, text("?"))
    );
}

#[test]
fn the_end_is_told_by_whoever_knows_best() {
    let conclude = |requested: Option<ConnectionError>, local, peer, failure: Option<&str>| {
        let mut state = State::new(false);
        if let Some(error) = requested {
            state.close(error);
        }
        let (flag, parked) = waiter();
        assert!(state.closed(&parked).is_pending());
        let (mut ended, mut closing) =
            state.conclude(local, peer, failure.map(|text| text.to_string()));
        ended.wake();
        assert!(flag.woken());
        closing.wake();
        match state.closed(&parked) {
            Poll::Ready(error) => error,
            Poll::Pending => panic!("the connection has come to its end"),
        }
    };
    let our = Some((1, b"ours".to_vec()));
    let their = Some((2, b"the\xFFirs".to_vec()));
    assert!(matches!(
        conclude(Some(ConnectionError::Dropped), our.clone(), their.clone(), Some("x")),
        ConnectionError::Dropped
    ));
    assert!(matches!(
        conclude(None, our, their.clone(), Some("x")),
        ConnectionError::Local(1, reason) if reason == "ours"
    ));
    // What is not text is replaced.
    assert!(matches!(
        conclude(None, None, their, Some("x")),
        ConnectionError::Remote(2, reason) if reason == "the\u{FFFD}irs"
    ));
    assert!(matches!(
        conclude(None, None, None, Some("x")),
        ConnectionError::Unknown(reason) if reason == "x"
    ));
    assert!(matches!(
        conclude(None, None, None, None),
        ConnectionError::Unknown(reason) if reason == "no error message"
    ));
}

#[test]
fn streams_are_tracked_until_they_are_closed() {
    let mut state = State::new(true);
    let mut driver: Driver<String, String> = Driver::new();
    let id = StreamId(0);
    assert_eq!(driver.readable(id), ReadStep::AcceptBi);
    assert_eq!(driver.readable(StreamId(2)), ReadStep::AcceptUni);

    driver.accept_bi(&mut state, id, handles(id), handles(id)).wake();
    driver.accept_uni(&mut state, StreamId(2), "kept".into(), "given".into());
    assert_eq!(driver.readable(id), ReadStep::Flush);
    assert_eq!(driver.sender(id).unwrap(), "send 0");
    assert_eq!(driver.receiver(StreamId(2)).unwrap(), "kept");
    assert_eq!(driver.sender(StreamId(2)), None);
    assert_eq!(state.urgency_of(id), Some(0));

    driver.flushed_send(&mut state, id, false);
    assert!(driver.sender(id).is_some());
    driver.flushed_send(&mut state, id, true);
    assert!(driver.sender(id).is_none());
    assert_eq!(state.urgency_of(id), None);
    driver.flushed_recv(id, false);
    assert!(driver.receiver(id).is_some());
    driver.flushed_recv(id, true);
    assert!(driver.receiver(id).is_none());
}

#[test]
fn urgencies_wait_for_their_stream_to_be_known() {
    let mut state = State::new(false);
    let mut driver: Driver<String, String> = Driver::new();
    state.register_send(StreamId(2));
    state.register_send(StreamId(6));
    state.set_priority(StreamId(6), 5);
    driver.track_uni(StreamId(2), "two".into());

    assert_eq!(driver.urgencies(&mut state), [(StreamId(2), 1)]);
    assert!(driver.urgencies(&mut state).is_empty());
    driver.track_bi(StreamId(6), ("six".into(), "six".into()));
    assert_eq!(driver.urgencies(&mut state), [(StreamId(6), 0)]);
}

/// Run one pass over a transport that takes everything, noting what it was asked.
fn run(
    state: &mut State,
    driver: &mut Driver<String, String>,
    keep_alive: bool,
    closes: bool,
) -> (Vec<String>, Poll<Result<(), ConnectionError>>) {
    let waiter = Waiter::noop();
    let mut pass = Pass::new();
    let mut log = Vec::new();
    let mut step = pass.start(state, &waiter, false, true);
    loop {
        step = match step {
            PassStep::Close(code, reason) => {
                log.push(format!("close {code} {reason}"));
                pass.closed(Ok(()))
            }
            PassStep::KeepAlive => pass.kept_alive(state, "driver", Ok(keep_alive)),
            PassStep::Snapshot => pass.snapshot(state, ConnectionStats::default(), false),
            PassStep::Announce(id) => {
                log.push(format!("announce {}", id.0));
                pass.announced(driver, Ok(()))
            }
            PassStep::Allowance => pass.allowance(driver, state, 1, 1),
            PassStep::Apply(mut bi, mut uni, updates) => {
                bi.wake();
                uni.wake();
                for (id, urgency) in updates {
                    log.push(format!("urgency {} {urgency}", id.0));
                }
                pass.applied(driver)
            }
            PassStep::FlushRecv(id) => {
                log.push(format!("recv {}", id.0));
                pass.flushed(driver, state, Ok(closes))
            }
            PassStep::FlushSend(id) => {
                log.push(format!("send {}", id.0));
                pass.flushed(driver, state, Ok(closes))
            }
            PassStep::Done(outcome) => return (log, outcome),
        };
    }
}

#[test]
fn a_pass_announces_then_flushes() {
    let mut state = State::new(false);
    let mut driver = Driver::new();

    // Nothing to do: the driver sleeps, unless a keep-alive has to go out.
    let (log, outcome) = run(&mut state, &mut driver, false, false);
    assert!(log.is_empty() && outcome.is_pending());
    let (log, outcome) = run(&mut state, &mut driver, true, false);
    assert!(log.is_empty() && matches!(outcome, Poll::Ready(Ok(()))));

    let waiter = Waiter::noop();
    let opened = state.open_uni(&waiter, send_handle);
    assert!(matches!(opened, Poll::Ready(Ok((Some("driver"), StreamId(2), _)))));
    assert!(state.open_bi(&waiter, handles).is_ready());
    state.set_priority(StreamId(0), 3);
    state.send(StreamId(2));
    state.recv(StreamId(0));
    // A stream that is gone is passed over.
    state.send(StreamId(98));

    let (log, outcome) = run(&mut state, &mut driver, false, true);
    assert!(matches!(outcome, Poll::Ready(Ok(()))));
    assert_eq!(log[..2], ["announce 0", "announce 2"]);
    let mut urgencies = log[2..4].to_vec();
    urgencies.sort();
    assert_eq!(urgencies, ["urgency 0 0", "urgency 2 1"]);
    assert_eq!(log[4..], ["recv 0", "send 2"]);

    // Flushing closed both, so neither is tracked any more.
    assert!(driver.receiver(StreamId(0)).is_none());
    assert!(driver.sender(StreamId(0)).is_some());
    assert!(driver.sender(StreamId(2)).is_none());
    let (log, outcome) = run(&mut state, &mut driver, false, true);
    assert!(log.is_empty() && outcome.is_pending());
}

/// Whatever is left for the driver while a pass runs keeps it awake.
#[test]
fn work_left_during_a_pass_keeps_the_driver_awake() {
    let mut driver: Driver<String, String> = Driver::new();
    driver.track_uni(StreamId(2), "two".into());
    for noted in [false, true] {
        let mut state = State::new(false);
        let mut pass = Pass::new();
        assert!(matches!(
            pass.kept_alive(&mut state, "driver", Ok(false)),
            PassStep::Snapshot
        ));
        assert!(matches!(
            pass.snapshot(&mut state, ConnectionStats::default(), false),
            PassStep::Allowance
        ));
        if noted {
            assert_eq!(state.send(StreamId(2)), Some("driver"));
        }
        assert_eq!(state.is_quiet(), !noted);
        assert!(matches!(
            pass.allowance(&driver, &mut state, 0, 0),
            PassStep::Apply(..)
        ));
        let mut step = pass.applied(&driver);
        if noted {
            assert!(matches!(step, PassStep::FlushSend(StreamId(2))));
            step = pass.flushed(&mut driver, &mut state, Ok(false));
        }
        match step {
            PassStep::Done(outcome) => assert_eq!(outcome.is_pending(), !noted),
            _ => panic!("there is nothing more to flush"),
        }
    }
}

/// Streams that the transport has yet to be told of count against what the peer allows.
#[test]
fn streams_opened_during_a_pass_count_against_the_allowance() {
    let mut state = State::new(false);
    let driver: Driver<String, String> = Driver::new();
    let (flag, parked) = waiter();
    state.allow(1, 1);

    let mut pass = Pass::new();
    pass.kept_alive(&mut state, "driver", Ok(false));
    pass.snapshot(&mut state, ConnectionStats::default(), false);
    assert!(state.open_uni(&parked, send_handle).is_ready());
    assert!(state.open_uni(&parked, send_handle).is_pending());
    match pass.allowance(&driver, &mut state, 1, 1) {
        PassStep::Apply(mut bi, mut uni, _) => {
            bi.wake();
            uni.wake();
        }
        _ => panic!("the urgencies are next"),
    }
    assert!(!flag.woken());
    assert!(state.open_uni(&parked, send_handle).is_pending());
    assert!(state.open_bi(&parked, handles).is_ready());
    // The stream opened meanwhile is left for the next pass, which is to come at once.
    match pass.applied(&driver) {
        PassStep::Done(outcome) => assert!(matches!(outcome, Poll::Ready(Ok(())))),
        _ => panic!("there is nothing to flush"),
    }

    state.allow(0, 3).1.wake();
    assert!(flag.woken());
    assert!(state.open_uni(&parked, send_handle).is_ready());
    assert!(state.open_uni(&parked, send_handle).is_ready());
    assert!(state.open_uni(&parked, send_handle).is_pending());
    assert_eq!(state.created_uni().len(), 3);
}

#[test]
fn a_new_connection_has_counted_nothing() {
    let stats = State::new(false).stats();
    assert_eq!(stats.bytes_sent(), Some(0));
    assert_eq!(stats.packets_lost(), Some(0));
    assert_eq!((stats.rtt(), stats.estimated_send_rate()), (None, None));
}

/// Every stream gets one urgency, however many there are.
#[test]
fn no_stream_gets_two_urgencies() {
    let mut state = State::new(false);
    let mut driver: Driver<String, String> = Driver::new();
    for i in 0..20u64 {
        let id = StreamId(4 * i + 2);
        state.register_send(id);
        state.set_priority(id, i as i32);
        driver.track_uni(id, "tracked".into());
    }
    let mut updates = driver.urgencies(&mut state);
    updates.sort_by_key(|(id, _)| id.0);
    let expected: Vec<(StreamId, u8)> = (0..20u64)
        .map(|i| (StreamId(4 * i + 2), 19 - i as u8))
        .collect();
    assert_eq!(updates, expected);
}

#[test]
fn a_pass_closes_the_connection_when_asked() {
    let mut state = State::new(false);
    let mut driver = Driver::new();
    state.close(local());
    let (log, outcome) = run(&mut state, &mut driver, false, false);
    assert_eq!(log, ["close 42 done"]);
    assert!(matches!(outcome, Poll::Ready(Ok(()))));

    // Not while it drains, when it is too late.
    let pass: Pass<String, String> = Pass::new();
    let waiter = Waiter::noop();
    assert!(matches!(
        pass.start(&mut state, &waiter, true, true),
        PassStep::KeepAlive
    ));
    assert!(matches!(
        pass.start(&mut state, &waiter, true, false),
        PassStep::Done(Poll::Pending)
    ));
}

#[test]
fn a_pass_ends_when_the_transport_fails() {
    let failed = || TransportError {
        kind: TransportErrorKind::Other,
        text: "TlsFail".to_string(),
    };
    let is_failure = |step: PassStep| {
        matches!(
            step,
            PassStep::Done(Poll::Ready(Err(ConnectionError::Transport(error))))
                if error.text == "TlsFail"
        )
    };
    let mut state = State::new(false);
    let mut driver: Driver<String, String> = Driver::new();
    let mut pass = Pass::new();
    assert!(is_failure(pass.closed(Err(failed()))));
    assert!(is_failure(pass.kept_alive(&mut state, "driver", Err(failed()))));

    state.allow(0, 1);
    assert!(state.open_uni(&Waiter::noop(), send_handle).is_ready());
    assert!(matches!(
        pass.snapshot(&mut state, ConnectionStats::default(), false),
        PassStep::Announce(StreamId(2))
    ));
    assert!(is_failure(pass.announced(&mut driver, Err(failed()))));

    let mut pass = Pass::new();
    driver.track_uni(StreamId(2), "two".into());
    state.send(StreamId(2));
    assert!(matches!(
        pass.allowance(&driver, &mut state, 0, 0),
        PassStep::Apply(..)
    ));
    assert!(matches!(pass.applied(&driver), PassStep::FlushSend(StreamId(2))));
    assert!(is_failure(pass.flushed(&mut driver, &mut state, Err(failed()))));
    assert!(pass_outcome(true, false).is_pending());
}

#[test]
fn stats_are_reported_as_they_are_counted() {
    let counters = TransportStats {
        sent_bytes: 1,
        recv_bytes: 2,
        lost_bytes: 3,
        sent: 4,
        recv: 5,
        lost: 6,
    };
    let rtt = std::time::Duration::from_millis(20);
    let path = |delivery_rate| Some(PathStats { rtt, delivery_rate });
    let stats = ConnectionStats::from_transport(counters, path(1000));
    assert_eq!(stats.bytes_sent(), Some(1));
    assert_eq!(stats.bytes_received(), Some(2));
    assert_eq!(stats.bytes_lost(), Some(3));
    assert_eq!(stats.packets_sent(), Some(4));
    assert_eq!(stats.packets_received(), Some(5));
    assert_eq!(stats.packets_lost(), Some(6));
    assert_eq!(stats.rtt(), Some(rtt));
    assert_eq!(stats.estimated_send_rate(), Some(8000));

    let fast = ConnectionStats::from_transport(counters, path(u64::MAX));
    assert_eq!(fast.send_rate, Some(u64::MAX));
    let idle = ConnectionStats::from_transport(counters, None);
    assert_eq!((idle.rtt, idle.send_rate), (None, None));
    assert_eq!(StatsUnavailable.bytes_sent(), None);
    assert_eq!(StatsUnavailable.rtt(), None);
}

#[test]
fn datagrams_that_find_no_room_are_dropped_silently() {
    assert!(matches!(send_datagram(DatagramOutcome::Queued), Ok(true)));
    assert!(matches!(send_datagram(DatagramOutcome::Full), Ok(false)));
    assert!(matches!(
        send_datagram(DatagramOutcome::Disconnected),
        Err(ConnectionError::Dropped)
    ));
    assert_eq!(max_datagram_size(0), None);
    assert_eq!(max_datagram_size(1200), Some(1200));
}
