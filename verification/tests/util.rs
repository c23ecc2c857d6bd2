//! Operations retained across polls.

use std::future::{pending, ready, Future};
use std::pin::Pin;
use std::sync::atomic::{AtomicUsize, Ordering};
use std::sync::{Arc, Mutex};
use std::task::{Context, Poll, Wake, Waker};

use web_transport::traits::util::{OpState, SessionOps};

type BoxFuture<T> = Pin<Box<dyn Future<Output = T> + Send>>;

struct Noop;

impl Wake for Noop {
    fn wake(self: Arc<Self>) {}
}

fn waker() -> Waker {
    Waker::from(Arc::new(Noop))
}

/// A slot adds nothing that keeps a handle from being shared: it is `Send` and `Sync`
/// whenever what it retains is.
#[test]
fn op_state_is_send_and_sync() {
    fn assert_send_sync<T: Send + Sync>() {}
    assert_send_sync::<OpState<()>>();

    // A boxed future is `Send` but not `Sync`: in a handle that is shared between threads
    // its slot stands behind a `Mutex`.
    assert_send_sync::<Mutex<OpState<BoxFuture<()>>>>();
}

#[test]
fn pending_future_is_retained() {
    let starts = Arc::new(AtomicUsize::new(0));
    let mut state: OpState<BoxFuture<()>> = OpState::default();
    let waker = waker();
    let mut cx = Context::from_waker(&waker);

    for _ in 0..2 {
        let starts = starts.clone();
        assert!(state
            .poll(&mut cx, move || {
                starts.fetch_add(1, Ordering::Relaxed);
                Box::pin(pending::<()>())
            })
            .is_pending());
    }

    assert_eq!(starts.load(Ordering::Relaxed), 1);
}

#[test]
fn completed_future_is_cleared() {
    let mut state: OpState<BoxFuture<i32>> = OpState::default();
    let waker = waker();
    let mut cx = Context::from_waker(&waker);

    assert_eq!(state.poll(&mut cx, || Box::pin(ready(1))), Poll::Ready(1));
    assert!(!state.is_pending());
    assert_eq!(state.poll(&mut cx, || Box::pin(ready(2))), Poll::Ready(2));
}

#[test]
fn cleared_future_restarts() {
    let mut state: OpState<BoxFuture<()>> = OpState::default();
    let waker = waker();
    let mut cx = Context::from_waker(&waker);

    assert!(state.poll(&mut cx, || Box::pin(pending::<()>())).is_pending());
    state.clear();
    assert!(!state.is_pending());
}

#[test]
fn clone_has_an_independent_idle_slot() {
    let mut state: OpState<BoxFuture<()>> = OpState::default();
    let waker = waker();
    let mut cx = Context::from_waker(&waker);

    assert!(state.poll(&mut cx, || Box::pin(pending::<()>())).is_pending());

    let clone = state.clone();
    assert!(state.is_pending());
    assert!(!clone.is_pending());
}

#[test]
fn only_an_operation_in_progress_is_resumed() {
    let mut state: OpState<BoxFuture<()>> = OpState::new();
    let waker = waker();
    let mut cx = Context::from_waker(&waker);

    assert_eq!(state.poll_pending(&mut cx), None);
    assert!(state.poll(&mut cx, || Box::pin(pending::<()>())).is_pending());
    assert_eq!(state.poll_pending(&mut cx), Some(Poll::Pending));
    assert!(state.is_pending());
}

#[test]
fn an_operation_can_be_started_and_taken() {
    let mut state: OpState<&str> = OpState::new();
    assert_eq!(state.take(), None);
    state.start("write");
    assert!(state.is_pending());
    assert_eq!(state.take(), Some("write"));
    assert!(!state.is_pending());

    assert_eq!(state.retain("write", Poll::<u8>::Pending), Poll::Pending);
    assert!(state.is_pending());
    assert_eq!(state.retain("write", Poll::Ready(3)), Poll::Ready(3));
    assert!(!state.is_pending());
}

/// The operation that is polled is the one that was made, from where it has got to, and a
/// finished one makes room for another.
#[test]
fn the_retained_operation_is_what_is_polled() {
    struct Countdown(u32);

    impl Future for Countdown {
        type Output = &'static str;

        fn poll(mut self: Pin<&mut Self>, _cx: &mut Context<'_>) -> Poll<&'static str> {
            if self.0 == 0 {
                return Poll::Ready("over");
            }
            self.0 -= 1;
            Poll::Pending
        }
    }

    let mut state: OpState<Countdown> = OpState::new();
    let waker = waker();
    let mut cx = Context::from_waker(&waker);

    assert_eq!(state.poll(&mut cx, || Countdown(2)), Poll::Pending);
    assert_eq!(state.poll(&mut cx, || Countdown(9)), Poll::Pending);
    assert_eq!(state.poll_pending(&mut cx), Some(Poll::Ready("over")));
    assert_eq!(state.poll_pending(&mut cx), None);
    assert_eq!(state.poll(&mut cx, || Countdown(0)), Poll::Ready("over"));
    assert!(!state.is_pending());
}

#[test]
fn cloned_session_operations_are_idle() {
    type Slot = BoxFuture<()>;
    let mut ops: SessionOps<Slot, Slot, Slot, Slot, Slot, Slot> = SessionOps::default();
    let waker = waker();
    let mut cx = Context::from_waker(&waker);

    assert!(ops.open_uni.poll(&mut cx, || Box::pin(pending::<()>())).is_pending());
    assert!(ops.closed.poll(&mut cx, || Box::pin(pending::<()>())).is_pending());
    assert!(!ops.accept_uni.is_pending() && !ops.recv_datagram.is_pending());

    let clone = ops.clone();
    assert!(ops.open_uni.is_pending() && ops.closed.is_pending());
    assert!(!clone.open_uni.is_pending() && !clone.closed.is_pending());
    assert!(!clone.accept_uni.is_pending() && !clone.accept_bi.is_pending());
    assert!(!clone.open_bi.is_pending() && !clone.recv_datagram.is_pending());
}
