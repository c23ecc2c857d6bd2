//! Who is waiting on shared state, and how they are woken.

use std::sync::atomic::{AtomicBool, Ordering};
use std::sync::{Arc, Mutex, Weak};
use std::task::{Context, Poll, Wake, Waker};

use kio::{Fan, Waiter};
use web_transport::waiters::{AcceptWaiters, Parked};

/// Records whether it was woken.
#[derive(Default)]
struct Flag {
    woken: AtomicBool,
}

impl Flag {
    fn woken(&self) -> bool {
        self.woken.load(Ordering::SeqCst)
    }
}

impl Wake for Flag {
    fn wake(self: Arc<Self>) {
        self.wake_by_ref();
    }

    fn wake_by_ref(self: &Arc<Self>) {
        self.woken.store(true, Ordering::SeqCst);
    }
}

/// How many slots the list is holding, read out of its `Debug`: the list exposes no length.
fn slots(waiters: &AcceptWaiters) -> usize {
    let text = format!("{waiters:?}");
    let (_, rest) = text.split_once("len: ").expect("a list reports a length");
    let digits: String = rest.chars().take_while(|c| c.is_ascii_digit()).collect();
    digits.parse().expect("a list reports a length")
}

#[test]
fn waiters_cloning_a_pending_handle_does_not_retain_the_poller() {
    let mut waiters = AcceptWaiters::default();
    let flag = Arc::new(Flag::default());
    let waker = Waker::from(flag.clone());
    let mut parked = Parked::default();

    assert!(parked
        .poll(&Context::from_waker(&waker), |waiter| {
            waiters.register(waiter);
            Poll::<()>::Pending
        })
        .is_pending());

    let cloned = parked.clone();
    drop(parked);
    waiters.wake_all().wake();

    assert!(
        !flag.woken(),
        "the clone retained the original handle's parked poller"
    );
    drop(cloned);
}

/// The same through a list that is shared behind a waker.
#[test]
fn cloning_a_pending_handle_does_not_retain_the_poller() {
    let fan = Fan::new();
    let flag = Arc::new(Flag::default());
    let waker = Waker::from(flag.clone());
    let mut parked = Parked::default();

    assert!(parked
        .poll(&Context::from_waker(&waker), |waiter| {
            fan.register(waiter);
            Poll::<()>::Pending
        })
        .is_pending());

    let cloned = parked.clone();
    drop(parked);
    fan.wake();

    assert!(
        !flag.woken(),
        "the clone retained the original handle's parked poller"
    );
    drop(cloned);
}

/// A waker that re-enters the list from `wake`, standing in for an executor that polls a
/// resumed task inline: the first thing a resumed accepter does is register itself again.
struct Reentrant {
    waiters: Weak<Mutex<AcceptWaiters>>,
    woken: AtomicBool,
}

impl Wake for Reentrant {
    fn wake(self: Arc<Self>) {
        self.wake_by_ref();
    }

    fn wake_by_ref(self: &Arc<Self>) {
        self.woken.store(true, Ordering::SeqCst);
        if let Some(waiters) = self.waiters.upgrade() {
            let mut waiters = waiters
                .try_lock()
                .expect("wake_all woke a waker while holding the lock, and the wake re-entered it");
            waiters.register(&Waiter::new(Waker::noop().clone()));
        }
    }
}

#[test]
fn waking_does_not_hold_the_lock() {
    let waiters = Arc::new(Mutex::new(AcceptWaiters::default()));
    let inline = Arc::new(Reentrant {
        waiters: Arc::downgrade(&waiters),
        woken: AtomicBool::new(false),
    });

    // Kept alive for the whole test: the registration dies with it.
    let waiter = Waiter::new(Waker::from(inline.clone()));
    waiters.lock().unwrap().register(&waiter);

    let mut woken = waiters.lock().unwrap().wake_all();
    woken.wake();
    assert!(inline.woken.load(Ordering::SeqCst));
}

/// Repeated polls must not stack registrations.
#[test]
fn repeated_polls_do_not_stack_registrations() {
    let mut waiters = AcceptWaiters::default();

    // Retained across iterations exactly as a poll bridge retains it: assigning the next
    // one drops the previous, killing the registration it left behind.
    let mut held = None;

    for _ in 0..100 {
        let waiter = Waiter::new(Waker::noop().clone());
        waiters.register(&waiter);
        held = Some(waiter);
    }

    assert!(
        slots(&waiters) <= 2,
        "100 polls left {} registrations behind",
        slots(&waiters)
    );

    drop(held);
}

/// A wake that lands mid-poll is held until the accept state is let go of.
#[test]
fn a_wake_during_a_poll_is_deferred() {
    let mut waiters = AcceptWaiters::default();

    let flag = Arc::new(Flag::default());
    let waiter = Waiter::new(Waker::from(flag.clone()));
    waiters.register(&waiter);

    waiters.arm();
    waiters.wake_all().wake();
    assert!(
        !flag.woken(),
        "the wake was delivered while the accept lock was held"
    );

    assert!(waiters.disarm(), "the deferred wake was dropped");
    waiters.wake_all().wake();
    assert!(flag.woken(), "the deferred wake never arrived");
}

/// Nothing owed when nothing woke.
#[test]
fn disarming_a_quiet_poll_owes_no_wake() {
    let mut waiters = AcceptWaiters::default();
    waiters.arm();
    assert!(!waiters.disarm());
}

/// One poll leaving must not drop another's protection.
#[test]
fn overlapping_polls_stay_armed_until_the_last_one_leaves() {
    let mut waiters = AcceptWaiters::default();

    let flag = Arc::new(Flag::default());
    let waiter = Waiter::new(Waker::from(flag.clone()));
    waiters.register(&waiter);

    waiters.arm(); // first poll
    waiters.arm(); // second poll, overlapping
    assert_eq!(waiters.armed(), 2);

    assert!(!waiters.disarm(), "the first out does not own the wake");

    waiters.wake_all().wake();
    assert!(!flag.woken(), "a poll is still holding the accept lock");

    assert!(waiters.disarm(), "the last one out owes the deferred wake");
    waiters.wake_all().wake();
    assert!(flag.woken());
}

/// Leaving a poll wakes the others if it finished, or if a wake arrived meanwhile.
#[test]
fn leaving_a_poll_wakes_the_others_when_there_is_reason() {
    for (finished, deferred, expected) in [
        (false, false, false),
        (true, false, true),
        (false, true, true),
        (true, true, true),
    ] {
        let mut waiters = AcceptWaiters::new();
        let flag = Arc::new(Flag::default());
        let waiter = Waiter::new(Waker::from(flag.clone()));
        waiters.register(&waiter);

        waiters.arm();
        if deferred {
            waiters.wake_all().wake();
        }
        waiters.leave(finished).wake();
        assert_eq!(flag.woken(), expected);
    }
}

/// A poll that is pending keeps its waiter registered; one that is finished lets go of it.
#[test]
fn a_finished_poll_lets_go_of_its_waiter() {
    let flag = Arc::new(Flag::default());
    let waker = Waker::from(flag.clone());
    let mut waiters = AcceptWaiters::new();
    let mut parked = Parked::new();

    let result = parked.poll(&Context::from_waker(&waker), |waiter| {
        waiters.register(waiter);
        Poll::Ready(5)
    });
    assert_eq!(result, Poll::Ready(5));
    waiters.wake_all().wake();
    assert!(!flag.woken(), "the finished poll is still registered");

    let waiter = parked.hold(&Context::from_waker(&waker));
    waiters.register(&waiter);
    drop(waiter);
    parked.settle(&Poll::<()>::Pending);
    waiters.wake_all().wake();
    assert!(flag.woken(), "the pending poll was forgotten");
}
