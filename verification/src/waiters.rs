//! Who is waiting on shared connection state, and how they are woken.
//!
//! Callers are parked on state that they share: the accept queues, the error that a
//! connection closed with, a stream's flow-control credit. None of it may hold on to a
//! caller that walks away, which is what the weak registrations in
//! [`kio::WaiterList`] are for: a slot lives only as long as the [`kio::Waiter`] that
//! made it.
//!
//! [`Parked`] is the caller's end of such a registration. [`AcceptWaiters`] is the
//! other end for a session's accept state, which every clone of the session shares and
//! which has to fan one arrival out to every accepter parked on it.

use kio::{Park, Waiter, WaiterList};
use std::task::{Context, Poll};
use vstd::prelude::*;

verus! {

/// The outcome of a poll.
#[verifier::external_type_specification]
#[verifier::reject_recursive_types(T)]
pub struct ExPoll<T>(std::task::Poll<T>);

/// The task that a poll runs for.
#[verifier::external_type_specification]
#[verifier::external_body]
pub struct ExContext<'a>(std::task::Context<'a>);

/// A handle that registers its task with lists of waiters.
#[verifier::external_type_specification]
#[verifier::external_body]
pub struct ExWaiter(kio::Waiter);

/// A list of weak registrations.
#[verifier::external_type_specification]
#[verifier::external_body]
pub struct ExWaiterList(kio::WaiterList);

/// A place that keeps a waiter, and so its registrations, alive between polls.
#[verifier::external_type_specification]
#[verifier::external_body]
pub struct ExPark(kio::Park);

/// The identity under which a waiter is registered; its clones share it.
pub uninterp spec fn identity(waiter: kio::Waiter) -> int;

/// The identities that a list holds a registration for, live or not.
pub uninterp spec fn registered(list: kio::WaiterList) -> Set<int>;

/// The identity of the waiter that a park keeps, if it keeps one.
pub uninterp spec fn kept(park: kio::Park) -> Option<int>;

/// `WaiterList::new` makes a list without registrations.
pub assume_specification[ WaiterList::new ]() -> (list: WaiterList)
    ensures
        registered(list) == Set::<int>::empty(),
;

/// `WaiterList::register` leaves the waiter registered. It adds no other, and may drop
/// registrations whose waiter is gone.
pub assume_specification[ WaiterList::register ](list: &mut WaiterList, waiter: &Waiter)
    ensures
        registered(*final(list)).contains(identity(*waiter)),
        registered(*final(list)).subset_of(registered(*old(list)).insert(identity(*waiter))),
;

/// `WaiterList::take` moves every registration to a new list.
pub assume_specification[ WaiterList::take ](list: &mut WaiterList) -> (taken: WaiterList)
    ensures
        registered(taken) == registered(*old(list)),
        registered(*final(list)) == Set::<int>::empty(),
;

/// `Park::default` makes a park that keeps nothing.
#[verifier::external_body]
fn idle_park() -> (park: Park)
    ensures
        kept(park) is None,
{
    Park::default()
}

/// `Park::hold` leaves the park keeping a waiter for the task of `cx`, and lends it; the
/// waiter returned is a clone of that one. Which task that is stays unsaid.
#[verifier::external_body]
fn hold_in(park: &mut Park, cx: &Context<'_>) -> (waiter: Waiter)
    ensures
        kept(*final(park)) == Some(identity(waiter)),
{
    park.hold(cx).clone()
}

/// The accepters parked on one direction of a session's accept state.
///
/// The shared accept futures are polled with a waker that wakes all of these, not with
/// a caller's own: whoever polled last may be gone by the time something arrives.
#[derive(Debug)]
pub struct AcceptWaiters {
    waiters: WaiterList,
    /// How many polls are under way. While this is non-zero a wake is recorded rather
    /// than delivered.
    ///
    /// A count, not a flag: polls overlap, and with a flag the first one to leave would
    /// clear the protection of the second.
    armed: usize,
    /// A wake arrived while armed, and is owed to the list.
    deferred: bool,
}

impl AcceptWaiters {
    /// The parked accepters.
    pub closed spec fn parked(&self) -> Set<int> {
        registered(self.waiters)
    }

    /// How many polls hold wakes back.
    pub closed spec fn polls(&self) -> nat {
        self.armed as nat
    }

    /// Whether a wake is owed.
    pub closed spec fn owed(&self) -> bool {
        self.deferred
    }

    /// Nobody parked, no poll under way and no wake owed.
    pub fn new() -> (waiters: Self)
        ensures
            waiters.parked() == Set::<int>::empty(),
            waiters.polls() == 0,
            !waiters.owed(),
    {
        AcceptWaiters { waiters: WaiterList::new(), armed: 0, deferred: false }
    }

    /// How many polls are under way.
    pub fn armed(&self) -> (polls: usize)
        ensures
            polls == self.polls(),
    {
        self.armed
    }

    /// Park a caller until the next wake.
    ///
    /// Registrations are weak and owned by the caller, so an accepter that gives up
    /// releases its slot.
    pub fn register(&mut self, waiter: &Waiter)
        ensures
            final(self).parked().contains(identity(*waiter)),
            final(self).parked().subset_of(old(self).parked().insert(identity(*waiter))),
            final(self).polls() == old(self).polls(),
            final(self).owed() == old(self).owed(),
    {
        self.waiters.register(waiter);
    }

    /// Hand out every parked accepter to be woken so that it can retry, or record the
    /// wake while a poll is [armed](Self::arm).
    ///
    /// The caller wakes the list once it has let go of this state: a waker is free to
    /// resume its task inline, and a resumed accepter registers here again.
    pub fn wake_all(&mut self) -> (woken: WaiterList)
        ensures
            woke(old(self), final(self), woken),
    {
        if self.armed > 0 {
            self.deferred = true;
            return WaiterList::new();
        }
        self.waiters.take()
    }

    /// Hold back wakes for the duration of a poll of the accept state.
    ///
    /// That poll drives the shared accept futures, and one of them may wake the list
    /// inline, which would resume an accepter underneath the state being polled.
    pub fn arm(&mut self)
        requires
            old(self).polls() < usize::MAX,
        ensures
            final(self).polls() == old(self).polls() + 1,
            final(self).parked() == old(self).parked(),
            final(self).owed() == old(self).owed(),
    {
        self.armed = self.armed + 1;
    }

    /// Stop holding wakes back, reporting whether one arrived and is this caller's to
    /// deliver.
    ///
    /// False while another poll is still armed: a deferred wake stays owed until the
    /// last one leaves, and that one delivers it.
    pub fn disarm(&mut self) -> (owed: bool)
        ensures
            final(self).polls() == if old(self).polls() > 0 {
                (old(self).polls() - 1) as nat
            } else {
                0
            },
            final(self).parked() == old(self).parked(),
            owed == (final(self).polls() == 0 && old(self).owed()),
            final(self).owed() == (final(self).polls() > 0 && old(self).owed()),
    {
        self.armed = self.armed.saturating_sub(1);
        if self.armed > 0 {
            return false;
        }
        let owed = self.deferred;
        self.deferred = false;
        owed
    }

    /// Leave a poll of the accept state: stop holding wakes back, and hand out the
    /// accepters to wake. They are owed a wake when one was deferred, and when the poll
    /// finished, since it may have left more behind for the others.
    pub fn leave(&mut self, finished: bool) -> (woken: WaiterList)
        ensures
            left(old(self), final(self), finished, woken),
    {
        let owed = self.disarm();
        if owed || finished {
            self.wake_all()
        } else {
            WaiterList::new()
        }
    }
}

/// What a wake does: it takes every parked accepter, unless a poll is under way, when it
/// is recorded and leaves them parked.
pub open spec fn woke(before: &AcceptWaiters, after: &AcceptWaiters, woken: WaiterList) -> bool {
    &&& after.polls() == before.polls()
    &&& if before.polls() > 0 {
        &&& registered(woken) == Set::<int>::empty()
        &&& after.parked() == before.parked()
        &&& after.owed()
    } else {
        &&& registered(woken) == before.parked()
        &&& after.parked() == Set::<int>::empty()
        &&& after.owed() == before.owed()
    }
}

/// What leaving a poll does: the last poll to leave takes every parked accepter if it
/// finished or a wake is owed; any other leaves the wake owed.
pub open spec fn left(
    before: &AcceptWaiters,
    after: &AcceptWaiters,
    finished: bool,
    woken: WaiterList,
) -> bool {
    &&& after.polls() == if before.polls() > 0 {
        (before.polls() - 1) as nat
    } else {
        0
    }
    &&& after.owed() == (after.polls() > 0 && (finished || before.owed()))
    &&& if after.polls() == 0 && (finished || before.owed()) {
        &&& registered(woken) == before.parked()
        &&& after.parked() == Set::<int>::empty()
    } else {
        &&& registered(woken) == Set::<int>::empty()
        &&& after.parked() == before.parked()
    }
}

/// A wake that arrives during the last poll is delivered by that poll as it leaves, to
/// everyone who was parked when it arrived.
pub proof fn law_a_wake_during_the_last_poll_is_delivered_when_it_leaves(
    before: &AcceptWaiters,
    during: &AcceptWaiters,
    after: &AcceptWaiters,
    finished: bool,
    deferred: WaiterList,
    woken: WaiterList,
)
    requires
        before.polls() == 1,
        woke(before, during, deferred),
        left(during, after, finished, woken),
    ensures
        registered(deferred) == Set::<int>::empty(),
        registered(woken) == before.parked(),
        after.polls() == 0 && !after.owed(),
{
}

/// A wake that arrives during overlapping polls stays owed, with everyone still parked,
/// when any but the last of them leaves.
pub proof fn law_overlapping_polls_hold_a_wake_until_the_last_leaves(
    before: &AcceptWaiters,
    during: &AcceptWaiters,
    after: &AcceptWaiters,
    finished: bool,
    deferred: WaiterList,
    woken: WaiterList,
)
    requires
        before.polls() > 1,
        woke(before, during, deferred),
        left(during, after, finished, woken),
    ensures
        registered(deferred) == Set::<int>::empty(),
        registered(woken) == Set::<int>::empty(),
        after.polls() > 0 && after.owed(),
        after.parked() == before.parked(),
{
}

impl Default for AcceptWaiters {
    fn default() -> (waiters: Self)
        ensures
            waiters.parked() == Set::<int>::empty(),
            waiters.polls() == 0,
            !waiters.owed(),
    {
        AcceptWaiters::new()
    }
}

/// A [`kio::Park`] that lets go of its waiter once the poll finishes.
///
/// A pending operation has to keep its waiter, since a registration lives only as long
/// as the waiter that made it. A finished one must not: going on holding the waker
/// would pin the polling task until something polls the cell again.
#[derive(Debug)]
pub struct Parked {
    park: Park,
}

impl Parked {
    /// The identity of the waiter that is held, if one is.
    pub closed spec fn held(&self) -> Option<int> {
        kept(self.park)
    }

    /// A cell that holds nothing.
    pub fn new() -> (parked: Self)
        ensures
            parked.held() is None,
    {
        Parked { park: idle_park() }
    }

    /// Run one poll with a retained waiter, releasing it if the poll finishes.
    pub fn poll<T, F: FnOnce(&Waiter) -> Poll<T>>(&mut self, cx: &Context<'_>, poll: F) -> (result: Poll<T>)
        requires
            forall|waiter: Waiter| poll.requires((&waiter,)),
        ensures
            exists|waiter: Waiter| #![trigger identity(waiter)]
                poll.ensures((&waiter,), result) && (result is Pending ==> final(self).held() == Some(
                    identity(waiter),
                )),
            result is Ready ==> final(self).held() is None,
    {
        let waiter = self.hold(cx);
        let result = poll(&waiter);
        self.settle(&result);
        result
    }

    /// Hold a waiter for this poll, for a body that needs the rest of the struct holding
    /// this cell. Pair it with [`settle`](Self::settle).
    pub fn hold(&mut self, cx: &Context<'_>) -> (waiter: Waiter)
        ensures
            final(self).held() == Some(identity(waiter)),
    {
        hold_in(&mut self.park, cx)
    }

    /// Release the held waiter if the poll finished.
    pub fn settle<T>(&mut self, result: &Poll<T>)
        ensures
            final(self).held() == if *result is Ready {
                None
            } else {
                old(self).held()
            },
    {
        match result {
            Poll::Ready(_) => {
                self.park = idle_park();
            },
            Poll::Pending => {},
        }
    }
}

impl Default for Parked {
    fn default() -> (parked: Self)
        ensures
            parked.held() is None,
    {
        Parked::new()
    }
}

impl Clone for Parked {
    /// A registration belongs to the handle that made it, so a clone starts idle.
    fn clone(&self) -> (parked: Self)
        ensures
            parked.held() is None,
    {
        Parked::new()
    }
}

/// Whoever is parked is woken or stays parked, and nobody is both. A wake takes everyone unless a
/// poll is under way; it is then delivered by the last poll to leave, and by no other. A poll
/// that finishes wakes everyone as it leaves, unless others are under way.
pub proof fn law_a_wake_is_held_back_while_a_poll_is_under_way()
    ensures
        forall|waiters: &mut AcceptWaiters, woken: WaiterList|
            #[trigger] call_ensures(AcceptWaiters::wake_all, (waiters,), woken) ==> {
                &&& hands_out(waiters.parked(), final(waiters).parked(), registered(woken), waiters.polls() == 0)
                &&& waiters.polls() > 0 ==> final(waiters).owed()
                &&& waiters.polls() == 0 ==> final(waiters).owed() == waiters.owed()
                &&& final(waiters).polls() == waiters.polls()
            },
        forall|waiters: &mut AcceptWaiters, finished: bool, woken: WaiterList|
            #[trigger] call_ensures(AcceptWaiters::leave, (waiters, finished), woken) ==> {
                let last = waiters.polls() <= 1;
                let due = finished || waiters.owed();
                &&& hands_out(waiters.parked(), final(waiters).parked(), registered(woken), last && due)
                &&& final(waiters).owed() <==> due && !last
                &&& waiters.polls() > 0 ==> final(waiters).polls() + 1 == waiters.polls()
                &&& waiters.polls() == 0 ==> final(waiters).polls() == 0
            },
        forall|waiters: &mut AcceptWaiters, owed: bool|
            #[trigger] call_ensures(AcceptWaiters::disarm, (waiters,), owed) ==> {
                &&& owed <==> waiters.owed() && waiters.polls() <= 1
                &&& final(waiters).owed() <==> waiters.owed() && waiters.polls() > 1
                &&& final(waiters).parked() == waiters.parked()
                &&& waiters.polls() > 0 ==> final(waiters).polls() + 1 == waiters.polls()
                &&& waiters.polls() == 0 ==> final(waiters).polls() == 0
            },
        forall|waiters: &mut AcceptWaiters|
            #[trigger] call_ensures(AcceptWaiters::arm, (waiters,), ()) ==> {
                &&& final(waiters).polls() == waiters.polls() + 1
                &&& final(waiters).parked() == waiters.parked() && final(waiters).owed() == waiters.owed()
            },
        forall|waiters: &mut AcceptWaiters, waiter: &Waiter|
            #[trigger] call_ensures(AcceptWaiters::register, (waiters, waiter), ()) ==> {
                &&& final(waiters).parked().contains(identity(*waiter))
                &&& forall|x: int| #[trigger]
                    final(waiters).parked().contains(x) ==> x == identity(*waiter) || waiters.parked().contains(x)
                &&& final(waiters).polls() == waiters.polls() && final(waiters).owed() == waiters.owed()
            },
        forall|waiters: AcceptWaiters|
            #[trigger] call_ensures(AcceptWaiters::new, (), waiters) ==> waiters.polls() == 0 && !waiters.owed() && (
            forall|x: int| !#[trigger] waiters.parked().contains(x)),
        forall|waiters: &AcceptWaiters, polls: usize|
            #[trigger] call_ensures(AcceptWaiters::armed, (waiters,), polls) ==> polls == waiters.polls(),
{
}

/// Everyone is handed out, or nobody is.
pub open spec fn hands_out(before: Set<int>, after: Set<int>, woken: Set<int>, all: bool) -> bool {
    forall|x: int|
        #![trigger before.contains(x)]
        #![trigger after.contains(x)]
        #![trigger woken.contains(x)]
        {
            &&& woken.contains(x) <==> before.contains(x) && all
            &&& after.contains(x) <==> before.contains(x) && !all
        }
}

/// A waiter is held while its poll is pending, and let go of once that is over; a clone holds
/// none of it.
pub proof fn law_a_waiter_is_held_while_its_poll_is_pending<T>()
    ensures
        forall|parked: &mut Parked, result: &Poll<T>|
            #[trigger] call_ensures(Parked::settle::<T>, (parked, result), ()) ==> {
                &&& *result is Ready ==> final(parked).held() is None
                &&& *result is Pending ==> final(parked).held() == parked.held()
            },
        forall|parked: &mut Parked, cx: &Context<'_>, waiter: Waiter|
            #[trigger] call_ensures(Parked::hold, (parked, cx), waiter) ==> final(parked).held() == Some(
                identity(waiter),
            ),
        forall|parked: Parked| #[trigger] call_ensures(Parked::new, (), parked) ==> parked.held() is None,
        forall|parked: &Parked, copy: Parked|
            #[trigger] call_ensures(<Parked as Clone>::clone, (parked,), copy) ==> copy.held() is None,
{
}

/// What a poll comes to is what its body comes to, with the waiter that is held from then on if it
/// is pending; nothing is held once it is ready.
pub proof fn law_a_parked_poll_is_that_of_its_body<T, F: FnOnce(&Waiter) -> Poll<T>>()
    ensures
        forall|parked: &mut Parked, cx: &Context<'_>, poll: F, result: Poll<T>|
            #[trigger] call_ensures(Parked::poll::<T, F>, (parked, cx, poll), result) ==> {
                &&& result is Ready ==> final(parked).held() is None
                &&& result is Pending ==> final(parked).held() is Some
                &&& exists|waiter: Waiter| #![trigger identity(waiter)]
                    poll.ensures((&waiter,), result) && (result is Pending ==> final(parked).held() == Some(
                        identity(waiter),
                    ))
            },
{
}

/// By default nobody waits, no poll is under way, and no waiter is held.
pub proof fn law_nobody_waits_by_default()
    ensures
        forall|waiters: AcceptWaiters|
            #[trigger] call_ensures(<AcceptWaiters as Default>::default, (), waiters) ==> waiters.polls() == 0
                && !waiters.owed() && (forall|x: int| !#[trigger] waiters.parked().contains(x)),
        forall|parked: Parked|
            #[trigger] call_ensures(<Parked as Default>::default, (), parked) ==> parked.held() is None,
{
}

} // verus!
