//! One pass of a driver over its connection.
//!
//! A pass alternates between the transport, which somebody else holds, and the state that
//! the connection shares. Each step here says what to do with the transport next, and is
//! told what came of it.
//!
//! The shared state is best held from [`Pass::kept_alive`] to [`Pass::allowance`]. Where it
//! is let go of in between, whatever is left there meanwhile is found all the same: a pass
//! that does anything, or leaves anything to do, does not put the driver to sleep, and the
//! streams opened meanwhile count against what the peer allows.

use kio::{Waiter, WaiterList};
use std::collections::HashSet;
use std::task::Poll;
use vstd::prelude::*;

use crate::ez::connection::{ConnectionError, ConnectionStats, TransportError};
use crate::ez::driver::{
    closes_with, credited, pass_outcome, refilled, retired, Driver, DriverModel, DriverState, OpenModel,
    PassStart,
};
use crate::ez::priority::{distinct, first_update};
use crate::ez::stream::StreamId;
use crate::waiters::{identity, registered};

verus! {

broadcast use vstd::std_specs::hash::group_hash_axioms;

/// What to do next in a pass.
pub enum PassStep {
    /// Close the connection with a code and a reason.
    Close(u64, String),
    /// Schedule a keep-alive if one is due.
    KeepAlive,
    /// Take the statistics, and look whether datagrams wait to be sent.
    Snapshot,
    /// Tell the transport of a new stream.
    Announce(StreamId),
    /// Ask how many streams the peer allows.
    Allowance,
    /// Wake whoever waits for a stream in either direction, and apply urgencies.
    Apply(WaiterList, WaiterList, Vec<(StreamId, u8)>),
    /// Flush the receiving half of a stream.
    FlushRecv(StreamId),
    /// Flush the sending half of a stream.
    FlushSend(StreamId),
    /// Nothing: this is the outcome.
    Done(Poll<Result<(), ConnectionError>>),
}

/// A pass under way.
pub struct Pass<S, R> {
    // There was nothing to do.
    sleep: bool,
    // A keep-alive was scheduled.
    keep_alive: bool,
    // The streams to announce.
    bi: Vec<(StreamId, (S, R))>,
    uni: Vec<(StreamId, S)>,
    // The streams to flush, from the last to the first.
    recv: Vec<u64>,
    send: Vec<u64>,
}

/// What a [`Pass`] holds.
pub struct PassModel<S, R> {
    pub sleep: bool,
    pub keep_alive: bool,
    pub bi: Seq<(StreamId, (S, R))>,
    pub uni: Seq<(StreamId, S)>,
    pub recv: Seq<u64>,
    pub send: Seq<u64>,
}

impl<S, R> View for Pass<S, R> {
    type V = PassModel<S, R>;

    closed spec fn view(&self) -> PassModel<S, R> {
        PassModel {
            sleep: self.sleep,
            keep_alive: self.keep_alive,
            bi: self.bi@,
            uni: self.uni@,
            recv: self.recv@,
            send: self.send@,
        }
    }
}

/// A pass that ends because the transport failed.
pub open spec fn failed(error: TransportError) -> PassStep {
    PassStep::Done(Poll::Ready(Err(ConnectionError::Transport(error))))
}

impl<S, R> PassModel<S, R> {
    /// The pass once it has looked for work: whether there is none, and the streams that
    /// have been opened.
    pub open spec fn snapped<W>(self, state: DriverModel<W, S, R>, datagrams: bool) -> Self {
        PassModel {
            sleep: state.quiet() && !datagrams,
            bi: state.bi.create,
            uni: state.uni.create,
            ..self
        }
    }

    /// The pass once the transport has been told of a stream.
    pub open spec fn told(self) -> Self {
        if self.bi.len() > 0 {
            PassModel { bi: self.bi.drop_first(), ..self }
        } else {
            PassModel { uni: self.uni.drop_first(), ..self }
        }
    }

    /// The pass once it has taken the streams to flush, in some order. Whatever else has
    /// been left for the driver by now keeps it awake.
    pub open spec fn allowed<W>(self, state: DriverModel<W, S, R>, send: Seq<u64>, recv: Seq<u64>) -> Self {
        PassModel { sleep: self.sleep && state.quiet(), send, recv, ..self }
    }

    /// The pass once a stream has been flushed.
    pub open spec fn relieved(self) -> Self {
        if self.recv.len() > 0 {
            PassModel { recv: self.recv.drop_last(), ..self }
        } else {
            PassModel { send: self.send.drop_last(), ..self }
        }
    }

    /// What to do next while there may be streams to announce.
    pub open spec fn announcing(self) -> PassStep {
        if self.bi.len() > 0 {
            PassStep::Announce(self.bi[0].0)
        } else if self.uni.len() > 0 {
            PassStep::Announce(self.uni[0].0)
        } else {
            PassStep::Allowance
        }
    }

    /// What to do next while there may be streams to flush, and what is left to flush.
    /// Those that are not tracked any more are passed over.
    pub open spec fn flushing(self, senders: Map<u64, S>, receivers: Map<u64, R>) -> (Self, PassStep)
        decreases self.recv.len() + self.send.len(),
    {
        if self.recv.len() > 0 {
            if receivers.contains_key(self.recv.last()) {
                (self, PassStep::FlushRecv(StreamId(self.recv.last())))
            } else {
                PassModel { recv: self.recv.drop_last(), ..self }.flushing(senders, receivers)
            }
        } else if self.send.len() > 0 {
            if senders.contains_key(self.send.last()) {
                (self, PassStep::FlushSend(StreamId(self.send.last())))
            } else {
                PassModel { send: self.send.drop_last(), ..self }.flushing(senders, receivers)
            }
        } else {
            (
                self,
                PassStep::Done(
                    if self.sleep && !self.keep_alive {
                        Poll::Pending
                    } else {
                        Poll::Ready(Ok(()))
                    },
                ),
            )
        }
    }
}

/// The members of a set, in some order.
fn list(set: &HashSet<u64>) -> (members: Vec<u64>)
    ensures
        members@.to_set() == set@,
        members@.no_duplicates(),
{
    let mut members: Vec<u64> = Vec::new();
    for member in it: set.iter()
        invariant
            it.seq().unref().to_set() == set@,
            it.seq().no_duplicates(),
            members@.len() == it.index(),
            members@.no_duplicates(),
            forall|k: int| 0 <= k < it.index() ==> members@[k] == *#[trigger] it.seq()[k],
            forall|k: int| 0 <= k < it.index() ==> set@.contains(#[trigger] members@[k]),
            forall|k: int| 0 <= k < it.index() ==> members@.contains(*#[trigger] it.seq()[k]),
    {
        members.push(*member);
        proof {
            assert forall|k: int| 0 <= k < it.index() implies #[trigger] members@[k] != *member by {
                assert(members@[k] == *it.seq()[k]);
                assert(it.seq()[k] != it.seq()[it.index()]);
            }
            assert(it.seq().unref()[it.index()] == *member);
            assert(it.seq().unref().to_set().contains(*member));
            assert forall|k: int| 0 <= k < it.index() + 1 implies members@.contains(
                *#[trigger] it.seq()[k],
            ) by {
                assert(members@[k] == *it.seq()[k]);
            }
        }
    }
    proof {
        assert forall|x: u64| set@.contains(x) implies #[trigger] members@.to_set().contains(x) by {}
        assert(members@.to_set() =~= set@);
    }
    members
}

impl<S, R> Pass<S, R> {
    /// A pass that has not begun.
    pub fn new() -> (pass: Self)
        ensures
            pass@ == (PassModel::<S, R> {
                sleep: false,
                keep_alive: false,
                bi: Seq::empty(),
                uni: Seq::empty(),
                recv: Seq::empty(),
                send: Seq::empty(),
            }),
    {
        Pass {
            sleep: false,
            keep_alive: false,
            bi: Vec::new(),
            uni: Vec::new(),
            recv: Vec::new(),
            send: Vec::new(),
        }
    }

    /// Begin the pass, given whether the connection drains and whether it has been
    /// established: nothing is done during the handshake, except that the connection is
    /// closed if the application asks for it.
    pub fn start<W>(
        &self,
        state: &mut DriverState<W, S, R>,
        waiter: &Waiter,
        draining: bool,
        established: bool,
    ) -> (step: PassStep)
        ensures
            final(state)@ == (DriverModel { close_requested: final(state)@.close_requested, ..old(state)@ }),
            draining ==> final(state)@ == old(state)@,
            !draining && old(state)@.close_requested.error is Some ==> {
                &&& step matches PassStep::Close(code, reason) && closes_with(
                    old(state)@.close_requested.error->0,
                    code,
                    reason,
                )
                &&& final(state)@ == old(state)@
            },
            !draining && old(state)@.close_requested.error is None
                ==> old(state)@.close_requested.polled(
                final(state)@.close_requested,
                *waiter,
                Poll::Pending,
            ),
            draining || old(state)@.close_requested.error is None ==> step == if established {
                PassStep::KeepAlive
            } else {
                PassStep::Done(Poll::Pending)
            },
    {
        match state.begin(waiter, draining, established) {
            PassStart::Close(code, reason) => PassStep::Close(code, reason),
            PassStart::Wait => PassStep::Done(Poll::Pending),
            PassStart::Run => PassStep::KeepAlive,
        }
    }

    /// End the pass with what came of closing the connection.
    pub fn closed(&self, result: Result<(), TransportError>) -> (step: PassStep)
        ensures
            step == match result {
                Ok(_) => PassStep::Done(Poll::Ready(Ok(()))),
                Err(error) => failed(error),
            },
    {
        match result {
            Ok(_) => PassStep::Done(Poll::Ready(Ok(()))),
            Err(error) => PassStep::Done(Poll::Ready(Err(ConnectionError::Transport(error)))),
        }
    }

    /// Go on, given whether a keep-alive was due. What wakes the driver is noted now,
    /// before it looks for work.
    pub fn kept_alive<W>(
        &mut self,
        state: &mut DriverState<W, S, R>,
        waker: W,
        result: Result<bool, TransportError>,
    ) -> (step: PassStep)
        ensures
            match result {
                Err(error) => step == failed(error) && final(self)@ == old(self)@ && final(state)@
                    == old(state)@,
                Ok(due) => {
                    &&& step is Snapshot
                    &&& final(self)@ == (PassModel { keep_alive: due, ..old(self)@ })
                    &&& final(state)@ == (DriverModel { waker: Some(waker), ..old(state)@ })
                },
            },
    {
        match result {
            Err(error) => PassStep::Done(Poll::Ready(Err(ConnectionError::Transport(error)))),
            Ok(due) => {
                self.keep_alive = due;
                state.park(waker);
                PassStep::Snapshot
            },
        }
    }

    fn announce(&self) -> (step: PassStep)
        ensures
            step == self@.announcing(),
    {
        if self.bi.len() > 0 {
            PassStep::Announce(self.bi[0].0)
        } else if self.uni.len() > 0 {
            PassStep::Announce(self.uni[0].0)
        } else {
            PassStep::Allowance
        }
    }

    /// Go on with the statistics, and with whether datagrams wait to be sent: note
    /// whether there is nothing to do, and take the streams that have been opened.
    pub fn snapshot<W>(
        &mut self,
        state: &mut DriverState<W, S, R>,
        stats: ConnectionStats,
        datagrams: bool,
    ) -> (step: PassStep)
        ensures
            final(self)@ == old(self)@.snapped(old(state)@, datagrams),
            final(state)@ == (DriverModel {
                stats,
                bi: OpenModel { create: Seq::empty(), ..old(state)@.bi },
                uni: OpenModel { create: Seq::empty(), ..old(state)@.uni },
                ..old(state)@
            }),
            step == final(self)@.announcing(),
    {
        self.sleep = state.inspect(stats, datagrams);
        self.bi = state.created_bi();
        self.uni = state.created_uni();
        self.announce()
    }

    /// Go on once the transport has been told of the stream: it is tracked from now on.
    pub fn announced(&mut self, driver: &mut Driver<S, R>, result: Result<(), TransportError>) -> (step:
        PassStep)
        requires
            old(self)@.announcing() is Announce,
        ensures
            match result {
                Err(error) => {
                    &&& step == failed(error)
                    &&& final(self)@ == old(self)@
                    &&& final(driver).senders() == old(driver).senders()
                    &&& final(driver).receivers() == old(driver).receivers()
                },
                Ok(_) => {
                    &&& step == final(self)@.announcing()
                    &&& final(self)@ == old(self)@.told()
                    &&& if old(self)@.bi.len() > 0 {
                        let (id, (send, recv)) = old(self)@.bi[0];
                        &&& final(driver).senders() == old(driver).senders().insert(id.0, send)
                        &&& final(driver).receivers() == old(driver).receivers().insert(id.0, recv)
                    } else {
                        let (id, send) = old(self)@.uni[0];
                        &&& final(driver).senders() == old(driver).senders().insert(id.0, send)
                        &&& final(driver).receivers() == old(driver).receivers()
                    }
                },
            },
    {
        if let Err(error) = result {
            return PassStep::Done(Poll::Ready(Err(ConnectionError::Transport(error))));
        }
        if self.bi.len() > 0 {
            let (id, handles) = self.bi.remove(0);
            assert(self@.bi =~= old(self)@.bi.drop_first());
            driver.track_bi(id, handles);
        } else {
            let (id, handle) = self.uni.remove(0);
            assert(self@.uni =~= old(self)@.uni.drop_first());
            driver.track_uni(id, handle);
        }
        self.announce()
    }

    /// Go on with how many streams the peer allows in each direction: take whoever waits
    /// for one, the urgencies to apply, and the streams to flush. If there is anything to
    /// do by now, the driver is not to sleep.
    pub fn allowance<W>(
        &mut self,
        driver: &Driver<S, R>,
        state: &mut DriverState<W, S, R>,
        bi: u64,
        uni: u64,
    ) -> (step: PassStep)
        requires
            old(state)@.wf(),
        ensures
            final(state)@.wf(),
            final(self)@ == old(self)@.allowed(old(state)@, final(self)@.send, final(self)@.recv),
            final(self)@.send.to_set() == old(state)@.send && final(self)@.send.no_duplicates(),
            final(self)@.recv.to_set() == old(state)@.recv && final(self)@.recv.no_duplicates(),
            final(state)@ == (DriverModel {
                bi: final(state)@.bi,
                uni: final(state)@.uni,
                priorities: final(state)@.priorities,
                send: Set::empty(),
                recv: Set::empty(),
                ..old(state)@
            }),
            final(state)@.priorities.orders() == old(state)@.priorities.orders(),
            step matches PassStep::Apply(bi_woken, uni_woken, updates) && {
                &&& refilled(old(state)@.bi, final(state)@.bi, bi, bi_woken)
                &&& refilled(old(state)@.uni, final(state)@.uni, uni, uni_woken)
                &&& forall|id: u64| #[trigger]
                    final(state)@.priorities.updates().index_opt(id) == if driver.senders().contains_key(
                        id,
                    ) {
                        None
                    } else {
                        old(state)@.priorities.updates().index_opt(id)
                    }
                &&& forall|id: u64| #[trigger]
                    first_update(updates@, id) == if driver.senders().contains_key(id) {
                        old(state)@.priorities.updates().index_opt(id)
                    } else {
                        None
                    }
                &&& distinct(updates@)
            },
    {
        self.sleep = self.sleep && state.is_quiet();
        let (bi_woken, uni_woken) = state.allow(bi, uni);
        let updates = driver.urgencies(state);
        let (send, recv) = state.take_work();
        self.send = list(&send);
        self.recv = list(&recv);
        PassStep::Apply(bi_woken, uni_woken, updates)
    }

    /// Go on to flush the streams, once everyone has been woken.
    pub fn applied(&mut self, driver: &Driver<S, R>) -> (step: PassStep)
        ensures
            (final(self)@, step) == old(self)@.flushing(driver.senders(), driver.receivers()),
    {
        let ghost goal = self@.flushing(driver.senders(), driver.receivers());
        while self.recv.len() > 0
            invariant
                self@.flushing(driver.senders(), driver.receivers()) == goal,
                goal == old(self)@.flushing(driver.senders(), driver.receivers()),
            decreases self@.recv.len(),
        {
            let id: u64 = self.recv[self.recv.len() - 1];
            if driver.receiver(StreamId(id)).is_some() {
                return PassStep::FlushRecv(StreamId(id));
            }
            let ghost before = self@;
            let _ = self.recv.pop();
            assert(self@ == (PassModel { recv: before.recv.drop_last(), ..before }));
        }
        while self.send.len() > 0
            invariant
                self@.recv.len() == 0,
                self@.flushing(driver.senders(), driver.receivers()) == goal,
                goal == old(self)@.flushing(driver.senders(), driver.receivers()),
            decreases self@.send.len(),
        {
            let id: u64 = self.send[self.send.len() - 1];
            if driver.sender(StreamId(id)).is_some() {
                return PassStep::FlushSend(StreamId(id));
            }
            let ghost before = self@;
            let _ = self.send.pop();
            assert(self@ == (PassModel { send: before.send.drop_last(), ..before }));
        }
        PassStep::Done(pass_outcome(self.sleep, self.keep_alive))
    }

    /// Go on once a stream has been flushed, given whether that has closed it: it is then
    /// not tracked any more.
    pub fn flushed<W>(
        &mut self,
        driver: &mut Driver<S, R>,
        state: &mut DriverState<W, S, R>,
        result: Result<bool, TransportError>,
    ) -> (step: PassStep)
        requires
            old(state)@.wf(),
            old(self)@.recv.len() > 0 || old(self)@.send.len() > 0,
        ensures
            final(state)@.wf(),
            match result {
                Err(error) => {
                    &&& step == failed(error)
                    &&& final(self)@ == old(self)@
                    &&& final(driver).senders() == old(driver).senders()
                    &&& final(driver).receivers() == old(driver).receivers()
                    &&& final(state)@ == old(state)@
                },
                Ok(closed) => {
                    &&& (final(self)@, step) == old(self)@.relieved().flushing(
                        final(driver).senders(),
                        final(driver).receivers(),
                    )
                    &&& final(driver).receivers() == if old(self)@.recv.len() > 0 && closed {
                        old(driver).receivers().remove(old(self)@.recv.last())
                    } else {
                        old(driver).receivers()
                    }
                    &&& if old(self)@.recv.len() == 0 && closed {
                        retired(old(state)@, final(state)@, StreamId(old(self)@.send.last()))
                            && final(driver).senders() == old(driver).senders().remove(
                            old(self)@.send.last(),
                        )
                    } else {
                        final(state)@ == old(state)@ && final(driver).senders() == old(driver).senders()
                    }
                },
            },
    {
        let closed = match result {
            Err(error) => return PassStep::Done(Poll::Ready(Err(ConnectionError::Transport(error)))),
            Ok(closed) => closed,
        };
        if self.recv.len() > 0 {
            let id: u64 = self.recv[self.recv.len() - 1];
            let _ = self.recv.pop();
            assert(self@.recv =~= old(self)@.recv.drop_last());
            driver.flushed_recv(StreamId(id), closed);
        } else {
            let id: u64 = self.send[self.send.len() - 1];
            let _ = self.send.pop();
            assert(self@.send =~= old(self)@.send.drop_last());
            driver.flushed_send(state, StreamId(id), closed);
        }
        self.applied(driver)
    }
}

/// A pass that does not fail ends only once every stream with something to flush has
/// been flushed, or is not tracked any more.
pub proof fn law_a_pass_flushes_every_stream<S, R>(
    pass: PassModel<S, R>,
    senders: Map<u64, S>,
    receivers: Map<u64, R>,
)
    ensures
        ({
            let (after, step) = pass.flushing(senders, receivers);
            &&& step is Done ==> after.recv.len() == 0 && after.send.len() == 0
            &&& step is Done ==> (forall|i: int|
                0 <= i < pass.recv.len() ==> !receivers.contains_key(#[trigger] pass.recv[i]))
            &&& step is Done ==> (forall|i: int|
                0 <= i < pass.send.len() ==> !senders.contains_key(#[trigger] pass.send[i]))
            &&& step matches PassStep::FlushRecv(id) ==> receivers.contains_key(id.0)
                && pass.recv.contains(id.0)
            &&& step matches PassStep::FlushSend(id) ==> senders.contains_key(id.0)
                && pass.send.contains(id.0)
        }),
    decreases pass.recv.len() + pass.send.len(),
{
    if pass.recv.len() > 0 {
        if !receivers.contains_key(pass.recv.last()) {
            let rest = PassModel { recv: pass.recv.drop_last(), ..pass };
            law_a_pass_flushes_every_stream(rest, senders, receivers);
            assert forall|i: int| 0 <= i < pass.recv.len() - 1 implies #[trigger] pass.recv[i] == rest.recv[i] by {}
            if let PassStep::FlushRecv(id) = rest.flushing(senders, receivers).1 {
                let i = choose|i: int| 0 <= i < rest.recv.len() && rest.recv[i] == id.0;
                assert(pass.recv[i] == id.0);
            }
        } else {
            assert(pass.recv[pass.recv.len() - 1] == pass.recv.last());
        }
    } else if pass.send.len() > 0 {
        if !senders.contains_key(pass.send.last()) {
            let rest = PassModel { send: pass.send.drop_last(), ..pass };
            law_a_pass_flushes_every_stream(rest, senders, receivers);
            assert forall|i: int| 0 <= i < pass.send.len() - 1 implies #[trigger] pass.send[i] == rest.send[i] by {}
            if let PassStep::FlushSend(id) = rest.flushing(senders, receivers).1 {
                let i = choose|i: int| 0 <= i < rest.send.len() && rest.send[i] == id.0;
                assert(pass.send[i] == id.0);
            }
        } else {
            assert(pass.send[pass.send.len() - 1] == pass.send.last());
        }
    }
}

/// A whole pass over a connection that is established and that nobody closes, where
/// nothing fails: it looks for work in `before`, announces one stream after the other, takes
/// what there is to flush from `during`, and flushes one stream after the other, given the
/// streams that are tracked each time.
pub open spec fn runs<W, S, R>(
    begun: PassModel<S, R>,
    before: DriverModel<W, S, R>,
    datagrams: bool,
    announcing: Seq<PassModel<S, R>>,
    during: DriverModel<W, S, R>,
    allowed: PassModel<S, R>,
    flushing: Seq<(PassModel<S, R>, PassStep)>,
    known: Seq<(Map<u64, S>, Map<u64, R>)>,
) -> bool {
    &&& announcing.len() > 0 && announcing[0] == begun.snapped(before, datagrams)
    &&& forall|i: int|
        0 <= i < announcing.len() - 1 ==> (#[trigger] announcing[i]).announcing() is Announce && announcing[i + 1]
            == announcing[i].told()
    &&& announcing.last().announcing() is Allowance
    &&& allowed == announcing.last().allowed(during, allowed.send, allowed.recv)
    &&& allowed.send.to_set() == during.send && allowed.recv.to_set() == during.recv
    &&& flushing.len() == known.len() > 0 && flushing[0] == allowed.flushing(known[0].0, known[0].1)
    &&& forall|i: int|
        0 <= i < flushing.len() - 1 ==> !((#[trigger] flushing[i]).1 is Done) && flushing[i + 1]
            == flushing[i].0.relieved().flushing(known[i + 1].0, known[i + 1].1)
    &&& flushing.last().1 is Done
}

/// A pass puts the driver to sleep only if it announced no stream and flushed none, no
/// datagram waited, no keep-alive was due, and nothing was left for it meanwhile; and if
/// all of that is so, it does. Otherwise the transport gets to send what was scheduled. It
/// announces every stream that had been opened.
pub proof fn law_a_pass_sleeps_only_if_it_did_nothing<W, S, R>(
    begun: PassModel<S, R>,
    before: DriverModel<W, S, R>,
    datagrams: bool,
    announcing: Seq<PassModel<S, R>>,
    during: DriverModel<W, S, R>,
    allowed: PassModel<S, R>,
    flushing: Seq<(PassModel<S, R>, PassStep)>,
    known: Seq<(Map<u64, S>, Map<u64, R>)>,
)
    requires
        runs(begun, before, datagrams, announcing, during, allowed, flushing, known),
    ensures
        announcing.len() == 1 + before.bi.create.len() + before.uni.create.len(),
        flushing.last().1 == PassStep::Done(
            if before.quiet() && during.quiet() && !datagrams && !begun.keep_alive {
                Poll::Pending
            } else {
                Poll::Ready(Ok(()))
            },
        ),
        flushing.last().1 == PassStep::Done(Poll::Pending) ==> announcing.len() == 1 && flushing.len() == 1,
        // Where the shared state is held throughout, what the pass found at first decides.
        during.send == before.send && during.recv == before.recv && during.bi.create.len() == 0
            && during.uni.create.len() == 0 ==> (flushing.last().1 == PassStep::Done(Poll::Pending) <==> {
            &&& before.quiet()
            &&& !datagrams
            &&& !begun.keep_alive
        }),
{
    lemma_announcing(announcing, announcing.len() - 1);
    assert(allowed.sleep == (before.quiet() && !datagrams && during.quiet()));
    lemma_flushing(allowed, known[0].0, known[0].1);
    lemma_flushing_on(flushing, known, flushing.len() - 1);
    if allowed.sleep {
        assert(allowed.send.len() == 0) by {
            if allowed.send.len() > 0 {
                assert(allowed.send.to_set().contains(allowed.send[0]));
            }
        }
        assert(allowed.recv.len() == 0) by {
            if allowed.recv.len() > 0 {
                assert(allowed.recv.to_set().contains(allowed.recv[0]));
            }
        }
        assert(flushing[0].1 is Done);
        assert(flushing.len() == 1);
    }
}

/// Announcing a stream takes it off those to announce, and changes nothing else.
proof fn lemma_announcing<S, R>(passes: Seq<PassModel<S, R>>, last: int)
    requires
        0 <= last < passes.len(),
        forall|i: int|
            0 <= i < passes.len() - 1 ==> (#[trigger] passes[i]).announcing() is Announce && passes[i + 1]
                == passes[i].told(),
    ensures
        passes[last].bi.len() + passes[last].uni.len() + last == passes[0].bi.len() + passes[0].uni.len(),
        passes[last].sleep == passes[0].sleep,
        passes[last].keep_alive == passes[0].keep_alive,
    decreases last,
{
    if last > 0 {
        lemma_announcing(passes, last - 1);
        assert(passes[last - 1].announcing() is Announce);
    }
}

/// Passing over streams that are not tracked any more keeps what a pass has found out.
proof fn lemma_flushing<S, R>(pass: PassModel<S, R>, senders: Map<u64, S>, receivers: Map<u64, R>)
    ensures
        ({
            let (after, step) = pass.flushing(senders, receivers);
            &&& after.sleep == pass.sleep
            &&& after.keep_alive == pass.keep_alive
            &&& step is Done ==> step == PassStep::Done(
                if pass.sleep && !pass.keep_alive {
                    Poll::Pending
                } else {
                    Poll::Ready(Ok(()))
                },
            )
        }),
    decreases pass.recv.len() + pass.send.len(),
{
    if pass.recv.len() > 0 {
        if !receivers.contains_key(pass.recv.last()) {
            lemma_flushing(PassModel { recv: pass.recv.drop_last(), ..pass }, senders, receivers);
        }
    } else if pass.send.len() > 0 {
        if !senders.contains_key(pass.send.last()) {
            lemma_flushing(PassModel { send: pass.send.drop_last(), ..pass }, senders, receivers);
        }
    }
}

/// So does flushing one stream after the other.
proof fn lemma_flushing_on<S, R>(
    flushing: Seq<(PassModel<S, R>, PassStep)>,
    known: Seq<(Map<u64, S>, Map<u64, R>)>,
    last: int,
)
    requires
        0 <= last < flushing.len() == known.len(),
        flushing[0].1 is Done ==> flushing[0].1 == PassStep::Done(
            if flushing[0].0.sleep && !flushing[0].0.keep_alive {
                Poll::Pending
            } else {
                Poll::Ready(Ok(()))
            },
        ),
        forall|i: int|
            0 <= i < flushing.len() - 1 ==> !((#[trigger] flushing[i]).1 is Done) && flushing[i + 1]
                == flushing[i].0.relieved().flushing(known[i + 1].0, known[i + 1].1),
    ensures
        flushing[last].0.sleep == flushing[0].0.sleep,
        flushing[last].0.keep_alive == flushing[0].0.keep_alive,
        flushing[last].1 is Done ==> flushing[last].1 == PassStep::Done(
            if flushing[0].0.sleep && !flushing[0].0.keep_alive {
                Poll::Pending
            } else {
                Poll::Ready(Ok(()))
            },
        ),
    decreases last,
{
    if last > 0 {
        lemma_flushing_on(flushing, known, last - 1);
        let earlier = flushing[last - 1];
        lemma_flushing(earlier.0.relieved(), known[last].0, known[last].1);
        assert(!(earlier.1 is Done));
    }
}

/// No wakeup is lost while a pass runs: where it puts the driver to sleep, nothing is left
/// in the shared state, and what wakes the driver is still there unless somebody took it,
/// who then wakes it.
pub proof fn law_a_pass_that_sleeps_leaves_nothing_behind<W, S, R>(
    begun: PassModel<S, R>,
    before: DriverModel<W, S, R>,
    datagrams: bool,
    announcing: Seq<PassModel<S, R>>,
    during: DriverModel<W, S, R>,
    allowed: PassModel<S, R>,
    flushing: Seq<(PassModel<S, R>, PassStep)>,
    known: Seq<(Map<u64, S>, Map<u64, R>)>,
    after: DriverModel<W, S, R>,
)
    requires
        runs(begun, before, datagrams, announcing, during, allowed, flushing, known),
        flushing.last().1 == PassStep::Done(Poll::Pending),
        after == (DriverModel {
            bi: after.bi,
            uni: after.uni,
            priorities: after.priorities,
            send: Set::empty(),
            recv: Set::empty(),
            ..during
        }),
        after.bi.create == during.bi.create,
        after.uni.create == during.uni.create,
    ensures
        after.quiet(),
        after.waker == during.waker,
{
    law_a_pass_sleeps_only_if_it_did_nothing(
        begun,
        before,
        datagrams,
        announcing,
        during,
        allowed,
        flushing,
        known,
    );
}

/// The streams that a pass has yet to tell the transport of, in the order of doing so: first
/// those that run both ways.
pub open spec fn to_announce<S, R>(pass: PassModel<S, R>) -> Seq<StreamId> {
    Seq::new(
        pass.bi.len() + pass.uni.len(),
        |i: int|
            if i < pass.bi.len() {
                pass.bi[i].0
            } else {
                pass.uni[i - pass.bi.len()].0
            },
    )
}

/// The step that tells the transport of the first of some streams, or goes on if there is
/// none.
pub open spec fn announces_first(step: PassStep, ids: Seq<StreamId>) -> bool {
    if ids.len() > 0 {
        step == PassStep::Announce(ids[0])
    } else {
        step is Allowance
    }
}

/// A pass takes every stream that has been opened, leaves none behind to be announced twice,
/// and begins with the first of them. It notes the statistics, and that there is nothing to
/// do exactly if there is no stream to announce or to flush and no datagram.
pub proof fn law_a_pass_takes_every_opened_stream<W, S, R>()
    ensures
        forall|
            pass: &mut Pass<S, R>,
            state: &mut DriverState<W, S, R>,
            stats: ConnectionStats,
            datagrams: bool,
            step: PassStep,
        |
            #[trigger] call_ensures(Pass::<S, R>::snapshot::<W>, (pass, state, stats, datagrams), step) ==> {
                &&& final(pass)@.bi == state@.bi.create && final(pass)@.uni == state@.uni.create
                &&& final(state)@.bi.create.len() == 0 && final(state)@.uni.create.len() == 0
                &&& final(state)@.bi.capacity == state@.bi.capacity && final(state)@.uni.capacity
                    == state@.uni.capacity
                &&& final(state)@.bi.waiting == state@.bi.waiting && final(state)@.uni.waiting
                    == state@.uni.waiting
                &&& final(state)@.bi.next == state@.bi.next && final(state)@.uni.next == state@.uni.next
                &&& final(state)@.send == state@.send && final(state)@.recv == state@.recv
                &&& final(state)@.waker == state@.waker && final(state)@.stats == stats
                &&& final(state)@.priorities == state@.priorities
                &&& announces_first(step, to_announce(final(pass)@))
                &&& final(pass)@.sleep <==> state@.bi.create.len() + state@.uni.create.len() == 0 && state@.send
                    =~= Set::<u64>::empty() && state@.recv =~= Set::<u64>::empty() && !datagrams
                &&& final(pass)@.keep_alive == pass@.keep_alive
                &&& final(pass)@.recv == pass@.recv && final(pass)@.send == pass@.send
            },
{
}

/// The stream that the driver tracks once the transport has been told of one is the stream
/// that it was told of, with its own handles; and the next one follows. Every other stream is
/// tracked as before. Where the transport fails, nothing changes.
pub proof fn law_the_stream_announced_is_the_stream_tracked<S, R>()
    ensures
        forall|
            pass: &mut Pass<S, R>,
            driver: &mut Driver<S, R>,
            result: Result<(), TransportError>,
            step: PassStep,
        |
            #[trigger] call_ensures(Pass::<S, R>::announced, (pass, driver, result), step) && to_announce(
                pass@,
            ).len() > 0 ==> match result {
                Ok(_) => {
                    let ids = to_announce(pass@);
                    &&& to_announce(final(pass)@) =~= ids.drop_first()
                    &&& announces_first(step, ids.drop_first())
                    &&& final(driver).senders().contains_key(ids[0].0)
                    &&& forall|id: u64| #[trigger]
                        final(driver).senders().contains_key(id) ==> id == ids[0].0 || (
                        driver.senders().contains_key(id) && final(driver).senders()[id]
                            == driver.senders()[id])
                    &&& forall|id: u64| #[trigger]
                        driver.senders().contains_key(id) ==> final(driver).senders().contains_key(id)
                    &&& if pass@.bi.len() > 0 {
                        &&& final(driver).senders()[ids[0].0] == pass@.bi[0].1.0
                        &&& final(driver).receivers().contains_key(ids[0].0)
                            && final(driver).receivers()[ids[0].0] == pass@.bi[0].1.1
                        &&& final(driver).receivers().remove(ids[0].0) =~= driver.receivers().remove(
                            ids[0].0,
                        )
                    } else {
                        &&& final(driver).senders()[ids[0].0] == pass@.uni[0].1
                        &&& final(driver).receivers() == driver.receivers()
                    }
                    &&& final(pass)@.sleep == pass@.sleep && final(pass)@.keep_alive == pass@.keep_alive
                    &&& final(pass)@.recv == pass@.recv && final(pass)@.send == pass@.send
                },
                Err(error) => {
                    &&& step == PassStep::Done(Poll::Ready(Err(ConnectionError::Transport(error))))
                    &&& final(pass)@ == pass@
                    &&& final(driver).senders() == driver.senders()
                    &&& final(driver).receivers() == driver.receivers()
                },
            },
{
    assert forall|
        pass: &mut Pass<S, R>,
        driver: &mut Driver<S, R>,
        result: Result<(), TransportError>,
        step: PassStep,
    |
        #[trigger] call_ensures(Pass::<S, R>::announced, (pass, driver, result), step) && to_announce(
            pass@,
        ).len() > 0 && result is Ok implies to_announce(final(pass)@) =~= to_announce(pass@).drop_first() by {
        lemma_told(pass@);
    }
}

/// Telling the transport of one stream takes the first off those to announce.
proof fn lemma_told<S, R>(pass: PassModel<S, R>)
    requires
        to_announce(pass).len() > 0,
    ensures
        to_announce(pass.told()) =~= to_announce(pass).drop_first(),
        pass.announcing() == PassStep::Announce(to_announce(pass)[0]),
{
}

/// Over a whole pass the transport is told of exactly the streams that had been opened, each
/// of them once and in the order in which they were opened, those that run both ways first.
pub proof fn law_a_pass_announces_each_stream_once_and_in_order<W, S, R>(
    begun: PassModel<S, R>,
    before: DriverModel<W, S, R>,
    datagrams: bool,
    announcing: Seq<PassModel<S, R>>,
    during: DriverModel<W, S, R>,
    allowed: PassModel<S, R>,
    flushing: Seq<(PassModel<S, R>, PassStep)>,
    known: Seq<(Map<u64, S>, Map<u64, R>)>,
)
    requires
        runs(begun, before, datagrams, announcing, during, allowed, flushing, known),
    ensures
        announcing.len() - 1 == before.bi.create.len() + before.uni.create.len(),
        forall|i: int|
            0 <= i < before.bi.create.len() ==> (#[trigger] announcing[i]).announcing() == PassStep::Announce(
                before.bi.create[i].0,
            ),
        forall|i: int|
            before.bi.create.len() <= i < announcing.len() - 1 ==> (#[trigger] announcing[i]).announcing()
                == PassStep::Announce(before.uni.create[i - before.bi.create.len()].0),
{
    law_a_pass_sleeps_only_if_it_did_nothing(
        begun,
        before,
        datagrams,
        announcing,
        during,
        allowed,
        flushing,
        known,
    );
    assert forall|i: int| 0 <= i < announcing.len() - 1 implies (#[trigger] announcing[i]).announcing()
        == PassStep::Announce(to_announce(announcing[0])[i]) by {
        lemma_announced_so_far(announcing, i);
        assert(announcing[i].announcing() is Announce);
        assert(to_announce(announcing[i]).len() > 0);
        lemma_told(announcing[i]);
    }
}

/// What is left to announce after some streams have been.
proof fn lemma_announced_so_far<S, R>(passes: Seq<PassModel<S, R>>, i: int)
    requires
        0 <= i < passes.len(),
        forall|k: int|
            0 <= k < passes.len() - 1 ==> (#[trigger] passes[k]).announcing() is Announce && passes[k + 1]
                == passes[k].told(),
    ensures
        i <= to_announce(passes[0]).len(),
        to_announce(passes[i]) =~= to_announce(passes[0]).skip(i),
    decreases i,
{
    if i > 0 {
        lemma_announced_so_far(passes, i - 1);
        assert(passes[i - 1].announcing() is Announce);
        assert(to_announce(passes[i - 1]).len() > 0);
        lemma_told(passes[i - 1]);
        assert(passes[i] == passes[i - 1].told());
    }
}

/// A pass closes the connection exactly if the application asked for that and it is not too
/// late; otherwise it goes on once the connection is established, and waits until then. A
/// pass that closes the connection ends with what comes of it.
pub proof fn law_a_pass_closes_the_connection_on_request<W, S, R>()
    ensures
        forall|
            pass: &Pass<S, R>,
            state: &mut DriverState<W, S, R>,
            waiter: &Waiter,
            draining: bool,
            established: bool,
            step: PassStep,
        |
            #[trigger] call_ensures(
                Pass::<S, R>::start::<W>,
                (pass, state, waiter, draining, established),
                step,
            ) ==> {
                let asked = !draining && state@.close_requested.error is Some;
                &&& step is Close <==> asked
                &&& step is KeepAlive <==> !asked && established
                &&& step == PassStep::Done(Poll::Pending) <==> !asked && !established
                &&& step matches PassStep::Close(code, reason) ==> (match state@.close_requested.error->0 {
                    ConnectionError::Local(c, r) => code == c && reason == r,
                    ConnectionError::Remote(c, r) => code == c && reason == r,
                    ConnectionError::Dropped => code == 0x64726F70 && reason@ == "dropped"@,
                    ConnectionError::Transport(e) => code == 500 && reason == e.text,
                    ConnectionError::Unknown(r) => code == 501 && reason == r,
                })
                &&& final(state)@.close_requested.error == state@.close_requested.error
                &&& !draining && !asked ==> final(state)@.close_requested.waiting.contains(identity(*waiter))
                &&& final(state)@.send == state@.send && final(state)@.recv == state@.recv
                &&& final(state)@.bi == state@.bi && final(state)@.uni == state@.uni
                &&& final(state)@.waker == state@.waker && final(state)@.closed == state@.closed
            },
        forall|pass: &Pass<S, R>, result: Result<(), TransportError>, step: PassStep|
            #[trigger] call_ensures(Pass::<S, R>::closed, (pass, result), step) ==> {
                &&& result is Ok <==> step == PassStep::Done(Poll::Ready(Ok(())))
                &&& result matches Err(error) ==> step == PassStep::Done(
                    Poll::Ready(Err(ConnectionError::Transport(error))),
                )
            },
{
}

/// What wakes the driver is in place before it looks for work, and a keep-alive that was
/// scheduled is remembered. Where it cannot be scheduled the pass fails with that error.
pub proof fn law_the_waker_is_parked_before_looking_for_work<W, S, R>()
    ensures
        forall|
            pass: &mut Pass<S, R>,
            state: &mut DriverState<W, S, R>,
            waker: W,
            result: Result<bool, TransportError>,
            step: PassStep,
        |
            #[trigger] call_ensures(Pass::<S, R>::kept_alive::<W>, (pass, state, waker, result), step) ==> {
                &&& step is Snapshot <==> result is Ok
                &&& result matches Ok(due) ==> {
                    &&& final(state)@.waker == Some(waker)
                    &&& final(pass)@.keep_alive == due
                }
                &&& result matches Err(error) ==> {
                    &&& step == PassStep::Done(Poll::Ready(Err(ConnectionError::Transport(error))))
                    &&& final(state)@.waker == state@.waker && final(pass)@ == pass@
                }
                &&& final(state)@.send == state@.send && final(state)@.recv == state@.recv
                &&& final(state)@.bi == state@.bi && final(state)@.uni == state@.uni
                &&& final(pass)@.bi == pass@.bi && final(pass)@.uni == pass@.uni
                &&& final(pass)@.send == pass@.send && final(pass)@.recv == pass@.recv
                &&& final(pass)@.sleep == pass@.sleep
            },
{
}

/// A pass takes everything that there is to flush, each stream once, and leaves none of it
/// behind. What may be opened from then on, with what was opened and not announced, is what
/// the peer allows; whoever waits for a stream is handed out exactly if there is one to
/// open. The urgency of every tracked stream that has a new one is applied, once, and those
/// of other streams are kept. The driver may sleep only if nothing was left for it.
pub proof fn law_a_pass_takes_everything_there_is_to_flush<W, S, R>()
    ensures
        forall|
            pass: &mut Pass<S, R>,
            driver: &Driver<S, R>,
            state: &mut DriverState<W, S, R>,
            bi: u64,
            uni: u64,
            step: PassStep,
        |
            #[trigger] call_ensures(Pass::<S, R>::allowance::<W>, (pass, driver, state, bi, uni), step) ==> {
                &&& final(state)@.send =~= Set::<u64>::empty() && final(state)@.recv =~= Set::<u64>::empty()
                &&& forall|id: u64| #[trigger] final(pass)@.send.contains(id) <==> state@.send.contains(id)
                &&& forall|id: u64| #[trigger] final(pass)@.recv.contains(id) <==> state@.recv.contains(id)
                &&& final(pass)@.send.no_duplicates() && final(pass)@.recv.no_duplicates()
                &&& final(pass)@.bi == pass@.bi && final(pass)@.uni == pass@.uni
                &&& final(pass)@.keep_alive == pass@.keep_alive
                &&& final(pass)@.sleep ==> pass@.sleep && state@.send =~= Set::<u64>::empty() && state@.recv
                    =~= Set::<u64>::empty() && state@.bi.create.len() == 0 && state@.uni.create.len() == 0
                &&& pass@.sleep && state@.quiet() ==> final(pass)@.sleep
                &&& final(state)@.waker == state@.waker && final(state)@.stats == state@.stats
                &&& step matches PassStep::Apply(bi_woken, uni_woken, updates) && {
                    &&& credited(state@.bi, final(state)@.bi, bi, registered(bi_woken))
                    &&& credited(state@.uni, final(state)@.uni, uni, registered(uni_woken))
                    &&& forall|i: int, j: int|
                        0 <= i < j < updates@.len() ==> updates@[i].0 != updates@[j].0
                    &&& forall|id: u64| #[trigger]
                        state@.priorities.updates().contains_key(id) && driver.senders().contains_key(id)
                            ==> first_update(updates@, id) == Some(state@.priorities.updates()[id])
                    &&& forall|id: u64| #[trigger]
                        first_update(updates@, id) is Some ==> driver.senders().contains_key(id)
                            && state@.priorities.updates().contains_key(id)
                }
            },
{
    assert forall|
        pass: &mut Pass<S, R>,
        driver: &Driver<S, R>,
        state: &mut DriverState<W, S, R>,
        bi: u64,
        uni: u64,
        step: PassStep,
    |
        #[trigger] call_ensures(Pass::<S, R>::allowance::<W>, (pass, driver, state, bi, uni), step) implies {
        &&& forall|id: u64| #[trigger] final(pass)@.send.contains(id) <==> state@.send.contains(id)
        &&& forall|id: u64| #[trigger] final(pass)@.recv.contains(id) <==> state@.recv.contains(id)
    } by {
        assert forall|id: u64| #[trigger] final(pass)@.send.contains(id) <==> state@.send.contains(id) by {
            assert(final(pass)@.send.to_set().contains(id) <==> final(pass)@.send.contains(id));
        }
        assert forall|id: u64| #[trigger] final(pass)@.recv.contains(id) <==> state@.recv.contains(id) by {
            assert(final(pass)@.recv.to_set().contains(id) <==> final(pass)@.recv.contains(id));
        }
    }
}

/// What the search for the next stream to flush comes to: the first stream from the back,
/// receiving halves before sending ones, that is still tracked. What is passed over is not
/// tracked, and nothing is lost. Only where there is none is the pass over, with the driver
/// asleep exactly if there was nothing to do and no keep-alive was scheduled.
pub open spec fn finds_next<S, R>(
    pass: PassModel<S, R>,
    senders: Map<u64, S>,
    receivers: Map<u64, R>,
    after: PassModel<S, R>,
    step: PassStep,
) -> bool {
    &&& after.bi == pass.bi && after.uni == pass.uni && after.sleep == pass.sleep && after.keep_alive
        == pass.keep_alive
    &&& after.recv.is_prefix_of(pass.recv) && after.send.is_prefix_of(pass.send)
    &&& forall|i: int|
        after.recv.len() <= i < pass.recv.len() ==> !receivers.contains_key(#[trigger] pass.recv[i])
    &&& forall|i: int|
        after.send.len() <= i < pass.send.len() ==> !senders.contains_key(#[trigger] pass.send[i])
    &&& if after.recv.len() > 0 {
        &&& step == PassStep::FlushRecv(StreamId(after.recv.last())) && receivers.contains_key(after.recv.last())
        &&& after.send == pass.send
    } else if after.send.len() > 0 {
        step == PassStep::FlushSend(StreamId(after.send.last())) && senders.contains_key(after.send.last())
    } else {
        step matches PassStep::Done(outcome) && (outcome is Pending <==> pass.sleep && !pass.keep_alive) && (
        outcome is Pending || outcome == Poll::Ready(Ok::<(), ConnectionError>(())))
    }
}

proof fn lemma_finds_next<S, R>(pass: PassModel<S, R>, senders: Map<u64, S>, receivers: Map<u64, R>)
    ensures
        finds_next(
            pass,
            senders,
            receivers,
            pass.flushing(senders, receivers).0,
            pass.flushing(senders, receivers).1,
        ),
    decreases pass.recv.len() + pass.send.len(),
{
    if pass.recv.len() > 0 {
        if !receivers.contains_key(pass.recv.last()) {
            let rest = PassModel { recv: pass.recv.drop_last(), ..pass };
            lemma_finds_next(rest, senders, receivers);
            let after = rest.flushing(senders, receivers).0;
            assert forall|i: int| after.recv.len() <= i < pass.recv.len() implies !receivers.contains_key(
                #[trigger] pass.recv[i],
            ) by {
                if i < rest.recv.len() {
                    assert(pass.recv[i] == rest.recv[i]);
                }
            }
        }
    } else if pass.send.len() > 0 {
        if !senders.contains_key(pass.send.last()) {
            let rest = PassModel { send: pass.send.drop_last(), ..pass };
            lemma_finds_next(rest, senders, receivers);
            let after = rest.flushing(senders, receivers).0;
            assert forall|i: int| after.send.len() <= i < pass.send.len() implies !senders.contains_key(
                #[trigger] pass.send[i],
            ) by {
                if i < rest.send.len() {
                    assert(pass.send[i] == rest.send[i]);
                }
            }
        }
    }
}

/// Every stream to flush is flushed, once: the stream that has just been flushed is taken off
/// the list, and only that one; it is retired if, and only if, flushing has closed it, in
/// the direction that was flushed; and the search goes on with the rest. Where the transport
/// fails, the pass ends with its error and nothing is retired.
pub proof fn law_each_stream_is_flushed_once<W, S, R>()
    ensures
        forall|pass: &mut Pass<S, R>, driver: &Driver<S, R>, step: PassStep|
            #[trigger] call_ensures(Pass::<S, R>::applied, (pass, driver), step) ==> finds_next(
                pass@,
                driver.senders(),
                driver.receivers(),
                final(pass)@,
                step,
            ),
        forall|
            pass: &mut Pass<S, R>,
            driver: &mut Driver<S, R>,
            state: &mut DriverState<W, S, R>,
            result: Result<bool, TransportError>,
            step: PassStep,
        |
            #[trigger] call_ensures(Pass::<S, R>::flushed::<W>, (pass, driver, state, result), step) ==> {
                let receiving = pass@.recv.len() > 0;
                &&& result matches Err(error) ==> {
                    &&& step == PassStep::Done(Poll::Ready(Err(ConnectionError::Transport(error))))
                    &&& final(driver).senders() == driver.senders() && final(driver).receivers()
                        == driver.receivers()
                    &&& final(state)@ == state@ && final(pass)@ == pass@
                }
                &&& result matches Ok(closed) ==> {
                    &&& finds_next(
                        PassModel {
                            recv: if receiving {
                                pass@.recv.drop_last()
                            } else {
                                pass@.recv
                            },
                            send: if receiving {
                                pass@.send
                            } else {
                                pass@.send.drop_last()
                            },
                            ..pass@
                        },
                        final(driver).senders(),
                        final(driver).receivers(),
                        final(pass)@,
                        step,
                    )
                    &&& forall|id: u64| #[trigger]
                        final(driver).receivers().contains_key(id) <==> driver.receivers().contains_key(id)
                            && !(receiving && closed && id == pass@.recv.last())
                    &&& forall|id: u64| #[trigger]
                        final(driver).senders().contains_key(id) <==> driver.senders().contains_key(id)
                            && !(!receiving && closed && id == pass@.send.last())
                    &&& forall|id: u64| #[trigger]
                        final(driver).receivers().contains_key(id) ==> final(driver).receivers()[id]
                            == driver.receivers()[id]
                    &&& forall|id: u64| #[trigger]
                        final(driver).senders().contains_key(id) ==> final(driver).senders()[id]
                            == driver.senders()[id]
                    &&& forall|id: u64| #[trigger]
                        final(state)@.priorities.orders().contains_key(id)
                            <==> state@.priorities.orders().contains_key(id) && !(!receiving && closed && id
                            == pass@.send.last())
                }
            },
{
    assert forall|pass: &mut Pass<S, R>, driver: &Driver<S, R>, step: PassStep|
        #[trigger] call_ensures(Pass::<S, R>::applied, (pass, driver), step) implies finds_next(
        pass@,
        driver.senders(),
        driver.receivers(),
        final(pass)@,
        step,
    ) by {
        lemma_finds_next(pass@, driver.senders(), driver.receivers());
    }
    assert forall|
        pass: &mut Pass<S, R>,
        driver: &mut Driver<S, R>,
        state: &mut DriverState<W, S, R>,
        result: Result<bool, TransportError>,
        step: PassStep,
    |
        #[trigger] call_ensures(Pass::<S, R>::flushed::<W>, (pass, driver, state, result), step)
            && result is Ok implies finds_next(
        pass@.relieved(),
        final(driver).senders(),
        final(driver).receivers(),
        final(pass)@,
        step,
    ) by {
        lemma_finds_next(pass@.relieved(), final(driver).senders(), final(driver).receivers());
    }
}

/// A pass that has not begun has found nothing out and has nothing to do.
pub proof fn law_a_new_pass_has_nothing_to_do<S, R>(pass: Pass<S, R>)
    requires
        call_ensures(Pass::<S, R>::new, (), pass),
    ensures
        to_announce(pass@).len() == 0 && pass@.recv.len() == 0 && pass@.send.len() == 0,
        !pass@.sleep && !pass@.keep_alive,
{
}

} // verus!
