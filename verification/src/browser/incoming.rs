//! Reading from the queues that the browser shares between all handles of a session.
//!
//! A read cannot be cancelled. Once it is issued the browser hands the next value to
//! *that* request, so a read whose handle was dropped has to be picked up by a surviving
//! one, or the value it was about to deliver is stranded and nobody ever sees it. The
//! browser fulfills reads in the order in which they were made, so the oldest one goes
//! first.

use std::collections::BTreeMap;
use std::future::Future;
use std::task::{Context, Poll};
use vstd::prelude::*;

use crate::traits::util::poll_future;

verus! {

broadcast use vstd::std_specs::btree::group_btree_axioms;

/// Whether the oldest orphan must run before the read that a handle has been assigned.
pub fn should_adopt_orphan(current: Option<u64>, orphan: u64) -> (adopt: bool)
    ensures
        adopt == adopts(current, orphan),
{
    match current {
        Some(current) => orphan < current,
        None => true,
    }
}

/// Whether an orphan is older than the read that a handle has been assigned, if any.
pub open spec fn adopts(current: Option<u64>, orphan: u64) -> bool {
    match current {
        Some(current) => orphan < current,
        None => true,
    }
}

/// Reads, from the oldest to the newest.
pub open spec fn ascending<F>(reads: Seq<(u64, F)>) -> bool {
    forall|i: int, j: int| 0 <= i < j < reads.len() ==> reads[i].0 < reads[j].0
}

/// Whether one of the reads has an order.
pub open spec fn holds<F>(reads: Seq<(u64, F)>, order: u64) -> bool {
    exists|i: int| 0 <= i < reads.len() && (#[trigger] reads[i]).0 == order
}

/// One queue of the browser that a session reads from. `F` is a read in progress, and
/// `W` wakes a handle.
pub struct Incoming<F, W> {
    next_order: u64,
    // The reads whose handle was dropped, from the oldest to the newest.
    orphans: Vec<(u64, F)>,
    // The handles waiting for a read, by its order.
    waiters: BTreeMap<u64, W>,
}

/// What an [`Incoming`] holds.
pub struct IncomingModel<F, W> {
    pub next_order: u64,
    pub orphans: Seq<(u64, F)>,
    pub waiters: Map<u64, W>,
}

/// One handle's read from an [`Incoming`].
pub struct IncomingOp<F> {
    read: Option<(u64, F)>,
}

impl<F, W> View for Incoming<F, W> {
    type V = IncomingModel<F, W>;

    closed spec fn view(&self) -> IncomingModel<F, W> {
        IncomingModel {
            next_order: self.next_order,
            orphans: self.orphans@,
            waiters: self.waiters@,
        }
    }
}

impl<F> View for IncomingOp<F> {
    type V = Option<(u64, F)>;

    closed spec fn view(&self) -> Option<(u64, F)> {
        self.read
    }
}

/// The order of the read that a handle has been assigned.
pub open spec fn order_of<F>(read: Option<(u64, F)>) -> Option<u64> {
    match read {
        Some((order, _)) => Some(order),
        None => None,
    }
}

impl<F, W> IncomingModel<F, W> {
    /// The orphans are in order, and all older than the next read.
    pub open spec fn wf(self) -> bool {
        &&& ascending(self.orphans)
        &&& forall|i: int| 0 <= i < self.orphans.len() ==> (#[trigger] self.orphans[i]).0 < self.next_order
    }

    /// A handle's read is its own: older than the next one, and no orphan.
    pub open spec fn owns(self, read: Option<(u64, F)>) -> bool {
        match read {
            Some((order, _)) => order < self.next_order && !holds(self.orphans, order),
            None => true,
        }
    }

    /// Whether a handle takes over the oldest orphan.
    pub open spec fn takes_over(self, read: Option<(u64, F)>) -> bool {
        self.orphans.len() > 0 && adopts(order_of(read), self.orphans[0].0)
    }

    /// The read of a handle once it has taken over the oldest orphan, if it does.
    pub open spec fn adopted(self, read: Option<(u64, F)>) -> Option<(u64, F)> {
        if self.takes_over(read) {
            Some(self.orphans[0])
        } else {
            read
        }
    }

    /// What a handle leaves that takes over the oldest orphan, if it does: its own read
    /// takes the place of the orphan among the others.
    pub open spec fn adopts_into(self, after: Self, read: Option<(u64, F)>) -> bool {
        if !self.takes_over(read) {
            after == self
        } else {
            let rest = self.orphans.drop_first();
            &&& after.next_order == self.next_order
            &&& match read {
                None => after.orphans == rest && after.waiters == self.waiters,
                Some((order, future)) => {
                    &&& ascending(after.orphans)
                    &&& after.orphans.to_multiset() == rest.to_multiset().insert((order, future))
                    &&& after.waiters == self.waiters.remove(order)
                },
            }
        }
    }
}

impl<F, W> Incoming<F, W> {
    /// A queue that has not been read from.
    pub fn new() -> (incoming: Self)
        ensures
            incoming@.wf(),
            incoming@ == (IncomingModel::<F, W> {
                next_order: 0,
                orphans: Seq::empty(),
                waiters: Map::empty(),
            }),
    {
        Incoming { next_order: 0, orphans: Vec::new(), waiters: BTreeMap::new() }
    }

    /// Whoever waits for a read.
    pub fn waiters(&self) -> (waiters: &BTreeMap<u64, W>)
        ensures
            waiters@ == self@.waiters,
    {
        &self.waiters
    }

    /// Put a read among the orphans, where its order belongs.
    fn orphan(&mut self, order: u64, future: F)
        requires
            old(self)@.wf(),
            order < old(self)@.next_order,
            !holds(old(self)@.orphans, order),
        ensures
            final(self)@.wf(),
            final(self)@.orphans.to_multiset() == old(self)@.orphans.to_multiset().insert((order, future)),
            final(self)@.next_order == old(self)@.next_order,
            final(self)@.waiters == old(self)@.waiters,
    {
        let ghost before = self.orphans@;
        let mut index: usize = 0;
        while index < self.orphans.len() && self.orphans[index].0 < order
            invariant
                self.orphans@ == before,
                self.next_order == old(self).next_order,
                self.waiters == old(self).waiters,
                index <= before.len(),
                forall|i: int| 0 <= i < index ==> (#[trigger] before[i]).0 < order,
            ensures
                index < before.len() ==> before[index as int].0 >= order,
            decreases before.len() - index,
        {
            index = index + 1;
        }
        self.orphans.insert(index, (order, future));
        proof {
            let after = self.orphans@;
            vstd::seq_lib::to_multiset_insert(before, index as int, (order, future));
            assert(after =~= before.insert(index as int, (order, future)));
            assert(ascending(after)) by {
                assert forall|i: int, j: int| 0 <= i < j < after.len() implies after[i].0 < after[j].0 by {
                    if index < before.len() {
                        assert(before[index as int].0 != order);
                    }
                }
            }
        }
    }

    /// Let a handle take over the oldest orphan if it is older than its own read, which
    /// becomes an orphan in turn.
    pub fn adopt(&mut self, op: &mut IncomingOp<F>)
        requires
            old(self)@.wf(),
            old(self)@.owns(old(op)@),
        ensures
            final(self)@.wf(),
            final(self)@.owns(final(op)@),
            final(op)@ == old(self)@.adopted(old(op)@),
            old(self)@.adopts_into(final(self)@, old(op)@),
    {
        if self.orphans.len() == 0 {
            return;
        }
        let current: Option<u64> = match &op.read {
            Some((order, _)) => Some(*order),
            None => None,
        };
        if !should_adopt_orphan(current, self.orphans[0].0) {
            return;
        }
        let ghost before = self.orphans@;
        let oldest = self.orphans.remove(0);
        let ghost rest = self.orphans@;
        proof {
            assert(rest =~= before.drop_first());
            assert forall|i: int| 0 <= i < rest.len() implies (#[trigger] rest[i]).0 > before[0].0 by {
                assert(rest[i] == before[i + 1]);
            }
        }
        let mut displaced: Option<(u64, F)> = Some(oldest);
        core::mem::swap(&mut displaced, &mut op.read);
        if let Some((order, future)) = displaced {
            proof {
                assert forall|i: int| 0 <= i < rest.len() implies (#[trigger] rest[i]).0 != order by {
                    assert(rest[i] == before[i + 1]);
                }
            }
            self.waiters.remove(&order);
            self.orphan(order, future);
            proof {
                let after = self.orphans@;
                assert(!holds(after, before[0].0)) by {
                    assert forall|i: int| 0 <= i < after.len() implies (#[trigger] after[i]).0 != before[0].0 by {
                        after.to_multiset_ensures();
                        rest.to_multiset_ensures();
                        assert(after.contains(after[i]));
                        assert(after.to_multiset().count(after[i]) > 0);
                        if after[i] != (order, future) {
                            assert(rest.to_multiset().count(after[i]) > 0);
                            assert(rest.contains(after[i]));
                        }
                    }
                }
            }
        }
    }

    /// The order of a handle's read; a handle without one is assigned the next.
    fn assign(&mut self, op: &IncomingOp<F>) -> (order: u64)
        requires
            old(self)@.wf(),
            old(self)@.owns(op@),
            op@ is None ==> old(self)@.next_order < u64::MAX,
        ensures
            final(self)@.wf(),
            op@ matches Some((assigned, _)) ==> order == assigned && final(self)@ == old(self)@,
            op@ is None ==> order == old(self)@.next_order && final(self)@ == (IncomingModel {
                next_order: (old(self)@.next_order + 1) as u64,
                ..old(self)@
            }),
    {
        match &op.read {
            Some((order, _)) => *order,
            None => {
                let order: u64 = self.next_order;
                self.next_order = order + 1;
                order
            },
        }
    }
}

impl<F, W> Incoming<F, W> {
    /// Whether there is no order left for another read.
    pub fn exhausted(&self) -> (exhausted: bool)
        ensures
            exhausted == (self@.next_order == u64::MAX),
    {
        self.next_order == u64::MAX
    }

    /// Keep a read that has been polled as the one assigned to a handle, unless it has
    /// resolved: nobody waits for it then.
    pub fn settle<T>(
        &mut self,
        op: &mut IncomingOp<F>,
        order: u64,
        future: F,
        result: Poll<T>,
    ) -> (same: Poll<T>)
        ensures
            same == result,
            final(op)@ == if result is Pending {
                Some((order, future))
            } else {
                None
            },
            final(self)@ == if result is Pending {
                old(self)@
            } else {
                IncomingModel { waiters: old(self)@.waiters.remove(order), ..old(self)@ }
            },
    {
        match result {
            Poll::Ready(output) => {
                op.read = None;
                self.waiters.remove(&order);
                Poll::Ready(output)
            },
            Poll::Pending => {
                op.read = Some((order, future));
                Poll::Pending
            },
        }
    }
}

impl<F: Future + Unpin, W> Incoming<F, W> {
    /// Poll a handle's read, starting one with `make` where it has none, not even an
    /// orphan to take over.
    pub fn poll<M: FnOnce() -> F>(
        &mut self,
        op: &mut IncomingOp<F>,
        cx: &mut Context<'_>,
        waker: W,
        make: M,
    ) -> (result: Poll<F::Output>)
        requires
            old(self)@.wf(),
            old(self)@.owns(old(op)@),
            old(self)@.adopted(old(op)@) is None ==> make.requires(()) && old(self)@.next_order < u64::MAX,
        ensures
            final(self)@.wf(),
            final(self)@.owns(final(op)@),
            polled(old(self)@, old(op)@, final(self)@, final(op)@, waker, result is Ready),
            exists|future: &mut F, context: &mut Context<'_>|
                {
                    &&& match old(self)@.adopted(old(op)@) {
                        Some((_, held)) => *future == held,
                        None => make.ensures((), *future),
                    }
                    &&& *context == *old(cx) && *final(context) == *final(cx)
                    &&& #[trigger] call_ensures(poll_future::<F>, (future, context), result)
                    &&& result is Pending ==> final(op)@ is Some && (final(op)@->0).1 == *final(future)
                },
    {
        let ghost before = self@;
        let ghost read = op@;
        self.adopt(op);
        let ghost middle = self@;
        let order: u64 = self.assign(op);
        self.waiters.insert(order, waker);
        let mut future = match op.read.take() {
            Some((_, future)) => future,
            None => make(),
        };
        let result = poll_future(&mut future, cx);
        let result = self.settle(op, order, future, result);
        proof {
            assert(middle.waiters.insert(order, waker).remove(order) =~= middle.waiters.remove(order));
            assert(before.adopts_into(middle, read));
            let adopted = before.adopted(read);
            assert(polled_from(middle, adopted, self@, op@, waker, result is Ready));
        }
        result
    }
}

impl<F> IncomingOp<F> {
    /// No read assigned.
    pub fn new() -> (op: Self)
        ensures
            op@ is None,
    {
        IncomingOp { read: None }
    }

    /// The order of the read assigned.
    pub fn order(&self) -> (order: Option<u64>)
        ensures
            order == order_of(self@),
    {
        match &self.read {
            Some((order, _)) => Some(*order),
            None => None,
        }
    }

    /// Leave a handle's read for another to take over, reporting whether there was one:
    /// whoever waits is then to be woken, so that it takes over this older read before
    /// the browser fulfills it.
    pub fn release<W>(&mut self, incoming: &mut Incoming<F, W>) -> (orphaned: bool)
        requires
            old(incoming)@.wf(),
            old(incoming)@.owns(old(self)@),
        ensures
            final(incoming)@.wf(),
            final(self)@ is None,
            orphaned == (old(self)@ is Some),
            final(incoming)@.next_order == old(incoming)@.next_order,
            match old(self)@ {
                None => final(incoming)@ == old(incoming)@,
                Some((order, future)) => {
                    &&& final(incoming)@.orphans.to_multiset()
                        == old(incoming)@.orphans.to_multiset().insert((order, future))
                    &&& final(incoming)@.waiters == old(incoming)@.waiters.remove(order)
                },
            },
    {
        match self.read.take() {
            Some((order, future)) => {
                incoming.waiters.remove(&order);
                incoming.orphan(order, future);
                true
            },
            None => false,
        }
    }
}

impl<F> Clone for IncomingOp<F> {
    /// A cloned handle starts with no read assigned to it.
    fn clone(&self) -> (op: Self)
        ensures
            op@ is None,
    {
        IncomingOp::new()
    }
}

/// What a poll does once the handle has taken over what it is to take over.
pub open spec fn polled_from<F, W>(
    before: IncomingModel<F, W>,
    read: Option<(u64, F)>,
    after: IncomingModel<F, W>,
    left: Option<(u64, F)>,
    waker: W,
    ready: bool,
) -> bool {
    let order = match read {
        Some((order, _)) => order,
        None => before.next_order,
    };
    &&& after.orphans == before.orphans
    &&& after.next_order == before.next_order + if read is None {
        1int
    } else {
        0
    }
    &&& if ready {
        left is None && after.waiters == before.waiters.remove(order)
    } else {
        order_of(left) == Some(order) && after.waiters == before.waiters.insert(order, waker)
    }
}

/// What a poll does: the handle takes over the oldest orphan if it is older than its own
/// read; what it has then, or else a new read, is polled. It is kept until it is ready.
pub open spec fn polled<F, W>(
    before: IncomingModel<F, W>,
    read: Option<(u64, F)>,
    after: IncomingModel<F, W>,
    left: Option<(u64, F)>,
    waker: W,
    ready: bool,
) -> bool {
    exists|middle: IncomingModel<F, W>| #[trigger]
        before.adopts_into(middle, read) && polled_from(
            middle,
            before.adopted(read),
            after,
            left,
            waker,
            ready,
        )
}

/// All reads that one handle and the orphans make up.
pub open spec fn all_reads<F, W>(incoming: IncomingModel<F, W>, read: Option<(u64, F)>) -> vstd::multiset::Multiset<
    (u64, F),
> {
    match read {
        Some(read) => incoming.orphans.to_multiset().insert(read),
        None => incoming.orphans.to_multiset(),
    }
}

/// A handle ends up with the oldest of its own read and the orphans, and no read is lost
/// or made up on the way.
pub proof fn law_the_oldest_read_goes_first<F, W>(
    before: IncomingModel<F, W>,
    read: Option<(u64, F)>,
    after: IncomingModel<F, W>,
)
    requires
        before.wf(),
        before.owns(read),
        before.adopts_into(after, read),
    ensures
        all_reads(after, before.adopted(read)) == all_reads(before, read),
        before.adopted(read) is None ==> before.orphans.len() == 0 && read is None,
        forall|order: u64| #[trigger]
            holds(after.orphans, order) ==> before.adopted(read) is Some && order_of(
                before.adopted(read),
            )->0 < order,
{
    broadcast use vstd::multiset::group_multiset_axioms;

    let orphans = before.orphans;
    if before.takes_over(read) {
        let oldest = orphans[0];
        let rest = orphans.drop_first();
        vstd::seq_lib::to_multiset_insert(rest, 0, oldest);
        assert(orphans =~= rest.insert(0, oldest));
        assert(orphans.to_multiset() == rest.to_multiset().insert(oldest));
        assert(all_reads(after, before.adopted(read)) =~= all_reads(before, read));
        assert forall|order: u64| #[trigger] holds(after.orphans, order) implies oldest.0 < order by {
            let i = choose|i: int| 0 <= i < after.orphans.len() && (#[trigger] after.orphans[i]).0 == order;
            lemma_member(after.orphans, i);
            if read is Some && after.orphans[i] == read->0 {
            } else {
                assert(rest.to_multiset().count(after.orphans[i]) > 0);
                rest.to_multiset_ensures();
                assert(rest.contains(after.orphans[i]));
                let j = choose|j: int| 0 <= j < rest.len() && rest[j] == after.orphans[i];
                assert(rest[j] == orphans[j + 1]);
            }
        }
    } else {
        assert forall|order: u64| #[trigger] holds(after.orphans, order) implies read is Some && order_of(
            read,
        )->0 < order by {
            let i = choose|i: int| 0 <= i < orphans.len() && (#[trigger] orphans[i]).0 == order;
            assert(orphans[0].0 <= order);
            assert(!holds(orphans, order_of(read)->0));
            assert(orphans[0].0 != order_of(read)->0);
        }
    }
}

proof fn lemma_member<T>(s: Seq<T>, i: int)
    requires
        0 <= i < s.len(),
    ensures
        s.to_multiset().count(s[i]) > 0,
{
    s.to_multiset_ensures();
    assert(s.contains(s[i]));
}

/// Whatever one handle does, the read of another stays its own, and no two handles wait
/// for the same one.
pub proof fn law_handles_keep_their_own_reads<F, W>(
    before: IncomingModel<F, W>,
    read: Option<(u64, F)>,
    middle: IncomingModel<F, W>,
    after: IncomingModel<F, W>,
    left: Option<(u64, F)>,
    waker: W,
    ready: bool,
    other: (u64, F),
)
    requires
        before.wf(),
        before.owns(read),
        before.owns(Some(other)),
        order_of(read) != Some(other.0),
        before.adopts_into(middle, read),
        polled_from(middle, before.adopted(read), after, left, waker, ready),
    ensures
        after.owns(Some(other)),
        order_of(left) != Some(other.0),
{
    broadcast use vstd::multiset::group_multiset_axioms;

    let orphans = before.orphans;
    if before.takes_over(read) {
        assert(orphans[0].0 != other.0) by {
            assert(!holds(orphans, other.0));
        }
        let rest = orphans.drop_first();
        assert forall|i: int| 0 <= i < middle.orphans.len() implies (#[trigger] middle.orphans[i]).0 != other.0 by {
            lemma_member(middle.orphans, i);
            if read is Some && middle.orphans[i] == read->0 {
            } else {
                assert(rest.to_multiset().count(middle.orphans[i]) > 0);
                rest.to_multiset_ensures();
                assert(rest.contains(middle.orphans[i]));
                let j = choose|j: int| 0 <= j < rest.len() && rest[j] == middle.orphans[i];
                assert(rest[j] == orphans[j + 1]);
            }
        }
    }
}

/// A handle takes over an orphan exactly if that is older than its own read.
pub proof fn law_an_older_orphan_is_adopted(current: Option<u64>, orphan: u64, adopt: bool)
    requires
        call_ensures(should_adopt_orphan, (current, orphan), adopt),
    ensures
        current is None ==> adopt,
        current is Some ==> (adopt <==> orphan < current->0),
{
}

/// After a handle has looked for an orphan, its read is older than every orphan, whatever it
/// was before; no read was lost, made up or handed a new order. A handle without a read and
/// without an orphan to take over still has none.
pub proof fn law_adopting_leaves_the_oldest_read_with_the_handle<F, W>()
    ensures
        forall|incoming: &mut Incoming<F, W>, op: &mut IncomingOp<F>|
            #[trigger] call_ensures(Incoming::<F, W>::adopt, (incoming, op), ()) && incoming@.wf()
                && incoming@.owns(op@) ==> {
                &&& all_reads(final(incoming)@, final(op)@) == all_reads(incoming@, op@)
                &&& final(op)@ is None ==> op@ is None && incoming@.orphans.len() == 0
                &&& forall|i: int|
                    0 <= i < final(incoming)@.orphans.len() ==> final(op)@ is Some && (final(op)@->0).0
                        < (#[trigger] final(incoming)@.orphans[i]).0
                &&& forall|i: int, j: int|
                    0 <= i < j < final(incoming)@.orphans.len() ==> final(incoming)@.orphans[i].0
                        < final(incoming)@.orphans[j].0
                &&& final(incoming)@.next_order == incoming@.next_order
                &&& final(op)@ == op@ ==> final(incoming)@.waiters == incoming@.waiters
            },
{
    assert forall|incoming: &mut Incoming<F, W>, op: &mut IncomingOp<F>|
        #[trigger] call_ensures(Incoming::<F, W>::adopt, (incoming, op), ()) && incoming@.wf() && incoming@.owns(
            op@,
        ) implies {
        &&& all_reads(final(incoming)@, final(op)@) == all_reads(incoming@, op@)
        &&& final(op)@ is None ==> op@ is None && incoming@.orphans.len() == 0
        &&& forall|i: int|
            0 <= i < final(incoming)@.orphans.len() ==> final(op)@ is Some && (final(op)@->0).0 < (
            #[trigger] final(incoming)@.orphans[i]).0
        &&& forall|i: int, j: int|
            0 <= i < j < final(incoming)@.orphans.len() ==> final(incoming)@.orphans[i].0
                < final(incoming)@.orphans[j].0
        &&& final(incoming)@.next_order == incoming@.next_order
        &&& final(op)@ == op@ ==> final(incoming)@.waiters == incoming@.waiters
    } by {
        law_the_oldest_read_goes_first(incoming@, op@, final(incoming)@);
        let (after, read) = (final(incoming)@, final(op)@);
        assert forall|i: int| 0 <= i < after.orphans.len() implies read is Some && (read->0).0 < (
        #[trigger] after.orphans[i]).0 by {
            assert(holds(after.orphans, after.orphans[i].0));
        }
        if read == op@ && incoming@.takes_over(op@) {
            assert(holds(incoming@.orphans, incoming@.orphans[0].0));
        }
    }
}

/// A handle that goes away leaves its read to the others, who are woken to take it over; it is
/// not waited for by that handle any more. A handle without a read leaves everything as it is.
pub proof fn law_a_released_read_is_left_to_the_others<F, W>()
    ensures
        forall|op: &mut IncomingOp<F>, incoming: &mut Incoming<F, W>, orphaned: bool|
            #[trigger] call_ensures(IncomingOp::<F>::release::<W>, (op, incoming), orphaned) && incoming@.wf()
                ==> {
                &&& orphaned <==> op@ is Some
                &&& final(op)@ is None
                &&& final(incoming)@.orphans.to_multiset() == all_reads(incoming@, op@)
                &&& orphaned ==> final(incoming)@.orphans.contains(op@->0)
                &&& final(incoming)@.next_order == incoming@.next_order
                &&& forall|order: u64| #[trigger]
                    final(incoming)@.waiters.contains_key(order) <==> incoming@.waiters.contains_key(order) && order_of(
                        op@,
                    ) != Some(order)
                &&& !orphaned ==> final(incoming)@ == incoming@
            },
{
    assert forall|op: &mut IncomingOp<F>, incoming: &mut Incoming<F, W>, orphaned: bool|
        #[trigger] call_ensures(IncomingOp::<F>::release::<W>, (op, incoming), orphaned) && incoming@.wf()
            && op@ is Some implies final(incoming)@.orphans.contains(op@->0) by {
        broadcast use vstd::multiset::group_multiset_axioms;

        let after = final(incoming)@.orphans;
        after.to_multiset_ensures();
        assert(after.to_multiset().count(op@->0) > 0);
    }
}

/// A read that has resolved is over for its handle, and nobody waits for it; one that has not is
/// kept, under its order. What came of it is passed on as it is.
pub proof fn law_a_read_is_kept_until_it_resolves<F, W, T>()
    ensures
        forall|
            incoming: &mut Incoming<F, W>,
            op: &mut IncomingOp<F>,
            order: u64,
            future: F,
            result: Poll<T>,
            same: Poll<T>,
        |
            #[trigger] call_ensures(
                Incoming::<F, W>::settle::<T>,
                (incoming, op, order, future, result),
                same,
            ) ==> {
                &&& same == result
                &&& final(op)@ is None <==> result is Ready
                &&& result is Pending ==> final(op)@ == Some((order, future)) && final(incoming)@ == incoming@
                &&& result is Ready ==> !final(incoming)@.waiters.contains_key(order)
                &&& forall|other: u64| #[trigger]
                    incoming@.waiters.contains_key(other) && other != order
                        ==> final(incoming)@.waiters.contains_key(other) && final(incoming)@.waiters[other]
                        == incoming@.waiters[other]
                &&& final(incoming)@.orphans == incoming@.orphans
                &&& final(incoming)@.next_order == incoming@.next_order
            },
        forall|incoming: Incoming<F, W>|
            #[trigger] call_ensures(Incoming::<F, W>::new, (), incoming) ==> incoming@.next_order == 0
                && incoming@.orphans.len() == 0 && (forall|order: u64|
                !#[trigger] incoming@.waiters.contains_key(order)),
        forall|op: IncomingOp<F>| #[trigger] call_ensures(IncomingOp::<F>::new, (), op) ==> op@ is None,
        forall|incoming: &Incoming<F, W>, exhausted: bool|
            #[trigger] call_ensures(Incoming::<F, W>::exhausted, (incoming,), exhausted) ==> (exhausted
                <==> incoming@.next_order == u64::MAX),
        forall|incoming: &Incoming<F, W>, waiters: &BTreeMap<u64, W>|
            #[trigger] call_ensures(Incoming::<F, W>::waiters, (incoming,), waiters) ==> waiters@
                == incoming@.waiters,
        forall|op: &IncomingOp<F>, order: Option<u64>|
            #[trigger] call_ensures(IncomingOp::<F>::order, (op,), order) ==> {
                &&& order is Some <==> op@ is Some
                &&& order is Some ==> order->0 == (op@->0).0
            },
        forall|op: &IncomingOp<F>, copy: IncomingOp<F>|
            #[trigger] call_ensures(<IncomingOp<F> as Clone>::clone, (op,), copy) ==> copy@ is None,
{
}

/// A poll reads the oldest there is: the handle's own read or the oldest orphan, and a new read,
/// under the next order, only where there is neither. It is registered under the order of what it
/// polls until that resolves, and no other read is touched.
pub proof fn law_a_poll_reads_the_oldest<F: Future + Unpin, W, M: FnOnce() -> F>()
    ensures
        forall|
            incoming: &mut Incoming<F, W>,
            op: &mut IncomingOp<F>,
            cx: &mut Context<'_>,
            waker: W,
            make: M,
            result: Poll<F::Output>,
        |
            #[trigger] call_ensures(Incoming::<F, W>::poll::<M>, (incoming, op, cx, waker, make), result)
                && incoming@.wf() && incoming@.owns(op@) ==> {
                let fresh = op@ is None && incoming@.orphans.len() == 0;
                let own = op@ is Some && (incoming@.orphans.len() == 0 || (op@->0).0 < incoming@.orphans[0].0);
                let order = if fresh {
                    incoming@.next_order
                } else if own {
                    (op@->0).0
                } else {
                    incoming@.orphans[0].0
                };
                &&& final(incoming)@.next_order == incoming@.next_order + if fresh { 1int } else { 0 }
                &&& result is Ready ==> final(op)@ is None && !final(incoming)@.waiters.contains_key(order)
                &&& result is Pending ==> final(op)@ is Some && (final(op)@->0).0 == order
                    && final(incoming)@.waiters.contains_key(order) && final(incoming)@.waiters[order] == waker
                &&& fresh || own ==> final(incoming)@.orphans == incoming@.orphans
                &&& !fresh && !own ==> all_reads(final(incoming)@, Some(incoming@.orphans[0])) == all_reads(
                    incoming@,
                    op@,
                )
                &&& forall|other: u64| #[trigger]
                    incoming@.waiters.contains_key(other) && other != order && order_of(op@) != Some(other)
                        ==> final(incoming)@.waiters.contains_key(other) && final(incoming)@.waiters[other]
                        == incoming@.waiters[other]
            },
{
    assert forall|
        incoming: &mut Incoming<F, W>,
        op: &mut IncomingOp<F>,
        cx: &mut Context<'_>,
        waker: W,
        make: M,
        result: Poll<F::Output>,
    |
        #[trigger] call_ensures(Incoming::<F, W>::poll::<M>, (incoming, op, cx, waker, make), result)
            && incoming@.wf() && incoming@.owns(op@) implies {
        let fresh = op@ is None && incoming@.orphans.len() == 0;
        let own = op@ is Some && (incoming@.orphans.len() == 0 || (op@->0).0 < incoming@.orphans[0].0);
        let order = if fresh {
            incoming@.next_order
        } else if own {
            (op@->0).0
        } else {
            incoming@.orphans[0].0
        };
        &&& final(incoming)@.next_order == incoming@.next_order + if fresh { 1int } else { 0 }
        &&& result is Ready ==> final(op)@ is None && !final(incoming)@.waiters.contains_key(order)
        &&& result is Pending ==> final(op)@ is Some && (final(op)@->0).0 == order
            && final(incoming)@.waiters.contains_key(order) && final(incoming)@.waiters[order] == waker
        &&& fresh || own ==> final(incoming)@.orphans == incoming@.orphans
        &&& !fresh && !own ==> all_reads(final(incoming)@, Some(incoming@.orphans[0])) == all_reads(
            incoming@,
            op@,
        )
        &&& forall|other: u64| #[trigger]
            incoming@.waiters.contains_key(other) && other != order && order_of(op@) != Some(other)
                ==> final(incoming)@.waiters.contains_key(other) && final(incoming)@.waiters[other]
                == incoming@.waiters[other]
    } by {
        let (before, read) = (incoming@, op@);
        let (after, left) = (final(incoming)@, final(op)@);
        let ready = result is Ready;
        let middle = choose|middle: IncomingModel<F, W>| #[trigger]
            before.adopts_into(middle, read) && polled_from(middle, before.adopted(read), after, left, waker, ready);
        law_the_oldest_read_goes_first(before, read, middle);
        if read is Some && before.orphans.len() > 0 {
            assert(holds(before.orphans, before.orphans[0].0));
        }
    }
}

} // verus!
