//! Connection-wide mapping from the transport's `i32` send order onto an 8-bit
//! stream urgency.
//!
//! The application hands over an `i32` where *higher* is sent first. The transport
//! schedules by urgency, a `u8` where *lower* is sent first, so the range has to be
//! compressed. The streams are ranked: the highest send order in use gets urgency 0,
//! the next 1, and so on. Everything past the last urgency shares it, so the top
//! [`BANDS`] levels are ordered exactly and the tail is left to round-robin.
//!
//! Ranks are relative, so one stream moving can shift every stream below it. The
//! updates are collected here and applied by whoever holds the transport.

use std::collections::{HashMap, HashSet};
use vstd::prelude::*;

use crate::ez::stream::StreamId;

verus! {

broadcast use vstd::std_specs::hash::group_hash_axioms;

/// How many distinct urgencies there are.
pub const BANDS: usize = 256;

/// The last urgency, shared by every level past the top [`BANDS`].
pub const OVERFLOW: u8 = 255;

/// The send order of a stream that was given none.
pub const DEFAULT_PRIORITY: i32 = 0;

/// The urgency of the level at a rank.
pub open spec fn band_at(rank: int) -> u8 {
    if rank < OVERFLOW {
        rank as u8
    } else {
        OVERFLOW
    }
}

/// The distinct send orders in use that are sent before `order`.
pub open spec fn orders_above(orders: Map<u64, i32>, order: i32) -> Set<i32> {
    Set::new(|o: i32| o > order && orders.contains_value(o))
}

/// The urgency of a send order: how many distinct send orders precede it, up to the
/// last urgency.
pub open spec fn urgency_at(orders: Map<u64, i32>, order: i32) -> u8 {
    band_at(orders_above(orders, order).len() as int)
}

/// The updates pending once the send orders have moved from `before` to `after`, for
/// a stream that was not itself moved: one for every urgency that changed.
pub open spec fn shifted(
    before: Map<u64, i32>,
    after: Map<u64, i32>,
    pending: Map<u64, u8>,
    id: u64,
) -> Option<u8> {
    if after.contains_key(id) && urgency_at(before, before[id]) != urgency_at(after, after[id]) {
        Some(urgency_at(after, after[id]))
    } else {
        pending.index_opt(id)
    }
}

/// The updates pending once `moved` has been registered or moved.
pub open spec fn ranked(
    before: Map<u64, i32>,
    after: Map<u64, i32>,
    pending: Map<u64, u8>,
    moved: u64,
    id: u64,
) -> Option<u8> {
    if id == moved {
        Some(urgency_at(after, after[id]))
    } else {
        shifted(before, after, pending, id)
    }
}

/// The updates pending once `removed` has been dropped.
pub open spec fn dropped(
    before: Map<u64, i32>,
    after: Map<u64, i32>,
    pending: Map<u64, u8>,
    removed: u64,
    id: u64,
) -> Option<u8> {
    if id == removed {
        None
    } else {
        shifted(before, after, pending, id)
    }
}

/// The streams sharing one send order, plus the urgency last published for them.
struct Level {
    order: i32,
    band: u8,
    streams: HashSet<u64>,
}

/// The levels strictly descend, none is empty, and each holds exactly the streams
/// registered at its send order.
spec fn grouped(levels: Seq<Level>, orders: Map<u64, i32>) -> bool {
    &&& descending(levels)
    &&& forall|i: int, id: u64| #![trigger levels[i].streams@.contains(id)]
        0 <= i < levels.len() ==> (levels[i].streams@.contains(id) <==> (orders.contains_key(id)
            && orders[id] == levels[i].order))
    &&& forall|i: int| 0 <= i < levels.len() ==> inhabited(#[trigger] levels[i])
    &&& forall|id: u64| #[trigger] orders.contains_key(id) ==> has_level(levels, orders[id])
}

spec fn descending(levels: Seq<Level>) -> bool {
    forall|i: int, j: int| 0 <= i < j < levels.len() ==> levels[i].order > levels[j].order
}

spec fn inhabited(level: Level) -> bool {
    exists|id: u64| level.streams@.contains(id)
}

spec fn has_level(levels: Seq<Level>, order: i32) -> bool {
    exists|i: int| 0 <= i < levels.len() && (#[trigger] levels[i]).order == order
}

/// Every level's band is that of its rank.
spec fn banded(levels: Seq<Level>) -> bool {
    forall|i: int| 0 <= i < levels.len() ==> (#[trigger] levels[i]).band == band_at(i)
}

/// Every level of `after` was a level of `before`, at the same rank or further down,
/// and still has the band that it had there.
spec fn keeps_bands(before: Seq<Level>, after: Seq<Level>) -> bool {
    forall|i: int| 0 <= i < after.len() ==> kept_from(before, #[trigger] after[i], i)
}

spec fn kept_from(before: Seq<Level>, level: Level, rank: int) -> bool {
    exists|j: int|
        0 <= j < before.len() && rank <= j && (#[trigger] before[j]).order == level.order && before[j].band
            == level.band
}

/// The update for one stream once its level has moved from one band to another.
spec fn updated(pending: Map<u64, u8>, from: u8, to: u8, id: u64) -> Option<u8> {
    if from != to {
        Some(to)
    } else {
        pending.index_opt(id)
    }
}

spec fn same_streams(before: Level, after: Level) -> bool {
    before.order == after.order && before.streams == after.streams
}

/// The rank of a level is the number of distinct send orders above it.
proof fn lemma_rank(levels: Seq<Level>, orders: Map<u64, i32>, rank: int)
    requires
        grouped(levels, orders),
        0 <= rank < levels.len(),
    ensures
        orders_above(orders, levels[rank].order).len() == rank,
{
    let above = Seq::new(rank as nat, |i: int| levels[i].order);
    assert(above.no_duplicates());
    above.unique_seq_to_set();
    assert forall|o: i32| above.to_set().contains(o) == orders_above(orders, levels[rank].order).contains(o) by {
        if above.to_set().contains(o) {
            let i = choose|i: int| 0 <= i < above.len() && above[i] == o;
            assert(inhabited(levels[i]));
            let id = choose|id: u64| levels[i].streams@.contains(id);
            assert(orders.dom().contains(id) && orders[id] == o);
        }
        if orders_above(orders, levels[rank].order).contains(o) {
            let id = choose|id: u64| #[trigger] orders.dom().contains(id) && orders[id] == o;
            assert(orders.contains_key(id));
            let i = choose|i: int| 0 <= i < levels.len() && (#[trigger] levels[i]).order == o;
            assert(i < rank);
            assert(above[i] == o);
        }
    }
    assert(above.to_set() =~= orders_above(orders, levels[rank].order));
}

/// Once the levels hold the send orders of `after`, with the bands that they had under
/// `before`, moving every band to its rank queues exactly the urgencies that changed.
proof fn lemma_updates(
    old_levels: Seq<Level>,
    before: Map<u64, i32>,
    levels: Seq<Level>,
    after: Map<u64, i32>,
    pending: Map<u64, u8>,
    updates: Map<u64, u8>,
    id: u64,
    x: u64,
)
    requires
        grouped(old_levels, before),
        banded(old_levels),
        grouped(levels, after),
        x != id,
        before.index_opt(x) == after.index_opt(x),
        forall|i: int| 0 <= i < levels.len() && (#[trigger] levels[i]).streams@.contains(x) ==> kept_from(
            old_levels,
            levels[i],
            i - 1,
        ) && updates.index_opt(x) == updated(pending, levels[i].band, band_at(i), x),
        !after.contains_key(x) ==> updates.index_opt(x) == pending.index_opt(x),
    ensures
        updates.index_opt(x) == shifted(before, after, pending, x),
{
    if after.contains_key(x) {
        assert(before.contains_key(x));
        let i = choose|i: int| 0 <= i < levels.len() && (#[trigger] levels[i]).order == after[x];
        assert(levels[i].streams@.contains(x));
        assert(kept_from(old_levels, levels[i], i - 1));
        let j = choose|j: int|
            0 <= j < old_levels.len() && i - 1 <= j && (#[trigger] old_levels[j]).order == levels[i].order
                && old_levels[j].band == levels[i].band;
        lemma_rank(old_levels, before, j);
        lemma_rank(levels, after, i);
    }
}

/// Adding a stream to the level at its send order, or to a fresh level where that send
/// order belongs, keeps the streams grouped; every other level keeps its band.
proof fn lemma_attached(
    levels1: Seq<Level>,
    levels2: Seq<Level>,
    left: Map<u64, i32>,
    id: u64,
    order: i32,
    rank: int,
    fresh: bool,
)
    requires
        grouped(levels1, left),
        !left.contains_key(id),
        0 <= rank < levels2.len(),
        levels2[rank].order == order,
        fresh ==> {
            &&& rank <= levels1.len()
            &&& levels2 == levels1.insert(rank, levels2[rank])
            &&& levels2[rank].band == OVERFLOW
            &&& levels2[rank].streams@ == set![id]
            &&& forall|i: int| 0 <= i < rank ==> (#[trigger] levels1[i]).order > order
            &&& forall|i: int| rank <= i < levels1.len() ==> (#[trigger] levels1[i]).order < order
        },
        !fresh ==> {
            &&& rank < levels1.len()
            &&& levels2 == levels1.update(rank, levels2[rank])
            &&& levels2[rank].band == levels1[rank].band
            &&& levels2[rank].order == levels1[rank].order
            &&& levels2[rank].streams@ == levels1[rank].streams@.insert(id)
        },
    ensures
        grouped(levels2, left.insert(id, order)),
        forall|i: int| 0 <= i < levels2.len() && (i == rank ==> !fresh) ==> kept_from(
            levels1,
            #[trigger] levels2[i],
            i - 1,
        ),
{
    let orders2 = left.insert(id, order);
    let from = |i: int| if fresh && i > rank { i - 1 } else { i };
    assert forall|i: int| 0 <= i < levels2.len() && i != rank implies #[trigger] levels2[i] == levels1[from(i)] by {}
    assert forall|i: int, x: u64| #![trigger levels2[i].streams@.contains(x)]
        0 <= i < levels2.len() implies (levels2[i].streams@.contains(x) <==> (orders2.contains_key(x)
        && orders2[x] == levels2[i].order)) by {
        if i != rank || !fresh {
            assert(levels1[from(i)].streams@.contains(x) <==> (left.contains_key(x) && left[x]
                == levels1[from(i)].order));
        } else if left.contains_key(x) {
            assert(has_level(levels1, left[x]));
        }
    }
    assert forall|i: int| 0 <= i < levels2.len() implies inhabited(#[trigger] levels2[i]) by {
        if i == rank {
            assert(levels2[i].streams@.contains(id));
        } else {
            assert(inhabited(levels1[from(i)]));
        }
    }
    assert forall|x: u64| #[trigger] orders2.contains_key(x) implies has_level(levels2, orders2[x]) by {
        if x == id {
            assert(levels2[rank].order == order);
        } else {
            assert(left.contains_key(x));
            let j = choose|j: int| 0 <= j < levels1.len() && (#[trigger] levels1[j]).order == left[x];
            let i = if fresh && j >= rank { j + 1 } else { j };
            assert(levels2[i].order == levels1[j].order);
        }
    }
    assert forall|i: int| 0 <= i < levels2.len() && (i == rank ==> !fresh) implies kept_from(
        levels1,
        #[trigger] levels2[i],
        i - 1,
    ) by {
        assert(levels1[from(i)].order == levels2[i].order);
    }
}

/// Every level of `after` is one of `before`, at most one rank down, with the band that
/// it had there; the exception is a fresh level, for one stream, at the last band.
spec fn attached(before: Seq<Level>, after: Seq<Level>, id: u64, fresh: bool) -> bool {
    &&& forall|i: int|
        0 <= i < after.len() ==> attached_level(before, #[trigger] after[i], i, id, fresh)
    &&& !fresh ==> after.len() == before.len() && forall|i: int|
        0 <= i < after.len() ==> (#[trigger] after[i]).band == before[i].band
}

spec fn attached_level(before: Seq<Level>, level: Level, rank: int, id: u64, fresh: bool) -> bool {
    ||| kept_from(before, level, rank - 1)
    ||| fresh && level.band == OVERFLOW && forall|x: u64| level.streams@.contains(x) ==> x == id
}

/// A level kept across two steps was kept across both.
proof fn lemma_kept(before: Seq<Level>, between: Seq<Level>, level: Level, rank: int)
    requires
        keeps_bands(before, between),
        kept_from(between, level, rank),
    ensures
        kept_from(before, level, rank),
{
    let j = choose|j: int|
        0 <= j < between.len() && rank <= j && (#[trigger] between[j]).order == level.order
            && between[j].band == level.band;
    assert(kept_from(before, between[j], j));
}

/// Queue one urgency for each of a level's streams.
fn publish(pending: &mut HashMap<u64, u8>, streams: &HashSet<u64>, band: u8)
    ensures
        forall|id: u64| streams@.contains(id) ==> #[trigger] final(pending)@.index_opt(id) == Some(band),
        forall|id: u64| !streams@.contains(id) ==> #[trigger] final(pending)@.index_opt(id) == old(
            pending,
        )@.index_opt(id),
{
    let ghost before = pending@;
    for id in it: streams.iter()
        invariant
            it.seq().unref().to_set() == streams@,
            forall|k: int| 0 <= k < it.index() ==> pending@.index_opt(*#[trigger] it.seq()[k]) == Some(band),
            forall|x: u64| !streams@.contains(x) ==> #[trigger] pending@.index_opt(x) == before.index_opt(x),
    {
        proof {
            assert(it.seq().unref()[it.index()] == *id);
            assert(it.seq().unref().to_set().contains(*id));
        }
        let ghost earlier = pending@;
        pending.insert(*id, band);
        proof {
            assert forall|x: u64| #[trigger] pending@.index_opt(x) == if x == *id {
                Some(band)
            } else {
                earlier.index_opt(x)
            } by {}
        }
    }
}

/// Ranks every send stream on a connection, emitting the urgency updates that the
/// ranking implies.
pub struct Priorities {
    /// The levels, from the highest send order down.
    levels: Vec<Level>,
    /// The send order each registered stream currently sits at.
    streams: HashMap<u64, i32>,
    /// Urgency changes that have yet to be applied.
    pending: HashMap<u64, u8>,
}

impl Priorities {
    /// The send order of every registered stream.
    pub closed spec fn orders(&self) -> Map<u64, i32> {
        self.streams@
    }

    /// The urgency updates not yet taken.
    pub closed spec fn updates(&self) -> Map<u64, u8> {
        self.pending@
    }

    /// The levels group the streams, and each level's band is that of its rank.
    pub closed spec fn wf(&self) -> bool {
        &&& grouped(self.levels@, self.streams@)
        &&& banded(self.levels@)
    }

    /// The levels group the streams, but their bands may be those of an earlier ranking;
    /// none past the last band is at another.
    pub closed spec fn unsettled(&self) -> bool {
        &&& grouped(self.levels@, self.streams@)
        &&& forall|i: int| BANDS <= i < self.levels.len() ==> (#[trigger] self.levels[i]).band == OVERFLOW
    }

    /// What rebalancing leaves: the same streams at the same send orders, every level at
    /// the band of its rank, and an update for every stream whose level was at another.
    pub closed spec fn rebalanced(&self, after: &Priorities) -> bool {
        &&& after.wf()
        &&& after.streams == self.streams
        &&& after.levels.len() == self.levels.len()
        &&& forall|i: int|
            0 <= i < self.levels.len() ==> (#[trigger] after.levels[i]).order == self.levels[i].order
        &&& forall|id: u64| !#[trigger] self.streams@.contains_key(id) ==> after.pending@.index_opt(id)
            == self.pending@.index_opt(id)
        &&& forall|i: int, id: u64| #![trigger self.levels[i].streams@.contains(id)]
            0 <= i < self.levels.len() && self.levels[i].streams@.contains(id)
                ==> after.pending@.index_opt(id) == updated(
                self.pending@,
                self.levels[i].band,
                band_at(i),
                id,
            )
    }

    /// A ranking with no streams.
    pub fn new() -> (priorities: Self)
        ensures
            priorities.wf(),
            priorities.orders() == Map::<u64, i32>::empty(),
            priorities.updates() == Map::<u64, u8>::empty(),
    {
        Priorities { levels: Vec::new(), streams: HashMap::new(), pending: HashMap::new() }
    }

    /// The rank at which a send order belongs: the number of levels above it.
    fn position(&self, order: i32) -> (rank: usize)
        requires
            descending(self.levels@),
        ensures
            rank <= self.levels.len(),
            forall|i: int| 0 <= i < rank ==> (#[trigger] self.levels[i]).order > order,
            forall|i: int| rank <= i < self.levels.len() ==> (#[trigger] self.levels[i]).order <= order,
    {
        let mut low: usize = 0;
        let mut high: usize = self.levels.len();
        while low < high
            invariant
                descending(self.levels@),
                low <= high <= self.levels.len(),
                forall|i: int| 0 <= i < low ==> (#[trigger] self.levels[i]).order > order,
                forall|i: int| high <= i < self.levels.len() ==> (#[trigger] self.levels[i]).order <= order,
            decreases high - low,
        {
            let middle: usize = low + (high - low) / 2;
            if self.levels[middle].order > order {
                low = middle + 1;
            } else {
                high = middle;
            }
        }
        low
    }

    /// Take `id` out of the level at its send order, reporting whether the level
    /// itself went away.
    fn detach(&mut self, id: u64, order: i32) -> (gone: bool)
        requires
            grouped(old(self).levels@, old(self).streams@),
            old(self).streams@.contains_key(id),
            old(self).streams@[id] == order,
        ensures
            final(self).streams == old(self).streams,
            final(self).pending == old(self).pending,
            grouped(final(self).levels@, old(self).streams@.remove(id)),
            keeps_bands(old(self).levels@, final(self).levels@),
            !gone ==> final(self).levels.len() == old(self).levels.len() && (forall|i: int|
                0 <= i < old(self).levels.len() ==> (#[trigger] final(self).levels[i]).band
                    == old(self).levels[i].band),
    {
        let ghost before = self.levels@;
        let ghost orders = self.streams@;
        let ghost left = self.streams@.remove(id);
        let rank: usize = self.position(order);
        proof {
            let i = choose|i: int| 0 <= i < before.len() && (#[trigger] before[i]).order == order;
            assert(has_level(before, order));
            assert(before[rank as int].order == order);
        }
        self.levels[rank].streams.remove(&id);
        let ghost emptied = self.levels@;
        proof {
            assert(emptied[rank as int].streams@ == before[rank as int].streams@.remove(id));
            assert forall|i: int, x: u64| #![trigger emptied[i].streams@.contains(x)]
                0 <= i < emptied.len() implies (emptied[i].streams@.contains(x) <==> (left.contains_key(x)
                && left[x] == emptied[i].order)) by {
                assert(before[i].streams@.contains(x) <==> (orders.contains_key(x) && orders[x]
                    == before[i].order));
            }
        }
        if self.levels[rank].streams.is_empty() {
            self.levels.remove(rank);
            proof {
                let after = self.levels@;
                assert(after =~= emptied.remove(rank as int));
                assert forall|i: int, x: u64| #![trigger after[i].streams@.contains(x)]
                    0 <= i < after.len() implies (after[i].streams@.contains(x) <==> (left.contains_key(x)
                    && left[x] == after[i].order)) by {
                    let j = if i < rank { i } else { i + 1 };
                    assert(after[i] == emptied[j]);
                    assert(emptied[j].streams@.contains(x) <==> (left.contains_key(x) && left[x]
                        == emptied[j].order));
                }
                assert forall|i: int| 0 <= i < after.len() implies inhabited(#[trigger] after[i]) by {
                    let j = if i < rank { i } else { i + 1 };
                    assert(after[i] == before[j]);
                }
                assert forall|x: u64| #[trigger] left.contains_key(x) implies has_level(after, left[x]) by {
                    assert(orders.contains_key(x));
                    let j = choose|j: int| 0 <= j < before.len() && (#[trigger] before[j]).order == orders[x];
                    if j == rank {
                        assert(!emptied[j].streams@.contains(x));
                    } else {
                        let i = if j < rank { j } else { j - 1 };
                        assert(after[i] == before[j]);
                    }
                }
                assert forall|i: int| 0 <= i < after.len() implies kept_from(before, #[trigger] after[i], i) by {
                    let j = if i < rank { i } else { i + 1 };
                    assert(after[i] == before[j]);
                }
            }
            true
        } else {
            proof {
                let after = self.levels@;
                assert forall|i: int| 0 <= i < after.len() implies inhabited(#[trigger] after[i]) by {
                    if i == rank {
                        assert(!(after[i].streams@ =~= Set::<u64>::empty()));
                    } else {
                        assert(after[i] == before[i]);
                    }
                }
                assert forall|x: u64| #[trigger] left.contains_key(x) implies has_level(after, left[x]) by {
                    assert(orders.contains_key(x));
                    let j = choose|j: int| 0 <= j < before.len() && (#[trigger] before[j]).order == orders[x];
                    assert(after[j].order == before[j].order);
                }
                assert forall|i: int| 0 <= i < after.len() implies kept_from(before, #[trigger] after[i], i) by {
                    assert(before[i].order == after[i].order);
                }
            }
            false
        }
    }

    /// Give every level the band of its rank, queueing an update for every stream
    /// whose urgency moved. Every other operation does this where it has to, so on a
    /// ranking that is settled it changes nothing.
    pub fn rebalance(&mut self)
        requires
            old(self).wf() || old(self).unsettled(),
        ensures
            old(self).rebalanced(final(self)),
            final(self).wf(),
            final(self).orders() == old(self).orders(),
            old(self).wf() ==> final(self).updates() == old(self).updates(),
    {
        let ghost before = self.levels@;
        let ghost orders = self.streams@;
        let ghost pending = self.pending@;
        let mut rank: usize = 0;
        while rank < self.levels.len()
            invariant
                grouped(before, orders),
                forall|i: int| BANDS <= i < before.len() ==> (#[trigger] before[i]).band == OVERFLOW,
                self.streams == old(self).streams,
                self.streams@ == orders,
                rank <= self.levels.len() == before.len(),
                forall|i: int| 0 <= i < before.len() ==> same_streams(before[i], #[trigger] self.levels[i]),
                forall|i: int| 0 <= i < rank ==> (#[trigger] self.levels[i]).band == band_at(i),
                forall|i: int| rank <= i < before.len() ==> (#[trigger] self.levels[i]).band == before[i].band,
                forall|id: u64| !#[trigger] orders.contains_key(id) ==> self.pending@.index_opt(id)
                    == pending.index_opt(id),
                forall|i: int, id: u64| #![trigger before[i].streams@.contains(id)]
                    0 <= i < rank && before[i].streams@.contains(id) ==> self.pending@.index_opt(id)
                        == updated(pending, before[i].band, band_at(i), id),
                forall|i: int, id: u64| #![trigger before[i].streams@.contains(id)]
                    rank <= i < before.len() && before[i].streams@.contains(id)
                        ==> self.pending@.index_opt(id) == pending.index_opt(id),
            ensures
                forall|i: int| 0 <= i < before.len() ==> (#[trigger] self.levels[i]).band == band_at(i),
                forall|i: int, id: u64| #![trigger before[i].streams@.contains(id)]
                    0 <= i < before.len() && before[i].streams@.contains(id) ==> self.pending@.index_opt(id)
                        == updated(pending, before[i].band, band_at(i), id),
            decreases self.levels.len() - rank,
        {
            let band: u8 = if rank < OVERFLOW as usize {
                rank as u8
            } else {
                OVERFLOW
            };
            if self.levels[rank].band == band {
                // Bands only grow going down, so an unchanged level already in the
                // overflow band means everything below it is there too.
                if band == OVERFLOW {
                    break;
                }
                rank = rank + 1;
                continue;
            }
            self.levels[rank].band = band;
            publish(&mut self.pending, &self.levels[rank].streams, band);
            proof {
                assert forall|i: int, id: u64| #![trigger before[i].streams@.contains(id)]
                    0 <= i < before.len() && before[i].streams@.contains(id) && i != rank
                        implies !before[rank as int].streams@.contains(id) by {}
            }
            rank = rank + 1;
        }
        proof {
            let after = self.levels@;
            assert forall|i: int, id: u64| #![trigger after[i].streams@.contains(id)]
                0 <= i < after.len() implies (after[i].streams@.contains(id) <==> (orders.contains_key(id)
                && orders[id] == after[i].order)) by {
                assert(same_streams(before[i], after[i]));
                assert(before[i].streams@.contains(id) == after[i].streams@.contains(id));
            }
            assert forall|i: int| 0 <= i < after.len() implies inhabited(#[trigger] after[i]) by {
                assert(same_streams(before[i], after[i]));
                assert(inhabited(before[i]));
            }
            assert forall|id: u64| #[trigger] orders.contains_key(id) implies has_level(after, orders[id]) by {
                let i = choose|i: int| 0 <= i < before.len() && (#[trigger] before[i]).order == orders[id];
                assert(same_streams(before[i], after[i]));
            }
            assert(grouped(after, orders)) by {
                assert forall|i: int, j: int| 0 <= i < j < after.len() implies after[i].order > after[j].order by {
                    assert(same_streams(before[i], after[i]) && same_streams(before[j], after[j]));
                }
            }
            if old(self).wf() {
                law_rebalancing_again_changes_nothing(old(self), self);
            }
        }
    }

    /// Put `id`, which no level holds, into the level at `order`, reporting whether
    /// the level had to be added.
    fn attach(&mut self, id: u64, order: i32) -> (fresh: bool)
        requires
            grouped(old(self).levels@, old(self).streams@.remove(id)),
        ensures
            final(self).streams@ == old(self).streams@.insert(id, order),
            grouped(final(self).levels@, final(self).streams@),
            attached(old(self).levels@, final(self).levels@, id, fresh),
            forall|x: u64| x != id ==> #[trigger] final(self).pending@.index_opt(x) == old(
                self,
            ).pending@.index_opt(x),
            forall|i: int| #![trigger final(self).levels[i]]
                0 <= i < final(self).levels.len() && final(self).levels[i].order == order
                    ==> final(self).pending@.index_opt(id) == Some(final(self).levels[i].band),
    {
        let ghost levels1 = self.levels@;
        let ghost left = self.streams@.remove(id);
        self.streams.insert(id, order);
        let rank: usize = self.position(order);
        let mut fresh: bool = false;
        if rank < self.levels.len() && self.levels[rank].order == order {
            self.levels[rank].streams.insert(id);
            // The level itself hasn't moved, so only this stream needs telling.
            self.pending.insert(id, self.levels[rank].band);
        } else {
            let mut streams: HashSet<u64> = HashSet::new();
            streams.insert(id);
            // Seeded at the tail band and published: rebalancing corrects the level
            // if it lands higher, and may stop before one that belongs down here.
            self.levels.insert(rank, Level { order, band: OVERFLOW, streams });
            self.pending.insert(id, OVERFLOW);
            fresh = true;
        }
        proof {
            let levels2 = self.levels@;
            if fresh {
                assert(levels2 =~= levels1.insert(rank as int, levels2[rank as int]));
                assert(levels2[rank as int].streams@ =~= set![id]);
            } else {
                assert(levels2 =~= levels1.update(rank as int, levels2[rank as int]));
            }
            lemma_attached(levels1, levels2, left, id, order, rank as int, fresh);
            assert(self.streams@ =~= left.insert(id, order));
            assert forall|i: int| 0 <= i < levels2.len() implies attached_level(
                levels1,
                #[trigger] levels2[i],
                i,
                id,
                fresh,
            ) by {}
        }
        fresh
    }

    /// Register `id` at `order`, or move it there.
    #[verifier::rlimit(40)]
    fn rank(&mut self, id: u64, order: i32)
        requires
            old(self).wf(),
        ensures
            final(self).wf(),
            final(self).orders() == old(self).orders().insert(id, order),
            old(self).orders().index_opt(id) == Some(order) ==> final(self).updates() == old(self).updates(),
            old(self).orders().index_opt(id) != Some(order) ==> forall|x: u64| #[trigger]
                final(self).updates().index_opt(x) == ranked(
                    old(self).orders(),
                    final(self).orders(),
                    old(self).updates(),
                    id,
                    x,
                ),
    {
        let ghost levels0 = self.levels@;
        let ghost orders0 = self.streams@;
        let ghost pending0 = self.pending@;
        let known: Option<i32> = match self.streams.get(&id) {
            Some(order) => Some(*order),
            None => None,
        };
        // A level appearing or disappearing shifts every level below it.
        let mut shifted: bool = false;
        if let Some(previous) = known {
            if previous == order {
                assert(orders0 =~= orders0.insert(id, order));
                return;
            }
            shifted = self.detach(id, previous);
        } else {
            assert(orders0 =~= orders0.remove(id));
            assert forall|i: int| 0 <= i < levels0.len() implies kept_from(levels0, #[trigger] levels0[i], i) by {}
        }
        let ghost levels1 = self.levels@;
        if self.attach(id, order) {
            shifted = true;
        }
        let ghost levels2 = self.levels@;
        let ghost pending2 = self.pending@;
        let ghost orders2 = self.streams@;
        proof {
            assert forall|i: int| 0 <= i < levels2.len() implies attached_level(
                levels0,
                #[trigger] levels2[i],
                i,
                id,
                true,
            ) by {
                if kept_from(levels1, levels2[i], i - 1) {
                    lemma_kept(levels0, levels1, levels2[i], i - 1);
                }
            }
        }
        if shifted {
            self.rebalance();
        }
        proof {
            let updates = self.pending@;
            assert forall|x: u64| #[trigger] updates.index_opt(x) == ranked(orders0, orders2, pending0, id, x) by {
                if x == id {
                    assert(orders2.contains_key(id));
                    let rank = choose|i: int| 0 <= i < levels2.len() && (#[trigger] levels2[i]).order == order;
                    assert(levels2[rank].streams@.contains(id));
                    assert(self.levels@[rank].order == order);
                    lemma_rank(self.levels@, orders2, rank);
                } else {
                    assert(pending2.index_opt(x) == pending0.index_opt(x));
                    assert(orders0.index_opt(x) == orders2.index_opt(x));
                    lemma_updates(levels0, orders0, levels2, orders2, pending0, updates, id, x);
                }
            }
        }
    }

    /// Register a new send stream at the default send order.
    ///
    /// Every send stream is registered, not just the ones the application
    /// prioritizes: an unranked stream would keep the transport's own default urgency
    /// and so could outrank a stream that explicitly asked to go last.
    pub fn insert(&mut self, id: StreamId)
        requires
            old(self).wf(),
        ensures
            final(self).wf(),
            final(self).orders() == old(self).orders().insert(id.0, DEFAULT_PRIORITY),
            moved(old(self), final(self), id, DEFAULT_PRIORITY),
    {
        self.rank(id.0, DEFAULT_PRIORITY);
    }

    /// Change a stream's send order, where higher values are sent first.
    ///
    /// Ignored for a stream that isn't registered: it has been retired already, and
    /// ranking it again would strand a level that nothing is left to remove.
    pub fn set(&mut self, id: StreamId, order: i32)
        requires
            old(self).wf(),
        ensures
            final(self).wf(),
            old(self).orders().contains_key(id.0) ==> {
                &&& final(self).orders() == old(self).orders().insert(id.0, order)
                &&& moved(old(self), final(self), id, order)
            },
            !old(self).orders().contains_key(id.0) ==> {
                &&& final(self).orders() == old(self).orders()
                &&& final(self).updates() == old(self).updates()
            },
    {
        if !self.streams.contains_key(&id.0) {
            return;
        }
        self.rank(id.0, order);
    }

    /// Drop a stream that has closed, promoting whatever it was holding back.
    pub fn remove(&mut self, id: StreamId)
        requires
            old(self).wf(),
        ensures
            final(self).wf(),
            final(self).orders() == old(self).orders().remove(id.0),
            !old(self).orders().contains_key(id.0) ==> final(self).updates() == old(self).updates(),
            old(self).orders().contains_key(id.0) ==> forall|x: u64| #[trigger]
                final(self).updates().index_opt(x) == dropped(
                    old(self).orders(),
                    final(self).orders(),
                    old(self).updates(),
                    id.0,
                    x,
                ),
    {
        let ghost levels0 = self.levels@;
        let ghost orders0 = self.streams@;
        let ghost pending0 = self.pending@;
        let order: i32 = match self.streams.get(&id.0) {
            Some(order) => *order,
            None => {
                assert(orders0 =~= orders0.remove(id.0));
                return;
            },
        };
        let gone: bool = self.detach(id.0, order);
        self.streams.remove(&id.0);
        // The stream is gone; an urgency update for it would only resurrect state.
        self.pending.remove(&id.0);
        let ghost levels2 = self.levels@;
        let ghost pending2 = self.pending@;
        let ghost orders2 = self.streams@;
        proof {
            assert forall|i: int| 0 <= i < levels2.len() implies kept_from(
                levels0,
                #[trigger] levels2[i],
                i - 1,
            ) by {
                assert(kept_from(levels0, levels2[i], i));
            }
        }
        if gone {
            self.rebalance();
        }
        proof {
            let updates = self.pending@;
            assert forall|x: u64| #[trigger] updates.index_opt(x) == dropped(orders0, orders2, pending0, id.0, x) by {
                assert(x != id.0 ==> pending2.index_opt(x) == pending0.index_opt(x));
                if x == id.0 {
                    assert(!orders2.contains_key(x));
                    assert(pending2.index_opt(x) is None);
                } else {
                    assert(orders0.index_opt(x) == orders2.index_opt(x));
                    lemma_updates(levels0, orders0, levels2, orders2, pending0, updates, id.0, x);
                }
            }
        }
    }

    /// Take the urgency updates accumulated so far, to be applied to the transport.
    pub fn take(&mut self) -> (updates: HashMap<u64, u8>)
        ensures
            updates@ == old(self).updates(),
            final(self).updates() == Map::<u64, u8>::empty(),
            final(self).orders() == old(self).orders(),
            old(self).wf() ==> final(self).wf(),
    {
        let mut updates: HashMap<u64, u8> = HashMap::new();
        core::mem::swap(&mut updates, &mut self.pending);
        updates
    }

    /// The send order `id` is registered at.
    pub fn order(&self, id: StreamId) -> (order: Option<i32>)
        ensures
            order == self.orders().index_opt(id.0),
    {
        match self.streams.get(&id.0) {
            Some(order) => Some(*order),
            None => None,
        }
    }

    /// The urgency currently assigned to `id`, if it is registered.
    pub fn urgency(&self, id: StreamId) -> (urgency: Option<u8>)
        requires
            self.wf(),
        ensures
            urgency is Some <==> self.orders().contains_key(id.0),
            urgency matches Some(band) ==> band == urgency_at(self.orders(), self.orders()[id.0]),
    {
        let order: i32 = match self.streams.get(&id.0) {
            Some(order) => *order,
            None => return None,
        };
        let rank: usize = self.position(order);
        proof {
            assert(has_level(self.levels@, order));
            lemma_rank(self.levels@, self.streams@, rank as int);
        }
        Some(self.levels[rank].band)
    }

    /// Requeue updates that couldn't be applied yet, for the next attempt.
    ///
    /// A stream registers here as soon as it is opened, but the transport only learns
    /// of it later, so an urgency can be ready before there is anything to apply it
    /// to. Anything queued since the [`take`](Self::take) is newer and wins.
    pub fn defer(&mut self, updates: Vec<(StreamId, u8)>)
        ensures
            final(self).orders() == old(self).orders(),
            old(self).wf() ==> final(self).wf(),
            forall|id: u64| #[trigger] final(self).updates().index_opt(id) == (if old(
                self,
            ).updates().contains_key(id) {
                old(self).updates().index_opt(id)
            } else {
                first_update(updates@, id)
            }),
    {
        let ghost pending0 = self.pending@;
        let mut index: usize = 0;
        while index < updates.len()
            invariant
                index <= updates.len(),
                self.streams == old(self).streams,
                self.levels == old(self).levels,
                forall|id: u64| #[trigger] self.pending@.index_opt(id) == (if pending0.contains_key(id) {
                    pending0.index_opt(id)
                } else {
                    first_update(updates@.take(index as int), id)
                }),
            decreases updates.len() - index,
        {
            let (id, urgency) = updates[index];
            let ghost earlier = self.pending@;
            if !self.pending.contains_key(&id.0) {
                self.pending.insert(id.0, urgency);
            }
            proof {
                let head = updates@.take(index as int);
                let more = updates@.take(index + 1);
                assert(more.drop_last() =~= head);
                assert forall|x: u64| #[trigger] self.pending@.index_opt(x) == (if pending0.contains_key(x) {
                    pending0.index_opt(x)
                } else {
                    first_update(more, x)
                }) by {
                    assert(earlier.index_opt(x) == (if pending0.contains_key(x) {
                        pending0.index_opt(x)
                    } else {
                        first_update(head, x)
                    }));
                }
            }
            index = index + 1;
        }
        assert(updates@.take(updates@.len() as int) =~= updates@);
    }
}

impl Default for Priorities {
    fn default() -> (priorities: Self)
        ensures
            priorities.wf(),
            priorities.orders() == Map::<u64, i32>::empty(),
            priorities.updates() == Map::<u64, u8>::empty(),
    {
        Priorities::new()
    }
}

/// What moving `id` to `order` does to the updates: nothing where it already was
/// there; otherwise one for `id`, and one for every other stream whose urgency changed.
pub open spec fn moved(before: &Priorities, after: &Priorities, id: StreamId, order: i32) -> bool {
    if before.orders().index_opt(id.0) == Some(order) {
        after.updates() == before.updates()
    } else {
        forall|x: u64| #[trigger]
            after.updates().index_opt(x) == ranked(
                before.orders(),
                after.orders(),
                before.updates(),
                id.0,
                x,
            )
    }
}

/// The first urgency that a list of updates holds for a stream.
pub open spec fn first_update(updates: Seq<(StreamId, u8)>, id: u64) -> Option<u8>
    decreases updates.len(),
{
    if updates.len() == 0 {
        None
    } else {
        match first_update(updates.drop_last(), id) {
            Some(urgency) => Some(urgency),
            None => if updates.last().0.0 == id {
                Some(updates.last().1)
            } else {
                None
            },
        }
    }
}

/// What the transport applied, overlaid with what is still pending, gives every
/// registered stream the urgency that its rank implies.
pub open spec fn in_sync(orders: Map<u64, i32>, pending: Map<u64, u8>, applied: Map<u64, u8>) -> bool {
    forall|id: u64| #[trigger]
        orders.contains_key(id) ==> applied.union_prefer_right(pending).index_opt(id) == Some(
            urgency_at(orders, orders[id]),
        )
}

/// Every operation leaves all urgencies as the ranking has them, so rebalancing once more
/// changes nothing: no send order, no urgency and no update.
pub proof fn law_rebalancing_again_changes_nothing(before: &Priorities, after: &Priorities)
    requires
        before.wf(),
        before.rebalanced(after),
    ensures
        after.wf(),
        after.orders() == before.orders(),
        after.updates() == before.updates(),
        forall|id: u64| #[trigger]
            before.orders().contains_key(id) ==> urgency_at(after.orders(), after.orders()[id]) == urgency_at(
                before.orders(),
                before.orders()[id],
            ),
{
    let (orders, levels) = (before.orders(), before.levels@);
    assert forall|id: u64| #[trigger] after.updates().index_opt(id) == before.updates().index_opt(id) by {
        if orders.contains_key(id) {
            let i = choose|i: int| 0 <= i < levels.len() && (#[trigger] levels[i]).order == orders[id];
            assert(levels[i].streams@.contains(id));
        }
    }
    assert forall|id: u64| #[trigger]
        after.updates().contains_key(id) == before.updates().contains_key(id) && (before.updates().contains_key(
            id,
        ) ==> after.updates()[id] == before.updates()[id]) by {
        assert(after.updates().index_opt(id) == before.updates().index_opt(id));
    }
    assert(after.updates() =~= before.updates());
}

/// No two updates of a list are for the same stream.
pub open spec fn distinct(updates: Seq<(StreamId, u8)>) -> bool {
    forall|i: int, j: int| 0 <= i < j < updates.len() ==> updates[i].0 != updates[j].0
}

/// The urgencies that the transport has once a list of updates has been applied to it,
/// one after the other: the last one for a stream stands.
pub open spec fn applied_in_order(applied: Map<u64, u8>, updates: Seq<(StreamId, u8)>) -> Map<u64, u8>
    decreases updates.len(),
{
    if updates.len() == 0 {
        applied
    } else {
        applied_in_order(applied, updates.drop_last()).insert(updates.last().0.0, updates.last().1)
    }
}

/// Where no two updates are for the same stream, each of them stands once all have been
/// applied, and no other urgency changes.
pub proof fn law_distinct_updates_all_stand(applied: Map<u64, u8>, updates: Seq<(StreamId, u8)>, id: u64)
    requires
        distinct(updates),
    ensures
        applied_in_order(applied, updates).index_opt(id) == match first_update(updates, id) {
            Some(urgency) => Some(urgency),
            None => applied.index_opt(id),
        },
    decreases updates.len(),
{
    if updates.len() > 0 {
        let rest = updates.drop_last();
        assert forall|i: int, j: int| 0 <= i < j < rest.len() implies rest[i].0 != rest[j].0 by {
            assert(rest[i] == updates[i] && rest[j] == updates[j]);
        }
        law_distinct_updates_all_stand(applied, rest, id);
        if updates.last().0.0 == id && first_update(rest, id) is Some {
            lemma_first_update(rest, id);
            let k = choose|k: int|
                0 <= k < rest.len() && (#[trigger] rest[k]).0.0 == id && rest[k].1 == first_update(rest, id)->0;
            assert(updates[k].0 != updates[updates.len() - 1].0);
            assert(updates[k].0.0 == updates[updates.len() - 1].0.0);
        }
    }
}

/// There are only ever finitely many streams to rank.
pub proof fn law_streams_are_finite(priorities: &Priorities)
    ensures
        priorities.orders().dom().finite(),
{
}

/// A higher send order is sent first: its urgency is lower, or both are past the bands
/// that can be told apart.
pub proof fn law_higher_order_is_sent_first(orders: Map<u64, i32>, a: u64, b: u64)
    requires
        orders.dom().finite(),
        orders.contains_key(a),
        orders.contains_key(b),
        orders[a] > orders[b],
    ensures
        urgency_at(orders, orders[a]) < urgency_at(orders, orders[b]) || (urgency_at(orders, orders[a])
            == OVERFLOW && urgency_at(orders, orders[b]) == OVERFLOW),
{
    let over_a = orders_above(orders, orders[a]);
    let over_b = orders_above(orders, orders[b]);
    lemma_above_finite(orders, orders[a]);
    lemma_above_finite(orders, orders[b]);
    assert(orders.contains_value(orders[a]));
    assert(over_b.contains(orders[a]));
    assert(over_a.subset_of(over_b.remove(orders[a])));
    vstd::set_lib::lemma_len_subset(over_a, over_b.remove(orders[a]));
}

/// The send order at the top of all gets urgency zero.
pub proof fn law_highest_order_has_urgency_zero(orders: Map<u64, i32>, top: u64)
    requires
        orders.contains_key(top),
        forall|id: u64| #[trigger] orders.contains_key(id) ==> orders[id] <= orders[top],
    ensures
        urgency_at(orders, orders[top]) == 0,
{
    assert(orders_above(orders, orders[top]) =~= Set::<i32>::empty());
}

/// While no more than [`BANDS`] distinct send orders are in use, streams share an
/// urgency exactly when they share a send order.
pub proof fn law_bands_tell_orders_apart(orders: Map<u64, i32>, a: u64, b: u64)
    requires
        orders.dom().finite(),
        orders.values().len() <= BANDS,
        orders.contains_key(a),
        orders.contains_key(b),
    ensures
        urgency_at(orders, orders[a]) == urgency_at(orders, orders[b]) <==> orders[a] == orders[b],
{
    if orders[a] != orders[b] {
        let (hi, lo) = if orders[a] > orders[b] { (a, b) } else { (b, a) };
        law_higher_order_is_sent_first(orders, hi, lo);
        let above = orders_above(orders, orders[hi]);
        lemma_above_finite(orders, orders[hi]);
        vstd::map_lib::lemma_values_finite(orders);
        assert(orders.values().contains(orders[hi]));
        assert(orders.values().contains(orders[lo]));
        let rest = orders.values().remove(orders[hi]).remove(orders[lo]);
        assert(above.subset_of(rest));
        vstd::set_lib::lemma_len_subset(above, rest);
    }
}

/// Registering or moving a stream keeps the transport in sync, whatever else shifts.
pub proof fn law_move_keeps_in_sync(
    before: &Priorities,
    after: &Priorities,
    id: StreamId,
    order: i32,
    applied: Map<u64, u8>,
)
    requires
        after.orders() == before.orders().insert(id.0, order),
        moved(before, after, id, order),
        in_sync(before.orders(), before.updates(), applied),
    ensures
        in_sync(after.orders(), after.updates(), applied),
{
    if before.orders().index_opt(id.0) == Some(order) {
        assert(after.orders() =~= before.orders());
    }
    assert forall|x: u64| #[trigger] after.orders().contains_key(x) implies applied.union_prefer_right(
        after.updates(),
    ).index_opt(x) == Some(urgency_at(after.orders(), after.orders()[x])) by {
        if before.orders().index_opt(id.0) != Some(order) {
            assert(after.updates().index_opt(x) == ranked(
                before.orders(),
                after.orders(),
                before.updates(),
                id.0,
                x,
            ));
        }
        if x != id.0 {
            assert(before.orders().contains_key(x));
        }
    }
}

/// Dropping a stream keeps the transport in sync for every stream that is left.
pub proof fn law_remove_keeps_in_sync(
    before: &Priorities,
    after: &Priorities,
    id: StreamId,
    applied: Map<u64, u8>,
)
    requires
        before.orders().contains_key(id.0),
        after.orders() == before.orders().remove(id.0),
        forall|x: u64| #[trigger]
            after.updates().index_opt(x) == dropped(
                before.orders(),
                after.orders(),
                before.updates(),
                id.0,
                x,
            ),
        in_sync(before.orders(), before.updates(), applied),
    ensures
        in_sync(after.orders(), after.updates(), applied),
{
    assert forall|x: u64| #[trigger] after.orders().contains_key(x) implies applied.union_prefer_right(
        after.updates(),
    ).index_opt(x) == Some(urgency_at(after.orders(), after.orders()[x])) by {
        assert(before.orders().contains_key(x));
        assert(after.updates().index_opt(x) == dropped(
            before.orders(),
            after.orders(),
            before.updates(),
            id.0,
            x,
        ));
    }
}

/// Taking the updates and applying all of them but some, which are deferred, keeps the
/// transport in sync, whatever was queued in between.
pub proof fn law_take_and_defer_keep_in_sync(
    orders: Map<u64, i32>,
    taken: Map<u64, u8>,
    left: Seq<(StreamId, u8)>,
    queued: Map<u64, u8>,
    pending: Map<u64, u8>,
    applied: Map<u64, u8>,
)
    requires
        forall|k: int| 0 <= k < left.len() ==> taken.index_opt((#[trigger] left[k]).0.0) == Some(left[k].1),
        in_sync(orders, taken.union_prefer_right(queued), applied),
        forall|id: u64| #[trigger]
            pending.index_opt(id) == (if queued.contains_key(id) {
                queued.index_opt(id)
            } else {
                first_update(left, id)
            }),
    ensures
        in_sync(
            orders,
            pending,
            applied.union_prefer_right(
                taken.remove_keys(Set::new(|id: u64| first_update(left, id) is Some)),
            ),
        ),
{
    let done = taken.remove_keys(Set::new(|id: u64| first_update(left, id) is Some));
    assert forall|id: u64| #[trigger] orders.contains_key(id) implies applied.union_prefer_right(
        done,
    ).union_prefer_right(pending).index_opt(id) == Some(urgency_at(orders, orders[id])) by {
        lemma_first_update(left, id);
        assert(pending.index_opt(id) == (if queued.contains_key(id) {
            queued.index_opt(id)
        } else {
            first_update(left, id)
        }));
        let now = applied.union_prefer_right(taken.union_prefer_right(queued));
        assert(now.index_opt(id) == Some(urgency_at(orders, orders[id])));
    }
}

/// Closing the only stream at a send order promotes every stream below it that is not
/// held in the last band by others.
pub proof fn law_removal_promotes_the_streams_below(orders: Map<u64, i32>, id: u64, below: u64)
    requires
        orders.dom().finite(),
        orders.contains_key(id),
        orders.contains_key(below),
        orders[below] < orders[id],
        forall|x: u64| #[trigger] orders.contains_key(x) && x != id ==> orders[x] != orders[id],
        orders_above(orders, orders[below]).len() <= OVERFLOW,
    ensures
        urgency_at(orders.remove(id), orders[below]) == urgency_at(orders, orders[below]) - 1,
{
    let after = orders.remove(id);
    let above = orders_above(orders, orders[below]);
    lemma_above_finite(orders, orders[below]);
    assert(orders.contains_value(orders[id]));
    assert forall|o: i32| #[trigger]
        orders_above(after, orders[below]).contains(o) == above.remove(orders[id]).contains(o) by {
        if above.contains(o) && o != orders[id] {
            let x = choose|x: u64| #[trigger] orders.dom().contains(x) && orders[x] == o;
            assert(after.dom().contains(x) && after[x] == o);
        }
        if after.contains_value(o) {
            let x = choose|x: u64| #[trigger] after.dom().contains(x) && after[x] == o;
            assert(orders.contains_key(x));
            assert(orders.dom().contains(x) && orders[x] == o);
        }
    }
    assert(orders_above(after, orders[below]) =~= above.remove(orders[id]));
}

/// Closing one of several streams at a send order moves nothing.
pub proof fn law_removal_within_a_level_does_not_shift(orders: Map<u64, i32>, id: u64, peer: u64, order: i32)
    requires
        orders.contains_key(id),
        orders.contains_key(peer),
        id != peer,
        orders[id] == orders[peer],
    ensures
        urgency_at(orders.remove(id), order) == urgency_at(orders, order),
{
    let after = orders.remove(id);
    assert forall|o: i32| orders.contains_value(o) == #[trigger] after.contains_value(o) by {
        if orders.contains_value(o) {
            let x = choose|x: u64| #[trigger] orders.dom().contains(x) && orders[x] == o;
            let y = if x == id { peer } else { x };
            assert(after.dom().contains(y) && after[y] == o);
        }
        if after.contains_value(o) {
            let x = choose|x: u64| #[trigger] after.dom().contains(x) && after[x] == o;
            assert(orders.dom().contains(x) && orders[x] == o);
        }
    }
    assert(orders_above(after, order) =~= orders_above(orders, order));
}

proof fn lemma_above_finite(orders: Map<u64, i32>, order: i32)
    requires
        orders.dom().finite(),
    ensures
        orders_above(orders, order).finite(),
{
    vstd::map_lib::lemma_values_finite(orders);
    assert(orders_above(orders, order).subset_of(orders.values()));
    vstd::set_lib::lemma_set_subset_finite(orders.values(), orders_above(orders, order));
}

pub(crate) proof fn lemma_first_update(updates: Seq<(StreamId, u8)>, id: u64)
    ensures
        first_update(updates, id) matches Some(urgency) ==> exists|k: int|
            0 <= k < updates.len() && (#[trigger] updates[k]).0.0 == id && updates[k].1 == urgency,
    decreases updates.len(),
{
    if updates.len() > 0 {
        lemma_first_update(updates.drop_last(), id);
        if first_update(updates.drop_last(), id) is Some {
            let k = choose|k: int|
                0 <= k < updates.len() - 1 && (#[trigger] updates.drop_last()[k]).0.0 == id
                    && updates.drop_last()[k].1 == first_update(updates, id)->0;
            assert(updates[k].0.0 == id);
        } else if first_update(updates, id) is Some {
            assert(updates[updates.len() - 1].0.0 == id);
        }
    }
}

/// The urgency that a stream is owed: as many as there are distinct send orders above its own,
/// each counted once however many streams share it, and no more than can be told apart.
pub open spec fn owed(orders: Map<u64, i32>, id: u64) -> int {
    let above = Set::new(|o: i32| o > orders[id] && exists|x: u64| #[trigger] orders.contains_key(x) && orders[x] == o);
    if above.len() < 255 {
        above.len() as int
    } else {
        255
    }
}

/// Every stream has the urgency that it is owed, once what is pending has been applied.
pub open spec fn settled(orders: Map<u64, i32>, pending: Map<u64, u8>, applied: Map<u64, u8>) -> bool {
    forall|id: u64| #[trigger] orders.contains_key(id) ==> {
        &&& pending.contains_key(id) ==> pending[id] == owed(orders, id)
        &&& !pending.contains_key(id) ==> applied.contains_key(id) && applied[id] == owed(orders, id)
    }
}

/// No stream but `id` gets an update unless it is owed another urgency than before, and none
/// that is not registered gets one.
pub open spec fn spares(before: &Priorities, after: &Priorities, id: u64) -> bool {
    forall|x: u64| x != id && (!#[trigger] after.orders().contains_key(x) || owed(before.orders(), x) == owed(
        after.orders(),
        x,
    )) ==> {
        &&& after.updates().contains_key(x) == before.updates().contains_key(x)
        &&& before.updates().contains_key(x) ==> after.updates()[x] == before.updates()[x]
    }
}

pub(crate) proof fn lemma_owed(orders: Map<u64, i32>, id: u64)
    ensures
        owed(orders, id) == urgency_at(orders, orders[id]),
{
    let above = Set::new(|o: i32| o > orders[id] && exists|x: u64| #[trigger] orders.contains_key(x) && orders[x] == o);
    assert forall|o: i32| #[trigger] above.contains(o) == orders_above(orders, orders[id]).contains(o) by {
        if orders.contains_value(o) {
            let x = choose|x: u64| #[trigger] orders.dom().contains(x) && orders[x] == o;
            assert(orders.contains_key(x));
        }
        if above.contains(o) {
            let x = choose|x: u64| #[trigger] orders.contains_key(x) && orders[x] == o;
            assert(orders.dom().contains(x));
        }
    }
    assert(above =~= orders_above(orders, orders[id]));
}

proof fn lemma_settled(orders: Map<u64, i32>, pending: Map<u64, u8>, applied: Map<u64, u8>)
    ensures
        settled(orders, pending, applied) <==> in_sync(orders, pending, applied),
{
    let now = applied.union_prefer_right(pending);
    assert forall|id: u64| #[trigger] orders.contains_key(id) implies (now.index_opt(id) == Some(
        urgency_at(orders, orders[id]),
    ) <==> {
        &&& pending.contains_key(id) ==> pending[id] == owed(orders, id)
        &&& !pending.contains_key(id) ==> applied.contains_key(id) && applied[id] == owed(orders, id)
    }) by {
        lemma_owed(orders, id);
    }
    if settled(orders, pending, applied) {
        assert forall|id: u64| #[trigger] orders.contains_key(id) implies now.index_opt(id) == Some(
            urgency_at(orders, orders[id]),
        ) by {}
    }
    if in_sync(orders, pending, applied) {
        assert forall|id: u64| #[trigger] orders.contains_key(id) implies {
            &&& pending.contains_key(id) ==> pending[id] == owed(orders, id)
            &&& !pending.contains_key(id) ==> applied.contains_key(id) && applied[id] == owed(orders, id)
        } by {
            assert(now.index_opt(id) == Some(urgency_at(orders, orders[id])));
        }
    }
}

pub(crate) proof fn lemma_moved(before: &Priorities, after: &Priorities, id: StreamId, order: i32, applied: Map<u64, u8>)
    requires
        after.orders() == before.orders().insert(id.0, order),
        moved(before, after, id, order),
    ensures
        settled(before.orders(), before.updates(), applied) ==> settled(after.orders(), after.updates(), applied),
        spares(before, after, id.0),
{
    lemma_settled(before.orders(), before.updates(), applied);
    lemma_settled(after.orders(), after.updates(), applied);
    if in_sync(before.orders(), before.updates(), applied) {
        law_move_keeps_in_sync(before, after, id, order, applied);
    }
    assert forall|x: u64| x != id.0 && (!#[trigger] after.orders().contains_key(x) || owed(before.orders(), x) == owed(
        after.orders(),
        x,
    )) implies {
        &&& after.updates().contains_key(x) == before.updates().contains_key(x)
        &&& before.updates().contains_key(x) ==> after.updates()[x] == before.updates()[x]
    } by {
        lemma_owed(before.orders(), x);
        lemma_owed(after.orders(), x);
        if before.orders().index_opt(id.0) != Some(order) {
            assert(after.updates().index_opt(x) == ranked(
                before.orders(),
                after.orders(),
                before.updates(),
                id.0,
                x,
            ));
        }
    }
}

pub(crate) proof fn lemma_dropped(before: &Priorities, after: &Priorities, id: StreamId, applied: Map<u64, u8>)
    requires
        before.orders().contains_key(id.0),
        after.orders() == before.orders().remove(id.0),
        forall|x: u64| #[trigger]
            after.updates().index_opt(x) == dropped(
                before.orders(),
                after.orders(),
                before.updates(),
                id.0,
                x,
            ),
    ensures
        settled(before.orders(), before.updates(), applied) ==> settled(after.orders(), after.updates(), applied),
        spares(before, after, id.0),
        !after.updates().contains_key(id.0),
{
    lemma_settled(before.orders(), before.updates(), applied);
    lemma_settled(after.orders(), after.updates(), applied);
    if in_sync(before.orders(), before.updates(), applied) {
        law_remove_keeps_in_sync(before, after, id, applied);
    }
    assert(after.updates().index_opt(id.0) is None);
    assert forall|x: u64| x != id.0 && (!#[trigger] after.orders().contains_key(x) || owed(before.orders(), x) == owed(
        after.orders(),
        x,
    )) implies {
        &&& after.updates().contains_key(x) == before.updates().contains_key(x)
        &&& before.updates().contains_key(x) ==> after.updates()[x] == before.updates()[x]
    } by {
        lemma_owed(before.orders(), x);
        lemma_owed(after.orders(), x);
        assert(after.updates().index_opt(x) == dropped(
            before.orders(),
            after.orders(),
            before.updates(),
            id.0,
            x,
        ));
    }
}

/// Registering, moving and dropping a stream keep the transport in sync: whatever it has
/// applied, every registered stream ends up with the urgency that it is owed. A new stream is
/// ranked at zero, only a registered one is moved, and only urgencies that change are sent.
pub proof fn law_every_stream_gets_the_urgency_it_is_owed(applied: Map<u64, u8>)
    ensures
        forall|ranking: &mut Priorities, id: StreamId|
            #[trigger] call_ensures(Priorities::insert, (ranking, id), ()) ==> {
                &&& final(ranking).orders() == ranking.orders().insert(id.0, 0)
                &&& settled(ranking.orders(), ranking.updates(), applied) ==> settled(
                    final(ranking).orders(),
                    final(ranking).updates(),
                    applied,
                )
                &&& spares(&*ranking, &*final(ranking), id.0)
            },
        forall|ranking: &mut Priorities, id: StreamId, order: i32|
            #[trigger] call_ensures(Priorities::set, (ranking, id, order), ()) ==> {
                &&& ranking.orders().contains_key(id.0) ==> final(ranking).orders() == ranking.orders().insert(
                    id.0,
                    order,
                )
                &&& !ranking.orders().contains_key(id.0) ==> final(ranking).orders() == ranking.orders()
                    && final(ranking).updates() == ranking.updates()
                &&& settled(ranking.orders(), ranking.updates(), applied) ==> settled(
                    final(ranking).orders(),
                    final(ranking).updates(),
                    applied,
                )
                &&& spares(&*ranking, &*final(ranking), id.0)
            },
        forall|ranking: &mut Priorities, id: StreamId|
            #[trigger] call_ensures(Priorities::remove, (ranking, id), ()) ==> {
                &&& final(ranking).orders() == ranking.orders().remove(id.0)
                &&& ranking.orders().contains_key(id.0) ==> !final(ranking).updates().contains_key(id.0)
                &&& settled(ranking.orders(), ranking.updates(), applied) ==> settled(
                    final(ranking).orders(),
                    final(ranking).updates(),
                    applied,
                )
                &&& spares(&*ranking, &*final(ranking), id.0)
            },
{
    assert forall|ranking: &mut Priorities, id: StreamId|
        #[trigger] call_ensures(Priorities::insert, (ranking, id), ()) implies {
        &&& final(ranking).orders() == ranking.orders().insert(id.0, 0)
        &&& settled(ranking.orders(), ranking.updates(), applied) ==> settled(
            final(ranking).orders(),
            final(ranking).updates(),
            applied,
        )
        &&& spares(&*ranking, &*final(ranking), id.0)
    } by {
        lemma_moved(&*ranking, &*final(ranking), id, DEFAULT_PRIORITY, applied);
    }
    assert forall|ranking: &mut Priorities, id: StreamId, order: i32|
        #[trigger] call_ensures(Priorities::set, (ranking, id, order), ()) implies {
        &&& ranking.orders().contains_key(id.0) ==> final(ranking).orders() == ranking.orders().insert(
            id.0,
            order,
        )
        &&& !ranking.orders().contains_key(id.0) ==> final(ranking).orders() == ranking.orders()
            && final(ranking).updates() == ranking.updates()
        &&& settled(ranking.orders(), ranking.updates(), applied) ==> settled(
            final(ranking).orders(),
            final(ranking).updates(),
            applied,
        )
        &&& spares(&*ranking, &*final(ranking), id.0)
    } by {
        if ranking.orders().contains_key(id.0) {
            lemma_moved(&*ranking, &*final(ranking), id, order, applied);
        }
    }
    assert forall|ranking: &mut Priorities, id: StreamId|
        #[trigger] call_ensures(Priorities::remove, (ranking, id), ()) implies {
        &&& final(ranking).orders() == ranking.orders().remove(id.0)
        &&& ranking.orders().contains_key(id.0) ==> !final(ranking).updates().contains_key(id.0)
        &&& settled(ranking.orders(), ranking.updates(), applied) ==> settled(
            final(ranking).orders(),
            final(ranking).updates(),
            applied,
        )
        &&& spares(&*ranking, &*final(ranking), id.0)
    } by {
        if ranking.orders().contains_key(id.0) {
            lemma_dropped(&*ranking, &*final(ranking), id, applied);
        } else {
            assert(ranking.orders().remove(id.0) =~= ranking.orders());
        }
    }
}

/// A ranking tells the send order of a stream and the urgency that it is owed, and neither of
/// one that is not registered.
pub proof fn law_a_ranking_tells_what_a_stream_is_owed(ranking: &Priorities, id: StreamId)
    ensures
        forall|order: Option<i32>|
            #[trigger] call_ensures(Priorities::order, (ranking, id), order) ==> {
                &&& order is Some <==> ranking.orders().contains_key(id.0)
                &&& order is Some ==> order->0 == ranking.orders()[id.0]
            },
        forall|urgency: Option<u8>|
            #[trigger] call_ensures(Priorities::urgency, (ranking, id), urgency) ==> {
                &&& urgency is Some <==> ranking.orders().contains_key(id.0)
                &&& urgency is Some ==> urgency->0 == owed(ranking.orders(), id.0)
            },
        forall|empty: Priorities|
            #[trigger] call_ensures(Priorities::new, (), empty) ==> {
                &&& !empty.orders().contains_key(id.0)
                &&& !empty.updates().contains_key(id.0)
            },
{
    lemma_owed(ranking.orders(), id.0);
}

/// Taking the updates takes all of them, once. Deferring some puts them back, except where a
/// newer one was queued meanwhile; of several for one stream the first is put back.
pub proof fn law_deferred_updates_give_way_to_newer_ones()
    ensures
        forall|ranking: &mut Priorities, updates: HashMap<u64, u8>|
            #[trigger] call_ensures(Priorities::take, (ranking,), updates) ==> {
                &&& updates@ == ranking.updates()
                &&& forall|id: u64| !#[trigger] final(ranking).updates().contains_key(id)
                &&& final(ranking).orders() == ranking.orders()
            },
        forall|ranking: &mut Priorities, updates: Vec<(StreamId, u8)>|
            #[trigger] call_ensures(Priorities::defer, (ranking, updates), ()) ==> {
                let (before, after) = (ranking.updates(), final(ranking).updates());
                &&& final(ranking).orders() == ranking.orders()
                &&& forall|id: u64| #[trigger]
                    before.contains_key(id) ==> after.contains_key(id) && after[id] == before[id]
                &&& forall|k: int|
                    0 <= k < updates@.len() && !before.contains_key((#[trigger] updates@[k]).0.0) && (forall|j: int|
                        0 <= j < k ==> (#[trigger] updates@[j]).0 != updates@[k].0) ==> after.contains_key(
                        updates@[k].0.0,
                    ) && after[updates@[k].0.0] == updates@[k].1
                &&& forall|id: u64| #[trigger]
                    after.contains_key(id) ==> before.contains_key(id) || exists|k: int|
                        0 <= k < updates@.len() && (#[trigger] updates@[k]).0.0 == id
            },
{
    assert forall|ranking: &mut Priorities, updates: Vec<(StreamId, u8)>|
        #[trigger] call_ensures(Priorities::defer, (ranking, updates), ()) implies {
        let (before, after) = (ranking.updates(), final(ranking).updates());
        &&& final(ranking).orders() == ranking.orders()
        &&& forall|id: u64| #[trigger]
            before.contains_key(id) ==> after.contains_key(id) && after[id] == before[id]
        &&& forall|k: int|
            0 <= k < updates@.len() && !before.contains_key((#[trigger] updates@[k]).0.0) && (forall|j: int|
                0 <= j < k ==> (#[trigger] updates@[j]).0 != updates@[k].0) ==> after.contains_key(
                updates@[k].0.0,
            ) && after[updates@[k].0.0] == updates@[k].1
        &&& forall|id: u64| #[trigger]
            after.contains_key(id) ==> before.contains_key(id) || exists|k: int|
                0 <= k < updates@.len() && (#[trigger] updates@[k]).0.0 == id
    } by {
        let (before, after) = (ranking.updates(), final(ranking).updates());
        let list = updates@;
        assert forall|id: u64| #[trigger] after.index_opt(id) == (if before.contains_key(id) {
            before.index_opt(id)
        } else {
            first_update(list, id)
        }) by {}
        assert forall|id: u64| #[trigger]
            before.contains_key(id) implies after.contains_key(id) && after[id] == before[id] by {
            assert(after.index_opt(id) == before.index_opt(id));
        }
        assert forall|k: int|
            0 <= k < list.len() && !before.contains_key((#[trigger] list[k]).0.0) && (forall|j: int|
                0 <= j < k ==> (#[trigger] list[j]).0 != list[k].0) implies after.contains_key(list[k].0.0)
            && after[list[k].0.0] == list[k].1 by {
            lemma_first_of(list, k);
            assert(after.index_opt(list[k].0.0) == first_update(list, list[k].0.0));
        }
        assert forall|id: u64| #[trigger] after.contains_key(id) implies before.contains_key(id) || exists|k: int|
            0 <= k < list.len() && (#[trigger] list[k]).0.0 == id by {
            lemma_first_update(list, id);
            assert(after.index_opt(id) is Some);
        }
    }
}

/// An update that comes before every other for its stream is the first one.
pub(crate) proof fn lemma_first_of(updates: Seq<(StreamId, u8)>, k: int)
    requires
        0 <= k < updates.len(),
        forall|j: int| 0 <= j < k ==> (#[trigger] updates[j]).0 != updates[k].0,
    ensures
        first_update(updates, updates[k].0.0) == Some(updates[k].1),
    decreases updates.len(),
{
    let rest = updates.drop_last();
    if k < rest.len() {
        assert forall|j: int| 0 <= j < k implies (#[trigger] rest[j]).0 != rest[k].0 by {
            assert(rest[j] == updates[j]);
        }
        lemma_first_of(rest, k);
    } else {
        let id = updates[k].0.0;
        lemma_first_update(rest, id);
        if first_update(rest, id) is Some {
            let j = choose|j: int|
                0 <= j < rest.len() && (#[trigger] rest[j]).0.0 == id && rest[j].1 == first_update(rest, id)->0;
            assert(updates[j].0 != updates[k].0);
        }
    }
}

/// Rebalancing a ranking that every operation has kept balanced changes nothing.
pub proof fn law_a_balanced_ranking_stays_as_it_is()
    ensures
        forall|ranking: &mut Priorities|
            #[trigger] call_ensures(Priorities::rebalance, (ranking,), ()) && ranking.wf() ==> {
                &&& final(ranking).orders() == ranking.orders()
                &&& final(ranking).updates() == ranking.updates()
            },
{
}

/// A ranking is made without streams and updates by default too.
pub proof fn law_a_ranking_is_empty_by_default(ranking: Priorities, id: u64)
    requires
        call_ensures(<Priorities as Default>::default, (), ranking),
    ensures
        !ranking.orders().contains_key(id) && !ranking.updates().contains_key(id),
{
}

} // verus!
