//! The ranking of streams by send order.

use web_transport::ez::priority::{Priorities, BANDS, OVERFLOW};
use web_transport::ez::stream::StreamId;

fn sid(id: u64) -> StreamId {
    StreamId::from(id)
}

/// Open a stream and give it a send order. `set` alone is ignored for a stream that isn't
/// registered.
fn open(p: &mut Priorities, id: StreamId, order: i32) {
    p.insert(id);
    p.set(id, order);
}

#[test]
fn ranks_by_descending_send_order() {
    let mut p = Priorities::default();
    p.insert(sid(0));
    open(&mut p, sid(4), 100);
    open(&mut p, sid(8), 50);

    let pending = p.take();
    assert_eq!(pending[&4], 0);
    assert_eq!(pending[&8], 1);
    assert_eq!(pending[&0], 2);
}

#[test]
fn equal_send_orders_share_a_band() {
    let mut p = Priorities::default();
    open(&mut p, sid(0), 7);
    open(&mut p, sid(4), 7);
    open(&mut p, sid(8), 3);

    let pending = p.take();
    assert_eq!(pending[&0], 0);
    assert_eq!(pending[&4], 0);
    assert_eq!(pending[&8], 1);
}

/// A promotion has to push everything it jumped over down a band, or the promoted stream
/// would merely tie with them.
#[test]
fn promotion_shifts_the_streams_it_passed() {
    let mut p = Priorities::default();
    open(&mut p, sid(0), 30);
    open(&mut p, sid(4), 20);
    open(&mut p, sid(8), 10);
    let _ = p.take();

    p.set(sid(8), 40);

    let pending = p.take();
    assert_eq!(pending[&8], 0);
    assert_eq!(pending[&0], 1);
    assert_eq!(pending[&4], 2);
}

/// Closing a stream frees its band, so the streams below it move up.
#[test]
fn removal_promotes_the_streams_below() {
    let mut p = Priorities::default();
    open(&mut p, sid(0), 30);
    open(&mut p, sid(4), 20);
    open(&mut p, sid(8), 10);
    let _ = p.take();

    p.remove(sid(0));

    let pending = p.take();
    assert!(!pending.contains_key(&0));
    assert_eq!(pending[&4], 0);
    assert_eq!(pending[&8], 1);
}

/// Losing one of several streams at the same send order doesn't move anything: the level
/// is still occupied.
#[test]
fn removal_within_a_level_does_not_shift() {
    let mut p = Priorities::default();
    open(&mut p, sid(0), 30);
    open(&mut p, sid(4), 30);
    open(&mut p, sid(8), 10);
    let _ = p.take();

    p.remove(sid(0));

    assert!(p.take().is_empty());
}

/// Only the top [`BANDS`] levels are ordered; the rest tie at the last band.
#[test]
fn levels_past_the_last_band_share_it() {
    let mut p = Priorities::default();
    // Descending send order, so stream N lands at rank N.
    for i in 0..(BANDS as u64 + 8) {
        open(&mut p, sid(i * 4), -(i as i32));
    }

    let pending = p.take();
    assert_eq!(pending[&0], 0);
    assert_eq!(pending[&((BANDS as u64 - 1) * 4)], OVERFLOW);
    assert_eq!(pending[&((BANDS as u64 + 7) * 4)], OVERFLOW);
}

/// A stream that arrives already in the overflow band still needs an update: the
/// transport's own default urgency sits in the middle of the range, not at the end.
#[test]
fn overflow_streams_are_still_published() {
    let mut p = Priorities::default();
    for i in 0..BANDS as u64 {
        open(&mut p, sid(i * 4), -(i as i32));
    }
    let _ = p.take();

    let late = sid((BANDS as u64 + 1) * 4);
    open(&mut p, late, i32::MIN);

    assert_eq!(p.take()[&late.0], OVERFLOW);
}

/// A handle outlives the driver's record of its stream. A new priority arriving then must
/// not resurrect it.
#[test]
fn updates_to_a_retired_stream_are_ignored() {
    let mut p = Priorities::default();
    open(&mut p, sid(0), 30);
    open(&mut p, sid(4), 20);
    let _ = p.take();

    p.remove(sid(0));
    let _ = p.take();

    p.set(sid(0), i32::MAX);

    assert!(p.take().is_empty(), "a retired stream must not queue an update");
    assert_eq!(p.order(sid(0)), None, "a retired stream must stay unregistered");
    assert_eq!(
        p.urgency(sid(4)),
        Some(0),
        "the live stream must keep the band the retirement promoted it to"
    );
}

/// The same, for a stream that was never registered at all.
#[test]
fn updates_to_an_unknown_stream_are_ignored() {
    let mut p = Priorities::default();
    open(&mut p, sid(0), 30);
    let _ = p.take();

    p.set(sid(99), i32::MAX);

    assert!(p.take().is_empty());
    assert_eq!(p.urgency(sid(0)), Some(0));
}

#[test]
fn setting_the_same_order_twice_is_a_noop() {
    let mut p = Priorities::default();
    open(&mut p, sid(0), 5);
    let _ = p.take();

    p.set(sid(0), 5);
    assert!(p.take().is_empty());
}

/// Updates that could not be applied come back, unless a newer one was queued meanwhile;
/// the first of several for one stream wins.
#[test]
fn deferred_updates_yield_to_newer_ones() {
    let mut p = Priorities::new();
    open(&mut p, sid(0), 5);
    open(&mut p, sid(4), 3);
    let taken = p.take();
    assert_eq!(taken[&0], 0);
    assert_eq!(taken[&4], 1);

    p.set(sid(4), 9);
    p.defer(vec![(sid(0), 7), (sid(4), 7), (sid(8), 3), (sid(8), 4)]);

    let pending = p.take();
    assert_eq!(pending.len(), 3);
    assert_eq!(pending[&4], 0);
    // Moving stream 4 up moved stream 0 down, which is newer than what was deferred.
    assert_eq!(pending[&0], 1);
    assert_eq!(pending[&8], 3);
}

/// What was applied, overlaid with what is pending, is always what the ranking says.
#[test]
fn applied_and_pending_updates_match_the_ranking() {
    let mut p = Priorities::new();
    let mut applied = std::collections::HashMap::new();
    for step in 0u64..400 {
        let id = sid((step * 37 % 50) * 4);
        match step % 5 {
            0 | 1 => p.insert(id),
            2 => p.set(id, (step as i32 * 7919) % 31 - 15),
            3 => p.set(id, i32::MAX - step as i32),
            _ => p.remove(id),
        }
        if step % 3 == 0 {
            for (id, urgency) in p.take() {
                applied.insert(id, urgency);
            }
        }
    }
    for (id, urgency) in p.take() {
        applied.insert(id, urgency);
    }
    let mut registered = 0;
    for id in (0..50).map(|i| i * 4) {
        if let Some(urgency) = p.urgency(sid(id)) {
            registered += 1;
            assert_eq!(applied[&id], urgency);
            let order = p.order(sid(id)).unwrap();
            let mut above: Vec<i32> = (0..50)
                .filter_map(|i| p.order(sid(i * 4)))
                .filter(|other| *other > order)
                .collect();
            above.sort();
            above.dedup();
            assert_eq!(urgency as usize, above.len());
        }
    }
    assert!(registered > 10);
}

/// Every operation leaves the ranking settled: where nothing moves, nothing is queued and
/// every urgency stays.
#[test]
fn a_settled_ranking_stays_as_it_is() {
    let mut p = Priorities::default();
    for i in 0..(BANDS as u64 + 8) {
        open(&mut p, sid(i * 4), -(i as i32));
    }
    p.remove(sid(4));
    let _ = p.take();

    let before: Vec<_> = (0..BANDS as u64 + 8).map(|i| p.urgency(sid(i * 4))).collect();
    p.set(sid(8), -2);
    p.remove(sid(4));
    p.defer(Vec::new());
    p.rebalance();
    assert!(p.take().is_empty());
    let after: Vec<_> = (0..BANDS as u64 + 8).map(|i| p.urgency(sid(i * 4))).collect();
    assert_eq!(before, after);
    assert_eq!(p.urgency(sid(8)), Some(1));
}
