//! What holds of every pool, whatever the readers do.
//!
//! Each statement is about the model in `pool`, which is also what the
//! contracts of `Latest::new` and `Latest::set` are written in.

use vstd::prelude::*;
use vstd::set_lib::lemma_int_range;
use vstd::set_lib::lemma_len_subset;
use vstd::set_lib::set_int_range;
use crate::pool::lemma_offer_keeps_shape;
use crate::pool::lemma_scan_meaning;
use crate::pool::Offer;
use crate::pool::PoolState;
use crate::ring::lemma_ring_at_unfold;
use crate::ring::lemma_ring_reaches;
use crate::ring::ring_distance;

verus! {

/// Before anything is published, readers are shown a default value.
pub proof fn fresh_pool_shows_default<M: Default>(pool: PoolState<M>, cap: int)
    requires
        cap >= 2,
        pool.fresh(cap),
    ensures
        pool.wf(),
        M::default.ensures((), pool.current()),
{
}

/// A run of offers leaves the pool well-formed and of the same size.
pub proof fn replay_keeps_shape<M>(pool: PoolState<M>, offers: Seq<Offer<M>>)
    requires
        pool.wf(),
    ensures
        pool.replay(offers).wf(),
        pool.replay(offers).capacity() == pool.capacity(),
    decreases offers.len(),
{
    if offers.len() > 0 {
        replay_keeps_shape(pool, offers.drop_last());
        lemma_offer_keeps_shape(
            pool.replay(offers.drop_last()),
            offers.last().busy,
            offers.last().value,
        );
    }
}

/// An offer that finds a free slot makes its value the one readers are
/// shown.
pub proof fn taken_offer_is_shown<M>(pool: PoolState<M>, busy: Set<int>, value: M)
    requires
        pool.wf(),
        pool.first_free(busy) is Some,
    ensures
        pool.offer(busy, value).current() == value,
{
    lemma_scan_meaning(pool, busy, 1);
    lemma_ring_at_unfold(pool.cursor, pool.probes_needed(busy).unwrap(), pool.capacity());
}

/// The last value wins: after a run of offers that all found a free slot,
/// readers are shown the value of the last one.
pub proof fn last_value_wins<M>(pool: PoolState<M>, offers: Seq<Offer<M>>)
    requires
        pool.wf(),
        offers.len() > 0,
        pool.all_taken(offers),
    ensures
        pool.replay(offers).current() == offers.last().value,
{
    replay_keeps_shape(pool, offers.drop_last());
    taken_offer_is_shown(pool.replay(offers.drop_last()), offers.last().busy, offers.last().value);
}

/// What readers are shown after a run is the newest entry of its history.
pub proof fn shown_is_newest<M>(pool: PoolState<M>, offers: Seq<Offer<M>>)
    requires
        pool.wf(),
    ensures
        pool.history(offers).len() >= 1,
        pool.replay(offers).current() == pool.history(offers).last(),
    decreases offers.len(),
{
    if offers.len() > 0 {
        let earlier = offers.drop_last();
        shown_is_newest(pool, earlier);
        replay_keeps_shape(pool, earlier);
        if pool.replay(earlier).first_free(offers.last().busy) is Some {
            taken_offer_is_shown(pool.replay(earlier), offers.last().busy, offers.last().value);
        }
    }
}

/// History only grows: the history of the first `n` offers of a run is the
/// beginning of the history of the whole run.
pub proof fn history_grows<M>(pool: PoolState<M>, offers: Seq<Offer<M>>, n: int)
    requires
        0 <= n <= offers.len(),
    ensures
        pool.history(offers.take(n)).len() <= pool.history(offers).len(),
        pool.history(offers).take(pool.history(offers.take(n)).len() as int) == pool.history(
            offers.take(n),
        ),
    decreases offers.len(),
{
    if n == offers.len() {
        assert(offers.take(n) =~= offers);
        assert(pool.history(offers).take(pool.history(offers).len() as int) =~= pool.history(
            offers,
        ));
    } else {
        let earlier = offers.drop_last();
        history_grows(pool, earlier, n);
        assert(earlier.take(n) =~= offers.take(n));
        let part = pool.history(offers.take(n));
        assert(pool.history(offers).take(part.len() as int) =~= pool.history(earlier).take(
            part.len() as int,
        ));
    }
}

/// Reads follow the order of publication. A reader that looks after
/// `earlier` offers of a run and again after `later` offers is shown, each
/// time, an entry of the run's history, and the second entry does not come
/// before the first: no value is seen after a newer one.
pub proof fn reads_follow_publication<M>(
    pool: PoolState<M>,
    offers: Seq<Offer<M>>,
    earlier: int,
    later: int,
)
    requires
        pool.wf(),
        0 <= earlier <= later <= offers.len(),
    ensures
        0 <= pool.shown_after(offers, earlier) <= pool.shown_after(offers, later)
            < pool.history(offers).len(),
        pool.replay(offers.take(earlier)).current() == pool.history(offers)[pool.shown_after(
            offers,
            earlier,
        )],
        pool.replay(offers.take(later)).current() == pool.history(offers)[pool.shown_after(
            offers,
            later,
        )],
{
    let first = pool.history(offers.take(earlier));
    let second = pool.history(offers.take(later));
    shown_is_newest(pool, offers.take(earlier));
    shown_is_newest(pool, offers.take(later));
    history_grows(pool, offers, later);
    history_grows(pool, offers.take(later), earlier);
    assert(offers.take(later).take(earlier) =~= offers.take(earlier));
    assert(pool.history(offers)[second.len() - 1] == second[second.len() - 1]);
    assert(second[first.len() - 1] == first[first.len() - 1]);
    assert(pool.history(offers)[first.len() - 1] == second[first.len() - 1]);
}

/// A free slot is found: if some slot is not busy, the search claims a
/// slot that is not busy, after no more probes than it takes to reach that
/// one, and so after at most as many probes as the pool has slots.
pub proof fn free_slot_is_found<M>(pool: PoolState<M>, busy: Set<int>, free: int)
    requires
        pool.wf(),
        0 <= free < pool.capacity(),
        !busy.contains(free),
    ensures
        pool.probes_needed(busy) is Some,
        1 <= pool.probes_needed(busy).unwrap() <= ring_distance(pool.cursor, free, pool.capacity())
            <= pool.capacity(),
        pool.first_free(busy) is Some,
        0 <= pool.first_free(busy).unwrap() < pool.capacity(),
        !busy.contains(pool.first_free(busy).unwrap()),
{
    let reach = ring_distance(pool.cursor, free, pool.capacity());
    lemma_ring_reaches(pool.cursor, free, pool.capacity());
    lemma_scan_meaning(pool, busy, 1);
    match pool.probes_needed(busy) {
        Some(k) => {
            lemma_ring_at_unfold(pool.cursor, k, pool.capacity());
            if k > reach {
                assert(busy.contains(pool.probe(reach)));
            }
        },
        None => {
            assert(busy.contains(pool.probe(reach)));
        },
    }
}

/// A pool with a slot to spare never starves: if fewer slots are busy than
/// the pool has, the search finds one.
pub proof fn spare_slot_suffices<M>(pool: PoolState<M>, busy: Set<int>)
    requires
        pool.wf(),
        busy.finite(),
        busy.len() < pool.capacity(),
    ensures
        pool.first_free(busy) is Some,
        !busy.contains(pool.first_free(busy).unwrap()),
{
    let all = set_int_range(0, pool.capacity());
    lemma_int_range(0, pool.capacity());
    if all.subset_of(busy) {
        lemma_len_subset(all, busy);
    }
    let free = choose|i: int| all.contains(i) && !busy.contains(i);
    free_slot_is_found(pool, busy, free);
}

/// The sizing rule: a pool with at least two slots more than readers hold
/// at once always has room, since besides the held slots only the
/// published one is occupied.
pub proof fn room_beyond_readers<M>(pool: PoolState<M>, held: Set<int>)
    requires
        pool.wf(),
        held.finite(),
        held.len() + 2 <= pool.capacity(),
    ensures
        pool.first_free(pool.occupied(held)) is Some,
        !held.contains(pool.first_free(pool.occupied(held)).unwrap()),
        pool.first_free(pool.occupied(held)).unwrap() != pool.published,
{
    spare_slot_suffices(pool, pool.occupied(held));
}

/// With every slot busy the search finds nothing and the pool stays as it
/// is.
pub proof fn full_pool_starves<M>(pool: PoolState<M>, busy: Set<int>, value: M)
    requires
        pool.wf(),
        forall|i: int| 0 <= i < pool.capacity() ==> busy.contains(i),
    ensures
        pool.first_free(busy) is None,
        pool.offer(busy, value) == pool,
{
    lemma_scan_meaning(pool, busy, 1);
    if let Some(k) = pool.probes_needed(busy) {
        lemma_ring_at_unfold(pool.cursor, k, pool.capacity());
    }
}

/// A slot that somebody holds is never written: an offer changes at most
/// the slot it claims, and that slot is not busy.
pub proof fn busy_slots_keep_their_value<M>(
    pool: PoolState<M>,
    busy: Set<int>,
    value: M,
    slot: int,
)
    requires
        pool.wf(),
        0 <= slot < pool.capacity(),
        busy.contains(slot) || pool.first_free(busy) != Some(slot),
    ensures
        pool.offer(busy, value).slots[slot] == pool.slots[slot],
{
    lemma_scan_meaning(pool, busy, 1);
    if let Some(k) = pool.probes_needed(busy) {
        lemma_ring_at_unfold(pool.cursor, k, pool.capacity());
    }
}

/// What readers have been shown is never changed in place: as long as the
/// published slot and the slots that readers hold count as busy, an offer
/// leaves the value in each of them as it is.
pub proof fn shown_values_are_never_overwritten<M>(
    pool: PoolState<M>,
    held: Set<int>,
    value: M,
    slot: int,
)
    requires
        pool.wf(),
        0 <= slot < pool.capacity(),
        slot == pool.published || held.contains(slot),
    ensures
        pool.offer(pool.occupied(held), value).slots[slot] == pool.slots[slot],
{
    busy_slots_keep_their_value(pool, pool.occupied(held), value, slot);
}

} // verus!
