//! The writer's pool as a mathematical value, and what one `set` does to it.
//!
//! Whether a slot can be claimed depends on who else holds it at the moment
//! it is probed, which the writer cannot know beforehand. The model therefore
//! takes the set of slots that were found busy as an input: for every such
//! set it says which slot is claimed, if any, and what the pool looks like
//! afterwards.

use vstd::prelude::*;
use crate::ring::lemma_ring_at_unfold;
use crate::ring::lemma_ring_distance_of_walk;
use crate::ring::ring_distance;
use crate::ring::ring_at;

verus! {

/// The pool at one instant: the value in each slot, the slot where the last
/// search stopped, and the slot that was handed to the published pointer
/// last.
pub struct PoolState<M> {
    pub slots: Seq<M>,
    pub cursor: int,
    pub published: int,
}

/// One call of `set` as the pool experiences it: the slots that turn out to
/// be busy when probed, and the value that is to be published.
pub struct Offer<M> {
    pub busy: Set<int>,
    pub value: M,
}

impl<M> PoolState<M> {
    /// The number of slots.
    pub open spec fn capacity(self) -> int {
        self.slots.len() as int
    }

    /// At least two slots, and both indices point into the pool.
    pub open spec fn wf(self) -> bool {
        &&& self.capacity() >= 2
        &&& 0 <= self.cursor < self.capacity()
        &&& 0 <= self.published < self.capacity()
    }

    /// The value in the published slot. A writer keeps the published
    /// pointer on that slot, so this is what readers are shown.
    pub open spec fn current(self) -> M {
        self.slots[self.published]
    }

    /// The slot examined by the `k`-th probe of a search; the first probe
    /// looks at the slot after the cursor.
    pub open spec fn probe(self, k: int) -> int {
        ring_at(self.cursor, k, self.capacity())
    }

    /// The number of the first probe, from the `k`-th on and within one turn
    /// of the ring, that meets a slot outside `busy`.
    pub open spec fn scan(self, busy: Set<int>, k: int) -> Option<int>
        decreases self.capacity() - k + 1,
    {
        if k < 1 || k > self.capacity() {
            None
        } else if !busy.contains(self.probe(k)) {
            Some(k)
        } else {
            self.scan(busy, k + 1)
        }
    }

    /// How many probes one turn of the ring needs to meet a free slot, or
    /// `None` if every slot is busy.
    pub open spec fn probes_needed(self, busy: Set<int>) -> Option<int> {
        self.scan(busy, 1)
    }

    /// The slot that a search claims: the first free one after the cursor.
    pub open spec fn first_free(self, busy: Set<int>) -> Option<int> {
        match self.probes_needed(busy) {
            Some(k) => Some(self.probe(k)),
            None => None,
        }
    }

    /// The slots that nobody can claim while readers hold the slots in
    /// `held`: those, and the published one, which the published pointer
    /// holds.
    pub open spec fn occupied(self, held: Set<int>) -> Set<int> {
        held.insert(self.published)
    }

    /// The slots that the probes before the `k`-th one examine.
    pub open spec fn met_before(self, k: int) -> Set<int> {
        Set::new(
            |slot: int|
                0 <= slot < self.capacity() && ring_distance(self.cursor, slot, self.capacity())
                    < k,
        )
    }

    /// The pool after `value` was written to `slot` and `slot` was published.
    pub open spec fn claim(self, slot: int, value: M) -> Self {
        PoolState { slots: self.slots.update(slot, value), cursor: slot, published: slot }
    }

    /// The pool after one `set`: the first free slot is claimed; if there is
    /// none, nothing changes.
    pub open spec fn offer(self, busy: Set<int>, value: M) -> Self {
        match self.first_free(busy) {
            Some(slot) => self.claim(slot, value),
            None => self,
        }
    }

    /// The pool after a run of offers, made one after the other.
    pub open spec fn replay(self, offers: Seq<Offer<M>>) -> Self
        decreases offers.len(),
    {
        if offers.len() == 0 {
            self
        } else {
            self.replay(offers.drop_last()).offer(offers.last().busy, offers.last().value)
        }
    }

    /// Every offer of the run found a free slot.
    pub open spec fn all_taken(self, offers: Seq<Offer<M>>) -> bool
        decreases offers.len(),
    {
        offers.len() == 0 || {
            &&& self.all_taken(offers.drop_last())
            &&& self.replay(offers.drop_last()).first_free(offers.last().busy) is Some
        }
    }

    /// The values that readers could be shown during a run, oldest first: the
    /// value published at the start, then the value of each offer that was
    /// taken.
    pub open spec fn history(self, offers: Seq<Offer<M>>) -> Seq<M>
        decreases offers.len(),
    {
        if offers.len() == 0 {
            seq![self.current()]
        } else {
            let earlier = self.history(offers.drop_last());
            if self.replay(offers.drop_last()).first_free(offers.last().busy) is Some {
                earlier.push(offers.last().value)
            } else {
                earlier
            }
        }
    }

    /// The place in the history of the value that readers are shown after
    /// the first `n` offers of a run: the number of those that were taken.
    pub open spec fn shown_after(self, offers: Seq<Offer<M>>, n: int) -> int {
        self.history(offers.take(n)).len() - 1
    }
}

impl<M: Default> PoolState<M> {
    /// The pool as it is built: `cap` slots that each hold a default value,
    /// the first slot published, the cursor on the second.
    pub open spec fn fresh(self, cap: int) -> bool {
        &&& self.capacity() == cap
        &&& self.cursor == 1
        &&& self.published == 0
        &&& forall|i: int| 0 <= i < cap ==> M::default.ensures((), #[trigger] self.slots[i])
    }
}

/// What `scan` returns, spelled out: the probe it names meets a free slot
/// and every probe before it met a busy one; it names none only if every
/// probe up to the end of the turn meets a busy slot.
pub proof fn lemma_scan_meaning<M>(pool: PoolState<M>, busy: Set<int>, from: int)
    requires
        1 <= from,
    ensures
        match pool.scan(busy, from) {
            Some(k) => {
                &&& from <= k <= pool.capacity()
                &&& !busy.contains(pool.probe(k))
                &&& forall|j: int| from <= j < k ==> busy.contains(#[trigger] pool.probe(j))
            },
            None => forall|j: int|
                from <= j <= pool.capacity() ==> busy.contains(#[trigger] pool.probe(j)),
        },
    decreases pool.capacity() - from + 1,
{
    if from <= pool.capacity() && busy.contains(pool.probe(from)) {
        lemma_scan_meaning(pool, busy, from + 1);
    }
}

/// A search that has met only busy slots so far ends as the rest of it ends.
pub proof fn lemma_scan_skips_busy<M>(pool: PoolState<M>, busy: Set<int>, k: int)
    requires
        1 <= k <= pool.capacity() + 1,
        forall|j: int| 1 <= j < k ==> busy.contains(#[trigger] pool.probe(j)),
    ensures
        pool.scan(busy, 1) == pool.scan(busy, k),
    decreases k,
{
    if k > 1 {
        lemma_scan_skips_busy(pool, busy, k - 1);
        assert(busy.contains(pool.probe(k - 1)));
    }
}

/// If exactly the slots before the `k`-th probe are busy, the search stops
/// at the `k`-th probe.
pub proof fn lemma_search_stops_at<M>(pool: PoolState<M>, k: int)
    requires
        pool.wf(),
        1 <= k <= pool.capacity(),
    ensures
        pool.probes_needed(pool.met_before(k)) == Some(k),
{
    let busy = pool.met_before(k);
    assert forall|j: int| 1 <= j < k implies busy.contains(#[trigger] pool.probe(j)) by {
        lemma_ring_at_unfold(pool.cursor, j, pool.capacity());
        lemma_ring_distance_of_walk(pool.cursor, j, pool.capacity());
    }
    lemma_scan_skips_busy(pool, busy, k);
    lemma_ring_distance_of_walk(pool.cursor, k, pool.capacity());
}

/// If every slot is busy, the search finds nothing.
pub proof fn lemma_search_exhausted<M>(pool: PoolState<M>)
    requires
        pool.wf(),
    ensures
        pool.probes_needed(pool.met_before(pool.capacity() + 1)) is None,
{
    let busy = pool.met_before(pool.capacity() + 1);
    assert forall|j: int| 1 <= j < pool.capacity() + 1 implies busy.contains(
        #[trigger] pool.probe(j),
    ) by {
        lemma_ring_at_unfold(pool.cursor, j, pool.capacity());
        lemma_ring_distance_of_walk(pool.cursor, j, pool.capacity());
    }
    lemma_scan_skips_busy(pool, busy, pool.capacity() + 1);
}

/// An offer leaves a well-formed pool well-formed and of the same size.
pub proof fn lemma_offer_keeps_shape<M>(pool: PoolState<M>, busy: Set<int>, value: M)
    requires
        pool.wf(),
    ensures
        pool.offer(busy, value).wf(),
        pool.offer(busy, value).capacity() == pool.capacity(),
{
    lemma_scan_meaning(pool, busy, 1);
    if let Some(k) = pool.probes_needed(busy) {
        lemma_ring_at_unfold(pool.cursor, k, pool.capacity());
    }
}

} // verus!
