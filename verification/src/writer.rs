//! The writer: owner of the pool and of the published pointer.

use vstd::prelude::*;
use std::sync::Arc;
use crate::pool::lemma_search_exhausted;
use crate::pool::lemma_search_stops_at;
use crate::pool::PoolState;
use crate::reader::LatestReader;
use crate::ring::lemma_ring_at_step;
use crate::ring::lemma_ring_at_unfold;
use crate::ring::next_index;
use crate::shared::downgrade;
use crate::shared::exclusive;
use crate::shared::publish;
use crate::shared::publish_first;
use crate::shared::Published;

verus! {

/// Why a writer could not be built.
#[derive(Debug, Clone, Copy, PartialEq, Eq)]
pub enum ConstructionError {
    /// Fewer than two slots were asked for.
    InvalidCapacity,
}

/// Writes `value` to `target` if there is one, and gives it back if not.
pub fn store<M>(target: Option<&mut M>, value: M) -> (r: Result<(), M>)
    ensures
        match target {
            Some(place) => r is Ok && *final(place) == value,
            None => r == Err::<(), M>(value),
        },
    no_unwind
{
    match target {
        Some(place) => {
            *place = value;
            Ok(())
        },
        None => Err(value),
    }
}

/// Tries to take the slot at `idx` for `msg`: writes it there and hands the
/// slot to the published pointer, if nobody else holds it. Otherwise
/// nothing changes and `msg` comes back.
fn claim<M>(
    pool: &mut Vec<Arc<M>>,
    pointer: &mut Published<M>,
    published: &mut Ghost<int>,
    idx: usize,
    msg: M,
) -> (r: Result<(), M>)
    requires
        idx < old(pool)@.len(),
    ensures
        final(pool)@.len() == old(pool)@.len(),
        forall|i: int|
            0 <= i < old(pool)@.len() && i != idx ==> final(pool)@[i] == old(pool)@[i],
        match r {
            Ok(()) => {
                &&& *final(pool)@[idx as int] == msg
                &&& final(pointer).shown() == msg
                &&& final(published)@ == idx
            },
            Err(back) => {
                &&& back == msg
                &&& final(pool)@[idx as int] == old(pool)@[idx as int]
                &&& final(pointer).shown() == old(pointer).shown()
                &&& final(published)@ == old(published)@
            },
        },
    no_unwind
{
    match store(exclusive(&mut pool[idx]), msg) {
        Ok(()) => {
            let shown = pool[idx].clone();
            let _previous = publish(pointer, shown);
            *published = Ghost(idx as int);
            Ok(())
        },
        Err(back) => Err(back),
    }
}

/// The writing end: the one handle that can publish values.
///
/// It owns a fixed pool of slots and reuses them in turn, so that publishing
/// allocates nothing. A slot is only ever written while nobody else holds
/// it.
///
/// The view of a writer is the [`PoolState`] it stands for. The verifier
/// cannot look into the published pointer; what it holds is known from the
/// record that is kept whenever something is stored there (see
/// [`Published`]), and [`Latest::shown`] reads that record. A writer keeps
/// the two in step: the value that the pointer was given last is the value
/// in the slot that the view calls published.
#[verifier::reject_recursive_types(M)]
pub struct Latest<M: Default + Clone> {
    /// The slots, each shared with whoever holds a snapshot of it.
    pool: Vec<Arc<M>>,
    /// The published pointer, shared with the readers, and the record of
    /// what it was given last.
    pointer: Published<M>,
    /// Where the last search stopped.
    cursor: usize,
    /// The slot that was handed to `pointer` last.
    published: Ghost<int>,
}

impl<M: Default + Clone> View for Latest<M> {
    type V = PoolState<M>;

    closed spec fn view(&self) -> PoolState<M> {
        PoolState {
            slots: Seq::new(self.pool@.len(), |i: int| *self.pool@[i]),
            cursor: self.cursor as int,
            published: self.published@,
        }
    }
}

impl<M: Default + Clone> Latest<M> {
    #[verifier::type_invariant]
    spec fn well_formed(&self) -> bool {
        self@.wf() && self.pointer.shown() == self@.current()
    }

    /// The value that the published pointer was given last: what a reader
    /// that looks now is shown.
    pub closed spec fn shown(&self) -> M {
        self.pointer.shown()
    }

    /// A writer over a pool of `cap` slots, each holding a default value,
    /// with the first slot handed to the published pointer. A pool of fewer
    /// than two slots is refused.
    pub fn new(cap: usize) -> (r: Result<Latest<M>, ConstructionError>)
        ensures
            cap < 2 ==> r == Err::<Latest<M>, ConstructionError>(
                ConstructionError::InvalidCapacity,
            ),
            cap >= 2 ==> r is Ok && r.unwrap()@.fresh(cap as int) && r.unwrap()@.wf(),
            cap >= 2 ==> r.unwrap().shown() == r.unwrap()@.current(),
    {
        if cap < 2 {
            return Err(ConstructionError::InvalidCapacity);
        }
        let mut pool: Vec<Arc<M>> = Vec::with_capacity(cap);
        while pool.len() < cap
            invariant
                pool@.len() <= cap,
                forall|i: int| 0 <= i < pool@.len() ==> M::default.ensures((), *#[trigger] pool@[i]),
            decreases cap - pool@.len(),
        {
            pool.push(Arc::new(M::default()));
        }
        let first = pool[0].clone();
        let pointer = publish_first(first);
        Ok(Latest { pool, pointer, cursor: 1, published: Ghost(0) })
    }

    /// A new reader of the values that this writer publishes.
    pub fn reader(&self) -> (reader: LatestReader<M>) {
        downgrade(&self.pointer)
    }

    /// Publishes `msg`, if a free slot is found within one turn of the pool.
    ///
    /// The search probes the slots after the cursor in ring order and claims
    /// the first one that nobody else holds. `msg` is written there, the
    /// cursor moves there, and the slot is handed to the published pointer.
    /// If every slot is busy, the pool and the pointer are left as they
    /// were and `msg` comes back.
    ///
    /// Which slots are busy is decided by the other holders, so the contract
    /// is stated for some set `busy` of slots: the outcome is what the model
    /// gives for that set.
    pub fn set(&mut self, msg: M) -> (r: Result<(), M>)
        ensures
            final(self)@.wf(),
            final(self)@.capacity() == old(self)@.capacity(),
            exists|busy: Set<int>|
                {
                    &&& final(self)@ == #[trigger] old(self)@.offer(busy, msg)
                    &&& r is Ok <==> old(self)@.first_free(busy) is Some
                },
            r is Ok ==> final(self)@.current() == msg,
            r matches Err(back) ==> back == msg && final(self)@ == old(self)@,
            final(self).shown() == final(self)@.current(),
            r is Ok ==> final(self).shown() == msg,
            r is Err ==> final(self).shown() == old(self).shown(),
    {
        proof {
            use_type_invariant(&*self);
        }
        let ghost before = self@;
        let cap = self.pool.len();
        let mut pending = msg;
        let mut idx = self.cursor;
        let mut probes: usize = 0;
        proof {
            lemma_ring_at_unfold(before.cursor, 0, before.capacity());
        }
        while probes < cap
            invariant
                self@ == before,
                before == old(self)@,
                self.pointer.shown() == before.current(),
                self.pointer.shown() == old(self).pointer.shown(),
                before.wf(),
                cap == before.capacity(),
                pending == msg,
                probes <= cap,
                idx == before.probe(probes as int),
            decreases cap - probes,
        {
            proof {
                lemma_ring_at_unfold(before.cursor, probes as int, before.capacity());
                lemma_ring_at_step(before.cursor, probes as int, before.capacity());
            }
            idx = next_index(idx, cap);
            probes = probes + 1;
            match claim(&mut self.pool, &mut self.pointer, &mut self.published, idx, pending) {
                Ok(()) => {
                    self.cursor = idx;
                    proof {
                        lemma_search_stops_at(before, probes as int);
                        assert(self@.slots =~= before.slots.update(idx as int, msg));
                        assert(self@ == before.offer(before.met_before(probes as int), msg));
                    }
                    return Ok(());
                },
                Err(back) => {
                    pending = back;
                    assert(self@.slots =~= before.slots);
                },
            }
        }
        proof {
            lemma_search_exhausted(before);
            assert(self@ == before.offer(before.met_before(cap + 1), msg));
        }
        Err(pending)
    }

    /// The number of slots in the pool.
    pub fn capacity(&self) -> (cap: usize)
        ensures
            cap == self@.capacity(),
            cap >= 2,
    {
        proof {
            use_type_invariant(self);
        }
        self.pool.len()
    }

    /// The slot at which the last search stopped.
    pub fn cursor(&self) -> (i: usize)
        ensures
            i == self@.cursor,
            i < self@.capacity(),
    {
        proof {
            use_type_invariant(self);
        }
        self.cursor
    }
}

} // verus!
