//! Index arithmetic on a ring of slots.
//!
//! The writer walks its pool as a ring: after the last slot comes the first
//! one again. Everything here is stated for a ring of `cap` slots numbered
//! `0..cap`.

use vstd::prelude::*;
use vstd::arithmetic::div_mod::lemma_mod_bound;
use vstd::arithmetic::div_mod::lemma_small_mod;
use vstd::arithmetic::div_mod::lemma_mod_sub_multiples_vanish;

verus! {

/// The slot reached from slot `from` after `steps` moves forward.
pub open spec fn ring_at(from: int, steps: int, cap: int) -> int {
    (from + steps) % cap
}

/// The slot that follows slot `i`.
pub open spec fn ring_next(i: int, cap: int) -> int {
    ring_at(i, 1, cap)
}

/// How many moves forward, at least one and at most `cap`, lead from slot
/// `from` to slot `to`. From a slot to itself it is a full turn.
pub open spec fn ring_distance(from: int, to: int, cap: int) -> int {
    if to > from {
        to - from
    } else {
        to - from + cap
    }
}

/// Within one turn the remainder is a single conditional subtraction.
pub proof fn lemma_ring_at_unfold(from: int, steps: int, cap: int)
    requires
        0 <= from < cap,
        0 <= steps <= cap,
    ensures
        ring_at(from, steps, cap) == if from + steps < cap {
            from + steps
        } else {
            from + steps - cap
        },
        0 <= ring_at(from, steps, cap) < cap,
{
    if from + steps < cap {
        lemma_small_mod((from + steps) as nat, cap as nat);
    } else {
        lemma_mod_sub_multiples_vanish(from + steps, cap);
        lemma_small_mod((from + steps - cap) as nat, cap as nat);
    }
}

/// One more move forward is the successor of where the walk stood.
pub proof fn lemma_ring_at_step(from: int, steps: int, cap: int)
    requires
        0 <= from < cap,
        0 <= steps < cap,
    ensures
        ring_at(from, steps + 1, cap) == ring_next(ring_at(from, steps, cap), cap),
{
    lemma_ring_at_unfold(from, steps, cap);
    lemma_ring_at_unfold(from, steps + 1, cap);
    lemma_ring_at_unfold(ring_at(from, steps, cap), 1, cap);
}

/// Every slot is reached within one turn, after `ring_distance` moves.
pub proof fn lemma_ring_reaches(from: int, to: int, cap: int)
    requires
        0 <= from < cap,
        0 <= to < cap,
    ensures
        1 <= ring_distance(from, to, cap) <= cap,
        ring_at(from, ring_distance(from, to, cap), cap) == to,
{
    lemma_ring_at_unfold(from, ring_distance(from, to, cap), cap);
}

/// A walk of `k` moves ends at distance `k` from where it began.
pub proof fn lemma_ring_distance_of_walk(from: int, k: int, cap: int)
    requires
        0 <= from < cap,
        1 <= k <= cap,
    ensures
        ring_distance(from, ring_at(from, k, cap), cap) == k,
{
    lemma_ring_at_unfold(from, k, cap);
}

/// The index that follows `i` on a ring of `cap` slots.
pub fn next_index(i: usize, cap: usize) -> (r: usize)
    requires
        cap > 0,
        i < usize::MAX,
    ensures
        r == ring_next(i as int, cap as int),
        r < cap,
        i < cap ==> r == if i + 1 == cap { 0 } else { i + 1 },
{
    proof {
        lemma_mod_bound(i + 1, cap as int);
        if i < cap {
            lemma_ring_at_unfold(i as int, 1, cap as int);
        }
    }
    (i + 1) % cap
}

} // verus!
