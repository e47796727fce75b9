//! The shared-ownership primitives that the cell is built from.
//!
//! Nothing in this file is proved. Each item says what the verifier is told
//! about code that lives in `std` or in `crossbeam`.
//!
//! The published pointer is a cell that other threads read while the writer
//! stores into it, so the verifier cannot treat what it holds as part of
//! its value. What the writer stored there last is kept in a record beside
//! the cell instead; only the functions here that store into the cell write
//! that record.

use vstd::prelude::*;
use std::sync::Arc;
use crossbeam::atomic::ArcCell;
use crate::reader::LatestReader;

verus! {

/// `crossbeam::atomic::ArcCell`: a cell that holds one `Arc` and lets any
/// thread replace or copy it atomically. The verifier carries a cell around
/// as an opaque value and knows nothing of what it holds.
#[verifier::external_type_specification]
#[verifier::external_body]
#[verifier::reject_recursive_types(T)]
pub struct ExArcCell<T>(ArcCell<T>);

/// `ArcCell::get` hands out another reference to what the cell holds at
/// that moment. Another thread may have replaced it since this thread last
/// looked, so nothing is claimed of the result.
pub assume_specification<T>[ ArcCell::<T>::get ](cell: &ArcCell<T>) -> (current: Arc<T>)
;

/// `Arc::get_mut`: a mutable reference to the value behind `slot`, given
/// only while no other `Arc` or `Weak` points to the same allocation.
/// Whether that is so depends on what the other holders do, so the contract
/// does not say which of the two happens. It says that the reference, if
/// given, starts at the value of `slot` and that `slot` ends with whatever
/// is written through it, and that `slot` is unchanged if none is given.
/// The call compares two counters and does not unwind.
#[verifier::external_body]
pub(crate) fn exclusive<M>(slot: &mut Arc<M>) -> (r: Option<&mut M>)
    ensures
        match r {
            Some(place) => *place == **old(slot) && **final(slot) == *final(place),
            None => *final(slot) == *old(slot),
        },
    no_unwind
{
    Arc::get_mut(slot)
}

/// The published pointer, together with a record of the value that it was
/// given last.
///
/// The cell is shared with the readers, who only ever copy what it holds.
/// The record is ghost state: it is written by the two functions below that
/// store into the cell and by nothing else, so it says what the cell holds
/// for as long as this handle is the only one that stores.
#[verifier::reject_recursive_types(M)]
pub struct Published<M> {
    cell: Arc<ArcCell<M>>,
    given: Ghost<M>,
}

impl<M> Published<M> {
    /// The value behind the slot that the pointer was given last: what a
    /// reader that looks now is shown.
    pub closed spec fn shown(&self) -> M {
        self.given@
    }
}

/// `ArcCell::new`, inside a new `Arc`: a pointer that holds `first`. The
/// record says so.
#[verifier::external_body]
pub(crate) fn publish_first<M>(first: Arc<M>) -> (pointer: Published<M>)
    ensures
        pointer.shown() == *first,
{
    Published { given: Ghost(*first), cell: Arc::new(ArcCell::new(first)) }
}

/// `ArcCell::set`: stores `slot` in the pointer and hands back what it held
/// before. The record says that the pointer now holds `slot`. The call
/// swaps one word and does not unwind. Nothing is claimed of what comes
/// back.
#[verifier::external_body]
pub(crate) fn publish<M>(pointer: &mut Published<M>, slot: Arc<M>) -> (previous: Arc<M>)
    ensures
        final(pointer).shown() == *slot,
    no_unwind
{
    pointer.given = Ghost(*slot);
    pointer.cell.set(slot)
}

/// `Arc::downgrade`: a reader whose link points to the pointer's cell
/// without owning it. Nothing is claimed of the result.
#[verifier::external_body]
pub(crate) fn downgrade<M: Default + Clone>(pointer: &Published<M>) -> (reader: LatestReader<M>) {
    LatestReader { link: Arc::downgrade(&pointer.cell) }
}

} // verus!
