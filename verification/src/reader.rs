//! The reader: a handle that looks up the latest value on demand.

use vstd::prelude::*;
use std::sync::Arc;
use std::sync::Weak;
use crossbeam::atomic::ArcCell;

verus! {

/// A handle through which the latest published value can be fetched.
///
/// It keeps only a weak link to the published pointer, so it neither keeps
/// the writer's data alive nor holds any slot between two calls. The link
/// is a `std::sync::Weak`, which the verifier cannot look into: a reader is
/// an opaque value to it.
#[verifier::external_body]
#[verifier::reject_recursive_types(M)]
#[derive(Debug)]
pub struct LatestReader<M: Default + Clone> {
    pub(crate) link: Weak<ArcCell<M>>,
}

/// `Weak::upgrade`: the published pointer, if the writer that owns it is
/// still there. That depends on when the writer is dropped, so nothing is
/// claimed of the result.
#[verifier::external_body]
fn upgrade<M: Default + Clone>(reader: &LatestReader<M>) -> (pointer: Option<Arc<ArcCell<M>>>) {
    reader.link.upgrade()
}

/// `Weak::clone`: a second reader with a link to the same published
/// pointer. Nothing is claimed of the result.
#[verifier::external_body]
fn duplicate<M: Default + Clone>(reader: &LatestReader<M>) -> (twin: LatestReader<M>) {
    LatestReader { link: reader.link.clone() }
}

/// The value behind a held slot, copied out; nothing if no slot is held.
pub fn copy_out<M: Clone>(held: Option<Arc<M>>) -> (r: Option<M>)
    ensures
        held is None <==> r is None,
        held matches Some(slot) ==> cloned(*slot, r.unwrap()),
{
    match held {
        Some(slot) => Some((*slot).clone()),
        None => None,
    }
}

/// Takes hold of what the published pointer refers to, if the link to it
/// still resolves; with no link there is nothing to hold.
pub fn hold<M>(link: Option<Arc<ArcCell<M>>>) -> (held: Option<Arc<M>>)
    ensures
        link is None <==> held is None,
{
    match link {
        Some(pointer) => Some(pointer.get()),
        None => None,
    }
}

impl<M: Default + Clone> LatestReader<M> {
    /// Takes hold of the slot that is published right now, or returns `None`
    /// once the writer is gone.
    ///
    /// For as long as the result is kept, the writer cannot reuse that slot.
    pub fn snapshot(&self) -> (held: Option<Arc<M>>) {
        hold(upgrade(self))
    }

    /// A copy of the latest published value, or `None` once the writer is
    /// gone.
    pub fn get(&self) -> (r: Option<M>) {
        copy_out(self.snapshot())
    }
}

impl<M: Default + Clone> Clone for LatestReader<M> {
    /// An independent reader of the same stream of values.
    fn clone(&self) -> (twin: Self) {
        duplicate(self)
    }
}

} // verus!
