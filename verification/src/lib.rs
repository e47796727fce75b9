//! A single-writer, multi-reader cell that always holds the latest value.
//!
//! One [`Latest`] publishes values; any number of [`LatestReader`]s fetch
//! the most recent one whenever they like. Nobody takes a lock: the writer
//! keeps a small pool of reference-counted slots, writes each new value into
//! a slot that nobody else holds, and then swaps one shared pointer to it.
//! Readers that are slower than the writer skip values; they never see an
//! older value after a newer one.
//!
//! `Latest::set` searches the pool once. If every slot is held, it hands
//! the value back instead of waiting; a caller that wants to wait calls it
//! again. A pool with at least two slots more than readers hold at any one
//! time always has a free slot.
//!
//! What is proved, and of what:
//!
//! - [`pool`] describes the writer's pool as a mathematical value and says
//!   what one `set` does to it, given the slots that were busy.
//! - [`writer`] proves that `Latest` does to its pool what the model says,
//!   for whichever slots turned out to be busy, and that the published
//!   pointer is given the slot that the model calls published.
//! - [`guarantees`] proves what follows for every pool: the last value
//!   wins, reads follow the order of publication, a free slot is found
//!   within one turn, and a slot that somebody holds is never written.
//! - [`shared`] and [`reader`] hold what is taken on trust: the behaviour of
//!   `Arc`, `Weak` and `crossbeam::atomic::ArcCell`. The verifier cannot see
//!   who else holds a slot, nor tie what a reader finds in the published
//!   pointer to what the writer stored there, so nothing is proved of what
//!   a reader gets beyond how it is copied out.

pub mod guarantees;
pub mod pool;
pub mod reader;
pub mod ring;
pub mod shared;
pub mod writer;

pub use reader::LatestReader;
pub use writer::ConstructionError;
pub use writer::Latest;
