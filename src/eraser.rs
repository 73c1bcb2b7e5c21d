//! The concurrency-contract eraser's value holder.
//!
//! The store contract asks that every future and stream it hands out may be
//! sent across threads and shared between them. The backend's futures are
//! not, and need not be: the host runs every task on one thread, one at a
//! time. `ForceSend` is where that one environmental fact is asserted: the
//! host side marks a value held in it as sendable and shareable, and adds no
//! behaviour of its own. Holding a value in it is sound only on a
//! single-threaded, cooperatively scheduled host; on any host that truly runs
//! threads, using it is a correctness violation. Each value crosses the store
//! contract's boundary through it once, at the outermost layer.
use vstd::prelude::*;

verus! {

/// A value asserted to be sendable and shareable across threads because the
/// host never runs a second thread. It only holds the value.
pub struct ForceSend<T> {
    pub item: T,
}

impl<T> ForceSend<T> {
    /// Holds `item`, unchanged.
    pub fn new(item: T) -> (r: ForceSend<T>)
        ensures
            r.item == item,
    {
        ForceSend { item }
    }

    /// Gives the held value back, unchanged.
    pub fn into_inner(self) -> (r: T)
        ensures
            r == self.item,
    {
        self.item
    }
}

} // verus!
