//! Handles that may be sent to other threads and used there at the same
//! time.
//!
//! The handles of one value share an atomically counted cell, behind a lock,
//! that holds the value's block. Each operation holds the lock from reading
//! the block to writing it back, so it is one indivisible step: of two takes
//! that race, one finds the block occupied and the other finds it empty.
//! No code of the value's type runs while the lock is held.
//!
//! The cell itself never destroys what it holds. The block's counter alone
//! decides when the value goes, so every handle has to end in
//! [`SharedTakeOnce::take`] or [`SharedTakeOnce::release`]. A handle that is
//! merely dropped keeps its share for good, and a value that was not taken
//! by then is never destroyed.
//!
//! What a handle finds in the cell depends on what the other handles did
//! before, which no contract of a single call can speak of. The contracts
//! here say what holds whatever was found; what each operation does with
//! what it finds is stated exactly by [`on_clone`], [`on_take`] and
//! [`on_release`], and what follows for all handles together is proved in
//! [`crate::history`].

use std::sync::Arc;
use vstd::prelude::*;
use vstd::rwlock::RwLock;
use crate::cell::{on_clone, on_release, on_take, Inner, Lodged};

verus! {

/// A handle to a shared value that can be taken once, by any thread.
#[must_use]
pub struct SharedTakeOnce<T> {
    shared: Arc<RwLock<Option<Inner<T>>, Lodged<T>>>,
}

impl<T> SharedTakeOnce<T> {
    /// The value that the handle's block was made for.
    pub closed spec fn value(&self) -> T {
        self.shared.pred().value@
    }

    /// Puts `value` into a new block, with the counter at one, and returns
    /// the block's only handle.
    pub fn new(value: T) -> (handle: Self)
        ensures
            handle.value() == value,
    {
        let ghost lodged = Lodged { value: Ghost(value) };
        let block = Inner::new(value);
        SharedTakeOnce { shared: Arc::new(RwLock::new(Some(block), Ghost(lodged))) }
    }

    /// Uses the handle up and hands out the value if no handle has taken it
    /// before. Whatever the other handles did, the only value that can come
    /// out is the one the block was made for.
    pub fn take(self) -> (taken: Option<T>)
        ensures
            taken matches Some(value) ==> value == self.value(),
    {
        let (found, guard) = self.shared.acquire_write();
        let (back, taken) = on_take(found);
        guard.release_write(back);
        taken
    }

    /// Uses the handle up without taking. If this was the last handle and
    /// the value was never taken, the value is destroyed here, after the
    /// lock has been given back.
    pub fn release(self) {
        let (found, guard) = self.shared.acquire_write();
        let (back, _doomed) = on_release(found);
        guard.release_write(back);
    }
}

impl<T> Clone for SharedTakeOnce<T> {
    /// Another handle to the same block. The block counts it; the value is
    /// not touched.
    fn clone(&self) -> (handle: Self)
        ensures
            handle == *self,
    {
        let (found, guard) = self.shared.acquire_write();
        let back = on_clone(found);
        guard.release_write(back);
        SharedTakeOnce { shared: self.shared.clone() }
    }
}

} // verus!
