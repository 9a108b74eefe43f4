//! A shared box whose value can be taken once.
//!
//! Any number of handles may refer to one heap block that holds a value.
//! The first handle to call `take` receives the value; every other handle
//! finds the block empty from then on. One signed integer in the block does
//! two jobs: its sign says whether the value is still there, and its
//! magnitude counts the handles.
//!
//! * [`model`] is the block as mathematics: the integer, the slot, and the
//!   three transitions (clone, take, release).
//! * [`cell`] is the block as data, with each transition proved against the
//!   model.
//! * [`history`] follows a block through any sequence of operations and
//!   proves what holds of every such sequence: the counter always equals
//!   the number of live handles, the value is handed out at most once and
//!   leaves the block exactly once, and the block is reclaimed exactly when
//!   its last handle goes.
//! * [`non_sync`] and [`sync`] are the handles, for one thread and for many.
//!
//! A handle ends in `take` or in `release`. The handles have no destructor:
//! one that goes out of scope without either keeps its share of the block.

pub mod cell;
pub mod history;
pub mod model;
pub mod non_sync;
pub mod sync;
