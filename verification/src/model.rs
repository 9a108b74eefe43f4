//! The shared block as a mathematical state machine.
//!
//! A block is an integer `state` and a `slot`. While `state` is positive the
//! slot holds the value and `state` handles refer to the block; while it is
//! negative the value has left and `-state` handles remain. Zero never
//! occurs: a block without handles no longer exists.
//!
//! | state      | event   | state after | block reclaimed | value destroyed |
//! |------------|---------|-------------|-----------------|-----------------|
//! | `n >= 1`   | clone   | `n + 1`     | no              | no              |
//! | `n <= -1`  | clone   | `n - 1`     | no              | no              |
//! | `n >= 1`   | extract | `-n`        | no              | no, it moves out|
//! | `n <= -1`  | extract | `n`         | no              | no              |
//! | `n > 1`    | release | `n - 1`     | no              | no              |
//! | `n < -1`   | release | `n + 1`     | no              | no              |
//! | `1`        | release | none        | yes             | yes             |
//! | `-1`       | release | none        | yes             | no              |
//!
//! A handle's `take` is an extraction followed by the release of that
//! handle.

use vstd::prelude::*;

verus! {

/// What a block holds, seen as plain mathematics.
pub struct CellView<T> {
    /// Positive handle count while occupied, negative handle count once empty.
    pub state: int,
    /// The value, until it is taken.
    pub slot: Option<T>,
}

/// The sign of an integer: `1`, `-1`, or `0` for zero.
pub open spec fn signum(n: int) -> int {
    if n > 0 {
        1
    } else if n < 0 {
        -1
    } else {
        0
    }
}

impl<T> CellView<T> {
    /// The counter is not zero, and the slot is filled exactly while the
    /// counter is positive.
    pub open spec fn wf(self) -> bool {
        &&& self.state != 0
        &&& self.slot is Some <==> self.state > 0
    }

    /// Whether the value is still in the block.
    pub open spec fn occupied(self) -> bool {
        self.state > 0
    }

    /// How many handles refer to the block.
    pub open spec fn handles(self) -> nat {
        if self.state >= 0 {
            self.state as nat
        } else {
            (-self.state) as nat
        }
    }

    /// A new block: one handle, value present.
    pub open spec fn fresh(value: T) -> Self {
        CellView { state: 1, slot: Some(value) }
    }

    /// The block after one more handle was made: the counter moves one step
    /// away from zero, the slot is untouched.
    pub open spec fn cloned(self) -> Self {
        CellView { state: self.state + signum(self.state), slot: self.slot }
    }

    /// What an extraction hands out: the value if the block is occupied,
    /// nothing otherwise.
    pub open spec fn yielded(self) -> Option<T> {
        if self.state > 0 {
            self.slot
        } else {
            None
        }
    }

    /// The block after an extraction: an occupied block turns empty with the
    /// same number of handles, an empty block stays as it is.
    pub open spec fn extracted(self) -> Self {
        if self.state > 0 {
            CellView { state: -self.state, slot: None }
        } else {
            self
        }
    }

    /// Whether exactly one handle refers to the block.
    pub open spec fn sole(self) -> bool {
        self.state == 1 || self.state == -1
    }

    /// The block after one handle let go, or `None` if that was the last
    /// handle and the block is reclaimed.
    pub open spec fn released(self) -> Option<Self> {
        if self.sole() {
            None
        } else {
            Some(CellView { state: self.state - signum(self.state), slot: self.slot })
        }
    }

    /// The value that is destroyed together with the block when a handle
    /// lets go: the slot's content if this was the last handle of an
    /// occupied block, nothing in every other case.
    pub open spec fn destroyed(self) -> Option<T> {
        if self.state == 1 {
            self.slot
        } else {
            None
        }
    }

    /// Cloning a handle, given what its shared cell holds: a block gains a
    /// handle, a vacant cell stays vacant.
    pub open spec fn on_clone(found: Option<Self>) -> Option<Self> {
        match found {
            Some(block) => Some(block.cloned()),
            None => None,
        }
    }

    /// Taking through a handle, given what its shared cell holds. The first
    /// component is what the cell holds afterwards, the second what the
    /// caller receives. The handle is used up: after the extraction it lets
    /// go of the block.
    pub open spec fn on_take(found: Option<Self>) -> (Option<Self>, Option<T>) {
        match found {
            Some(block) => (block.extracted().released(), block.yielded()),
            None => (None, None),
        }
    }

    /// Letting a handle go, given what its shared cell holds. The first
    /// component is what the cell holds afterwards, the second the value
    /// that is destroyed along with the block, if any.
    pub open spec fn on_release(found: Option<Self>) -> (Option<Self>, Option<T>) {
        match found {
            Some(block) => (block.released(), block.destroyed()),
            None => (None, None),
        }
    }
}

/// A clone keeps the block's class. The block stays well formed, gains
/// exactly one handle, and keeps its slot: an occupied block stays occupied
/// and an empty one stays empty. A take after the clone therefore receives
/// exactly what a take before the clone would have received, through
/// whichever of the two handles it is made; the handle that did not take
/// then finds the block still in the cell, and empty.
pub proof fn lemma_clone_keeps_class<T>(block: CellView<T>)
    requires
        block.wf(),
    ensures
        block.cloned().wf(),
        block.cloned().handles() == block.handles() + 1,
        block.cloned().occupied() == block.occupied(),
        block.cloned().slot == block.slot,
        CellView::on_take(Some(block.cloned())).1 == CellView::on_take(Some(block)).1,
        CellView::on_take(Some(block.cloned())).0 matches Some(rest) && !rest.occupied()
            && rest.handles() == block.handles(),
{
}

/// The three transitions keep a block well formed, move the handle count
/// by exactly one, and never fill an empty slot.
pub proof fn lemma_transitions_keep_wf<T>(block: CellView<T>)
    requires
        block.wf(),
    ensures
        block.cloned().wf(),
        block.extracted().wf(),
        block.extracted().handles() == block.handles(),
        !block.extracted().occupied(),
        block.released() matches Some(rest) ==> rest.wf() && rest.handles() + 1 == block.handles()
            && rest.slot == block.slot,
        block.released() is None <==> block.handles() == 1,
        block.destroyed() is Some <==> block.occupied() && block.handles() == 1,
{
}

} // verus!
