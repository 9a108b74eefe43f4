//! The shared block as data: the counter, the slot, and the transitions
//! that the handles perform on them.

use vstd::predicate::Predicate;
use vstd::prelude::*;
use vstd::rwlock::RwLockPredicate;
use crate::model::CellView;

verus! {

/// The block that the handles of one value share.
pub struct Inner<T> {
    /// Positive handle count while occupied, negative handle count once empty.
    ref_count: isize,
    value: Option<T>,
}

impl<T> View for Inner<T> {
    type V = CellView<T>;

    closed spec fn view(&self) -> CellView<T> {
        CellView { state: self.ref_count as int, slot: self.value }
    }
}

impl<T> Inner<T> {
    /// The block is well formed as a model, and its counter can be negated.
    /// Every block is: the operations below keep it so.
    #[verifier::type_invariant]
    pub open spec fn wf(&self) -> bool {
        &&& self@.wf()
        &&& isize::MIN < self@.state <= isize::MAX
    }

    /// A block for `value`, referred to by one handle.
    pub fn new(value: T) -> (cell: Self)
        ensures
            cell@ == CellView::fresh(value),
            cell.wf(),
    {
        Inner { ref_count: 1, value: Some(value) }
    }

    /// A block with a given counter and slot, if the two fit together: the
    /// counter is neither zero nor the most negative number, and the slot
    /// is filled exactly if the counter is positive.
    pub fn from_parts(ref_count: isize, value: Option<T>) -> (cell: Option<Self>)
        ensures
            cell is Some <==> {
                &&& (CellView { state: ref_count as int, slot: value }).wf()
                &&& ref_count > isize::MIN
            },
            cell matches Some(block) ==> {
                &&& block@ == (CellView { state: ref_count as int, slot: value })
                &&& block.wf()
            },
    {
        if ref_count == 0 || ref_count == isize::MIN || value.is_some() != (ref_count > 0) {
            None
        } else {
            Some(Inner { ref_count, value })
        }
    }

    /// Whether the value is still in the block.
    pub fn is_occupied(&self) -> (occupied: bool)
        ensures
            occupied == self@.occupied(),
    {
        self.ref_count > 0
    }

    /// The counter as it stands: sign and magnitude together.
    pub fn ref_count(&self) -> (state: isize)
        ensures
            state == self@.state,
    {
        self.ref_count
    }

    /// Whether the counter has room for one more handle.
    pub fn can_retain(&self) -> (room: bool)
        ensures
            room == (self@.handles() < isize::MAX),
    {
        proof {
            use_type_invariant(self);
        }
        self.ref_count < isize::MAX && self.ref_count > isize::MIN + 1
    }

    /// Counts one more handle. The counter moves away from zero, so the
    /// block stays occupied or stays empty.
    pub fn retain(&mut self)
        requires
            old(self)@.handles() < isize::MAX,
        ensures
            final(self)@ == old(self)@.cloned(),
            final(self).wf(),
    {
        proof {
            use_type_invariant(&*self);
        }
        if self.ref_count > 0 {
            self.ref_count = self.ref_count + 1;
        } else {
            self.ref_count = self.ref_count - 1;
        }
    }

    /// Moves the value out if it is still there and marks the block empty
    /// by negating the counter. On an empty block nothing changes.
    pub fn take(&mut self) -> (taken: Option<T>)
        ensures
            taken == old(self)@.yielded(),
            final(self)@ == old(self)@.extracted(),
            final(self).wf(),
    {
        proof {
            use_type_invariant(&*self);
        }
        if self.ref_count > 0 {
            let mut block = Inner { ref_count: -self.ref_count, value: None };
            std::mem::swap(self, &mut block);
            block.value
        } else {
            None
        }
    }

    /// Gives up one handle's share. The first component is the block that
    /// remains, or `None` if this was the last handle; the second is the
    /// value that goes down with the block, present only when the last
    /// handle of an occupied block lets go.
    pub fn release(self) -> (out: (Option<Self>, Option<T>))
        ensures
            model_of(out.0) == self@.released(),
            out.1 == self@.destroyed(),
            sound(out.0),
    {
        proof {
            use_type_invariant(&self);
        }
        let Inner { ref_count, value } = self;
        if ref_count > 1 {
            (Some(Inner { ref_count: ref_count - 1, value }), None)
        } else if ref_count < -1 {
            (Some(Inner { ref_count: ref_count + 1, value }), None)
        } else {
            (None, value)
        }
    }
}

/// The model of what a shared cell holds: a block, or nothing once the
/// block has been reclaimed.
pub open spec fn model_of<T>(found: Option<Inner<T>>) -> Option<CellView<T>> {
    match found {
        Some(block) => Some(block@),
        None => None,
    }
}

/// Whatever block the cell holds is well formed.
pub open spec fn sound<T>(found: Option<Inner<T>>) -> bool {
    found matches Some(block) ==> block.wf()
}

/// The rule for the shared cell of one value: it holds nothing, or a
/// well-formed block whose slot, while filled, holds that value.
pub struct Lodged<T> {
    pub value: Ghost<T>,
}

impl<T> Lodged<T> {
    /// Whether `found` may stand in the cell.
    pub open spec fn admits(self, found: Option<Inner<T>>) -> bool {
        found matches Some(block) ==> {
            &&& block.wf()
            &&& block@.slot matches Some(held) ==> held == self.value@
        }
    }
}

impl<T> Predicate<Option<Inner<T>>> for Lodged<T> {
    open spec fn predicate(&self, found: Option<Inner<T>>) -> bool {
        self.admits(found)
    }
}

impl<T> RwLockPredicate<Option<Inner<T>>> for Lodged<T> {
    open spec fn inv(self, found: Option<Inner<T>>) -> bool {
        self.admits(found)
    }
}

/// The cell holds a block whose counter has no room for another handle.
pub open spec fn at_limit<T>(found: Option<Inner<T>>) -> bool {
    found matches Some(block) && block@.handles() >= isize::MAX
}

/// What a cell holds after one of its handles was cloned, given what it
/// held before. A block gains a handle; a vacant cell stays vacant. A block
/// whose counter is at the machine's limit is handed back unchanged: the
/// new handle is then not counted.
pub fn on_clone<T>(found: Option<Inner<T>>) -> (back: Option<Inner<T>>)
    ensures
        sound(back),
        !at_limit(found) ==> model_of(back) == CellView::on_clone(model_of(found)),
        at_limit(found) ==> back == found,
{
    match found {
        Some(block) => {
            proof {
                use_type_invariant(&block);
            }
            let mut block = block;
            if block.can_retain() {
                block.retain();
            }
            Some(block)
        },
        None => None,
    }
}

/// What a `take` through a handle does, given what the cell held: the first
/// component goes back into the cell, the second to the caller. The value
/// leaves an occupied block, which turns empty; then the handle gives up its
/// share, and the block with it if it was the last.
pub fn on_take<T>(found: Option<Inner<T>>) -> (out: (Option<Inner<T>>, Option<T>))
    ensures
        sound(out.0),
        (model_of(out.0), out.1) == CellView::on_take(model_of(found)),
{
    match found {
        Some(block) => {
            let mut block = block;
            let taken = block.take();
            let (rest, _) = block.release();
            (rest, taken)
        },
        None => (None, None),
    }
}

/// What letting a handle go does, given what the cell held: the first
/// component goes back into the cell, the second is the value to destroy,
/// present only when the last handle of an occupied block lets go.
pub fn on_release<T>(found: Option<Inner<T>>) -> (out: (Option<Inner<T>>, Option<T>))
    ensures
        sound(out.0),
        (model_of(out.0), out.1) == CellView::on_release(model_of(found)),
{
    match found {
        Some(block) => block.release(),
        None => (None, None),
    }
}

} // verus!
