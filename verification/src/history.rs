//! Whole lives of a block: what holds after any sequence of operations.
//!
//! A history starts with a new block and its one handle. Each event is
//! performed by some live handle: it makes another handle, takes, or lets
//! go. The ledger follows the block through the history and records what
//! left it. The laws below hold of every history, whatever the order of
//! its events.

use vstd::prelude::*;
use crate::model::CellView;

verus! {

/// What one live handle can do.
pub enum Event {
    /// The handle is cloned: one more handle exists.
    Clone,
    /// The handle takes and is used up.
    Take,
    /// The handle lets go without taking and is used up.
    Release,
}

/// The state of a block together with a record of its past.
pub struct Ledger<T> {
    /// What the shared cell holds; `None` once the block is reclaimed.
    pub cell: Option<CellView<T>>,
    /// Handles made so far, the first one included.
    pub made: nat,
    /// Calls of take so far.
    pub takes: nat,
    /// Handles let go without taking so far.
    pub releases: nat,
    /// The values that takes handed out, in order.
    pub taken: Seq<T>,
    /// The values that were destroyed along with the block, in order.
    pub destroyed: Seq<T>,
    /// How often the block was reclaimed.
    pub reclaims: nat,
}

impl<T> Ledger<T> {
    /// A new block for `value` and its first handle.
    pub open spec fn start(value: T) -> Self {
        Ledger {
            cell: Some(CellView::fresh(value)),
            made: 1,
            takes: 0,
            releases: 0,
            taken: Seq::empty(),
            destroyed: Seq::empty(),
            reclaims: 0,
        }
    }

    /// Handles that exist: made and not yet used up.
    pub open spec fn live(self) -> int {
        self.made - self.takes - self.releases
    }

    /// One if the cell held a block before and holds none after, else zero.
    pub open spec fn reclaimed(before: Option<CellView<T>>, after: Option<CellView<T>>) -> nat {
        if before is Some && after is None {
            1
        } else {
            0
        }
    }

    /// The ledger after one event.
    pub open spec fn step(self, event: Event) -> Self {
        match event {
            Event::Clone => Ledger {
                cell: CellView::on_clone(self.cell),
                made: self.made + 1,
                ..self
            },
            Event::Take => {
                let (cell, got) = CellView::on_take(self.cell);
                Ledger {
                    cell,
                    takes: self.takes + 1,
                    taken: match got {
                        Some(value) => self.taken.push(value),
                        None => self.taken,
                    },
                    reclaims: self.reclaims + Self::reclaimed(self.cell, cell),
                    ..self
                }
            },
            Event::Release => {
                let (cell, doomed) = CellView::on_release(self.cell);
                Ledger {
                    cell,
                    releases: self.releases + 1,
                    destroyed: match doomed {
                        Some(value) => self.destroyed.push(value),
                        None => self.destroyed,
                    },
                    reclaims: self.reclaims + Self::reclaimed(self.cell, cell),
                    ..self
                }
            },
        }
    }

    /// The ledger after a whole history.
    pub open spec fn after(value: T, events: Seq<Event>) -> Self
        decreases events.len(),
    {
        if events.len() == 0 {
            Self::start(value)
        } else {
            Self::after(value, events.drop_last()).step(events.last())
        }
    }

    /// Every event of the history is performed by a handle that exists
    /// when the event happens.
    pub open spec fn feasible(value: T, events: Seq<Event>) -> bool
        decreases events.len(),
    {
        events.len() == 0 || {
            &&& Self::feasible(value, events.drop_last())
            &&& Self::after(value, events.drop_last()).live() >= 1
        }
    }

    /// The ledger fits a block that was made for `value`: the counter
    /// matches the live handles, the value has left at most one way, and
    /// the block is gone exactly when no handle is left.
    pub open spec fn coherent(self, value: T) -> bool {
        &&& self.taken.len() == (if self.takes == 0 { 0nat } else { 1nat })
        &&& self.taken.len() + self.destroyed.len() <= 1
        &&& self.taken.len() == 1 ==> self.taken[0] == value
        &&& self.destroyed.len() == 1 ==> self.destroyed[0] == value
        &&& match self.cell {
            Some(block) => {
                &&& block.wf()
                &&& block.handles() == self.live()
                &&& block.occupied() <==> self.taken.len() == 0
                &&& block.occupied() ==> block.slot == Some(value)
                &&& self.destroyed.len() == 0
                &&& self.reclaims == 0
            },
            None => {
                &&& self.live() == 0
                &&& self.taken.len() + self.destroyed.len() == 1
                &&& self.reclaims == 1
            },
        }
    }

    /// Whether the history holds no release: every handle that was used up
    /// was used up by a take.
    pub open spec fn only_takes(events: Seq<Event>) -> bool {
        forall|i: int| 0 <= i < events.len() ==> events[i] != Event::Release
    }
}

/// One event of a live handle keeps a coherent ledger coherent.
proof fn lemma_step_coherent<T>(ledger: Ledger<T>, value: T, event: Event)
    requires
        ledger.coherent(value),
        ledger.live() >= 1,
    ensures
        ledger.step(event).coherent(value),
{
}

/// After every feasible history the ledger is coherent.
pub proof fn lemma_feasible_coherent<T>(value: T, events: Seq<Event>)
    requires
        Ledger::feasible(value, events),
    ensures
        Ledger::after(value, events).coherent(value),
    decreases events.len(),
{
    if events.len() > 0 {
        lemma_feasible_coherent(value, events.drop_last());
        lemma_step_coherent(Ledger::after(value, events.drop_last()), value, events.last());
    }
}

/// The counter tells the truth. After any feasible history the cell holds a
/// block exactly while a handle is live; that block is well formed, so its
/// counter is not zero and its slot is filled exactly while the counter is
/// positive; and the counter's magnitude is the number of live handles.
pub proof fn lemma_counter_matches_handles<T>(value: T, events: Seq<Event>)
    requires
        Ledger::feasible(value, events),
    ensures
        Ledger::after(value, events).live() >= 0,
        Ledger::after(value, events).cell is Some <==> Ledger::after(value, events).live() >= 1,
        Ledger::after(value, events).cell matches Some(block) ==> {
            &&& block.wf()
            &&& block.handles() == Ledger::after(value, events).live()
        },
{
    lemma_feasible_coherent(value, events);
}

/// The value is taken at most once, and by the first take. After any
/// feasible history without a take nothing was handed out; after one with
/// takes, however many and in whatever order among the other events,
/// exactly one of them handed out a value, and it was the value that the
/// block was made for. Every other take returned nothing.
pub proof fn lemma_taken_once<T>(value: T, events: Seq<Event>)
    requires
        Ledger::feasible(value, events),
    ensures
        Ledger::after(value, events).takes == 0 ==> Ledger::after(value, events).taken
            == Seq::<T>::empty(),
        Ledger::after(value, events).takes >= 1 ==> Ledger::after(value, events).taken
            == seq![value],
{
    lemma_feasible_coherent(value, events);
    let ledger = Ledger::after(value, events);
    if ledger.takes >= 1 {
        assert(ledger.taken =~= seq![value]);
    }
}

/// A history without a release leaves the release count at zero.
proof fn lemma_only_takes_counts<T>(value: T, events: Seq<Event>)
    requires
        Ledger::<T>::only_takes(events),
    ensures
        Ledger::after(value, events).releases == 0,
        Ledger::after(value, events).destroyed == Seq::<T>::empty(),
    decreases events.len(),
{
    if events.len() > 0 {
        let earlier = events.drop_last();
        assert forall|i: int| 0 <= i < earlier.len() implies earlier[i] != Event::Release by {
            assert(earlier[i] == events[i]);
        }
        lemma_only_takes_counts(value, earlier);
    }
}

/// When every handle takes, one take wins. If `n` handles were made from one
/// block and each of them was used up by a take, in any order and however
/// the clones and takes were interleaved, then there were `n` takes, exactly
/// one of them returned the value, and the other `n - 1` returned nothing.
/// The block itself destroyed nothing.
pub proof fn lemma_all_take_one_wins<T>(value: T, events: Seq<Event>)
    requires
        Ledger::feasible(value, events),
        Ledger::<T>::only_takes(events),
        Ledger::after(value, events).live() == 0,
    ensures
        Ledger::after(value, events).takes == Ledger::after(value, events).made,
        Ledger::after(value, events).taken == seq![value],
        Ledger::after(value, events).destroyed == Seq::<T>::empty(),
{
    lemma_only_takes_counts(value, events);
    lemma_taken_once(value, events);
}

/// The value leaves the block exactly once. During any feasible history it
/// has left at most once, either into the hands of a caller of take or by
/// being destroyed with the block, never both and never twice. Once no
/// handle is left it has left exactly once, whether or not take was ever
/// called. What left is always the value that the block was made for, and
/// the block destroys it only if no take was ever called.
pub proof fn lemma_value_leaves_once<T>(value: T, events: Seq<Event>)
    requires
        Ledger::feasible(value, events),
    ensures
        Ledger::after(value, events).taken.len() + Ledger::after(value, events).destroyed.len()
            <= 1,
        Ledger::after(value, events).live() == 0 ==> Ledger::after(value, events).taken.len()
            + Ledger::after(value, events).destroyed.len() == 1,
        Ledger::after(value, events).live() >= 1 ==> Ledger::after(value, events).destroyed.len()
            == 0,
        Ledger::after(value, events).takes >= 1 ==> Ledger::after(value, events).destroyed.len()
            == 0,
        forall|i: int|
            0 <= i < Ledger::after(value, events).taken.len() ==> Ledger::after(
                value,
                events,
            ).taken[i] == value,
        forall|i: int|
            0 <= i < Ledger::after(value, events).destroyed.len() ==> Ledger::after(
                value,
                events,
            ).destroyed[i] == value,
{
    lemma_feasible_coherent(value, events);
}

/// The block is reclaimed once, with its last handle. After any feasible
/// history the block has been reclaimed exactly once if no handle is left,
/// and not at all while a handle is live, whether or not the value was
/// taken along the way.
pub proof fn lemma_reclaimed_with_last_handle<T>(value: T, events: Seq<Event>)
    requires
        Ledger::feasible(value, events),
    ensures
        Ledger::after(value, events).live() >= 1 ==> {
            &&& Ledger::after(value, events).reclaims == 0
            &&& Ledger::after(value, events).cell is Some
        },
        Ledger::after(value, events).live() == 0 ==> {
            &&& Ledger::after(value, events).reclaims == 1
            &&& Ledger::after(value, events).cell is None
        },
{
    lemma_feasible_coherent(value, events);
}

/// The history in which `clones` handles are cloned and then `takes` handles
/// take.
pub open spec fn clones_then_takes(clones: nat, takes: nat) -> Seq<Event> {
    Seq::new(
        clones + takes,
        |i: int|
            if i < clones {
                Event::Clone
            } else {
                Event::Take
            },
    )
}

/// Cloning and then taking is feasible as long as no more handles take than
/// exist, and only moves the counts of handles made and of takes.
proof fn lemma_clones_then_takes<T>(value: T, clones: nat, takes: nat)
    requires
        takes <= clones + 1,
    ensures
        Ledger::feasible(value, clones_then_takes(clones, takes)),
        Ledger::<T>::only_takes(clones_then_takes(clones, takes)),
        Ledger::after(value, clones_then_takes(clones, takes)).made == clones + 1,
        Ledger::after(value, clones_then_takes(clones, takes)).takes == takes,
        Ledger::after(value, clones_then_takes(clones, takes)).releases == 0,
    decreases clones + takes,
{
    let events = clones_then_takes(clones, takes);
    if takes > 0 {
        let earlier = clones_then_takes(clones, (takes - 1) as nat);
        assert(events.drop_last() =~= earlier);
        lemma_clones_then_takes(value, clones, (takes - 1) as nat);
    } else if clones > 0 {
        let earlier = clones_then_takes((clones - 1) as nat, 0);
        assert(events.drop_last() =~= earlier);
        lemma_clones_then_takes(value, (clones - 1) as nat, 0);
    }
}

/// Of `n` handles, one gets the value. Make a block, clone until `n`
/// handles exist, and let every one of them take: the `n` takes hand out the
/// value exactly once and nothing the other `n - 1` times, the block
/// destroys nothing, and with the last take it is reclaimed.
pub proof fn lemma_n_handles_one_value<T>(value: T, n: nat)
    requires
        n >= 1,
    ensures
        Ledger::feasible(value, clones_then_takes((n - 1) as nat, n)),
        Ledger::after(value, clones_then_takes((n - 1) as nat, n)).made == n,
        Ledger::after(value, clones_then_takes((n - 1) as nat, n)).takes == n,
        Ledger::after(value, clones_then_takes((n - 1) as nat, n)).taken == seq![value],
        Ledger::after(value, clones_then_takes((n - 1) as nat, n)).destroyed == Seq::<T>::empty(),
        Ledger::after(value, clones_then_takes((n - 1) as nat, n)).cell is None,
        Ledger::after(value, clones_then_takes((n - 1) as nat, n)).reclaims == 1,
{
    let events = clones_then_takes((n - 1) as nat, n);
    lemma_clones_then_takes(value, (n - 1) as nat, n);
    lemma_all_take_one_wins(value, events);
    lemma_reclaimed_with_last_handle(value, events);
}

/// A feasible history stays feasible when its later part is cut off.
proof fn lemma_feasible_prefix<T>(value: T, events: Seq<Event>, more: Seq<Event>)
    requires
        Ledger::feasible(value, events + more),
    ensures
        Ledger::feasible(value, events),
    decreases more.len(),
{
    if more.len() == 0 {
        assert(events + more =~= events);
    } else {
        assert((events + more).drop_last() =~= events + more.drop_last());
        lemma_feasible_prefix(value, events, more.drop_last());
    }
}

/// Empty is for good. Once a block is empty, nothing that its handles do
/// afterwards fills it again: as long as the block exists it stays empty,
/// every later take returns nothing, and what was taken stays what it was.
pub proof fn lemma_empty_stays_empty<T>(value: T, events: Seq<Event>, more: Seq<Event>)
    requires
        Ledger::feasible(value, events + more),
        Ledger::after(value, events).takes >= 1,
    ensures
        Ledger::after(value, events + more).taken == Ledger::after(value, events).taken,
        Ledger::after(value, events + more).cell matches Some(block) ==> !block.occupied(),
{
    lemma_feasible_prefix(value, events, more);
    lemma_takes_grow(value, events, more);
    lemma_taken_once(value, events);
    lemma_taken_once(value, events + more);
    lemma_feasible_coherent(value, events + more);
}

/// The number of takes never shrinks as a history goes on.
proof fn lemma_takes_grow<T>(value: T, events: Seq<Event>, more: Seq<Event>)
    ensures
        Ledger::after(value, events + more).takes >= Ledger::after(value, events).takes,
    decreases more.len(),
{
    if more.len() == 0 {
        assert(events + more =~= events);
    } else {
        assert((events + more).drop_last() =~= events + more.drop_last());
        lemma_takes_grow(value, events, more.drop_last());
    }
}

} // verus!
