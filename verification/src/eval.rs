//! Closures and the shared memoization-cell store.
//!
//! A closure pairs a term with its environment; environments themselves are
//! out of scope, so a closure carries an opaque environment identifier.
//!
//! Call-by-need evaluation shares partially evaluated closures through
//! mutable memoization cells. The stack must refer to such a cell without
//! keeping it alive: a `Thunk` frame holds a non-owning handle that, when the
//! cell has been dropped by its owner, resolves to "absent" rather than
//! failing. [`MemoHeap`] models this with a store of optional slots: an owning
//! [`CellRef`] is handed out once per allocation and consumed when the cell is
//! dropped, while any number of copyable [`WeakCell`] handles name the slot
//! without owning it.

use crate::term::Term;
use vstd::prelude::*;
use vstd::pervasive::VecAdditionalExecFns;

verus! {

/// A term paired with (an identifier of) the environment it closes over.
#[derive(Debug, Clone, Copy, PartialEq, Eq)]
pub struct Closure {
    pub body: Term,
    pub env: u64,
}

impl Closure {
    /// A closure over the empty environment, for terms with no free variables.
    pub fn atomic_closure(body: Term) -> (c: Closure)
        ensures
            c == (Closure { body, env: 0u64 }),
    {
        Closure { body, env: 0 }
    }
}

/// The owning handle of one memoization cell. It is not copyable: dropping it
/// through [`MemoHeap::free`] is what ends the cell's life.
#[derive(Debug)]
pub struct CellRef {
    idx: usize,
}

/// A non-owning handle to a memoization cell: it names the cell's slot but
/// does not keep the cell alive.
#[derive(Debug, Clone, Copy, PartialEq, Eq)]
pub struct WeakCell {
    idx: usize,
}

impl CellRef {
    /// The slot this handle owns.
    pub closed spec fn id(&self) -> int {
        self.idx as int
    }

    /// Make a non-owning handle to the same cell.
    pub fn downgrade(&self) -> (w: WeakCell)
        ensures
            w.id() == self.id(),
    {
        WeakCell { idx: self.idx }
    }
}

impl WeakCell {
    /// The slot this handle names.
    pub closed spec fn id(&self) -> int {
        self.idx as int
    }
}

/// The store of memoization cells. A slot holds `Some` closure while its
/// owning handle is alive and `None` forever after; slots are never reused,
/// so a stale handle can only resolve to "absent", never to a different cell.
#[derive(Debug)]
pub struct MemoHeap {
    cells: Vec<Option<Closure>>,
}

impl View for MemoHeap {
    type V = Seq<Option<Closure>>;

    closed spec fn view(&self) -> Seq<Option<Closure>> {
        self.cells@
    }
}

impl MemoHeap {
    /// Whether slot `i` currently holds a live cell.
    pub open spec fn live(&self, i: int) -> bool {
        0 <= i < self@.len() && self@[i] is Some
    }

    /// An empty store.
    pub fn new() -> (h: MemoHeap)
        ensures
            h@ == Seq::<Option<Closure>>::empty(),
    {
        MemoHeap { cells: Vec::new() }
    }

    /// Allocate a cell holding `v` and hand out its owning handle.
    pub fn new_cell(&mut self, v: Closure) -> (c: CellRef)
        ensures
            c.id() == old(self)@.len(),
            final(self)@ == old(self)@.push(Some(v)),
    {
        let idx = self.cells.len();
        self.cells.push(Some(v));
        CellRef { idx }
    }

    /// Drop the owning handle: the cell is gone, and every weak handle to it
    /// resolves to "absent" from now on.
    pub fn free(&mut self, c: CellRef)
        ensures
            0 <= c.id() < old(self)@.len() ==> final(self)@ == old(self)@.update(c.id(), None),
            c.id() >= old(self)@.len() ==> final(self)@ == old(self)@,
    {
        if c.idx < self.cells.len() {
            self.cells.set(c.idx, None);
        }
    }

    /// Resolve a weak handle: the cell's current contents if it is still
    /// alive, "absent" otherwise.
    pub fn lookup(&self, w: &WeakCell) -> (r: Option<Closure>)
        ensures
            self.live(w.id()) ==> r == self@[w.id()],
            !self.live(w.id()) ==> r is None,
    {
        if w.idx < self.cells.len() {
            self.cells[w.idx]
        } else {
            None
        }
    }

    /// Overwrite the cell a weak handle names, if it is still alive: this is
    /// the memoization update a popped `Thunk` frame asks for. Returns whether
    /// the cell was live; a stale handle leaves the store unchanged.
    pub fn update(&mut self, w: &WeakCell, v: Closure) -> (ok: bool)
        ensures
            ok == old(self).live(w.id()),
            ok ==> final(self)@ == old(self)@.update(w.id(), Some(v)),
            !ok ==> final(self)@ == old(self)@,
    {
        if w.idx < self.cells.len() {
            if self.cells[w.idx].is_some() {
                self.cells.set(w.idx, Some(v));
                return true;
            }
        }
        false
    }
}

} // verus!
