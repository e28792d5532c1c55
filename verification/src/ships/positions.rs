use vstd::prelude::*;

verus! {

/// The grid cells already announced to the wider simulation.  The position
/// actor inserts the cell of every position it records; only a cell seen
/// for the first time is announced onward.
pub struct GridCells {
    cells: Vec<(i16, i16)>,
}

impl View for GridCells {
    type V = Seq<(i16, i16)>;

    closed spec fn view(&self) -> Seq<(i16, i16)> {
        self.cells@
    }
}

impl GridCells {
    pub fn init(capacity: usize) -> (r: Self)
        ensures
            r@ == Seq::<(i16, i16)>::empty(),
    {
        GridCells { cells: Vec::with_capacity(capacity) }
    }

    /// Records a cell.  Returns true, and keeps the cell, exactly when it
    /// was not recorded before: the caller announces the cell only then.
    pub fn insert(&mut self, cell: (i16, i16)) -> (added: bool)
        ensures
            added == !old(self)@.contains(cell),
            added ==> final(self)@ == old(self)@.push(cell),
            !added ==> final(self)@ == old(self)@,
    {
        let mut i: usize = 0;
        while i < self.cells.len()
            invariant
                i <= self.cells@.len(),
                *self == *old(self),
                forall|j: int| 0 <= j < i ==> self.cells@[j] != cell,
            decreases self.cells@.len() - i,
        {
            let known = self.cells[i];
            if known.0 == cell.0 && known.1 == cell.1 {
                return false;
            }
            i = i + 1;
        }
        self.cells.push(cell);
        true
    }
}

} // verus!
