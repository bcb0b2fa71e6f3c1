//! The snake: its segments, head first, and the way it faces.

use crate::grid::Direction;
use vstd::prelude::*;

verus! {

/// One segment of the snake, named by the index of the cell it lies on.
#[derive(Clone, Copy, Debug, PartialEq, Eq, Structural)]
pub struct SnakeCell(pub usize);

/// The cell indices of a run of segments, in the same order.
pub open spec fn cell_indices(cells: Seq<SnakeCell>) -> Seq<int> {
    Seq::new(cells.len(), |i: int| cells[i].0 as int)
}

/// A cell index occurs among the indices of `cells` exactly if its segment
/// occurs among `cells`.
pub proof fn lemma_cell_indices_contains(cells: Seq<SnakeCell>, cell: SnakeCell)
    ensures
        cell_indices(cells).contains(cell.0 as int) <==> cells.contains(cell),
{
    let indices = cell_indices(cells);
    if cells.contains(cell) {
        let i = choose|i: int| 0 <= i < cells.len() && cells[i] == cell;
        assert(indices[i] == cell.0 as int);
    }
    if indices.contains(cell.0 as int) {
        let i = choose|i: int| 0 <= i < indices.len() && indices[i] == cell.0 as int;
        assert(cells[i] == cell);
    }
}

/// Whether `cell` occurs in `cells` at position `start` or later.
pub fn contains_cell(cells: &Vec<SnakeCell>, start: usize, cell: SnakeCell) -> (found: bool)
    requires
        start <= cells.len(),
    ensures
        found <==> cells@.skip(start as int).contains(cell),
{
    let mut i: usize = start;
    while i < cells.len()
        invariant
            start <= i <= cells.len(),
            forall|j: int| start <= j < i ==> cells@[j] != cell,
        decreases cells.len() - i,
    {
        if cells[i] == cell {
            assert(cells@.skip(start as int)[i - start] == cell);
            return true;
        }
        i += 1;
    }
    false
}

/// The snake's segments, head first, and its direction.
pub(crate) struct Snake {
    pub(crate) body: Vec<SnakeCell>,
    pub(crate) direction: Direction,
}

impl Snake {
    /// A snake of `size` segments that faces right, its head on
    /// `spawn_index` and each further segment one cell before the last.
    pub(crate) fn new(spawn_index: usize, size: usize) -> (snake: Snake)
        requires
            size <= spawn_index + 1,
        ensures
            snake.direction == Direction::Right,
            snake.body@.len() == size,
            forall|i: int| 0 <= i < size ==> (#[trigger] snake.body@[i]).0 == spawn_index - i,
    {
        let mut body: Vec<SnakeCell> = Vec::new();
        let mut i: usize = 0;
        while i < size
            invariant
                i <= size <= spawn_index + 1,
                body@.len() == i,
                forall|j: int| 0 <= j < i ==> (#[trigger] body@[j]).0 == spawn_index - j,
            decreases size - i,
        {
            body.push(SnakeCell(spawn_index - i));
            i += 1;
        }
        Snake { body, direction: Direction::Right }
    }

    /// Moves the snake one cell: `head` becomes the first segment and every
    /// other segment takes the place of the one before it.
    pub(crate) fn advance(&mut self, head: SnakeCell)
        requires
            old(self).body@.len() > 0,
        ensures
            final(self).body@ == seq![head] + old(self).body@.drop_last(),
            final(self).direction == old(self).direction,
    {
        let len: usize = self.body.len();
        let mut i: usize = len - 1;
        while i > 0
            invariant
                i < len,
                self.body@.len() == len,
                self.direction == old(self).direction,
                forall|j: int| 0 <= j <= i ==> self.body@[j] == old(self).body@[j],
                forall|j: int| i < j < len ==> self.body@[j] == old(self).body@[j - 1],
            decreases i,
        {
            let ahead: SnakeCell = self.body[i - 1];
            self.body[i] = ahead;
            i -= 1;
        }
        self.body[0] = head;
    }
}

} // verus!
