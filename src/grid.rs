use vstd::prelude::*;
use crate::cell::Cell;

verus! {

/// A square matrix of cells, `size` by `size`, stored column by column:
/// the cell at column `x`, row `y` is `cells[x * size + y]`.
pub struct Grid {
    pub size: usize,
    pub cells: Vec<Cell>,
}

/// Position of column `x`, row `y` in the storage of a grid of side `n`.
pub open spec fn slot(n: int, x: int, y: int) -> int {
    x * n + y
}

/// Every in-bounds position has its own slot inside the storage.
pub proof fn lemma_slot(n: int, x: int, y: int)
    requires
        0 <= x < n,
        0 <= y < n,
    ensures
        0 <= slot(n, x, y) < n * n,
{
    assert(0 <= x * n + y < n * n) by (nonlinear_arith)
        requires
            0 <= x < n,
            0 <= y < n,
    ;
}

/// Distinct in-bounds positions have distinct slots.
pub proof fn lemma_slot_injective(n: int, x1: int, y1: int, x2: int, y2: int)
    requires
        0 <= x1 < n,
        0 <= y1 < n,
        0 <= x2 < n,
        0 <= y2 < n,
        slot(n, x1, y1) == slot(n, x2, y2),
    ensures
        x1 == x2,
        y1 == y2,
{
    assert(x1 == x2) by (nonlinear_arith)
        requires
            0 <= x1 < n,
            0 <= y1 < n,
            0 <= x2 < n,
            0 <= y2 < n,
            x1 * n + y1 == x2 * n + y2,
    ;
}

impl Grid {
    pub open spec fn wf(&self) -> bool {
        self.cells@.len() == self.size * self.size
    }

    pub open spec fn in_bounds(&self, x: int, y: int) -> bool {
        0 <= x < self.size && 0 <= y < self.size
    }

    /// The grid as a map from (column, row) to cell, over the in-bounds positions.
    pub open spec fn view(&self) -> Map<(int, int), Cell> {
        Map::new(
            |p: (int, int)| 0 <= p.0 < self.size && 0 <= p.1 < self.size,
            |p: (int, int)| self.cells@[slot(self.size as int, p.0, p.1)],
        )
    }

    /// Whether some cell holds a box that is not on a target.
    pub open spec fn has_loose_box(&self) -> bool {
        exists|x: int, y: int| self.in_bounds(x, y) && #[trigger] self@[(x, y)] == Cell::Box
    }

    /// A `size` by `size` grid with every cell `c`.
    pub fn filled(size: usize, c: Cell) -> (r: Grid)
        requires
            size * size <= usize::MAX,
        ensures
            r.wf(),
            r.size == size,
            forall|x: int, y: int| r.in_bounds(x, y) ==> #[trigger] r@[(x, y)] == c,
    {
        let total: usize = size * size;
        let mut cells: Vec<Cell> = Vec::new();
        let mut i: usize = 0;
        while i < total
            invariant
                i <= total,
                cells@.len() == i,
                forall|k: int| 0 <= k < i ==> #[trigger] cells@[k] == c,
            decreases total - i,
        {
            cells.push(c);
            i = i + 1;
        }
        let r = Grid { size, cells };
        assert forall|x: int, y: int| r.in_bounds(x, y) implies #[trigger] r@[(x, y)] == c by {
            lemma_slot(size as int, x, y);
        }
        r
    }

    /// The cell at column `x`, row `y`.
    pub fn get(&self, x: usize, y: usize) -> (r: Cell)
        requires
            self.wf(),
            self.in_bounds(x as int, y as int),
        ensures
            r == self@[(x as int, y as int)],
    {
        let len = self.cells.len();
        proof {
            lemma_slot(self.size as int, x as int, y as int);
            assert(x * self.size <= len) by (nonlinear_arith)
                requires
                    x * self.size + y < len,
                    y >= 0,
            ;
        }
        self.cells[x * self.size + y]
    }

    /// Puts `c` at column `x`, row `y`.
    pub fn set(&mut self, x: usize, y: usize, c: Cell)
        requires
            old(self).wf(),
            old(self).in_bounds(x as int, y as int),
        ensures
            final(self).wf(),
            final(self).size == old(self).size,
            final(self)@ == old(self)@.insert((x as int, y as int), c),
    {
        let ghost pre = *self;
        let n = self.size;
        let len = self.cells.len();
        proof {
            lemma_slot(n as int, x as int, y as int);
            assert(x * n <= len) by (nonlinear_arith)
                requires
                    x * n + y < len,
                    y >= 0,
            ;
        }
        self.cells.set(x * n + y, c);
        proof {
            assert forall|p: (int, int)| #[trigger] self@.dom().contains(p) implies self@[p]
                == pre@.insert((x as int, y as int), c)[p] by {
                lemma_slot(n as int, p.0, p.1);
                if p != (x as int, y as int) {
                    if slot(n as int, p.0, p.1) == slot(n as int, x as int, y as int) {
                        lemma_slot_injective(n as int, p.0, p.1, x as int, y as int);
                    }
                }
            }
            assert(self@ =~= pre@.insert((x as int, y as int), c));
        }
    }

    /// Whether no box stands off a target: the grid is solved.
    pub fn win_check(&self) -> (r: bool)
        requires
            self.wf(),
        ensures
            r == !self.has_loose_box(),
    {
        let n = self.size;
        let mut x: usize = 0;
        while x < n
            invariant
                self.wf(),
                n == self.size,
                x <= n,
                forall|a: int, b: int| 0 <= a < x && 0 <= b < n ==> #[trigger] self@[(a, b)] != Cell::Box,
            decreases n - x,
        {
            let mut y: usize = 0;
            while y < n
                invariant
                    self.wf(),
                    n == self.size,
                    x < n,
                    y <= n,
                    forall|a: int, b: int| 0 <= a < x && 0 <= b < n ==> #[trigger] self@[(a, b)] != Cell::Box,
                    forall|b: int| 0 <= b < y ==> #[trigger] self@[(x as int, b)] != Cell::Box,
                decreases n - y,
            {
                if self.get(x, y) == Cell::Box {
                    assert(self.in_bounds(x as int, y as int) && self@[(x as int, y as int)] == Cell::Box);
                    return false;
                }
                y = y + 1;
            }
            x = x + 1;
        }
        true
    }

    /// The column and row of the first (in storage order) cell equal to `c`, if any.
    pub fn find(&self, c: Cell) -> (r: Option<(usize, usize)>)
        requires
            self.wf(),
        ensures
            r matches Some(p) ==> self.in_bounds(p.0 as int, p.1 as int) && self@[(p.0 as int, p.1 as int)] == c,
            r matches Some(p) ==> forall|a: int, b: int|
                self.in_bounds(a, b) && (a < p.0 || (a == p.0 && b < p.1)) ==> #[trigger] self@[(a, b)] != c,
            r is None ==> forall|a: int, b: int| self.in_bounds(a, b) ==> #[trigger] self@[(a, b)] != c,
    {
        let n = self.size;
        let mut x: usize = 0;
        while x < n
            invariant
                self.wf(),
                n == self.size,
                x <= n,
                forall|a: int, b: int| 0 <= a < x && 0 <= b < n ==> #[trigger] self@[(a, b)] != c,
            decreases n - x,
        {
            let mut y: usize = 0;
            while y < n
                invariant
                    self.wf(),
                    n == self.size,
                    x < n,
                    y <= n,
                    forall|a: int, b: int| 0 <= a < x && 0 <= b < n ==> #[trigger] self@[(a, b)] != c,
                    forall|b: int| 0 <= b < y ==> #[trigger] self@[(x as int, b)] != c,
                decreases n - y,
            {
                if self.get(x, y) == c {
                    return Some((x, y));
                }
                y = y + 1;
            }
            x = x + 1;
        }
        None
    }
}

} // verus!
