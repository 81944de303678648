use vstd::prelude::*;
use crate::cell::{Cell, Direction, is_walkable, is_box, is_player, marker_of, dx, dy};
use crate::grid::Grid;

verus! {

/// What a step did.
#[derive(Clone, Copy, Debug, PartialEq, Eq, Structural)]
pub enum StepOutcome {
    /// The player walked onto a free square.
    Moved,
    /// The player walked and pushed a box one square ahead.
    Pushed,
    /// A wall, or a box that cannot move, is in the way; nothing changed.
    Blocked,
    /// The square ahead is off the grid; nothing changed.
    OutOfBounds,
}

/// The grid, the player's square, and the surface beneath the player.
pub struct Puzzle {
    pub grid: Grid,
    pub x: usize,
    pub y: usize,
    /// The surface under the player, put back when the player leaves.
    pub covered: Cell,
    /// Set whenever a step changed the grid.
    pub needs_redraw: bool,
}

/// Whether the grid holds a player marker at (x, y) and nowhere else.
pub open spec fn player_only_at(g: Grid, x: int, y: int) -> bool {
    &&& g.in_bounds(x, y)
    &&& is_player(g@[(x, y)])
    &&& forall|a: int, b: int|
        g.in_bounds(a, b) && (a, b) != (x, y) ==> !is_player(#[trigger] g@[(a, b)])
}

impl Puzzle {
    pub open spec fn wf(&self) -> bool {
        &&& self.grid.wf()
        &&& player_only_at(self.grid, self.x as int, self.y as int)
        &&& is_walkable(self.covered)
    }

    /// The square one step from the player in direction `d`.
    pub open spec fn ahead(&self, d: Direction) -> (int, int) {
        (self.x + dx(d), self.y + dy(d))
    }

    /// The square two steps from the player in direction `d`.
    pub open spec fn beyond(&self, d: Direction) -> (int, int) {
        (self.x + 2 * dx(d), self.y + 2 * dy(d))
    }

    /// What a step in direction `d` does from this state.
    pub open spec fn outcome(&self, d: Direction) -> StepOutcome {
        let a = self.ahead(d);
        let b = self.beyond(d);
        if !self.grid.in_bounds(a.0, a.1) {
            StepOutcome::OutOfBounds
        } else if is_walkable(self.grid@[a]) {
            StepOutcome::Moved
        } else if is_box(self.grid@[a]) && self.grid.in_bounds(b.0, b.1) && is_walkable(
            self.grid@[b],
        ) {
            StepOutcome::Pushed
        } else {
            StepOutcome::Blocked
        }
    }

    /// How a step in direction `d` from this state leads to `post`: an
    /// illegal step changes nothing; a walk leaves the old surface behind and
    /// remembers the new one; a push moves the box one square further, keeping
    /// track of which surfaces it leaves and reaches.
    pub open spec fn steps_to(&self, d: Direction, post: Puzzle) -> bool {
        &&& (self.outcome(d) == StepOutcome::Blocked || self.outcome(d)
            == StepOutcome::OutOfBounds) ==> post == *self
        &&& self.outcome(d) == StepOutcome::Moved ==> {
                &&& (post.x as int, post.y as int) == self.ahead(d)
                &&& post.covered == self.grid@[self.ahead(d)]
                &&& post.grid.size == self.grid.size
                &&& post.grid@ == self.grid@.insert(
                    (self.x as int, self.y as int),
                    self.covered,
                ).insert(self.ahead(d), marker_of(d))
                &&& post.needs_redraw
            }
        &&& self.outcome(d) == StepOutcome::Pushed ==> {
                &&& (post.x as int, post.y as int) == self.ahead(d)
                &&& post.covered == (if self.grid@[self.ahead(d)] == Cell::Box {
                    Cell::Floor
                } else {
                    Cell::Target
                })
                &&& post.grid.size == self.grid.size
                &&& post.grid@ == self.grid@.insert(
                    (self.x as int, self.y as int),
                    self.covered,
                ).insert(self.ahead(d), marker_of(d)).insert(
                    self.beyond(d),
                    if self.grid@[self.beyond(d)] == Cell::Floor {
                        Cell::Box
                    } else {
                        Cell::BoxOnTarget
                    }
                )
                &&& post.needs_redraw
            }
    }

    /// A puzzle on `grid` with the player at column `x`, row `y`, standing on
    /// floor; `None` unless that square holds the grid's one player marker.
    pub fn new(grid: Grid, x: usize, y: usize) -> (r: Option<Puzzle>)
        requires
            grid.wf(),
        ensures
            r is Some <==> player_only_at(grid, x as int, y as int),
            r matches Some(p) ==> p.wf() && p.grid == grid && p.x == x && p.y == y && p.covered
                == Cell::Floor && p.needs_redraw,
    {
        if x >= grid.size || y >= grid.size || !grid.get(x, y).holds_player() {
            return None;
        }
        let n = grid.size;
        let mut a: usize = 0;
        while a < n
            invariant
                grid.wf(),
                n == grid.size,
                a <= n,
                forall|i: int, j: int|
                    0 <= i < a && 0 <= j < n && (i, j) != (x as int, y as int) ==> !is_player(
                        #[trigger] grid@[(i, j)],
                    ),
            decreases n - a,
        {
            let mut b: usize = 0;
            while b < n
                invariant
                    grid.wf(),
                    n == grid.size,
                    a < n,
                    b <= n,
                    forall|i: int, j: int|
                        0 <= i < a && 0 <= j < n && (i, j) != (x as int, y as int) ==> !is_player(
                            #[trigger] grid@[(i, j)],
                        ),
                    forall|j: int|
                        0 <= j < b && (a as int, j) != (x as int, y as int) ==> !is_player(
                            #[trigger] grid@[(a as int, j)],
                        ),
                decreases n - b,
            {
                if (a != x || b != y) && grid.get(a, b).holds_player() {
                    assert(grid.in_bounds(a as int, b as int) && (a as int, b as int) != (
                    x as int, y as int) && is_player(grid@[(a as int, b as int)]));
                    return None;
                }
                b = b + 1;
            }
            a = a + 1;
        }
        Some(Puzzle { grid, x, y, covered: Cell::Floor, needs_redraw: true })
    }

    /// The square one step from (x, y) in direction `d`, if it lies on a
    /// grid of side `n`.
    fn shift(x: usize, y: usize, d: Direction, n: usize) -> (r: Option<(usize, usize)>)
        requires
            x < n,
            y < n,
        ensures
            r is Some <==> (0 <= x + dx(d) < n && 0 <= y + dy(d) < n),
            r matches Some(p) ==> p.0 == x + dx(d) && p.1 == y + dy(d),
    {
        match d {
            Direction::Left => if x == 0 {
                None
            } else {
                Some((x - 1, y))
            },
            Direction::Right => if x + 1 >= n {
                None
            } else {
                Some((x + 1, y))
            },
            Direction::Up => if y + 1 >= n {
                None
            } else {
                Some((x, y + 1))
            },
            Direction::Down => if y == 0 {
                None
            } else {
                Some((x, y - 1))
            },
        }
    }

    /// Moves the player one square in direction `d`, pushing a box ahead
    /// when the square beyond it is free. An illegal move changes nothing.
    pub fn step(&mut self, d: Direction) -> (r: StepOutcome)
        requires
            old(self).wf(),
        ensures
            final(self).wf(),
            r == old(self).outcome(d),
            old(self).steps_to(d, *final(self)),
    {
        let ghost pre = *self;
        let n = self.grid.size;
        let (nx, ny) = match Self::shift(self.x, self.y, d, n) {
            None => return StepOutcome::OutOfBounds,
            Some(p) => p,
        };
        let ahead = self.grid.get(nx, ny);
        if ahead.walkable() {
            self.grid.set(self.x, self.y, self.covered);
            self.covered = ahead;
            self.grid.set(nx, ny, d.marker());
            self.x = nx;
            self.y = ny;
            self.needs_redraw = true;
            proof {
                self.lemma_moved_wf(pre, d);
            }
            return StepOutcome::Moved;
        }
        if !ahead.holds_box() {
            return StepOutcome::Blocked;
        }
        let (bx, by) = match Self::shift(nx, ny, d, n) {
            None => return StepOutcome::Blocked,
            Some(p) => p,
        };
        let beyond = self.grid.get(bx, by);
        if !beyond.walkable() {
            return StepOutcome::Blocked;
        }
        self.grid.set(self.x, self.y, self.covered);
        self.covered = if ahead == Cell::Box {
            Cell::Floor
        } else {
            Cell::Target
        };
        self.grid.set(nx, ny, d.marker());
        let pushed = if beyond == Cell::Floor {
            Cell::Box
        } else {
            Cell::BoxOnTarget
        };
        self.grid.set(bx, by, pushed);
        self.x = nx;
        self.y = ny;
        self.needs_redraw = true;
        proof {
            self.lemma_moved_wf(pre, d);
        }
        StepOutcome::Pushed
    }

    /// After the player has left its old square for the square ahead, with no
    /// player marker written anywhere else, the state is well formed again.
    proof fn lemma_moved_wf(&self, pre: Puzzle, d: Direction)
        requires
            pre.wf(),
            self.grid.wf(),
            self.grid.size == pre.grid.size,
            (self.x as int, self.y as int) == pre.ahead(d),
            self.grid.in_bounds(self.x as int, self.y as int),
            is_walkable(self.covered),
            self.grid@[(self.x as int, self.y as int)] == marker_of(d),
            self.grid@.dom() == pre.grid@.dom(),
            forall|a: int, b: int|
                self.grid.in_bounds(a, b) && (a, b) != (self.x as int, self.y as int) && (a, b)
                    != (pre.x as int, pre.y as int) && is_player(#[trigger] self.grid@[(a, b)])
                    ==> is_player(pre.grid@[(a, b)]),
            !is_player(self.grid@[(pre.x as int, pre.y as int)]),
        ensures
            self.wf(),
    {
    }
}

/// A step onto free floor or a target moves the player exactly one square
/// that way: the square left behind shows the surface the player stood on,
/// the new square shows the player facing the move, and nothing else changes.
pub proof fn lemma_walk(pre: Puzzle, d: Direction, post: Puzzle)
    requires
        pre.wf(),
        pre.grid.in_bounds(pre.ahead(d).0, pre.ahead(d).1),
        is_walkable(pre.grid@[pre.ahead(d)]),
        pre.steps_to(d, post),
    ensures
        (post.x as int, post.y as int) == pre.ahead(d),
        post.grid@[(pre.x as int, pre.y as int)] == pre.covered,
        post.grid@[pre.ahead(d)] == marker_of(d),
        post.covered == pre.grid@[pre.ahead(d)],
        forall|a: int, b: int|
            pre.grid.in_bounds(a, b) && (a, b) != (pre.x as int, pre.y as int) && (a, b)
                != pre.ahead(d) ==> #[trigger] post.grid@[(a, b)] == pre.grid@[(a, b)],
{
}

/// A step whose square ahead is off the grid changes nothing at all.
pub proof fn lemma_off_grid(pre: Puzzle, d: Direction, post: Puzzle)
    requires
        pre.wf(),
        !pre.grid.in_bounds(pre.ahead(d).0, pre.ahead(d).1),
        pre.steps_to(d, post),
    ensures
        post == pre,
{
}

/// Pushing a box onto a free square: the box lands there (on the target
/// if the square was one), the player takes the box's square, and the
/// surface the box stood on is now under the player.
pub proof fn lemma_push(pre: Puzzle, d: Direction, post: Puzzle)
    requires
        pre.wf(),
        pre.grid.in_bounds(pre.ahead(d).0, pre.ahead(d).1),
        is_box(pre.grid@[pre.ahead(d)]),
        pre.grid.in_bounds(pre.beyond(d).0, pre.beyond(d).1),
        is_walkable(pre.grid@[pre.beyond(d)]),
        pre.steps_to(d, post),
    ensures
        (post.x as int, post.y as int) == pre.ahead(d),
        post.grid@[(pre.x as int, pre.y as int)] == pre.covered,
        post.grid@[pre.ahead(d)] == marker_of(d),
        pre.grid@[pre.beyond(d)] == Cell::Floor ==> post.grid@[pre.beyond(d)] == Cell::Box,
        pre.grid@[pre.beyond(d)] == Cell::Target ==> post.grid@[pre.beyond(d)] == Cell::BoxOnTarget,
        pre.grid@[pre.ahead(d)] == Cell::Box ==> post.covered == Cell::Floor,
        pre.grid@[pre.ahead(d)] == Cell::BoxOnTarget ==> post.covered == Cell::Target,
        forall|a: int, b: int|
            pre.grid.in_bounds(a, b) && (a, b) != (pre.x as int, pre.y as int) && (a, b)
                != pre.ahead(d) && (a, b) != pre.beyond(d) ==> #[trigger] post.grid@[(a, b)]
                == pre.grid@[(a, b)],
{
}

/// A box with a wall, another box or the edge of the grid behind it does
/// not move, and neither does anything else.
pub proof fn lemma_push_blocked(pre: Puzzle, d: Direction, post: Puzzle)
    requires
        pre.wf(),
        pre.grid.in_bounds(pre.ahead(d).0, pre.ahead(d).1),
        is_box(pre.grid@[pre.ahead(d)]),
        !pre.grid.in_bounds(pre.beyond(d).0, pre.beyond(d).1) || !is_walkable(
            pre.grid@[pre.beyond(d)],
        ),
        pre.steps_to(d, post),
    ensures
        post == pre,
{
}

} // verus!
