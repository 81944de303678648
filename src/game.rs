use vstd::prelude::*;
use crate::cell::{Cell, Direction};
use crate::grid::Grid;
use crate::puzzle::{Puzzle, StepOutcome, player_only_at};

verus! {

/// Number of levels; play wraps from the last back to the first.
pub const LEVEL_COUNT: usize = 50;

/// Whether the current level's grid is installed.
#[derive(Clone, Copy, Debug, PartialEq, Eq, Structural)]
pub enum Phase {
    AwaitingLoad,
    Playing,
}

/// A player's request: a move, or one of the level controls.
#[derive(Clone, Copy, Debug, PartialEq, Eq, Structural)]
pub enum Action {
    Move(Direction),
    Previous,
    Next,
    Restart,
}

/// What the surrounding loop should do after a frame.
#[derive(Clone, Copy, Debug, PartialEq, Eq, Structural)]
pub enum FrameAction {
    /// Nothing has changed since the last frame.
    Idle,
    /// The level's grid is not available yet: offer it again next frame.
    Retry,
    /// The level's grid was installed: draw all of it.
    Installed,
    /// The level's grid has no single start square; it was not installed.
    Rejected,
    /// Play goes on: draw the cells that changed.
    Redraw,
    /// The level was solved: fetch this level's grid; the solved puzzle is
    /// kept until it is installed.
    Reload(usize),
}

/// The level after `level`, wrapping after the last.
pub open spec fn next_level(level: int) -> int {
    if level >= LEVEL_COUNT {
        1
    } else {
        level + 1
    }
}

/// Whether the grid has exactly one player marker, a down-facing one.
pub open spec fn has_start(g: Grid) -> bool {
    exists|x: int, y: int| #[trigger] player_only_at(g, x, y) && g@[(x, y)] == Cell::PlayerDown
}

/// The level counter, its phase, the puzzle being played, and the action
/// waiting to be applied.
pub struct Game {
    pub level: usize,
    pub phase: Phase,
    pub puzzle: Option<Puzzle>,
    pub action: Option<Action>,
    /// Set when the next frame has work to do.
    pub needs_update: bool,
}

impl Game {
    pub open spec fn wf(&self) -> bool {
        &&& 1 <= self.level <= LEVEL_COUNT
        &&& self.phase == Phase::Playing ==> self.puzzle is Some
        &&& self.puzzle matches Some(p) ==> p.wf()
    }

    /// A game at level one, waiting for that level's grid.
    pub fn new() -> (r: Game)
        ensures
            r.wf(),
            r.level == 1,
            r.phase == Phase::AwaitingLoad,
            r.puzzle is None,
            r.action is None,
            r.needs_update,
    {
        Game { level: 1, phase: Phase::AwaitingLoad, puzzle: None, action: None, needs_update: true }
    }

    /// Moves on to the next level (wrapping after the last) and waits for the
    /// new level's grid. The solved puzzle stays as it is until that grid is
    /// installed.
    pub fn advance_on_win(&mut self)
        requires
            old(self).wf(),
        ensures
            final(self).wf(),
            final(self).level == next_level(old(self).level as int),
            final(self).phase == Phase::AwaitingLoad,
            final(self).puzzle == old(self).puzzle,
            final(self).action == old(self).action,
            final(self).needs_update,
    {
        if self.level >= LEVEL_COUNT {
            self.level = 1;
        } else {
            self.level = self.level + 1;
        }
        self.phase = Phase::AwaitingLoad;
        self.needs_update = true;
    }

    /// Installs a freshly loaded grid in place of any earlier puzzle: the
    /// player starts on its one down-facing marker, standing on floor. Returns false, changing
    /// nothing, when the grid has no such single marker.
    pub fn load_complete(&mut self, grid: Grid) -> (r: bool)
        requires
            old(self).wf(),
            grid.wf(),
        ensures
            final(self).wf(),
            r == has_start(grid),
            !r ==> *final(self) == *old(self),
            r ==> {
                &&& final(self).phase == Phase::Playing
                &&& final(self).level == old(self).level
                &&& final(self).action == old(self).action
                &&& final(self).needs_update == old(self).needs_update
                &&& final(self).puzzle matches Some(p) && p.grid == grid && p.covered == Cell::Floor
                    && grid@[(p.x as int, p.y as int)] == Cell::PlayerDown
            },
    {
        match grid.find(Cell::PlayerDown) {
            None => {
                proof {
                    if has_start(grid) {
                        let (x, y) = choose|x: int, y: int|
                            #[trigger] player_only_at(grid, x, y) && grid@[(x, y)] == Cell::PlayerDown;
                        assert(grid.in_bounds(x, y));
                    }
                }
                false
            },
            Some((x, y)) => {
                let ghost g = grid;
                match Puzzle::new(grid, x, y) {
                    None => {
                        proof {
                            if has_start(g) {
                                let (a, b) = choose|a: int, b: int|
                                    #[trigger] player_only_at(g, a, b) && g@[(a, b)]
                                        == Cell::PlayerDown;
                                assert((a, b) == (x as int, y as int));
                            }
                        }
                        false
                    },
                    Some(p) => {
                        assert(player_only_at(g, x as int, y as int));
                        self.puzzle = Some(p);
                        self.phase = Phase::Playing;
                        true
                    },
                }
            },
        }
    }

    /// While a level is being played, checks the puzzle for completion; when
    /// it is solved, moves on to the next level. The puzzle itself is left
    /// untouched. Before a level is installed there is nothing to check.
    pub fn win(&mut self) -> (r: bool)
        requires
            old(self).wf(),
        ensures
            final(self).wf(),
            final(self).puzzle == old(self).puzzle,
            r == (old(self).phase == Phase::Playing && (old(self).puzzle matches Some(p)
                && !p.grid.has_loose_box())),
            !r ==> *final(self) == *old(self),
            r ==> {
                &&& final(self).level == next_level(old(self).level as int)
                &&& final(self).phase == Phase::AwaitingLoad
                &&& final(self).action == old(self).action
                &&& final(self).needs_update
            },
    {
        if self.phase != Phase::Playing {
            return false;
        }
        let won = match &self.puzzle {
            Some(p) => p.grid.win_check(),
            None => false,
        };
        if won {
            self.advance_on_win();
        }
        won
    }

    /// Applies the waiting action while a level is being played, then clears
    /// it; a step that changed the board asks for the next frame's work. The
    /// level controls leave the puzzle as it is. Before the level is
    /// installed nothing happens and the action keeps waiting.
    pub fn update(&mut self) -> (r: Option<StepOutcome>)
        requires
            old(self).wf(),
        ensures
            final(self).wf(),
            old(self).phase != Phase::Playing ==> *final(self) == *old(self) && r is None,
            old(self).phase == Phase::Playing ==> {
                &&& final(self).action is None
                &&& final(self).level == old(self).level
                &&& final(self).phase == old(self).phase
                &&& final(self).needs_update == (old(self).needs_update || r == Some(
                    StepOutcome::Moved,
                ) || r == Some(StepOutcome::Pushed))
                &&& match old(self).action {
                    Some(Action::Move(d)) => {
                        &&& old(self).puzzle matches Some(p) && r == Some(p.outcome(d))
                        &&& final(self).puzzle matches Some(q) && old(self).puzzle->Some_0.steps_to(d, q)
                    },
                    _ => r is None && final(self).puzzle == old(self).puzzle,
                }
            },
    {
        if self.phase != Phase::Playing {
            return None;
        }
        let r = match self.action {
            Some(Action::Move(d)) => match &mut self.puzzle {
                Some(p) => Some(p.step(d)),
                None => None,
            },
            _ => None,
        };
        self.action = None;
        if r == Some(StepOutcome::Moved) || r == Some(StepOutcome::Pushed) {
            self.needs_update = true;
        }
        r
    }

    /// One frame of the game loop. `level_data` is the current level's grid
    /// when it is available. While waiting for a level the grid is installed
    /// as soon as it is offered; while playing, the puzzle is checked for
    /// completion.
    pub fn frame(&mut self, level_data: Option<Grid>) -> (r: FrameAction)
        requires
            old(self).wf(),
            level_data matches Some(g) ==> g.wf(),
        ensures
            final(self).wf(),
            !old(self).needs_update ==> r == FrameAction::Idle && *final(self) == *old(self),
            old(self).needs_update && old(self).phase == Phase::AwaitingLoad ==> match level_data {
                None => r == FrameAction::Retry && *final(self) == *old(self),
                Some(g) => if has_start(g) {
                    &&& r == FrameAction::Installed
                    &&& final(self).phase == Phase::Playing
                    &&& final(self).puzzle matches Some(p) && p.grid == g && p.covered
                        == Cell::Floor && g@[(p.x as int, p.y as int)] == Cell::PlayerDown
                    &&& final(self).level == old(self).level
                    &&& final(self).action == old(self).action
                    &&& !final(self).needs_update
                } else {
                    &&& r == FrameAction::Rejected
                    &&& final(self).phase == old(self).phase
                    &&& final(self).level == old(self).level
                    &&& final(self).puzzle == old(self).puzzle
                    &&& final(self).action == old(self).action
                    &&& !final(self).needs_update
                },
            },
            old(self).needs_update && old(self).phase == Phase::Playing ==> (old(self).puzzle matches Some(p) && if p.grid.has_loose_box() {
                &&& r == FrameAction::Redraw
                &&& final(self).puzzle == old(self).puzzle
                &&& final(self).phase == Phase::Playing
                &&& final(self).level == old(self).level
                &&& final(self).action == old(self).action
                &&& !final(self).needs_update
            } else {
                &&& r == FrameAction::Reload(final(self).level)
                &&& final(self).level == next_level(old(self).level as int)
                &&& final(self).phase == Phase::AwaitingLoad
                &&& final(self).puzzle == old(self).puzzle
                &&& final(self).action == old(self).action
                &&& final(self).needs_update
            }),
    {
        if !self.needs_update {
            return FrameAction::Idle;
        }
        self.needs_update = false;
        match self.phase {
            Phase::AwaitingLoad => match level_data {
                Some(g) => {
                    if self.load_complete(g) {
                        FrameAction::Installed
                    } else {
                        FrameAction::Rejected
                    }
                },
                None => {
                    self.needs_update = true;
                    FrameAction::Retry
                },
            },
            Phase::Playing => {
                if self.win() {
                    FrameAction::Reload(self.level)
                } else {
                    FrameAction::Redraw
                }
            },
        }
    }
}

impl Default for Game {
    fn default() -> (r: Game)
        ensures
            r.wf(),
            r.level == 1,
            r.phase == Phase::AwaitingLoad,
            r.puzzle is None,
            r.action is None,
            r.needs_update,
    {
        Game::new()
    }
}

/// The direction to take when several direction keys are held: down wins
/// over up, up over right, right over left.
pub fn pick_direction(left: bool, right: bool, up: bool, down: bool) -> (r: Option<Direction>)
    ensures
        r == (if down {
            Some(Direction::Down)
        } else if up {
            Some(Direction::Up)
        } else if right {
            Some(Direction::Right)
        } else if left {
            Some(Direction::Left)
        } else {
            None
        }),
{
    let mut r: Option<Direction> = None;
    if left {
        r = Some(Direction::Left);
    }
    if right {
        r = Some(Direction::Right);
    }
    if up {
        r = Some(Direction::Up);
    }
    if down {
        r = Some(Direction::Down);
    }
    r
}

/// The action of the on-screen button at index `i`, in the order
/// previous, next, restart, up, left, right, down.
pub fn button_action(i: usize) -> (r: Option<Action>)
    ensures
        r == (if i == 0 {
            Some(Action::Previous)
        } else if i == 1 {
            Some(Action::Next)
        } else if i == 2 {
            Some(Action::Restart)
        } else if i == 3 {
            Some(Action::Move(Direction::Up))
        } else if i == 4 {
            Some(Action::Move(Direction::Left))
        } else if i == 5 {
            Some(Action::Move(Direction::Right))
        } else if i == 6 {
            Some(Action::Move(Direction::Down))
        } else {
            None
        }),
{
    match i {
        0 => Some(Action::Previous),
        1 => Some(Action::Next),
        2 => Some(Action::Restart),
        3 => Some(Action::Move(Direction::Up)),
        4 => Some(Action::Move(Direction::Left)),
        5 => Some(Action::Move(Direction::Right)),
        6 => Some(Action::Move(Direction::Down)),
        _ => None,
    }
}

} // verus!
