use vstd::prelude::*;

verus! {

/// What one square of the grid holds.
///
/// The player's facing is part of the cell value at the player's square.
#[derive(Clone, Copy, Debug, PartialEq, Eq, Structural)]
pub enum Cell {
    Blank,
    Wall,
    Floor,
    Box,
    Target,
    PlayerDown,
    PlayerRight,
    PlayerLeft,
    PlayerUp,
    BoxOnTarget,
}

/// One of the four moves.
#[derive(Clone, Copy, Debug, PartialEq, Eq, Structural)]
pub enum Direction {
    Left,
    Right,
    Up,
    Down,
}

/// A surface the player may stand on (and a box may be pushed onto).
pub open spec fn is_walkable(c: Cell) -> bool {
    c == Cell::Floor || c == Cell::Target
}

/// A box, on a target or not.
pub open spec fn is_box(c: Cell) -> bool {
    c == Cell::Box || c == Cell::BoxOnTarget
}

/// One of the four player markers.
pub open spec fn is_player(c: Cell) -> bool {
    c == Cell::PlayerDown || c == Cell::PlayerRight || c == Cell::PlayerLeft || c == Cell::PlayerUp
}

/// The marker of a player facing `d`.
pub open spec fn marker_of(d: Direction) -> Cell {
    match d {
        Direction::Left => Cell::PlayerLeft,
        Direction::Right => Cell::PlayerRight,
        Direction::Up => Cell::PlayerUp,
        Direction::Down => Cell::PlayerDown,
    }
}

/// Horizontal component of the unit vector of `d`.
pub open spec fn dx(d: Direction) -> int {
    match d {
        Direction::Left => -1,
        Direction::Right => 1,
        _ => 0,
    }
}

/// Vertical component of the unit vector of `d`; row 0 is the bottom row.
pub open spec fn dy(d: Direction) -> int {
    match d {
        Direction::Up => 1,
        Direction::Down => -1,
        _ => 0,
    }
}

/// The cell that the digit `b` (an ASCII byte) stands for in level text.
pub open spec fn cell_of_digit(b: u8) -> Option<Cell> {
    if b == 48 {
        Some(Cell::Blank)
    } else if b == 49 {
        Some(Cell::Wall)
    } else if b == 50 {
        Some(Cell::Floor)
    } else if b == 51 {
        Some(Cell::Box)
    } else if b == 52 {
        Some(Cell::Target)
    } else if b == 53 {
        Some(Cell::PlayerDown)
    } else if b == 54 {
        Some(Cell::PlayerRight)
    } else if b == 55 {
        Some(Cell::PlayerLeft)
    } else if b == 56 {
        Some(Cell::PlayerUp)
    } else if b == 57 {
        Some(Cell::BoxOnTarget)
    } else {
        None
    }
}

/// The digit of `c` in level text, as a number.
pub open spec fn digit_of(c: Cell) -> u8 {
    match c {
        Cell::Blank => 0,
        Cell::Wall => 1,
        Cell::Floor => 2,
        Cell::Box => 3,
        Cell::Target => 4,
        Cell::PlayerDown => 5,
        Cell::PlayerRight => 6,
        Cell::PlayerLeft => 7,
        Cell::PlayerUp => 8,
        Cell::BoxOnTarget => 9,
    }
}

impl Direction {
    /// The marker the player shows after moving this way.
    pub fn marker(self) -> (r: Cell)
        ensures
            r == marker_of(self),
            is_player(r),
    {
        match self {
            Direction::Left => Cell::PlayerLeft,
            Direction::Right => Cell::PlayerRight,
            Direction::Up => Cell::PlayerUp,
            Direction::Down => Cell::PlayerDown,
        }
    }
}

impl Cell {
    /// Decodes one ASCII digit of level text.
    pub fn from_digit(b: u8) -> (r: Option<Cell>)
        ensures
            r == cell_of_digit(b),
    {
        if b == 48 {
            Some(Cell::Blank)
        } else if b == 49 {
            Some(Cell::Wall)
        } else if b == 50 {
            Some(Cell::Floor)
        } else if b == 51 {
            Some(Cell::Box)
        } else if b == 52 {
            Some(Cell::Target)
        } else if b == 53 {
            Some(Cell::PlayerDown)
        } else if b == 54 {
            Some(Cell::PlayerRight)
        } else if b == 55 {
            Some(Cell::PlayerLeft)
        } else if b == 56 {
            Some(Cell::PlayerUp)
        } else if b == 57 {
            Some(Cell::BoxOnTarget)
        } else {
            None
        }
    }

    /// The number that stands for this cell in level text (and names its picture).
    pub fn digit(self) -> (r: u8)
        ensures
            r == digit_of(self),
            r <= 9,
            cell_of_digit((r + 48) as u8) == Some(self),
    {
        match self {
            Cell::Blank => 0,
            Cell::Wall => 1,
            Cell::Floor => 2,
            Cell::Box => 3,
            Cell::Target => 4,
            Cell::PlayerDown => 5,
            Cell::PlayerRight => 6,
            Cell::PlayerLeft => 7,
            Cell::PlayerUp => 8,
            Cell::BoxOnTarget => 9,
        }
    }

    /// Whether the player may step onto this cell.
    pub fn walkable(self) -> (r: bool)
        ensures
            r == is_walkable(self),
    {
        matches!(self, Cell::Floor | Cell::Target)
    }

    /// Whether this cell holds a box.
    pub fn holds_box(self) -> (r: bool)
        ensures
            r == is_box(self),
    {
        matches!(self, Cell::Box | Cell::BoxOnTarget)
    }

    /// Whether this cell holds the player.
    pub fn holds_player(self) -> (r: bool)
        ensures
            r == is_player(self),
    {
        matches!(self, Cell::PlayerDown | Cell::PlayerRight | Cell::PlayerLeft | Cell::PlayerUp)
    }
}

} // verus!
