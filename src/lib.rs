//! Push-box puzzle engine: the grid of cells, the walk-and-push rule of the
//! player, the completion check, level sequencing, the level text format and
//! the input rate limit.

pub mod cell;
pub mod grid;
pub mod puzzle;
pub mod game;
pub mod debounce;
pub mod level;
