//! Validation engine for a grid-based word-connection puzzle.
//!
//! A player blackens cells, marks transit cells and rewrites wildcard cells on
//! a rectangular board. The engine records those actions in an undoable move
//! log and, on demand, replays the whole log against a copy of the initial
//! grid to decide whether it forms a legal, complete solution — and if not, at
//! which move it first went wrong.

pub mod board;
pub mod cell;
pub mod connect;
pub mod grid;
pub mod keywords;
pub mod laws;
pub mod moves;
pub mod parse;
pub mod state;
pub mod validate;

pub use board::Board;
pub use cell::BoardCell;
pub use grid::{Grid, GridView, RC, XY};
pub use keywords::Keyword;
pub use moves::{Move, MoveError, SolutionResult};
