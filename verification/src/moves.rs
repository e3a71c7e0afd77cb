//! Player moves, the errors a move can be judged with, and the outcome of a
//! whole solution.

use vstd::prelude::*;
use crate::grid::RC;

verus! {

/// One action of the player, always targeting a single cell.
#[derive(PartialEq, Eq, Structural, Clone, Copy, Debug)]
pub enum Move {
    /// Blacken the cell: gather a keyword letter, or execute a keyword.
    Blacken(RC),
    /// Mark the cell as part of a keyword path without blackening it.
    MarkPath(RC),
    /// Rewrite the cell's letter.
    ChangeLetter(RC, char),
}

impl Move {
    /// The row and column this move is targeting.
    pub open spec fn spec_rc(self) -> RC {
        match self {
            Move::Blacken(rc) => rc,
            Move::MarkPath(rc) => rc,
            Move::ChangeLetter(rc, _) => rc,
        }
    }

    /// Gets the row and column this move is targeting.
    pub fn get_rc(&self) -> (rc: &RC)
        ensures
            *rc == self.spec_rc(),
    {
        match self {
            Move::Blacken(rc) => rc,
            Move::MarkPath(rc) => rc,
            Move::ChangeLetter(rc, _) => rc,
        }
    }
}

/// Why a single move was illegal.
#[derive(PartialEq, Eq, Structural, Clone, Copy, Debug)]
pub enum MoveError {
    /// The target cell was already blackened; no move may target it again.
    AlreadyBlackened,
    /// A blacken during gathering was not connected to the previous keyword move.
    BlackenNotConnectedForKeyword,
    /// A path mark was not connected to the previous keyword move.
    PathNotConnectedForKeyword,
    /// The letters gathered so far are not a prefix of any known keyword.
    UnknownKeyword,
    /// A blacken during gathering targeted a cell without a keyword letter.
    GatheringNonLetter,
    /// The second TLAK execution cell was not adjacent to the first.
    TLAKNotAdjacent,
    /// A TA execution cell's letter did not match the chosen letter.
    TALetterMismatch,
    /// A TA execution cell had no letter at all.
    TAInvalidLetter,
    /// No cell may be blackened while executing BE.
    BECannotBlacken,
    /// A LOLO execution cell was not on the chosen diagonal.
    LOLONotOnPath,
    /// No cell may be marked for a path while executing a keyword.
    CannotMarkWhileExecuting,
    /// The requested letter may not be written into the cell.
    CannotChangeToThisLetter,
    /// The cell's letter may not be changed in the current state.
    CellCannotChangeLetterInThisState,
    /// BE may only fill a blank cell.
    BECannotChangeNonBlankCell,
    /// BE may not write the gap or blank glyph.
    BECannotChangeToThisLetter,
}

/// The structured outcome of validating a whole move sequence.
#[derive(PartialEq, Eq, Structural, Clone, Copy, Debug)]
pub enum SolutionResult {
    /// The solution is correct.
    Correct,
    /// All moves were individually correct, but some cells were not blackened.
    Incomplete,
    /// All moves were individually correct, but the puzzle was left with a
    /// keyword not fully executed.
    NotIdle,
    /// Individual moves were correct, but a keyword was partially gathered.
    PartialKeyword,
    /// The move with the given index was illegal.
    ErrorOnMove(usize, MoveError),
}

} // verus!
