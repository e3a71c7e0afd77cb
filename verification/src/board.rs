//! The board: the immutable initial grid, the undoable move log with its
//! per-move grid snapshots, and the validation entry points.

use vstd::prelude::*;
use crate::cell::{char_is_ascii, BoardCell};
use crate::connect::{BoardGrid, BoardGridView};
use crate::grid::{Grid, RC};
use crate::moves::{Move, SolutionResult};
use crate::parse::{lemma_split_lines_ascii, split_into_lines, split_lines};
use crate::validate::{blacken_one, gaps_not_wildcards, spec_outcome, validate};
use vstd::arithmetic::div_mod::{lemma_fundamental_div_mod, lemma_mod_bound};
use vstd::string::StringExecFns;

verus! {

/// A move paired with the grid as it stood right after the move was applied,
/// kept for O(1) undo and current-state queries. The validator never consults
/// the snapshot: it replays the moves against a fresh grid.
pub struct BoardStep {
    /// The player's move.
    pub mv: Move,
    /// The grid immediately after applying it.
    pub grid: BoardGrid,
}

/// The mathematical abstraction of a [`BoardStep`].
pub ghost struct StepView {
    /// The player's move.
    pub mv: Move,
    /// The grid immediately after applying it.
    pub grid: BoardGridView,
}

impl View for BoardStep {
    type V = StepView;

    open spec fn view(&self) -> StepView {
        StepView { mv: self.mv, grid: self.grid@ }
    }
}

/// The mathematical abstraction of a [`Board`]: the initial grid and the
/// logged steps.
pub ghost struct BoardView {
    /// The immutable initial grid.
    pub grid: BoardGridView,
    /// The logged steps, oldest first.
    pub steps: Seq<StepView>,
}

impl BoardView {
    /// The logged moves, oldest first.
    pub open spec fn moves(self) -> Seq<Move> {
        self.steps.map_values(|s: StepView| s.mv)
    }

    /// The grid as the player last left it: the latest snapshot, or the
    /// initial grid if nothing was played yet.
    pub open spec fn latest(self) -> BoardGridView {
        if self.steps.len() == 0 {
            self.grid
        } else {
            self.steps.last().grid
        }
    }

    /// Every snapshot shares the initial grid's dimensions and every logged
    /// move targets a cell of the grid.
    pub open spec fn wf(self) -> bool {
        &&& self.grid.wf()
        &&& forall|i: int|
            0 <= i < self.steps.len() ==> {
                &&& (#[trigger] self.steps[i]).grid.wf()
                &&& self.steps[i].grid.width == self.grid.width
                &&& self.steps[i].grid.height == self.grid.height
                &&& self.grid.in_bounds(self.steps[i].mv.spec_rc())
            }
    }

    /// The board after a blacken of the cell at `rc` is logged.
    pub open spec fn after_blacken(self, rc: RC) -> BoardView {
        BoardView {
            grid: self.grid,
            steps: self.steps.push(
                StepView { mv: Move::Blacken(rc), grid: blacken_one(self.latest(), Move::Blacken(rc)) },
            ),
        }
    }

    /// The board after a path mark of the cell at `rc` is logged.
    pub open spec fn after_mark_path(self, rc: RC) -> BoardView {
        BoardView {
            grid: self.grid,
            steps: self.steps.push(
                StepView {
                    mv: Move::MarkPath(rc),
                    grid: self.latest().with_cell(rc, self.latest().at(rc).spec_marked()),
                },
            ),
        }
    }

    /// The board after a letter change at `rc` is attempted: a permitted
    /// change is logged with its snapshot, a rejected one leaves the board
    /// untouched and is never recorded.
    pub open spec fn after_change_letter(self, rc: RC, letter: char) -> BoardView {
        if BoardCell::spec_change_allowed(letter) {
            BoardView {
                grid: self.grid,
                steps: self.steps.push(
                    StepView {
                        mv: Move::ChangeLetter(rc, letter),
                        grid: self.latest().with_cell(rc, self.latest().at(rc).spec_changed(letter)),
                    },
                ),
            }
        } else {
            self
        }
    }

    /// The board after an undo: the last step removed, or the board unchanged
    /// if nothing was played yet.
    pub open spec fn after_undo(self) -> BoardView {
        if self.steps.len() == 0 {
            self
        } else {
            BoardView { grid: self.grid, steps: self.steps.drop_last() }
        }
    }

    /// The outcome that validation assigns to this board.
    pub open spec fn outcome(self) -> SolutionResult {
        spec_outcome(self.grid, self.moves())
    }
}

/// A puzzle board: the initial grid and the player's move log.
pub struct Board {
    grid: BoardGrid,
    moves: Vec<BoardStep>,
}

impl View for Board {
    type V = BoardView;

    closed spec fn view(&self) -> BoardView {
        BoardView { grid: self.grid@, steps: self.moves@.map_values(|s: BoardStep| s@) }
    }
}

impl Board {
    /// Constructs a new board, given player input: one line of glyphs per
    /// row. All lines must have the same length; ragged input is rejected.
    pub fn new(contents: &str) -> (r: Result<Board, String>)
        requires
            forall|j: int| 0 <= j < contents@.len() ==> char_is_ascii(#[trigger] contents@[j]),
        ensures
            r is Ok <==> (forall|i: int|
                0 <= i < split_lines(contents@).len() ==> (#[trigger] split_lines(contents@)[i]).len()
                    == split_lines(contents@)[0].len()),
            r matches Ok(b) ==> {
                &&& b@.wf()
                &&& gaps_not_wildcards(b@.grid)
                &&& b@.steps == Seq::<StepView>::empty()
                &&& b@.grid.height == split_lines(contents@).len()
                &&& b@.grid.width == (if split_lines(contents@).len() == 0 {
                    0int
                } else {
                    split_lines(contents@)[0].len() as int
                })
                &&& forall|rr: int, cc: int|
                    0 <= rr < split_lines(contents@).len() && 0 <= cc < split_lines(
                        contents@,
                    )[rr].len() ==> b@.grid.at_rc(rr, cc) == BoardCell::spec_raw(
                        #[trigger] split_lines(contents@)[rr][cc],
                    )
            },
    {
        let ghost spec_lines = split_lines(contents@);
        proof {
            lemma_split_lines_ascii(contents@);
        }
        let lines = split_into_lines(contents);
        let rows = lines.len();
        let cols = if rows == 0 {
            0
        } else {
            lines[0].len()
        };
        // The size of the board is inferred from the number of lines and the
        // length of each line, which must all agree.
        let mut r: usize = 0;
        while r < rows
            invariant
                spec_lines == split_lines(contents@),
                rows == lines@.len(),
                r <= rows,
                rows == spec_lines.len(),
                forall|k: int| 0 <= k < rows ==> (#[trigger] lines@[k])@ == spec_lines[k],
                cols as int == (if rows == 0 {
                    0int
                } else {
                    spec_lines[0].len() as int
                }),
                forall|k: int| 0 <= k < r ==> (#[trigger] spec_lines[k]).len() == spec_lines[0].len(),
            decreases rows - r,
        {
            if lines[r].len() != cols {
                proof {
                    assert(split_lines(contents@)[r as int].len() != split_lines(
                        contents@,
                    )[0].len());
                    assert(!(forall|i: int|
                        0 <= i < split_lines(contents@).len() ==> (#[trigger] split_lines(
                            contents@,
                        )[i]).len() == split_lines(contents@)[0].len()));
                }
                return Err(String::from_str("all rows of the board must have the same length"));
            }
            r = r + 1;
        }
        // Fill in the board.
        let mut grid: BoardGrid = Grid::new(cols, rows, &BoardCell::blank());
        let mut r: usize = 0;
        while r < rows
            invariant
                rows == lines@.len(),
                r <= rows,
                rows == spec_lines.len(),
                forall|k: int| 0 <= k < rows ==> (#[trigger] lines@[k])@ == spec_lines[k],
                forall|k: int| 0 <= k < rows ==> (#[trigger] spec_lines[k]).len() == cols as int,
                forall|rr: int, cc: int|
                    0 <= rr < spec_lines.len() && 0 <= cc < spec_lines[rr].len() ==> char_is_ascii(
                        #[trigger] spec_lines[rr][cc],
                    ),
                grid@.wf(),
                grid@.width == cols,
                grid@.height == rows,
                forall|r2: int, c2: int|
                    0 <= r2 < r && 0 <= c2 < cols ==> #[trigger] grid@.at_rc(r2, c2)
                        == BoardCell::spec_raw(spec_lines[r2][c2]),
            decreases rows - r,
        {
            let line = &lines[r];
            let mut c: usize = 0;
            while c < cols
                invariant
                    rows == lines@.len(),
                    r < rows,
                    c <= cols,
                    rows == spec_lines.len(),
                    line@ == spec_lines[r as int],
                    forall|k: int| 0 <= k < rows ==> (#[trigger] spec_lines[k]).len() == cols as int,
                    forall|rr: int, cc: int|
                        0 <= rr < spec_lines.len() && 0 <= cc < spec_lines[rr].len()
                            ==> char_is_ascii(#[trigger] spec_lines[rr][cc]),
                    grid@.wf(),
                    grid@.width == cols,
                    grid@.height == rows,
                    forall|r2: int, c2: int|
                        0 <= r2 < r && 0 <= c2 < cols ==> #[trigger] grid@.at_rc(r2, c2)
                            == BoardCell::spec_raw(spec_lines[r2][c2]),
                    forall|c2: int|
                        0 <= c2 < c ==> #[trigger] grid@.at_rc(r as int, c2) == BoardCell::spec_raw(
                            spec_lines[r as int][c2],
                        ),
                decreases cols - c,
            {
                let ghost pre = grid@;
                let rc = RC(r, c);
                grid.set(&rc, BoardCell::raw(line[c]));
                proof {
                    pre.lemma_index_of_in_range(rc);
                    assert forall|r2: int, c2: int|
                        0 <= r2 < rows && 0 <= c2 < cols && (r2 < r as int || (r2 == r as int && c2
                            <= c as int)) implies #[trigger] grid@.at_rc(r2, c2)
                        == BoardCell::spec_raw(spec_lines[r2][c2]) by {
                        if r2 == r as int && c2 == c as int {
                            assert(grid@.at_rc(r2, c2) == BoardCell::spec_raw(
                                spec_lines[r as int][c as int],
                            ));
                        } else {
                            pre.lemma_index_of_injective(RC(r2 as usize, c2 as usize), rc);
                            assert(grid@.at_rc(r2, c2) == pre.at_rc(r2, c2));
                        }
                    }
                }
                c = c + 1;
            }
            r = r + 1;
        }
        proof {
            // Every flat index names a filled row/column pair, so no cell of
            // the finished grid is a letterless wildcard.
            assert forall|i: int|
                0 <= i < grid@.cells.len() && (#[trigger] grid@.cells[i]).letter is None implies
                !grid@.cells[i].was_ever_wildcard by {
                let w = cols as int;
                assert(grid@.cells.len() == w * rows);
                assert(w > 0) by (nonlinear_arith)
                    requires
                        0 <= i < w * rows,
                        w >= 0,
                {}
                lemma_fundamental_div_mod(i, w);
                lemma_mod_bound(i, w);
                let r2 = i / w;
                let c2 = i % w;
                assert(0 <= r2 < rows) by (nonlinear_arith)
                    requires
                        i == w * r2 + c2,
                        0 <= c2 < w,
                        0 <= i < w * rows,
                {}
                assert(grid@.cells[i] == grid@.at_rc(r2, c2));
                assert(grid@.at_rc(r2, c2) == BoardCell::spec_raw(spec_lines[r2][c2]));
            }
        }
        let board = Board { grid, moves: Vec::new() };
        proof {
            assert(board@.steps =~= Seq::<StepView>::empty());
        }
        Ok(board)
    }

    /// Gets the number of columns in the board.
    pub fn width(&self) -> (w: u32)
        ensures
            self@.grid.width <= u32::MAX ==> w == self@.grid.width,
    {
        #[verifier::truncate] (self.grid.width() as u32)
    }

    /// Gets the number of rows in the board.
    pub fn height(&self) -> (h: u32)
        ensures
            self@.grid.height <= u32::MAX ==> h == self@.grid.height,
    {
        #[verifier::truncate] (self.grid.height() as u32)
    }

    /// Returns the latest state of the board according to the moves that the
    /// player has made.
    fn get_latest(&self) -> (g: &BoardGrid)
        ensures
            g@ == self@.latest(),
    {
        if self.moves.len() > 0 {
            &self.moves[self.moves.len() - 1].grid
        } else {
            &self.grid
        }
    }

    /// Gets the specified location on the board. The upper-left corner is
    /// `(0, 0)`.
    pub fn get(&self, row: usize, col: usize) -> (cell: BoardCell)
        requires
            self@.wf(),
            row < self@.grid.height,
            col < self@.grid.width,
        ensures
            cell == self@.latest().at(RC(row, col)),
    {
        *self.get_latest().get(&RC(row, col))
    }

    /// Marks the specified cell as blackened and tracks this move in the
    /// solution.
    pub fn blacken(&mut self, row: usize, col: usize)
        requires
            old(self)@.wf(),
            row < old(self)@.grid.height,
            col < old(self)@.grid.width,
        ensures
            final(self)@ == old(self)@.after_blacken(RC(row, col)),
            final(self)@.wf(),
    {
        // Make a copy of the entire board and store that with the move, for
        // easy undo.
        let target_rc = RC(row, col);
        let mut new_grid = self.get_latest().clone();
        proof {
            assert(new_grid@.cells =~= self@.latest().cells);
            assert(new_grid@ == self@.latest());
        }
        let mut cell = *new_grid.get(&target_rc);
        cell.blacken();
        new_grid.set(&target_rc, cell);
        self.moves.push(BoardStep { mv: Move::Blacken(target_rc), grid: new_grid });
        proof {
            assert(self@.steps =~= old(self)@.after_blacken(target_rc).steps);
        }
    }

    /// Marks the specified cell as part of a path and tracks this move in the
    /// solution.
    pub fn mark_path(&mut self, row: usize, col: usize)
        requires
            old(self)@.wf(),
            row < old(self)@.grid.height,
            col < old(self)@.grid.width,
        ensures
            final(self)@ == old(self)@.after_mark_path(RC(row, col)),
            final(self)@.wf(),
    {
        // Make a copy of the entire board and store that with the move, for
        // easy undo.
        let target_rc = RC(row, col);
        let mut new_grid = self.get_latest().clone();
        proof {
            assert(new_grid@.cells =~= self@.latest().cells);
            assert(new_grid@ == self@.latest());
        }
        let mut cell = *new_grid.get(&target_rc);
        cell.mark_path();
        new_grid.set(&target_rc, cell);
        self.moves.push(BoardStep { mv: Move::MarkPath(target_rc), grid: new_grid });
        proof {
            assert(self@.steps =~= old(self)@.after_mark_path(target_rc).steps);
        }
    }

    /// Changes the letter in a cell and tracks this move in the solution. A
    /// change that is not permitted is silently not recorded.
    pub fn change_letter(&mut self, row: usize, col: usize, letter: char)
        requires
            old(self)@.wf(),
            row < old(self)@.grid.height,
            col < old(self)@.grid.width,
        ensures
            final(self)@ == old(self)@.after_change_letter(RC(row, col), letter),
            final(self)@.wf(),
    {
        // Make a copy of the entire board and store that with the move, for
        // easy undo.
        let target_rc = RC(row, col);
        let mut new_grid = self.get_latest().clone();
        proof {
            assert(new_grid@.cells =~= self@.latest().cells);
            assert(new_grid@ == self@.latest());
        }
        let mut cell = *new_grid.get(&target_rc);
        if !cell.try_change_letter(letter) {
            return;
        }
        new_grid.set(&target_rc, cell);
        self.moves.push(BoardStep { mv: Move::ChangeLetter(target_rc, letter), grid: new_grid });
        proof {
            assert(self@.steps =~= old(self)@.after_change_letter(target_rc, letter).steps);
        }
    }

    /// Removes the latest move from the solution. Does nothing if no move was
    /// made yet.
    pub fn undo(&mut self)
        requires
            old(self)@.wf(),
        ensures
            final(self)@ == old(self)@.after_undo(),
            final(self)@.wf(),
    {
        let ghost pre = self@;
        let popped = self.moves.pop();
        proof {
            if pre.steps.len() == 0 {
                assert(self@.steps =~= pre.steps);
            } else {
                assert(self@.steps =~= pre.steps.drop_last());
            }
        }
    }

    /// Evaluates the moves that have been tracked so far against the game's
    /// rules and reports whether they form a legal, complete solution — and
    /// if not, how they fall short.
    ///
    /// Validation is a pure read of the board: it takes the board by shared
    /// reference and replays the moves against a private copy of the initial
    /// grid, so nothing observable through `get`, `width` or `height` can
    /// change.
    pub fn check_solution(&self) -> (r: SolutionResult)
        requires
            self@.wf(),
        ensures
            r == self@.outcome(),
    {
        // Replay only the moves; the cached snapshots are never consulted.
        let n = self.moves.len();
        let mut mvs: Vec<Move> = Vec::new();
        let mut i: usize = 0;
        while i < n
            invariant
                n == self.moves@.len(),
                i <= n,
                self@.wf(),
                mvs@ =~= self@.moves().take(i as int),
            decreases n - i,
        {
            mvs.push(self.moves[i].mv);
            proof {
                assert(self@.moves()[i as int] == self.moves@[i as int]@.mv);
                assert(mvs@ =~= self@.moves().take(i as int + 1));
            }
            i = i + 1;
        }
        proof {
            assert(mvs@ =~= self@.moves());
            assert(forall|k: int|
                0 <= k < mvs@.len() ==> self@.grid.in_bounds((#[trigger] mvs@[k]).spec_rc()));
        }
        validate(&self.grid, &mvs)
    }

    /// Whether the tracked moves form a correct, complete solution.
    pub fn check(&self) -> (b: bool)
        requires
            self@.wf(),
        ensures
            b == (self@.outcome() == SolutionResult::Correct),
    {
        self.check_solution() == SolutionResult::Correct
    }
}

} // verus!
