//! The grid-connectivity predicates of the game: straight-line adjacency,
//! keyword connectivity with conductor bends, and diagonal-path membership.

use vstd::prelude::*;
use crate::cell::BoardCell;
use crate::grid::{GridView, RC};
use crate::moves::Move;

verus! {

/// The grid of a board.
pub type BoardGrid = crate::grid::Grid<BoardCell>;

/// The mathematical abstraction of a board's grid.
pub type BoardGridView = GridView<BoardCell>;

/// A direction of travel along a row or column.
#[derive(PartialEq, Eq, Structural, Clone, Copy, Debug)]
pub enum Dir {
    /// Toward smaller row numbers.
    Up,
    /// Toward larger row numbers.
    Down,
    /// Toward smaller column numbers.
    Left,
    /// Toward larger column numbers.
    Right,
}

/// The direction that points from `a` straight at `b`, if the two are
/// row-aligned or column-aligned and distinct.
pub open spec fn spec_dir(a: RC, b: RC) -> Option<Dir> {
    if a.0 == b.0 && a.1 < b.1 {
        Some(Dir::Right)
    } else if a.0 == b.0 && a.1 > b.1 {
        Some(Dir::Left)
    } else if a.1 == b.1 && a.0 < b.0 {
        Some(Dir::Down)
    } else if a.1 == b.1 && a.0 > b.0 {
        Some(Dir::Up)
    } else {
        None
    }
}

/// The direction that points from `a` straight at `b`, if any.
pub fn dir_of(a: &RC, b: &RC) -> (d: Option<Dir>)
    ensures
        d == spec_dir(*a, *b),
{
    if a.0 == b.0 {
        if a.1 < b.1 {
            Some(Dir::Right)
        } else if a.1 > b.1 {
            Some(Dir::Left)
        } else {
            None
        }
    } else if a.1 == b.1 {
        if a.0 < b.0 {
            Some(Dir::Down)
        } else {
            Some(Dir::Up)
        }
    } else {
        None
    }
}

/// Whether a cell may be stepped over during a walk: done cells for adjacency
/// walks, done cells or active conductors for keyword walks.
pub open spec fn cell_passable(c: BoardCell, for_keyword: bool) -> bool {
    if for_keyword {
        c.spec_is_traversible_for_keyword()
    } else {
        c.spec_is_traversible_for_adjacency()
    }
}

/// Every cell of row `r` strictly between columns `lo` and `hi` is passable.
pub open spec fn row_clear(g: BoardGridView, r: int, lo: int, hi: int, for_keyword: bool) -> bool {
    forall|c: int| lo < c < hi ==> cell_passable(#[trigger] g.at_rc(r, c), for_keyword)
}

/// Every cell of column `c` strictly between rows `lo` and `hi` is passable.
pub open spec fn col_clear(g: BoardGridView, c: int, lo: int, hi: int, for_keyword: bool) -> bool {
    forall|r: int| lo < r < hi ==> cell_passable(#[trigger] g.at_rc(r, c), for_keyword)
}

/// Whether a unit-step walk from `from` in direction `d` reaches `to` without
/// leaving the grid or stepping on an impassable cell. The endpoints
/// themselves need not be passable.
pub open spec fn walk_reaches(
    g: BoardGridView,
    from: RC,
    d: Dir,
    to: RC,
    for_keyword: bool,
) -> bool {
    g.in_bounds(to) && match d {
        Dir::Right => from.0 == to.0 && from.1 < to.1 && row_clear(
            g,
            from.0 as int,
            from.1 as int,
            to.1 as int,
            for_keyword,
        ),
        Dir::Left => from.0 == to.0 && to.1 < from.1 && row_clear(
            g,
            from.0 as int,
            to.1 as int,
            from.1 as int,
            for_keyword,
        ),
        Dir::Down => from.1 == to.1 && from.0 < to.0 && col_clear(
            g,
            from.1 as int,
            from.0 as int,
            to.0 as int,
            for_keyword,
        ),
        Dir::Up => from.1 == to.1 && to.0 < from.0 && col_clear(
            g,
            from.1 as int,
            to.0 as int,
            from.0 as int,
            for_keyword,
        ),
    }
}

/// Checks that every cell of row `r` strictly between columns `lo` and `hi`
/// is passable.
fn check_row_clear(grid: &BoardGrid, r: usize, lo: usize, hi: usize, for_keyword: bool) -> (b:
    bool)
    requires
        grid@.wf(),
        r < grid@.height,
        lo < hi,
        hi <= grid@.width,
    ensures
        b == row_clear(grid@, r as int, lo as int, hi as int, for_keyword),
{
    let mut c: usize = lo + 1;
    while c < hi
        invariant
            grid@.wf(),
            r < grid@.height,
            lo < c <= hi,
            hi <= grid@.width,
            forall|j: int|
                lo < j < c ==> cell_passable(#[trigger] grid@.at_rc(r as int, j), for_keyword),
        decreases hi - c,
    {
        let cell = grid.get(&RC(r, c));
        let passable = if for_keyword {
            cell.is_traversible_for_keyword()
        } else {
            cell.is_traversible_for_adjacency()
        };
        if !passable {
            proof {
                assert(!cell_passable(grid@.at_rc(r as int, c as int), for_keyword));
            }
            return false;
        }
        c = c + 1;
    }
    true
}

/// Checks that every cell of column `c` strictly between rows `lo` and `hi`
/// is passable.
fn check_col_clear(grid: &BoardGrid, c: usize, lo: usize, hi: usize, for_keyword: bool) -> (b:
    bool)
    requires
        grid@.wf(),
        c < grid@.width,
        lo < hi,
        hi <= grid@.height,
    ensures
        b == col_clear(grid@, c as int, lo as int, hi as int, for_keyword),
{
    let mut r: usize = lo + 1;
    while r < hi
        invariant
            grid@.wf(),
            c < grid@.width,
            lo < r <= hi,
            hi <= grid@.height,
            forall|j: int|
                lo < j < r ==> cell_passable(#[trigger] grid@.at_rc(j, c as int), for_keyword),
        decreases hi - r,
    {
        let cell = grid.get(&RC(r, c));
        let passable = if for_keyword {
            cell.is_traversible_for_keyword()
        } else {
            cell.is_traversible_for_adjacency()
        };
        if !passable {
            proof {
                assert(!cell_passable(grid@.at_rc(r as int, c as int), for_keyword));
            }
            return false;
        }
        r = r + 1;
    }
    true
}

/// Walks one cell at a time from `from` in direction `d` and reports whether
/// the walk reaches `to`.
fn walk(grid: &BoardGrid, from: &RC, d: Dir, to: &RC, for_keyword: bool) -> (b: bool)
    requires
        grid@.wf(),
        grid@.in_bounds(*from),
        grid@.in_bounds(*to),
    ensures
        b == walk_reaches(grid@, *from, d, *to, for_keyword),
{
    match d {
        Dir::Right => from.0 == to.0 && from.1 < to.1 && check_row_clear(
            grid,
            from.0,
            from.1,
            to.1,
            for_keyword,
        ),
        Dir::Left => from.0 == to.0 && to.1 < from.1 && check_row_clear(
            grid,
            from.0,
            to.1,
            from.1,
            for_keyword,
        ),
        Dir::Down => from.1 == to.1 && from.0 < to.0 && check_col_clear(
            grid,
            from.1,
            from.0,
            to.0,
            for_keyword,
        ),
        Dir::Up => from.1 == to.1 && to.0 < from.0 && check_col_clear(
            grid,
            from.1,
            to.0,
            from.0,
            for_keyword,
        ),
    }
}

/// Whether two locations are adjacent: distinct, row- or column-aligned, and
/// every cell strictly between them traversible for adjacency.
pub open spec fn spec_is_adjacent(g: BoardGridView, rc1: RC, rc2: RC) -> bool {
    match spec_dir(rc1, rc2) {
        None => false,
        Some(d) => walk_reaches(g, rc1, d, rc2, false),
    }
}

/// Returns if two locations are considered adjacent to each other, according
/// to the game's adjacency rules.
pub fn is_adjacent(grid: &BoardGrid, rc1: &RC, rc2: &RC) -> (b: bool)
    requires
        grid@.wf(),
        grid@.in_bounds(*rc1),
        grid@.in_bounds(*rc2),
    ensures
        b == spec_is_adjacent(grid@, *rc1, *rc2),
{
    match dir_of(rc1, rc2) {
        // Not aligned, or a cell compared with itself: never adjacent.
        None => false,
        Some(d) => walk(grid, rc1, d, rc2, false),
    }
}

/// Whether `candidate` may extend the gathered keyword path `kms`: trivially
/// true for the first move; later moves must be aligned with the previous
/// move's cell and reachable from it by a keyword walk whose direction is
/// constrained by the move before that one. An active conductor on the
/// previous cell allows any direction except backtracking; an ordinary
/// previous cell forces the walk to continue straight.
pub open spec fn spec_is_connected_for_keyword(
    g: BoardGridView,
    kms: Seq<Move>,
    candidate: RC,
) -> bool {
    if kms.len() == 0 {
        true
    } else {
        let rc1 = kms.last().spec_rc();
        match spec_dir(rc1, candidate) {
            None => false,
            Some(d0) => {
                if kms.len() >= 2 {
                    let rc0 = kms[kms.len() - 2].spec_rc();
                    if g.at(rc1).spec_is_conductor() {
                        // Bending is allowed at a conductor, but not doubling
                        // back toward the move before it.
                        if spec_dir(rc1, rc0) == Some(d0) {
                            false
                        } else {
                            walk_reaches(g, rc1, d0, candidate, true)
                        }
                    } else {
                        // An ordinary cell forces the walk to continue in the
                        // direction it was entered from.
                        match spec_dir(rc0, rc1) {
                            None => false,
                            Some(forced) => walk_reaches(g, rc1, forced, candidate, true),
                        }
                    }
                } else {
                    walk_reaches(g, rc1, d0, candidate, true)
                }
            },
        }
    }
}

/// Returns if two cells are connected for the purposes of gathering a keyword.
/// Note that this is somewhat different than checking adjacency.
pub fn is_connected_for_keyword(grid: &BoardGrid, moves: &Vec<Move>, candidate: &RC) -> (b: bool)
    requires
        grid@.wf(),
        grid@.in_bounds(*candidate),
        forall|i: int| 0 <= i < moves@.len() ==> grid@.in_bounds(#[trigger] moves@[i].spec_rc()),
    ensures
        b == spec_is_connected_for_keyword(grid@, moves@, *candidate),
{
    // The first position of a path is always considered connected. Later
    // positions will have to be considered for connectivity to this one.
    if moves.len() == 0 {
        return true;
    }
    let rc1 = *moves[moves.len() - 1].get_rc();
    let d0 = match dir_of(&rc1, candidate) {
        // A location is never connected to itself, nor to a location it is
        // not aligned with.
        None => {
            return false;
        },
        Some(d) => d,
    };
    if moves.len() >= 2 {
        let rc0 = *moves[moves.len() - 2].get_rc();
        if grid.get(&rc1).is_conductor() {
            // The player walks rc0 -> rc1 -> candidate. A conductor at rc1
            // permits a change of direction there, but not doubling back
            // toward rc0.
            match dir_of(&rc1, &rc0) {
                Some(back) => {
                    if back == d0 {
                        return false;
                    }
                },
                None => {},
            }
            walk(grid, &rc1, d0, candidate, true)
        } else {
            // An ordinary cell at rc1 forces the direction from rc0 to rc1 to
            // be followed to get to the candidate.
            match dir_of(&rc0, &rc1) {
                None => false,
                Some(forced) => walk(grid, &rc1, forced, candidate, true),
            }
        }
    } else {
        walk(grid, &rc1, d0, candidate, true)
    }
}

/// Whether `target` lies strictly on the diagonal through `anchor` that runs
/// from lower-left to upper-right.
pub open spec fn spec_is_on_lolo_path(anchor: RC, target: RC) -> bool {
    if target.0 > anchor.0 {
        target.1 < anchor.1 && target.0 - anchor.0 == anchor.1 - target.1
    } else if target.0 < anchor.0 {
        target.1 > anchor.1 && anchor.0 - target.0 == target.1 - anchor.1
    } else {
        false
    }
}

/// Returns if a given cell is on a LOLO path (diagonal from lower-left to
/// upper-right) through the anchor.
pub fn is_on_lolo_path(anchor: &RC, target: &RC) -> (b: bool)
    ensures
        b == spec_is_on_lolo_path(*anchor, *target),
{
    if target.0 > anchor.0 {
        // Target row is higher (towards the lower-left of the board), so the
        // target column must be lower (towards the upper-right).
        if target.1 >= anchor.1 {
            return false;
        }
        target.0 - anchor.0 == anchor.1 - target.1
    } else if target.0 < anchor.0 {
        // Target row is lower (towards the upper-right of the board), so the
        // target column must be higher.
        if target.1 <= anchor.1 {
            return false;
        }
        anchor.0 - target.0 == target.1 - anchor.1
    } else {
        // Rows are equal, so it can't possibly be on a diagonal.
        false
    }
}

} // verus!
