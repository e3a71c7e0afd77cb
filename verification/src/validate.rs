//! The validation automaton: the mathematical model of replaying a move
//! sequence against a fresh grid, and the verified replay that computes it.

use vstd::prelude::*;
use crate::cell::{BoardCell, BLANK_LETTER};
use crate::connect::{
    spec_is_adjacent, spec_is_connected_for_keyword, spec_is_on_lolo_path, is_adjacent,
    is_connected_for_keyword, is_on_lolo_path, BoardGrid, BoardGridView,
};
use crate::grid::RC;
use crate::keywords::{
    is_keyword_prefix, spec_keyword_of, could_be_keyword, matching_keyword,
};
use crate::moves::{Move, MoveError, SolutionResult};
use crate::state::{BoardState, StateView, idle_state, keyword_exec_state};

verus! {

/// The result of replaying some moves: the grid and automaton state reached,
/// or the offset and kind of the first illegal move.
pub type ReplayResult = Result<(BoardGridView, StateView), (int, MoveError)>;

/// The grid after one blacken move: the targeted cell blackened, everything
/// else unchanged. Moves that do not blacken leave the grid as it is.
pub open spec fn blacken_one(g: BoardGridView, mv: Move) -> BoardGridView {
    match mv {
        Move::Blacken(rc) => if g.in_bounds(rc) {
            g.with_cell(rc, g.at(rc).spec_blackened())
        } else {
            g
        },
        _ => g,
    }
}

/// The grid after blackening the cell of every blacken move of `kms`, in order.
pub open spec fn blacken_gathered(g: BoardGridView, kms: Seq<Move>) -> BoardGridView
    decreases kms.len(),
{
    if kms.len() == 0 {
        g
    } else {
        blacken_one(blacken_gathered(g, kms.drop_last()), kms.last())
    }
}

/// Whether some not-yet-blackened cell still carries `letter` (a blank's glyph
/// counts as its letter).
pub open spec fn has_unblackened_letter(g: BoardGridView, letter: char) -> bool {
    exists|i: int|
        0 <= i < g.cells.len() && !g.cells[i].is_blackened
            && #[trigger] g.cells[i].spec_get_letter_or_blank() == Some(letter)
}

/// Whether some cell on the lower-left/upper-right diagonal through `anchor`
/// is not yet done.
pub open spec fn lolo_path_unfinished(g: BoardGridView, anchor: RC) -> bool {
    exists|r: usize, c: usize|
        r < g.height && c < g.width && spec_is_on_lolo_path(anchor, RC(r, c)) && !(
        #[trigger] g.at(RC(r, c))).spec_is_done()
}

/// Whether every cell of the grid is done.
pub open spec fn grid_complete(g: BoardGridView) -> bool {
    forall|i: int| 0 <= i < g.cells.len() ==> (#[trigger] g.cells[i]).spec_is_done()
}

/// One step of the validation automaton: the grid and state that processing
/// `mv` leads to, or the error that `mv` is rejected with.
pub open spec fn spec_step(g: BoardGridView, st: StateView, mv: Move) -> Result<
    (BoardGridView, StateView),
    MoveError,
> {
    let rc = mv.spec_rc();
    let target = g.at(rc);
    if target.is_blackened {
        // No move may target a cell that is already blackened.
        Err(MoveError::AlreadyBlackened)
    } else {
        match mv {
            Move::Blacken(_) => match st {
                StateView::Gathering(kw, kms) => if !spec_is_connected_for_keyword(g, kms, rc) {
                    Err(MoveError::BlackenNotConnectedForKeyword)
                } else {
                    match target.spec_get_letter() {
                        // Keywords consist of only letters.
                        None => Err(MoveError::GatheringNonLetter),
                        Some(letter) => {
                            let new_kw = kw.push(letter);
                            if !is_keyword_prefix(new_kw) {
                                Err(MoveError::UnknownKeyword)
                            } else {
                                let new_kms = kms.push(mv);
                                match spec_keyword_of(new_kw) {
                                    // A whole keyword: blacken its cells at
                                    // once and start executing it.
                                    Some(k) => Ok(
                                        (blacken_gathered(g, new_kms), keyword_exec_state(k)),
                                    ),
                                    // Still a proper prefix: keep gathering.
                                    None => Ok((g, StateView::Gathering(new_kw, new_kms))),
                                }
                            }
                        },
                    }
                },
                StateView::Lok => Ok((blacken_one(g, mv), idle_state())),
                StateView::Tlak(anchor_opt) => match anchor_opt {
                    Some(anchor) => if !spec_is_adjacent(g, anchor, rc) {
                        Err(MoveError::TLAKNotAdjacent)
                    } else {
                        Ok((blacken_one(g, mv), idle_state()))
                    },
                    None => Ok((blacken_one(g, mv), StateView::Tlak(Some(rc)))),
                },
                StateView::Ta(chosen_opt) => match target.spec_get_letter_or_blank() {
                    None => Err(MoveError::TAInvalidLetter),
                    Some(letter) => if chosen_opt matches Some(chosen) && chosen != letter {
                        Err(MoveError::TALetterMismatch)
                    } else {
                        let g2 = blacken_one(g, mv);
                        if has_unblackened_letter(g2, letter) {
                            Ok((g2, StateView::Ta(Some(letter))))
                        } else {
                            Ok((g2, idle_state()))
                        }
                    },
                },
                StateView::Be => Err(MoveError::BECannotBlacken),
                StateView::Lolo(anchor_opt) => match anchor_opt {
                    Some(anchor) => if !spec_is_on_lolo_path(anchor, rc) {
                        Err(MoveError::LOLONotOnPath)
                    } else {
                        let g2 = blacken_one(g, mv);
                        if lolo_path_unfinished(g2, anchor) {
                            Ok((g2, StateView::Lolo(Some(anchor))))
                        } else {
                            Ok((g2, idle_state()))
                        }
                    },
                    None => {
                        let g2 = blacken_one(g, mv);
                        if lolo_path_unfinished(g2, rc) {
                            Ok((g2, StateView::Lolo(Some(rc))))
                        } else {
                            Ok((g2, idle_state()))
                        }
                    },
                },
            },
            Move::MarkPath(_) => match st {
                StateView::Gathering(kw, kms) => if !spec_is_connected_for_keyword(g, kms, rc) {
                    Err(MoveError::PathNotConnectedForKeyword)
                } else {
                    // The mark joins the tracked path without blackening.
                    Ok((g, StateView::Gathering(kw, kms.push(mv))))
                },
                _ => Err(MoveError::CannotMarkWhileExecuting),
            },
            Move::ChangeLetter(_, letter) => match st {
                StateView::Be => if !target.spec_is_blank() {
                    // BE may only fill a blank cell.
                    Err(MoveError::BECannotChangeNonBlankCell)
                } else if letter == BLANK_LETTER || !BoardCell::spec_change_allowed(letter) {
                    Err(MoveError::BECannotChangeToThisLetter)
                } else {
                    Ok((g.with_cell(rc, target.spec_changed(letter)), idle_state()))
                },
                _ => if target.was_ever_wildcard {
                    // A cell that once held a wildcard may be rewritten at any
                    // time, to anything but a gap.
                    if !BoardCell::spec_change_allowed(letter) {
                        Err(MoveError::CannotChangeToThisLetter)
                    } else {
                        Ok((g.with_cell(rc, target.spec_changed(letter)), st))
                    }
                } else {
                    Err(MoveError::CellCannotChangeLetterInThisState)
                },
            },
        }
    }
}

/// Replaying a sequence of moves from a grid and state: the grid and state
/// reached, or the offset and kind of the first illegal move.
pub open spec fn spec_replay(g: BoardGridView, st: StateView, ms: Seq<Move>) -> ReplayResult
    decreases ms.len(),
{
    if ms.len() == 0 {
        Ok((g, st))
    } else {
        match spec_step(g, st, ms[0]) {
            Err(e) => Err((0, e)),
            Ok((g2, s2)) => match spec_replay(g2, s2, ms.drop_first()) {
                Err((i, e)) => Err((i + 1, e)),
                Ok(r) => Ok(r),
            },
        }
    }
}

/// The judgment passed once every move has been replayed: the automaton must
/// be idle again, and every cell must be done.
pub open spec fn spec_final_judgment(g: BoardGridView, st: StateView) -> SolutionResult {
    match st {
        StateView::Gathering(kw, _) => if kw.len() > 0 {
            SolutionResult::PartialKeyword
        } else if !grid_complete(g) {
            SolutionResult::Incomplete
        } else {
            SolutionResult::Correct
        },
        _ => SolutionResult::NotIdle,
    }
}

/// The outcome of validating the move sequence `ms` against the initial grid
/// `g`: the verdict of replaying every move from the idle state.
pub open spec fn spec_outcome(g: BoardGridView, ms: Seq<Move>) -> SolutionResult {
    match spec_replay(g, idle_state(), ms) {
        Err((i, e)) => SolutionResult::ErrorOnMove(i as usize, e),
        Ok((gf, st)) => spec_final_judgment(gf, st),
    }
}

/// A replay result with its error offset shifted by `k`.
pub open spec fn shift_err(r: ReplayResult, k: int) -> ReplayResult {
    match r {
        Err((i, e)) => Err((i + k, e)),
        Ok(x) => Ok(x),
    }
}

/// Replay decomposes at any prefix: once the first `i` moves succeed, the
/// whole replay continues from the grid and state they reached.
pub proof fn lemma_replay_decompose(g: BoardGridView, st: StateView, ms: Seq<Move>, i: int)
    requires
        0 <= i <= ms.len(),
        spec_replay(g, st, ms.take(i)) is Ok,
    ensures
        spec_replay(g, st, ms) == shift_err(
            spec_replay(
                spec_replay(g, st, ms.take(i))->Ok_0.0,
                spec_replay(g, st, ms.take(i))->Ok_0.1,
                ms.skip(i),
            ),
            i,
        ),
    decreases i,
{
    if i == 0 {
        assert(ms.take(0) =~= Seq::<Move>::empty());
        assert(ms.skip(0) =~= ms);
        let r = spec_replay(g, st, ms);
        assert(shift_err(r, 0) == r) by {
            match r {
                Err((j, e)) => assert(j + 0 == j),
                Ok(_) => {},
            }
        }
    } else {
        let t = ms.take(i);
        assert(t[0] == ms[0]);
        assert(t.len() == i > 0);
        match spec_step(g, st, ms[0]) {
            Err(e) => {
                assert(spec_replay(g, st, t) is Err);
            },
            Ok((g1, s1)) => {
                assert(t.drop_first() =~= ms.drop_first().take(i - 1));
                assert(ms.drop_first().skip(i - 1) =~= ms.skip(i));
                lemma_replay_decompose(g1, s1, ms.drop_first(), i - 1);
                let mid = spec_replay(g1, s1, ms.drop_first().take(i - 1));
                assert(mid == spec_replay(g, st, t)) by {
                    assert(spec_replay(g, st, t) == match spec_replay(
                        g1,
                        s1,
                        t.drop_first(),
                    ) {
                        Err((j, e)) => Err::<(BoardGridView, StateView), (int, MoveError)>(
                            (j + 1, e),
                        ),
                        Ok(r) => Ok(r),
                    });
                    assert(spec_replay(g, st, t) is Ok);
                }
                let (gi, si) = mid->Ok_0;
                let tail = spec_replay(gi, si, ms.skip(i));
                assert(spec_replay(g1, s1, ms.drop_first()) == shift_err(tail, i - 1));
                assert(spec_replay(g, st, ms) == shift_err(
                    spec_replay(g1, s1, ms.drop_first()),
                    1,
                ));
                assert(shift_err(shift_err(tail, i - 1), 1) == shift_err(tail, i)) by {
                    match tail {
                        Err((j, e)) => assert(j + (i - 1) + 1 == j + i),
                        Ok(_) => {},
                    }
                }
            },
        }
    }
}

/// Blackens the cell that the move targets.
fn apply_blacken(grid: &mut BoardGrid, rc: &RC)
    requires
        old(grid)@.wf(),
        old(grid)@.in_bounds(*rc),
    ensures
        final(grid)@ == blacken_one(old(grid)@, Move::Blacken(*rc)),
        final(grid)@.wf(),
        final(grid)@.width == old(grid)@.width,
        final(grid)@.height == old(grid)@.height,
{
    let mut cell = *grid.get(rc);
    cell.blacken();
    grid.set(rc, cell);
}

/// Scans the whole grid for a not-yet-blackened cell that still carries
/// `letter` (a blank's glyph counts as its letter).
fn scan_unblackened_letter(grid: &BoardGrid, letter: char) -> (b: bool)
    requires
        grid@.wf(),
    ensures
        b == has_unblackened_letter(grid@, letter),
{
    let cells = grid.cells();
    let n = cells.len();
    let mut i: usize = 0;
    while i < n
        invariant
            n == grid@.cells.len(),
            i <= n,
            cells@ == grid@.cells,
            forall|j: int|
                0 <= j < i ==> !(!grid@.cells[j].is_blackened
                    && #[trigger] grid@.cells[j].spec_get_letter_or_blank() == Some(letter)),
        decreases n - i,
    {
        let cell = cells[i];
        if !cell.is_blackened() {
            match cell.get_letter_or_blank() {
                Some(cell_letter) => if cell_letter == letter {
                    return true;
                },
                None => {},
            }
        }
        i = i + 1;
    }
    false
}

/// Scans the whole grid for a cell on the diagonal through `anchor` that is
/// not yet done.
fn scan_lolo_path_unfinished(grid: &BoardGrid, anchor: &RC) -> (b: bool)
    requires
        grid@.wf(),
    ensures
        b == lolo_path_unfinished(grid@, *anchor),
{
    let height = grid.height();
    let width = grid.width();
    let mut r: usize = 0;
    while r < height
        invariant
            grid@.wf(),
            height == grid@.height,
            width == grid@.width,
            r <= height,
            forall|r2: usize, c2: usize|
                r2 < r && c2 < width && spec_is_on_lolo_path(*anchor, RC(r2, c2)) ==> (
                #[trigger] grid@.at(RC(r2, c2))).spec_is_done(),
        decreases height - r,
    {
        let mut c: usize = 0;
        while c < width
            invariant
                grid@.wf(),
                height == grid@.height,
                width == grid@.width,
                r < height,
                c <= width,
                forall|r2: usize, c2: usize|
                    r2 < r && c2 < width && spec_is_on_lolo_path(*anchor, RC(r2, c2)) ==> (
                    #[trigger] grid@.at(RC(r2, c2))).spec_is_done(),
                forall|c2: usize|
                    c2 < c && spec_is_on_lolo_path(*anchor, RC(r, c2)) ==> (#[trigger] grid@.at(
                        RC(r, c2),
                    )).spec_is_done(),
            decreases width - c,
        {
            let rc = RC(r, c);
            if is_on_lolo_path(anchor, &rc) {
                let cell = grid.get(&rc);
                if !cell.is_done() {
                    return true;
                }
            }
            c = c + 1;
        }
        r = r + 1;
    }
    false
}

/// Scans the whole grid for a cell that is not yet done.
fn scan_grid_complete(grid: &BoardGrid) -> (b: bool)
    requires
        grid@.wf(),
    ensures
        b == grid_complete(grid@),
{
    let cells = grid.cells();
    let n = cells.len();
    let mut i: usize = 0;
    while i < n
        invariant
            n == grid@.cells.len(),
            i <= n,
            cells@ == grid@.cells,
            forall|j: int| 0 <= j < i ==> (#[trigger] grid@.cells[j]).spec_is_done(),
        decreases n - i,
    {
        if !cells[i].is_done() {
            return false;
        }
        i = i + 1;
    }
    true
}

/// After a successful replay of the first `i` moves, the step taken on move
/// `i` decides the replay of the first `i + 1`: an error there is the error
/// of the whole sequence, and a success extends the prefix.
pub proof fn lemma_replay_snoc(
    g0: BoardGridView,
    st0: StateView,
    ms: Seq<Move>,
    i: int,
    g: BoardGridView,
    st: StateView,
)
    requires
        0 <= i < ms.len(),
        spec_replay(g0, st0, ms.take(i)) == Ok::<(BoardGridView, StateView), (int, MoveError)>(
            (g, st),
        ),
    ensures
        spec_step(g, st, ms[i]) matches Err(e) ==> spec_replay(g0, st0, ms) == Err::<
            (BoardGridView, StateView),
            (int, MoveError),
        >((i, e)),
        spec_step(g, st, ms[i]) matches Ok(r2) ==> spec_replay(g0, st0, ms.take(i + 1))
            == Ok::<(BoardGridView, StateView), (int, MoveError)>(r2),
{
    lemma_replay_decompose(g0, st0, ms, i);
    let rest = ms.skip(i);
    assert(rest[0] == ms[i]);
    match spec_step(g, st, ms[i]) {
        Err(e) => {
            assert(spec_replay(g, st, rest) == Err::<(BoardGridView, StateView), (int, MoveError)>(
                (0, e),
            ));
        },
        Ok((g2, s2)) => {
            let t = ms.take(i + 1);
            assert(t.take(i) =~= ms.take(i));
            lemma_replay_decompose(g0, st0, t, i);
            assert(t.skip(i) =~= seq![ms[i]]);
            let single = seq![ms[i]];
            assert(single.drop_first() =~= Seq::<Move>::empty());
            assert(spec_replay(g2, s2, single.drop_first()) == Ok::<
                (BoardGridView, StateView),
                (int, MoveError),
            >((g2, s2)));
            assert(spec_replay(g, st, single) == Ok::<
                (BoardGridView, StateView),
                (int, MoveError),
            >((g2, s2)));
        },
    }
}

/// No cell without a letter ever counted as a wildcard. Boards built from
/// puzzle text satisfy this, and every move preserves it: a gap can never be
/// rewritten.
pub open spec fn gaps_not_wildcards(g: BoardGridView) -> bool {
    forall|i: int|
        0 <= i < g.cells.len() && (#[trigger] g.cells[i]).letter is None
            ==> !g.cells[i].was_ever_wildcard
}

/// Every move of the sequence targets a cell of the grid.
pub open spec fn moves_in_bounds(g: BoardGridView, ms: Seq<Move>) -> bool {
    forall|i: int| 0 <= i < ms.len() ==> g.in_bounds((#[trigger] ms[i]).spec_rc())
}

/// What the replay maintains of its automaton state: every recorded position
/// lies on the grid.
pub open spec fn state_wf(g: BoardGridView, st: StateView) -> bool {
    match st {
        StateView::Gathering(_, kms) => forall|i: int|
            0 <= i < kms.len() ==> g.in_bounds((#[trigger] kms[i]).spec_rc()),
        StateView::Tlak(anchor) => anchor matches Some(a) ==> g.in_bounds(a),
        StateView::Lolo(anchor) => anchor matches Some(a) ==> g.in_bounds(a),
        _ => true,
    }
}

/// State well-formedness only depends on the grid's dimensions.
proof fn lemma_state_wf_same_dims(g1: BoardGridView, g2: BoardGridView, st: StateView)
    requires
        state_wf(g1, st),
        g1.width == g2.width,
        g1.height == g2.height,
    ensures
        state_wf(g2, st),
{
    match st {
        StateView::Gathering(_, kms) => {
            assert forall|i: int| 0 <= i < kms.len() implies g2.in_bounds(
                (#[trigger] kms[i]).spec_rc(),
            ) by {
                assert(g1.in_bounds(kms[i].spec_rc()));
            }
        },
        _ => {},
    }
}

/// Blackens the cell of every blacken move of `kms`, in order.
fn blacken_all(grid: &mut BoardGrid, kms: &Vec<Move>)
    requires
        old(grid)@.wf(),
        forall|i: int|
            0 <= i < kms@.len() ==> old(grid)@.in_bounds((#[trigger] kms@[i]).spec_rc()),
    ensures
        final(grid)@ == blacken_gathered(old(grid)@, kms@),
        final(grid)@.wf(),
        final(grid)@.width == old(grid)@.width,
        final(grid)@.height == old(grid)@.height,
{
    let n = kms.len();
    let mut j: usize = 0;
    while j < n
        invariant
            n == kms@.len(),
            j <= n,
            forall|i: int|
                0 <= i < kms@.len() ==> old(grid)@.in_bounds((#[trigger] kms@[i]).spec_rc()),
            grid@ == blacken_gathered(old(grid)@, kms@.take(j as int)),
            grid@.wf(),
            grid@.width == old(grid)@.width,
            grid@.height == old(grid)@.height,
        decreases n - j,
    {
        proof {
            assert(kms@.take(j as int + 1).drop_last() =~= kms@.take(j as int));
            assert(kms@.take(j as int + 1).last() == kms@[j as int]);
        }
        match kms[j] {
            Move::Blacken(brc) => {
                apply_blacken(grid, &brc);
            },
            _ => {},
        }
        j = j + 1;
    }
    proof {
        assert(kms@.take(n as int) =~= kms@);
    }
}

/// Replays `moves` against a private copy of `grid`, judging each move in
/// turn, and judges completeness at the end. Returns the structured outcome
/// that the mathematical model assigns to exactly this grid and move sequence.
pub fn validate(grid: &BoardGrid, moves: &Vec<Move>) -> (r: SolutionResult)
    requires
        grid@.wf(),
        forall|i: int| 0 <= i < moves@.len() ==> grid@.in_bounds((#[trigger] moves@[i]).spec_rc()),
    ensures
        r == spec_outcome(grid@, moves@),
{
    // The simulation runs on a copy of the board and starts at idle.
    let mut simgrid = grid.clone();
    proof {
        assert(simgrid@.cells =~= grid@.cells);
        assert(simgrid@ == grid@);
    }
    let mut state = BoardState::idle();
    let n = moves.len();
    let mut i: usize = 0;
    while i < n
        invariant
            grid@.wf(),
            forall|k: int|
                0 <= k < moves@.len() ==> grid@.in_bounds((#[trigger] moves@[k]).spec_rc()),
            n == moves@.len(),
            i <= n,
            simgrid@.wf(),
            simgrid@.width == grid@.width,
            simgrid@.height == grid@.height,
            state_wf(simgrid@, state@),
            spec_replay(grid@, idle_state(), moves@.take(i as int)) == Ok::<
                (BoardGridView, StateView),
                (int, MoveError),
            >((simgrid@, state@)),
        decreases n - i,
    {
        let ghost pre_g = simgrid@;
        let ghost pre_st = state@;
        let mv = moves[i];
        let rc = *mv.get_rc();
        proof {
            assert(moves@[i as int].spec_rc() == rc);
            assert(simgrid@.in_bounds(rc));
            lemma_replay_snoc(grid@, idle_state(), moves@, i as int, pre_g, pre_st);
        }
        let target = *simgrid.get(&rc);

        // No move may target a cell that is already blackened.
        if target.is_blackened() {
            proof {
                assert(spec_step(pre_g, pre_st, mv) == Err::<(BoardGridView, StateView), MoveError>(
                    MoveError::AlreadyBlackened,
                ));
            }
            return SolutionResult::ErrorOnMove(i, MoveError::AlreadyBlackened);
        }
        state = match mv {
            Move::Blacken(_) => match state {
                BoardState::GatheringKeyword(kw, kms) => {
                    if !is_connected_for_keyword(&simgrid, &kms, &rc) {
                        proof {
                            assert(spec_step(pre_g, pre_st, mv) == Err::<
                                (BoardGridView, StateView),
                                MoveError,
                            >(MoveError::BlackenNotConnectedForKeyword));
                        }
                        return SolutionResult::ErrorOnMove(
                            i,
                            MoveError::BlackenNotConnectedForKeyword,
                        );
                    }
                    match target.get_letter() {
                        None => {
                            proof {
                                assert(spec_step(pre_g, pre_st, mv) == Err::<
                                    (BoardGridView, StateView),
                                    MoveError,
                                >(MoveError::GatheringNonLetter));
                            }
                            return SolutionResult::ErrorOnMove(i, MoveError::GatheringNonLetter);
                        },
                        Some(letter) => {
                            let mut new_kw = kw;
                            new_kw.push(letter);
                            // The gathered letters must still be the start of
                            // some known keyword.
                            if !could_be_keyword(&new_kw) {
                                proof {
                                    assert(spec_step(pre_g, pre_st, mv) == Err::<
                                        (BoardGridView, StateView),
                                        MoveError,
                                    >(MoveError::UnknownKeyword));
                                }
                                return SolutionResult::ErrorOnMove(i, MoveError::UnknownKeyword);
                            }
                            let mut new_kms = kms;
                            new_kms.push(mv);
                            match matching_keyword(&new_kw) {
                                Some(k) => {
                                    // A whole keyword was gathered: black out
                                    // all its cells at once and start
                                    // executing it.
                                    blacken_all(&mut simgrid, &new_kms);
                                    BoardState::for_keyword(k)
                                },
                                None => BoardState::GatheringKeyword(new_kw, new_kms),
                            }
                        },
                    }
                },
                BoardState::ExecutingLOK => {
                    // Executing LOK blackens exactly one cell.
                    apply_blacken(&mut simgrid, &rc);
                    BoardState::idle()
                },
                BoardState::ExecutingTLAK(anchor_opt) => match anchor_opt {
                    Some(anchor) => {
                        // The second TLAK cell must be adjacent to the first.
                        if !is_adjacent(&simgrid, &anchor, &rc) {
                            proof {
                                assert(spec_step(pre_g, pre_st, mv) == Err::<
                                    (BoardGridView, StateView),
                                    MoveError,
                                >(MoveError::TLAKNotAdjacent));
                            }
                            return SolutionResult::ErrorOnMove(i, MoveError::TLAKNotAdjacent);
                        }
                        apply_blacken(&mut simgrid, &rc);
                        BoardState::idle()
                    },
                    None => {
                        apply_blacken(&mut simgrid, &rc);
                        BoardState::ExecutingTLAK(Some(rc))
                    },
                },
                BoardState::ExecutingTA(chosen_opt) => match target.get_letter_or_blank() {
                    None => {
                        proof {
                            assert(spec_step(pre_g, pre_st, mv) == Err::<
                                (BoardGridView, StateView),
                                MoveError,
                            >(MoveError::TAInvalidLetter));
                        }
                        return SolutionResult::ErrorOnMove(i, MoveError::TAInvalidLetter);
                    },
                    Some(letter) => {
                        // Once a letter is chosen, every later TA cell must
                        // match it.
                        match chosen_opt {
                            Some(chosen) => if letter != chosen {
                                proof {
                                    assert(spec_step(pre_g, pre_st, mv) == Err::<
                                        (BoardGridView, StateView),
                                        MoveError,
                                    >(MoveError::TALetterMismatch));
                                }
                                return SolutionResult::ErrorOnMove(i, MoveError::TALetterMismatch);
                            },
                            None => {},
                        }
                        apply_blacken(&mut simgrid, &rc);
                        // TA goes on until no cell with the letter remains.
                        if scan_unblackened_letter(&simgrid, letter) {
                            BoardState::ExecutingTA(Some(letter))
                        } else {
                            BoardState::idle()
                        }
                    },
                },
                BoardState::ExecutingBE => {
                    proof {
                        assert(spec_step(pre_g, pre_st, mv) == Err::<
                            (BoardGridView, StateView),
                            MoveError,
                        >(MoveError::BECannotBlacken));
                    }
                    return SolutionResult::ErrorOnMove(i, MoveError::BECannotBlacken);
                },
                BoardState::ExecutingLOLO(anchor_opt) => {
                    let anchor = match anchor_opt {
                        Some(anchor) => {
                            // Every LOLO cell after the first must lie on the
                            // chosen diagonal.
                            if !is_on_lolo_path(&anchor, &rc) {
                                proof {
                                    assert(spec_step(pre_g, pre_st, mv) == Err::<
                                        (BoardGridView, StateView),
                                        MoveError,
                                    >(MoveError::LOLONotOnPath));
                                }
                                return SolutionResult::ErrorOnMove(i, MoveError::LOLONotOnPath);
                            }
                            apply_blacken(&mut simgrid, &rc);
                            anchor
                        },
                        None => {
                            apply_blacken(&mut simgrid, &rc);
                            rc
                        },
                    };
                    // LOLO goes on until the whole diagonal is done.
                    if scan_lolo_path_unfinished(&simgrid, &anchor) {
                        BoardState::ExecutingLOLO(Some(anchor))
                    } else {
                        BoardState::idle()
                    }
                },
            },
            Move::MarkPath(_) => match state {
                BoardState::GatheringKeyword(kw, kms) => {
                    // A path mark joins the tracked path without blackening.
                    if !is_connected_for_keyword(&simgrid, &kms, &rc) {
                        proof {
                            assert(spec_step(pre_g, pre_st, mv) == Err::<
                                (BoardGridView, StateView),
                                MoveError,
                            >(MoveError::PathNotConnectedForKeyword));
                        }
                        return SolutionResult::ErrorOnMove(i, MoveError::PathNotConnectedForKeyword);
                    }
                    let mut new_kms = kms;
                    new_kms.push(mv);
                    BoardState::GatheringKeyword(kw, new_kms)
                },
                _ => {
                    proof {
                        assert(spec_step(pre_g, pre_st, mv) == Err::<
                            (BoardGridView, StateView),
                            MoveError,
                        >(MoveError::CannotMarkWhileExecuting));
                    }
                    return SolutionResult::ErrorOnMove(i, MoveError::CannotMarkWhileExecuting);
                },
            },
            Move::ChangeLetter(_, letter) => match state {
                BoardState::ExecutingBE => {
                    // BE fills exactly one blank cell with a letter.
                    if !target.is_blank() {
                        proof {
                            assert(spec_step(pre_g, pre_st, mv) == Err::<
                                (BoardGridView, StateView),
                                MoveError,
                            >(MoveError::BECannotChangeNonBlankCell));
                        }
                        return SolutionResult::ErrorOnMove(i, MoveError::BECannotChangeNonBlankCell);
                    }
                    if letter == BLANK_LETTER {
                        proof {
                            assert(spec_step(pre_g, pre_st, mv) == Err::<
                                (BoardGridView, StateView),
                                MoveError,
                            >(MoveError::BECannotChangeToThisLetter));
                        }
                        return SolutionResult::ErrorOnMove(i, MoveError::BECannotChangeToThisLetter);
                    }
                    let mut cell = target;
                    if !cell.try_change_letter(letter) {
                        proof {
                            assert(spec_step(pre_g, pre_st, mv) == Err::<
                                (BoardGridView, StateView),
                                MoveError,
                            >(MoveError::BECannotChangeToThisLetter));
                        }
                        return SolutionResult::ErrorOnMove(i, MoveError::BECannotChangeToThisLetter);
                    }
                    simgrid.set(&rc, cell);
                    BoardState::idle()
                },
                other => {
                    // Any other state permits rewriting a cell that once held
                    // a wildcard.
                    if !target.was_ever_wildcard() {
                        proof {
                            assert(spec_step(pre_g, pre_st, mv) == Err::<
                                (BoardGridView, StateView),
                                MoveError,
                            >(MoveError::CellCannotChangeLetterInThisState));
                        }
                        return SolutionResult::ErrorOnMove(
                            i,
                            MoveError::CellCannotChangeLetterInThisState,
                        );
                    }
                    let mut cell = target;
                    if !cell.try_change_letter(letter) {
                        proof {
                            assert(spec_step(pre_g, pre_st, mv) == Err::<
                                (BoardGridView, StateView),
                                MoveError,
                            >(MoveError::CannotChangeToThisLetter));
                        }
                        return SolutionResult::ErrorOnMove(i, MoveError::CannotChangeToThisLetter);
                    }
                    simgrid.set(&rc, cell);
                    other
                },
            },
        };
        proof {
            assert(spec_step(pre_g, pre_st, mv) == Ok::<(BoardGridView, StateView), MoveError>(
                (simgrid@, state@),
            ));
            lemma_state_wf_same_dims(pre_g, simgrid@, pre_st);
            assert(state_wf(simgrid@, state@));
        }
        i = i + 1;
    }
    proof {
        assert(moves@.take(n as int) =~= moves@);
    }
    // The automaton must be idle again before the board can be judged done.
    match state {
        BoardState::GatheringKeyword(kw, _) => {
            if kw.len() > 0 {
                SolutionResult::PartialKeyword
            } else if !scan_grid_complete(&simgrid) {
                SolutionResult::Incomplete
            } else {
                SolutionResult::Correct
            }
        },
        _ => SolutionResult::NotIdle,
    }
}

} // verus!
