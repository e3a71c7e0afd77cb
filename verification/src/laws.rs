//! The library's laws: proved properties that relate the validation entry
//! point, the move log and the undo operation.

use vstd::prelude::*;
use crate::board::BoardView;
use crate::connect::BoardGridView;
use crate::grid::RC;
use crate::moves::{Move, SolutionResult};
use crate::state::{idle_state, StateView};
use crate::validate::{
    blacken_gathered, blacken_one, gaps_not_wildcards, lemma_replay_snoc, moves_in_bounds,
    spec_outcome, spec_replay, spec_step,
};

verus! {

/// Idempotence of validation: two results of validating the same board, with
/// no mutation in between, are the same result. The validation entry point
/// promises exactly `outcome()` of the board it reads, so this is its
/// determinism, written down.
pub proof fn lemma_validation_idempotent(b: BoardView, r1: SolutionResult, r2: SolutionResult)
    requires
        r1 == b.outcome(),
        r2 == b.outcome(),
    ensures
        r1 == r2,
{
}

/// Undo inverts a blacken: logging a blacken and then undoing it restores the
/// board exactly, so the cell reads as before and the move is gone from
/// validation's consideration.
pub proof fn lemma_undo_inverts_blacken(b: BoardView, rc: RC)
    ensures
        b.after_blacken(rc).after_undo() == b,
        b.after_blacken(rc).after_undo().latest() == b.latest(),
        b.after_blacken(rc).after_undo().moves() == b.moves(),
{
    assert(b.after_blacken(rc).after_undo().steps =~= b.steps);
}

/// Undo inverts a path mark in the same way.
pub proof fn lemma_undo_inverts_mark_path(b: BoardView, rc: RC)
    ensures
        b.after_mark_path(rc).after_undo() == b,
{
    assert(b.after_mark_path(rc).after_undo().steps =~= b.steps);
}

/// A successful replay still succeeds when cut short at any point.
proof fn lemma_replay_prefix_ok(g: BoardGridView, st: StateView, ms: Seq<Move>, k: int)
    requires
        0 <= k <= ms.len(),
        spec_replay(g, st, ms) is Ok,
    ensures
        spec_replay(g, st, ms.take(k)) is Ok,
    decreases k,
{
    if k == 0 {
        assert(ms.take(0) =~= Seq::<Move>::empty());
    } else {
        match spec_step(g, st, ms[0]) {
            Err(_) => {
                assert(spec_replay(g, st, ms) is Err);
            },
            Ok((g1, s1)) => {
                assert(ms.take(k)[0] == ms[0]);
                assert(ms.take(k).drop_first() =~= ms.drop_first().take(k - 1));
                assert(spec_replay(g1, s1, ms.drop_first()) is Ok);
                lemma_replay_prefix_ok(g1, s1, ms.drop_first(), k - 1);
            },
        }
    }
}

/// A move sequence whose every move is legal has no illegal move in any of
/// its prefixes: truncating the log can only change how far the solution got,
/// never make a played move retroactively wrong.
pub proof fn lemma_legal_prefix_stays_legal(g: BoardGridView, ms: Seq<Move>, k: int)
    requires
        0 <= k <= ms.len(),
        !(spec_outcome(g, ms) is ErrorOnMove),
    ensures
        !(spec_outcome(g, ms.take(k)) is ErrorOnMove),
{
    match spec_replay(g, idle_state(), ms) {
        Err((i, e)) => {
            assert(spec_outcome(g, ms) is ErrorOnMove);
        },
        Ok(_) => {
            lemma_replay_prefix_ok(g, idle_state(), ms, k);
        },
    }
}

/// Replacing one cell preserves the grid's shape, and preserves the absence
/// of letterless wildcards as long as the new cell is no counterexample.
proof fn lemma_with_cell_preserves(g: BoardGridView, rc: RC, v: crate::cell::BoardCell)
    requires
        g.wf(),
        g.in_bounds(rc),
        gaps_not_wildcards(g),
        v.letter is None ==> !v.was_ever_wildcard,
    ensures
        g.with_cell(rc, v).wf(),
        g.with_cell(rc, v).width == g.width,
        g.with_cell(rc, v).height == g.height,
        gaps_not_wildcards(g.with_cell(rc, v)),
{
    g.lemma_index_of_in_range(rc);
    let g2 = g.with_cell(rc, v);
    assert forall|i: int|
        0 <= i < g2.cells.len() && (#[trigger] g2.cells[i]).letter is None implies
        !g2.cells[i].was_ever_wildcard by {
        if i != g.index_of(rc) {
            assert(g2.cells[i] == g.cells[i]);
        }
    }
}

/// One blacken preserves the grid's shape and the wildcard invariant:
/// blackening changes no cell's letter and no cell's wildcard history.
proof fn lemma_blacken_one_preserves(g: BoardGridView, mv: Move)
    requires
        g.wf(),
        gaps_not_wildcards(g),
    ensures
        blacken_one(g, mv).wf(),
        blacken_one(g, mv).width == g.width,
        blacken_one(g, mv).height == g.height,
        gaps_not_wildcards(blacken_one(g, mv)),
{
    match mv {
        Move::Blacken(rc) => {
            if g.in_bounds(rc) {
                let v = g.at(rc).spec_blackened();
                g.lemma_index_of_in_range(rc);
                lemma_with_cell_preserves(g, rc, v);
            }
        },
        _ => {},
    }
}

/// Blackening a whole gathered keyword preserves the grid's shape and the
/// wildcard invariant.
proof fn lemma_blacken_gathered_preserves(g: BoardGridView, kms: Seq<Move>)
    requires
        g.wf(),
        gaps_not_wildcards(g),
    ensures
        blacken_gathered(g, kms).wf(),
        blacken_gathered(g, kms).width == g.width,
        blacken_gathered(g, kms).height == g.height,
        gaps_not_wildcards(blacken_gathered(g, kms)),
    decreases kms.len(),
{
    if kms.len() > 0 {
        lemma_blacken_gathered_preserves(g, kms.drop_last());
        lemma_blacken_one_preserves(blacken_gathered(g, kms.drop_last()), kms.last());
    }
}

/// One automaton step preserves the grid's shape and the wildcard invariant.
proof fn lemma_step_preserves(g: BoardGridView, st: StateView, mv: Move)
    requires
        g.wf(),
        gaps_not_wildcards(g),
        g.in_bounds(mv.spec_rc()),
        spec_step(g, st, mv) is Ok,
    ensures
        ({
            let g2 = spec_step(g, st, mv)->Ok_0.0;
            &&& g2.wf()
            &&& g2.width == g.width
            &&& g2.height == g.height
            &&& gaps_not_wildcards(g2)
        }),
{
    let rc = mv.spec_rc();
    let target = g.at(rc);
    match mv {
        Move::Blacken(_) => match st {
            StateView::Gathering(kw, kms) => {
                if spec_step(g, st, mv) matches Ok((g2, _)) && g2 != g {
                    lemma_blacken_gathered_preserves(g, kms.push(mv));
                }
            },
            _ => {
                lemma_blacken_one_preserves(g, mv);
            },
        },
        Move::MarkPath(_) => {},
        Move::ChangeLetter(_, letter) => {
            let v = target.spec_changed(letter);
            lemma_with_cell_preserves(g, rc, v);
        },
    }
}

/// A whole replay preserves the grid's shape and the wildcard invariant.
proof fn lemma_replay_preserves(g: BoardGridView, st: StateView, ms: Seq<Move>)
    requires
        g.wf(),
        gaps_not_wildcards(g),
        moves_in_bounds(g, ms),
    ensures
        ({
            let r = spec_replay(g, st, ms);
            r matches Ok((g2, _)) ==> {
                &&& g2.wf()
                &&& g2.width == g.width
                &&& g2.height == g.height
                &&& gaps_not_wildcards(g2)
            }
        }),
    decreases ms.len(),
{
    if ms.len() > 0 {
        match spec_step(g, st, ms[0]) {
            Err(_) => {},
            Ok((g1, s1)) => {
                lemma_step_preserves(g, st, ms[0]);
                assert forall|i: int|
                    0 <= i < ms.drop_first().len() implies g1.in_bounds(
                    (#[trigger] ms.drop_first()[i]).spec_rc(),
                ) by {
                    assert(ms.drop_first()[i] == ms[i + 1]);
                    assert(g.in_bounds(ms[i + 1].spec_rc()));
                }
                lemma_replay_preserves(g1, s1, ms.drop_first());
            },
        }
    }
}

/// A proper prefix of a correct solution is never itself judged correct,
/// provided the first move cut off is not a path mark: a board left complete
/// and idle rejects every further blacken or letter change, so the full
/// solution could not have been correct. (A path mark of an inert gap cell is
/// the one move a finished board still accepts, which is why it is left out.)
pub proof fn lemma_proper_prefix_never_correct(g: BoardGridView, ms: Seq<Move>, k: int)
    requires
        g.wf(),
        gaps_not_wildcards(g),
        moves_in_bounds(g, ms),
        spec_outcome(g, ms) == SolutionResult::Correct,
        0 <= k < ms.len(),
        !(ms[k] is MarkPath),
    ensures
        spec_outcome(g, ms.take(k)) == SolutionResult::Incomplete || spec_outcome(g, ms.take(k))
            == SolutionResult::NotIdle || spec_outcome(g, ms.take(k))
            == SolutionResult::PartialKeyword,
{
    // The full replay succeeded, so the prefix replay does too.
    match spec_replay(g, idle_state(), ms) {
        Err((i, e)) => {
            assert(spec_outcome(g, ms) is ErrorOnMove);
        },
        Ok(_) => {},
    }
    lemma_replay_prefix_ok(g, idle_state(), ms, k);
    let (gk, sk) = spec_replay(g, idle_state(), ms.take(k))->Ok_0;
    assert forall|i: int|
        0 <= i < ms.take(k).len() implies g.in_bounds((#[trigger] ms.take(k)[i]).spec_rc()) by {
        assert(ms.take(k)[i] == ms[i]);
    }
    lemma_replay_preserves(g, idle_state(), ms.take(k));
    // Suppose the prefix were judged correct: the board would be complete and
    // idle, and the very next move would then be illegal.
    if spec_outcome(g, ms.take(k)) == SolutionResult::Correct {
        let rc = ms[k].spec_rc();
        let target = gk.at(rc);
        gk.lemma_index_of_in_range(rc);
        assert(target.spec_is_done());
        assert(spec_step(gk, sk, ms[k]) is Err) by {
            if !target.is_blackened {
                assert(target.letter is None);
                assert(!target.was_ever_wildcard);
            }
        }
        lemma_replay_snoc(g, idle_state(), ms, k, gk, sk);
        assert(spec_outcome(g, ms) is ErrorOnMove);
    }
}

} // verus!
