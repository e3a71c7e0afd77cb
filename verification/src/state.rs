//! The state of the validation automaton while it replays a move sequence.

use vstd::prelude::*;
use crate::grid::RC;
use crate::keywords::Keyword;
use crate::moves::Move;

verus! {

/// The state of the validation automaton.
pub enum BoardState {
    /// The player is choosing the cells of a keyword. The letters gathered so
    /// far, and the moves (blackens and path marks) that gathered them.
    ///
    /// Once an entire keyword is found, its cells are blackened at once and
    /// the player is expected to execute the keyword; see the other variants
    /// for what each keyword demands. When the gathered string is empty, this
    /// state is the idle state.
    GatheringKeyword(Vec<char>, Vec<Move>),
    /// LOK expects the player to blacken one cell anywhere on the board.
    ExecutingLOK,
    /// TLAK expects the player to blacken two adjacent cells; the first one
    /// chosen is remembered here.
    ExecutingTLAK(Option<RC>),
    /// TA expects the player to blacken all cells with one letter; the chosen
    /// letter is remembered here. Blank cells are also permitted.
    ExecutingTA(Option<char>),
    /// BE expects the player to fill in one blank cell with a letter.
    ExecutingBE,
    /// LOLO expects the player to blacken every cell on a diagonal running
    /// down-left and up-right through a chosen cell, remembered here.
    ExecutingLOLO(Option<RC>),
}

/// The mathematical abstraction of a [`BoardState`].
pub ghost enum StateView {
    /// Gathering a keyword: the letters so far and the moves that chose them.
    Gathering(Seq<char>, Seq<Move>),
    /// Executing LOK.
    Lok,
    /// Executing TLAK, with the first blackened cell once chosen.
    Tlak(Option<RC>),
    /// Executing TA, with the chosen letter once chosen.
    Ta(Option<char>),
    /// Executing BE.
    Be,
    /// Executing LOLO, with the anchor cell once chosen.
    Lolo(Option<RC>),
}

impl View for BoardState {
    type V = StateView;

    open spec fn view(&self) -> StateView {
        match self {
            BoardState::GatheringKeyword(kw, kms) => StateView::Gathering(kw@, kms@),
            BoardState::ExecutingLOK => StateView::Lok,
            BoardState::ExecutingTLAK(anchor) => StateView::Tlak(*anchor),
            BoardState::ExecutingTA(chosen) => StateView::Ta(*chosen),
            BoardState::ExecutingBE => StateView::Be,
            BoardState::ExecutingLOLO(anchor) => StateView::Lolo(*anchor),
        }
    }
}

/// The idle state: gathering, with nothing gathered yet.
pub open spec fn idle_state() -> StateView {
    StateView::Gathering(Seq::empty(), Seq::empty())
}

/// The execution state that gathering the keyword `k` leads to.
pub open spec fn keyword_exec_state(k: Keyword) -> StateView {
    match k {
        Keyword::Lok => StateView::Lok,
        Keyword::Tlak => StateView::Tlak(None),
        Keyword::Ta => StateView::Ta(None),
        Keyword::Be => StateView::Be,
        Keyword::Lolo => StateView::Lolo(None),
    }
}

impl BoardState {
    /// A new state that represents being idle in the simulation.
    pub fn idle() -> (s: BoardState)
        ensures
            s@ == idle_state(),
    {
        let s = BoardState::GatheringKeyword(Vec::new(), Vec::new());
        proof {
            assert(s@->Gathering_0 =~= Seq::<char>::empty());
            assert(s@->Gathering_1 =~= Seq::<Move>::empty());
        }
        s
    }

    /// The state that executing the keyword `k` starts in.
    pub fn for_keyword(k: Keyword) -> (s: BoardState)
        ensures
            s@ == keyword_exec_state(k),
    {
        match k {
            Keyword::Lok => BoardState::ExecutingLOK,
            Keyword::Tlak => BoardState::ExecutingTLAK(None),
            Keyword::Ta => BoardState::ExecutingTA(None),
            Keyword::Be => BoardState::ExecutingBE,
            Keyword::Lolo => BoardState::ExecutingLOLO(None),
        }
    }
}

} // verus!
