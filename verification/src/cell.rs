//! The per-cell state of the board and the letter-class predicates on it.

use vstd::prelude::*;

verus! {

/// The glyph that marks a gap: a cell with no letter at all, permanently inert.
pub const GAP_LETTER: char = '-';

/// The glyph of a blank cell: interactive, but not a keyword letter.
pub const BLANK_LETTER: char = '_';

/// The glyph of a conductor: passable while gathering a keyword, never a
/// keyword letter itself.
pub const CONDUCTOR_LETTER: char = 'X';

/// The glyph of a wildcard: a cell whose letter may be rewritten at will
/// until it is blackened.
pub const WILDCARD_LETTER: char = '?';

/// Whether a character is ASCII.
pub open spec fn char_is_ascii(c: char) -> bool {
    (c as u32) < 128
}

/// The ASCII uppercase of a character: lowercase ASCII letters are mapped to
/// their uppercase form, every other character is unchanged.
pub open spec fn spec_to_upper(c: char) -> char {
    if 97 <= c as u32 <= 122 {
        ((c as u32 - 32) as u32) as char
    } else {
        c
    }
}

/// Maps lowercase ASCII letters to uppercase; leaves all other characters unchanged.
pub fn to_upper(c: char) -> (r: char)
    ensures
        r == spec_to_upper(c),
{
    let u = c as u32;
    if 97 <= u && u <= 122 {
        let b = (u - 32) as u8;
        b as char
    } else {
        c
    }
}

/// One cell of the board.
#[derive(Clone, Copy, PartialEq, Debug)]
pub struct BoardCell {
    /// The letter on the cell; `None` for a gap.
    pub letter: Option<char>,
    /// Whether the player has blackened this cell.
    pub is_blackened: bool,
    /// Whether the player has marked this cell as part of a path.
    pub is_marked_for_path: bool,
    /// Whether this cell ever held the wildcard glyph.
    pub was_ever_wildcard: bool,
    /// How many times the player has interacted with this cell (render-only).
    pub mark_count: u32,
}

impl BoardCell {
    /// The cell that the glyph `letter` denotes on a fresh board.
    pub open spec fn spec_raw(letter: char) -> BoardCell {
        BoardCell {
            letter: if letter == GAP_LETTER {
                None
            } else {
                Some(spec_to_upper(letter))
            },
            was_ever_wildcard: letter == WILDCARD_LETTER,
            is_blackened: false,
            is_marked_for_path: false,
            mark_count: 0,
        }
    }

    /// Constructs a new cell with the given letter. The cell may end up having
    /// a special function like being a gap, conductor, etc., based on what is
    /// provided in `letter`.
    pub fn raw(letter: char) -> (cell: BoardCell)
        requires
            char_is_ascii(letter),
        ensures
            cell == BoardCell::spec_raw(letter),
    {
        BoardCell {
            letter: if letter == GAP_LETTER {
                None
            } else {
                Some(to_upper(letter))
            },
            was_ever_wildcard: letter == WILDCARD_LETTER,
            is_blackened: false,
            is_marked_for_path: false,
            mark_count: 0,
        }
    }

    /// Creates a blank cell, not a gap.
    pub fn blank() -> (cell: BoardCell)
        ensures
            cell == BoardCell::spec_raw(BLANK_LETTER),
    {
        BoardCell::raw(BLANK_LETTER)
    }

    /// Tells if the player should be able to interact with this cell: every
    /// cell but a gap.
    pub open spec fn spec_is_interactive(self) -> bool {
        self.letter is Some
    }

    /// Tells if the player should be able to interact with this cell in the UI.
    pub fn is_interactive(&self) -> (b: bool)
        ensures
            b == self.spec_is_interactive(),
    {
        self.letter.is_some()
    }

    /// Tells if this cell should be rendered as blackened out.
    pub fn is_blackened(&self) -> (b: bool)
        ensures
            b == self.is_blackened,
    {
        self.is_blackened
    }

    /// Tells if this cell should be rendered as marked for a path.
    pub fn is_marked_for_path(&self) -> (b: bool)
        ensures
            b == self.is_marked_for_path,
    {
        self.is_marked_for_path
    }

    /// Gets the number of times the player has interacted with this cell, for rendering.
    pub fn get_mark_count(&self) -> (n: u32)
        ensures
            n == self.mark_count,
    {
        self.mark_count
    }

    /// Whether this is a blank (not gap) cell.
    pub open spec fn spec_is_blank(self) -> bool {
        self.letter == Some(BLANK_LETTER)
    }

    /// Returns whether this is a blank (not gap) cell.
    pub fn is_blank(&self) -> (b: bool)
        ensures
            b == self.spec_is_blank(),
    {
        match self.letter {
            Some(ch) => ch == BLANK_LETTER,
            _ => false,
        }
    }

    /// Whether this cell is complete for purposes of checking if the whole
    /// puzzle is solved: a gap, or blackened.
    pub open spec fn spec_is_done(self) -> bool {
        self.letter is None || self.is_blackened
    }

    /// Returns if this cell is considered complete for purposes of checking if
    /// the whole puzzle is solved.
    pub fn is_done(&self) -> (b: bool)
        ensures
            b == self.spec_is_done(),
    {
        self.letter.is_none() || self.is_blackened
    }

    /// Whether this cell can be traversed when checking that two cells are
    /// adjacent: exactly the done cells.
    pub open spec fn spec_is_traversible_for_adjacency(self) -> bool {
        self.spec_is_done()
    }

    /// Returns if this cell can be traversed as part of checking if two cells
    /// are adjacent.
    pub fn is_traversible_for_adjacency(&self) -> (b: bool)
        ensures
            b == self.spec_is_traversible_for_adjacency(),
    {
        self.is_done()
    }

    /// Whether this cell is an active (not blackened) conductor.
    pub open spec fn spec_is_conductor(self) -> bool {
        !self.is_blackened && self.letter == Some(CONDUCTOR_LETTER)
    }

    /// Returns if this cell is an active (not blackened) conductor.
    pub fn is_conductor(&self) -> (b: bool)
        ensures
            b == self.spec_is_conductor(),
    {
        !self.is_blackened && match self.letter {
            Some(ch) => ch == CONDUCTOR_LETTER,
            None => false,
        }
    }

    /// Whether this cell can be traversed while gathering a keyword: a done
    /// cell, or an active conductor.
    pub open spec fn spec_is_traversible_for_keyword(self) -> bool {
        self.spec_is_traversible_for_adjacency() || self.spec_is_conductor()
    }

    /// Returns if this cell can be traversed as part of gathering a keyword.
    pub fn is_traversible_for_keyword(&self) -> (b: bool)
        ensures
            b == self.spec_is_traversible_for_keyword(),
    {
        self.is_traversible_for_adjacency() || self.is_conductor()
    }

    /// Returns if this cell ever was a wildcard, which generally means its
    /// contents can be changed.
    pub fn was_ever_wildcard(&self) -> (b: bool)
        ensures
            b == self.was_ever_wildcard,
    {
        self.was_ever_wildcard
    }

    /// The letter in this cell, excluding both gap and blank: what keyword
    /// gathering reads.
    pub open spec fn spec_get_letter(self) -> Option<char> {
        match self.letter {
            None => None,
            Some(ch) => if ch == BLANK_LETTER {
                None
            } else {
                Some(ch)
            },
        }
    }

    /// Returns the letter in this cell.
    pub fn get_letter(&self) -> (r: Option<char>)
        ensures
            r == self.spec_get_letter(),
    {
        match self.letter {
            None => None,
            Some(ch) => if ch == BLANK_LETTER {
                None
            } else {
                Some(ch)
            },
        }
    }

    /// The letter in this cell, excluding only the gap: what TA matching reads.
    pub open spec fn spec_get_letter_or_blank(self) -> Option<char> {
        self.letter
    }

    /// Returns the letter in this cell, allowing returning the blank character too.
    pub fn get_letter_or_blank(&self) -> (r: Option<char>)
        ensures
            r == self.spec_get_letter_or_blank(),
    {
        self.letter
    }

    /// Gets the letter that should be displayed on this cell.
    pub fn get_display(&self) -> (r: char)
        ensures
            r == match self.spec_get_letter() {
                Some(ch) => ch,
                None => ' ',
            },
    {
        match self.get_letter() {
            Some(ch) => ch,
            None => ' ',
        }
    }

    /// The interaction counter bumped by one. The counter is render-only and
    /// has no semantic effect; it wraps around at `u32::MAX`.
    pub open spec fn spec_bumped_count(self) -> u32 {
        if self.mark_count == u32::MAX {
            0
        } else {
            (self.mark_count + 1) as u32
        }
    }

    /// This cell once blackened: the blackened flag set and the interaction
    /// counter bumped.
    pub open spec fn spec_blackened(self) -> BoardCell {
        BoardCell { is_blackened: true, mark_count: self.spec_bumped_count(), ..self }
    }

    /// Marks this cell as blackened.
    pub fn blacken(&mut self)
        ensures
            *final(self) == old(self).spec_blackened(),
    {
        self.is_blackened = true;
        self.mark_count = if self.mark_count == u32::MAX {
            0
        } else {
            self.mark_count + 1
        };
    }

    /// This cell once marked as part of a path.
    pub open spec fn spec_marked(self) -> BoardCell {
        BoardCell { is_marked_for_path: true, mark_count: self.spec_bumped_count(), ..self }
    }

    /// Marks this cell as part of a path.
    pub fn mark_path(&mut self)
        ensures
            *final(self) == old(self).spec_marked(),
    {
        self.is_marked_for_path = true;
        self.mark_count = if self.mark_count == u32::MAX {
            0
        } else {
            self.mark_count + 1
        };
    }

    /// Whether a letter change to `letter` is permitted: everything but the
    /// gap glyph may be written.
    pub open spec fn spec_change_allowed(letter: char) -> bool {
        letter != GAP_LETTER
    }

    /// This cell after a permitted letter change to `letter`.
    pub open spec fn spec_changed(self, letter: char) -> BoardCell {
        BoardCell {
            letter: Some(spec_to_upper(letter)),
            was_ever_wildcard: self.was_ever_wildcard || letter == WILDCARD_LETTER,
            ..self
        }
    }

    /// Attempts to change the letter in this cell and returns true if it was
    /// able to be changed or false if it wasn't permitted.
    pub fn try_change_letter(&mut self, letter: char) -> (ok: bool)
        ensures
            ok == BoardCell::spec_change_allowed(letter),
            *final(self) == if ok {
                old(self).spec_changed(letter)
            } else {
                *old(self)
            },
    {
        if letter == GAP_LETTER {
            // Not allowed to change the letter to a gap.
            false
        } else {
            self.letter = Some(to_upper(letter));
            if letter == WILDCARD_LETTER {
                self.was_ever_wildcard = true;
            }
            true
        }
    }
}

} // verus!
