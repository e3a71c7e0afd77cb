//! The fixed table of recognized keywords and the prefix tests on it.

use vstd::prelude::*;

verus! {

/// A recognized keyword. Each keyword, once gathered, obliges the player to a
/// specific execution phase.
#[derive(PartialEq, Eq, Structural, Clone, Copy, Debug)]
pub enum Keyword {
    /// Blacken one cell anywhere on the board.
    Lok,
    /// Blacken two adjacent cells anywhere on the board.
    Tlak,
    /// Choose a letter and blacken every cell carrying it.
    Ta,
    /// Fill one blank cell with a letter.
    Be,
    /// Blacken every cell on a chosen lower-left/upper-right diagonal.
    Lolo,
}

/// The letters of a keyword.
pub open spec fn keyword_chars(k: Keyword) -> Seq<char> {
    match k {
        Keyword::Lok => seq!['L', 'O', 'K'],
        Keyword::Tlak => seq!['T', 'L', 'A', 'K'],
        Keyword::Ta => seq!['T', 'A'],
        Keyword::Be => seq!['B', 'E'],
        Keyword::Lolo => seq!['L', 'O', 'L', 'O'],
    }
}

/// Whether `s` is a prefix (possibly all) of some known keyword.
pub open spec fn is_keyword_prefix(s: Seq<char>) -> bool {
    exists|k: Keyword| s.is_prefix_of(keyword_chars(k))
}

/// The keyword that `s` spells in full, if any.
pub open spec fn spec_keyword_of(s: Seq<char>) -> Option<Keyword> {
    if s == keyword_chars(Keyword::Lok) {
        Some(Keyword::Lok)
    } else if s == keyword_chars(Keyword::Tlak) {
        Some(Keyword::Tlak)
    } else if s == keyword_chars(Keyword::Ta) {
        Some(Keyword::Ta)
    } else if s == keyword_chars(Keyword::Be) {
        Some(Keyword::Be)
    } else if s == keyword_chars(Keyword::Lolo) {
        Some(Keyword::Lolo)
    } else {
        None
    }
}

/// The letters of the keyword, as a vector.
pub fn keyword_vec(k: Keyword) -> (v: Vec<char>)
    ensures
        v@ == keyword_chars(k),
{
    let mut v: Vec<char> = Vec::new();
    match k {
        Keyword::Lok => {
            v.push('L');
            v.push('O');
            v.push('K');
        },
        Keyword::Tlak => {
            v.push('T');
            v.push('L');
            v.push('A');
            v.push('K');
        },
        Keyword::Ta => {
            v.push('T');
            v.push('A');
        },
        Keyword::Be => {
            v.push('B');
            v.push('E');
        },
        Keyword::Lolo => {
            v.push('L');
            v.push('O');
            v.push('L');
            v.push('O');
        },
    }
    proof {
        assert(v@ =~= keyword_chars(k));
    }
    v
}

/// Whether `s` is a prefix of `t`, element for element.
fn vec_is_prefix(s: &Vec<char>, t: &Vec<char>) -> (b: bool)
    ensures
        b == s@.is_prefix_of(t@),
{
    if s.len() > t.len() {
        proof {
            assert(!s@.is_prefix_of(t@));
        }
        return false;
    }
    let mut i: usize = 0;
    while i < s.len()
        invariant
            i <= s@.len() <= t@.len(),
            forall|j: int| 0 <= j < i ==> s@[j] == t@[j],
        decreases s@.len() - i,
    {
        if s[i] != t[i] {
            proof {
                assert(!s@.is_prefix_of(t@));
            }
            return false;
        }
        i = i + 1;
    }
    proof {
        assert(s@ =~= t@.subrange(0, s@.len() as int));
    }
    true
}

/// Whether `s` and `t` hold the same letters.
fn vec_eq(s: &Vec<char>, t: &Vec<char>) -> (b: bool)
    ensures
        b == (s@ == t@),
{
    if s.len() != t.len() {
        return false;
    }
    let mut i: usize = 0;
    while i < s.len()
        invariant
            i <= s@.len(),
            s@.len() == t@.len(),
            forall|j: int| 0 <= j < i ==> s@[j] == t@[j],
        decreases s@.len() - i,
    {
        if s[i] != t[i] {
            return false;
        }
        i = i + 1;
    }
    proof {
        assert(s@ =~= t@);
    }
    true
}

/// Whether the gathered letters could still grow into a known keyword.
pub fn could_be_keyword(s: &Vec<char>) -> (b: bool)
    ensures
        b == is_keyword_prefix(s@),
{
    let lok = keyword_vec(Keyword::Lok);
    let tlak = keyword_vec(Keyword::Tlak);
    let ta = keyword_vec(Keyword::Ta);
    let be = keyword_vec(Keyword::Be);
    let lolo = keyword_vec(Keyword::Lolo);
    let b = vec_is_prefix(s, &lok) || vec_is_prefix(s, &tlak) || vec_is_prefix(s, &ta)
        || vec_is_prefix(s, &be) || vec_is_prefix(s, &lolo);
    proof {
        if !b {
            assert forall|k: Keyword| !s@.is_prefix_of(keyword_chars(k)) by {
                match k {
                    Keyword::Lok => assert(!s@.is_prefix_of(keyword_chars(Keyword::Lok))),
                    Keyword::Tlak => assert(!s@.is_prefix_of(keyword_chars(Keyword::Tlak))),
                    Keyword::Ta => assert(!s@.is_prefix_of(keyword_chars(Keyword::Ta))),
                    Keyword::Be => assert(!s@.is_prefix_of(keyword_chars(Keyword::Be))),
                    Keyword::Lolo => assert(!s@.is_prefix_of(keyword_chars(Keyword::Lolo))),
                }
            }
        }
    }
    b
}

/// The keyword that the gathered letters spell in full, if any.
pub fn matching_keyword(s: &Vec<char>) -> (r: Option<Keyword>)
    ensures
        r == spec_keyword_of(s@),
{
    let lok = keyword_vec(Keyword::Lok);
    let tlak = keyword_vec(Keyword::Tlak);
    let ta = keyword_vec(Keyword::Ta);
    let be = keyword_vec(Keyword::Be);
    let lolo = keyword_vec(Keyword::Lolo);
    if vec_eq(s, &lok) {
        Some(Keyword::Lok)
    } else if vec_eq(s, &tlak) {
        Some(Keyword::Tlak)
    } else if vec_eq(s, &ta) {
        Some(Keyword::Ta)
    } else if vec_eq(s, &be) {
        Some(Keyword::Be)
    } else if vec_eq(s, &lolo) {
        Some(Keyword::Lolo)
    } else {
        None
    }
}

} // verus!
