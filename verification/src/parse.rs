//! Splitting puzzle text into lines: one line per board row.

use vstd::prelude::*;
use crate::cell::char_is_ascii;

verus! {

/// The position of the first line feed in `s`, or `s.len()` if there is none.
pub open spec fn newline_pos(s: Seq<char>) -> int
    decreases s.len(),
{
    if s.len() == 0 {
        0
    } else if s[0] == '\n' {
        0
    } else {
        1 + newline_pos(s.drop_first())
    }
}

/// A line with a trailing carriage return removed, as `str::lines` does.
pub open spec fn strip_cr(line: Seq<char>) -> Seq<char> {
    if line.len() > 0 && line.last() == '\r' {
        line.drop_last()
    } else {
        line
    }
}

/// The lines of `s`: split at line feeds, each line's trailing carriage
/// return stripped, with no empty final line for text ending in a line feed.
pub open spec fn split_lines(s: Seq<char>) -> Seq<Seq<char>>
    decreases s.len(),
    via split_lines_decreases
{
    if s.len() == 0 {
        Seq::empty()
    } else {
        let i = newline_pos(s);
        let line = strip_cr(s.take(i));
        if i == s.len() {
            seq![line]
        } else {
            seq![line] + split_lines(s.skip(i + 1))
        }
    }
}

#[via_fn]
proof fn split_lines_decreases(s: Seq<char>) {
    lemma_newline_pos(s);
}

/// The first line feed is where `newline_pos` says: no earlier character is a
/// line feed, and the position itself holds one unless it is the end.
pub proof fn lemma_newline_pos(s: Seq<char>)
    ensures
        0 <= newline_pos(s) <= s.len(),
        newline_pos(s) < s.len() ==> s[newline_pos(s)] == '\n',
        forall|j: int| 0 <= j < newline_pos(s) ==> s[j] != '\n',
    decreases s.len(),
{
    if s.len() != 0 && s[0] != '\n' {
        let rest = s.drop_first();
        lemma_newline_pos(rest);
        assert forall|j: int| 0 <= j < newline_pos(s) implies s[j] != '\n' by {
            if j > 0 {
                assert(s[j] == rest[j - 1]);
            }
        }
    }
}

/// Every character of every line of ASCII text is ASCII.
pub proof fn lemma_split_lines_ascii(s: Seq<char>)
    requires
        forall|j: int| 0 <= j < s.len() ==> char_is_ascii(#[trigger] s[j]),
    ensures
        forall|r: int, c: int|
            0 <= r < split_lines(s).len() && 0 <= c < split_lines(s)[r].len() ==> char_is_ascii(
                #[trigger] split_lines(s)[r][c],
            ),
    decreases s.len(),
{
    if s.len() != 0 {
        lemma_newline_pos(s);
        let i = newline_pos(s);
        let line = strip_cr(s.take(i));
        assert(forall|c: int| 0 <= c < line.len() ==> char_is_ascii(#[trigger] line[c]));
        if i < s.len() {
            let rest = s.skip(i + 1);
            assert(forall|j: int| 0 <= j < rest.len() ==> char_is_ascii(#[trigger] rest[j]));
            lemma_split_lines_ascii(rest);
            assert forall|r: int, c: int|
                0 <= r < split_lines(s).len() && 0 <= c < split_lines(s)[r].len() implies
                char_is_ascii(#[trigger] split_lines(s)[r][c]) by {
                if r == 0 {
                    assert(split_lines(s)[0] == line);
                } else {
                    assert(split_lines(s)[r] == split_lines(rest)[r - 1]);
                }
            }
        } else {
            assert forall|r: int, c: int|
                0 <= r < split_lines(s).len() && 0 <= c < split_lines(s)[r].len() implies
                char_is_ascii(#[trigger] split_lines(s)[r][c]) by {
                assert(split_lines(s)[0] == line);
            }
        }
    }
}

/// A nonempty text without line feeds is a single line.
proof fn lemma_split_lines_single(s: Seq<char>)
    requires
        s.len() > 0,
        forall|j: int| 0 <= j < s.len() ==> s[j] != '\n',
    ensures
        split_lines(s) =~= seq![strip_cr(s)],
{
    lemma_newline_pos(s);
    assert(newline_pos(s) == s.len());
    assert(s.take(s.len() as int) =~= s);
}

/// Splits puzzle text into its lines.
pub fn split_into_lines(s: &str) -> (lines: Vec<Vec<char>>)
    ensures
        lines@.len() == split_lines(s@).len(),
        forall|r: int| 0 <= r < lines@.len() ==> (#[trigger] lines@[r])@ == split_lines(s@)[r],
{
    let n = s.unicode_len();
    let mut lines: Vec<Vec<char>> = Vec::new();
    let mut cur: Vec<char> = Vec::new();
    let mut i: usize = 0;
    proof {
        assert(views_of(lines@) =~= Seq::<Seq<char>>::empty());
        assert(cur@ + s@.skip(0) =~= s@);
        assert(views_of(lines@) + split_lines(cur@ + s@.skip(0)) =~= split_lines(s@));
    }
    while i < n
        invariant
            n == s@.len(),
            i <= n,
            forall|j: int| 0 <= j < cur@.len() ==> cur@[j] != '\n',
            split_lines(s@) == views_of(lines@) + split_lines(cur@ + s@.skip(i as int)),
        decreases n - i,
    {
        let ghost pre_cur = cur@;
        let ghost pre_lines = lines@;
        let c = s.get_char(i);
        if c == '\n' {
            if cur.len() > 0 && cur[cur.len() - 1] == '\r' {
                cur.pop();
            }
            proof {
                assert(cur@ == strip_cr(pre_cur));
                let whole = pre_cur + s@.skip(i as int);
                lemma_newline_pos(whole);
                assert(whole[pre_cur.len() as int] == '\n');
                assert(newline_pos(whole) == pre_cur.len());
                assert(whole.take(pre_cur.len() as int) =~= pre_cur);
                assert(whole.skip(pre_cur.len() as int + 1) =~= s@.skip(i as int + 1));
                assert(split_lines(whole) == seq![strip_cr(pre_cur)] + split_lines(
                    s@.skip(i as int + 1),
                ));
            }
            lines.push(cur);
            cur = Vec::new();
            proof {
                assert(views_of(lines@) =~= views_of(pre_lines).push(strip_cr(pre_cur)));
                assert(cur@ + s@.skip(i as int + 1) =~= s@.skip(i as int + 1));
                assert(views_of(pre_lines) + (seq![strip_cr(pre_cur)] + split_lines(
                    s@.skip(i as int + 1),
                )) =~= views_of(lines@) + split_lines(s@.skip(i as int + 1)));
            }
        } else {
            cur.push(c);
            proof {
                assert(cur@ + s@.skip(i as int + 1) =~= pre_cur + s@.skip(i as int));
            }
        }
        i = i + 1;
    }
    proof {
        assert(cur@ + s@.skip(n as int) =~= cur@);
    }
    if cur.len() > 0 {
        let ghost pre_cur = cur@;
        if cur[cur.len() - 1] == '\r' {
            cur.pop();
        }
        proof {
            assert(cur@ == strip_cr(pre_cur));
            lemma_split_lines_single(pre_cur);
        }
        let ghost pre_lines = lines@;
        lines.push(cur);
        proof {
            assert(views_of(lines@) =~= views_of(pre_lines).push(strip_cr(pre_cur)));
            assert(views_of(lines@) =~= views_of(pre_lines) + seq![strip_cr(pre_cur)]);
        }
    } else {
        proof {
            assert(split_lines(cur@) =~= Seq::<Seq<char>>::empty());
            assert(views_of(lines@) + split_lines(cur@) =~= views_of(lines@));
        }
    }
    proof {
        assert(forall|r: int|
            0 <= r < lines@.len() ==> (#[trigger] lines@[r])@ == views_of(lines@)[r]);
    }
    lines
}

/// The views of a sequence of character vectors.
pub open spec fn views_of(ls: Seq<Vec<char>>) -> Seq<Seq<char>> {
    ls.map_values(|l: Vec<char>| l@)
}

} // verus!
