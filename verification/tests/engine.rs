//! Engine-level checks: query API, idempotence, purity, undo, prefixes,
//! cell classes, connectivity, keywords, and direct validation of move lists.

use lok::cell::{BoardCell, BLANK_LETTER, CONDUCTOR_LETTER, GAP_LETTER, WILDCARD_LETTER};
use lok::connect::{is_adjacent, is_on_lolo_path};
use lok::grid::{Grid, RC, XY};
use lok::keywords::{could_be_keyword, matching_keyword, Keyword};
use lok::moves::Move;
use lok::validate::validate;
use lok::{Board, MoveError, SolutionResult};

#[test]
fn board_dimensions() {
    let board = Board::new("LOK_\nLOK_").unwrap();
    assert_eq!(board.width(), 4);
    assert_eq!(board.height(), 2);
}

#[test]
fn board_get_reads_letters() {
    let board = Board::new("Lo-_").unwrap();
    // Letters are uppercased on ingestion.
    assert_eq!(board.get(0, 0).get_display(), 'L');
    assert_eq!(board.get(0, 1).get_display(), 'O');
    // A gap has no letter and is not interactive.
    assert!(!board.get(0, 2).is_interactive());
    assert_eq!(board.get(0, 2).get_display(), ' ');
    // A blank is interactive but displays no letter.
    assert!(board.get(0, 3).is_interactive());
    assert_eq!(board.get(0, 3).get_display(), ' ');
}

#[test]
fn board_get_tracks_moves() {
    let mut board = Board::new("LOK_").unwrap();
    assert!(!board.get(0, 0).is_blackened());
    assert_eq!(board.get(0, 0).get_mark_count(), 0);
    board.blacken(0, 0);
    assert!(board.get(0, 0).is_blackened());
    assert_eq!(board.get(0, 0).get_mark_count(), 1);
    assert!(!board.get(0, 1).is_blackened());
    board.mark_path(0, 1);
    assert!(board.get(0, 1).is_marked_for_path());
    assert_eq!(board.get(0, 1).get_mark_count(), 1);
}

#[test]
fn validation_is_idempotent() {
    let mut board = Board::new("LOK_").unwrap();
    board.blacken(0, 0);
    board.blacken(0, 1);
    let first = board.check_solution();
    let second = board.check_solution();
    let third = board.check_solution();
    assert_eq!(first, second);
    assert_eq!(second, third);
}

#[test]
fn validation_does_not_mutate_the_board() {
    let mut board = Board::new("LOK_").unwrap();
    board.blacken(0, 0);
    board.mark_path(0, 1);
    let width = board.width();
    let height = board.height();
    let cell00 = board.get(0, 0);
    let cell01 = board.get(0, 1);
    let _ = board.check_solution();
    assert_eq!(board.width(), width);
    assert_eq!(board.height(), height);
    assert_eq!(board.get(0, 0), cell00);
    assert_eq!(board.get(0, 1), cell01);
}

#[test]
fn undo_restores_cell_and_verdict() {
    let mut board = Board::new("LOK_").unwrap();
    let before = board.get(0, 2);
    let verdict_before = board.check_solution();
    board.blacken(0, 2);
    assert!(board.get(0, 2).is_blackened());
    board.undo();
    assert_eq!(board.get(0, 2), before);
    assert_eq!(board.check_solution(), verdict_before);
}

#[test]
fn undo_on_empty_log_is_a_no_op() {
    let mut board = Board::new("LOK_").unwrap();
    board.undo();
    assert_eq!(board.check_solution(), SolutionResult::Incomplete);
}

#[test]
fn proper_prefixes_of_a_correct_solution_are_never_correct() {
    let script: [(usize, usize); 8] = [
        (0, 0),
        (0, 1),
        (0, 2),
        (1, 3),
        (1, 0),
        (1, 1),
        (1, 2),
        (0, 3),
    ];
    for cut in 0..script.len() {
        let mut board = Board::new("LOK_\nLOK_").unwrap();
        for &(r, c) in script.iter().take(cut) {
            board.blacken(r, c);
        }
        let outcome = board.check_solution();
        assert!(matches!(
            outcome,
            SolutionResult::PartialKeyword | SolutionResult::NotIdle | SolutionResult::Incomplete
        ));
    }
    let mut board = Board::new("LOK_\nLOK_").unwrap();
    for &(r, c) in script.iter() {
        board.blacken(r, c);
    }
    assert_eq!(board.check_solution(), SolutionResult::Correct);
}

#[test]
fn empty_board_is_correct() {
    let board = Board::new("").unwrap();
    assert_eq!(board.width(), 0);
    assert_eq!(board.height(), 0);
    assert_eq!(board.check_solution(), SolutionResult::Correct);
    assert!(board.check());
}

#[test]
fn all_gaps_board_is_correct() {
    let board = Board::new("--\n--").unwrap();
    assert_eq!(board.check_solution(), SolutionResult::Correct);
}

#[test]
fn ta_invalid_letter_on_gap() {
    let mut board = Board::new("TA-\nQ-Q").unwrap();
    board.blacken(0, 0);
    board.blacken(0, 1);
    // Executing TA may not target a gap: it has no letter at all.
    board.blacken(1, 1);
    assert_eq!(
        board.check_solution(),
        SolutionResult::ErrorOnMove(2, MoveError::TAInvalidLetter)
    );
}

#[test]
fn validate_rejects_change_to_gap_glyph() {
    // A letter change to the gap glyph inside a replayed move list is judged
    // illegal. The board API never records such a change, so the move list is
    // handed to the validator directly.
    let grid = board_grid("?OK_");
    let moves = vec![Move::ChangeLetter(RC(0, 0), GAP_LETTER)];
    assert_eq!(
        validate(&grid, &moves),
        SolutionResult::ErrorOnMove(0, MoveError::CannotChangeToThisLetter)
    );
}

fn board_grid(text: &str) -> Grid<BoardCell> {
    let rows: Vec<&str> = text.split('\n').collect();
    let height = rows.len();
    let width = rows[0].len();
    let mut grid = Grid::new(width, height, &BoardCell::raw(BLANK_LETTER));
    for (r, row) in rows.iter().enumerate() {
        for (c, ch) in row.chars().enumerate() {
            grid.set(&RC(r, c), BoardCell::raw(ch));
        }
    }
    grid
}

#[test]
fn validate_accepts_a_plain_solution() {
    let grid = board_grid("LOK_");
    let moves = vec![
        Move::Blacken(RC(0, 0)),
        Move::Blacken(RC(0, 1)),
        Move::Blacken(RC(0, 2)),
        Move::Blacken(RC(0, 3)),
    ];
    assert_eq!(validate(&grid, &moves), SolutionResult::Correct);
}

#[test]
fn grid_basics() {
    let grid = Grid::new(3, 2, &7u8);
    assert_eq!(grid.width(), 3);
    assert_eq!(grid.height(), 2);
    assert_eq!(grid.cells().len(), 6);
    assert!(grid.cells().iter().all(|&v| v == 7));
    assert_eq!(grid.index_to_xy(4), XY(1, 1));
    assert_eq!(grid.index_to_xy(2), XY(2, 0));
}

#[test]
fn grid_set_and_get() {
    let mut grid = Grid::new(3, 2, &0u8);
    grid.set(&RC(1, 2), 9);
    assert_eq!(*grid.get(&RC(1, 2)), 9);
    assert_eq!(*grid.get(&RC(0, 2)), 0);
}

#[test]
fn grid_cells_mut_edits_in_place() {
    let mut grid = Grid::new(2, 2, &0u8);
    grid.cells_mut()[3] = 5;
    assert_eq!(*grid.get(&RC(1, 1)), 5);
    assert_eq!(*grid.get(&RC(0, 0)), 0);
}

#[test]
fn grid_enumerate_row_col_is_reading_order() {
    let grid = Grid::new(2, 2, &0u8);
    let positions = grid.enumerate_row_col();
    assert_eq!(positions, vec![RC(0, 0), RC(0, 1), RC(1, 0), RC(1, 1)]);
}

#[test]
fn cell_classes() {
    let gap = BoardCell::raw(GAP_LETTER);
    assert!(!gap.is_interactive());
    assert!(gap.is_done());
    let blank = BoardCell::raw(BLANK_LETTER);
    assert!(blank.is_interactive());
    assert!(!blank.is_done());
    assert_eq!(blank.get_letter(), None);
    assert_eq!(blank.get_letter_or_blank(), Some(BLANK_LETTER));
    let conductor = BoardCell::raw(CONDUCTOR_LETTER);
    assert!(conductor.is_conductor());
    assert!(conductor.is_traversible_for_keyword());
    assert!(!conductor.is_traversible_for_adjacency());
    let wildcard = BoardCell::raw(WILDCARD_LETTER);
    assert!(wildcard.was_ever_wildcard());
    assert_eq!(wildcard.get_letter(), Some(WILDCARD_LETTER));
    let lower = BoardCell::raw('q');
    assert_eq!(lower.get_letter(), Some('Q'));
}

#[test]
fn cell_change_letter() {
    let mut cell = BoardCell::raw(WILDCARD_LETTER);
    assert!(cell.try_change_letter('t'));
    assert_eq!(cell.get_letter(), Some('T'));
    assert!(cell.was_ever_wildcard());
    assert!(!cell.try_change_letter(GAP_LETTER));
    assert_eq!(cell.get_letter(), Some('T'));
    let mut plain = BoardCell::raw('A');
    assert!(!plain.was_ever_wildcard());
    assert!(plain.try_change_letter(WILDCARD_LETTER));
    assert!(plain.was_ever_wildcard());
}

#[test]
fn adjacency_walks_over_done_cells() {
    let grid = board_grid("A-B");
    // The gap between them is done, so the two letters are adjacent.
    assert!(is_adjacent(&grid, &RC(0, 0), &RC(0, 2)));
    assert!(is_adjacent(&grid, &RC(0, 2), &RC(0, 0)));
    // A cell is not adjacent to itself.
    assert!(!is_adjacent(&grid, &RC(0, 0), &RC(0, 0)));
    let blocked = board_grid("AZB");
    assert!(!is_adjacent(&blocked, &RC(0, 0), &RC(0, 2)));
    let diagonal = board_grid("A-\n-B");
    assert!(!is_adjacent(&diagonal, &RC(0, 0), &RC(1, 1)));
}

#[test]
fn lolo_path_is_one_diagonal() {
    let anchor = RC(2, 2);
    assert!(is_on_lolo_path(&anchor, &RC(1, 3)));
    assert!(is_on_lolo_path(&anchor, &RC(3, 1)));
    assert!(is_on_lolo_path(&anchor, &RC(0, 4)));
    // Not the anchor itself, nothing aligned, and not the other diagonal.
    assert!(!is_on_lolo_path(&anchor, &RC(2, 2)));
    assert!(!is_on_lolo_path(&anchor, &RC(2, 3)));
    assert!(!is_on_lolo_path(&anchor, &RC(1, 2)));
    assert!(!is_on_lolo_path(&anchor, &RC(1, 1)));
    assert!(!is_on_lolo_path(&anchor, &RC(3, 3)));
}

#[test]
fn keyword_prefixes_and_matches() {
    assert!(could_be_keyword(&vec![]));
    assert!(could_be_keyword(&vec!['L']));
    assert!(could_be_keyword(&vec!['L', 'O']));
    assert!(could_be_keyword(&vec!['L', 'O', 'L']));
    assert!(could_be_keyword(&vec!['T']));
    assert!(!could_be_keyword(&vec!['Q']));
    assert!(!could_be_keyword(&vec!['L', 'K']));
    assert_eq!(matching_keyword(&vec!['L', 'O', 'K']), Some(Keyword::Lok));
    assert_eq!(matching_keyword(&vec!['T', 'L', 'A', 'K']), Some(Keyword::Tlak));
    assert_eq!(matching_keyword(&vec!['T', 'A']), Some(Keyword::Ta));
    assert_eq!(matching_keyword(&vec!['B', 'E']), Some(Keyword::Be));
    assert_eq!(matching_keyword(&vec!['L', 'O', 'L', 'O']), Some(Keyword::Lolo));
    assert_eq!(matching_keyword(&vec!['L', 'O']), None);
    assert_eq!(matching_keyword(&vec![]), None);
}

#[test]
fn crlf_text_parses_like_lf_text() {
    let board = Board::new("LOK_\r\nLOK_").unwrap();
    assert_eq!(board.width(), 4);
    assert_eq!(board.height(), 2);
}

#[test]
fn trailing_newline_adds_no_row() {
    let board = Board::new("LOK_\n").unwrap();
    assert_eq!(board.width(), 4);
    assert_eq!(board.height(), 1);
}
