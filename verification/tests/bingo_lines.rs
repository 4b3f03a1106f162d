use std::collections::HashSet;

use bingo::bingo::{winning_line, BINGO_LINES};

#[test]
fn first_row_wins() {
    let marked: HashSet<usize> = [0, 1, 2, 3, 4].iter().copied().collect();
    assert!(winning_line(&marked).is_some());
}

#[test]
fn main_diagonal_wins() {
    let marked: HashSet<usize> = [0, 6, 12, 18, 24].iter().copied().collect();
    assert!(winning_line(&marked).is_some());
}

#[test]
fn anti_diagonal_wins() {
    let marked: HashSet<usize> = [4, 8, 12, 16, 20].iter().copied().collect();
    assert!(winning_line(&marked).is_some());
}

#[test]
fn no_win_incomplete() {
    let marked: HashSet<usize> = [0, 1, 2, 3].iter().copied().collect();
    assert!(winning_line(&marked).is_none());
}

#[test]
fn winning_line_returns_the_completed_row() {
    let marked: HashSet<usize> = [12, 5, 6, 7, 8, 9].iter().copied().collect();
    assert_eq!(winning_line(&marked), Some([5, 6, 7, 8, 9]));
}

#[test]
fn winning_line_prefers_rows_over_columns_and_diagonals() {
    // Row 0, column 0 and the main diagonal are all complete: the row comes first.
    let marked: HashSet<usize> = [0, 1, 2, 3, 4, 5, 10, 15, 20, 6, 12, 18, 24].iter().copied().collect();
    assert_eq!(winning_line(&marked), Some([0, 1, 2, 3, 4]));
}

#[test]
fn winning_line_finds_a_column() {
    let marked: HashSet<usize> = [2, 7, 12, 17, 22].iter().copied().collect();
    assert_eq!(winning_line(&marked), Some([2, 7, 12, 17, 22]));
}

#[test]
fn every_listed_line_wins_alone() {
    for line in BINGO_LINES.iter() {
        let marked: HashSet<usize> = line.iter().copied().collect();
        assert_eq!(winning_line(&marked), Some(*line));
    }
}

#[test]
fn empty_marks_do_not_win() {
    let marked: HashSet<usize> = HashSet::new();
    assert_eq!(winning_line(&marked), None);
}
