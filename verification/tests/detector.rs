use connect_games::board::Board;
use connect_games::cell::{Acronym, Cell, GameType, WinState};
use connect_games::detector::{evaluate, get_diagonal_strings, line_contains, sequences};

const U: Cell = Cell::UserDisc;
const C: Cell = Cell::ComputerDisc;
const T: Cell = Cell::TokenT;
const O: Cell = Cell::TokenO;
const E: Cell = Cell::Empty;

fn board_with(rows: usize, cols: usize, moves: &[(usize, Cell)]) -> Board {
    let mut board = Board::create(rows, cols).unwrap();
    for (col, piece) in moves {
        board.perform_move(*col, *piece).unwrap();
    }
    board
}

fn connect4(board: &Board) -> WinState {
    evaluate(board, GameType::Connect4, Acronym::Unassigned)
}

#[test]
fn an_empty_board_has_no_winner() {
    let board = Board::create(7, 6).unwrap();
    assert_eq!(connect4(&board), WinState { user_won: false, computer_won: false });
    assert_eq!(
        evaluate(&board, GameType::TootAndOtto, Acronym::Toot),
        WinState { user_won: false, computer_won: false }
    );
}

#[test]
fn rising_diagonal_is_detected() {
    let board = board_with(
        6,
        7,
        &[(0, U), (1, C), (1, U), (2, C), (2, C), (2, U), (3, C), (3, C), (3, C), (3, U)],
    );
    assert_eq!(board.get(5, 0), Some(U));
    assert_eq!(board.get(4, 1), Some(U));
    assert_eq!(board.get(3, 2), Some(U));
    assert_eq!(board.get(2, 3), Some(U));
    assert_eq!(connect4(&board), WinState { user_won: true, computer_won: false });
}

#[test]
fn falling_diagonal_is_detected() {
    let board = board_with(
        6,
        7,
        &[(6, C), (5, U), (5, C), (4, U), (4, U), (4, C), (3, U), (3, U), (3, U), (3, C)],
    );
    assert_eq!(board.get(5, 6), Some(C));
    assert_eq!(board.get(2, 3), Some(C));
    assert_eq!(connect4(&board), WinState { user_won: false, computer_won: true });
}

#[test]
fn diagonals_off_the_corners_are_detected() {
    // rising, from (4, 2) to (1, 5): starts neither in a corner nor in the bottom row
    let rising = board_with(
        6,
        7,
        &[
            (2, C), (2, U),
            (3, C), (3, U), (3, U),
            (4, U), (4, C), (4, C), (4, U),
            (5, C), (5, U), (5, C), (5, C), (5, U),
        ],
    );
    assert_eq!(rising.get(4, 2), Some(U));
    assert_eq!(rising.get(1, 5), Some(U));
    assert_eq!(connect4(&rising), WinState { user_won: true, computer_won: false });
    // falling, from (1, 1) to (4, 4)
    let falling = board_with(
        6,
        7,
        &[
            (4, C), (4, U),
            (3, C), (3, U), (3, U),
            (2, U), (2, C), (2, C), (2, U),
            (1, C), (1, U), (1, C), (1, C), (1, U),
        ],
    );
    assert_eq!(falling.get(1, 1), Some(U));
    assert_eq!(falling.get(4, 4), Some(U));
    assert_eq!(connect4(&falling), WinState { user_won: true, computer_won: false });
}

#[test]
fn three_on_a_diagonal_do_not_win() {
    let board = board_with(6, 7, &[(0, U), (1, C), (1, U), (2, C), (2, C), (2, U)]);
    assert_eq!(connect4(&board), WinState { user_won: false, computer_won: false });
}

#[test]
fn rows_and_columns_are_detected() {
    let row = board_with(7, 6, &[(2, C), (3, C), (4, C), (5, C)]);
    assert_eq!(connect4(&row), WinState { user_won: false, computer_won: true });
    let column = board_with(7, 6, &[(5, U), (5, U), (5, U), (5, U)]);
    assert_eq!(connect4(&column), WinState { user_won: true, computer_won: false });
    let broken = board_with(7, 6, &[(0, U), (1, U), (2, C), (3, U), (4, U)]);
    assert_eq!(connect4(&broken), WinState { user_won: false, computer_won: false });
}

#[test]
fn five_in_a_row_win_as_well() {
    let board = board_with(7, 6, &[(0, U), (1, U), (3, U), (4, U), (2, U)]);
    assert_eq!(connect4(&board), WinState { user_won: true, computer_won: false });
}

#[test]
fn the_acronym_decides_whose_word_it_is() {
    let otto = board_with(4, 4, &[(0, O), (1, T), (2, T), (3, O)]);
    assert_eq!(
        evaluate(&otto, GameType::TootAndOtto, Acronym::Otto),
        WinState { user_won: true, computer_won: false }
    );
    assert_eq!(
        evaluate(&otto, GameType::TootAndOtto, Acronym::Unassigned),
        WinState { user_won: true, computer_won: false }
    );
    assert_eq!(
        evaluate(&otto, GameType::TootAndOtto, Acronym::Toot),
        WinState { user_won: false, computer_won: true }
    );
    let toot = board_with(4, 4, &[(2, T), (2, O), (2, O), (2, T)]);
    assert_eq!(
        evaluate(&toot, GameType::TootAndOtto, Acronym::Toot),
        WinState { user_won: true, computer_won: false }
    );
    assert_eq!(
        evaluate(&toot, GameType::TootAndOtto, Acronym::Otto),
        WinState { user_won: false, computer_won: true }
    );
}

#[test]
fn one_row_can_finish_both_words() {
    let board = board_with(7, 6, &[(0, T), (1, O), (2, O), (3, T), (4, T), (5, O)]);
    for acronym in [Acronym::Toot, Acronym::Otto, Acronym::Unassigned] {
        assert_eq!(
            evaluate(&board, GameType::TootAndOtto, acronym),
            WinState { user_won: true, computer_won: true }
        );
    }
}

#[test]
fn tokens_do_not_win_connect4() {
    let board = board_with(4, 4, &[(0, O), (1, T), (2, T), (3, O)]);
    assert_eq!(connect4(&board), WinState { user_won: false, computer_won: false });
}

#[test]
fn evaluate_does_not_change_the_board() {
    let board = board_with(6, 7, &[(0, U), (1, C), (1, U)]);
    let before: Vec<Vec<Cell>> = board.cells().to_vec();
    let _ = connect4(&board);
    assert_eq!(board.cells().to_vec(), before);
}

#[test]
fn sequences_are_the_targets_in_order() {
    assert_eq!(sequences(GameType::Connect4), vec![vec![U, U, U, U], vec![C, C, C, C]]);
    assert_eq!(sequences(GameType::TootAndOtto), vec![vec![O, T, T, O], vec![T, O, O, T]]);
}

#[test]
fn line_contains_finds_contiguous_runs_only() {
    assert!(line_contains(&vec![E, U, U, U, U, E], &vec![U, U, U, U]));
    assert!(line_contains(&vec![U, U, U, U], &vec![U, U, U, U]));
    assert!(line_contains(&vec![C, T, O, O, T], &vec![T, O, O, T]));
    assert!(!line_contains(&vec![U, U, E, U, U], &vec![U, U, U, U]));
    assert!(!line_contains(&vec![U, U, U], &vec![U, U, U, U]));
    assert!(!line_contains(&vec![], &vec![U]));
    assert!(line_contains(&vec![], &vec![]));
    assert!(line_contains(&vec![T], &vec![]));
}

#[test]
fn diagonals_come_in_the_stated_order() {
    let matrix = vec![vec![E, U], vec![C, T]];
    assert_eq!(
        get_diagonal_strings(&matrix),
        vec![vec![E, T], vec![U], vec![C], vec![E], vec![U, C], vec![T]]
    );
    let wide = vec![vec![U, C, T], vec![O, E, U]];
    assert_eq!(
        get_diagonal_strings(&wide),
        vec![
            vec![U, E],
            vec![C, U],
            vec![T],
            vec![O],
            vec![U],
            vec![C, O],
            vec![T, E],
            vec![U],
        ]
    );
}

#[test]
fn diagonals_of_a_single_row_are_its_cells() {
    let matrix = vec![vec![U, C, T]];
    assert_eq!(
        get_diagonal_strings(&matrix),
        vec![vec![U], vec![C], vec![T], vec![U], vec![C], vec![T]]
    );
}

#[test]
fn diagonals_of_rows_without_cells_are_empty() {
    let matrix: Vec<Vec<Cell>> = vec![vec![], vec![], vec![]];
    assert_eq!(get_diagonal_strings(&matrix), vec![vec![]; 4]);
}
