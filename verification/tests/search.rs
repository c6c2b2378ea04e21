use connect_games::board::Board;
use connect_games::cell::{Acronym, Cell, GameType};
use connect_games::detector::evaluate;
use connect_games::search::{break_tie, search, token_options, SearchResult};
use rand::rngs::StdRng;
use rand::SeedableRng;

const U: Cell = Cell::UserDisc;
const C: Cell = Cell::ComputerDisc;
const T: Cell = Cell::TokenT;
const O: Cell = Cell::TokenO;

fn board_with(rows: usize, cols: usize, moves: &[(usize, Cell)]) -> Board {
    let mut board = Board::create(rows, cols).unwrap();
    for (col, piece) in moves {
        board.perform_move(*col, *piece).unwrap();
    }
    board
}

fn full_search(
    board: &mut Board,
    game_type: GameType,
    acronym: Acronym,
    player: bool,
    depth: u32,
    seed: u64,
) -> SearchResult {
    let mut rng = StdRng::seed_from_u64(seed);
    search(board, game_type, acronym, player, depth, i32::MIN, i32::MAX, &mut rng)
}

/// Minimax without pruning, written against the public board operations.
fn exhaustive(
    board: &mut Board,
    game_type: GameType,
    acronym: Acronym,
    player: bool,
    depth: u32,
) -> i32 {
    let state = evaluate(board, game_type, acronym);
    if state.user_won != state.computer_won {
        return if state.user_won { 1 } else { -1 };
    }
    if board.is_full() || depth == 0 || (state.user_won && state.computer_won) {
        return 0;
    }
    let mut best = if player { i32::MIN } else { i32::MAX };
    for col in board.legal_columns() {
        for piece in token_options(game_type, player) {
            board.perform_move(col, piece).unwrap();
            let score = exhaustive(board, game_type, acronym, !player, depth - 1);
            board.undo_move(col);
            best = if player { best.max(score) } else { best.min(score) };
        }
    }
    best
}

fn sample_positions() -> Vec<(GameType, Acronym, Vec<(usize, Cell)>)> {
    vec![
        (GameType::Connect4, Acronym::Unassigned, vec![]),
        (GameType::Connect4, Acronym::Unassigned, vec![(0, U), (0, C), (1, U), (1, C)]),
        (
            GameType::Connect4,
            Acronym::Unassigned,
            vec![(0, U), (1, U), (2, C), (2, C), (3, U), (3, C), (3, C), (1, C)],
        ),
        (GameType::Connect4, Acronym::Unassigned, vec![(0, U), (1, U), (3, C), (3, C), (3, C)]),
        (GameType::TootAndOtto, Acronym::Toot, vec![]),
        (GameType::TootAndOtto, Acronym::Otto, vec![(0, T), (1, O), (2, O)]),
        (GameType::TootAndOtto, Acronym::Toot, vec![(0, O), (0, T), (0, T), (2, T), (3, O)]),
        (
            GameType::TootAndOtto,
            Acronym::Otto,
            vec![(0, T), (0, T), (0, T), (0, T), (1, T), (1, T), (1, T), (1, T), (2, T), (2, O)],
        ),
    ]
}

#[test]
fn empty_connect4_board_at_depth_five_scores_zero() {
    let mut board = Board::create(7, 6).unwrap();
    let found = full_search(&mut board, GameType::Connect4, Acronym::Unassigned, true, 5, 11);
    assert_eq!(found.score, 0);
    assert!(found.column < 6);
    assert_eq!(found.token, U);
}

#[test]
fn empty_connect4_board_replays_from_a_seed() {
    let mut board = Board::create(7, 6).unwrap();
    let first = full_search(&mut board, GameType::Connect4, Acronym::Unassigned, true, 5, 99);
    let second = full_search(&mut board, GameType::Connect4, Acronym::Unassigned, true, 5, 99);
    assert_eq!(first, second);
}

#[test]
fn maximizer_completes_three_in_the_bottom_row() {
    for depth in 1..11u32 {
        let mut board = board_with(6, 7, &[(0, U), (1, U), (2, U)]);
        assert_eq!(board.get(5, 0), Some(U));
        assert_eq!(board.get(5, 2), Some(U));
        let found = full_search(&mut board, GameType::Connect4, Acronym::Unassigned, true, depth, 3);
        assert_eq!(found, SearchResult { score: 1, column: 3, token: U });
    }
}

#[test]
fn minimizer_completes_its_own_three() {
    let mut board = board_with(6, 7, &[(4, C), (5, C), (6, C), (0, U), (0, U), (1, U)]);
    let found = full_search(&mut board, GameType::Connect4, Acronym::Unassigned, false, 1, 5);
    assert_eq!(found, SearchResult { score: -1, column: 3, token: C });
}

#[test]
fn a_won_position_scores_for_the_winner_without_a_move() {
    let mut user = board_with(6, 7, &[(0, U), (1, U), (2, U), (3, U)]);
    let mut computer = board_with(6, 7, &[(2, C), (2, C), (2, C), (2, C)]);
    for player in [true, false] {
        for depth in [0u32, 1, 3] {
            let found =
                full_search(&mut user, GameType::Connect4, Acronym::Unassigned, player, depth, 1);
            assert_eq!(found, SearchResult { score: 1, column: 0, token: Cell::Empty });
            let found = full_search(
                &mut computer,
                GameType::Connect4,
                Acronym::Unassigned,
                player,
                depth,
                1,
            );
            assert_eq!(found, SearchResult { score: -1, column: 0, token: Cell::Empty });
        }
    }
}

#[test]
fn both_words_completed_score_as_a_draw() {
    let mut board = board_with(7, 6, &[(0, T), (1, O), (2, O), (3, T), (4, T), (5, O)]);
    for acronym in [Acronym::Toot, Acronym::Otto] {
        for player in [true, false] {
            for depth in [0u32, 1, 4] {
                let found =
                    full_search(&mut board, GameType::TootAndOtto, acronym, player, depth, 8);
                assert_eq!(found, SearchResult { score: 0, column: 0, token: Cell::Empty });
            }
        }
    }
}

#[test]
fn no_depth_left_scores_zero_without_a_move() {
    let mut board = board_with(6, 7, &[(0, U), (1, U), (2, U)]);
    let found = full_search(&mut board, GameType::Connect4, Acronym::Unassigned, true, 0, 2);
    assert_eq!(found, SearchResult { score: 0, column: 0, token: Cell::Empty });
}

#[test]
fn a_full_board_scores_zero_without_a_move() {
    let mut board = Board::create(4, 4).unwrap();
    for col in 0..4 {
        for _ in 0..4 {
            board.perform_move(col, T).unwrap();
        }
    }
    let found = full_search(&mut board, GameType::TootAndOtto, Acronym::Otto, false, 6, 2);
    assert_eq!(found, SearchResult { score: 0, column: 0, token: Cell::Empty });
}

#[test]
fn search_leaves_the_board_as_it_was() {
    for (game_type, acronym, moves) in sample_positions() {
        let mut board = board_with(4, 4, &moves);
        let before: Vec<Vec<Cell>> = board.cells().to_vec();
        let heights: Vec<Option<usize>> = (0..4).map(|c| board.height(c)).collect();
        for player in [true, false] {
            let _ = full_search(&mut board, game_type, acronym, player, 4, 17);
            assert_eq!(board.cells().to_vec(), before);
            assert_eq!((0..4).map(|c| board.height(c)).collect::<Vec<_>>(), heights);
        }
    }
}

#[test]
fn pruned_score_equals_exhaustive_minimax() {
    for (game_type, acronym, moves) in sample_positions() {
        for player in [true, false] {
            for depth in 0..5u32 {
                let mut board = board_with(4, 4, &moves);
                let expected = exhaustive(&mut board, game_type, acronym, player, depth);
                let found = full_search(&mut board, game_type, acronym, player, depth, 23);
                assert_eq!(found.score, expected);
            }
        }
    }
}

#[test]
fn a_narrow_window_bounds_the_minimax_value() {
    for (game_type, acronym, moves) in sample_positions() {
        for player in [true, false] {
            let mut board = board_with(4, 4, &moves);
            let value = exhaustive(&mut board, game_type, acronym, player, 3);
            for alpha in -2..2 {
                for beta in (alpha + 1)..3 {
                    let mut rng = StdRng::seed_from_u64(4);
                    let found =
                        search(&mut board, game_type, acronym, player, 3, alpha, beta, &mut rng);
                    assert!((-1..=1).contains(&found.score));
                    if found.score <= alpha {
                        assert!(value <= found.score);
                    } else if found.score >= beta {
                        assert!(value >= found.score);
                    } else {
                        assert_eq!(value, found.score);
                    }
                }
            }
        }
    }
}

#[test]
fn a_decided_search_returns_the_first_best_move() {
    let mut seen = 0;
    for (game_type, acronym, moves) in sample_positions() {
        for player in [true, false] {
            for depth in 1..5u32 {
                let mut board = board_with(4, 4, &moves);
                let found = full_search(&mut board, game_type, acronym, player, depth, 31);
                let state = evaluate(&board, game_type, acronym);
                if found.score == 0 || state.user_won || state.computer_won || board.is_full() {
                    continue;
                }
                seen += 1;
                let mut first = None;
                for col in board.legal_columns() {
                    for piece in token_options(game_type, player) {
                        board.perform_move(col, piece).unwrap();
                        let value = exhaustive(&mut board, game_type, acronym, !player, depth - 1);
                        board.undo_move(col);
                        if value == found.score && first.is_none() {
                            first = Some((col, piece));
                        }
                    }
                }
                assert_eq!(first, Some((found.column, found.token)));
            }
        }
    }
    assert!(seen > 0);
}

#[test]
fn a_drawn_search_returns_a_legal_move() {
    let moves = [(0, T), (0, O), (0, T), (0, O), (2, T)];
    for seed in 0..30u64 {
        let mut board = board_with(4, 4, &moves);
        let found = full_search(&mut board, GameType::TootAndOtto, Acronym::Toot, true, 1, seed);
        assert_eq!(found.score, 0);
        assert!(board.legal_columns().contains(&found.column));
        assert!(found.column != 0);
        assert!(found.token == T || found.token == O);
    }
}

#[test]
fn a_drawn_search_does_not_always_return_the_first_move() {
    let mut columns = Vec::new();
    let mut tokens = Vec::new();
    for seed in 0..40u64 {
        let mut board = Board::create(7, 6).unwrap();
        let found = full_search(&mut board, GameType::TootAndOtto, Acronym::Otto, false, 1, seed);
        assert_eq!(found.score, 0);
        if !columns.contains(&found.column) {
            columns.push(found.column);
        }
        if !tokens.contains(&found.token) {
            tokens.push(found.token);
        }
    }
    assert!(columns.len() > 1);
    assert_eq!(tokens.len(), 2);
}

#[test]
fn token_options_follow_the_ruleset() {
    assert_eq!(token_options(GameType::Connect4, true), vec![U]);
    assert_eq!(token_options(GameType::Connect4, false), vec![C]);
    assert_eq!(token_options(GameType::TootAndOtto, true), vec![O, T]);
    assert_eq!(token_options(GameType::TootAndOtto, false), vec![O, T]);
}

#[test]
fn break_tie_replaces_the_move_of_a_draw_only() {
    let drawn = SearchResult { score: 0, column: 1, token: O };
    assert_eq!(
        break_tie(drawn, Some(4), Some(T)),
        SearchResult { score: 0, column: 4, token: T }
    );
    assert_eq!(break_tie(drawn, None, Some(T)), SearchResult { score: 0, column: 1, token: T });
    assert_eq!(break_tie(drawn, Some(2), None), SearchResult { score: 0, column: 2, token: O });
    assert_eq!(break_tie(drawn, None, None), drawn);
    let won = SearchResult { score: 1, column: 3, token: U };
    assert_eq!(break_tie(won, Some(0), Some(C)), won);
    let lost = SearchResult { score: -1, column: 5, token: C };
    assert_eq!(break_tie(lost, Some(0), Some(U)), lost);
}

#[test]
fn with_one_ply_the_first_winning_move_is_returned() {
    let moves = [(1, U), (1, U), (1, U), (4, U), (5, U), (6, U)];
    let mut board = board_with(6, 7, &moves);
    let found = full_search(&mut board, GameType::Connect4, Acronym::Unassigned, true, 1, 9);
    assert_eq!(found, SearchResult { score: 1, column: 1, token: U });
    let mut mirrored = board_with(6, 7, &[(1, C), (1, C), (1, C), (4, C), (5, C), (6, C)]);
    let found = full_search(&mut mirrored, GameType::Connect4, Acronym::Unassigned, false, 1, 9);
    assert_eq!(found, SearchResult { score: -1, column: 1, token: C });
}

#[test]
fn a_deeper_search_returns_an_earlier_move_that_wins_by_force() {
    let moves = [(1, U), (1, U), (1, U), (4, U), (5, U), (6, U)];
    for depth in [3u32, 4, 5] {
        let mut board = board_with(6, 7, &moves);
        let found = full_search(&mut board, GameType::Connect4, Acronym::Unassigned, true, depth, 9);
        assert_eq!(found, SearchResult { score: 1, column: 0, token: U });
    }
    let mut board = board_with(6, 7, &moves);
    let found = full_search(&mut board, GameType::Connect4, Acronym::Unassigned, true, 2, 9);
    assert_eq!(found, SearchResult { score: 1, column: 1, token: U });
}
