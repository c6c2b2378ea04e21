use connect_games::cell::GameType;
use connect_games::leaderboard::{contains_text, human_players, leaderboard, rank, tally};
use connect_games::records::{ConnectGame, Leaderboard};

fn game(player1: &str, player2: &str, winner: &str) -> ConnectGame {
    ConnectGame {
        game_type: GameType::Connect4,
        player1: player1.to_string(),
        player2: player2.to_string(),
        winner: winner.to_string(),
        date: "2024-3-17".to_string(),
    }
}

fn line(username: &str, wins: u32, losses: u32) -> Leaderboard {
    Leaderboard { username: username.to_string(), wins, losses }
}

fn rows(table: &[Leaderboard]) -> Vec<(String, u32, u32)> {
    table.iter().map(|l| (l.username.clone(), l.wins, l.losses)).collect()
}

fn row(username: &str, wins: u32, losses: u32) -> (String, u32, u32) {
    (username.to_string(), wins, losses)
}

#[test]
fn tally_counts_wins_and_losses_in_order_of_appearance() {
    let games = vec![
        game("ann", "CPU - Easy", "ann"),
        game("bob", "CPU - Hard", "CPU - Hard"),
        game("ann", "CPU - Hard", "CPU - Hard"),
        game("ann", "CPU - Easy", "ann"),
    ];
    assert_eq!(
        rows(&tally(&games)),
        vec![row("ann", 2, 1), row("CPU - Easy", 0, 2), row("CPU - Hard", 2, 0), row("bob", 0, 1)]
    );
}

#[test]
fn tally_of_no_games_is_empty() {
    assert!(tally(&vec![]).is_empty());
    assert!(leaderboard(&vec![]).is_empty());
}

#[test]
fn the_loser_is_the_first_player_unless_the_first_player_won() {
    let games = vec![game("ann", "bob", "cid")];
    assert_eq!(rows(&tally(&games)), vec![row("cid", 1, 0), row("ann", 0, 1)]);
    let same = vec![game("ann", "ann", "ann")];
    assert_eq!(rows(&tally(&same)), vec![row("ann", 1, 1)]);
}

#[test]
fn leaderboard_ranks_by_wins_then_by_fewer_losses() {
    let games = vec![
        game("ann", "CPU - Easy", "ann"),
        game("bob", "CPU - Easy", "bob"),
        game("bob", "CPU - Easy", "CPU - Easy"),
        game("cid", "CPU - Easy", "cid"),
        game("cid", "CPU - Easy", "cid"),
        game("dan", "CPU - Easy", "CPU - Easy"),
    ];
    assert_eq!(
        rows(&leaderboard(&games)),
        vec![
            row("cid", 2, 0),
            row("CPU - Easy", 2, 4),
            row("ann", 1, 0),
            row("bob", 1, 1),
            row("dan", 0, 1),
        ]
    );
}

#[test]
fn rank_keeps_the_order_of_lines_that_tie() {
    let table = vec![line("a", 1, 1), line("b", 3, 0), line("c", 1, 1), line("d", 3, 2), line("e", 1, 0)];
    assert_eq!(
        rows(&rank(table)),
        vec![row("b", 3, 0), row("d", 3, 2), row("e", 1, 0), row("a", 1, 1), row("c", 1, 1)]
    );
    assert!(rank(vec![]).is_empty());
    assert_eq!(rows(&rank(vec![line("x", 0, 0)])), vec![row("x", 0, 0)]);
}

#[test]
fn human_players_drops_computer_names() {
    let table = vec![
        line("CPU - Hard", 9, 0),
        line("ann", 2, 1),
        line("AIbot", 1, 1),
        line("Aiden", 1, 2),
        line("myCPU", 0, 1),
        line("cpu", 0, 3),
        line("", 0, 4),
    ];
    assert_eq!(
        rows(&human_players(&table)),
        vec![row("ann", 2, 1), row("Aiden", 1, 2), row("cpu", 0, 3), row("", 0, 4)]
    );
}

#[test]
fn contains_text_finds_contiguous_text() {
    assert!(contains_text("CPU - Easy", "CPU"));
    assert!(contains_text("the CPU", "CPU"));
    assert!(contains_text("xAIy", "AI"));
    assert!(!contains_text("C PU", "CPU"));
    assert!(!contains_text("CP", "CPU"));
    assert!(!contains_text("", "AI"));
    assert!(contains_text("", ""));
    assert!(contains_text("ann", ""));
    assert!(contains_text("héllo wörld", "wör"));
    assert!(!contains_text("héllo", "hello"));
}
