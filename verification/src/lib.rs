//! Rules and computer opponent for two gravity board games, Connect 4 and
//! Toot and Otto: the board, the detection of winning lines, the legal moves
//! and a depth-limited alpha-beta search, each with a proved contract.

pub mod accounts;
pub mod board;
pub mod cell;
pub mod chance;
pub mod date;
pub mod detector;
pub mod game;
pub mod leaderboard;
pub mod records;
pub mod search;
