//! What is kept of finished games: the record of one game, and a player's
//! line on the leaderboard.

use crate::cell::GameType;
use vstd::prelude::*;

verus! {

/// The record of a finished game, as it is stored.
#[derive(Clone, Debug)]
pub struct ConnectGame {
    pub game_type: GameType,
    pub player1: String,
    pub player2: String,
    pub winner: String,
    pub date: String,
}

/// The mathematical content of a `ConnectGame`.
pub struct Record {
    pub game_type: GameType,
    pub player1: Seq<char>,
    pub player2: Seq<char>,
    pub winner: Seq<char>,
    pub date: Seq<char>,
}

impl View for ConnectGame {
    type V = Record;

    open spec fn view(&self) -> Record {
        Record {
            game_type: self.game_type,
            player1: self.player1@,
            player2: self.player2@,
            winner: self.winner@,
            date: self.date@,
        }
    }
}

/// A player's line on the leaderboard.
#[derive(Clone, Debug)]
pub struct Leaderboard {
    pub username: String,
    pub wins: u32,
    pub losses: u32,
}

/// The mathematical content of a `Leaderboard` line.
pub struct Standing {
    pub username: Seq<char>,
    pub wins: nat,
    pub losses: nat,
}

impl View for Leaderboard {
    type V = Standing;

    open spec fn view(&self) -> Standing {
        Standing { username: self.username@, wins: self.wins as nat, losses: self.losses as nat }
    }
}

/// The contents of a list of records.
pub open spec fn records_view(games: Seq<ConnectGame>) -> Seq<Record> {
    Seq::new(games.len(), |i: int| games[i]@)
}

/// The contents of a list of leaderboard lines.
pub open spec fn table_view(table: Seq<Leaderboard>) -> Seq<Standing> {
    Seq::new(table.len(), |i: int| table[i]@)
}

} // verus!
