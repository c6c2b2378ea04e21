//! The values a board is made of and the tags that select a ruleset.

use vstd::prelude::*;

verus! {

/// Which ruleset governs winning lines and the tokens a side may place.
#[derive(Clone, Copy, Debug, PartialEq, Eq, Structural)]
pub enum GameType {
    Connect4,
    TootAndOtto,
}

/// One square of the board. `UserDisc` and `ComputerDisc` occur in Connect 4,
/// `TokenT` and `TokenO` in Toot and Otto, where either side may place either.
#[derive(Clone, Copy, Debug, PartialEq, Eq, Structural)]
pub enum Cell {
    Empty,
    UserDisc,
    ComputerDisc,
    TokenT,
    TokenO,
}

/// The word the human side is chasing in Toot and Otto. It stays
/// `Unassigned` until the game has drawn it, and is ignored in Connect 4.
#[derive(Clone, Copy, Debug, PartialEq, Eq, Structural)]
pub enum Acronym {
    Unassigned,
    Toot,
    Otto,
}

/// Who has a winning line on the board. Both flags can be set at once in
/// Toot and Otto, where one placement may finish both words.
#[derive(Clone, Copy, Debug, PartialEq, Eq, Structural)]
pub struct WinState {
    pub user_won: bool,
    pub computer_won: bool,
}

impl WinState {
    /// Exactly one side has won.
    pub open spec fn spec_decisive(self) -> bool {
        self.user_won != self.computer_won
    }

    /// Exactly one side has won.
    #[verifier::when_used_as_spec(spec_decisive)]
    pub fn decisive(self) -> (d: bool)
        ensures
            d == self.spec_decisive(),
    {
        self.user_won != self.computer_won
    }
}

} // verus!
