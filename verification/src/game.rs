//! One game between a user and the computer: the board, whose turn it is,
//! who has won, and the messages that move the game on.

use crate::board::{Board, BoardError, Grid};
use crate::cell::{Acronym, Cell, GameType, WinState};
use crate::chance::flip;
use crate::date::{date_text, format_date};
use crate::detector::{evaluate, wins};
use crate::records::{ConnectGame, Record};
use crate::search::{answers, minimax, search, SearchResult};
use rand::rngs::StdRng;
use vstd::prelude::*;

verus! {

/// The search depth where no difficulty can be chosen.
pub const DEFAULT_DEPTH: u32 = 5;

/// Milliseconds after which the word assigned to the user has been shown
/// and the game is rendered again.
pub const REVEAL_DELAY_MS: u32 = 3000;

/// Milliseconds for which the computer appears to think before its move is
/// delivered.
pub const THINKING_DELAY_MS: u32 = 500;

/// The search depth of a difficulty level: twice the level.
pub fn depth_for(level: usize) -> (depth: u32)
    requires
        level * 2 <= u32::MAX,
    ensures
        depth == level * 2,
{
    (level as u32) * 2
}

/// The name of the opponent of a level, where the level has one.
pub open spec fn cpu_label(level: nat) -> Option<Seq<char>> {
    if level == 1 {
        Some("CPU - Easy"@)
    } else if level == 2 {
        Some("CPU - Medium"@)
    } else if level == 3 {
        Some("CPU - Hard"@)
    } else {
        None
    }
}

/// The name of the opponent of level 1, 2 or 3; no other level has one.
pub fn cpu_name(level: usize) -> (name: Option<&'static str>)
    ensures
        match name {
            Some(text) => cpu_label(level as nat) == Some(text@),
            None => cpu_label(level as nat) is None,
        },
{
    if level == 1 {
        Some("CPU - Easy")
    } else if level == 2 {
        Some("CPU - Medium")
    } else if level == 3 {
        Some("CPU - Hard")
    } else {
        None
    }
}

/// The word that a coin assigns to the user: TOOT for heads, OTTO for tails.
pub fn acronym_for(heads: bool) -> (acronym: Acronym)
    ensures
        acronym == if heads {
            Acronym::Toot
        } else {
            Acronym::Otto
        },
{
    if heads {
        Acronym::Toot
    } else {
        Acronym::Otto
    }
}

/// What the host of a game has to do after it was rendered.
pub struct Effects {
    /// Render the game again after so many milliseconds.
    pub render_again_in: Option<u32>,
    /// Deliver this move of the computer after `THINKING_DELAY_MS`.
    pub computer_move: Option<Msg>,
    /// Store this record of the finished game.
    pub record: Option<ConnectGame>,
}

/// What a game is made from: the user's name, the ruleset and the size of
/// the board.
pub struct Props {
    pub player1: String,
    pub game_type: GameType,
    pub num_rows: i32,
    pub num_cols: i32,
}

impl Props {
    /// Properties with the usual board of 7 rows and 6 columns.
    pub fn new(player1: String, game_type: GameType) -> (props: Props)
        ensures
            props.player1 == player1,
            props.game_type == game_type,
            props.num_rows == 7,
            props.num_cols == 6,
    {
        Props { player1, game_type, num_rows: 7, num_cols: 6 }
    }
}

/// What moves a game on.
pub enum Msg {
    /// The user places `choice` in column `col`.
    UserMove { col: usize, choice: Cell },
    /// The computer places `choice` in column `col`.
    ComputerMove { col: usize, choice: Cell },
    /// Start again on an empty board, with no opponent chosen.
    Reset,
    /// Nothing but a new rendering.
    RenderAgain,
    /// Switch the piece that the user places in Toot and Otto.
    ChangeSel,
    /// Choose the opponent: 1 is easy, 2 medium, 3 hard.
    ChangeCpu { cpu: usize },
}

/// The mathematical content of a game.
#[verifier::ext_equal]
pub struct GameState {
    pub grid: Grid,
    pub player1: Seq<char>,
    pub player2: nat,
    pub game_type: GameType,
    pub user_turn: bool,
    pub winners: WinState,
    pub acronym: Acronym,
    pub t_selected: bool,
}

impl GameState {
    /// The state in which a game over `props` begins: an empty board, the
    /// user to move, no opponent chosen, no word assigned.
    pub open spec fn initial(props: Props) -> GameState {
        GameState {
            grid: Grid::empty(props.num_rows as nat, props.num_cols as nat),
            player1: props.player1@,
            player2: 0,
            game_type: props.game_type,
            user_turn: true,
            winners: WinState { user_won: false, computer_won: false },
            acronym: Acronym::Unassigned,
            t_selected: false,
        }
    }

    /// A piece `choice` may be placed in column `col`.
    pub open spec fn accepts(self, col: int, choice: Cell) -> bool {
        self.grid.legal(col) && choice != Cell::Empty
    }

    /// The state after `choice` was placed in column `col`: the piece is on
    /// the board, the winners are those of the new board, and the turn has
    /// passed to the other side.
    pub open spec fn after_move(self, col: int, choice: Cell) -> GameState {
        let grid = self.grid.with_move(col, choice);
        GameState {
            grid,
            winners: wins(grid.cells, self.game_type, self.acronym),
            user_turn: !self.user_turn,
            ..self
        }
    }

    /// The state that `msg` leads to. A move that is not accepted changes
    /// nothing.
    pub open spec fn after(self, msg: Msg) -> GameState {
        match msg {
            Msg::Reset => GameState {
                grid: Grid::empty(self.grid.rows(), self.grid.cols()),
                winners: WinState { user_won: false, computer_won: false },
                player2: 0,
                ..self
            },
            Msg::UserMove { col, choice } => if self.accepts(col as int, choice) {
                self.after_move(col as int, choice)
            } else {
                self
            },
            Msg::ComputerMove { col, choice } => if self.accepts(col as int, choice) {
                self.after_move(col as int, choice)
            } else {
                self
            },
            Msg::RenderAgain => self,
            Msg::ChangeSel => GameState { t_selected: !self.t_selected, ..self },
            Msg::ChangeCpu { cpu } => GameState { player2: cpu as nat, ..self },
        }
    }

    /// `msg` asks for a new rendering: every message does but a move that is
    /// not accepted.
    pub open spec fn redraws(self, msg: Msg) -> bool {
        match msg {
            Msg::UserMove { col, choice } => self.accepts(col as int, choice),
            Msg::ComputerMove { col, choice } => self.accepts(col as int, choice),
            _ => true,
        }
    }
}

impl GameState {
    /// It is the computer's turn and the game goes on: nobody has won and
    /// some column takes a piece.
    pub open spec fn computer_to_move(self) -> bool {
        !self.user_turn && !self.winners.user_won && !self.winners.computer_won
            && !self.grid.full()
    }

    /// The record of the game, finished on the given day.
    pub open spec fn record(self, year: int, month: nat, day: nat) -> Record {
        let cpu = cpu_label(self.player2).unwrap();
        Record {
            game_type: self.game_type,
            player1: self.player1,
            player2: cpu,
            winner: if self.winners.user_won {
                self.player1
            } else {
                cpu
            },
            date: date_text(year, month, day),
        }
    }

    /// The board takes no move of the user now: the game is over, it is not
    /// the user's turn, the word of Toot and Otto is not assigned yet, or no
    /// opponent is chosen.
    pub open spec fn disabled(self) -> bool {
        ||| self.winners.user_won
        ||| self.winners.computer_won
        ||| !self.user_turn
        ||| (self.game_type == GameType::TootAndOtto && self.acronym == Acronym::Unassigned)
        ||| self.player2 == 0
    }

    /// The piece that a click of the user places.
    pub open spec fn choice(self) -> Cell {
        match self.game_type {
            GameType::Connect4 => Cell::UserDisc,
            GameType::TootAndOtto => if self.t_selected {
                Cell::TokenT
            } else {
                Cell::TokenO
            },
        }
    }

    /// The line under the title needs the name of the opponent: the computer
    /// alone has won, or the game goes on and it is the computer's turn.
    pub open spec fn names_opponent(self) -> bool {
        (self.winners.computer_won && !self.winners.user_won) || (!self.winners.user_won
            && !self.winners.computer_won && self.player2 != 0 && !self.user_turn)
    }

    /// The line under the title: that the game is drawn where both sides
    /// have a winning line, or else who has won, or else whose turn it is,
    /// or else the request to choose an opponent.
    pub open spec fn subtitle(self) -> Seq<char> {
        let cpu = cpu_label(self.player2).unwrap();
        if self.winners.user_won && self.winners.computer_won {
            "It's a draw!"@
        } else if self.winners.computer_won {
            cpu + " wins!"@
        } else if self.winners.user_won {
            self.player1 + " wins!"@
        } else if self.player2 != 0 {
            if self.user_turn {
                self.player1 + "'s turn"@
            } else {
                cpu + "'s turn"@
            }
        } else {
            "Select CPU Difficulty"@
        }
    }
}

/// A game in progress.
pub struct Game {
    board: Board,
    player1: String,
    player2: usize,
    game_type: GameType,
    user_turn: bool,
    winners: WinState,
    user_otto_toot: Acronym,
    t_selected: bool,
}

impl View for Game {
    type V = GameState;

    closed spec fn view(&self) -> GameState {
        GameState {
            grid: self.board@,
            player1: self.player1@,
            player2: self.player2 as nat,
            game_type: self.game_type,
            user_turn: self.user_turn,
            winners: self.winners,
            acronym: self.user_otto_toot,
            t_selected: self.t_selected,
        }
    }
}

impl Game {
    /// The board of the game is well-formed.
    pub open spec fn wf(&self) -> bool {
        self@.grid.wf()
    }

    /// A new game over `props`, or `InvalidDimensions` if the board would
    /// have fewer than four rows or fewer than four columns.
    pub fn create(props: &Props) -> (made: Result<Game, BoardError>)
        ensures
            made is Ok <==> props.num_rows >= 4 && props.num_cols >= 4,
            made matches Ok(game) ==> game.wf() && game@ == GameState::initial(*props),
            made matches Err(e) ==> e == BoardError::InvalidDimensions,
    {
        if props.num_rows < 4 || props.num_cols < 4 {
            return Err(BoardError::InvalidDimensions);
        }
        match Board::create(props.num_rows as usize, props.num_cols as usize) {
            Ok(board) => Ok(
                Game {
                    board,
                    player1: props.player1.clone(),
                    player2: 0,
                    game_type: props.game_type,
                    user_turn: true,
                    winners: WinState { user_won: false, computer_won: false },
                    user_otto_toot: Acronym::Unassigned,
                    t_selected: false,
                },
            ),
            Err(e) => Err(e),
        }
    }

    /// The board, to read.
    pub fn board(&self) -> (board: &Board)
        ensures
            board@ == self@.grid,
    {
        &self.board
    }

    /// The ruleset of the game.
    pub fn game_type(&self) -> (game_type: GameType)
        ensures
            game_type == self@.game_type,
    {
        self.game_type
    }

    /// Whether the user is to move.
    pub fn user_turn(&self) -> (user_turn: bool)
        ensures
            user_turn == self@.user_turn,
    {
        self.user_turn
    }

    /// The winners as they were found after the last move.
    pub fn winners(&self) -> (winners: WinState)
        ensures
            winners == self@.winners,
    {
        self.winners
    }

    /// The word that the user chases in Toot and Otto.
    pub fn user_otto_toot(&self) -> (acronym: Acronym)
        ensures
            acronym == self@.acronym,
    {
        self.user_otto_toot
    }

    /// The opponent: 0 while none is chosen, then 1, 2 or 3.
    pub fn player2(&self) -> (level: usize)
        ensures
            level == self@.player2,
    {
        self.player2
    }

    /// The columns that take another piece, in ascending order.
    pub fn get_valid_moves(&self) -> (moves: Vec<usize>)
        requires
            self.wf(),
        ensures
            moves@ == self@.grid.legal_columns(),
    {
        self.board.legal_columns()
    }

    /// No column takes another piece.
    pub fn is_draw(&self) -> (full: bool)
        requires
            self.wf(),
        ensures
            full == self@.grid.full(),
    {
        self.get_valid_moves().len() == 0
    }

    /// Who has a winning line on the board as it stands.
    pub fn is_win(&self) -> (state: WinState)
        requires
            self.wf(),
        ensures
            state == wins(self@.grid.cells, self@.game_type, self@.acronym),
    {
        evaluate(&self.board, self.game_type, self.user_otto_toot)
    }

    /// Places `player` in the lowest empty cell of column `col`, and nothing
    /// else: turn and winners stay. A piece that the board refuses leaves
    /// the game as it was.
    pub fn perform_move(&mut self, col: usize, player: Cell) -> (placed: Result<(), BoardError>)
        requires
            old(self).wf(),
        ensures
            final(self).wf(),
            match old(self)@.grid.rejection(col as int, player) {
                Some(e) => placed == Err::<(), BoardError>(e) && final(self)@ == old(self)@,
                None => placed is Ok && final(self)@ == (GameState {
                    grid: old(self)@.grid.with_move(col as int, player),
                    ..old(self)@
                }),
            },
    {
        self.board.perform_move(col, player)
    }

    /// Clears the highest occupied cell of column `col`, and nothing else. A
    /// column outside the board or without pieces leaves the game as it was.
    pub fn undo_move(&mut self, col: usize)
        requires
            old(self).wf(),
        ensures
            final(self).wf(),
            final(self)@ == if col < old(self)@.grid.cols() && old(self)@.grid.heights[col as int]
                > 0 {
                GameState { grid: old(self)@.grid.without_top(col as int), ..old(self)@ }
            } else {
                old(self)@
            },
    {
        self.board.undo_move(col)
    }

    /// Searches the game from the board as it stands; see `search`. The game
    /// is the same afterwards.
    pub fn alpha_beta_minmax(
        &mut self,
        player: bool,
        depth: u32,
        alpha: i32,
        beta: i32,
        rng: &mut StdRng,
    ) -> (found: SearchResult)
        requires
            old(self).wf(),
        ensures
            final(self).wf(),
            final(self)@ == old(self)@,
            answers(
                old(self)@.grid,
                old(self)@.game_type,
                old(self)@.acronym,
                player,
                depth as nat,
                alpha as int,
                beta as int,
                found,
            ),
    {
        search(&mut self.board, self.game_type, self.user_otto_toot, player, depth, alpha, beta, rng)
    }

    /// The move of the computer: a search of `depth` plies over all scores
    /// with the computer to move. Its score is the minimax value of the
    /// position.
    pub fn compute_computer_move(&mut self, depth: u32, rng: &mut StdRng) -> (found: SearchResult)
        requires
            old(self).wf(),
        ensures
            final(self).wf(),
            final(self)@ == old(self)@,
            answers(
                old(self)@.grid,
                old(self)@.game_type,
                old(self)@.acronym,
                false,
                depth as nat,
                i32::MIN as int,
                i32::MAX as int,
                found,
            ),
            found.score == minimax(
                old(self)@.grid,
                old(self)@.game_type,
                old(self)@.acronym,
                false,
                depth as nat,
            ),
    {
        self.alpha_beta_minmax(false, depth, i32::MIN, i32::MAX, rng)
    }

    /// What is due after the game was rendered.
    ///
    /// On the first rendering of Toot and Otto a coin assigns the user's
    /// word, and another rendering is due once it has been shown. If the
    /// computer is to move, its move is searched at the depth of the chosen
    /// level and is to be delivered. If exactly one side has won, the record
    /// of the game, dated `year`, `month` and `day`, is to be stored.
    pub fn rendered(
        &mut self,
        first_render: bool,
        year: i32,
        month: u32,
        day: u32,
        rng: &mut StdRng,
    ) -> (effects: Effects)
        requires
            old(self).wf(),
            old(self)@.computer_to_move() ==> old(self)@.player2 * 2 <= u32::MAX,
            old(self)@.winners.spec_decisive() ==> 1 <= old(self)@.player2 <= 3,
        ensures
            final(self).wf(),
            final(self)@ == (GameState { acronym: final(self)@.acronym, ..old(self)@ }),
            if first_render && old(self)@.game_type == GameType::TootAndOtto {
                &&& final(self)@.acronym != Acronym::Unassigned
                &&& effects.render_again_in == Some(REVEAL_DELAY_MS)
            } else {
                &&& final(self)@.acronym == old(self)@.acronym
                &&& effects.render_again_in is None
            },
            match effects.computer_move {
                Some(Msg::ComputerMove { col, choice }) => {
                    &&& old(self)@.computer_to_move()
                    &&& answers(
                        final(self)@.grid,
                        final(self)@.game_type,
                        final(self)@.acronym,
                        false,
                        old(self)@.player2 * 2,
                        i32::MIN as int,
                        i32::MAX as int,
                        SearchResult {
                            score: minimax(
                                final(self)@.grid,
                                final(self)@.game_type,
                                final(self)@.acronym,
                                false,
                                old(self)@.player2 * 2,
                            ) as i32,
                            column: col,
                            token: choice,
                        },
                    )
                },
                Some(_) => false,
                None => !old(self)@.computer_to_move(),
            },
            match effects.record {
                Some(game) => old(self)@.winners.spec_decisive() && game@ == old(self)@.record(
                    year as int,
                    month as nat,
                    day as nat,
                ),
                None => !old(self)@.winners.spec_decisive(),
            },
    {
        let mut effects = Effects { render_again_in: None, computer_move: None, record: None };
        if first_render && self.game_type == GameType::TootAndOtto {
            self.user_otto_toot = acronym_for(flip(rng));
            effects.render_again_in = Some(REVEAL_DELAY_MS);
        }
        if !self.user_turn && !self.winners.user_won && !self.winners.computer_won
            && !self.is_draw() {
            let found = self.compute_computer_move(depth_for(self.player2), rng);
            effects.computer_move = Some(
                Msg::ComputerMove { col: found.column, choice: found.token },
            );
        }
        if self.winners.decisive() {
            match cpu_name(self.player2) {
                Some(name) => {
                    let winner = if self.winners.user_won {
                        self.player1.clone()
                    } else {
                        String::from_str(name)
                    };
                    effects.record = Some(
                        ConnectGame {
                            game_type: self.game_type,
                            player1: self.player1.clone(),
                            player2: String::from_str(name),
                            winner,
                            date: format_date(year, month, day),
                        },
                    );
                },
                None => {},
            }
        }
        effects
    }

    /// Whether the board takes no move of the user now.
    pub fn disabled(&self) -> (disabled: bool)
        ensures
            disabled == self@.disabled(),
    {
        self.winners.user_won || self.winners.computer_won || !self.user_turn || (self.game_type
            == GameType::TootAndOtto && self.user_otto_toot == Acronym::Unassigned) || self.player2
            == 0
    }

    /// The piece that a click of the user places: the user's disc in
    /// Connect 4, the selected one of T and O in Toot and Otto.
    pub fn choice(&self) -> (piece: Cell)
        ensures
            piece == self@.choice(),
    {
        match self.game_type {
            GameType::Connect4 => Cell::UserDisc,
            GameType::TootAndOtto => if self.t_selected {
                Cell::TokenT
            } else {
                Cell::TokenO
            },
        }
    }

    /// The title of the game.
    pub fn title(&self) -> (title: &'static str)
        ensures
            title@ == match self@.game_type {
                GameType::Connect4 => "Connect 4"@,
                GameType::TootAndOtto => "Toot & Otto"@,
            },
    {
        match self.game_type {
            GameType::Connect4 => "Connect 4",
            GameType::TootAndOtto => "Toot & Otto",
        }
    }

    /// The line under the title: that the game is drawn where both sides
    /// have a winning line, or else who has won, or else whose turn it is,
    /// or else the request to choose an opponent.
    pub fn subtitle(&self) -> (line: String)
        requires
            self@.names_opponent() ==> 1 <= self@.player2 <= 3,
        ensures
            line@ == self@.subtitle(),
    {
        if self.winners.user_won && self.winners.computer_won {
            String::from_str("It's a draw!")
        } else if self.winners.computer_won {
            match cpu_name(self.player2) {
                Some(name) => String::from_str(name).concat(" wins!"),
                None => String::new(),
            }
        } else if self.winners.user_won {
            self.player1.clone().concat(" wins!")
        } else if self.player2 != 0 {
            if self.user_turn {
                self.player1.clone().concat("'s turn")
            } else {
                match cpu_name(self.player2) {
                    Some(name) => String::from_str(name).concat("'s turn"),
                    None => String::new(),
                }
            }
        } else {
            String::from_str("Select CPU Difficulty")
        }
    }

    /// Moves the game on by `msg`, and says whether it has to be rendered
    /// again. A move into a column that takes no piece, or of no piece, is
    /// ignored.
    pub fn update(&mut self, msg: Msg) -> (redraw: bool)
        requires
            old(self).wf(),
        ensures
            final(self).wf(),
            final(self)@ == old(self)@.after(msg),
            redraw == old(self)@.redraws(msg),
    {
        match msg {
            Msg::Reset => {
                match Board::create(self.board.num_rows(), self.board.num_cols()) {
                    Ok(board) => {
                        self.board = board;
                    },
                    Err(_) => {},
                }
                self.winners = WinState { user_won: false, computer_won: false };
                self.player2 = 0;
                true
            },
            Msg::UserMove { col, choice } => self.apply_move(col, choice),
            Msg::ComputerMove { col, choice } => self.apply_move(col, choice),
            Msg::RenderAgain => true,
            Msg::ChangeSel => {
                self.t_selected = !self.t_selected;
                true
            },
            Msg::ChangeCpu { cpu } => {
                self.player2 = cpu;
                true
            },
        }
    }

    /// Places `choice` in column `col`, looks for winners and passes the
    /// turn, if the move is accepted; says whether it was.
    fn apply_move(&mut self, col: usize, choice: Cell) -> (accepted: bool)
        requires
            old(self).wf(),
        ensures
            final(self).wf(),
            accepted == old(self)@.accepts(col as int, choice),
            final(self)@ == if accepted {
                old(self)@.after_move(col as int, choice)
            } else {
                old(self)@
            },
    {
        proof {
            if self@.accepts(col as int, choice) {
                self@.grid.lemma_with_move_wf(col as int, choice);
            }
        }
        match self.board.perform_move(col, choice) {
            Ok(()) => {
                self.winners = self.is_win();
                self.user_turn = !self.user_turn;
                true
            },
            Err(_) => false,
        }
    }
}

} // verus!
