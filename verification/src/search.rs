//! The computer opponent: a depth-limited minimax search with alpha-beta
//! pruning over one board, which it changes and restores as it goes. The
//! user is the maximizing side and the computer the minimizing side.

use crate::board::{Board, Grid};
use crate::cell::{Acronym, Cell, GameType};
use crate::chance::{choose_column, choose_token};
use crate::detector::{evaluate, wins};
use rand::rngs::StdRng;
use vstd::prelude::*;

verus! {

/// The best move that a search found, with its score: `1` if the user wins,
/// `-1` if the computer wins, `0` otherwise. At a position where the search
/// does not look at any move, `column` is 0 and `token` is `Cell::Empty`.
#[derive(Clone, Copy, Debug, PartialEq, Eq, Structural)]
pub struct SearchResult {
    pub score: i32,
    pub column: usize,
    pub token: Cell,
}

/// The pieces that the side to move may place, in the order in which they
/// are tried. In Connect 4 each side has its own disc; in Toot and Otto
/// either side may place an O or a T.
pub open spec fn options(game_type: GameType, player: bool) -> Seq<Cell> {
    match game_type {
        GameType::Connect4 => if player {
            seq![Cell::UserDisc]
        } else {
            seq![Cell::ComputerDisc]
        },
        GameType::TootAndOtto => seq![Cell::TokenO, Cell::TokenT],
    }
}

/// The search looks no further than `grid`: somebody has a winning line, no
/// column takes a piece, or no depth is left.
pub open spec fn terminal(grid: Grid, game_type: GameType, acronym: Acronym, depth: nat) -> bool {
    let state = wins(grid.cells, game_type, acronym);
    state.user_won || state.computer_won || grid.full() || depth == 0
}

/// The score of a position at which the search stops: `1` or `-1` if
/// exactly one side has a winning line, and `0` in every other case, also
/// when both sides have one.
pub open spec fn terminal_score(grid: Grid, game_type: GameType, acronym: Acronym) -> int {
    let state = wins(grid.cells, game_type, acronym);
    if state.user_won && !state.computer_won {
        1
    } else if state.computer_won && !state.user_won {
        -1
    } else {
        0
    }
}

/// The better of two scores for the side to move: the greater for the user,
/// the smaller for the computer.
pub open spec fn better(player: bool, a: int, b: int) -> int {
    if player {
        if a >= b {
            a
        } else {
            b
        }
    } else {
        if a <= b {
            a
        } else {
            b
        }
    }
}

/// The score before any move was looked at: below every score for the user,
/// above every score for the computer.
pub open spec fn worst(player: bool) -> int {
    if player {
        i32::MIN as int
    } else {
        i32::MAX as int
    }
}

/// The value of `grid` with `player` to move, `true` for the user, when
/// both sides play their best for `depth` plies: the score of the position
/// itself where the search stops, and otherwise the best of the values of
/// all positions that one move leads to.
pub open spec fn minimax(
    grid: Grid,
    game_type: GameType,
    acronym: Acronym,
    player: bool,
    depth: nat,
) -> int
    decreases depth, grid.legal_columns().len() + 1, 0nat,
{
    if terminal(grid, game_type, acronym, depth) {
        terminal_score(grid, game_type, acronym)
    } else {
        best_of(grid, game_type, acronym, player, depth, grid.legal_columns().len(), 0)
    }
}

/// The best value among the moves that come before the `ti`-th piece in the
/// `mi`-th legal column, where moves are taken column by column and, in a
/// column, piece by piece in the order of `options`.
pub open spec fn best_of(
    grid: Grid,
    game_type: GameType,
    acronym: Acronym,
    player: bool,
    depth: nat,
    mi: nat,
    ti: nat,
) -> int
    decreases depth, mi, ti,
{
    let moves = grid.legal_columns();
    let pieces = options(game_type, player);
    if ti > 0 {
        let before = best_of(grid, game_type, acronym, player, depth, mi, (ti - 1) as nat);
        if depth > 0 && mi < moves.len() && ti <= pieces.len() {
            better(
                player,
                before,
                minimax(
                    grid.with_move(moves[mi as int] as int, pieces[ti - 1]),
                    game_type,
                    acronym,
                    !player,
                    (depth - 1) as nat,
                ),
            )
        } else {
            before
        }
    } else if mi > 0 {
        best_of(grid, game_type, acronym, player, depth, (mi - 1) as nat, pieces.len())
    } else {
        worst(player)
    }
}

/// What the score of a search between `alpha` and `beta` tells of the true
/// value of the position: the value itself if the score lies strictly
/// between the two, an upper bound of the value if the score is at most
/// `alpha`, and a lower bound if it is at least `beta`.
pub open spec fn bounds(value: int, score: int, alpha: int, beta: int) -> bool {
    &&& score <= alpha ==> value <= score
    &&& score >= beta ==> value >= score
    &&& alpha < score < beta ==> value == score
}

/// The value, for the side to move, of placing `piece` in column `col`.
pub open spec fn move_value(
    grid: Grid,
    game_type: GameType,
    acronym: Acronym,
    player: bool,
    depth: nat,
    col: int,
    piece: Cell,
) -> int {
    minimax(grid.with_move(col, piece), game_type, acronym, !player, (depth - 1) as nat)
}

/// The search tries the move of `piece` into column `col` before that of
/// `later` into column `later_col`: columns in ascending order and, in one
/// column of Toot and Otto, the O before the T.
pub open spec fn tried_before(col: int, piece: Cell, later_col: int, later: Cell) -> bool {
    col < later_col || (col == later_col && piece == Cell::TokenO && later == Cell::TokenT)
}

/// `piece` into column `col` is a move that the side may make, its value is
/// the value of the position, and no move that the search tries before it
/// has that value.
pub open spec fn first_best(
    grid: Grid,
    game_type: GameType,
    acronym: Acronym,
    player: bool,
    depth: nat,
    col: int,
    piece: Cell,
) -> bool {
    let value = minimax(grid, game_type, acronym, player, depth);
    &&& grid.legal(col)
    &&& options(game_type, player).contains(piece)
    &&& move_value(grid, game_type, acronym, player, depth, col, piece) == value
    &&& forall|c: int, p: Cell|
        grid.legal(c) && options(game_type, player).contains(p) && tried_before(c, p, col, piece)
            ==> #[trigger] move_value(grid, game_type, acronym, player, depth, c, p) != value
}

/// `found` is what a search of `grid` between `alpha` and `beta` may return.
///
/// Its score is `-1`, `0` or `1`, and for `alpha < beta` it stands to the
/// minimax value of the position as `bounds` says. Where the search stops at
/// the position itself, `found` holds the score of the position, column 0
/// and no piece. Elsewhere it holds a legal column and a piece that the side
/// may place; they are the first best move if the score is not 0 and lies
/// strictly between `alpha` and `beta`.
pub open spec fn answers(
    grid: Grid,
    game_type: GameType,
    acronym: Acronym,
    player: bool,
    depth: nat,
    alpha: int,
    beta: int,
    found: SearchResult,
) -> bool {
    let value = minimax(grid, game_type, acronym, player, depth);
    &&& -1 <= found.score <= 1
    &&& alpha < beta ==> bounds(value, found.score as int, alpha, beta)
    &&& if terminal(grid, game_type, acronym, depth) {
        found == (SearchResult {
            score: terminal_score(grid, game_type, acronym) as i32,
            column: 0,
            token: Cell::Empty,
        })
    } else {
        &&& grid.legal(found.column as int)
        &&& options(game_type, player).contains(found.token)
        &&& alpha < found.score < beta && found.score != 0 ==> first_best(
            grid,
            game_type,
            acronym,
            player,
            depth,
            found.column as int,
            found.token,
        )
    }
}

/// The value of the move that the search looks at as the `ti`-th piece in
/// the `mi`-th legal column.
spec fn branch_value(
    grid: Grid,
    game_type: GameType,
    acronym: Acronym,
    player: bool,
    depth: nat,
    mi: int,
    ti: int,
) -> int {
    move_value(
        grid,
        game_type,
        acronym,
        player,
        depth,
        grid.legal_columns()[mi] as int,
        options(game_type, player)[ti],
    )
}

/// Move number `(mj, tj)` is looked at before move number `(mi, ti)`.
spec fn lex_before(mj: int, tj: int, mi: int, ti: int) -> bool {
    mj < mi || (mj == mi && tj < ti)
}

/// `best` is move number `(bi, bj)`, its score is the value of that move,
/// and no move looked at before it has that value.
spec fn leads(
    grid: Grid,
    game_type: GameType,
    acronym: Acronym,
    player: bool,
    depth: nat,
    bi: int,
    bj: int,
    best: SearchResult,
) -> bool {
    let moves = grid.legal_columns();
    let pieces = options(game_type, player);
    &&& 0 <= bi < moves.len()
    &&& 0 <= bj < pieces.len()
    &&& best.column == moves[bi]
    &&& best.token == pieces[bj]
    &&& branch_value(grid, game_type, acronym, player, depth, bi, bj) == best.score
    &&& forall|mj: int, tj: int|
        0 <= mj < moves.len() && 0 <= tj < pieces.len() && lex_before(mj, tj, bi, bj)
            ==> #[trigger] branch_value(grid, game_type, acronym, player, depth, mj, tj)
            != best.score
}

/// The state of the search at a position, before it looks at the `ti`-th
/// piece in the `mi`-th legal column: `best` is a legal move once one was
/// looked at, the window was narrowed by its score on the side of the
/// player to move, no cut has been due yet, and the score is the best value
/// so far, or a bound of it at or beyond the edge of the window the search
/// began with. Where it is the best value, `best` is the first move with it.
spec fn on_track(
    grid: Grid,
    game_type: GameType,
    acronym: Acronym,
    player: bool,
    depth: nat,
    alpha0: int,
    beta0: int,
    mi: nat,
    ti: nat,
    alpha: int,
    beta: int,
    best: SearchResult,
    lead: (int, int),
) -> bool {
    let exact = best_of(grid, game_type, acronym, player, depth, mi, ti);
    let score = best.score as int;
    &&& if mi > 0 || ti > 0 {
        -1 <= score <= 1 && grid.legal(best.column as int) && options(game_type, player).contains(
            best.token,
        )
    } else {
        score == worst(player)
    }
    &&& if player {
        alpha == better(true, alpha0, score) && beta == beta0
    } else {
        alpha == alpha0 && beta == better(false, beta0, score)
    }
    &&& alpha0 < beta0 ==> if player {
        score < beta0 && (score > alpha0 ==> exact == score) && (score <= alpha0 ==> exact
            <= score)
    } else {
        score > alpha0 && (score < beta0 ==> exact == score) && (score >= beta0 ==> exact
            >= score)
    }
    &&& alpha0 < beta0 && alpha0 < score < beta0 ==> lex_before(lead.0, lead.1, mi as int, ti as int)
        && leads(grid, game_type, acronym, player, depth, lead.0, lead.1, best)
}

/// Looking at more moves can only improve the best value for the side to
/// move.
proof fn lemma_best_of_grows(
    grid: Grid,
    game_type: GameType,
    acronym: Acronym,
    player: bool,
    depth: nat,
    mi: nat,
    ti: nat,
    mj: nat,
    tj: nat,
)
    requires
        mi < mj || (mi == mj && ti <= tj),
        ti <= options(game_type, player).len(),
    ensures
        better(
            player,
            best_of(grid, game_type, acronym, player, depth, mi, ti),
            best_of(grid, game_type, acronym, player, depth, mj, tj),
        ) == best_of(grid, game_type, acronym, player, depth, mj, tj),
    decreases mj, tj,
{
    if mi == mj && ti == tj {
    } else if tj > 0 {
        lemma_best_of_grows(grid, game_type, acronym, player, depth, mi, ti, mj, (tj - 1) as nat);
    } else {
        lemma_best_of_grows(
            grid,
            game_type,
            acronym,
            player,
            depth,
            mi,
            ti,
            (mj - 1) as nat,
            options(game_type, player).len(),
        );
    }
}

/// The best value among the moves before number `(mi, ti)` is at least as
/// good as the value of each of them.
proof fn lemma_best_of_covers(
    grid: Grid,
    game_type: GameType,
    acronym: Acronym,
    player: bool,
    depth: nat,
    mj: nat,
    tj: nat,
    mi: nat,
    ti: nat,
)
    requires
        depth > 0,
        mj < grid.legal_columns().len(),
        tj < options(game_type, player).len(),
        lex_before(mj as int, tj as int, mi as int, ti as int),
    ensures
        better(
            player,
            branch_value(grid, game_type, acronym, player, depth, mj as int, tj as int),
            best_of(grid, game_type, acronym, player, depth, mi, ti),
        ) == best_of(grid, game_type, acronym, player, depth, mi, ti),
{
    assert(best_of(grid, game_type, acronym, player, depth, mj, tj + 1) == better(
        player,
        best_of(grid, game_type, acronym, player, depth, mj, tj),
        branch_value(grid, game_type, acronym, player, depth, mj as int, tj as int),
    ));
    lemma_best_of_grows(grid, game_type, acronym, player, depth, mj, tj + 1, mi, ti);
}

/// The first move, by its number, that has the value of the position is the
/// first best move.
proof fn lemma_leads_is_first_best(
    grid: Grid,
    game_type: GameType,
    acronym: Acronym,
    player: bool,
    depth: nat,
    bi: int,
    bj: int,
    best: SearchResult,
)
    requires
        grid.cols() <= usize::MAX,
        leads(grid, game_type, acronym, player, depth, bi, bj, best),
        best.score == minimax(grid, game_type, acronym, player, depth),
    ensures
        first_best(grid, game_type, acronym, player, depth, best.column as int, best.token),
{
    let moves = grid.legal_columns();
    let pieces = options(game_type, player);
    let value = minimax(grid, game_type, acronym, player, depth);
    grid.lemma_legal_columns();
    assert(grid.legal(moves[bi] as int));
    assert(pieces[bj] == best.token);
    assert forall|c: int, p: Cell|
        grid.legal(c) && pieces.contains(p) && tried_before(
            c,
            p,
            best.column as int,
            best.token,
        ) implies #[trigger] move_value(grid, game_type, acronym, player, depth, c, p)
        != value by {
        let mj = choose|mj: int| 0 <= mj < moves.len() && moves[mj] == c as usize;
        let tj = choose|tj: int| 0 <= tj < pieces.len() && pieces[tj] == p;
        if c < best.column {
            if mj >= bi {
                if mj > bi {
                    assert(moves[bi] < moves[mj]);
                }
            }
        } else {
            if mj < bi {
                assert(moves[mj] < moves[bi]);
            }
            if mj > bi {
                assert(moves[bi] < moves[mj]);
            }
        }
        assert(lex_before(mj, tj, bi, bj));
        assert(branch_value(grid, game_type, acronym, player, depth, mj, tj) != best.score);
    }
}

/// A position in which both sides have a winning line is worth 0, whoever
/// is to move and whatever depth is left.
pub proof fn lemma_double_completion_is_draw(
    grid: Grid,
    game_type: GameType,
    acronym: Acronym,
    player: bool,
    depth: nat,
)
    requires
        wins(grid.cells, game_type, acronym).user_won,
        wins(grid.cells, game_type, acronym).computer_won,
    ensures
        terminal(grid, game_type, acronym, depth),
        terminal_score(grid, game_type, acronym) == 0,
        minimax(grid, game_type, acronym, player, depth) == 0,
{
}

/// Pruning does not change the score: what a search over a window that
/// holds every score returns has the minimax value of the position as its
/// score.
pub proof fn lemma_pruned_score_is_minimax(
    grid: Grid,
    game_type: GameType,
    acronym: Acronym,
    player: bool,
    depth: nat,
    alpha: int,
    beta: int,
    found: SearchResult,
)
    requires
        answers(grid, game_type, acronym, player, depth, alpha, beta, found),
        alpha < -1,
        beta > 1,
    ensures
        found.score == minimax(grid, game_type, acronym, player, depth),
{
}

/// The best value among moves is `-1`, `0` or `1` once a move was looked
/// at, and so is the value of every position.
pub proof fn lemma_minimax_range(
    grid: Grid,
    game_type: GameType,
    acronym: Acronym,
    player: bool,
    depth: nat,
)
    requires
        grid.cols() <= usize::MAX,
    ensures
        -1 <= minimax(grid, game_type, acronym, player, depth) <= 1,
    decreases depth, grid.legal_columns().len() + 1, 0nat,
{
    if !terminal(grid, game_type, acronym, depth) {
        grid.lemma_legal_columns();
        lemma_best_of_range(
            grid,
            game_type,
            acronym,
            player,
            depth,
            grid.legal_columns().len(),
            0,
        );
    }
}

/// The best value among the moves before number `(mi, ti)` is `-1`, `0` or
/// `1` if there is such a move, and the worst score if there is none.
proof fn lemma_best_of_range(
    grid: Grid,
    game_type: GameType,
    acronym: Acronym,
    player: bool,
    depth: nat,
    mi: nat,
    ti: nat,
)
    requires
        depth > 0,
        mi <= grid.legal_columns().len(),
        grid.cols() <= usize::MAX,
    ensures
        (mi > 0 || (ti > 0 && mi < grid.legal_columns().len())) ==> -1 <= best_of(
            grid,
            game_type,
            acronym,
            player,
            depth,
            mi,
            ti,
        ) <= 1,
        !(mi > 0 || (ti > 0 && mi < grid.legal_columns().len())) ==> best_of(
            grid,
            game_type,
            acronym,
            player,
            depth,
            mi,
            ti,
        ) == worst(player),
    decreases depth, mi, ti,
{
    let moves = grid.legal_columns();
    let pieces = options(game_type, player);
    if ti > 0 {
        lemma_best_of_range(grid, game_type, acronym, player, depth, mi, (ti - 1) as nat);
        if mi < moves.len() && ti <= pieces.len() {
            grid.lemma_legal_columns();
            let next = grid.with_move(moves[mi as int] as int, pieces[ti - 1]);
            assert(grid.legal(moves[mi as int] as int));
            assert(next.cols() == grid.cols());
            lemma_minimax_range(next, game_type, acronym, !player, (depth - 1) as nat);
        }
    } else if mi > 0 {
        lemma_best_of_range(grid, game_type, acronym, player, depth, (mi - 1) as nat, pieces.len());
    }
}

/// Where the search goes on, the value of a position is the best of the
/// values of its moves: no move that the side may make is better for it,
/// and one of them is as good.
pub proof fn lemma_minimax_is_best_reply(
    grid: Grid,
    game_type: GameType,
    acronym: Acronym,
    player: bool,
    depth: nat,
)
    requires
        grid.cols() <= usize::MAX,
        !terminal(grid, game_type, acronym, depth),
    ensures
        forall|c: int, p: Cell|
            grid.legal(c) && options(game_type, player).contains(p) ==> better(
                player,
                #[trigger] move_value(grid, game_type, acronym, player, depth, c, p),
                minimax(grid, game_type, acronym, player, depth),
            ) == minimax(grid, game_type, acronym, player, depth),
        exists|c: int, p: Cell|
            grid.legal(c) && options(game_type, player).contains(p) && #[trigger] move_value(
                grid,
                game_type,
                acronym,
                player,
                depth,
                c,
                p,
            ) == minimax(grid, game_type, acronym, player, depth),
{
    let moves = grid.legal_columns();
    let pieces = options(game_type, player);
    let value = minimax(grid, game_type, acronym, player, depth);
    grid.lemma_legal_columns();
    assert forall|c: int, p: Cell| grid.legal(c) && pieces.contains(p) implies better(
        player,
        #[trigger] move_value(grid, game_type, acronym, player, depth, c, p),
        value,
    ) == value by {
        let mj = choose|mj: int| 0 <= mj < moves.len() && moves[mj] == c as usize;
        let tj = choose|tj: int| 0 <= tj < pieces.len() && pieces[tj] == p;
        lemma_best_of_covers(
            grid,
            game_type,
            acronym,
            player,
            depth,
            mj as nat,
            tj as nat,
            moves.len(),
            0,
        );
    }
    lemma_minimax_range(grid, game_type, acronym, player, depth);
    lemma_best_of_attained(grid, game_type, acronym, player, depth, moves.len(), 0);
    let (mj, tj) = choose|mj: int, tj: int|
        0 <= mj < moves.len() && 0 <= tj < pieces.len() && #[trigger] branch_value(
            grid,
            game_type,
            acronym,
            player,
            depth,
            mj,
            tj,
        ) == value;
    assert(grid.legal(moves[mj] as int));
    assert(pieces.contains(pieces[tj]));
    assert(move_value(grid, game_type, acronym, player, depth, moves[mj] as int, pieces[tj])
        == value);
}

/// The best value among the moves before number `(mi, ti)` is the value of
/// one of them, unless it is the worst score.
proof fn lemma_best_of_attained(
    grid: Grid,
    game_type: GameType,
    acronym: Acronym,
    player: bool,
    depth: nat,
    mi: nat,
    ti: nat,
)
    requires
        depth > 0,
    ensures
        best_of(grid, game_type, acronym, player, depth, mi, ti) != worst(player) ==> exists|
            mj: int,
            tj: int,
        |
            0 <= mj < grid.legal_columns().len() && 0 <= tj < options(game_type, player).len()
                && #[trigger] branch_value(grid, game_type, acronym, player, depth, mj, tj)
                == best_of(grid, game_type, acronym, player, depth, mi, ti),
    decreases mi, ti,
{
    let moves = grid.legal_columns();
    let pieces = options(game_type, player);
    if ti > 0 {
        lemma_best_of_attained(grid, game_type, acronym, player, depth, mi, (ti - 1) as nat);
        if mi < moves.len() && ti <= pieces.len() {
            let here = branch_value(grid, game_type, acronym, player, depth, mi as int, ti - 1);
            assert(best_of(grid, game_type, acronym, player, depth, mi, ti) == better(
                player,
                best_of(grid, game_type, acronym, player, depth, mi, (ti - 1) as nat),
                here,
            ));
        }
    } else if mi > 0 {
        lemma_best_of_attained(
            grid,
            game_type,
            acronym,
            player,
            depth,
            (mi - 1) as nat,
            pieces.len(),
        );
    }
}

/// The score of a position that `player` alone has won: `1` for the user,
/// `-1` for the computer.
pub open spec fn side_score(player: bool) -> int {
    if player {
        1
    } else {
        -1
    }
}

/// `player`, and not the other side, has a winning line on `grid`.
pub open spec fn won_by(grid: Grid, game_type: GameType, acronym: Acronym, player: bool) -> bool {
    let state = wins(grid.cells, game_type, acronym);
    if player {
        state.user_won && !state.computer_won
    } else {
        state.computer_won && !state.user_won
    }
}

/// A side that can win with one move is found to win: where the search goes
/// on and some move of the side to move gives that side alone a winning
/// line, a search over a window that holds every score returns the side's
/// score and the first best move. That move is the winning one unless a
/// move that is tried before it has the side's score as its value too.
pub proof fn lemma_winning_move_is_found(
    grid: Grid,
    game_type: GameType,
    acronym: Acronym,
    player: bool,
    depth: nat,
    col: int,
    piece: Cell,
    alpha: int,
    beta: int,
    found: SearchResult,
)
    requires
        grid.wf(),
        !terminal(grid, game_type, acronym, depth),
        grid.legal(col),
        options(game_type, player).contains(piece),
        won_by(grid.with_move(col, piece), game_type, acronym, player),
        alpha < -1,
        beta > 1,
        answers(grid, game_type, acronym, player, depth, alpha, beta, found),
    ensures
        minimax(grid, game_type, acronym, player, depth) == side_score(player),
        found.score == side_score(player),
        first_best(grid, game_type, acronym, player, depth, found.column as int, found.token),
        (forall|c: int, p: Cell|
            grid.legal(c) && options(game_type, player).contains(p) && tried_before(
                c,
                p,
                col,
                piece,
            ) ==> #[trigger] move_value(grid, game_type, acronym, player, depth, c, p)
                != side_score(player)) ==> found.column == col && found.token == piece,
{
    let value = minimax(grid, game_type, acronym, player, depth);
    let pieces = options(game_type, player);
    lemma_minimax_is_best_reply(grid, game_type, acronym, player, depth);
    lemma_minimax_range(grid, game_type, acronym, player, depth);
    assert(move_value(grid, game_type, acronym, player, depth, col, piece) == side_score(player));
    assert(value == side_score(player));
    assert(pieces.contains(found.token));
    if forall|c: int, p: Cell|
        grid.legal(c) && pieces.contains(p) && tried_before(c, p, col, piece)
            ==> #[trigger] move_value(grid, game_type, acronym, player, depth, c, p) != side_score(
            player,
        ) {
        if found.column != col || found.token != piece {
            if tried_before(found.column as int, found.token, col, piece) {
                assert(move_value(
                    grid,
                    game_type,
                    acronym,
                    player,
                    depth,
                    found.column as int,
                    found.token,
                ) != side_score(player));
            } else {
                assert(tried_before(col, piece, found.column as int, found.token));
                assert(move_value(grid, game_type, acronym, player, depth, col, piece) != value);
            }
        }
    }
}

/// With one ply to look ahead, the search returns the first move with which
/// the side to move wins: the side's score, the column and the piece of
/// that move, where no move that is tried before it wins as well.
pub proof fn lemma_first_winning_move_at_depth_one(
    grid: Grid,
    game_type: GameType,
    acronym: Acronym,
    player: bool,
    col: int,
    piece: Cell,
    alpha: int,
    beta: int,
    found: SearchResult,
)
    requires
        grid.wf(),
        !terminal(grid, game_type, acronym, 1),
        grid.legal(col),
        options(game_type, player).contains(piece),
        won_by(grid.with_move(col, piece), game_type, acronym, player),
        forall|c: int, p: Cell|
            grid.legal(c) && options(game_type, player).contains(p) && tried_before(
                c,
                p,
                col,
                piece,
            ) ==> !won_by(#[trigger] grid.with_move(c, p), game_type, acronym, player),
        alpha < -1,
        beta > 1,
        answers(grid, game_type, acronym, player, 1, alpha, beta, found),
    ensures
        found == (SearchResult { score: side_score(player) as i32, column: col as usize, token: piece }),
{
    assert forall|c: int, p: Cell|
        grid.legal(c) && options(game_type, player).contains(p) && tried_before(
            c,
            p,
            col,
            piece,
        ) implies #[trigger] move_value(grid, game_type, acronym, player, 1, c, p) != side_score(
        player,
    ) by {
        let next = grid.with_move(c, p);
        assert(!won_by(next, game_type, acronym, player));
        assert(terminal(next, game_type, acronym, 0));
    }
    lemma_winning_move_is_found(
        grid,
        game_type,
        acronym,
        player,
        1,
        col,
        piece,
        alpha,
        beta,
        found,
    );
}

/// The pieces that the side to move may place, in the order of `options`.
pub fn token_options(game_type: GameType, player: bool) -> (pieces: Vec<Cell>)
    ensures
        pieces@ == options(game_type, player),
{
    let mut pieces: Vec<Cell> = Vec::new();
    match game_type {
        GameType::Connect4 => {
            if player {
                pieces.push(Cell::UserDisc);
            } else {
                pieces.push(Cell::ComputerDisc);
            }
        },
        GameType::TootAndOtto => {
            pieces.push(Cell::TokenO);
            pieces.push(Cell::TokenT);
        },
    }
    assert(pieces@ =~= options(game_type, player));
    pieces
}

/// The move that a finished search returns. A search that ends with score
/// 0 does not keep the move it found first: it takes the column and the
/// piece that were drawn for it, where one was drawn.
pub fn break_tie(best: SearchResult, column: Option<usize>, token: Option<Cell>) -> (found:
    SearchResult)
    ensures
        found.score == best.score,
        found.column == if best.score == 0 && column is Some {
            column.unwrap()
        } else {
            best.column
        },
        found.token == if best.score == 0 && token is Some {
            token.unwrap()
        } else {
            best.token
        },
{
    let mut found = best;
    if best.score == 0 {
        match column {
            Some(c) => {
                found.column = c;
            },
            None => {},
        }
        match token {
            Some(t) => {
                found.token = t;
            },
            None => {},
        }
    }
    found
}

/// Searches the game from `board` with `player` to move, `true` for the
/// user, who maximizes, and `false` for the computer, which minimizes, for
/// at most `depth` plies and between the scores `alpha` and `beta`.
///
/// The board is changed while the search runs and is the same afterwards.
/// Where somebody has a winning line, the board is full or `depth` is 0,
/// the result is the score of the position, with column 0 and no piece; a
/// position in which both sides have a winning line scores 0. Otherwise the
/// result is a legal column and a piece that the side to move may place.
/// For `alpha < beta` the score is the minimax value of the position if it
/// lies strictly between them, and else a bound of it. A search that looked
/// at all moves and ends with score 0 draws its column among the legal ones
/// and its piece among those the side may place; with any other score
/// strictly between `alpha` and `beta` it returns the first best move.
pub fn search(
    board: &mut Board,
    game_type: GameType,
    acronym: Acronym,
    player: bool,
    depth: u32,
    alpha: i32,
    beta: i32,
    rng: &mut StdRng,
) -> (found: SearchResult)
    requires
        old(board).wf(),
    ensures
        final(board).wf(),
        final(board)@ == old(board)@,
        answers(
            old(board)@,
            game_type,
            acronym,
            player,
            depth as nat,
            alpha as int,
            beta as int,
            found,
        ),
        wins(old(board)@.cells, game_type, acronym).user_won && wins(
            old(board)@.cells,
            game_type,
            acronym,
        ).computer_won ==> found.score == 0,
    decreases depth,
{
    let ghost grid = board@;
    let pieces = token_options(game_type, player);
    let winners = evaluate(board, game_type, acronym);
    if (winners.user_won || winners.computer_won) && (winners.user_won != winners.computer_won) {
        if winners.computer_won {
            return SearchResult { score: -1, column: 0, token: Cell::Empty };
        } else {
            return SearchResult { score: 1, column: 0, token: Cell::Empty };
        }
    } else if board.is_full() || depth == 0 || (winners.user_won && winners.computer_won) {
        return SearchResult { score: 0, column: 0, token: Cell::Empty };
    }
    let mut low = alpha;
    let mut high = beta;
    let mut best = SearchResult {
        score: if player {
            i32::MIN
        } else {
            i32::MAX
        },
        column: 0,
        token: Cell::Empty,
    };
    let ghost mut lead: (int, int) = (0, 0);
    let moves = board.legal_columns();
    proof {
        grid.lemma_legal_columns();
    }
    let mut mi: usize = 0;
    while mi < moves.len()
        invariant
            board.wf(),
            board@ == grid,
            grid == old(board)@,
            !terminal(grid, game_type, acronym, depth as nat),
            moves@ == grid.legal_columns(),
            pieces@ == options(game_type, player),
            depth > 0,
            mi <= moves@.len(),
            forall|i: int| 0 <= i < moves@.len() ==> grid.legal((#[trigger] moves@[i]) as int),
            on_track(
                grid,
                game_type,
                acronym,
                player,
                depth as nat,
                alpha as int,
                beta as int,
                mi as nat,
                0,
                low as int,
                high as int,
                best,
                lead,
            ),
        decreases moves@.len() - mi,
    {
        let m = moves[mi];
        let mut ti: usize = 0;
        while ti < pieces.len()
            invariant
                board.wf(),
                board@ == grid,
                grid == old(board)@,
                !terminal(grid, game_type, acronym, depth as nat),
                moves@ == grid.legal_columns(),
                pieces@ == options(game_type, player),
                depth > 0,
                mi < moves@.len(),
                m == moves@[mi as int],
                grid.legal(m as int),
                ti <= pieces@.len(),
                on_track(
                    grid,
                    game_type,
                    acronym,
                    player,
                    depth as nat,
                    alpha as int,
                    beta as int,
                    mi as nat,
                    ti as nat,
                    low as int,
                    high as int,
                    best,
                    lead,
                ),
            decreases pieces@.len() - ti,
        {
            let c = pieces[ti];
            proof {
                assert(options(game_type, player)[ti as int] == c);
                assert(c != Cell::Empty);
                grid.lemma_move_then_undo(m as int, c);
            }
            let _ = board.perform_move(m, c);
            let child = search(board, game_type, acronym, !player, depth - 1, low, high, rng);
            let score = child.score;
            let ghost value = branch_value(
                grid,
                game_type,
                acronym,
                player,
                depth as nat,
                mi as int,
                ti as int,
            );
            proof {
                assert(best_of(
                    grid,
                    game_type,
                    acronym,
                    player,
                    depth as nat,
                    mi as nat,
                    (ti + 1) as nat,
                ) == better(
                    player,
                    best_of(grid, game_type, acronym, player, depth as nat, mi as nat, ti as nat),
                    value,
                ));
                lemma_best_of_grows(
                    grid,
                    game_type,
                    acronym,
                    player,
                    depth as nat,
                    mi as nat,
                    (ti + 1) as nat,
                    moves@.len(),
                    0,
                );
                if (player && score > best.score) || (!player && score < best.score) {
                    assert forall|mj: int, tj: int|
                        0 <= mj < moves@.len() && 0 <= tj < pieces@.len() && lex_before(
                            mj,
                            tj,
                            mi as int,
                            ti as int,
                        ) implies better(
                        player,
                        #[trigger] branch_value(
                            grid,
                            game_type,
                            acronym,
                            player,
                            depth as nat,
                            mj,
                            tj,
                        ),
                        best_of(
                            grid,
                            game_type,
                            acronym,
                            player,
                            depth as nat,
                            mi as nat,
                            ti as nat,
                        ),
                    ) == best_of(
                        grid,
                        game_type,
                        acronym,
                        player,
                        depth as nat,
                        mi as nat,
                        ti as nat,
                    ) by {
                        lemma_best_of_covers(
                            grid,
                            game_type,
                            acronym,
                            player,
                            depth as nat,
                            mj as nat,
                            tj as nat,
                            mi as nat,
                            ti as nat,
                        );
                    }
                    lead = (mi as int, ti as int);
                }
            }
            if player {
                if score > best.score {
                    best = SearchResult { score, column: m, token: c };
                }
                if high <= best.score {
                    board.undo_move(m);
                    return best;
                }
                if best.score > low {
                    low = best.score;
                }
            } else {
                if score < best.score {
                    best = SearchResult { score, column: m, token: c };
                }
                if low >= best.score {
                    board.undo_move(m);
                    return best;
                }
                if best.score < high {
                    high = best.score;
                }
            }
            board.undo_move(m);
            ti += 1;
        }
        mi += 1;
    }
    proof {
        if alpha < beta && alpha < best.score < beta {
            lemma_leads_is_first_best(
                grid,
                game_type,
                acronym,
                player,
                depth as nat,
                lead.0,
                lead.1,
                best,
            );
        }
    }
    if best.score == 0 {
        let column = choose_column(&moves, rng);
        let token = choose_token(&pieces, rng);
        best = break_tie(best, column, token);
    }
    best
}

} // verus!
