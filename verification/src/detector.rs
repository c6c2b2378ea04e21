//! Detection of winning lines: a target sequence of four cells read along a
//! row, a column or a diagonal of either orientation.

use crate::board::{matrix_view, Board};
use crate::cell::{Acronym, Cell, GameType, WinState};
use vstd::prelude::*;

verus! {

/// The four ways a line runs over the board.
pub enum Direction {
    East,
    South,
    SouthEast,
    SouthWest,
}

impl Direction {
    /// The row reached after `k` steps from row `r`.
    pub open spec fn row_after(self, r: int, k: int) -> int {
        match self {
            Direction::East => r,
            _ => r + k,
        }
    }

    /// The column reached after `k` steps from column `c`.
    pub open spec fn col_after(self, c: int, k: int) -> int {
        match self {
            Direction::South => c,
            Direction::SouthWest => c - k,
            _ => c + k,
        }
    }
}

/// Every row is as long as the first, and there is a first.
pub open spec fn rectangular(cells: Seq<Seq<Cell>>) -> bool {
    &&& cells.len() > 0
    &&& forall|r: int| 0 <= r < cells.len() ==> (#[trigger] cells[r]).len() == cells[0].len()
}

/// The cells met from row `r` and column `c` on, walking in direction `d`,
/// lie on the board and are those of `pat`, one after the other.
pub open spec fn spells(cells: Seq<Seq<Cell>>, pat: Seq<Cell>, r: int, c: int, d: Direction) -> bool {
    forall|k: int|
        0 <= k < pat.len() ==> {
            &&& 0 <= d.row_after(r, k) < cells.len()
            &&& 0 <= d.col_after(c, k) < cells[d.row_after(r, k)].len()
            &&& cells[d.row_after(r, k)][d.col_after(c, k)] == #[trigger] pat[k]
        }
}

/// `pat` can be read somewhere on the board, in one of the four directions.
pub open spec fn has_line(cells: Seq<Seq<Cell>>, pat: Seq<Cell>) -> bool {
    exists|r: int, c: int, d: Direction| spells(cells, pat, r, c, d)
}

/// `pat` stands in `line` from index `i` on.
pub open spec fn occurs_at(line: Seq<Cell>, pat: Seq<Cell>, i: int) -> bool {
    0 <= i && i + pat.len() <= line.len() && line.subrange(i, i + pat.len()) == pat
}

/// `pat` stands somewhere in `line`, as a contiguous run.
pub open spec fn contains_run(line: Seq<Cell>, pat: Seq<Cell>) -> bool {
    exists|i: int| occurs_at(line, pat, i)
}

/// Column `c` read from top to bottom.
pub open spec fn column_line(cells: Seq<Seq<Cell>>, c: int) -> Seq<Cell> {
    Seq::new(cells.len(), |r: int| cells[r][c])
}

/// The number of cells on the diagonal that starts in row `r0` and column
/// `c0` and runs down and to the right, or down and to the left.
pub open spec fn diagonal_len(cells: Seq<Seq<Cell>>, r0: int, c0: int, right: bool) -> nat {
    let down = cells.len() - r0;
    let across = if right {
        cells[0].len() - c0
    } else {
        c0 + 1
    };
    if down <= 0 || across <= 0 {
        0
    } else if down <= across {
        down as nat
    } else {
        across as nat
    }
}

/// The diagonal that starts in row `r0` and column `c0`, read downwards
/// until it leaves the board.
pub open spec fn diagonal_line(cells: Seq<Seq<Cell>>, r0: int, c0: int, right: bool) -> Seq<Cell> {
    Seq::new(
        diagonal_len(cells, r0, c0, right),
        |k: int|
            cells[r0 + k][if right {
                c0 + k
            } else {
                c0 - k
            }],
    )
}

/// Where diagonal number `i` starts and how it runs. First come those that
/// run to the right, from each cell of the top row and then from each
/// further cell of the left column; then those that run to the left, from
/// each cell of the top row and then from each further cell of the right
/// column.
pub open spec fn diagonal_start(cells: Seq<Seq<Cell>>, i: int) -> (int, int, bool) {
    let rows = cells.len() as int;
    let cols = cells[0].len() as int;
    if i < cols {
        (0, i, true)
    } else if i < cols + rows - 1 {
        (i - cols + 1, 0, true)
    } else if i < 2 * cols + rows - 1 {
        (0, i - (cols + rows - 1), false)
    } else {
        (i - (2 * cols + rows - 1) + 1, cols - 1, false)
    }
}

/// All diagonals of the board, each exactly once.
pub open spec fn diagonals(cells: Seq<Seq<Cell>>) -> Seq<Seq<Cell>> {
    Seq::new(
        (2 * (cells.len() + cells[0].len() - 1)) as nat,
        |i: int|
            diagonal_line(
                cells,
                diagonal_start(cells, i).0,
                diagonal_start(cells, i).1,
                diagonal_start(cells, i).2,
            ),
    )
}

/// Whether `pat` stands somewhere in `line` as a contiguous run. The empty
/// run stands in every line.
pub fn line_contains(line: &Vec<Cell>, pat: &Vec<Cell>) -> (found: bool)
    ensures
        found == contains_run(line@, pat@),
{
    let n = line.len();
    let m = pat.len();
    if m > n {
        return false;
    }
    let mut i: usize = 0;
    while i <= n - m
        invariant
            n == line@.len(),
            m == pat@.len(),
            m <= n,
            i <= n - m + 1,
            forall|j: int| 0 <= j < i ==> !occurs_at(line@, pat@, j),
        decreases n - m + 1 - i,
    {
        let mut k: usize = 0;
        while k < m && line[i + k] == pat[k]
            invariant
                n == line@.len(),
                m == pat@.len(),
                i + m <= n,
                k <= m,
                forall|j: int| 0 <= j < k ==> line@[i + j] == pat@[j],
            decreases m - k,
        {
            k += 1;
        }
        if k == m {
            assert(line@.subrange(i as int, i + m) =~= pat@);
            assert(occurs_at(line@, pat@, i as int));
            return true;
        }
        assert(!occurs_at(line@, pat@, i as int)) by {
            if occurs_at(line@, pat@, i as int) {
                assert(line@.subrange(i as int, i + m)[k as int] == pat@[k as int]);
            }
        }
        i += 1;
    }
    false
}

/// The diagonal of `matrix` that starts in row `r0` and column `c0`.
fn extract_diagonal(matrix: &[Vec<Cell>], r0: usize, c0: usize, right: bool) -> (line: Vec<Cell>)
    requires
        rectangular(matrix_view(matrix@)),
        r0 < matrix@.len(),
        c0 < matrix@[0]@.len(),
    ensures
        line@ == diagonal_line(matrix_view(matrix@), r0 as int, c0 as int, right),
{
    let rows = matrix.len();
    let cols = matrix[0].len();
    let ghost cells = matrix_view(matrix@);
    let down = rows - r0;
    let across = if right {
        cols - c0
    } else {
        c0 + 1
    };
    let len = if down <= across {
        down
    } else {
        across
    };
    let mut line: Vec<Cell> = Vec::new();
    let mut k: usize = 0;
    while k < len
        invariant
            rectangular(cells),
            cells == matrix_view(matrix@),
            rows == cells.len(),
            cols == cells[0].len(),
            r0 < rows,
            c0 < cols,
            len == diagonal_len(cells, r0 as int, c0 as int, right),
            k <= len,
            line@ == diagonal_line(cells, r0 as int, c0 as int, right).subrange(0, k as int),
        decreases len - k,
    {
        let r = r0 + k;
        let c = if right {
            c0 + k
        } else {
            c0 - k
        };
        assert(cells[r as int].len() == cols);
        assert(cells[r as int] == matrix@[r as int]@);
        line.push(matrix[r][c]);
        k += 1;
        assert(line@ =~= diagonal_line(cells, r0 as int, c0 as int, right).subrange(0, k as int));
    }
    assert(line@ =~= diagonal_line(cells, r0 as int, c0 as int, right));
    line
}

/// The diagonals of `matrix`, each read from its topmost cell downwards:
/// those running to the right, starting from each cell of the top row and
/// then from each further cell of the left column, followed by those
/// running to the left, starting from each cell of the top row and then
/// from each further cell of the right column.
pub fn get_diagonal_strings(matrix: &[Vec<Cell>]) -> (lines: Vec<Vec<Cell>>)
    requires
        rectangular(matrix_view(matrix@)),
    ensures
        matrix_view(lines@) == diagonals(matrix_view(matrix@)),
{
    let rows = matrix.len();
    let cols = matrix[0].len();
    let ghost cells = matrix_view(matrix@);
    let ghost all = diagonals(cells);
    let mut lines: Vec<Vec<Cell>> = Vec::new();
    let mut col: usize = 0;
    while col < cols
        invariant
            rectangular(cells),
            cells == matrix_view(matrix@),
            all == diagonals(cells),
            rows == cells.len(),
            cols == cells[0].len(),
            col <= cols,
            lines@.len() == col,
            forall|i: int| 0 <= i < lines@.len() ==> (#[trigger] lines@[i])@ == all[i],
        decreases cols - col,
    {
        lines.push(extract_diagonal(matrix, 0, col, true));
        col += 1;
    }
    let mut row: usize = 1;
    while row < rows
        invariant
            rectangular(cells),
            cells == matrix_view(matrix@),
            all == diagonals(cells),
            rows == cells.len(),
            cols == cells[0].len(),
            1 <= row <= rows,
            lines@.len() == cols + row - 1,
            forall|i: int| 0 <= i < lines@.len() ==> (#[trigger] lines@[i])@ == all[i],
        decreases rows - row,
    {
        if cols > 0 {
            lines.push(extract_diagonal(matrix, row, 0, true));
        } else {
            lines.push(Vec::new());
            assert(lines@[lines@.len() - 1]@ =~= all[lines@.len() - 1]);
        }
        row += 1;
    }
    col = 0;
    while col < cols
        invariant
            rectangular(cells),
            cells == matrix_view(matrix@),
            all == diagonals(cells),
            rows == cells.len(),
            cols == cells[0].len(),
            col <= cols,
            lines@.len() == cols + rows - 1 + col,
            forall|i: int| 0 <= i < lines@.len() ==> (#[trigger] lines@[i])@ == all[i],
        decreases cols - col,
    {
        lines.push(extract_diagonal(matrix, 0, col, false));
        col += 1;
    }
    row = 1;
    while row < rows
        invariant
            rectangular(cells),
            cells == matrix_view(matrix@),
            all == diagonals(cells),
            rows == cells.len(),
            cols == cells[0].len(),
            1 <= row <= rows,
            lines@.len() == 2 * cols + rows - 1 + row - 1,
            forall|i: int| 0 <= i < lines@.len() ==> (#[trigger] lines@[i])@ == all[i],
        decreases rows - row,
    {
        if cols > 0 {
            lines.push(extract_diagonal(matrix, row, cols - 1, false));
        } else {
            lines.push(Vec::new());
            assert(lines@[lines@.len() - 1]@ =~= all[lines@.len() - 1]);
        }
        row += 1;
    }
    assert(matrix_view(lines@) =~= all);
    lines
}

/// `pat` stands in one of the first `n` rows.
pub open spec fn rows_contain(cells: Seq<Seq<Cell>>, pat: Seq<Cell>, n: int) -> bool {
    exists|r: int| 0 <= r < n && contains_run(#[trigger] cells[r], pat)
}

/// `pat` stands in one of the first `n` columns.
pub open spec fn columns_contain(cells: Seq<Seq<Cell>>, pat: Seq<Cell>, n: int) -> bool {
    exists|c: int| 0 <= c < n && contains_run(#[trigger] column_line(cells, c), pat)
}

/// `pat` stands in one of the first `n` of `lines`.
pub open spec fn lines_contain(lines: Seq<Seq<Cell>>, pat: Seq<Cell>, n: int) -> bool {
    exists|i: int| 0 <= i < n && contains_run(#[trigger] lines[i], pat)
}

/// `pat` stands in some row, some column or some diagonal of the board.
pub open spec fn some_line_contains(cells: Seq<Seq<Cell>>, pat: Seq<Cell>) -> bool {
    ||| rows_contain(cells, pat, cells.len() as int)
    ||| columns_contain(cells, pat, cells[0].len() as int)
    ||| lines_contain(diagonals(cells), pat, diagonals(cells).len() as int)
}

/// A run found in a row, a column or a diagonal is a line on the board.
proof fn lemma_run_is_line(cells: Seq<Seq<Cell>>, pat: Seq<Cell>)
    requires
        rectangular(cells),
        pat.len() > 0,
        some_line_contains(cells, pat),
    ensures
        has_line(cells, pat),
{
    let len = pat.len() as int;
    let cols = cells[0].len() as int;
    let rows = cells.len() as int;
    if rows_contain(cells, pat, rows) {
        let r = choose|r: int| 0 <= r < rows && contains_run(#[trigger] cells[r], pat);
        let i = choose|i: int| occurs_at(cells[r], pat, i);
        assert forall|k: int| 0 <= k < len implies cells[r][i + k] == #[trigger] pat[k] by {
            assert(cells[r].subrange(i, i + len)[k] == cells[r][i + k]);
        }
        assert(spells(cells, pat, r, i, Direction::East));
    } else if columns_contain(cells, pat, cols) {
        let c = choose|c: int| 0 <= c < cols && contains_run(#[trigger] column_line(cells, c), pat);
        let line = column_line(cells, c);
        let i = choose|i: int| occurs_at(line, pat, i);
        assert forall|k: int| 0 <= k < len implies cells[i + k][c] == #[trigger] pat[k] && c
            < cells[i + k].len() by {
            assert(line.subrange(i, i + len)[k] == line[i + k]);
            assert(cells[i + k].len() == cols);
        }
        assert(spells(cells, pat, i, c, Direction::South));
    } else {
        let all = diagonals(cells);
        let j = choose|j: int| 0 <= j < all.len() && contains_run(#[trigger] all[j], pat);
        let (r0, c0, right) = diagonal_start(cells, j);
        let line = diagonal_line(cells, r0, c0, right);
        assert(all[j] == line);
        let i = choose|i: int| occurs_at(line, pat, i);
        assert(i + len <= diagonal_len(cells, r0, c0, right));
        if right {
            assert forall|k: int| 0 <= k < len implies cells[r0 + i + k][c0 + i + k]
                == #[trigger] pat[k] && c0 + i + k < cells[r0 + i + k].len() by {
                assert(line.subrange(i, i + len)[k] == line[i + k]);
                assert(cells[r0 + i + k].len() == cols);
            }
            assert(spells(cells, pat, r0 + i, c0 + i, Direction::SouthEast));
        } else {
            assert forall|k: int| 0 <= k < len implies cells[r0 + i + k][c0 - i - k]
                == #[trigger] pat[k] && c0 - i - k < cells[r0 + i + k].len() by {
                assert(line.subrange(i, i + len)[k] == line[i + k]);
                assert(cells[r0 + i + k].len() == cols);
            }
            assert(spells(cells, pat, r0 + i, c0 - i, Direction::SouthWest));
        }
    }
}

/// A line on the board is a run in the row, the column or the diagonal it
/// lies on.
proof fn lemma_line_is_run(cells: Seq<Seq<Cell>>, pat: Seq<Cell>)
    requires
        rectangular(cells),
        pat.len() > 0,
        has_line(cells, pat),
    ensures
        some_line_contains(cells, pat),
{
    let len = pat.len() as int;
    let cols = cells[0].len() as int;
    let rows = cells.len() as int;
    let (r, c, d) = choose|r: int, c: int, d: Direction| spells(cells, pat, r, c, d);
    let first = pat[0];
    let last = pat[len - 1];
    assert(0 <= d.row_after(r, 0) < rows);
    assert(cells[d.row_after(r, 0)].len() == cols);
    assert(cells[d.row_after(r, len - 1)].len() == cols);
    match d {
        Direction::East => {
            assert forall|k: int| 0 <= k < len implies cells[r].subrange(c, c + len)[k]
                == pat[k] by {
                assert(cells[r][c + k] == pat[k]);
            }
            assert(cells[r].subrange(c, c + len) =~= pat);
            assert(occurs_at(cells[r], pat, c));
            assert(rows_contain(cells, pat, rows));
        },
        Direction::South => {
            let line = column_line(cells, c);
            assert forall|k: int| 0 <= k < len implies line.subrange(r, r + len)[k] == pat[k] by {
                assert(cells[r + k][c] == pat[k]);
            }
            assert(line.subrange(r, r + len) =~= pat);
            assert(occurs_at(line, pat, r));
            assert(columns_contain(cells, pat, cols));
        },
        Direction::SouthEast => {
            let all = diagonals(cells);
            let (j, at) = if r <= c {
                (c - r, r)
            } else {
                (cols + (r - c) - 1, c)
            };
            let (r0, c0, right) = diagonal_start(cells, j);
            assert(right && r0 == r - at && c0 == c - at);
            let line = diagonal_line(cells, r0, c0, true);
            assert(all[j] == line);
            assert(at + len <= line.len());
            assert forall|k: int| 0 <= k < len implies line.subrange(at, at + len)[k]
                == pat[k] by {
                assert(cells[r + k][c + k] == pat[k]);
            }
            assert(line.subrange(at, at + len) =~= pat);
            assert(occurs_at(all[j], pat, at));
            assert(lines_contain(all, pat, all.len() as int));
        },
        Direction::SouthWest => {
            let all = diagonals(cells);
            let (j, at) = if r <= cols - 1 - c {
                (cols + rows - 1 + c + r, r)
            } else {
                (2 * cols + rows - 1 + (r - (cols - 1 - c)) - 1, cols - 1 - c)
            };
            let (r0, c0, right) = diagonal_start(cells, j);
            assert(!right && r0 == r - at && c0 == c + at);
            let line = diagonal_line(cells, r0, c0, false);
            assert(all[j] == line);
            assert(at + len <= line.len());
            assert forall|k: int| 0 <= k < len implies line.subrange(at, at + len)[k]
                == pat[k] by {
                assert(cells[r + k][c - k] == pat[k]);
            }
            assert(line.subrange(at, at + len) =~= pat);
            assert(occurs_at(all[j], pat, at));
            assert(lines_contain(all, pat, all.len() as int));
        },
    }
}

/// Reading every row, every column and every diagonal finds exactly the
/// lines of the board: `pat` stands in one of them if and only if it can be
/// read from some cell in one of the four directions.
pub proof fn lemma_lines_cover(cells: Seq<Seq<Cell>>, pat: Seq<Cell>)
    requires
        rectangular(cells),
        pat.len() > 0,
    ensures
        some_line_contains(cells, pat) <==> has_line(cells, pat),
{
    if some_line_contains(cells, pat) {
        lemma_run_is_line(cells, pat);
    }
    if has_line(cells, pat) {
        lemma_line_is_run(cells, pat);
    }
}

/// The two sequences of four that end a game. In Connect 4 the first is
/// four discs of the user and the second four of the computer; in Toot and
/// Otto the first spells OTTO and the second TOOT.
pub open spec fn targets(game_type: GameType) -> (Seq<Cell>, Seq<Cell>) {
    match game_type {
        GameType::Connect4 => (
            seq![Cell::UserDisc, Cell::UserDisc, Cell::UserDisc, Cell::UserDisc],
            seq![Cell::ComputerDisc, Cell::ComputerDisc, Cell::ComputerDisc, Cell::ComputerDisc],
        ),
        GameType::TootAndOtto => (
            seq![Cell::TokenO, Cell::TokenT, Cell::TokenT, Cell::TokenO],
            seq![Cell::TokenT, Cell::TokenO, Cell::TokenO, Cell::TokenT],
        ),
    }
}

/// Who has won on `cells`. The first target counts for the user and the
/// second for the computer, except in Toot and Otto when the user chases
/// TOOT, where it is the other way round. A target of more than four in a
/// row contains one of four, so it wins as well.
pub open spec fn wins(cells: Seq<Seq<Cell>>, game_type: GameType, acronym: Acronym) -> WinState {
    let first = has_line(cells, targets(game_type).0);
    let second = has_line(cells, targets(game_type).1);
    if game_type == GameType::TootAndOtto && acronym == Acronym::Toot {
        WinState { user_won: second, computer_won: first }
    } else {
        WinState { user_won: first, computer_won: second }
    }
}

/// A sequence of four cells.
fn four(a: Cell, b: Cell, c: Cell, d: Cell) -> (pat: Vec<Cell>)
    ensures
        pat@ == seq![a, b, c, d],
{
    let mut pat: Vec<Cell> = Vec::new();
    pat.push(a);
    pat.push(b);
    pat.push(c);
    pat.push(d);
    assert(pat@ =~= seq![a, b, c, d]);
    pat
}

/// The two target sequences of `game_type`, in the order of `targets`.
pub fn sequences(game_type: GameType) -> (pats: Vec<Vec<Cell>>)
    ensures
        pats@.len() == 2,
        pats@[0]@ == targets(game_type).0,
        pats@[1]@ == targets(game_type).1,
{
    let mut pats: Vec<Vec<Cell>> = Vec::new();
    match game_type {
        GameType::Connect4 => {
            pats.push(four(Cell::UserDisc, Cell::UserDisc, Cell::UserDisc, Cell::UserDisc));
            pats.push(
                four(Cell::ComputerDisc, Cell::ComputerDisc, Cell::ComputerDisc, Cell::ComputerDisc),
            );
        },
        GameType::TootAndOtto => {
            pats.push(four(Cell::TokenO, Cell::TokenT, Cell::TokenT, Cell::TokenO));
            pats.push(four(Cell::TokenT, Cell::TokenO, Cell::TokenO, Cell::TokenT));
        },
    }
    pats
}

/// Column `c` of `matrix`, read from top to bottom.
fn extract_column(matrix: &[Vec<Cell>], c: usize) -> (line: Vec<Cell>)
    requires
        rectangular(matrix_view(matrix@)),
        c < matrix@[0]@.len(),
    ensures
        line@ == column_line(matrix_view(matrix@), c as int),
{
    let rows = matrix.len();
    let ghost cells = matrix_view(matrix@);
    let mut line: Vec<Cell> = Vec::new();
    let mut r: usize = 0;
    while r < rows
        invariant
            rectangular(cells),
            cells == matrix_view(matrix@),
            rows == cells.len(),
            c < cells[0].len(),
            r <= rows,
            line@ == column_line(cells, c as int).subrange(0, r as int),
        decreases rows - r,
    {
        assert(cells[r as int].len() == cells[0].len());
        assert(cells[r as int] == matrix@[r as int]@);
        line.push(matrix[r][c]);
        r += 1;
        assert(line@ =~= column_line(cells, c as int).subrange(0, r as int));
    }
    assert(line@ =~= column_line(cells, c as int));
    line
}

/// Adds to `found` which of the two targets stand in `line`.
fn mark(line: &Vec<Cell>, pats: &Vec<Vec<Cell>>, found: (bool, bool)) -> (out: (bool, bool))
    requires
        pats@.len() == 2,
    ensures
        out.0 == (found.0 || contains_run(line@, pats@[0]@)),
        out.1 == (found.1 || contains_run(line@, pats@[1]@)),
{
    let first = found.0 || line_contains(line, &pats[0]);
    let second = found.1 || line_contains(line, &pats[1]);
    (first, second)
}

/// Who has won on `board`: every row, every column and every diagonal is
/// searched for the two target sequences of `game_type`, and what was found
/// is assigned to the sides by `acronym`. The board is not changed.
pub fn evaluate(board: &Board, game_type: GameType, acronym: Acronym) -> (state: WinState)
    requires
        board.wf(),
    ensures
        state == wins(board@.cells, game_type, acronym),
{
    let matrix = board.cells();
    let pats = sequences(game_type);
    let ghost cells = board@.cells;
    let ghost first = targets(game_type).0;
    let ghost second = targets(game_type).1;
    let rows = matrix.len();
    assert(cells[0].len() == board@.cols());
    let cols = matrix[0].len();
    let mut found = (false, false);
    let mut r: usize = 0;
    while r < rows
        invariant
            cells == matrix_view(matrix@),
            pats@.len() == 2,
            pats@[0]@ == first,
            pats@[1]@ == second,
            rows == cells.len(),
            r <= rows,
            found.0 == rows_contain(cells, first, r as int),
            found.1 == rows_contain(cells, second, r as int),
        decreases rows - r,
    {
        assert(cells[r as int] == matrix@[r as int]@);
        found = mark(&matrix[r], &pats, found);
        r += 1;
    }
    let mut c: usize = 0;
    while c < cols
        invariant
            rectangular(cells),
            cells == matrix_view(matrix@),
            pats@.len() == 2,
            pats@[0]@ == first,
            pats@[1]@ == second,
            rows == cells.len(),
            cols == cells[0].len(),
            c <= cols,
            found.0 == (rows_contain(cells, first, rows as int) || columns_contain(
                cells,
                first,
                c as int,
            )),
            found.1 == (rows_contain(cells, second, rows as int) || columns_contain(
                cells,
                second,
                c as int,
            )),
        decreases cols - c,
    {
        let line = extract_column(matrix, c);
        found = mark(&line, &pats, found);
        c += 1;
    }
    let lines = get_diagonal_strings(matrix);
    let ghost all = diagonals(cells);
    let n = lines.len();
    let mut i: usize = 0;
    while i < n
        invariant
            all == matrix_view(lines@),
            pats@.len() == 2,
            pats@[0]@ == first,
            pats@[1]@ == second,
            n == all.len(),
            i <= n,
            found.0 == (rows_contain(cells, first, rows as int) || columns_contain(
                cells,
                first,
                cols as int,
            ) || lines_contain(all, first, i as int)),
            found.1 == (rows_contain(cells, second, rows as int) || columns_contain(
                cells,
                second,
                cols as int,
            ) || lines_contain(all, second, i as int)),
        decreases n - i,
    {
        assert(all[i as int] == lines@[i as int]@);
        found = mark(&lines[i], &pats, found);
        i += 1;
    }
    proof {
        lemma_lines_cover(cells, first);
        lemma_lines_cover(cells, second);
    }
    if game_type == GameType::TootAndOtto && acronym == Acronym::Toot {
        WinState { user_won: found.1, computer_won: found.0 }
    } else {
        WinState { user_won: found.0, computer_won: found.1 }
    }
}

} // verus!
