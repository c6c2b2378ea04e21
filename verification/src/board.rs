//! The board: a fixed grid of cells in which pieces fall to the lowest free
//! row of their column, with one occupancy counter per column.

use crate::cell::Cell;
use vstd::prelude::*;

verus! {

/// Why a board could not be made, or a piece could not be placed.
#[derive(Clone, Copy, Debug, PartialEq, Eq, Structural)]
pub enum BoardError {
    /// A board needs at least four rows and four columns.
    InvalidDimensions,
    /// The column index is not a column of the board.
    ColumnOutOfRange,
    /// The column has no free cell left.
    ColumnFull,
    /// `Cell::Empty` is not a piece.
    EmptyOccupant,
}

/// The mathematical content of a board: the cells, row 0 on top, and the
/// number of pieces in each column.
#[verifier::ext_equal]
pub struct Grid {
    pub cells: Seq<Seq<Cell>>,
    pub heights: Seq<nat>,
}

impl Grid {
    pub open spec fn rows(self) -> nat {
        self.cells.len()
    }

    pub open spec fn cols(self) -> nat {
        self.heights.len()
    }

    /// The grid is rectangular, at least 4 by 4, and in every column the
    /// empty cells are exactly those above the pieces counted for it.
    pub open spec fn wf(self) -> bool {
        &&& 4 <= self.rows() <= usize::MAX
        &&& 4 <= self.cols() <= usize::MAX
        &&& forall|r: int| 0 <= r < self.rows() ==> (#[trigger] self.cells[r]).len() == self.cols()
        &&& forall|c: int| 0 <= c < self.cols() ==> (#[trigger] self.heights[c]) <= self.rows()
        &&& forall|r: int, c: int|
            0 <= r < self.rows() && 0 <= c < self.cols() ==> ((#[trigger] self.cells[r][c])
                == Cell::Empty <==> r < self.rows() - self.heights[c])
    }

    /// The board of the given size with no piece on it.
    pub open spec fn empty(rows: nat, cols: nat) -> Grid {
        Grid {
            cells: Seq::new(rows, |r: int| Seq::new(cols, |c: int| Cell::Empty)),
            heights: Seq::new(cols, |c: int| 0nat),
        }
    }

    /// A piece may be placed in column `c`: its top cell is empty.
    pub open spec fn legal(self, c: int) -> bool {
        0 <= c < self.cols() && self.cells[0][c] == Cell::Empty
    }

    /// The legal columns among the first `n`, in ascending order.
    pub open spec fn legal_prefix(self, n: nat) -> Seq<usize>
        decreases n,
    {
        if n == 0 {
            Seq::empty()
        } else if self.legal(n - 1) {
            self.legal_prefix((n - 1) as nat).push((n - 1) as usize)
        } else {
            self.legal_prefix((n - 1) as nat)
        }
    }

    /// All legal columns, in ascending order.
    pub open spec fn legal_columns(self) -> Seq<usize> {
        self.legal_prefix(self.cols())
    }

    /// No column takes another piece.
    pub open spec fn full(self) -> bool {
        self.legal_columns().len() == 0
    }

    /// The row in which a piece placed in column `c` comes to rest.
    pub open spec fn landing_row(self, c: int) -> int {
        self.rows() - 1 - self.heights[c]
    }

    /// The grid after `piece` was placed in column `c`.
    pub open spec fn with_move(self, c: int, piece: Cell) -> Grid {
        let r = self.landing_row(c);
        Grid {
            cells: self.cells.update(r, self.cells[r].update(c, piece)),
            heights: self.heights.update(c, self.heights[c] + 1),
        }
    }

    /// The grid after the topmost piece of column `c` was taken away.
    pub open spec fn without_top(self, c: int) -> Grid {
        let r = self.rows() - self.heights[c];
        Grid {
            cells: self.cells.update(r, self.cells[r].update(c, Cell::Empty)),
            heights: self.heights.update(c, (self.heights[c] - 1) as nat),
        }
    }

    /// The error that placing `piece` in column `c` meets, if any. A column
    /// out of range is reported first, then an empty piece, then a full column.
    pub open spec fn rejection(self, c: int, piece: Cell) -> Option<BoardError> {
        if !(0 <= c < self.cols()) {
            Some(BoardError::ColumnOutOfRange)
        } else if piece == Cell::Empty {
            Some(BoardError::EmptyOccupant)
        } else if !self.legal(c) {
            Some(BoardError::ColumnFull)
        } else {
            None
        }
    }

    /// In a well-formed grid a column is legal exactly if its counter is
    /// below the number of rows.
    pub proof fn lemma_legal_by_height(self, c: int)
        requires
            self.wf(),
            0 <= c < self.cols(),
        ensures
            self.legal(c) <==> self.heights[c] < self.rows(),
    {
        assert(self.cells[0][c] == Cell::Empty <==> 0 < self.rows() - self.heights[c]);
    }

    /// The legal columns are strictly ascending, each is legal, and every
    /// legal column below `n` is among them.
    pub proof fn lemma_legal_prefix(self, n: nat)
        requires
            n <= self.cols() <= usize::MAX,
        ensures
            self.legal_prefix(n).len() <= n,
            forall|i: int|
                0 <= i < self.legal_prefix(n).len() ==> self.legal(
                    (#[trigger] self.legal_prefix(n)[i]) as int,
                ) && self.legal_prefix(n)[i] < n,
            forall|i: int, j: int|
                0 <= i < j < self.legal_prefix(n).len() ==> self.legal_prefix(n)[i]
                    < self.legal_prefix(n)[j],
            forall|c: int|
                0 <= c < n && self.legal(c) ==> self.legal_prefix(n).contains(c as usize),
        decreases n,
    {
        if n > 0 {
            let m = (n - 1) as nat;
            self.lemma_legal_prefix(m);
            let before = self.legal_prefix(m);
            let now = self.legal_prefix(n);
            assert forall|c: int| 0 <= c < n && self.legal(c) implies now.contains(
                c as usize,
            ) by {
                if c < m {
                    let i = choose|i: int| 0 <= i < before.len() && before[i] == c as usize;
                    assert(now[i] == c as usize);
                } else {
                    assert(now[now.len() - 1] == c as usize);
                }
            }
        }
    }

    /// The legal columns, spelled out: ascending, all legal, none missing.
    pub proof fn lemma_legal_columns(self)
        requires
            self.cols() <= usize::MAX,
        ensures
            self.legal_columns().len() <= self.cols(),
            forall|i: int|
                0 <= i < self.legal_columns().len() ==> self.legal(
                    (#[trigger] self.legal_columns()[i]) as int,
                ),
            forall|i: int, j: int|
                0 <= i < j < self.legal_columns().len() ==> self.legal_columns()[i]
                    < self.legal_columns()[j],
            forall|c: int| self.legal(c) ==> self.legal_columns().contains(c as usize),
            self.full() <==> forall|c: int| !self.legal(c),
    {
        self.lemma_legal_prefix(self.cols());
        if self.legal_columns().len() > 0 {
            assert(self.legal(self.legal_columns()[0] as int));
        }
    }
}

/// The cells of a matrix of rows, as a sequence of sequences.
pub open spec fn matrix_view(matrix: Seq<Vec<Cell>>) -> Seq<Seq<Cell>> {
    Seq::new(matrix.len(), |r: int| matrix[r]@)
}

/// A board of cells. Pieces enter through `perform_move` and leave through
/// `undo_move` only, so every column is filled from the bottom.
pub struct Board {
    cells: Vec<Vec<Cell>>,
    heights: Vec<usize>,
}

impl View for Board {
    type V = Grid;

    closed spec fn view(&self) -> Grid {
        Grid {
            cells: Seq::new(self.cells@.len(), |r: int| self.cells@[r]@),
            heights: Seq::new(self.heights@.len(), |c: int| self.heights@[c] as nat),
        }
    }
}

impl Board {
    /// The board holds a well-formed grid.
    pub open spec fn wf(&self) -> bool {
        self@.wf()
    }

    /// A board of `num_rows` by `num_cols` empty cells, or
    /// `InvalidDimensions` if either number is below four.
    pub fn create(num_rows: usize, num_cols: usize) -> (made: Result<Board, BoardError>)
        ensures
            made is Ok <==> num_rows >= 4 && num_cols >= 4,
            made matches Ok(b) ==> b.wf() && b@ == Grid::empty(num_rows as nat, num_cols as nat),
            made matches Err(e) ==> e == BoardError::InvalidDimensions,
    {
        if num_rows < 4 || num_cols < 4 {
            return Err(BoardError::InvalidDimensions);
        }
        let mut cells: Vec<Vec<Cell>> = Vec::new();
        let mut r: usize = 0;
        while r < num_rows
            invariant
                r <= num_rows,
                cells@.len() == r,
                forall|i: int|
                    0 <= i < r ==> (#[trigger] cells@[i])@ == Seq::new(
                        num_cols as nat,
                        |c: int| Cell::Empty,
                    ),
            decreases num_rows - r,
        {
            let mut row: Vec<Cell> = Vec::new();
            let mut c: usize = 0;
            while c < num_cols
                invariant
                    c <= num_cols,
                    row@ == Seq::new(c as nat, |c: int| Cell::Empty),
                decreases num_cols - c,
            {
                row.push(Cell::Empty);
                c += 1;
            }
            cells.push(row);
            r += 1;
        }
        let mut heights: Vec<usize> = Vec::new();
        let mut c: usize = 0;
        while c < num_cols
            invariant
                c <= num_cols,
                heights@ == Seq::new(c as nat, |c: int| 0usize),
            decreases num_cols - c,
        {
            heights.push(0);
            c += 1;
        }
        let board = Board { cells, heights };
        assert(board@ == Grid::empty(num_rows as nat, num_cols as nat));
        Ok(board)
    }

    /// The number of rows.
    pub fn num_rows(&self) -> (n: usize)
        ensures
            n == self@.rows(),
    {
        self.cells.len()
    }

    /// The number of columns.
    pub fn num_cols(&self) -> (n: usize)
        ensures
            n == self@.cols(),
    {
        self.heights.len()
    }

    /// The rows of the board, row 0 on top.
    pub fn cells(&self) -> (rows: &[Vec<Cell>])
        ensures
            matrix_view(rows@) == self@.cells,
    {
        let rows = self.cells.as_slice();
        assert(matrix_view(rows@) =~= self@.cells);
        rows
    }

    /// The cell in `row` and `col`, or `None` outside the board.
    pub fn get(&self, row: usize, col: usize) -> (cell: Option<Cell>)
        requires
            self.wf(),
        ensures
            cell == if row < self@.rows() && col < self@.cols() {
                Some(self@.cells[row as int][col as int])
            } else {
                None
            },
    {
        if row < self.cells.len() && col < self.heights.len() {
            proof {
                assert(self@.cells[row as int].len() == self@.cols());
            }
            Some(self.cells[row][col])
        } else {
            None
        }
    }

    /// The number of pieces in column `col`, or `None` outside the board.
    pub fn height(&self, col: usize) -> (h: Option<usize>)
        ensures
            h == if col < self@.cols() {
                Some(self@.heights[col as int] as usize)
            } else {
                None
            },
    {
        if col < self.heights.len() {
            Some(self.heights[col])
        } else {
            None
        }
    }

    /// The columns that take another piece, in ascending order.
    pub fn legal_columns(&self) -> (moves: Vec<usize>)
        requires
            self.wf(),
        ensures
            moves@ == self@.legal_columns(),
    {
        let mut moves: Vec<usize> = Vec::new();
        let n = self.heights.len();
        let mut c: usize = 0;
        while c < n
            invariant
                self.wf(),
                n == self@.cols(),
                c <= n,
                moves@ == self@.legal_prefix(c as nat),
            decreases n - c,
        {
            proof {
                assert(self@.cells[0].len() == self@.cols());
            }
            if self.cells[0][c] == Cell::Empty {
                moves.push(c);
            }
            c += 1;
        }
        moves
    }

    /// No column takes another piece.
    pub fn is_full(&self) -> (full: bool)
        requires
            self.wf(),
        ensures
            full == self@.full(),
    {
        self.legal_columns().len() == 0
    }

    /// Places `occupant` in the lowest empty cell of column `col`. A column
    /// outside the board, an empty occupant or a full column is refused and
    /// the board is left as it was.
    pub fn perform_move(&mut self, col: usize, occupant: Cell) -> (placed: Result<(), BoardError>)
        requires
            old(self).wf(),
        ensures
            final(self).wf(),
            match old(self)@.rejection(col as int, occupant) {
                Some(e) => placed == Err::<(), BoardError>(e) && final(self)@ == old(self)@,
                None => placed is Ok && final(self)@ == old(self)@.with_move(col as int, occupant),
            },
    {
        if col >= self.heights.len() {
            return Err(BoardError::ColumnOutOfRange);
        }
        if occupant == Cell::Empty {
            return Err(BoardError::EmptyOccupant);
        }
        let rows = self.cells.len();
        let h = self.heights[col];
        proof {
            self@.lemma_legal_by_height(col as int);
        }
        if h >= rows {
            return Err(BoardError::ColumnFull);
        }
        let row = rows - 1 - h;
        proof {
            assert(self@.cells[row as int].len() == self@.cols());
        }
        self.cells[row][col] = occupant;
        self.heights[col] = h + 1;
        proof {
            let before = old(self)@;
            let after = before.with_move(col as int, occupant);
            assert(self@.heights =~= after.heights);
            assert forall|r: int| 0 <= r < self@.cells.len() implies #[trigger] self@.cells[r]
                == after.cells[r] by {
                assert(before.cells[r].len() == before.cols());
            }
            assert(self@.cells =~= after.cells);
            before.lemma_with_move_wf(col as int, occupant);
        }
        Ok(())
    }

    /// Clears the highest occupied cell of column `col`. A column outside the
    /// board or without pieces leaves the board as it was.
    pub fn undo_move(&mut self, col: usize)
        requires
            old(self).wf(),
        ensures
            final(self).wf(),
            final(self)@ == if col < old(self)@.cols() && old(self)@.heights[col as int] > 0 {
                old(self)@.without_top(col as int)
            } else {
                old(self)@
            },
    {
        if col >= self.heights.len() {
            return ;
        }
        let h = self.heights[col];
        if h == 0 {
            return ;
        }
        let rows = self.cells.len();
        proof {
            assert(old(self)@.heights[col as int] <= old(self)@.rows());
        }
        let row = rows - h;
        proof {
            assert(self@.cells[row as int].len() == self@.cols());
        }
        self.cells[row][col] = Cell::Empty;
        self.heights[col] = h - 1;
        proof {
            let before = old(self)@;
            let after = before.without_top(col as int);
            assert(self@.heights =~= after.heights);
            assert forall|r: int| 0 <= r < self@.cells.len() implies #[trigger] self@.cells[r]
                == after.cells[r] by {
                assert(before.cells[r].len() == before.cols());
            }
            assert(self@.cells =~= after.cells);
            before.lemma_without_top_wf(col as int);
        }
    }
}

impl Grid {
    /// Placing a piece in a legal column keeps the grid well-formed.
    pub proof fn lemma_with_move_wf(self, c: int, piece: Cell)
        requires
            self.wf(),
            self.legal(c),
            piece != Cell::Empty,
        ensures
            self.with_move(c, piece).wf(),
            self.with_move(c, piece).rows() == self.rows(),
            self.with_move(c, piece).cols() == self.cols(),
    {
        self.lemma_legal_by_height(c);
        let after = self.with_move(c, piece);
        let row = self.landing_row(c);
        assert forall|r: int| 0 <= r < after.rows() implies (#[trigger] after.cells[r]).len()
            == after.cols() by {
            assert(self.cells[r].len() == self.cols());
        }
        assert forall|k: int| 0 <= k < after.cols() implies (#[trigger] after.heights[k])
            <= after.rows() by {
            assert(self.heights[k] <= self.rows());
        }
        assert forall|r: int, k: int| 0 <= r < after.rows() && 0 <= k < after.cols() implies ((
        #[trigger] after.cells[r][k]) == Cell::Empty <==> r < after.rows() - after.heights[k]) by {
            assert(self.cells[r].len() == self.cols());
            assert(self.cells[r][k] == Cell::Empty <==> r < self.rows() - self.heights[k]);
        }
    }

    /// Taking the topmost piece off a column that holds one keeps the grid
    /// well-formed.
    pub proof fn lemma_without_top_wf(self, c: int)
        requires
            self.wf(),
            0 <= c < self.cols(),
            self.heights[c] > 0,
        ensures
            self.without_top(c).wf(),
            self.without_top(c).rows() == self.rows(),
            self.without_top(c).cols() == self.cols(),
    {
        let after = self.without_top(c);
        assert(self.heights[c] <= self.rows());
        assert forall|r: int| 0 <= r < after.rows() implies (#[trigger] after.cells[r]).len()
            == after.cols() by {
            assert(self.cells[r].len() == self.cols());
        }
        assert forall|k: int| 0 <= k < after.cols() implies (#[trigger] after.heights[k])
            <= after.rows() by {
            assert(self.heights[k] <= self.rows());
        }
        assert forall|r: int, k: int| 0 <= r < after.rows() && 0 <= k < after.cols() implies ((
        #[trigger] after.cells[r][k]) == Cell::Empty <==> r < after.rows() - after.heights[k]) by {
            assert(self.cells[r].len() == self.cols());
            assert(self.cells[r][k] == Cell::Empty <==> r < self.rows() - self.heights[k]);
        }
    }
}

impl Grid {
    /// Two grids whose columns below `n` are legal alike have the same legal
    /// columns below `n`; where they differ in the one column `c`, legal in
    /// `self` and not in `other`, `other` has exactly one fewer.
    proof fn lemma_legal_prefix_compare(self, other: Grid, c: int, n: nat)
        requires
            forall|k: int| 0 <= k < n && k != c ==> self.legal(k) == other.legal(k),
            0 <= c < n ==> self.legal(c) && !other.legal(c),
        ensures
            !(0 <= c < n) ==> other.legal_prefix(n) == self.legal_prefix(n),
            0 <= c < n ==> other.legal_prefix(n).len() + 1 == self.legal_prefix(n).len(),
        decreases n,
    {
        if n > 0 {
            self.lemma_legal_prefix_compare(other, c, (n - 1) as nat);
        }
    }

    /// Taking a piece off again gives back the grid it was placed on.
    pub proof fn lemma_move_then_undo(self, c: int, piece: Cell)
        requires
            self.wf(),
            self.legal(c),
            piece != Cell::Empty,
        ensures
            self.with_move(c, piece).wf(),
            self.with_move(c, piece).heights[c] > 0,
            self.with_move(c, piece).without_top(c) == self,
    {
        self.lemma_legal_by_height(c);
        self.lemma_with_move_wf(c, piece);
        let row = self.landing_row(c);
        let back = self.with_move(c, piece).without_top(c);
        assert(self.cells[row].len() == self.cols());
        assert(self.cells[row][c] == Cell::Empty);
        assert(back.heights =~= self.heights);
        assert(back.cells[row] =~= self.cells[row]);
        assert(back.cells =~= self.cells);
    }

    /// A piece placed in the last free cell of a column shortens the list of
    /// legal columns by exactly one, and taking it off again lengthens the
    /// list by exactly one.
    pub proof fn lemma_filling_move_counts(self, c: int, piece: Cell)
        requires
            self.wf(),
            self.legal(c),
            piece != Cell::Empty,
            self.heights[c] + 1 == self.rows(),
        ensures
            self.with_move(c, piece).legal_columns().len() + 1 == self.legal_columns().len(),
            self.with_move(c, piece).without_top(c).legal_columns().len() == self.with_move(
                c,
                piece,
            ).legal_columns().len() + 1,
    {
        let after = self.with_move(c, piece);
        self.lemma_with_move_wf(c, piece);
        self.lemma_move_then_undo(c, piece);
        assert forall|k: int| 0 <= k < self.cols() && k != c implies self.legal(k) == after.legal(
            k,
        ) by {
            assert(self.cells[0].len() == self.cols());
        }
        assert(self.cells[0].len() == self.cols());
        self.lemma_legal_prefix_compare(after, c, self.cols());
    }

    /// A piece placed in a column that keeps a free cell above it leaves the
    /// list of legal columns as it was.
    pub proof fn lemma_resting_move_counts(self, c: int, piece: Cell)
        requires
            self.wf(),
            self.legal(c),
            piece != Cell::Empty,
            self.heights[c] + 1 < self.rows(),
        ensures
            self.with_move(c, piece).legal_columns() == self.legal_columns(),
    {
        let after = self.with_move(c, piece);
        self.lemma_with_move_wf(c, piece);
        assert forall|k: int| 0 <= k < self.cols() implies self.legal(k) == after.legal(k) by {
            assert(self.cells[0].len() == self.cols());
        }
        self.lemma_legal_prefix_compare(after, -1, self.cols());
    }
}

} // verus!
