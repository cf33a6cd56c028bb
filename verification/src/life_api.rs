use crate::cell_array::{
    array_cells, array_cols, is_binary, is_matrix, storable, window, zero_matrix, CellArray,
};
use crate::rules::next_state;
use vstd::prelude::*;

verus! {

/// Logical dimensions of a board: rows, then columns.
pub type Size = (usize, usize);

/// One generation of the game: the cells of the logical region, row by row.
#[verifier::ext_equal]
pub struct Generation {
    pub rows: nat,
    pub cols: nat,
    pub cells: Seq<Seq<u8>>,
}

impl Generation {
    /// The cells form a `rows` by `cols` matrix of zeros and ones.
    pub open spec fn wf(self) -> bool {
        &&& is_matrix(self.cells, self.rows, self.cols)
        &&& is_binary(self.cells)
    }

    /// The generation of the given size in which every cell is dead.
    pub open spec fn dead(rows: nat, cols: nat) -> Generation {
        Generation { rows, cols, cells: zero_matrix(rows, cols) }
    }

    /// The value of the cell at `(r, c)`, and 0 for a place off the grid.
    pub open spec fn alive(self, r: int, c: int) -> int {
        if 0 <= r < self.rows && 0 <= c < self.cols {
            self.cells[r][c] as int
        } else {
            0
        }
    }

    /// The number of live cells among the eight neighbours of `(r, c)`.
    pub open spec fn live_neighbours(self, r: int, c: int) -> int {
        self.alive(r - 1, c - 1) + self.alive(r - 1, c) + self.alive(r - 1, c + 1)
            + self.alive(r, c - 1) + self.alive(r, c + 1)
            + self.alive(r + 1, c - 1) + self.alive(r + 1, c) + self.alive(r + 1, c + 1)
    }

    /// This generation with the cell at `(r, c)` set to `v`.
    pub open spec fn with_cell(self, r: int, c: int, v: u8) -> Generation {
        Generation { cells: self.cells.update(r, self.cells[r].update(c, v)), ..self }
    }

    /// The generation that follows this one: every cell takes its
    /// [`next_state`] under the neighbour count of this generation.
    pub open spec fn step(self) -> Generation {
        Generation {
            rows: self.rows,
            cols: self.cols,
            cells: Seq::new(
                self.rows,
                |r: int|
                    Seq::new(
                        self.cols,
                        |c: int| next_state(self.cells[r][c], self.live_neighbours(r, c)),
                    ),
            ),
        }
    }
}

/// The board of the game: the cells of the current generation inside a ring
/// of dead cells, one cell wide, which no operation writes.
pub struct Board {
    board: CellArray,
}

impl View for Board {
    type V = Generation;

    /// The current generation: the stored matrix without its border.
    open spec fn view(&self) -> Generation {
        Generation {
            rows: (self.stored().len() - 2) as nat,
            cols: (self.stored_cols() - 2) as nat,
            cells: window(
                self.stored(),
                1,
                self.stored().len() - 1,
                1,
                self.stored_cols() - 1,
            ),
        }
    }
}

impl Board {
    /// The stored matrix, border included.
    pub closed spec fn stored(&self) -> Seq<Seq<u8>> {
        array_cells(self.board)
    }

    /// The number of columns of the stored matrix, border included.
    pub closed spec fn stored_cols(&self) -> nat {
        array_cols(self.board)
    }

    /// Every cell in the outer ring of the stored matrix is dead.
    pub open spec fn border_dead(&self) -> bool {
        forall|r: int, c: int|
            0 <= r < self.stored().len() && 0 <= c < self.stored_cols() && (r == 0 || r
                == self.stored().len() - 1 || c == 0 || c == self.stored_cols() - 1)
                ==> #[trigger] self.stored()[r][c] == 0
    }

    /// The invariant of a board: the stored matrix is two larger than the
    /// logical region in each direction and small enough to be allocated,
    /// its cells are zeros and ones, and its border is dead.
    pub open spec fn wf(&self) -> bool {
        &&& self.stored().len() >= 2
        &&& self.stored_cols() >= 2
        &&& is_matrix(self.stored(), self.stored().len(), self.stored_cols())
        &&& Self::fits((self.stored().len() - 2) as nat, (self.stored_cols() - 2) as nat)
        &&& is_binary(self.stored())
        &&& self.border_dead()
    }

    /// The logical region is the matrix `cells`, whose rows have `cols` cells.
    pub open spec fn shows(&self, cells: Seq<Seq<u8>>, cols: nat) -> bool {
        &&& self@.rows == cells.len()
        &&& self@.cols == cols
        &&& self@.cells == cells
    }

    /// A board of this logical size can be stored: with its border it has
    /// no more than `isize::MAX` cells.
    pub open spec fn fits(rows: nat, cols: nat) -> bool {
        (rows + 2) * (cols + 2) <= isize::MAX
    }

    /// Whether a board of this logical size can be stored.
    pub fn can_hold(size: &Size) -> (yes: bool)
        ensures
            yes == Self::fits(size.0 as nat, size.1 as nat),
    {
        let limit: usize = isize::MAX as usize;
        if size.0 > limit - 2 || size.1 > limit - 2 {
            proof {
                if Self::fits(size.0 as nat, size.1 as nat) {
                    lemma_fits_bounds(size.0 as nat, size.1 as nat);
                }
            }
            return false;
        }
        match (size.0 + 2).checked_mul(size.1 + 2) {
            Some(cells) => cells <= limit,
            None => false,
        }
    }

    /// A board of the given logical size on which every cell is dead.
    pub fn new(size: &Size) -> (b: Board)
        requires
            Self::fits(size.0 as nat, size.1 as nat),
        ensures
            b.wf(),
            b@ == Generation::dead(size.0 as nat, size.1 as nat),
    {
        proof {
            lemma_fits_bounds(size.0 as nat, size.1 as nat);
        }
        let b = Board { board: CellArray::zeros(size.0 + 2, size.1 + 2) };
        assert(b@.cells =~~= zero_matrix(size.0 as nat, size.1 as nat));
        b
    }

    /// A board whose logical region holds the cells of `arr`, a matrix of
    /// zeros and ones. The border around it is dead.
    pub fn from(arr: CellArray) -> (b: Board)
        requires
            is_binary(array_cells(arr)),
            Self::fits(array_cells(arr).len(), array_cols(arr)),
        ensures
            b.wf(),
            b.shows(array_cells(arr), array_cols(arr)),
    {
        let (rows, cols) = arr.shape();
        proof {
            lemma_fits_bounds(rows as nat, cols as nat);
        }
        let mut new_array = CellArray::zeros(rows + 2, cols + 2);
        new_array.assign_window(1, rows + 1, 1, cols + 1, &arr);
        let b = Board { board: new_array };
        assert(b@.cells =~~= array_cells(arr));
        b
    }

    /// The logical size of the board.
    pub fn dim(&self) -> (size: Size)
        requires
            self.wf(),
        ensures
            size.0 == self@.rows,
            size.1 == self@.cols,
    {
        let (rows, cols) = self.board.shape();
        (rows - 2, cols - 2)
    }

    /// The cells of the logical region, without the border.
    pub fn get_array(&self) -> (arr: CellArray)
        requires
            self.wf(),
        ensures
            self.shows(array_cells(arr), array_cols(arr)),
    {
        let (rows, cols) = self.board.shape();
        self.board.copy_window(1, rows - 1, 1, cols - 1)
    }

    /// Makes the cell at row `r`, column `c` of the logical region alive.
    pub fn set_cell(&mut self, r: usize, c: usize)
        requires
            old(self).wf(),
            r < old(self)@.rows,
            c < old(self)@.cols,
        ensures
            final(self).wf(),
            final(self)@ == old(self)@.with_cell(r as int, c as int, 1),
    {
        self.write_cell(r, c, 1);
    }

    /// Makes the cell at row `r`, column `c` of the logical region dead.
    pub fn clear_cell(&mut self, r: usize, c: usize)
        requires
            old(self).wf(),
            r < old(self)@.rows,
            c < old(self)@.cols,
        ensures
            final(self).wf(),
            final(self)@ == old(self)@.with_cell(r as int, c as int, 0),
    {
        self.write_cell(r, c, 0);
    }

    /// Advances the board by one generation: every cell of the logical
    /// region takes its next state under the neighbour counts of the
    /// generation before the call.
    pub fn update(&mut self)
        requires
            old(self).wf(),
        ensures
            final(self).wf(),
            final(self)@ == old(self)@.step(),
    {
        let (stored_rows, stored_cols) = self.board.shape();
        let rows: usize = stored_rows - 2;
        let cols: usize = stored_cols - 2;
        proof {
            lemma_fits_bounds(rows as nat, cols as nat);
        }
        let ghost p = self.stored();
        let mut neighbours = CellArray::zeros(rows, cols);

        // The eight windows of the stored matrix that lie one step away from
        // the logical region are summed before any cell changes. The border
        // makes each of them as large as the logical region.
        let ghost s0 = |i: int, j: int| 0int;
        add_neighbours(&mut neighbours, &self.board, 0, 0, rows, cols, Ghost(0), Ghost(s0));
        let ghost s1 = |i: int, j: int| s0(i, j) + p[i][j];
        add_neighbours(&mut neighbours, &self.board, 0, 1, rows, cols, Ghost(1), Ghost(s1));
        let ghost s2 = |i: int, j: int| s1(i, j) + p[i][j + 1];
        add_neighbours(&mut neighbours, &self.board, 0, 2, rows, cols, Ghost(2), Ghost(s2));
        let ghost s3 = |i: int, j: int| s2(i, j) + p[i][j + 2];

        add_neighbours(&mut neighbours, &self.board, 1, 0, rows, cols, Ghost(3), Ghost(s3));
        let ghost s4 = |i: int, j: int| s3(i, j) + p[i + 1][j];
        // The window in the middle is the cell itself, which does not count.
        add_neighbours(&mut neighbours, &self.board, 1, 2, rows, cols, Ghost(4), Ghost(s4));
        let ghost s5 = |i: int, j: int| s4(i, j) + p[i + 1][j + 2];

        add_neighbours(&mut neighbours, &self.board, 2, 0, rows, cols, Ghost(5), Ghost(s5));
        let ghost s6 = |i: int, j: int| s5(i, j) + p[i + 2][j];
        add_neighbours(&mut neighbours, &self.board, 2, 1, rows, cols, Ghost(6), Ghost(s6));
        let ghost s7 = |i: int, j: int| s6(i, j) + p[i + 2][j + 1];
        add_neighbours(&mut neighbours, &self.board, 2, 2, rows, cols, Ghost(7), Ghost(s7));

        let ghost counts = array_cells(neighbours);
        assert forall|i: int, j: int| 0 <= i < rows && 0 <= j < cols implies #[trigger] counts[i][j]
            == old(self)@.live_neighbours(i, j) by {
            lemma_neighbours_stored(*old(self), i, j);
        }
        self.board.step_window(1, rows + 1, 1, cols + 1, &neighbours);
        assert(self@.cells =~~= old(self)@.step().cells);
    }

    /// Stores `v` at row `r`, column `c` of the logical region, one row and
    /// one column further in the stored matrix.
    fn write_cell(&mut self, r: usize, c: usize, v: u8)
        requires
            old(self).wf(),
            r < old(self)@.rows,
            c < old(self)@.cols,
            v <= 1,
        ensures
            final(self).wf(),
            final(self)@ == old(self)@.with_cell(r as int, c as int, v),
    {
        proof {
            lemma_fits_bounds(self@.rows, self@.cols);
        }
        self.board.put(r + 1, c + 1, v);
        assert(self@.cells =~~= old(self)@.with_cell(r as int, c as int, v).cells);
    }
}

/// A board of up to 32766 rows and as many columns can be stored on every
/// machine.
pub proof fn lemma_small_board_fits(rows: nat, cols: nat)
    requires
        rows <= 32766,
        cols <= 32766,
    ensures
        Board::fits(rows, cols),
{
    assert((rows + 2) * (cols + 2) <= 0x4000_0000) by (nonlinear_arith)
        requires
            rows <= 32766,
            cols <= 32766,
    ;
}

/// Reading back a board gives the matrix it was made from: where a board
/// shows the matrix `made_from`, as one that `Board::from` returns does, any
/// matrix that it shows, as the one that `Board::get_array` returns, is
/// `made_from`, cell for cell and with the same shape.
pub proof fn lemma_round_trip(
    b: Board,
    made_from: Seq<Seq<u8>>,
    made_cols: nat,
    read: Seq<Seq<u8>>,
    read_cols: nat,
)
    requires
        b.shows(made_from, made_cols),
        b.shows(read, read_cols),
    ensures
        read == made_from,
        read_cols == made_cols,
{
}

/// The rule of the game: a cell is alive in the next generation if and only
/// if exactly three of its neighbours are alive now, or exactly two are and
/// the cell itself is alive now. It is dead otherwise.
pub proof fn lemma_rule(g: Generation, r: int, c: int)
    requires
        g.wf(),
        0 <= r < g.rows,
        0 <= c < g.cols,
    ensures
        g.step().cells[r][c] == 1 <==> g.live_neighbours(r, c) == 3 || (g.live_neighbours(r, c) == 2
            && g.cells[r][c] == 1),
        g.step().cells[r][c] == 0 <==> !(g.live_neighbours(r, c) == 3 || (g.live_neighbours(r, c)
            == 2 && g.cells[r][c] == 1)),
{
}

/// The next generation is computed from this one alone: each of its cells
/// is the next state of the same cell here, under the neighbour count taken
/// here, whatever the other cells become.
pub proof fn lemma_step_reads_this_generation(g: Generation, r: int, c: int)
    requires
        0 <= r < g.rows,
        0 <= c < g.cols,
    ensures
        g.step().cells[r][c] == next_state(g.cells[r][c], g.live_neighbours(r, c)),
{
}

/// The next generation of a well-formed generation is well formed and has
/// its size.
pub proof fn lemma_step_wf(g: Generation)
    requires
        g.wf(),
    ensures
        g.step().wf(),
        g.step().rows == g.rows,
        g.step().cols == g.cols,
{
}

/// A grid in which every cell is dead stays so, whatever its size.
pub proof fn lemma_dead_stays_dead(rows: nat, cols: nat)
    ensures
        Generation::dead(rows, cols).wf(),
        Generation::dead(rows, cols).step() == Generation::dead(rows, cols),
{
    let g = Generation::dead(rows, cols);
    assert forall|r: int, c: int| 0 <= r < rows && 0 <= c < cols implies g.live_neighbours(r, c)
        == 0 by {}
    assert(g.step().cells =~~= g.cells);
}

/// Making one cell of a dead grid alive leaves exactly that cell alive, and
/// making it dead again gives the dead grid back.
pub proof fn lemma_edit_one_cell(rows: nat, cols: nat, r: int, c: int)
    requires
        0 <= r < rows,
        0 <= c < cols,
    ensures
        forall|i: int, j: int|
            0 <= i < rows && 0 <= j < cols ==> #[trigger] Generation::dead(rows, cols).with_cell(
                r,
                c,
                1,
            ).cells[i][j] == (if i == r && j == c {
                1u8
            } else {
                0u8
            }),
        Generation::dead(rows, cols).with_cell(r, c, 1).with_cell(r, c, 0) == Generation::dead(
            rows,
            cols,
        ),
{
    let g = Generation::dead(rows, cols);
    assert(g.with_cell(r, c, 1).with_cell(r, c, 0).cells =~~= g.cells);
}

/// Adds to each cell `(i, j)` of `counts` the cell `(dr + i, dc + j)` of the
/// stored matrix: one of the windows that `update` sums. `sum` is what
/// `counts` holds before the call, and `k` the number of windows in it.
fn add_neighbours(
    counts: &mut CellArray,
    stored: &CellArray,
    dr: usize,
    dc: usize,
    rows: usize,
    cols: usize,
    Ghost(k): Ghost<int>,
    Ghost(sum): Ghost<spec_fn(int, int) -> int>,
)
    requires
        dr <= 2,
        dc <= 2,
        0 <= k < 8,
        Board::fits(rows as nat, cols as nat),
        is_matrix(array_cells(*stored), (rows + 2) as nat, (cols + 2) as nat),
        array_cols(*stored) == cols + 2,
        is_binary(array_cells(*stored)),
        is_matrix(array_cells(*old(counts)), rows as nat, cols as nat),
        array_cols(*old(counts)) == cols,
        forall|i: int, j: int|
            0 <= i < rows && 0 <= j < cols ==> #[trigger] array_cells(*old(counts))[i][j] == sum(
                i,
                j,
            ) && sum(i, j) <= k,
    ensures
        is_matrix(array_cells(*final(counts)), rows as nat, cols as nat),
        array_cols(*final(counts)) == cols,
        forall|i: int, j: int|
            0 <= i < rows && 0 <= j < cols ==> #[trigger] array_cells(*final(counts))[i][j] == sum(
                i,
                j,
            ) + array_cells(*stored)[dr + i][dc + j] && sum(i, j) + array_cells(*stored)[dr + i][dc
                + j] <= k + 1,
{
    proof {
        lemma_fits_bounds(rows as nat, cols as nat);
    }
    counts.add_window(stored, dr, dr + rows, dc, dc + cols);
}

/// The neighbour count of a logical cell is the sum of the eight cells
/// around it in the stored matrix: where a neighbour is off the grid, the
/// stored matrix holds a dead border cell.
proof fn lemma_neighbours_stored(b: Board, i: int, j: int)
    requires
        b.wf(),
        0 <= i < b@.rows,
        0 <= j < b@.cols,
    ensures
        b@.live_neighbours(i, j) == b.stored()[i][j] + b.stored()[i][j + 1] + b.stored()[i][j + 2]
            + b.stored()[i + 1][j] + b.stored()[i + 1][j + 2] + b.stored()[i + 2][j]
            + b.stored()[i + 2][j + 1] + b.stored()[i + 2][j + 2],
{
    lemma_alive_stored(b, i - 1, j - 1);
    lemma_alive_stored(b, i - 1, j);
    lemma_alive_stored(b, i - 1, j + 1);
    lemma_alive_stored(b, i, j - 1);
    lemma_alive_stored(b, i, j + 1);
    lemma_alive_stored(b, i + 1, j - 1);
    lemma_alive_stored(b, i + 1, j);
    lemma_alive_stored(b, i + 1, j + 1);
}

/// On the logical region and one step around it, `alive` reads the stored
/// matrix one row and one column further in.
proof fn lemma_alive_stored(b: Board, r: int, c: int)
    requires
        b.wf(),
        -1 <= r <= b@.rows,
        -1 <= c <= b@.cols,
    ensures
        b@.alive(r, c) == b.stored()[r + 1][c + 1],
{
}

/// A size that fits leaves room for the border on each axis.
proof fn lemma_fits_bounds(rows: nat, cols: nat)
    requires
        Board::fits(rows, cols),
    ensures
        storable(rows + 2, cols + 2),
        storable(rows, cols),
{
    assert(rows + 2 <= (rows + 2) * (cols + 2) && cols + 2 <= (rows + 2) * (cols + 2) && rows * cols
        <= (rows + 2) * (cols + 2)) by (nonlinear_arith);
}

} // verus!
