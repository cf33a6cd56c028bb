use crate::rules::{next_state, step_cell};
use ndarray::{Array2, Axis, Slice};
use vstd::prelude::*;

verus! {

/// A two-dimensional array of bytes, stored by `ndarray`.
///
/// The verifier sees nothing inside it. What it holds is named by
/// [`array_cells`] and [`array_cols`], and every operation below states its
/// effect over those two.
#[verifier::external_body]
#[derive(Debug, PartialEq, Eq)]
pub struct CellArray {
    cells: Array2<u8>,
}

/// The rows of an array, first row first, each row from its first column on.
pub uninterp spec fn array_cells(a: CellArray) -> Seq<Seq<u8>>;

/// The length of the second axis of an array, which every row has. It is
/// kept apart from [`array_cells`] because an array without rows still has it.
pub uninterp spec fn array_cols(a: CellArray) -> nat;

/// `m` has `rows` rows of `cols` cells each.
pub open spec fn is_matrix(m: Seq<Seq<u8>>, rows: nat, cols: nat) -> bool {
    &&& m.len() == rows
    &&& forall|r: int| 0 <= r < rows ==> (#[trigger] m[r]).len() == cols
}

/// Every cell of `m` is 0 or 1.
pub open spec fn is_binary(m: Seq<Seq<u8>>) -> bool {
    forall|r: int, c: int| 0 <= r < m.len() && 0 <= c < m[r].len() ==> #[trigger] m[r][c] <= 1
}

/// An array of this shape can be allocated: neither axis, nor the number of
/// cells, exceeds `isize::MAX`.
pub open spec fn storable(rows: nat, cols: nat) -> bool {
    rows <= isize::MAX && cols <= isize::MAX && rows * cols <= isize::MAX
}

/// The matrix that nested vectors spell out, one vector for each row.
pub open spec fn rows_view(rows: Seq<Vec<u8>>) -> Seq<Seq<u8>> {
    Seq::new(rows.len(), |r: int| rows[r]@)
}

/// The length of the first of the rows, and 0 where there is none.
pub open spec fn width(rows: Seq<Vec<u8>>) -> nat {
    if rows.len() == 0 {
        0
    } else {
        rows[0]@.len()
    }
}

/// All rows have one length.
pub open spec fn rectangular(rows: Seq<Vec<u8>>) -> bool {
    forall|r: int| 0 <= r < rows.len() ==> (#[trigger] rows[r])@.len() == width(rows)
}

/// The matrix of `rows` by `cols` zeros.
pub open spec fn zero_matrix(rows: nat, cols: nat) -> Seq<Seq<u8>> {
    Seq::new(rows, |r: int| Seq::new(cols, |c: int| 0u8))
}

/// Rows `r0..r1`, columns `c0..c1` of `m`.
pub open spec fn window(m: Seq<Seq<u8>>, r0: int, r1: int, c0: int, c1: int) -> Seq<Seq<u8>> {
    Seq::new((r1 - r0) as nat, |i: int| Seq::new((c1 - c0) as nat, |j: int| m[r0 + i][c0 + j]))
}

/// `m` with rows `r0..r1`, columns `c0..c1` replaced by the cells of `w`.
pub open spec fn pasted(m: Seq<Seq<u8>>, r0: int, r1: int, c0: int, c1: int, w: Seq<Seq<u8>>) -> Seq<
    Seq<u8>,
> {
    Seq::new(
        m.len(),
        |r: int|
            Seq::new(
                m[r].len(),
                |c: int|
                    if r0 <= r < r1 && c0 <= c < c1 {
                        w[r - r0][c - c0]
                    } else {
                        m[r][c]
                    },
            ),
    )
}

/// `acc` with the cell at `(r0 + i, c0 + j)` of `m` added to each cell `(i, j)`.
pub open spec fn window_added(acc: Seq<Seq<u8>>, m: Seq<Seq<u8>>, r0: int, c0: int) -> Seq<Seq<u8>> {
    Seq::new(
        acc.len(),
        |i: int| Seq::new(acc[i].len(), |j: int| (acc[i][j] + m[r0 + i][c0 + j]) as u8),
    )
}

/// `m` with each cell of rows `r0..r1`, columns `c0..c1` replaced by its
/// [`next_state`] under the count that `counts` holds for it.
pub open spec fn window_stepped(
    m: Seq<Seq<u8>>,
    r0: int,
    r1: int,
    c0: int,
    c1: int,
    counts: Seq<Seq<u8>>,
) -> Seq<Seq<u8>> {
    Seq::new(
        m.len(),
        |r: int|
            Seq::new(
                m[r].len(),
                |c: int|
                    if r0 <= r < r1 && c0 <= c < c1 {
                        next_state(m[r][c], counts[r - r0][c - c0] as int)
                    } else {
                        m[r][c]
                    },
            ),
    )
}

impl CellArray {
    /// Builds the array that `rows` spells out. There is none where the rows
    /// differ in length or the shape cannot be allocated.
    pub fn from_rows(rows: &Vec<Vec<u8>>) -> (made: Option<CellArray>)
        ensures
            made is Some <==> rectangular(rows@) && storable(rows@.len(), width(rows@)),
            made matches Some(a) ==> array_cells(a) == rows_view(rows@) && array_cols(a) == width(
                rows@,
            ),
    {
        let n: usize = rows.len();
        let w: usize = if n == 0 {
            0
        } else {
            rows[0].len()
        };
        let mut r: usize = 0;
        while r < n
            invariant
                n == rows@.len(),
                w == width(rows@),
                r <= n,
                forall|k: int| 0 <= k < r ==> (#[trigger] rows@[k])@.len() == w,
            decreases n - r,
        {
            if rows[r].len() != w {
                return None;
            }
            r += 1;
        }
        if !can_store(n, w) {
            return None;
        }
        let mut a = CellArray::zeros(n, w);
        r = 0;
        while r < n
            invariant
                n == rows@.len(),
                rectangular(rows@),
                w == width(rows@),
                r <= n,
                array_cols(a) == w,
                is_matrix(array_cells(a), n as nat, w as nat),
                forall|i: int, j: int|
                    0 <= i < r && 0 <= j < w ==> #[trigger] array_cells(a)[i][j] == rows@[i]@[j],
            decreases n - r,
        {
            let mut c: usize = 0;
            while c < w
                invariant
                    n == rows@.len(),
                    rectangular(rows@),
                    w == width(rows@),
                    r < n,
                    c <= w,
                    array_cols(a) == w,
                    is_matrix(array_cells(a), n as nat, w as nat),
                    forall|i: int, j: int|
                        0 <= i < r && 0 <= j < w ==> #[trigger] array_cells(a)[i][j]
                            == rows@[i]@[j],
                    forall|j: int|
                        0 <= j < c ==> #[trigger] array_cells(a)[r as int][j] == rows@[r as int]@[j],
                decreases w - c,
            {
                a.put(r, c, rows[r][c]);
                c += 1;
            }
            r += 1;
        }
        assert(array_cells(a) =~~= rows_view(rows@));
        Some(a)
    }

    /// The lengths of the two axes: rows, then columns.
    pub fn dim(&self) -> (d: (usize, usize))
        ensures
            d.0 == array_cells(*self).len(),
            d.1 == array_cols(*self),
            is_matrix(array_cells(*self), d.0 as nat, d.1 as nat),
    {
        self.shape()
    }

    /// The cell at row `r`, column `c`, where the array has one.
    pub fn get(&self, r: usize, c: usize) -> (found: Option<u8>)
        ensures
            found == (if r < array_cells(*self).len() && c < array_cols(*self) {
                Some(array_cells(*self)[r as int][c as int])
            } else {
                None
            }),
    {
        let (n, w) = self.shape();
        if r < n && c < w {
            Some(self.cell(r, c))
        } else {
            None
        }
    }

    /// Whether every cell is 0 or 1.
    pub fn is_binary(&self) -> (yes: bool)
        ensures
            yes == is_binary(array_cells(*self)),
    {
        let (n, w) = self.shape();
        let mut r: usize = 0;
        while r < n
            invariant
                r <= n,
                array_cols(*self) == w,
                is_matrix(array_cells(*self), n as nat, w as nat),
                forall|i: int, j: int|
                    0 <= i < r && 0 <= j < w ==> #[trigger] array_cells(*self)[i][j] <= 1,
            decreases n - r,
        {
            let mut c: usize = 0;
            while c < w
                invariant
                    r < n,
                    c <= w,
                    array_cols(*self) == w,
                    is_matrix(array_cells(*self), n as nat, w as nat),
                    forall|i: int, j: int|
                        0 <= i < r && 0 <= j < w ==> #[trigger] array_cells(*self)[i][j] <= 1,
                    forall|j: int| 0 <= j < c ==> #[trigger] array_cells(*self)[r as int][j] <= 1,
                decreases w - c,
            {
                if self.cell(r, c) > 1 {
                    return false;
                }
                c += 1;
            }
            r += 1;
        }
        true
    }

    /// `ndarray::Array2::zeros`: an array of the given shape with every cell
    /// zero. The call panics when the product of the non-zero axis lengths
    /// exceeds `isize::MAX`, which the precondition rules out.
    #[verifier::external_body]
    pub(crate) fn zeros(rows: usize, cols: usize) -> (a: CellArray)
        requires
            storable(rows as nat, cols as nat),
        ensures
            array_cells(a) == zero_matrix(rows as nat, cols as nat),
            array_cols(a) == cols,
    {
        CellArray { cells: Array2::zeros((rows, cols)) }
    }

    /// `ndarray::ArrayBase::dim`: the lengths of the two axes. Every row of
    /// an array has the length of the second axis.
    #[verifier::external_body]
    pub(crate) fn shape(&self) -> (d: (usize, usize))
        ensures
            array_cols(*self) == d.1,
            is_matrix(array_cells(*self), d.0 as nat, d.1 as nat),
    {
        self.cells.dim()
    }

    /// Indexing an `ndarray` array by `[row, column]`: the cell there. The
    /// index panics out of bounds, which the precondition rules out.
    #[verifier::external_body]
    pub(crate) fn cell(&self, r: usize, c: usize) -> (v: u8)
        requires
            r < array_cells(*self).len(),
            c < array_cols(*self),
        ensures
            v == array_cells(*self)[r as int][c as int],
    {
        self.cells[[r, c]]
    }

    /// Assigning through the mutable index of an `ndarray` array: the cell at
    /// `[row, column]` becomes `v`, and nothing else changes.
    #[verifier::external_body]
    pub(crate) fn put(&mut self, r: usize, c: usize, v: u8)
        requires
            r < array_cells(*old(self)).len(),
            c < array_cols(*old(self)),
        ensures
            array_cols(*final(self)) == array_cols(*old(self)),
            array_cells(*final(self)) == array_cells(*old(self)).update(
                r as int,
                array_cells(*old(self))[r as int].update(c as int, v),
            ),
    {
        self.cells[[r, c]] = v;
    }

    /// `ndarray::ArrayBase::slice_axis` along both axes, then `to_owned`: a
    /// new array that holds rows `r0..r1`, columns `c0..c1` of this one.
    /// Slicing panics past the end of an axis.
    #[verifier::external_body]
    pub(crate) fn copy_window(&self, r0: usize, r1: usize, c0: usize, c1: usize) -> (w: CellArray)
        requires
            r0 <= r1 <= array_cells(*self).len(),
            c0 <= c1 <= array_cols(*self),
        ensures
            array_cells(w) == window(array_cells(*self), r0 as int, r1 as int, c0 as int, c1 as int),
            array_cols(w) == c1 - c0,
    {
        let rows = self.cells.slice_axis(Axis(0), Slice::from(r0..r1));
        CellArray { cells: rows.slice_axis(Axis(1), Slice::from(c0..c1)).to_owned() }
    }

    /// `ndarray::ArrayBase::assign` into a mutable slice: rows `r0..r1`,
    /// columns `c0..c1` take the cells of `src`, which has that shape (with
    /// another shape `assign` broadcasts or panics); the rest stays.
    #[verifier::external_body]
    pub(crate) fn assign_window(&mut self, r0: usize, r1: usize, c0: usize, c1: usize, src: &CellArray)
        requires
            r0 <= r1 <= array_cells(*old(self)).len(),
            c0 <= c1 <= array_cols(*old(self)),
            array_cells(*src).len() == r1 - r0,
            array_cols(*src) == c1 - c0,
        ensures
            array_cols(*final(self)) == array_cols(*old(self)),
            array_cells(*final(self)) == pasted(
                array_cells(*old(self)),
                r0 as int,
                r1 as int,
                c0 as int,
                c1 as int,
                array_cells(*src),
            ),
    {
        let mut rows = self.cells.slice_axis_mut(Axis(0), Slice::from(r0..r1));
        rows.slice_axis_mut(Axis(1), Slice::from(c0..c1)).assign(&src.cells);
    }

    /// `+=` of `ndarray` with a slice on the right: each cell grows by the
    /// cell of `src` at the same place within rows `r0..r1`, columns
    /// `c0..c1`. The slice has the shape of this array, and no sum leaves
    /// `u8`, as the addition is the plain one of the cell type.
    #[verifier::external_body]
    pub(crate) fn add_window(&mut self, src: &CellArray, r0: usize, r1: usize, c0: usize, c1: usize)
        requires
            r0 <= r1 <= array_cells(*src).len(),
            c0 <= c1 <= array_cols(*src),
            array_cells(*old(self)).len() == r1 - r0,
            array_cols(*old(self)) == c1 - c0,
            forall|i: int, j: int|
                0 <= i < r1 - r0 && 0 <= j < c1 - c0 ==> #[trigger] array_cells(*old(self))[i][j]
                    + array_cells(*src)[r0 + i][c0 + j] <= u8::MAX,
        ensures
            array_cols(*final(self)) == array_cols(*old(self)),
            array_cells(*final(self)) == window_added(
                array_cells(*old(self)),
                array_cells(*src),
                r0 as int,
                c0 as int,
            ),
    {
        let rows = src.cells.slice_axis(Axis(0), Slice::from(r0..r1));
        self.cells += &rows.slice_axis(Axis(1), Slice::from(c0..c1));
    }

    /// `ndarray::ArrayBase::zip_mut_with` on a mutable slice: each cell of
    /// rows `r0..r1`, columns `c0..c1` is handed to [`step_cell`] once,
    /// together with the cell of `counts` at the same place within the
    /// slice. `counts` has the shape of the slice.
    #[verifier::external_body]
    pub(crate) fn step_window(&mut self, r0: usize, r1: usize, c0: usize, c1: usize, counts: &CellArray)
        requires
            r0 <= r1 <= array_cells(*old(self)).len(),
            c0 <= c1 <= array_cols(*old(self)),
            array_cells(*counts).len() == r1 - r0,
            array_cols(*counts) == c1 - c0,
        ensures
            array_cols(*final(self)) == array_cols(*old(self)),
            array_cells(*final(self)) == window_stepped(
                array_cells(*old(self)),
                r0 as int,
                r1 as int,
                c0 as int,
                c1 as int,
                array_cells(*counts),
            ),
    {
        let mut rows = self.cells.slice_axis_mut(Axis(0), Slice::from(r0..r1));
        rows.slice_axis_mut(Axis(1), Slice::from(c0..c1)).zip_mut_with(&counts.cells, step_cell);
    }
}

impl Clone for CellArray {
    /// A new array with the shape and the cells of this one.
    fn clone(&self) -> (copy: Self)
        ensures
            array_cells(copy) == array_cells(*self),
            array_cols(copy) == array_cols(*self),
    {
        let (n, w) = self.shape();
        let copy = self.copy_window(0, n, 0, w);
        assert(array_cells(copy) =~~= array_cells(*self));
        copy
    }
}

/// Whether an array of this shape can be allocated.
fn can_store(rows: usize, cols: usize) -> (yes: bool)
    ensures
        yes == storable(rows as nat, cols as nat),
{
    let limit: usize = isize::MAX as usize;
    if rows > limit || cols > limit {
        return false;
    }
    match rows.checked_mul(cols) {
        Some(cells) => cells <= limit,
        None => false,
    }
}

} // verus!
