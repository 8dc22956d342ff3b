//! A dense matrix of numbers, and the grid of values that it stands for.

use vstd::prelude::*;
use vstd::arithmetic::div_mod::lemma_fundamental_div_mod_converse;
use crate::error::ShapeMismatch;

verus! {

/// What a matrix holds: its rows, each `width` numbers long.
pub struct Grid {
    pub width: nat,
    pub rows: Seq<Seq<u64>>,
}

impl Grid {
    /// Every row has `width` numbers.
    pub open spec fn wf(self) -> bool {
        forall|r: int| 0 <= r < self.rows.len() ==> (#[trigger] self.rows[r]).len() == self.width
    }

    /// The grid of `rows` rows and `cols` columns that `cells` fills row after row.
    pub open spec fn from_cells(rows: nat, cols: nat, cells: Seq<u64>) -> Grid {
        Grid {
            width: cols,
            rows: Seq::new(rows, |r: int| Seq::new(cols, |c: int| cells[r * cols + c])),
        }
    }

    /// One more column fits: the wider grid's width and size are machine sizes.
    pub open spec fn has_room(self) -> bool {
        &&& self.width < usize::MAX
        &&& self.rows.len() * (self.width + 1) <= usize::MAX
    }

    /// The grid with one more column in front, `value` in each of its rows.
    pub open spec fn prepend_column(self, value: u64) -> Grid {
        Grid {
            width: self.width + 1,
            rows: Seq::new(self.rows.len(), |r: int| seq![value] + self.rows[r]),
        }
    }
}

/// A dense matrix of numbers, stored row after row.
#[derive(Debug)]
pub struct Matrix {
    rows: usize,
    cols: usize,
    data: Vec<u64>,
}

impl View for Matrix {
    type V = Grid;

    closed spec fn view(&self) -> Grid {
        Grid::from_cells(self.rows as nat, self.cols as nat, self.data@)
    }
}

/// The place of row `r`, column `c` in a buffer of rows `cols` long.
spec fn cell(r: int, cols: int, c: int) -> int {
    r * cols + c
}

proof fn lemma_cell_in_bounds(r: int, rows: int, c: int, cols: int)
    requires
        0 <= r < rows,
        0 <= c < cols,
    ensures
        0 <= cell(r, cols, c) < rows * cols,
        cell(r, cols, c) < cell(r + 1, cols, 0),
        cell(r + 1, cols, 0) <= rows * cols,
        cell(r + 1, cols, 0) == cell(r, cols, 0) + cols,
{
    assert(r * cols + cols == (r + 1) * cols) by (nonlinear_arith);
    assert((r + 1) * cols <= rows * cols) by (nonlinear_arith)
        requires
            r + 1 <= rows,
            0 <= cols,
    ;
    assert(0 <= r * cols) by (nonlinear_arith)
        requires
            0 <= r,
            0 <= cols,
    ;
}

/// The number at place `k` of the buffer that `data`, in rows `cols` long,
/// makes with `value` put in front of each row.
spec fn widened(data: Seq<u64>, cols: int, value: u64, k: int) -> u64 {
    if k % (cols + 1) == 0 {
        value
    } else {
        data[cell(k / (cols + 1), cols, k % (cols + 1) - 1)]
    }
}

proof fn lemma_widened(data: Seq<u64>, cols: int, value: u64, r: int, c: int)
    requires
        0 <= cols,
        0 <= c <= cols,
    ensures
        widened(data, cols, value, cell(r, cols + 1, c)) == if c == 0 {
            value
        } else {
            data[cell(r, cols, c - 1)]
        },
{
    lemma_fundamental_div_mod_converse(cell(r, cols + 1, c), cols + 1, r, c);
}

impl Matrix {
    #[verifier::type_invariant]
    spec fn inv(&self) -> bool {
        &&& self.data@.len() == self.rows * self.cols
        &&& self.rows * self.cols <= usize::MAX
    }

    /// The rows of a matrix all have its width.
    pub proof fn lemma_view_wf(&self)
        ensures
            self@.wf(),
    {
    }

    /// The matrix of `rows` rows and `cols` columns that `data` fills row after
    /// row, if `data` holds `rows * cols` numbers.
    pub fn from_shape_vec(rows: usize, cols: usize, data: Vec<u64>) -> (out: Result<
        Matrix,
        ShapeMismatch,
    >)
        ensures
            rows * cols == data@.len() ==> out is Ok && out->Ok_0@ == Grid::from_cells(
                rows as nat,
                cols as nat,
                data@,
            ),
            rows * cols != data@.len() ==> out == Err::<Matrix, ShapeMismatch>(
                ShapeMismatch::Data { rows, cols, len: data.len() },
            ),
    {
        let fits = match rows.checked_mul(cols) {
            Some(n) => n == data.len(),
            None => false,
        };
        if fits {
            Ok(Matrix { rows, cols, data })
        } else {
            Err(ShapeMismatch::Data { rows, cols, len: data.len() })
        }
    }

    /// The number of rows.
    pub fn rows(&self) -> (n: usize)
        ensures
            n == self@.rows.len(),
    {
        self.rows
    }

    /// The number of columns.
    pub fn cols(&self) -> (n: usize)
        ensures
            n == self@.width,
    {
        self.cols
    }

    /// The number in row `r`, column `c`, if the matrix has such a place.
    pub fn get(&self, r: usize, c: usize) -> (out: Option<u64>)
        ensures
            r < self@.rows.len() && c < self@.width ==> out == Some(self@.rows[r as int][c as int]),
            !(r < self@.rows.len() && c < self@.width) ==> out.is_none(),
    {
        proof {
            use_type_invariant(self);
        }
        if r < self.rows && c < self.cols {
            proof {
                lemma_cell_in_bounds(r as int, self.rows as int, c as int, self.cols as int);
            }
            Some(self.data[r * self.cols + c])
        } else {
            None
        }
    }

    /// Whether one more column fits.
    pub fn has_room(&self) -> (b: bool)
        ensures
            b == self@.has_room(),
    {
        if self.cols == usize::MAX {
            return false;
        }
        match self.rows.checked_mul(self.cols + 1) {
            Some(_) => true,
            None => false,
        }
    }

    /// The matrix with one more column in front, `value` in each of its rows.
    pub fn prepend_column(&self, value: u64) -> (out: Matrix)
        requires
            self@.has_room(),
        ensures
            out@ == self@.prepend_column(value),
    {
        proof {
            use_type_invariant(self);
        }
        let width = self.cols + 1;
        let mut data: Vec<u64> = Vec::new();
        let mut r: usize = 0;
        while r < self.rows
            invariant
                r <= self.rows,
                width == self.cols + 1,
                self.rows * width <= usize::MAX,
                self.data@.len() == self.rows * self.cols <= usize::MAX,
                data@.len() == cell(r as int, width as int, 0),
                forall|k: int|
                    0 <= k < data@.len() ==> data@[k] == widened(
                        self.data@,
                        self.cols as int,
                        value,
                        k,
                    ),
            decreases self.rows - r,
        {
            proof {
                lemma_widened(self.data@, self.cols as int, value, r as int, 0);
            }
            data.push(value);
            let mut c: usize = 0;
            while c < self.cols
                invariant
                    r < self.rows,
                    c <= self.cols,
                    width == self.cols + 1,
                    self.rows * width <= usize::MAX,
                    self.data@.len() == self.rows * self.cols <= usize::MAX,
                    data@.len() == cell(r as int, width as int, c + 1),
                    forall|k: int|
                        0 <= k < data@.len() ==> data@[k] == widened(
                            self.data@,
                            self.cols as int,
                            value,
                            k,
                        ),
                decreases self.cols - c,
            {
                proof {
                    lemma_cell_in_bounds(r as int, self.rows as int, c as int, self.cols as int);
                    lemma_widened(self.data@, self.cols as int, value, r as int, c + 1);
                }
                data.push(self.data[r * self.cols + c]);
                c += 1;
            }
            proof {
                lemma_cell_in_bounds(r as int, self.rows as int, 0, width as int);
            }
            r += 1;
        }
        let out = Matrix { rows: self.rows, cols: width, data };
        proof {
            assert forall|i: int| 0 <= i < self.rows implies out@.rows[i]
                =~= self@.prepend_column(value).rows[i] by {
                assert forall|j: int| 0 <= j < width implies out@.rows[i][j]
                    == self@.prepend_column(value).rows[i][j] by {
                    lemma_cell_in_bounds(i, self.rows as int, j, width as int);
                    lemma_widened(self.data@, self.cols as int, value, i, j);
                }
            }
            assert(out@.rows =~= self@.prepend_column(value).rows);
        }
        out
    }
}

} // verus!
