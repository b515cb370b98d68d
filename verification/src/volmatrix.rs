//! A memory taken as a matrix.
//!
//! The cells of a memory are numbered from 0 on. A [`VolMatrix`] is a run of `WIDTH * HEIGHT`
//! of them, taken as `HEIGHT` rows of `WIDTH` cells each: it tells the number of the cell of a
//! column and a row.
use vstd::prelude::*;

verus! {

/// `HEIGHT` rows of `WIDTH` cells each, one row behind the other in a memory.
#[derive(Clone, Copy, Debug)]
pub struct VolMatrix<const WIDTH: usize, const HEIGHT: usize> {
    first: usize,
}

impl<const WIDTH: usize, const HEIGHT: usize> VolMatrix<WIDTH, HEIGHT> {
    /// The number of the first cell of the matrix.
    pub closed spec fn first(self) -> int {
        self.first as int
    }

    /// The number of every cell of the matrix fits a `usize`.
    pub open spec fn wf(self) -> bool {
        self.first() + WIDTH * HEIGHT <= usize::MAX
    }

    /// The number of the cell of column `x`, row `y`.
    pub open spec fn cell(self, x: int, y: int) -> int {
        self.first() + x + y * WIDTH
    }

    /// The matrix whose first cell is cell `address`. The numbers of its cells fit a `usize`.
    pub fn new(address: usize) -> (matrix: Self)
        requires
            address + WIDTH * HEIGHT <= usize::MAX,
        ensures
            matrix.wf(),
            matrix.first() == address,
    {
        VolMatrix { first: address }
    }

    /// The matrix over a block of `B` cells whose first cell is cell `block`. The block has
    /// room for the matrix.
    pub fn from_block<const B: usize>(block: usize) -> (matrix: Self)
        requires
            B >= WIDTH * HEIGHT,
            block + B <= usize::MAX,
        ensures
            matrix.wf(),
            matrix.first() == block,
    {
        VolMatrix { first: block }
    }

    /// The cells of a row lie within the matrix.
    proof fn lemma_row(self, y: int)
        requires
            0 <= y < HEIGHT,
        ensures
            0 <= y * WIDTH,
            y * WIDTH + WIDTH <= WIDTH * HEIGHT,
    {
        assert(0 <= y * WIDTH && y * WIDTH + WIDTH <= WIDTH * HEIGHT) by (nonlinear_arith)
            requires
                0 <= y < HEIGHT,
                0 <= WIDTH,
        ;
    }

    /// The number of the cell of column `x`, row `y`, or `None` if the matrix has no such cell.
    pub fn get(self, x: usize, y: usize) -> (cell: Option<usize>)
        requires
            self.wf(),
        ensures
            cell == if x < WIDTH && y < HEIGHT {
                Some(self.cell(x as int, y as int) as usize)
            } else {
                None
            },
            cell matches Some(at) ==> at == self.cell(x as int, y as int),
    {
        if x < WIDTH && y < HEIGHT {
            proof {
                self.lemma_row(y as int);
            }
            Some(self.get_unchecked(x, y))
        } else {
            None
        }
    }

    /// The number of the cell of column `x`, row `y`, which lies within the matrix.
    pub fn get_unchecked(self, x: usize, y: usize) -> (cell: usize)
        requires
            self.wf(),
            0 <= y * WIDTH,
            x + y * WIDTH < WIDTH * HEIGHT,
        ensures
            cell == self.cell(x as int, y as int),
    {
        self.first + (x + y * WIDTH)
    }

    /// The number of the first cell of row `y`, which the matrix has.
    pub fn row_unchecked(self, y: usize) -> (cell: usize)
        requires
            self.wf(),
            y < HEIGHT,
        ensures
            cell == self.cell(0, y as int),
            cell + WIDTH <= self.first() + WIDTH * HEIGHT,
    {
        proof {
            self.lemma_row(y as int);
        }
        self.first + y * WIDTH
    }

    /// The number of the first cell of row `y`, or `None` if the matrix has no such row.
    pub fn get_row(self, y: usize) -> (cell: Option<usize>)
        requires
            self.wf(),
        ensures
            cell == if y < HEIGHT {
                Some(self.cell(0, y as int) as usize)
            } else {
                None
            },
            cell matches Some(at) ==> at == self.cell(0, y as int),
    {
        if y < HEIGHT {
            Some(self.row_unchecked(y))
        } else {
            None
        }
    }

    /// The number of the first cell of column `x`, which the matrix has: the cells of a column
    /// lie `WIDTH` cells apart.
    pub fn column_unchecked(self, x: usize) -> (cell: usize)
        requires
            self.wf(),
            x < WIDTH,
            HEIGHT > 0,
        ensures
            cell == self.cell(x as int, 0),
    {
        proof {
            self.lemma_row(0);
        }
        self.first + x
    }

    /// The number of the first cell of column `x`, or `None` if the matrix has no such column.
    pub fn get_column(self, x: usize) -> (cell: Option<usize>)
        requires
            self.wf(),
        ensures
            cell == if x < WIDTH && HEIGHT > 0 {
                Some(self.cell(x as int, 0) as usize)
            } else {
                None
            },
            cell matches Some(at) ==> at == self.cell(x as int, 0),
    {
        if x < WIDTH && HEIGHT > 0 {
            Some(self.column_unchecked(x))
        } else {
            None
        }
    }
}

} // verus!
