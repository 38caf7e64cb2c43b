//! The mathematical model of a board and the executable routines that work on
//! its row-major cell buffer.

use vstd::prelude::*;

verus! {

/// A rectangular board: `rows * cols` cells in row-major order, `true` for a
/// live cell.
pub struct Board {
    pub rows: nat,
    pub cols: nat,
    pub cells: Seq<bool>,
}

/// The state of a cell in the next generation, given its current state and the
/// number of its live neighbours: two neighbours keep the cell as it is, three
/// make it live, any other number leaves it dead.
pub open spec fn next_state(current: bool, neighbors: nat) -> bool {
    if neighbors == 2 {
        current
    } else {
        neighbors == 3
    }
}

impl Board {
    /// Both extents are at least one and the buffer holds exactly one entry
    /// per cell.
    pub open spec fn wf(self) -> bool {
        &&& self.rows >= 1
        &&& self.cols >= 1
        &&& self.cells.len() == self.rows * self.cols
    }

    /// Whether `(row, col)` names a cell of the board.
    pub open spec fn contains(self, row: int, col: int) -> bool {
        0 <= row < self.rows && 0 <= col < self.cols
    }

    /// The row of the cell with linear index `index`.
    pub open spec fn row_at(self, index: int) -> int {
        index / (self.cols as int)
    }

    /// The column of the cell with linear index `index`.
    pub open spec fn col_at(self, index: int) -> int {
        index % (self.cols as int)
    }

    /// Whether the cell at `(row, col)` is live. Positions off the board are
    /// dead.
    pub open spec fn alive(self, row: int, col: int) -> bool {
        self.contains(row, col) && self.cells[row * self.cols + col]
    }

    /// One if the cell at `(row, col)` is live, zero otherwise.
    pub open spec fn population(self, row: int, col: int) -> nat {
        if self.alive(row, col) {
            1
        } else {
            0
        }
    }

    /// The number of live cells among the eight positions that surround
    /// `(row, col)`. Positions off the board count as dead, so the count never
    /// wraps around an edge.
    pub open spec fn live_neighbors(self, row: int, col: int) -> nat {
        self.population(row - 1, col - 1) + self.population(row - 1, col) + self.population(
            row - 1,
            col + 1,
        ) + self.population(row, col - 1) + self.population(row, col + 1) + self.population(
            row + 1,
            col - 1,
        ) + self.population(row + 1, col) + self.population(row + 1, col + 1)
    }

    /// No cell of the board is live.
    pub open spec fn all_dead(self) -> bool {
        forall|i: int| 0 <= i < self.cells.len() ==> !#[trigger] self.cells[i]
    }

    /// The next generation. Every cell is computed from the current
    /// generation alone.
    pub open spec fn step(self) -> Board {
        Board {
            rows: self.rows,
            cols: self.cols,
            cells: Seq::new(
                self.cells.len(),
                |i: int|
                    next_state(self.cells[i], self.live_neighbors(self.row_at(i), self.col_at(i))),
            ),
        }
    }

    /// The board with new extents. A cell keeps its state where its position
    /// lies on both boards; positions that are new are dead. Extents below
    /// one are refused and leave the board as it is.
    pub open spec fn resized(self, rows: nat, cols: nat) -> Board {
        if rows < 1 || cols < 1 {
            self
        } else {
            Board {
                rows,
                cols,
                cells: Seq::new(rows * cols, |i: int| self.alive(i / (cols as int), i % (cols as int))),
            }
        }
    }

    /// The board with every cell dead.
    pub open spec fn cleared(self) -> Board {
        Board { rows: self.rows, cols: self.cols, cells: Seq::new(self.cells.len(), |i: int| false) }
    }

    /// The board with the cell in column `x` of row `y` set to `state`.
    /// A position off the board changes nothing.
    pub open spec fn with_cell(self, x: int, y: int, state: bool) -> Board {
        if self.contains(y, x) {
            Board {
                rows: self.rows,
                cols: self.cols,
                cells: self.cells.update(y * self.cols + x, state),
            }
        } else {
            self
        }
    }

    /// The board with the cell in column `x` of row `y` inverted. A position
    /// off the board changes nothing.
    pub open spec fn toggled(self, x: int, y: int) -> Board {
        self.with_cell(x, y, !self.alive(y, x))
    }

    /// The board of the given extents with every cell dead.
    pub open spec fn blank(rows: nat, cols: nat) -> Board {
        Board { rows, cols, cells: Seq::new(rows * cols, |i: int| false) }
    }

    /// The board with a glider set into its top left corner: the live cells
    /// `(0,1)`, `(1,2)`, `(2,0)`, `(2,1)` and `(2,2)`, column first. Cells of
    /// the glider that lie off the board are left out.
    pub open spec fn with_glider(self) -> Board {
        self.with_cell(0, 1, true).with_cell(1, 2, true).with_cell(2, 0, true).with_cell(
            2,
            1,
            true,
        ).with_cell(2, 2, true)
    }

    /// The part of the neighbour count that lies in row `r`: the three
    /// positions around column `col`, without the cell `(row, col)` itself.
    spec fn row_share(self, row: int, col: int, r: int) -> nat {
        self.cols_before(row, col, r, col + 2)
    }

    /// The part of `row_share` that lies in columns below `k`.
    spec fn cols_before(self, row: int, col: int, r: int, k: int) -> nat {
        (if col - 1 < k {
            self.population(r, col - 1)
        } else {
            0
        }) + (if col < k && r != row {
            self.population(r, col)
        } else {
            0
        }) + (if col + 1 < k {
            self.population(r, col + 1)
        } else {
            0
        })
    }

    /// The part of the neighbour count that lies in rows below `k`.
    spec fn rows_before(self, row: int, col: int, k: int) -> nat {
        (if row - 1 < k {
            self.row_share(row, col, row - 1)
        } else {
            0
        }) + (if row < k {
            self.row_share(row, col, row)
        } else {
            0
        }) + (if row + 1 < k {
            self.row_share(row, col, row + 1)
        } else {
            0
        })
    }
}

/// The board that a buffer of `rows * cols` cells stands for.
pub open spec fn board_of(rows: usize, cols: usize, cells: Seq<bool>) -> Board {
    Board { rows: rows as nat, cols: cols as nat, cells }
}

/// Counts the live cells among the up to eight neighbours of `(row, col)`.
pub fn count_neighbors(cells: &Vec<bool>, rows: usize, cols: usize, row: usize, col: usize) -> (count:
    u8)
    requires
        board_of(rows, cols, cells@).wf(),
        row < rows,
        col < cols,
    ensures
        count == board_of(rows, cols, cells@).live_neighbors(row as int, col as int),
{
    let ghost b = board_of(rows, cols, cells@);
    let row_lo: usize = if row > 0 {
        row - 1
    } else {
        0
    };
    let row_hi: usize = if row + 1 < rows {
        row + 1
    } else {
        rows - 1
    };
    let col_lo: usize = if col > 0 {
        col - 1
    } else {
        0
    };
    let col_hi: usize = if col + 1 < cols {
        col + 1
    } else {
        cols - 1
    };
    let mut count: u8 = 0;
    let mut n_row: usize = row_lo;
    assert(rows * cols == cells.len());
    while n_row <= row_hi
        invariant
            b == board_of(rows, cols, cells@),
            b.wf(),
            rows * cols <= usize::MAX,
            row < rows,
            col < cols,
            row_lo == if row > 0 { row - 1 } else { 0 },
            row_hi == if row + 1 < rows { row + 1 } else { rows - 1 },
            col_lo == if col > 0 { col - 1 } else { 0 },
            col_hi == if col + 1 < cols { col + 1 } else { cols - 1 },
            row_lo <= n_row <= row_hi + 1,
            count == b.rows_before(row as int, col as int, n_row as int),
        decreases row_hi + 1 - n_row,
    {
        let mut n_col: usize = col_lo;
        while n_col <= col_hi
            invariant
                b == board_of(rows, cols, cells@),
                b.wf(),
                rows * cols <= usize::MAX,
                row < rows,
                col < cols,
                col_lo == if col > 0 { col - 1 } else { 0 },
                col_hi == if col + 1 < cols { col + 1 } else { cols - 1 },
                n_row < rows,
                row - 1 <= n_row <= row + 1,
                col_lo <= n_col <= col_hi + 1,
                count == b.rows_before(row as int, col as int, n_row as int) + b.cols_before(
                    row as int,
                    col as int,
                    n_row as int,
                    n_col as int,
                ),
            decreases col_hi + 1 - n_col,
        {
            proof {
                lemma_cell_index(rows as int, cols as int, n_row as int, n_col as int);
            }
            if !(n_col == col && n_row == row) && cells[n_row * cols + n_col] {
                count = count + 1;
            }
            n_col = n_col + 1;
        }
        n_row = n_row + 1;
    }
    count
}

/// Computes the next generation of `cells` into `next`, reading `cells`
/// alone.
pub fn advance(cells: &Vec<bool>, next: &mut Vec<bool>, rows: usize, cols: usize)
    requires
        board_of(rows, cols, cells@).wf(),
        old(next)@.len() == cells@.len(),
    ensures
        final(next)@ == board_of(rows, cols, cells@).step().cells,
{
    let ghost b = board_of(rows, cols, cells@);
    let ghost goal = b.step().cells;
    assert(rows * cols == cells.len());
    let mut row: usize = 0;
    let mut base: usize = 0;
    while row < rows
        invariant
            b == board_of(rows, cols, cells@),
            goal == b.step().cells,
            b.wf(),
            rows * cols <= usize::MAX,
            next@.len() == cells@.len(),
            row <= rows,
            base == row * cols,
            forall|i: int| 0 <= i < base ==> next@[i] == goal[i],
        decreases rows - row,
    {
        let mut col: usize = 0;
        while col < cols
            invariant
                b == board_of(rows, cols, cells@),
                goal == b.step().cells,
                b.wf(),
                rows * cols <= usize::MAX,
                next@.len() == cells@.len(),
                row < rows,
                col <= cols,
                base == row * cols,
                forall|i: int| 0 <= i < base + col ==> next@[i] == goal[i],
            decreases cols - col,
        {
            proof {
                lemma_cell_index(rows as int, cols as int, row as int, col as int);
            }
            let index: usize = base + col;
            let neighbors: u8 = count_neighbors(cells, rows, cols, row, col);
            let state: bool = if neighbors == 2 {
                cells[index]
            } else {
                neighbors == 3
            };
            next[index] = state;
            col = col + 1;
        }
        proof {
            assert((row + 1) * cols == row * cols + cols) by (nonlinear_arith);
            assert((row + 1) * cols <= rows * cols) by (nonlinear_arith)
                requires
                    row < rows,
            ;
        }
        base = base + cols;
        row = row + 1;
    }
}

/// Builds the buffer of a board with `rows * cols` cells from the buffer of a
/// board with `old_rows * old_cols` cells, keeping each cell at its position.
pub fn remap(cells: &Vec<bool>, old_rows: usize, old_cols: usize, rows: usize, cols: usize) -> (out:
    Vec<bool>)
    requires
        board_of(old_rows, old_cols, cells@).wf(),
        rows >= 1,
        cols >= 1,
        rows * cols <= usize::MAX,
    ensures
        board_of(rows, cols, out@) == board_of(old_rows, old_cols, cells@).resized(
            rows as nat,
            cols as nat,
        ),
{
    let ghost b = board_of(old_rows, old_cols, cells@);
    let ghost goal = b.resized(rows as nat, cols as nat).cells;
    assert(old_rows * old_cols == cells.len());
    let mut out: Vec<bool> = Vec::new();
    let mut row: usize = 0;
    while row < rows
        invariant
            b == board_of(old_rows, old_cols, cells@),
            goal == b.resized(rows as nat, cols as nat).cells,
            b.wf(),
            rows >= 1,
            cols >= 1,
            rows * cols <= usize::MAX,
            old_rows * old_cols <= usize::MAX,
            row <= rows,
            out@.len() == row * cols,
            forall|i: int| 0 <= i < out@.len() ==> out@[i] == goal[i],
        decreases rows - row,
    {
        let mut col: usize = 0;
        while col < cols
            invariant
                b == board_of(old_rows, old_cols, cells@),
                goal == b.resized(rows as nat, cols as nat).cells,
                b.wf(),
                rows >= 1,
                cols >= 1,
                rows * cols <= usize::MAX,
                old_rows * old_cols <= usize::MAX,
                row < rows,
                col <= cols,
                out@.len() == row * cols + col,
                forall|i: int| 0 <= i < out@.len() ==> out@[i] == goal[i],
            decreases cols - col,
        {
            proof {
                lemma_cell_index(rows as int, cols as int, row as int, col as int);
            }
            if col >= old_cols || row >= old_rows {
                out.push(false);
            } else {
                proof {
                    lemma_cell_index(old_rows as int, old_cols as int, row as int, col as int);
                }
                out.push(cells[row * old_cols + col]);
            }
            col = col + 1;
        }
        proof {
            assert((row + 1) * cols == row * cols + cols) by (nonlinear_arith);
        }
        row = row + 1;
    }
    assert(out@ =~= goal);
    out
}

/// Sets the cell in column `x` of row `y` to `state`. A position off the
/// board is ignored.
pub fn set_cell(cells: &mut Vec<bool>, rows: usize, cols: usize, x: usize, y: usize, state: bool)
    requires
        board_of(rows, cols, old(cells)@).wf(),
    ensures
        board_of(rows, cols, final(cells)@) == board_of(rows, cols, old(cells)@).with_cell(
            x as int,
            y as int,
            state,
        ),
        final(cells)@.len() == old(cells)@.len(),
{
    if x < cols && y < rows {
        proof {
            lemma_cell_index(rows as int, cols as int, y as int, x as int);
            assert(rows * cols == cells.len());
        }
        cells[y * cols + x] = state;
    }
}

/// Inverts the cell in column `x` of row `y`. A position off the board is
/// ignored.
pub fn flip_cell(cells: &mut Vec<bool>, rows: usize, cols: usize, x: usize, y: usize)
    requires
        board_of(rows, cols, old(cells)@).wf(),
    ensures
        board_of(rows, cols, final(cells)@) == board_of(rows, cols, old(cells)@).toggled(
            x as int,
            y as int,
        ),
        final(cells)@.len() == old(cells)@.len(),
{
    if x < cols && y < rows {
        proof {
            lemma_cell_index(rows as int, cols as int, y as int, x as int);
            assert(rows * cols == cells.len());
        }
        let state: bool = cells[y * cols + x];
        cells[y * cols + x] = !state;
    }
}

/// A buffer of `rows * cols` dead cells.
pub fn blank_cells(rows: usize, cols: usize) -> (cells: Vec<bool>)
    requires
        rows * cols <= usize::MAX,
    ensures
        board_of(rows, cols, cells@) == Board::blank(rows as nat, cols as nat),
{
    let mut cells: Vec<bool> = Vec::new();
    cells.resize(rows * cols, false);
    assert(cells@ =~= Board::blank(rows as nat, cols as nat).cells);
    cells
}

/// A copy of a buffer.
pub fn copy_cells(cells: &Vec<bool>) -> (copy: Vec<bool>)
    ensures
        copy@ == cells@,
{
    let copy: Vec<bool> = cells.clone();
    copy
}

/// Makes every cell of the buffer dead.
pub fn clear(cells: &mut Vec<bool>)
    ensures
        final(cells)@ == Seq::new(old(cells)@.len(), |i: int| false),
{
    let mut index: usize = 0;
    while index < cells.len()
        invariant
            cells@.len() == old(cells)@.len(),
            index <= cells@.len(),
            forall|i: int| 0 <= i < index ==> !cells@[i],
        decreases cells@.len() - index,
    {
        cells[index] = false;
        index = index + 1;
    }
}

/// A cell inside the board has a linear index inside the buffer, and the index
/// determines the cell.
pub proof fn lemma_cell_index(rows: int, cols: int, row: int, col: int)
    requires
        0 <= row < rows,
        0 <= col < cols,
    ensures
        0 <= row * cols + col < rows * cols,
        (row * cols + col) / cols == row,
        (row * cols + col) % cols == col,
{
    assert(0 <= row * cols && (row + 1) * cols <= rows * cols) by (nonlinear_arith)
        requires
            0 <= row < rows,
            0 < cols,
    ;
    assert((row + 1) * cols == row * cols + cols) by (nonlinear_arith);
    vstd::arithmetic::div_mod::lemma_fundamental_div_mod_converse(row * cols + col, cols, row, col);
}

/// Every linear index inside the buffer belongs to exactly one cell inside the
/// board.
pub proof fn lemma_index_cell(rows: int, cols: int, index: int)
    requires
        0 < cols,
        0 <= index < rows * cols,
    ensures
        0 <= index / cols < rows,
        0 <= index % cols < cols,
        (index / cols) * cols + index % cols == index,
{
    vstd::arithmetic::div_mod::lemma_fundamental_div_mod(index, cols);
    vstd::arithmetic::div_mod::lemma_mod_bound(index, cols);
    let row = index / cols;
    assert(cols * row == row * cols) by (nonlinear_arith);
    assert(row >= 0 && row < rows) by (nonlinear_arith)
        requires
            0 < cols,
            0 <= index < rows * cols,
            row * cols + index % cols == index,
            0 <= index % cols < cols,
    ;
}

} // verus!
