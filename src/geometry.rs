//! Positions, extents and rectangular regions of the character grid.

use vstd::arithmetic::div_mod::lemma_fundamental_div_mod;
use vstd::arithmetic::div_mod::lemma_fundamental_div_mod_converse;
use vstd::prelude::*;

verus! {

/// The extent of a grid or region: (rows, columns).
#[derive(Clone, Copy, Debug, PartialEq, Eq, Structural)]
pub struct Size(pub u16, pub u16);

/// A zero-indexed grid position: (row, column).
#[derive(Clone, Copy, Debug, PartialEq, Eq, Structural)]
pub struct Cell(pub u16, pub u16);

/// Component-wise difference that stops at zero.
pub open spec fn saturating_diff(a: u16, b: u16) -> u16 {
    if a >= b {
        (a - b) as u16
    } else {
        0
    }
}

impl Size {
    pub fn from_cell(cell: Cell) -> (r: Size)
        ensures
            r.0 == cell.0,
            r.1 == cell.1,
    {
        Size(cell.0, cell.1)
    }
}

impl Cell {
    /// Both coordinates lie strictly below the matching extent.
    pub open spec fn is_within(self, size: Size) -> bool {
        self.0 < size.0 && self.1 < size.1
    }

    pub fn within(self, size: Size) -> (r: Option<Cell>)
        ensures
            r == (if self.is_within(size) {
                Some(self)
            } else {
                None::<Cell>
            }),
    {
        let Cell(cell_row, cell_col) = self;
        let Size(end_row, end_col) = size;
        if cell_row < end_row && cell_col < end_col {
            Some(self)
        } else {
            None
        }
    }

    pub fn from_size(size: Size) -> (r: Cell)
        ensures
            r.0 == size.0,
            r.1 == size.1,
    {
        Cell(size.0, size.1)
    }

    /// Component-wise translation.
    pub fn add(self, rhs: Cell) -> (r: Cell)
        requires
            self.0 + rhs.0 <= u16::MAX,
            self.1 + rhs.1 <= u16::MAX,
        ensures
            r.0 == self.0 + rhs.0,
            r.1 == self.1 + rhs.1,
    {
        Cell(self.0 + rhs.0, self.1 + rhs.1)
    }

    /// Component-wise difference, floored at zero on each axis.
    pub fn sub(self, rhs: Cell) -> (r: Cell)
        ensures
            r.0 == saturating_diff(self.0, rhs.0),
            r.1 == saturating_diff(self.1, rhs.1),
    {
        let row = if self.0 >= rhs.0 {
            self.0 - rhs.0
        } else {
            0
        };
        let col = if self.1 >= rhs.1 {
            self.1 - rhs.1
        } else {
            0
        };
        Cell(row, col)
    }
}

/// A rectangular region: an origin and an extent.
#[derive(Clone, Copy, Debug, PartialEq, Eq, Structural)]
pub struct Rect(pub Cell, pub Size);

impl Rect {
    pub open spec fn spec_contains(self, cell: Cell) -> bool {
        &&& self.0.0 <= cell.0 < self.0.0 + self.1.0
        &&& self.0.1 <= cell.1 < self.0.1 + self.1.1
    }

    /// The region's far corner is addressable on both axes.
    pub open spec fn fits(self) -> bool {
        &&& self.0.0 + self.1.0 <= u16::MAX
        &&& self.0.1 + self.1.1 <= u16::MAX
    }

    /// Number of cells in the region.
    pub open spec fn count(self) -> nat {
        (self.1.0 * self.1.1) as nat
    }

    /// The `k`-th cell of the region in row-major order.
    pub open spec fn cell_at(self, k: int) -> Cell {
        Cell((self.0.0 + k / (self.1.1 as int)) as u16, (self.0.1 + k % (self.1.1 as int)) as u16)
    }

    /// Every cell of the region, row by row, each row left to right.
    pub open spec fn cells(self) -> Seq<Cell> {
        Seq::new(self.count(), |k: int| self.cell_at(k))
    }

    pub fn contains(&self, cell: Cell) -> (r: bool)
        ensures
            r == self.spec_contains(cell),
    {
        let Rect(Cell(start_row, start_col), Size(rows, cols)) = *self;
        let Cell(row, col) = cell;
        row >= start_row && (row as u32) < start_row as u32 + rows as u32 && col >= start_col
            && (col as u32) < start_col as u32 + cols as u32
    }
}

/// Walks a region's cells in row-major order, once each.
pub struct CellIterator {
    next_cell: Option<Cell>,
    size: Size,
    width: u16,
    region: Ghost<Rect>,
    index: Ghost<nat>,
}

/// Stepping from the `k`-th to the `k+1`-th position of a row-major walk over
/// rows of `cols` cells.
proof fn lemma_step(k: int, cols: int, rows: int)
    requires
        0 <= k,
        0 < cols,
    ensures
        k % cols + 1 < cols ==> (k + 1) / cols == k / cols && (k + 1) % cols == k % cols + 1,
        k % cols + 1 >= cols ==> (k + 1) / cols == k / cols + 1 && (k + 1) % cols == 0,
        k < rows * cols <==> k / cols < rows,
        0 <= k / cols,
        0 <= k % cols < cols,
{
    lemma_fundamental_div_mod(k, cols);
    let q = k / cols;
    let r = k % cols;
    assert(0 <= r < cols);
    assert(q >= 0) by (nonlinear_arith)
        requires
            k == cols * q + r,
            0 <= k,
            r < cols,
            0 < cols,
    ;
    if r + 1 < cols {
        assert(k + 1 == q * cols + (r + 1)) by (nonlinear_arith)
            requires
                k == cols * q + r,
        ;
        lemma_fundamental_div_mod_converse(k + 1, cols, q, r + 1);
    } else {
        assert(k + 1 == (q + 1) * cols + 0) by (nonlinear_arith)
            requires
                k == cols * q + r,
                r + 1 == cols,
        ;
        lemma_fundamental_div_mod_converse(k + 1, cols, q + 1, 0);
    }
    if q < rows {
        assert(k < rows * cols) by (nonlinear_arith)
            requires
                k == cols * q + r,
                r < cols,
                q + 1 <= rows,
                0 < cols,
        ;
    } else {
        assert(k >= rows * cols) by (nonlinear_arith)
            requires
                k == cols * q + r,
                0 <= r,
                q >= rows,
                0 < cols,
        ;
    }
}

impl CellIterator {
    pub closed spec fn wf(&self) -> bool {
        let rect = self.region@;
        let k = self.index@;
        &&& rect.fits()
        &&& self.size == Size((rect.0.0 + rect.1.0) as u16, (rect.0.1 + rect.1.1) as u16)
        &&& self.width == rect.1.1
        &&& k <= rect.count()
        &&& self.next_cell == if k < rect.count() {
            Some(rect.cell_at(k as int))
        } else {
            None::<Cell>
        }
    }

    /// The cells that are still to come, in the order they will come.
    pub closed spec fn remaining(&self) -> Seq<Cell> {
        self.region@.cells().skip(self.index@ as int)
    }

    pub fn new(rect: Rect) -> (r: CellIterator)
        requires
            rect.fits(),
        ensures
            r.wf(),
            r.remaining() == rect.cells(),
    {
        let Rect(start, size) = rect;
        let Size(_, rel_end_col) = size;
        let abs_size = Size::from_cell(start.add(Cell::from_size(size)));
        let r = CellIterator {
            next_cell: start.within(abs_size),
            size: abs_size,
            width: rel_end_col,
            region: Ghost(rect),
            index: Ghost(0),
        };
        proof {
            if size.1 > 0 {
                lemma_step(0, size.1 as int, size.0 as int);
            } else {
                assert(rect.count() == 0) by (nonlinear_arith)
                    requires
                        rect.count() == size.0 * size.1,
                        size.1 == 0,
                ;
            }
            assert(r.remaining() =~= rect.cells());
        }
        r
    }

    /// Hands out the next cell of the region, or `None` once all were handed out.
    pub fn next(&mut self) -> (r: Option<Cell>)
        requires
            old(self).wf(),
        ensures
            final(self).wf(),
            old(self).remaining().len() > 0 ==> r == Some(old(self).remaining()[0])
                && final(self).remaining() == old(self).remaining().drop_first(),
            old(self).remaining().len() == 0 ==> r == None::<Cell> && final(self).remaining()
                == old(self).remaining(),
    {
        let ghost rect = self.region@;
        let ghost k = self.index@;
        let ret = self.next_cell;
        match self.next_cell {
            Some(cell) => {
                proof {
                    lemma_step(k as int, rect.1.1 as int, rect.1.0 as int);
                }
                let right = cell.add(Cell(0, 1)).within(self.size);
                self.next_cell = match right {
                    Some(c) => Some(c),
                    None => cell.sub(Cell(0, self.width - 1)).add(Cell(1, 0)).within(self.size),
                };
                self.index = Ghost(k + 1);
                proof {
                    let cols = rect.1.1 as int;
                    let rows = rect.1.0 as int;
                    let q = (k as int) / cols;
                    let rr = (k as int) % cols;
                    assert(cell.0 == rect.0.0 + q && cell.1 == rect.0.1 + rr);
                    assert(q < rows);
                    if rr + 1 < cols {
                        assert(right == Some(Cell(cell.0, (cell.1 + 1) as u16)));
                        assert(rect.cell_at((k + 1) as int) == Cell(cell.0, (cell.1 + 1) as u16));
                        assert((k + 1) < rect.count()) by {
                            lemma_step((k + 1) as int, cols, rows);
                        }
                    } else {
                        assert(right.is_none());
                        if q + 1 < rows {
                            assert(rect.cell_at((k + 1) as int) == Cell((cell.0 + 1) as u16, rect.0.1));
                            assert((k + 1) < rect.count()) by {
                                lemma_step((k + 1) as int, cols, rows);
                            }
                        } else {
                            assert((k + 1) >= rect.count()) by {
                                lemma_step((k + 1) as int, cols, rows);
                            }
                        }
                    }
                    assert(self.remaining() =~= old(self).remaining().drop_first());
                }
            },
            None => {},
        }
        ret
    }
}

} // verus!
