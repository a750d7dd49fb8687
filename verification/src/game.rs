//! The [`Game`] grid container and its generation-advance algorithm.

use crate::cell::{spec_toggled, spec_weight, Cell};
use vstd::prelude::*;
use vstd::slice::{slice_subrange, slice_to_vec};

verus! {

/// An instance of Conway's Game of Life on a fixed-size toroidal grid.
///
/// The grid is stored as one flat, row-major buffer of exactly
/// `width * height` cells (index = `row * width + col`), together with a
/// same-shape scratch buffer that [`Game::tick`] computes the next
/// generation into before publishing it. The dimensions are fixed at
/// construction; both are positive.
#[derive(Clone, Debug, PartialEq, Eq)]
pub struct Game {
    cells: Vec<Cell>,
    next: Vec<Cell>,
    width: usize,
    height: usize,
}

impl View for Game {
    type V = Seq<Cell>;

    /// The abstract state of a game: the sequence of its cells in row-major
    /// order. The scratch buffer is not part of the abstract state.
    closed spec fn view(&self) -> Seq<Cell> {
        self.cells@
    }
}

impl Game {
    /// The grid width, as fixed at construction.
    pub closed spec fn spec_width(&self) -> nat {
        self.width as nat
    }

    /// The grid height, as fixed at construction.
    pub closed spec fn spec_height(&self) -> nat {
        self.height as nat
    }

    /// The number of cells in the grid.
    pub open spec fn spec_area(&self) -> nat {
        self.spec_width() * self.spec_height()
    }

    /// The scratch buffer has the same shape as the primary buffer.
    pub closed spec fn scratch_wf(&self) -> bool {
        self.next@.len() == self.width * self.height
    }

    /// Well-formedness: both dimensions are positive and both buffers hold
    /// exactly `width * height` cells. Constructors establish this and every
    /// method preserves it.
    pub open spec fn wf(&self) -> bool {
        &&& 0 < self.spec_width()
        &&& 0 < self.spec_height()
        &&& self@.len() == self.spec_area()
        &&& self.scratch_wf()
    }

    /// The cell at `(row, col)` under the row-major layout.
    pub open spec fn cell_at(&self, row: int, col: int) -> Cell {
        self@[row * self.spec_width() + col]
    }

    /// Whether `(row, col)` lies on the grid.
    pub open spec fn in_bounds(&self, row: int, col: int) -> bool {
        0 <= row < self.spec_height() && 0 <= col < self.spec_width()
    }

    /// The cells of row `row`, in column order.
    pub open spec fn spec_row(&self, row: int) -> Seq<Cell> {
        Seq::new(self.spec_width(), |col: int| self.cell_at(row, col))
    }

    /// The cells of column `col`, in row order.
    pub open spec fn spec_col(&self, col: int) -> Seq<Cell> {
        Seq::new(self.spec_height(), |row: int| self.cell_at(row, col))
    }

    /// Every cell of the grid is `Dead`.
    pub open spec fn spec_all_dead(&self) -> bool {
        forall|i: int| 0 <= i < self@.len() ==> self@[i] == Cell::Dead
    }

    /// Every cell of the grid is `Alive`.
    pub open spec fn spec_all_alive(&self) -> bool {
        forall|i: int| 0 <= i < self@.len() ==> self@[i] == Cell::Alive
    }

    /// Creates a game with every cell `Dead`.
    ///
    /// Both dimensions must be positive and their product must be
    /// representable as a buffer size.
    pub fn new(width: usize, height: usize) -> (g: Game)
        requires
            0 < width,
            0 < height,
            width * height <= usize::MAX,
        ensures
            g.wf(),
            g.spec_width() == width,
            g.spec_height() == height,
            g@.len() == width * height,
            g.spec_all_dead(),
    {
        let area: usize = width * height;
        let cells: Vec<Cell> = vec![Cell::Dead; area];
        let next: Vec<Cell> = vec![Cell::Dead; area];
        Game { cells, next, width, height }
    }

    /// Gets this game's width.
    pub fn width(&self) -> (w: usize)
        ensures
            w == self.spec_width(),
    {
        self.width
    }

    /// Gets this game's height.
    pub fn height(&self) -> (h: usize)
        ensures
            h == self.spec_height(),
    {
        self.height
    }

    /// Gets this game's area: the number of cells in the grid.
    pub fn area(&self) -> (a: usize)
        requires
            self.wf(),
        ensures
            a == self.spec_area(),
    {
        self.cells.len()
    }

    /// Computes the flat, row-major buffer index of in-bounds coordinates.
    fn flat_index(&self, row: usize, col: usize) -> (i: usize)
        requires
            self.wf(),
            self.in_bounds(row as int, col as int),
        ensures
            i == row * self.spec_width() + col,
            i < self@.len(),
    {
        // Binding the length pins `self@.len() <= usize::MAX`, which the
        // overflow check of the index arithmetic below needs.
        let _len: usize = self.cells.len();
        proof {
            lemma_row_major_index_bounds(
                row as int,
                col as int,
                self.spec_width() as int,
                self.spec_height() as int,
            );
        }
        row * self.width + col
    }

    /// Gets the cell at `(row, col)`, or `None` exactly when the coordinates
    /// are out of bounds.
    pub fn get(&self, row: usize, col: usize) -> (r: Option<Cell>)
        requires
            self.wf(),
        ensures
            self.in_bounds(row as int, col as int) ==> r == Some(
                self.cell_at(row as int, col as int),
            ),
            !self.in_bounds(row as int, col as int) ==> r is None,
    {
        if row < self.height && col < self.width {
            let i: usize = self.flat_index(row, col);
            Some(self.cells[i])
        } else {
            None
        }
    }

    /// Mutably gets the cell at `(row, col)`, or `None` exactly when the
    /// coordinates are out of bounds; on `None` the game is unchanged.
    pub fn get_mut(&mut self, row: usize, col: usize) -> (r: Option<&mut Cell>)
        requires
            old(self).wf(),
        ensures
            final(self).wf(),
            final(self).spec_width() == old(self).spec_width(),
            final(self).spec_height() == old(self).spec_height(),
            old(self).in_bounds(row as int, col as int) ==> r is Some && *r.unwrap() == old(
                self,
            ).cell_at(row as int, col as int) && final(self)@ == old(self)@.update(
                row * old(self).spec_width() + col,
                *final(r.unwrap()),
            ),
            !old(self).in_bounds(row as int, col as int) ==> r is None && final(self)@ == old(
                self,
            )@,
    {
        if row < self.height && col < self.width {
            let i: usize = self.flat_index(row, col);
            Some(&mut self.cells[i])
        } else {
            None
        }
    }

    /// Advances the game by exactly one generation.
    ///
    /// The rule is evaluated for every cell against the entire prior
    /// generation: the new generation is first computed into the scratch
    /// buffer and then published in one step by swapping the buffers, so no
    /// intermediate mix of old and new cells is ever observable.
    ///
    /// The internal consistency the computation depends on — both buffers
    /// holding exactly `width * height` cells — is the verified invariant
    /// [`Game::wf`], so no defensive runtime re-check is needed, and every
    /// neighbor access is proved in bounds under the toroidal wraparound.
    #[verifier::rlimit(100)]
    pub fn tick(&mut self)
        requires
            old(self).wf(),
        ensures
            final(self).wf(),
            final(self).spec_width() == old(self).spec_width(),
            final(self).spec_height() == old(self).spec_height(),
            forall|r: int, c: int|
                old(self).in_bounds(r, c) ==> final(self).cell_at(r, c) == next_cell(
                    *old(self),
                    r,
                    c,
                ),
    {
        let ghost g0: Game = *self;
        let w: usize = self.width;
        let h: usize = self.height;
        let area: usize = self.cells.len();
        let row_max: usize = h - 1;
        let col_max: usize = w - 1;

        let mut row: usize = 0;
        while row < h
            invariant
                g0.wf(),
                w == g0.spec_width(),
                h == g0.spec_height(),
                area == g0.spec_area(),
                row_max == h - 1,
                col_max == w - 1,
                self.width == g0.width,
                self.height == g0.height,
                self.cells@ == g0.cells@,
                self.next@.len() == area,
                row <= h,
                forall|r: int, c: int|
                    0 <= r < row && 0 <= c < w ==> self.next@[r * w + c] == next_cell(g0, r, c),
            decreases h - row,
        {
            let up: usize = if row == 0 {
                row_max
            } else {
                row - 1
            };
            let down: usize = if row == row_max {
                0
            } else {
                row + 1
            };
            proof {
                lemma_row_major_index_bounds(up as int, 0, w as int, h as int);
                lemma_row_major_index_bounds(row as int, 0, w as int, h as int);
                lemma_row_major_index_bounds(down as int, 0, w as int, h as int);
            }
            let up_base: usize = up * w;
            let row_base: usize = row * w;
            let down_base: usize = down * w;

            let mut col: usize = 0;
            while col < w
                invariant
                    g0.wf(),
                    w == g0.spec_width(),
                    h == g0.spec_height(),
                    area == g0.spec_area(),
                    row_max == h - 1,
                    col_max == w - 1,
                    self.width == g0.width,
                    self.height == g0.height,
                    self.cells@ == g0.cells@,
                    self.next@.len() == area,
                    row < h,
                    col <= w,
                    up as int == wrap_dec(row as int, h as int),
                    down as int == wrap_inc(row as int, h as int),
                    up_base == up * w,
                    row_base == row * w,
                    down_base == down * w,
                    forall|r: int, c: int|
                        0 <= r < row && 0 <= c < w ==> self.next@[r * w + c] == next_cell(
                            g0,
                            r,
                            c,
                        ),
                    forall|c: int|
                        0 <= c < col ==> self.next@[row as int * w + c] == next_cell(
                            g0,
                            row as int,
                            c,
                        ),
                decreases w - col,
            {
                let left: usize = if col == 0 {
                    col_max
                } else {
                    col - 1
                };
                let right: usize = if col == col_max {
                    0
                } else {
                    col + 1
                };
                proof {
                    lemma_row_major_index_bounds(up as int, left as int, w as int, h as int);
                    lemma_row_major_index_bounds(up as int, col as int, w as int, h as int);
                    lemma_row_major_index_bounds(up as int, right as int, w as int, h as int);
                    lemma_row_major_index_bounds(row as int, left as int, w as int, h as int);
                    lemma_row_major_index_bounds(row as int, col as int, w as int, h as int);
                    lemma_row_major_index_bounds(row as int, right as int, w as int, h as int);
                    lemma_row_major_index_bounds(down as int, left as int, w as int, h as int);
                    lemma_row_major_index_bounds(down as int, col as int, w as int, h as int);
                    lemma_row_major_index_bounds(down as int, right as int, w as int, h as int);
                }
                let mut n: u8 = 0;
                n = n + self.cells[up_base + left].to_u8();
                n = n + self.cells[up_base + col].to_u8();
                n = n + self.cells[up_base + right].to_u8();
                n = n + self.cells[row_base + left].to_u8();
                n = n + self.cells[row_base + right].to_u8();
                n = n + self.cells[down_base + left].to_u8();
                n = n + self.cells[down_base + col].to_u8();
                n = n + self.cells[down_base + right].to_u8();
                proof {
                    assert(n as int == live_neighbors(g0, row as int, col as int));
                }

                let cur: usize = row_base + col;
                let v: Cell = if n == 3 {
                    Cell::Alive
                } else if n == 2 {
                    self.cells[cur]
                } else {
                    Cell::Dead
                };
                proof {
                    assert(v == next_cell(g0, row as int, col as int));
                }
                let ghost prior: Seq<Cell> = self.next@;
                self.next[cur] = v;
                proof {
                    assert forall|r: int, c: int|
                        ((0 <= r < row && 0 <= c < w) || (r == row && 0 <= c
                            < col)) implies self.next@[r * w + c] == next_cell(g0, r, c) by {
                        if r * w + c == cur as int {
                            lemma_row_major_injective(r, c, row as int, col as int, w as int);
                        } else {
                            lemma_row_major_index_bounds(r, c, w as int, h as int);
                            assert(self.next@[r * w + c] == prior[r * w + c]);
                        }
                    }
                }
                col = col + 1;
            }
            row = row + 1;
        }

        core::mem::swap(&mut self.cells, &mut self.next);
        proof {
            assert forall|r: int, c: int| g0.in_bounds(r, c) implies self.cell_at(r, c)
                == next_cell(g0, r, c) by {
                lemma_row_major_index_bounds(r, c, w as int, h as int);
            }
        }
    }

    /// Directly gets the cell at `(row, col)`; the coordinates must be in
    /// bounds.
    pub fn index(&self, row: usize, col: usize) -> (c: Cell)
        requires
            self.wf(),
            self.in_bounds(row as int, col as int),
        ensures
            c == self.cell_at(row as int, col as int),
    {
        let i: usize = self.flat_index(row, col);
        self.cells[i]
    }

    /// Directly and mutably gets the cell at `(row, col)`; the coordinates
    /// must be in bounds.
    pub fn index_mut(&mut self, row: usize, col: usize) -> (r: &mut Cell)
        requires
            old(self).wf(),
            old(self).in_bounds(row as int, col as int),
        ensures
            final(self).wf(),
            final(self).spec_width() == old(self).spec_width(),
            final(self).spec_height() == old(self).spec_height(),
            *r == old(self).cell_at(row as int, col as int),
            final(self)@ == old(self)@.update(
                row * old(self).spec_width() + col,
                *final(r),
            ),
    {
        let i: usize = self.flat_index(row, col);
        &mut self.cells[i]
    }

    /// Gets a slice of row `row`, which must be in bounds: exactly `width`
    /// cells, in column order. Due to the row-major layout this has no
    /// contiguous equivalent for columns.
    pub fn get_row(&self, row: usize) -> (r: &[Cell])
        requires
            self.wf(),
            row < self.spec_height(),
        ensures
            r@ == self.spec_row(row as int),
    {
        // Binding the length pins `self@.len() <= usize::MAX` for the range
        // arithmetic below.
        let _len: usize = self.cells.len();
        let begin: usize = self.flat_index(row, 0);
        proof {
            lemma_row_major_index_bounds(
                row as int,
                self.spec_width() as int - 1,
                self.spec_width() as int,
                self.spec_height() as int,
            );
        }
        let end: usize = begin + self.width;
        let s: &[Cell] = slice_subrange(self.cells.as_slice(), begin, end);
        proof {
            assert(s@ =~= self.spec_row(row as int));
        }
        s
    }

    /// Gets a forward sequence over the cells of row `row`, which must be in
    /// bounds: exactly `width` cells, in column order.
    pub fn row(&self, row: usize) -> (r: Cells)
        requires
            self.wf(),
            row < self.spec_height(),
        ensures
            r.wf(),
            r.position() == 0,
            r.all_cells() == self.spec_row(row as int),
    {
        let items: Vec<Cell> = slice_to_vec(self.get_row(row));
        Cells { items, pos: 0 }
    }

    /// Gets a forward sequence over the cells of column `col`, which must be
    /// in bounds: exactly `height` cells, in row order, gathered by striding
    /// through the flat buffer.
    pub fn col(&self, col: usize) -> (r: Cells)
        requires
            self.wf(),
            col < self.spec_width(),
        ensures
            r.wf(),
            r.position() == 0,
            r.all_cells() == self.spec_col(col as int),
    {
        let mut items: Vec<Cell> = Vec::new();
        let h: usize = self.height;
        let mut row: usize = 0;
        while row < h
            invariant
                self.wf(),
                col < self.spec_width(),
                h == self.spec_height(),
                row <= h,
                items@.len() == row,
                forall|k: int| 0 <= k < row ==> items@[k] == self.cell_at(k, col as int),
            decreases h - row,
        {
            let i: usize = self.flat_index(row, col);
            items.push(self.cells[i]);
            row = row + 1;
        }
        proof {
            assert(items@ =~= self.spec_col(col as int));
        }
        Cells { items, pos: 0 }
    }

    /// Gets a mutable slice of row `row`, which must be in bounds: exactly
    /// `width` cells, in column order. Writes through the slice land in the
    /// corresponding cells of the grid; the rest of the grid is untouched.
    pub fn get_row_mut(&mut self, row: usize) -> (r: &mut [Cell])
        requires
            old(self).wf(),
            row < old(self).spec_height(),
        ensures
            r@ == old(self).spec_row(row as int),
            final(self)@ == old(self)@.subrange(0, row as int * old(self).spec_width())
                + final(r)@ + old(self)@.subrange(
                row as int * old(self).spec_width() + old(self).spec_width(),
                old(self)@.len() as int,
            ),
            final(self).spec_width() == old(self).spec_width(),
            final(self).spec_height() == old(self).spec_height(),
            final(r)@.len() == old(self).spec_width() ==> final(self).wf(),
    {
        // Binding the length pins `self@.len() <= usize::MAX` for the split
        // positions below.
        let _len: usize = self.cells.len();
        let w: usize = self.width;
        proof {
            lemma_row_major_index_bounds(
                row as int,
                0,
                self.spec_width() as int,
                self.spec_height() as int,
            );
            lemma_row_major_index_bounds(
                row as int,
                self.spec_width() as int - 1,
                self.spec_width() as int,
                self.spec_height() as int,
            );
        }
        let begin: usize = row * w;
        let s: &mut [Cell] = self.cells.as_mut_slice();
        let (_front, tail) = s.split_at_mut(begin);
        let (mid, _back) = tail.split_at_mut(w);
        proof {
            assert(mid@ =~= old(self).spec_row(row as int));
        }
        mid
    }

    /// Sets every cell of row `row`, which must be in bounds, to `value`;
    /// all other rows are untouched.
    pub fn row_mut(&mut self, row: usize, value: Cell)
        requires
            old(self).wf(),
            row < old(self).spec_height(),
        ensures
            final(self).wf(),
            final(self).spec_width() == old(self).spec_width(),
            final(self).spec_height() == old(self).spec_height(),
            forall|c: int|
                0 <= c < old(self).spec_width() ==> final(self).cell_at(row as int, c) == value,
            forall|r: int, c: int|
                old(self).in_bounds(r, c) && r != row ==> final(self).cell_at(r, c) == old(
                    self,
                ).cell_at(r, c),
    {
        let ghost g0: Game = *old(self);
        let w: usize = self.width;
        let mut col: usize = 0;
        while col < w
            invariant
                g0.wf(),
                self.wf(),
                w == g0.spec_width(),
                row < g0.spec_height(),
                self.width == g0.width,
                self.height == g0.height,
                self.next@ == g0.next@,
                self.cells@.len() == g0.cells@.len(),
                col <= w,
                forall|i: int|
                    row as int * w <= i < row as int * w + col ==> self.cells@[i] == value,
                forall|i: int|
                    0 <= i < g0.cells@.len() && !(row as int * w <= i < row as int * w + col)
                        ==> self.cells@[i] == g0.cells@[i],
            decreases w - col,
        {
            let i: usize = self.flat_index(row, col);
            self.cells[i] = value;
            col = col + 1;
        }
        proof {
            assert forall|r: int, c: int| g0.in_bounds(r, c) && r != row implies self.cells@[r * w
                + c] == g0.cells@[r * w + c] by {
                lemma_row_major_index_bounds(r, c, w as int, g0.spec_height() as int);
                if r < row {
                    lemma_row_ranges_disjoint(r, row as int, w as int);
                } else {
                    lemma_row_ranges_disjoint(row as int, r, w as int);
                }
            }
        }
    }

    /// Sets every cell of column `col`, which must be in bounds, to `value`;
    /// all other columns are untouched.
    pub fn col_mut(&mut self, col: usize, value: Cell)
        requires
            old(self).wf(),
            col < old(self).spec_width(),
        ensures
            final(self).wf(),
            final(self).spec_width() == old(self).spec_width(),
            final(self).spec_height() == old(self).spec_height(),
            forall|r: int|
                0 <= r < old(self).spec_height() ==> final(self).cell_at(r, col as int) == value,
            forall|r: int, c: int|
                old(self).in_bounds(r, c) && c != col ==> final(self).cell_at(r, c) == old(
                    self,
                ).cell_at(r, c),
    {
        let ghost g0: Game = *old(self);
        let w: usize = self.width;
        let h: usize = self.height;
        let mut row: usize = 0;
        while row < h
            invariant
                g0.wf(),
                self.wf(),
                w == g0.spec_width(),
                h == g0.spec_height(),
                col < w,
                self.width == g0.width,
                self.height == g0.height,
                self.next@ == g0.next@,
                self.cells@.len() == g0.cells@.len(),
                row <= h,
                forall|r: int| 0 <= r < row ==> self.cell_at(r, col as int) == value,
                forall|r: int, c: int|
                    g0.in_bounds(r, c) && c != col ==> self.cell_at(r, c) == g0.cell_at(r, c),
                forall|r: int|
                    row <= r < h ==> self.cell_at(r, col as int) == g0.cell_at(r, col as int),
            decreases h - row,
        {
            let i: usize = self.flat_index(row, col);
            let ghost gprev: Game = *self;
            self.cells[i] = value;
            proof {
                assert(self.cells@ == gprev.cells@.update(i as int, value));
                assert(self.cell_at(row as int, col as int) == value);
                assert forall|r: int, c: int|
                    g0.in_bounds(r, c) && !(r == row && c == col) implies self.cell_at(r, c)
                    == gprev.cell_at(r, c) by {
                    lemma_row_major_index_bounds(r, c, w as int, h as int);
                    if r * w + c == i as int {
                        lemma_row_major_injective(r, c, row as int, col as int, w as int);
                    }
                }
                assert forall|r: int| 0 <= r < row as int + 1 implies self.cell_at(r, col as int)
                    == value by {
                    if r < row as int {
                        assert(gprev.cell_at(r, col as int) == value);
                        assert(self.cell_at(r, col as int) == gprev.cell_at(r, col as int));
                    }
                }
                assert forall|r: int, c: int|
                    g0.in_bounds(r, c) && c != col implies self.cell_at(r, c) == g0.cell_at(
                    r,
                    c,
                ) by {
                    assert(gprev.cell_at(r, c) == g0.cell_at(r, c));
                    assert(self.cell_at(r, c) == gprev.cell_at(r, c));
                }
                assert forall|r: int| row as int + 1 <= r < h implies self.cell_at(r, col as int)
                    == g0.cell_at(r, col as int) by {
                    assert(gprev.cell_at(r, col as int) == g0.cell_at(r, col as int));
                    assert(self.cell_at(r, col as int) == gprev.cell_at(r, col as int));
                }
            }
            row = row + 1;
        }
    }

    /// Kills all cells.
    pub fn clear(&mut self)
        requires
            old(self).wf(),
        ensures
            final(self).wf(),
            final(self).spec_width() == old(self).spec_width(),
            final(self).spec_height() == old(self).spec_height(),
            final(self).spec_all_dead(),
    {
        let len: usize = self.cells.len();
        self.cells = vec![Cell::Dead; len];
    }

    /// Returns `true` if and only if every cell is `Dead`.
    pub fn all_dead(&self) -> (r: bool)
        requires
            self.wf(),
        ensures
            r == self.spec_all_dead(),
    {
        let len: usize = self.cells.len();
        let mut i: usize = 0;
        while i < len
            invariant
                i <= len,
                len == self@.len(),
                forall|k: int| 0 <= k < i ==> self@[k] == Cell::Dead,
            decreases len - i,
        {
            if self.cells[i] != Cell::Dead {
                return false;
            }
            i = i + 1;
        }
        true
    }

    /// Returns `true` if and only if every cell is `Alive`.
    pub fn all_alive(&self) -> (r: bool)
        requires
            self.wf(),
        ensures
            r == self.spec_all_alive(),
    {
        let len: usize = self.cells.len();
        let mut i: usize = 0;
        while i < len
            invariant
                i <= len,
                len == self@.len(),
                forall|k: int| 0 <= k < i ==> self@[k] == Cell::Alive,
            decreases len - i,
        {
            if self.cells[i] != Cell::Alive {
                return false;
            }
            i = i + 1;
        }
        true
    }

    /// Toggles every cell. Inverting an all-`Dead` grid yields an
    /// all-`Alive` grid.
    pub fn invert(&mut self)
        requires
            old(self).wf(),
        ensures
            final(self).wf(),
            final(self).spec_width() == old(self).spec_width(),
            final(self).spec_height() == old(self).spec_height(),
            final(self)@.len() == old(self)@.len(),
            forall|i: int|
                0 <= i < old(self)@.len() ==> final(self)@[i] == spec_toggled(old(self)@[i]),
            old(self).spec_all_dead() ==> final(self).spec_all_alive(),
    {
        let ghost g0: Game = *old(self);
        let len: usize = self.cells.len();
        let mut i: usize = 0;
        while i < len
            invariant
                self.width == g0.width,
                self.height == g0.height,
                self.next@ == g0.next@,
                self.cells@.len() == len,
                len == g0.cells@.len(),
                i <= len,
                forall|k: int| 0 <= k < i ==> self.cells@[k] == spec_toggled(g0.cells@[k]),
                forall|k: int| i <= k < len ==> self.cells@[k] == g0.cells@[k],
            decreases len - i,
        {
            let c: Cell = self.cells[i];
            self.cells[i] = c.toggled();
            i = i + 1;
        }
    }

    /// Sets each cell independently to `Alive` with probability
    /// `numerator / denominator`, drawn from the external Bernoulli sampler.
    ///
    /// The chance must be a well-formed probability: `denominator` positive
    /// and `numerator <= denominator`. At the two endpoints the outcome is
    /// certain: a chance of zero kills every cell and a chance of one
    /// enlivens every cell. For any other chance, nothing is promised of the
    /// cell values beyond the grid's shape being preserved.
    pub fn fill_random(&mut self, numerator: u32, denominator: u32)
        requires
            old(self).wf(),
            0 < denominator,
            numerator <= denominator,
        ensures
            final(self).wf(),
            final(self).spec_width() == old(self).spec_width(),
            final(self).spec_height() == old(self).spec_height(),
            numerator == 0 ==> final(self).spec_all_dead(),
            numerator == denominator ==> final(self).spec_all_alive(),
    {
        let ghost g0: Game = *old(self);
        let len: usize = self.cells.len();
        let mut i: usize = 0;
        while i < len
            invariant
                self.width == g0.width,
                self.height == g0.height,
                self.next@ == g0.next@,
                self.cells@.len() == len,
                len == g0.cells@.len(),
                i <= len,
                0 < denominator,
                numerator <= denominator,
                numerator == 0 ==> forall|k: int| 0 <= k < i ==> self.cells@[k] == Cell::Dead,
                numerator == denominator ==> forall|k: int|
                    0 <= k < i ==> self.cells@[k] == Cell::Alive,
            decreases len - i,
        {
            let alive: bool = crate::rng::sample_ratio(numerator, denominator);
            self.cells[i] = Cell::from_bool(alive);
            i = i + 1;
        }
    }
}

/// A finite forward sequence of cells copied out of a grid, as produced by
/// [`Game::row`] and [`Game::col`]: a cursor that hands the cells out in
/// order, front to back.
pub struct Cells {
    items: Vec<Cell>,
    pos: usize,
}

impl Cells {
    /// The whole sequence this cursor walks over.
    pub closed spec fn all_cells(&self) -> Seq<Cell> {
        self.items@
    }

    /// How many cells have been handed out so far.
    pub closed spec fn position(&self) -> int {
        self.pos as int
    }

    /// The cursor never moves past the end of its sequence.
    pub open spec fn wf(&self) -> bool {
        self.position() <= self.all_cells().len()
    }

    /// Hands out the next cell, or `None` exactly when the sequence is
    /// exhausted.
    pub fn next(&mut self) -> (r: Option<Cell>)
        requires
            old(self).wf(),
        ensures
            final(self).wf(),
            final(self).all_cells() == old(self).all_cells(),
            old(self).position() < old(self).all_cells().len() ==> r == Some(
                old(self).all_cells()[old(self).position()],
            ) && final(self).position() == old(self).position() + 1,
            old(self).position() >= old(self).all_cells().len() ==> r is None
                && final(self).position() == old(self).position(),
    {
        if self.pos < self.items.len() {
            let c: Cell = self.items[self.pos];
            self.pos = self.pos + 1;
            Some(c)
        } else {
            None
        }
    }

    /// How many cells are still to come.
    pub fn remaining(&self) -> (n: usize)
        requires
            self.wf(),
        ensures
            n == self.all_cells().len() - self.position(),
    {
        self.items.len() - self.pos
    }

    /// Moves the cursor back to the front of its sequence.
    pub fn restart(&mut self)
        ensures
            final(self).wf(),
            final(self).all_cells() == old(self).all_cells(),
            final(self).position() == 0,
    {
        self.pos = 0;
    }
}

/// The toroidal predecessor of `i` on an axis of length `n`: `0` wraps to
/// `n - 1`.
pub open spec fn wrap_dec(i: int, n: int) -> int {
    if i == 0 {
        n - 1
    } else {
        i - 1
    }
}

/// The toroidal successor of `i` on an axis of length `n`: `n - 1` wraps to
/// `0`.
pub open spec fn wrap_inc(i: int, n: int) -> int {
    if i == n - 1 {
        0
    } else {
        i + 1
    }
}

/// The number of `Alive` cells among the 8 toroidal neighbors of
/// `(row, col)`. Under the toroidal topology every cell has exactly 8
/// neighbor positions; on a small axis some of those positions may coincide,
/// and each is still counted once per position.
pub open spec fn live_neighbors(g: Game, row: int, col: int) -> int {
    let h = g.spec_height() as int;
    let w = g.spec_width() as int;
    let up = wrap_dec(row, h);
    let down = wrap_inc(row, h);
    let left = wrap_dec(col, w);
    let right = wrap_inc(col, w);
    spec_weight(g.cell_at(up, left)) + spec_weight(g.cell_at(up, col)) + spec_weight(
        g.cell_at(up, right),
    ) + spec_weight(g.cell_at(row, left)) + spec_weight(g.cell_at(row, right)) + spec_weight(
        g.cell_at(down, left),
    ) + spec_weight(g.cell_at(down, col)) + spec_weight(g.cell_at(down, right))
}

/// The generation-advance rule for one cell: exactly 3 live neighbors make
/// it `Alive`, exactly 2 leave it unchanged, anything else makes it `Dead`.
pub open spec fn next_cell(g: Game, row: int, col: int) -> Cell {
    let n = live_neighbors(g, row, col);
    if n == 3 {
        Cell::Alive
    } else if n == 2 {
        g.cell_at(row, col)
    } else {
        Cell::Dead
    }
}

/// A row-major index formed from in-bounds coordinates lies within the grid
/// area.
pub proof fn lemma_row_major_index_bounds(row: int, col: int, width: int, height: int)
    requires
        0 <= row < height,
        0 <= col < width,
    ensures
        0 <= row * width + col < height * width,
        row * width + col < width * height,
{
    assert(0 <= row * width + col < height * width && row * width + col < width * height)
        by (nonlinear_arith)
        requires
            0 <= row < height,
            0 <= col < width,
    ;
}

/// Every flat buffer index decomposes into in-bounds coordinates under the
/// row-major layout: index `i` holds the cell at row `i / width`, column
/// `i % width`. This is the bridge from the index form of the grid
/// predicates, such as [`Game::spec_all_dead`], to the coordinate form that
/// [`Game::tick`]'s postcondition and [`crate::laws`] use.
pub proof fn lemma_flat_index_coords(g: Game, i: int)
    requires
        g.wf(),
        0 <= i < g@.len(),
    ensures
        g.in_bounds(i / g.spec_width() as int, i % g.spec_width() as int),
        g.cell_at(i / g.spec_width() as int, i % g.spec_width() as int) == g@[i],
{
    let w = g.spec_width() as int;
    let h = g.spec_height() as int;
    vstd::arithmetic::div_mod::lemma_fundamental_div_mod(i, w);
    vstd::arithmetic::div_mod::lemma_mod_bound(i, w);
    assert(0 <= i / w < h) by (nonlinear_arith)
        requires
            0 < w,
            0 < h,
            0 <= i < w * h,
            i == w * (i / w) + (i % w),
            0 <= i % w < w,
    ;
    assert((i / w) * w + (i % w) == i) by (nonlinear_arith)
        requires
            i == w * (i / w) + (i % w),
    ;
}

/// Under the row-major layout, the index range of an earlier row lies
/// entirely below that of a later row.
pub proof fn lemma_row_ranges_disjoint(r1: int, r2: int, width: int)
    requires
        r1 < r2,
        0 < width,
    ensures
        r1 * width + width <= r2 * width,
{
    assert(r1 * width + width <= r2 * width) by (nonlinear_arith)
        requires
            r1 < r2,
            0 < width,
    ;
}

/// Distinct in-bounds coordinate pairs map to distinct row-major indices.
pub proof fn lemma_row_major_injective(r1: int, c1: int, r2: int, c2: int, width: int)
    requires
        0 <= c1 < width,
        0 <= c2 < width,
        r1 * width + c1 == r2 * width + c2,
    ensures
        r1 == r2,
        c1 == c2,
{
    assert(r1 == r2 && c1 == c2) by (nonlinear_arith)
        requires
            0 <= c1 < width,
            0 <= c2 < width,
            r1 * width + c1 == r2 * width + c2,
    ;
}

} // verus!
