//! Grid-independent laws of the generation-advance rule, stated over the
//! specification functions of [`crate::game`] and proved once for every
//! well-formed grid.

use crate::cell::Cell;
use crate::game::{live_neighbors, next_cell, wrap_dec, wrap_inc, Game};
use vstd::prelude::*;

verus! {

/// An isolated `Alive` cell — one all 8 of whose toroidal neighbor positions
/// hold `Dead` cells, so that its live-neighbor count is zero — is `Dead` in
/// the next generation. Together with [`Game::tick`]'s postcondition this
/// says the cell dies after one tick.
pub proof fn lemma_isolated_cell_dies(g: Game, row: int, col: int)
    requires
        g.wf(),
        g.in_bounds(row, col),
        g.cell_at(row, col) == Cell::Alive,
        live_neighbors(g, row, col) == 0,
    ensures
        next_cell(g, row, col) == Cell::Dead,
{
}

/// A cell with exactly 3 live toroidal neighbors — wrapped neighbor
/// positions included — is `Alive` in the next generation, whatever its own
/// state; this covers both birth and survival. Together with
/// [`Game::tick`]'s postcondition this says the cell is alive after one
/// tick.
pub proof fn lemma_three_live_neighbors_alive(g: Game, row: int, col: int)
    requires
        g.wf(),
        g.in_bounds(row, col),
        live_neighbors(g, row, col) == 3,
    ensures
        next_cell(g, row, col) == Cell::Alive,
{
}

/// Whether `(r, c)` is one of the four cells of the 2×2 block whose top-left
/// corner sits at `(r0, c0)`, the block extending to the toroidal successor
/// row and column.
pub open spec fn in_block(r: int, c: int, r0: int, c0: int, w: int, h: int) -> bool {
    (r == r0 || r == wrap_inc(r0, h)) && (c == c0 || c == wrap_inc(c0, w))
}

/// A 2×2 block of `Alive` cells, alone on a grid with both dimensions at
/// least 3, is a still life: every cell is unchanged by the
/// generation-advance rule, so the grid is unchanged after [`Game::tick`].
///
/// Both dimensions must be at least 3: on an axis of length 2 the wrapped
/// neighbor positions of a block cell coincide, its live-neighbor count
/// exceeds 3, and the block dies.
#[verifier::rlimit(100)]
pub proof fn lemma_block_still_life(g: Game, r0: int, c0: int)
    requires
        g.wf(),
        3 <= g.spec_width(),
        3 <= g.spec_height(),
        g.in_bounds(r0, c0),
        forall|r: int, c: int|
            g.in_bounds(r, c) ==> ((#[trigger] g.cell_at(r, c)) == Cell::Alive <==> in_block(
                r,
                c,
                r0,
                c0,
                g.spec_width() as int,
                g.spec_height() as int,
            )),
    ensures
        forall|r: int, c: int|
            g.in_bounds(r, c) ==> #[trigger] next_cell(g, r, c) == g.cell_at(r, c),
{
    assert forall|r: int, c: int| g.in_bounds(r, c) implies #[trigger] next_cell(g, r, c)
        == g.cell_at(r, c) by {
        lemma_block_cell_unchanged(g, r0, c0, r, c);
    }
}

/// Facts about toroidal wrapping on an axis of length at least 3: the
/// predecessor and successor of a coordinate are distinct from it and from
/// each other, they invert each other, and two successor steps never return
/// to the start.
pub proof fn lemma_wrap_facts(x: int, n: int)
    requires
        3 <= n,
        0 <= x < n,
    ensures
        0 <= wrap_dec(x, n) < n,
        0 <= wrap_inc(x, n) < n,
        wrap_dec(x, n) != x,
        wrap_inc(x, n) != x,
        wrap_dec(x, n) != wrap_inc(x, n),
        wrap_dec(wrap_inc(x, n), n) == x,
        wrap_inc(wrap_dec(x, n), n) == x,
        wrap_inc(wrap_inc(x, n), n) != x,
        wrap_dec(wrap_dec(x, n), n) != x,
{
}

/// One cell of the still-life argument: with the block alone on the grid,
/// the rule leaves the cell at `(r, c)` unchanged.
#[verifier::rlimit(100)]
proof fn lemma_block_cell_unchanged(g: Game, r0: int, c0: int, r: int, c: int)
    requires
        g.wf(),
        3 <= g.spec_width(),
        3 <= g.spec_height(),
        g.in_bounds(r0, c0),
        g.in_bounds(r, c),
        forall|x: int, y: int|
            g.in_bounds(x, y) ==> ((#[trigger] g.cell_at(x, y)) == Cell::Alive <==> in_block(
                x,
                y,
                r0,
                c0,
                g.spec_width() as int,
                g.spec_height() as int,
            )),
    ensures
        next_cell(g, r, c) == g.cell_at(r, c),
{
    let w = g.spec_width() as int;
    let h = g.spec_height() as int;
    let up = wrap_dec(r, h);
    let down = wrap_inc(r, h);
    let left = wrap_dec(c, w);
    let right = wrap_inc(c, w);
    let r1 = wrap_inc(r0, h);
    let c1 = wrap_inc(c0, w);
    lemma_wrap_facts(r, h);
    lemma_wrap_facts(c, w);
    lemma_wrap_facts(r0, h);
    lemma_wrap_facts(c0, w);
    assert(g.in_bounds(up, left) && g.in_bounds(up, c) && g.in_bounds(up, right));
    assert(g.in_bounds(r, left) && g.in_bounds(r, right));
    assert(g.in_bounds(down, left) && g.in_bounds(down, c) && g.in_bounds(down, right));
    assert(g.cell_at(up, left) == Cell::Alive <==> in_block(up, left, r0, c0, w, h));
    assert(g.cell_at(up, c) == Cell::Alive <==> in_block(up, c, r0, c0, w, h));
    assert(g.cell_at(up, right) == Cell::Alive <==> in_block(up, right, r0, c0, w, h));
    assert(g.cell_at(r, left) == Cell::Alive <==> in_block(r, left, r0, c0, w, h));
    assert(g.cell_at(r, right) == Cell::Alive <==> in_block(r, right, r0, c0, w, h));
    assert(g.cell_at(down, left) == Cell::Alive <==> in_block(down, left, r0, c0, w, h));
    assert(g.cell_at(down, c) == Cell::Alive <==> in_block(down, c, r0, c0, w, h));
    assert(g.cell_at(down, right) == Cell::Alive <==> in_block(down, right, r0, c0, w, h));
    assert(g.cell_at(r, c) == Cell::Alive <==> in_block(r, c, r0, c0, w, h));
    if (r == r0 || r == r1) && (c == c0 || c == c1) {
        // A block cell: its live neighbors are exactly the other three block
        // cells, so it survives with a count of 3.
        if r == r0 && c == c0 {
            assert(up != r0 && up != r1 && down == r1);
            assert(left != c0 && left != c1 && right == c1);
            assert(live_neighbors(g, r, c) == 3);
        } else if r == r0 && c == c1 {
            assert(up != r0 && up != r1 && down == r1);
            assert(left == c0 && right != c0 && right != c1);
            assert(live_neighbors(g, r, c) == 3);
        } else if r == r1 && c == c0 {
            assert(up == r0 && down != r0 && down != r1);
            assert(left != c0 && left != c1 && right == c1);
            assert(live_neighbors(g, r, c) == 3);
        } else {
            assert(up == r0 && down != r0 && down != r1);
            assert(left == c0 && right != c0 && right != c1);
            assert(live_neighbors(g, r, c) == 3);
        }
        assert(next_cell(g, r, c) == g.cell_at(r, c));
    } else if r == r0 || r == r1 {
        // A dead cell in a block row but outside the block columns: each of
        // its live neighbors in its own row is matched by one in the other
        // block row, so the count is even and never 3.
        if r == r0 {
            assert(up != r0 && up != r1 && down == r1);
        } else {
            assert(up == r0 && down != r0 && down != r1);
        }
        assert(live_neighbors(g, r, c) != 3);
        assert(next_cell(g, r, c) == g.cell_at(r, c));
    } else if c == c0 || c == c1 {
        // A dead cell in a block column but outside the block rows: at most
        // one of its two neighbor columns is a block column besides its own,
        // so each contributing neighbor row adds at most 2, and two
        // contributing rows give an even count; never 3.
        assert(!(left == c0 || left == c1) || !(right == c0 || right == c1));
        assert(live_neighbors(g, r, c) != 3);
        assert(next_cell(g, r, c) == g.cell_at(r, c));
    } else {
        // A dead cell sharing no row and no column with the block: its count
        // is a product of two factors, each at most 2, and is never 3.
        assert(live_neighbors(g, r, c) != 3);
        assert(next_cell(g, r, c) == g.cell_at(r, c));
    }
}

/// A row view holds exactly `width` cells, in column order.
pub proof fn lemma_row_cells(g: Game, row: int)
    requires
        g.wf(),
        0 <= row < g.spec_height(),
    ensures
        g.spec_row(row).len() == g.spec_width(),
        forall|c: int| 0 <= c < g.spec_width() ==> g.spec_row(row)[c] == g.cell_at(row, c),
{
}

/// A column view holds exactly `height` cells, in row order.
pub proof fn lemma_col_cells(g: Game, col: int)
    requires
        g.wf(),
        0 <= col < g.spec_width(),
    ensures
        g.spec_col(col).len() == g.spec_height(),
        forall|r: int| 0 <= r < g.spec_height() ==> g.spec_col(col)[r] == g.cell_at(r, col),
{
}

} // verus!
