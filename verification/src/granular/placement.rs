//! Integer layout of the `Grid` initial distribution: grains fill a square
//! grid row by row, one grain per cell. Positions inside each cell are
//! jittered by the seeded generator, in floating point, by the caller.

use vstd::arithmetic::div_mod::lemma_fundamental_div_mod;
use vstd::prelude::*;

verus! {

/// `c` is the side of the smallest square grid, at least one cell wide,
/// that holds `n` cells (`max(1, ⌈√n⌉)`).
pub open spec fn is_grid_side(n: int, c: int) -> bool {
    &&& c >= 1
    &&& c * c >= n
    &&& (c == 1 || (c - 1) * (c - 1) < n)
}

/// The cell of grain `i` in a grid `cells` wide: column, then row.
pub open spec fn cell_of(i: int, cells: int) -> (int, int) {
    (i % cells, i / cells)
}

/// Side of the square grid for `count` grains.
pub fn grid_cells(count: u32) -> (c: u32)
    ensures
        is_grid_side(count as int, c as int),
{
    let mut c: u64 = 1;
    while c * c < count as u64
        invariant
            1 <= c <= 65536,
            c * c <= 65536 * 65536,
            c == 1 || (c - 1) * (c - 1) < count,
        decreases 65536 - c,
    {
        assert(c < 65536) by (nonlinear_arith)
            requires
                c * c < count,
                count <= u32::MAX,
                c >= 1,
        ;
        c = c + 1;
        assert(c * c <= 65536 * 65536) by (nonlinear_arith)
            requires
                1 <= c <= 65536,
        ;
    }
    c as u32
}

/// Column and row of grain `i` in a grid `cells` wide.
pub fn grid_cell(i: u32, cells: u32) -> (cell: (u32, u32))
    requires
        cells >= 1,
    ensures
        (cell.0 as int, cell.1 as int) == cell_of(i as int, cells as int),
        cell.0 < cells,
        i as int == cell.1 as int * cells as int + cell.0 as int,
{
    proof {
        lemma_fundamental_div_mod(i as int, cells as int);
        assert(cells as int * (i as int / cells as int) == (i as int / cells as int) * cells as int)
            by (nonlinear_arith);
    }
    (i % cells, i / cells)
}

/// Grains fill the grid row by row: grain `i` of a grid `cells` wide sits
/// in column `x` and row `y` exactly when `i == y·cells + x` with
/// `0 <= x < cells`, so the next grain is one column further along, and
/// a row holds `cells` grains before the next one starts.
pub proof fn lemma_row_major(i: int, cells: int, x: int, y: int)
    requires
        i >= 0,
        cells >= 1,
    ensures
        cell_of(i, cells) == (x, y) <==> (0 <= x < cells && i == y * cells + x),
{
    lemma_fundamental_div_mod(i, cells);
    assert(cells * (i / cells) == (i / cells) * cells) by (nonlinear_arith);
    if 0 <= x < cells && i == y * cells + x {
        assert(i == cells * y + x) by (nonlinear_arith)
            requires
                i == y * cells + x,
        ;
        vstd::arithmetic::div_mod::lemma_fundamental_div_mod_converse(i, cells, y, x);
    }
}

/// Every grain of a `count`-grain grid layout gets a cell of its own inside
/// the grid.
pub proof fn lemma_grid_cells_distinct(count: int, cells: int)
    requires
        count >= 0,
        is_grid_side(count, cells),
    ensures
        forall|i: int|
            0 <= i < count ==> 0 <= #[trigger] cell_of(i, cells).0 < cells && 0 <= cell_of(
                i,
                cells,
            ).1 < cells,
        forall|i: int, j: int|
            0 <= i < count && 0 <= j < count && i != j ==> #[trigger] cell_of(i, cells)
                != #[trigger] cell_of(j, cells),
{
    assert forall|i: int| 0 <= i < count implies 0 <= #[trigger] cell_of(i, cells).0 < cells
        && 0 <= cell_of(i, cells).1 < cells by {
        lemma_fundamental_div_mod(i, cells);
        assert(0 <= i / cells) by (nonlinear_arith)
            requires
                i >= 0,
                cells >= 1,
        ;
        if i / cells >= cells {
            assert(cells * (i / cells) >= cells * cells) by (nonlinear_arith)
                requires
                    i / cells >= cells,
                    cells >= 1,
            ;
        }
    }
    assert forall|i: int, j: int|
        0 <= i < count && 0 <= j < count && i != j implies #[trigger] cell_of(i, cells)
        != #[trigger] cell_of(j, cells) by {
        lemma_fundamental_div_mod(i, cells);
        lemma_fundamental_div_mod(j, cells);
    }
}

} // verus!
