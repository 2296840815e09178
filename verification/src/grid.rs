use vstd::prelude::*;
use vstd::arithmetic::div_mod::{
    lemma_fundamental_div_mod_converse_div, lemma_fundamental_div_mod_converse_mod,
    lemma_mod_bound, lemma_mod_multiples_vanish,
};
use crate::cell::{Cell, spec_weight};

verus! {

/// Linear index of the cell at `(row, col)` in a row-major grid of the given
/// dimensions, with toroidal wraparound: coordinates are reduced modulo the
/// grid dimensions before indexing, so any non-negative coordinate maps into
/// the grid.
pub open spec fn cell_index(width: int, height: int, row: int, col: int) -> int {
    (row % height) * width + (col % width)
}

/// Row recovered from a linear cell index.
pub open spec fn row_of(width: int, index: int) -> int {
    index / width
}

/// Column recovered from a linear cell index.
pub open spec fn col_of(width: int, index: int) -> int {
    index % width
}

/// The coordinate one step before `i` in a cyclic dimension of size `n`:
/// `i - 1`, wrapped to `n - 1` at zero.
pub open spec fn wrap_dec(i: int, n: int) -> int {
    (i + n - 1) % n
}

/// The coordinate one step after `i` in a cyclic dimension of size `n`.
pub open spec fn wrap_inc(i: int, n: int) -> int {
    (i + 1) % n
}

/// Number of live cells among the 8 neighbors (orthogonal and diagonal) of
/// the cell at `(row, col)`, under toroidal wraparound.
pub open spec fn live_neighbors(
    cells: Seq<Cell>,
    width: int,
    height: int,
    row: int,
    col: int,
) -> int {
    let up = wrap_dec(row, height);
    let down = wrap_inc(row, height);
    let left = wrap_dec(col, width);
    let right = wrap_inc(col, width);
    spec_weight(cells[cell_index(width, height, up, left)])
        + spec_weight(cells[cell_index(width, height, up, col)])
        + spec_weight(cells[cell_index(width, height, up, right)])
        + spec_weight(cells[cell_index(width, height, row, left)])
        + spec_weight(cells[cell_index(width, height, row, right)])
        + spec_weight(cells[cell_index(width, height, down, left)])
        + spec_weight(cells[cell_index(width, height, down, col)])
        + spec_weight(cells[cell_index(width, height, down, right)])
}

/// The generation-advance rule for a single cell: a live cell survives with
/// 2 or 3 live neighbors and otherwise dies; a dead cell comes alive with
/// exactly 3 live neighbors and otherwise stays dead.
pub open spec fn next_cell(c: Cell, n: int) -> Cell {
    match c {
        Cell::Alive => if n < 2 {
            Cell::Dead
        } else if n <= 3 {
            Cell::Alive
        } else {
            Cell::Dead
        },
        Cell::Dead => if n == 3 {
            Cell::Alive
        } else {
            Cell::Dead
        },
    }
}

/// The whole next generation: every cell advanced by `next_cell`, each from
/// the current state of the grid.
pub open spec fn next_gen(cells: Seq<Cell>, width: int, height: int) -> Seq<Cell> {
    Seq::new(
        cells.len(),
        |i: int| next_cell(
            cells[i],
            live_neighbors(cells, width, height, row_of(width, i), col_of(width, i)),
        ),
    )
}

/// The grid after `k` generations.
pub open spec fn iterated_gen(cells: Seq<Cell>, width: int, height: int, k: nat) -> Seq<Cell>
    decreases k,
{
    if k == 0 {
        cells
    } else {
        next_gen(iterated_gen(cells, width, height, (k - 1) as nat), width, height)
    }
}

/// Every cell of the grid is dead.
pub open spec fn all_dead(cells: Seq<Cell>) -> bool {
    forall|i: int| 0 <= i < cells.len() ==> cells[i] == Cell::Dead
}

/// A cell index is always within a grid of `width * height` cells.
pub proof fn lemma_cell_index_bounds(width: int, height: int, row: int, col: int)
    requires
        width > 0,
        height > 0,
    ensures
        0 <= cell_index(width, height, row, col) < width * height,
{
    lemma_mod_bound(row, height);
    lemma_mod_bound(col, width);
    assert((row % height) * width + (col % width) < width * height) by (nonlinear_arith)
        requires
            width > 0,
            height > 0,
            0 <= row % height < height,
            0 <= col % width < width,
    ;
    assert((row % height) * width >= 0) by (nonlinear_arith)
        requires
            width > 0,
            0 <= row % height,
    ;
}

/// Toroidal periodicity: shifting a coordinate by a full grid dimension
/// leads to the same cell.
pub proof fn lemma_index_periodic(width: int, height: int, row: int, col: int)
    requires
        width > 0,
        height > 0,
        row >= 0,
        col >= 0,
    ensures
        cell_index(width, height, row, col) == cell_index(width, height, row + height, col + width),
{
    lemma_mod_multiples_vanish(1, row, height);
    lemma_mod_multiples_vanish(1, col, width);
}

/// Recovering a position from a cell index undoes the index mapping: the
/// position of `cell_index(row, col)` is `(row mod height, col mod width)`.
pub proof fn lemma_position_round_trip(width: int, height: int, row: int, col: int)
    requires
        width > 0,
        height > 0,
        row >= 0,
        col >= 0,
    ensures
        row_of(width, cell_index(width, height, row, col)) == row % height,
        col_of(width, cell_index(width, height, row, col)) == col % width,
{
    let i = cell_index(width, height, row, col);
    lemma_mod_bound(row, height);
    lemma_mod_bound(col, width);
    lemma_fundamental_div_mod_converse_div(i, width, row % height, col % width);
    lemma_fundamental_div_mod_converse_mod(i, width, row % height, col % width);
}

/// In a fully dead grid every neighbor count is zero.
pub proof fn lemma_dead_grid_counts_zero(
    cells: Seq<Cell>,
    width: int,
    height: int,
    row: int,
    col: int,
)
    requires
        width > 0,
        height > 0,
        cells.len() == width * height,
        all_dead(cells),
    ensures
        live_neighbors(cells, width, height, row, col) == 0,
{
    let up = wrap_dec(row, height);
    let down = wrap_inc(row, height);
    let left = wrap_dec(col, width);
    let right = wrap_inc(col, width);
    lemma_cell_index_bounds(width, height, up, left);
    lemma_cell_index_bounds(width, height, up, col);
    lemma_cell_index_bounds(width, height, up, right);
    lemma_cell_index_bounds(width, height, row, left);
    lemma_cell_index_bounds(width, height, row, right);
    lemma_cell_index_bounds(width, height, down, left);
    lemma_cell_index_bounds(width, height, down, col);
    lemma_cell_index_bounds(width, height, down, right);
}

/// One step of the no-spontaneous-generation law: the successor of a fully
/// dead grid is fully dead.
pub proof fn lemma_dead_grid_step(cells: Seq<Cell>, width: int, height: int)
    requires
        width > 0,
        height > 0,
        cells.len() == width * height,
        all_dead(cells),
    ensures
        all_dead(next_gen(cells, width, height)),
        next_gen(cells, width, height).len() == cells.len(),
{
    let next = next_gen(cells, width, height);
    assert forall|i: int| 0 <= i < next.len() implies next[i] == Cell::Dead by {
        lemma_dead_grid_counts_zero(cells, width, height, row_of(width, i), col_of(width, i));
    }
}

/// A fully dead grid stays fully dead after any number of generations: no
/// cell ever comes alive without exactly three live neighbors.
pub proof fn lemma_dead_grid_stays_dead(cells: Seq<Cell>, width: int, height: int, k: nat)
    requires
        width > 0,
        height > 0,
        cells.len() == width * height,
        all_dead(cells),
    ensures
        all_dead(iterated_gen(cells, width, height, k)),
        iterated_gen(cells, width, height, k).len() == cells.len(),
    decreases k,
{
    if k > 0 {
        lemma_dead_grid_stays_dead(cells, width, height, (k - 1) as nat);
        lemma_dead_grid_step(iterated_gen(cells, width, height, (k - 1) as nat), width, height);
    }
}

/// The eight neighbors of the cell at `(row, col)` are all dead.
pub open spec fn isolated(cells: Seq<Cell>, width: int, height: int, row: int, col: int) -> bool {
    let up = wrap_dec(row, height);
    let down = wrap_inc(row, height);
    let left = wrap_dec(col, width);
    let right = wrap_inc(col, width);
    cells[cell_index(width, height, up, left)] == Cell::Dead
        && cells[cell_index(width, height, up, col)] == Cell::Dead
        && cells[cell_index(width, height, up, right)] == Cell::Dead
        && cells[cell_index(width, height, row, left)] == Cell::Dead
        && cells[cell_index(width, height, row, right)] == Cell::Dead
        && cells[cell_index(width, height, down, left)] == Cell::Dead
        && cells[cell_index(width, height, down, col)] == Cell::Dead
        && cells[cell_index(width, height, down, right)] == Cell::Dead
}

/// Underpopulation: a live cell whose eight neighbors are all dead is dead
/// in the next generation.
pub proof fn lemma_isolated_cell_dies(
    cells: Seq<Cell>,
    width: int,
    height: int,
    row: int,
    col: int,
)
    requires
        width > 0,
        height > 0,
        cells.len() == width * height,
        0 <= row < height,
        0 <= col < width,
        cells[cell_index(width, height, row, col)] == Cell::Alive,
        isolated(cells, width, height, row, col),
    ensures
        next_gen(cells, width, height)[cell_index(width, height, row, col)] == Cell::Dead,
{
    let i = cell_index(width, height, row, col);
    lemma_cell_index_bounds(width, height, row, col);
    lemma_position_round_trip(width, height, row, col);
    vstd::arithmetic::div_mod::lemma_small_mod(row as nat, height as nat);
    vstd::arithmetic::div_mod::lemma_small_mod(col as nat, width as nat);
    assert(live_neighbors(cells, width, height, row, col) == 0);
}

} // verus!
