//! Mathematical model of the automaton: grid contents as a sequence of
//! booleans, toroidal neighbor counting, and the B3/S23 transition rule.

use vstd::prelude::*;

verus! {

/// Ghost-level view of a grid: dimensions and row-major cell contents.
#[verifier::ext_equal]
pub ghost struct GridModel {
    pub width: int,
    pub height: int,
    pub cells: Seq<bool>,
}

/// A well-formed grid has positive dimensions and exactly
/// `width * height` cells.
pub open spec fn grid_wf(m: GridModel) -> bool {
    &&& m.width >= 1
    &&& m.height >= 1
    &&& m.cells.len() == m.width * m.height
}

/// The cell at column `x`, row `y` of a row-major grid.
pub open spec fn cell_at(m: GridModel, x: int, y: int) -> bool {
    m.cells[y * m.width + x]
}

/// Toroidal wraparound of a coordinate: moving by `delta` from `i`
/// on an axis of extent `n` never leaves `[0, n)`.
pub open spec fn wrap(i: int, delta: int, n: int) -> int {
    (i + n + delta) % n
}

/// 1 for a live cell, 0 for a dead one.
pub open spec fn alive_as_count(b: bool) -> int {
    if b { 1 } else { 0 }
}

/// Number of live cells among the 8 toroidally wrapped neighbors of
/// `(x, y)`.
pub open spec fn neighbor_count(m: GridModel, x: int, y: int) -> int {
    alive_as_count(cell_at(m, wrap(x, -1, m.width), wrap(y, -1, m.height)))
        + alive_as_count(cell_at(m, wrap(x, -1, m.width), wrap(y, 0, m.height)))
        + alive_as_count(cell_at(m, wrap(x, -1, m.width), wrap(y, 1, m.height)))
        + alive_as_count(cell_at(m, wrap(x, 0, m.width), wrap(y, -1, m.height)))
        + alive_as_count(cell_at(m, wrap(x, 0, m.width), wrap(y, 1, m.height)))
        + alive_as_count(cell_at(m, wrap(x, 1, m.width), wrap(y, -1, m.height)))
        + alive_as_count(cell_at(m, wrap(x, 1, m.width), wrap(y, 0, m.height)))
        + alive_as_count(cell_at(m, wrap(x, 1, m.width), wrap(y, 1, m.height)))
}

/// The B3/S23 rule: a cell is alive in the next generation iff it is
/// alive with exactly 2 live neighbors, or has exactly 3 live neighbors.
pub open spec fn next_cell(alive: bool, neighbors: int) -> bool {
    (alive && neighbors == 2) || neighbors == 3
}

/// Next state of the cell stored at flat index `i`.
pub open spec fn step_cell(m: GridModel, i: int) -> bool {
    next_cell(cell_at(m, i % m.width, i / m.width), neighbor_count(m, i % m.width, i / m.width))
}

/// The grid after one full step: every cell transitions under B3/S23,
/// reading only from `m`.
pub open spec fn next_model(m: GridModel) -> GridModel {
    GridModel { width: m.width, height: m.height, cells: Seq::new(m.cells.len(), |i: int| step_cell(m, i)) }
}

/// The grid after `n` sequential steps.
pub open spec fn nth_model(m: GridModel, n: nat) -> GridModel
    decreases n,
{
    if n == 0 {
        m
    } else {
        next_model(nth_model(m, (n - 1) as nat))
    }
}

/// The neighbor count of any cell of a well-formed grid lies in [0, 8].
pub proof fn lemma_neighbor_count_range(m: GridModel, x: int, y: int)
    requires
        grid_wf(m),
    ensures
        0 <= neighbor_count(m, x, y) <= 8,
{
}

/// The transition rule, case by case: a cell with exactly 3 live
/// neighbors is alive next step regardless of its current state; a live
/// cell with exactly 2 stays alive; a live cell with any other count
/// dies; a dead cell with a count other than 3 stays dead.
pub proof fn lemma_transition_rule(alive: bool, neighbors: int)
    ensures
        neighbors == 3 ==> next_cell(alive, neighbors),
        alive && neighbors == 2 ==> next_cell(alive, neighbors),
        alive && neighbors != 2 && neighbors != 3 ==> !next_cell(alive, neighbors),
        !alive && neighbors != 3 ==> !next_cell(alive, neighbors),
{
}

} // verus!
