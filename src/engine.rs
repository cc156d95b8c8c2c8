use vstd::prelude::*;

use crate::grid::{Grid, GridModel};

verus! {

/// 1 for a live cell, 0 for a dead one or a position off the grid.
pub open spec fn live_value(m: GridModel, x: int, y: int) -> int {
    if m.is_live(x, y) {
        1
    } else {
        0
    }
}

/// Live cells among the eight Moore neighbours of `(x, y)`. Positions off the
/// grid count as dead: the border does not wrap around.
pub open spec fn neighbor_count(m: GridModel, x: int, y: int) -> int {
    live_value(m, x - 1, y - 1) + live_value(m, x, y - 1) + live_value(m, x + 1, y - 1)
        + live_value(m, x - 1, y) + live_value(m, x + 1, y) + live_value(m, x - 1, y + 1)
        + live_value(m, x, y + 1) + live_value(m, x + 1, y + 1)
}

/// A live cell with too few or too many neighbours dies.
pub open spec fn dies(alive: bool, n: int) -> bool {
    alive && (n < 2 || n > 3)
}

/// A live cell with two or three neighbours lives on.
pub open spec fn survives(alive: bool, n: int) -> bool {
    alive && (n == 2 || n == 3)
}

/// A dead cell with exactly three neighbours comes alive.
pub open spec fn born(alive: bool, n: int) -> bool {
    !alive && n == 3
}

/// A dead cell with any other count stays dead.
pub open spec fn stays_dead(alive: bool, n: int) -> bool {
    !alive && n != 3
}

/// The state of a cell in the next generation, from its current state and
/// its number of live neighbours.
pub open spec fn next_state(alive: bool, n: int) -> bool {
    survives(alive, n) || born(alive, n)
}

/// The grid one generation later: every cell is decided from the current
/// generation alone.
pub open spec fn next_generation(m: GridModel) -> GridModel {
    GridModel {
        live: Set::new(
            |p: (int, int)|
                m.in_bounds(p.0, p.1) && next_state(m.is_live(p.0, p.1), neighbor_count(m, p.0, p.1)),
        ),
        ..m
    }
}

pub open spec fn indicator(b: bool) -> int {
    if b {
        1
    } else {
        0
    }
}

/// The four cases of the rule are exhaustive and mutually exclusive for every
/// cell state and neighbour count, and the next state is alive exactly in the
/// survival and birth cases.
pub proof fn lemma_rule_exhaustive(alive: bool, n: int)
    requires
        0 <= n <= 8,
    ensures
        indicator(dies(alive, n)) + indicator(survives(alive, n)) + indicator(born(alive, n))
            + indicator(stays_dead(alive, n)) == 1,
        next_state(alive, n) <==> survives(alive, n) || born(alive, n),
        !next_state(alive, n) <==> dies(alive, n) || stays_dead(alive, n),
{
}

/// A cell with exactly three live neighbours is alive in the next
/// generation, whether it is alive now or not.
pub proof fn lemma_three_neighbors_alive(m: GridModel, x: int, y: int)
    requires
        m.in_bounds(x, y),
        neighbor_count(m, x, y) == 3,
    ensures
        next_generation(m).live.contains((x, y)),
{
}

/// A grid with every cell dead stays all dead.
pub proof fn lemma_dead_grid_stable(width: nat, height: nat)
    ensures
        next_generation(GridModel::dead(width, height)) == GridModel::dead(width, height),
{
    assert(next_generation(GridModel::dead(width, height)).live =~= Set::empty());
    assert(next_generation(GridModel::dead(width, height)) =~= GridModel::dead(width, height));
}

/// The 2x2 block with top-left cell `(x, y)`.
pub open spec fn block(x: int, y: int) -> Set<(int, int)> {
    set![(x, y), (x + 1, y), (x, y + 1), (x + 1, y + 1)]
}

/// A 2x2 block of live cells with every other cell dead is a still life.
pub proof fn lemma_block_still_life(width: nat, height: nat, x: int, y: int)
    requires
        0 <= x,
        0 <= y,
        x + 1 < width,
        y + 1 < height,
    ensures
        next_generation(GridModel { width, height, live: block(x, y) }) == (GridModel {
            width,
            height,
            live: block(x, y),
        }),
{
    let m = GridModel { width, height, live: block(x, y) };
    assert forall|p: (int, int)| #[trigger] next_generation(m).live.contains(p) == m.live.contains(p) by {
        if m.in_bounds(p.0, p.1) {
            if m.live.contains(p) {
                assert(neighbor_count(m, p.0, p.1) == 3);
            } else {
                assert(neighbor_count(m, p.0, p.1) <= 2);
            }
        }
    }
    assert(next_generation(m) =~= m);
}

/// The corner `(0, 0)` counts only its three in-bounds neighbours, never a
/// cell on the opposite edge; with those three alive its count is 3.
pub proof fn lemma_corner_neighbors(m: GridModel)
    ensures
        neighbor_count(m, 0, 0) == live_value(m, 1, 0) + live_value(m, 0, 1) + live_value(m, 1, 1),
        m.is_live(1, 0) && m.is_live(0, 1) && m.is_live(1, 1) ==> neighbor_count(m, 0, 0) == 3,
{
}

/// The rule for one cell, from its current state and its live neighbours.
pub fn next_cell_state(alive: bool, neighbors: u8) -> (r: bool)
    ensures
        r == next_state(alive, neighbors as int),
{
    if (alive && neighbors < 2) || (alive && neighbors > 3) {
        false
    } else if (alive && (neighbors == 2 || neighbors == 3)) || (!alive && neighbors == 3) {
        true
    } else {
        false
    }
}

/// Number of live cells around `(x, y)`; positions off the grid are skipped.
pub fn count_live_neighbors(grid: &Grid, x: usize, y: usize) -> (r: u8)
    requires
        x < grid@.width,
        y < grid@.height,
    ensures
        r == neighbor_count(grid@, x as int, y as int),
{
    let last_x = grid.width() - 1;
    let last_y = grid.height() - 1;
    let mut neighbors: u8 = 0;
    if y != 0 && grid.get(x, y - 1) {
        neighbors += 1;
    }
    if y != last_y && grid.get(x, y + 1) {
        neighbors += 1;
    }
    if x != 0 && grid.get(x - 1, y) {
        neighbors += 1;
    }
    if x != last_x && grid.get(x + 1, y) {
        neighbors += 1;
    }
    if x != 0 && y != 0 && grid.get(x - 1, y - 1) {
        neighbors += 1;
    }
    if x != last_x && y != last_y && grid.get(x + 1, y + 1) {
        neighbors += 1;
    }
    if x != 0 && y != last_y && grid.get(x - 1, y + 1) {
        neighbors += 1;
    }
    if x != last_x && y != 0 && grid.get(x + 1, y - 1) {
        neighbors += 1;
    }
    neighbors
}

/// The next generation of `grid`, written to a fresh grid of the same size;
/// `grid` itself is only read.
pub fn step(grid: &Grid) -> (r: Grid)
    ensures
        r@ == next_generation(grid@),
{
    let ghost m = grid@;
    let width = grid.width();
    let height = grid.height();
    // The input's cells fit in one buffer, so a fresh grid of its size does too.
    let _cells: usize = grid.cell_count();
    let mut next = Grid::new(width, height);
    let mut x: usize = 0;
    while x < width
        invariant
            x <= width,
            m == grid@,
            width == m.width,
            height == m.height,
            next@.width == width,
            next@.height == height,
            forall|p: (int, int)| #[trigger]
                next@.live.contains(p) <==> m.in_bounds(p.0, p.1) && p.0 < x
                    && next_state(m.is_live(p.0, p.1), neighbor_count(m, p.0, p.1)),
        decreases width - x,
    {
        let mut y: usize = 0;
        while y < height
            invariant
                x < width,
                y <= height,
                m == grid@,
                width == m.width,
                height == m.height,
                next@.width == width,
                next@.height == height,
                forall|p: (int, int)| #[trigger]
                    next@.live.contains(p) <==> m.in_bounds(p.0, p.1) && (p.0 < x || (p.0 == x
                        && p.1 < y)) && next_state(m.is_live(p.0, p.1), neighbor_count(m, p.0, p.1)),
            decreases height - y,
        {
            let neighbors = count_live_neighbors(grid, x, y);
            let alive = grid.get(x, y);
            next.set(x, y, next_cell_state(alive, neighbors));
            y = y + 1;
        }
        x = x + 1;
    }
    assert(next@.live =~= next_generation(m).live);
    assert(next@ =~= next_generation(m));
    next
}

} // verus!
