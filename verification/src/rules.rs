//! The rule of Life, stated over a mathematical grid.
//!
//! Nothing here is executable: these functions say what the engine must
//! compute, and the engine's contracts are written in their terms.

use vstd::prelude::*;

verus! {

/// Liveness of every cell, by column and then by row: `g[x][y]`.
pub type Grid = Seq<Seq<bool>>;

/// The grid has `width` columns of `height` cells each.
pub open spec fn rectangular(g: Grid, width: int, height: int) -> bool {
    &&& g.len() == width
    &&& forall|x: int| 0 <= x < width ==> (#[trigger] g[x]).len() == height
}

/// Whether `(x, y)` is a live cell of the grid. A position outside the grid
/// holds no cell, so it is never alive: the grid has hard edges.
pub open spec fn alive_at(g: Grid, x: int, y: int) -> bool {
    0 <= x < g.len() && 0 <= y < g[x].len() && g[x][y]
}

/// One for a true condition, zero for a false one.
pub open spec fn one_if(condition: bool) -> nat {
    if condition {
        1
    } else {
        0
    }
}

/// How many of the eight positions around `(x, y)` hold a live cell.
pub open spec fn live_neighbours(g: Grid, x: int, y: int) -> nat {
    one_if(alive_at(g, x - 1, y - 1)) + one_if(alive_at(g, x - 1, y)) + one_if(
        alive_at(g, x - 1, y + 1),
    ) + one_if(alive_at(g, x, y - 1)) + one_if(alive_at(g, x, y + 1)) + one_if(
        alive_at(g, x + 1, y - 1),
    ) + one_if(alive_at(g, x + 1, y)) + one_if(alive_at(g, x + 1, y + 1))
}

/// The transition rule: a cell with three live neighbours is alive in the
/// next generation, a live cell with two stays alive, every other cell is dead.
pub open spec fn lives_on(alive: bool, neighbours: nat) -> bool {
    neighbours == 3 || (alive && neighbours == 2)
}

/// Liveness of `(x, y)` one generation after `g`.
pub open spec fn next_state(g: Grid, x: int, y: int) -> bool {
    lives_on(alive_at(g, x, y), live_neighbours(g, x, y))
}

/// The generation that follows `g`: every cell moves by the rule at once,
/// each reading only `g`.
pub open spec fn step(g: Grid) -> Grid {
    Seq::new(g.len(), |x: int| Seq::new(g[x].len(), |y: int| next_state(g, x, y)))
}

/// The next generation keeps the shape of the grid.
pub proof fn lemma_step_keeps_shape(g: Grid, width: int, height: int)
    requires
        rectangular(g, width, height),
    ensures
        rectangular(step(g), width, height),
        forall|x: int, y: int|
            0 <= x < width && 0 <= y < height ==> #[trigger] step(g)[x][y] == next_state(g, x, y),
{
}

/// The next state of a cell is decided by the present generation alone, and
/// within it by the cell and the eight positions around it: two grids that
/// agree there give the cell the same next state, whatever else they hold.
pub proof fn lemma_next_state_is_local(a: Grid, b: Grid, x: int, y: int)
    requires
        forall|i: int, j: int|
            x - 1 <= i <= x + 1 && y - 1 <= j <= y + 1 ==> alive_at(a, i, j) == alive_at(b, i, j),
    ensures
        live_neighbours(a, x, y) == live_neighbours(b, x, y),
        next_state(a, x, y) == next_state(b, x, y),
{
}

/// Underpopulation and overcrowding: a cell with fewer than two live
/// neighbours, or with more than three, is dead in the next generation.
pub proof fn lemma_lonely_or_crowded_cell_dies(g: Grid, width: int, height: int, x: int, y: int)
    requires
        rectangular(g, width, height),
        0 <= x < width,
        0 <= y < height,
        live_neighbours(g, x, y) < 2 || live_neighbours(g, x, y) > 3,
    ensures
        !step(g)[x][y],
{
}

/// Survival: a live cell with two or three live neighbours stays alive.
pub proof fn lemma_live_cell_survives(g: Grid, width: int, height: int, x: int, y: int)
    requires
        rectangular(g, width, height),
        0 <= x < width,
        0 <= y < height,
        g[x][y],
        live_neighbours(g, x, y) == 2 || live_neighbours(g, x, y) == 3,
    ensures
        step(g)[x][y],
{
}

/// Birth: a dead cell comes to life exactly when three of its neighbours are
/// alive; with any other count, two and four among them, it stays dead.
pub proof fn lemma_dead_cell_is_born_with_three(g: Grid, width: int, height: int, x: int, y: int)
    requires
        rectangular(g, width, height),
        0 <= x < width,
        0 <= y < height,
        !g[x][y],
    ensures
        step(g)[x][y] <==> live_neighbours(g, x, y) == 3,
{
}

/// Hard edges: the corner cell `(0, 0)` counts only the three positions
/// beside it that lie on the grid. No cell of the opposite edges enters the
/// count, so it never exceeds three.
pub proof fn lemma_corner_counts_inside_only(g: Grid, width: int, height: int)
    requires
        rectangular(g, width, height),
    ensures
        live_neighbours(g, 0, 0) == one_if(alive_at(g, 1, 0)) + one_if(alive_at(g, 0, 1)) + one_if(
            alive_at(g, 1, 1),
        ),
        live_neighbours(g, 0, 0) <= 3,
{
}

/// Hard edges, in general: a position off the grid is never counted as a
/// live neighbour, whichever cell is asking.
pub proof fn lemma_nothing_lives_off_grid(g: Grid, width: int, height: int, x: int, y: int)
    requires
        rectangular(g, width, height),
        x < 0 || y < 0 || x >= width || y >= height,
    ensures
        !alive_at(g, x, y),
{
}

} // verus!
