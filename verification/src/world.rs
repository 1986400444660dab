//! The grid engine: a bounded world of cells that advances one generation
//! at a time.

use vstd::prelude::*;
use crate::random::draw_below;
use crate::render::{rendered, rendered_rows, row_glyphs, ROW_END};
use crate::rules::{
    alive_at, lemma_step_keeps_shape, live_neighbours, lives_on, next_state, one_if, rectangular,
    step, Grid,
};
use crate::vector::Vector;
use rand::rngs::StdRng;

verus! {

/// The chance that stands for certainty: a life chance is counted in
/// millionths.
pub const CHANCE_SCALE: u32 = 1_000_000;

/// Why a world could not be made.
#[derive(Clone, Copy, Debug, PartialEq, Eq, Structural)]
pub enum WorldError {
    /// The width or the height asked for is not positive.
    InvalidDimensions,
}

/// One cell of a world: whether it is alive, and where it sits.
#[derive(Clone, Copy, Debug, PartialEq, Eq, Structural)]
pub struct Cell {
    pub alive: bool,
    pub coordinate: Vector,
}

/// A bounded grid of cells with its generation counter.
#[derive(Debug)]
pub struct World {
    frames: u64,
    size: Vector,
    cells: Vec<Vec<Cell>>,
    changed: bool,
}

/// What a world is, mathematically.
pub struct WorldView {
    /// Number of columns.
    pub width: int,
    /// Number of rows.
    pub height: int,
    /// Liveness of each cell, `cells[x][y]`.
    pub cells: Grid,
    /// Generations computed since construction.
    pub frames: nat,
    /// Whether the latest generation differs from the one before it.
    pub changed: bool,
}

impl WorldView {
    /// Both dimensions are positive and every position holds one cell.
    pub open spec fn valid(self) -> bool {
        &&& 0 < self.width <= i32::MAX
        &&& 0 < self.height <= i32::MAX
        &&& rectangular(self.cells, self.width, self.height)
    }

    /// The world one generation later.
    pub open spec fn tick(self) -> WorldView {
        WorldView {
            width: self.width,
            height: self.height,
            cells: step(self.cells),
            frames: self.frames + 1,
            changed: step(self.cells) != self.cells,
        }
    }

    /// The world `k` generations later.
    pub open spec fn after(self, k: nat) -> WorldView
        decreases k,
    {
        if k == 0 {
            self
        } else {
            self.after((k - 1) as nat).tick()
        }
    }
}

impl View for World {
    type V = WorldView;

    closed spec fn view(&self) -> WorldView {
        WorldView {
            width: self.size.x as int,
            height: self.size.y as int,
            cells: Seq::new(
                self.cells@.len(),
                |x: int| Seq::new(self.cells@[x]@.len(), |y: int| self.cells@[x]@[y].alive),
            ),
            frames: self.frames as nat,
            changed: self.changed,
        }
    }
}

/// Live neighbours of `(x, y)` among the first `upto` of the nine offsets,
/// taken column by column; the fifth offset is the cell itself and counts
/// nothing.
spec fn counted_before(g: Grid, x: int, y: int, upto: int) -> nat {
    (if 0 < upto { one_if(alive_at(g, x - 1, y - 1)) } else { 0 })
    + (if 1 < upto { one_if(alive_at(g, x - 1, y)) } else { 0 })
    + (if 2 < upto { one_if(alive_at(g, x - 1, y + 1)) } else { 0 })
    + (if 3 < upto { one_if(alive_at(g, x, y - 1)) } else { 0 })
    + (if 5 < upto { one_if(alive_at(g, x, y + 1)) } else { 0 })
    + (if 6 < upto { one_if(alive_at(g, x + 1, y - 1)) } else { 0 })
    + (if 7 < upto { one_if(alive_at(g, x + 1, y)) } else { 0 })
    + (if 8 < upto { one_if(alive_at(g, x + 1, y + 1)) } else { 0 })
}

/// Whether one of the first `n` listed positions is `(x, y)`.
spec fn marked(live: Seq<Vector>, n: int, x: int, y: int) -> bool {
    exists|k: int| 0 <= k < n && (#[trigger] live[k]).x == x && live[k].y == y
}

/// One more listed position marks itself and nothing else.
proof fn lemma_marked_next(live: Seq<Vector>, n: int, x: int, y: int)
    requires
        0 <= n < live.len(),
    ensures
        marked(live, n + 1, x, y) <==> marked(live, n, x, y) || (live[n].x == x && live[n].y == y),
{
}

/// A position is marked by the whole list exactly when the list contains it.
proof fn lemma_marked_is_contained(live: Seq<Vector>, position: Vector)
    ensures
        marked(live, live.len() as int, position.x as int, position.y as int) <==> live.contains(
            position,
        ),
{
}

/// Whether one of the first `n` recorded changes is for position `(x, y)`.
spec fn listed(changes: Seq<(usize, usize, bool)>, n: int, x: int, y: int) -> bool {
    exists|k: int| 0 <= k < n && (#[trigger] changes[k]).0 == x && changes[k].1 == y
}

/// One more recorded change lists its own position and nothing else.
proof fn lemma_listed_next(changes: Seq<(usize, usize, bool)>, n: int, x: int, y: int)
    requires
        0 <= n < changes.len(),
    ensures
        listed(changes, n + 1, x, y) <==> listed(changes, n, x, y) || (changes[n].0 == x
            && changes[n].1 == y),
{
}

/// Recording one more change keeps what was listed before.
proof fn lemma_listed_survives_push(
    changes: Seq<(usize, usize, bool)>,
    change: (usize, usize, bool),
    x: int,
    y: int,
)
    requires
        listed(changes, changes.len() as int, x, y),
    ensures
        listed(changes.push(change), changes.len() as int + 1, x, y),
{
    let k = choose|k: int|
        0 <= k < changes.len() && (#[trigger] changes[k]).0 == x && changes[k].1 == y;
    assert(changes.push(change)[k] == changes[k]);
}

/// Every recorded change names a cell of the grid whose next state differs
/// from its present one, together with that next state.
spec fn faithful(changes: Seq<(usize, usize, bool)>, g: Grid, width: int, height: int) -> bool {
    forall|k: int|
        0 <= k < changes.len() ==> {
            let change = #[trigger] changes[k];
            &&& change.0 < width
            &&& change.1 < height
            &&& change.2 == next_state(g, change.0 as int, change.1 as int)
            &&& change.2 != g[change.0 as int][change.1 as int]
        }
}

/// Every cell of the first `columns` columns, and of the first `rows` rows
/// of the column after them, that is about to change has been recorded.
spec fn complete(
    changes: Seq<(usize, usize, bool)>,
    g: Grid,
    height: int,
    columns: int,
    rows: int,
) -> bool {
    forall|i: int, j: int|
        0 <= i <= columns && 0 <= j < height && (i < columns || j < rows) && #[trigger] next_state(
            g,
            i,
            j,
        ) != g[i][j] ==> listed(changes, changes.len() as int, i, j)
}

/// The cells hold the next state wherever one of the first `n` recorded
/// changes has been written, and their old state everywhere else.
spec fn written(
    cells: Seq<Vec<Cell>>,
    changes: Seq<(usize, usize, bool)>,
    n: int,
    g: Grid,
    width: int,
    height: int,
) -> bool {
    forall|i: int, j: int|
        0 <= i < width && 0 <= j < height ==> (#[trigger] cells[i]@[j]).alive == (if listed(
            changes,
            n,
            i,
            j,
        ) {
            next_state(g, i, j)
        } else {
            g[i][j]
        })
}

impl Cell {
    /// The cell at `coordinate` that a draw from `0..CHANCE_SCALE` brings to
    /// life when it falls below `life_chance`.
    pub fn from_draw(coordinate: Vector, draw: u32, life_chance: u32) -> (cell: Cell)
        ensures
            cell.coordinate == coordinate,
            cell.alive == (draw < life_chance),
    {
        Cell { coordinate, alive: draw < life_chance }
    }

    /// Whether this cell is alive in the generation after `world`: counts the
    /// live cells of `world` around the cell's coordinate, leaving out every
    /// position beyond the edges, and applies the rule to the cell's own
    /// liveness.
    pub fn determine_next_state(&self, world: &World) -> (alive: bool)
        requires
            world.wf(),
        ensures
            alive == lives_on(
                self.alive,
                live_neighbours(world@.cells, self.coordinate.x as int, self.coordinate.y as int),
            ),
    {
        let ghost g = world@.cells;
        let ghost cx = self.coordinate.x as int;
        let ghost cy = self.coordinate.y as int;
        let origin = Vector { x: 0, y: 0 };
        let mut living_neighbours: u8 = 0;

        for x in -1i32..2
            invariant
                world.wf(),
                g == world@.cells,
                cx == self.coordinate.x,
                cy == self.coordinate.y,
                origin == (Vector { x: 0, y: 0 }),
                living_neighbours == counted_before(g, cx, cy, (x + 1) * 3),
        {
            for y in -1i32..2
                invariant
                    -1 <= x <= 1,
                    world.wf(),
                    g == world@.cells,
                    cx == self.coordinate.x,
                    cy == self.coordinate.y,
                    origin == (Vector { x: 0, y: 0 }),
                    living_neighbours == counted_before(g, cx, cy, (x + 1) * 3 + (y + 1)),
            {
                if x != 0 || y != 0 {
                    // A neighbour whose coordinate does not fit the integer
                    // type lies beyond every grid.
                    match (self.coordinate.x.checked_add(x), self.coordinate.y.checked_add(y)) {
                        (Some(lookup_x), Some(lookup_y)) => {
                            let lookup_coordinate = Vector { x: lookup_x, y: lookup_y };
                            if !lookup_coordinate.out_of_bounds(&origin, &world.size)
                                && world.cells[lookup_x as usize][lookup_y as usize].alive {
                                living_neighbours += 1;
                            }
                        },
                        _ => {},
                    }
                }
            }
        }

        match (self.alive, living_neighbours) {
            (true, 2) | (true, 3) | (false, 3) => true,
            _ => false,
        }
    }
}

impl World {
    /// The representation agrees with itself: positive dimensions, one cell
    /// per position, each cell knowing its own coordinate.
    pub closed spec fn wf(&self) -> bool {
        &&& self.size.x > 0
        &&& self.size.y > 0
        &&& self.cells@.len() == self.size.x
        &&& forall|x: int|
            0 <= x < self.size.x ==> (#[trigger] self.cells@[x])@.len() == self.size.y
        &&& forall|x: int, y: int|
            0 <= x < self.size.x && 0 <= y < self.size.y ==> (#[trigger] self.cells@[x]@[y])
                .coordinate == (Vector { x: x as i32, y: y as i32 })
    }

    /// A well-formed world is a valid grid.
    pub proof fn lemma_view_valid(&self)
        requires
            self.wf(),
        ensures
            self@.valid(),
    {
    }

    /// Makes a world of the given size in which each cell is alive with
    /// probability `life_chance` millionths, drawn independently from `rng`.
    /// A chance of zero leaves every cell dead; a chance of `CHANCE_SCALE` or
    /// more brings every cell to life. A size that is not positive in both
    /// axes is refused, and nothing is drawn.
    pub fn new(size: &Vector, life_chance: u32, rng: &mut StdRng) -> (made: Result<
        World,
        WorldError,
    >)
        ensures
            match made {
                Ok(world) => {
                    &&& size.x > 0 && size.y > 0
                    &&& world.wf()
                    &&& world@.valid()
                    &&& world@.width == size.x
                    &&& world@.height == size.y
                    &&& world@.frames == 0
                    &&& !world@.changed
                    &&& life_chance == 0 ==> forall|x: int, y: int|
                        0 <= x < size.x && 0 <= y < size.y ==> !(#[trigger] world@.cells[x][y])
                    &&& life_chance >= CHANCE_SCALE ==> forall|x: int, y: int|
                        0 <= x < size.x && 0 <= y < size.y ==> #[trigger] world@.cells[x][y]
                },
                Err(error) => {
                    &&& error == WorldError::InvalidDimensions
                    &&& size.x <= 0 || size.y <= 0
                },
            },
    {
        if size.x <= 0 || size.y <= 0 {
            return Err(WorldError::InvalidDimensions);
        }
        let mut cells: Vec<Vec<Cell>> = Vec::new();

        for x in 0..size.x
            invariant
                size.y > 0,
                cells@.len() == x,
                forall|i: int| 0 <= i < x ==> (#[trigger] cells@[i])@.len() == size.y,
                forall|i: int, j: int|
                    0 <= i < x && 0 <= j < size.y ==> {
                        let cell = #[trigger] cells@[i]@[j];
                        &&& cell.coordinate == (Vector { x: i as i32, y: j as i32 })
                        &&& life_chance == 0 ==> !cell.alive
                        &&& life_chance >= CHANCE_SCALE ==> cell.alive
                    },
        {
            let mut row: Vec<Cell> = Vec::new();

            for y in 0..size.y
                invariant
                    row@.len() == y,
                    forall|j: int|
                        0 <= j < y ==> {
                            let cell = #[trigger] row@[j];
                            &&& cell.coordinate == (Vector { x: x, y: j as i32 })
                            &&& life_chance == 0 ==> !cell.alive
                            &&& life_chance >= CHANCE_SCALE ==> cell.alive
                        },
            {
                let draw = draw_below(rng, CHANCE_SCALE);
                row.push(Cell::from_draw(Vector { x, y }, draw, life_chance));
            }

            cells.push(row);
        }

        Ok(World { frames: 0, cells, size: Vector { x: size.x, y: size.y }, changed: false })
    }

    /// Makes a world of the given size in which exactly the positions listed
    /// in `live` hold a live cell. A listed position outside the grid names no
    /// cell and is passed over. A size that is not positive in both axes is
    /// refused.
    pub fn with_live_cells(size: &Vector, live: &Vec<Vector>) -> (made: Result<World, WorldError>)
        ensures
            match made {
                Ok(world) => {
                    &&& size.x > 0 && size.y > 0
                    &&& world.wf()
                    &&& world@.valid()
                    &&& world@.width == size.x
                    &&& world@.height == size.y
                    &&& world@.frames == 0
                    &&& !world@.changed
                    &&& forall|x: int, y: int|
                        0 <= x < size.x && 0 <= y < size.y ==> #[trigger] world@.cells[x][y]
                            == live@.contains(Vector { x: x as i32, y: y as i32 })
                },
                Err(error) => {
                    &&& error == WorldError::InvalidDimensions
                    &&& size.x <= 0 || size.y <= 0
                },
            },
    {
        if size.x <= 0 || size.y <= 0 {
            return Err(WorldError::InvalidDimensions);
        }
        let origin = Vector { x: 0, y: 0 };
        let mut cells: Vec<Vec<Cell>> = Vec::new();

        for x in 0..size.x
            invariant
                size.y > 0,
                cells@.len() == x,
                forall|i: int| 0 <= i < x ==> (#[trigger] cells@[i])@.len() == size.y,
                forall|i: int, j: int|
                    0 <= i < x && 0 <= j < size.y ==> #[trigger] cells@[i]@[j] == (Cell {
                        coordinate: Vector { x: i as i32, y: j as i32 },
                        alive: false,
                    }),
        {
            let mut row: Vec<Cell> = Vec::new();

            for y in 0..size.y
                invariant
                    row@.len() == y,
                    forall|j: int|
                        0 <= j < y ==> #[trigger] row@[j] == (Cell {
                            coordinate: Vector { x: x, y: j as i32 },
                            alive: false,
                        }),
            {
                row.push(Cell { coordinate: Vector { x, y }, alive: false });
            }

            cells.push(row);
        }

        for k in 0..live.len()
            invariant
                size.x > 0,
                size.y > 0,
                origin == (Vector { x: 0, y: 0 }),
                cells@.len() == size.x,
                forall|i: int| 0 <= i < size.x ==> (#[trigger] cells@[i])@.len() == size.y,
                forall|i: int, j: int|
                    0 <= i < size.x && 0 <= j < size.y ==> {
                        let cell = #[trigger] cells@[i]@[j];
                        &&& cell.coordinate == (Vector { x: i as i32, y: j as i32 })
                        &&& cell.alive == marked(live@, k as int, i, j)
                    },
        {
            let position = live[k];
            if !position.out_of_bounds(&origin, size) {
                cells[position.x as usize][position.y as usize].alive = true;
            }
            assert forall|i: int, j: int| 0 <= i < size.x && 0 <= j < size.y implies {
                let cell = #[trigger] cells@[i]@[j];
                &&& cell.coordinate == (Vector { x: i as i32, y: j as i32 })
                &&& cell.alive == marked(live@, k + 1, i, j)
            } by {
                lemma_marked_next(live@, k as int, i, j);
            }
        }

        let world = World {
            frames: 0,
            cells,
            size: Vector { x: size.x, y: size.y },
            changed: false,
        };
        assert forall|x: int, y: int| 0 <= x < size.x && 0 <= y < size.y implies #[trigger] world@
            .cells[x][y] == live@.contains(Vector { x: x as i32, y: y as i32 }) by {
            lemma_marked_is_contained(live@, Vector { x: x as i32, y: y as i32 });
        }
        Ok(world)
    }

    /// The width and the height of the world.
    pub fn size(&self) -> (size: Vector)
        ensures
            size.x == self@.width,
            size.y == self@.height,
    {
        Vector { x: self.size.x, y: self.size.y }
    }

    /// How many generations have been computed since the world was made.
    pub fn frames(&self) -> (frames: u64)
        ensures
            frames == self@.frames,
    {
        self.frames
    }

    /// Whether the latest generation differed from the one before it; false
    /// while no generation has been computed.
    pub fn changed(&self) -> (changed: bool)
        ensures
            changed == self@.changed,
    {
        self.changed
    }

    /// Whether `position` holds a live cell. A position outside the world
    /// holds none.
    pub fn is_alive(&self, position: &Vector) -> (alive: bool)
        requires
            self.wf(),
        ensures
            alive == alive_at(self@.cells, position.x as int, position.y as int),
    {
        let origin = Vector { x: 0, y: 0 };
        !position.out_of_bounds(&origin, &self.size)
            && self.cells[position.x as usize][position.y as usize].alive
    }

    /// Advances the world by one generation and says whether any cell
    /// changed. Every next state is computed from the world as it stands on
    /// entry and recorded; only then are the recorded changes written back,
    /// so no cell ever sees a neighbour's new state. The generation counter
    /// must have room for one more.
    pub fn tick(&mut self) -> (changed: bool)
        requires
            old(self).wf(),
            old(self)@.frames < u64::MAX,
        ensures
            final(self).wf(),
            final(self)@ == old(self)@.tick(),
            changed == final(self)@.changed,
    {
        let ghost g = self@.cells;
        let ghost width = self.size.x as int;
        let ghost height = self.size.y as int;
        let mut new_states: Vec<(usize, usize, bool)> = Vec::new();

        for x in 0..self.size.x
            invariant
                self.wf(),
                *self == *old(self),
                g == self@.cells,
                width == self.size.x,
                height == self.size.y,
                faithful(new_states@, g, width, height),
                complete(new_states@, g, height, x as int, 0),
        {
            for y in 0..self.size.y
                invariant
                    0 <= x < width,
                    self.wf(),
                    *self == *old(self),
                    g == self@.cells,
                    width == self.size.x,
                    height == self.size.y,
                    faithful(new_states@, g, width, height),
                    complete(new_states@, g, height, x as int, y as int),
            {
                let cell = &self.cells[x as usize][y as usize];
                let next_state = cell.determine_next_state(self);

                if next_state != cell.alive {
                    let ghost recorded = new_states@;
                    let change = (x as usize, y as usize, next_state);
                    new_states.push(change);
                    assert forall|i: int, j: int|
                        listed(recorded, recorded.len() as int, i, j) implies listed(
                        new_states@,
                        new_states@.len() as int,
                        i,
                        j,
                    ) by {
                        lemma_listed_survives_push(recorded, change, i, j);
                    }
                    assert(new_states@[recorded.len() as int] == change);
                }
            }
        }

        let did_change = new_states.len() > 0;

        for k in 0..new_states.len()
            invariant
                self.wf(),
                self.size == old(self).size,
                self.frames == old(self).frames,
                width == self.size.x,
                height == self.size.y,
                rectangular(g, width, height),
                faithful(new_states@, g, width, height),
                complete(new_states@, g, height, width, 0),
                written(self.cells@, new_states@, k as int, g, width, height),
        {
            let (x, y, state) = new_states[k];
            self.cells[x][y].alive = state;
            assert forall|i: int, j: int| 0 <= i < width && 0 <= j < height implies (
            #[trigger] self.cells@[i]@[j]).alive == (if listed(new_states@, k + 1, i, j) {
                next_state(g, i, j)
            } else {
                g[i][j]
            }) by {
                lemma_listed_next(new_states@, k as int, i, j);
            }
        }

        self.frames += 1;
        self.changed = did_change;

        proof {
            assert(self@.cells =~~= step(g));
            if did_change {
                let first = new_states@[0];
                assert(step(g)[first.0 as int][first.1 as int] == first.2);
            } else {
                assert(step(g) =~~= g);
            }
        }
        did_change
    }

    /// The world as text: one line per row from the top, one glyph per cell
    /// from the left, every line closed by a line feed.
    pub fn draw_world(&self) -> (text: String)
        requires
            self.wf(),
        ensures
            text@ == rendered(self@.cells, self@.width, self@.height),
    {
        let ghost g = self@.cells;
        let ghost width = self.size.x as int;
        let mut result = String::new();

        for y in 0..self.size.y
            invariant
                self.wf(),
                g == self@.cells,
                width == self.size.x,
                result@ == rendered_rows(g, width, y as int),
        {
            let ghost above = result@;

            for x in 0..self.size.x
                invariant
                    0 <= y < self.size.y,
                    self.wf(),
                    g == self@.cells,
                    width == self.size.x,
                    result@ == above + row_glyphs(g, x as int, y as int),
            {
                proof {
                    reveal_strlit("#");
                    reveal_strlit(" ");
                }
                result.append(if self.cells[x as usize][y as usize].alive { "#" } else { " " });
            }
            proof {
                reveal_strlit("\n");
            }
            result.append("\n");
        }

        result
    }
}

/// Determinism: equal cells make equal futures. The next generation and the
/// report of change are decided by the cells as they stand, not by the
/// counter nor by the previous report.
pub proof fn lemma_tick_is_deterministic(a: WorldView, b: WorldView)
    requires
        a.cells == b.cells,
    ensures
        a.tick().cells == b.tick().cells,
        a.tick().changed == b.tick().changed,
{
}

/// One generation keeps a valid world valid, with the same dimensions.
pub proof fn lemma_tick_keeps_dimensions(v: WorldView)
    requires
        v.valid(),
    ensures
        v.tick().valid(),
        v.tick().width == v.width,
        v.tick().height == v.height,
{
    lemma_step_keeps_shape(v.cells, v.width, v.height);
}

/// Conservation of dimensions: however many generations pass, the width and
/// the height stay what they were.
pub proof fn lemma_dimensions_are_conserved(v: WorldView, k: nat)
    requires
        v.valid(),
    ensures
        v.after(k).valid(),
        v.after(k).width == v.width,
        v.after(k).height == v.height,
    decreases k,
{
    if k > 0 {
        lemma_dimensions_are_conserved(v, (k - 1) as nat);
        lemma_tick_keeps_dimensions(v.after((k - 1) as nat));
    }
}

/// The counter counts generations: after `k` of them it has grown by `k`.
pub proof fn lemma_frames_count_generations(v: WorldView, k: nat)
    ensures
        v.after(k).frames == v.frames + k,
    decreases k,
{
    if k > 0 {
        lemma_frames_count_generations(v, (k - 1) as nat);
    }
}

/// A still life is quiescent: where the rule maps the cells to themselves, a
/// generation reports no change and leaves the cells as they were.
pub proof fn lemma_still_life_is_quiescent(v: WorldView)
    requires
        step(v.cells) == v.cells,
    ensures
        !v.tick().changed,
        v.tick().cells == v.cells,
{
}

/// A generation reports a change exactly when the liveness of some cell
/// differs from what it was.
pub proof fn lemma_changed_means_some_cell_differs(v: WorldView)
    requires
        v.valid(),
    ensures
        v.tick().changed <==> exists|x: int, y: int|
            0 <= x < v.width && 0 <= y < v.height && #[trigger] next_state(v.cells, x, y)
                != v.cells[x][y],
{
    lemma_step_keeps_shape(v.cells, v.width, v.height);
    if !v.tick().changed {
        assert forall|x: int, y: int| 0 <= x < v.width && 0 <= y < v.height implies
            #[trigger] next_state(v.cells, x, y) == v.cells[x][y] by {
            assert(step(v.cells)[x][y] == next_state(v.cells, x, y));
        }
    } else if forall|x: int, y: int|
        0 <= x < v.width && 0 <= y < v.height ==> #[trigger] next_state(v.cells, x, y)
            == v.cells[x][y] {
        assert(step(v.cells) =~~= v.cells);
    }
}

} // verus!
