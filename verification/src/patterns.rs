//! Two classic patterns and what the rule does to them.

use vstd::prelude::*;
use crate::rules::{alive_at, next_state, rectangular, step, Grid};

verus! {

/// The only live cells are the two-by-two block whose lowest corner is
/// `(bx, by)`.
pub open spec fn is_block(g: Grid, width: int, height: int, bx: int, by: int) -> bool {
    forall|x: int, y: int|
        0 <= x < width && 0 <= y < height ==> #[trigger] g[x][y] == (bx <= x <= bx + 1 && by <= y
            <= by + 1)
}

/// The only live cells are the three in row `cy` centred on column `cx`.
pub open spec fn is_row_of_three(g: Grid, width: int, height: int, cx: int, cy: int) -> bool {
    forall|x: int, y: int|
        0 <= x < width && 0 <= y < height ==> #[trigger] g[x][y] == (y == cy && cx - 1 <= x <= cx
            + 1)
}

/// The only live cells are the three in column `cx` centred on row `cy`.
pub open spec fn is_column_of_three(g: Grid, width: int, height: int, cx: int, cy: int) -> bool {
    forall|x: int, y: int|
        0 <= x < width && 0 <= y < height ==> #[trigger] g[x][y] == (x == cx && cy - 1 <= y <= cy
            + 1)
}

/// A lone block is a still life: wherever it sits on the grid, the next
/// generation is the same grid.
pub proof fn lemma_block_is_still_life(g: Grid, width: int, height: int, bx: int, by: int)
    requires
        rectangular(g, width, height),
        0 <= bx,
        bx + 1 < width,
        0 <= by,
        by + 1 < height,
        is_block(g, width, height, bx, by),
    ensures
        step(g) == g,
{
    assert forall|x: int, y: int| 0 <= x < width && 0 <= y < height implies next_state(g, x, y)
        == g[x][y] by {
        assert forall|i: int, j: int| x - 1 <= i <= x + 1 && y - 1 <= j <= y + 1 implies alive_at(
            g,
            i,
            j,
        ) == (bx <= i <= bx + 1 && by <= j <= by + 1) by {
            if 0 <= i < width && 0 <= j < height {
                assert(g[i][j] == (bx <= i <= bx + 1 && by <= j <= by + 1));
            }
        }
    }
    assert(step(g) =~~= g);
}

/// A blinker turns: a lone row of three becomes the column of three through
/// the same centre, and the grid has changed.
pub proof fn lemma_row_of_three_turns(g: Grid, width: int, height: int, cx: int, cy: int)
    requires
        rectangular(g, width, height),
        1 <= cx < width - 1,
        1 <= cy < height - 1,
        is_row_of_three(g, width, height, cx, cy),
    ensures
        is_column_of_three(step(g), width, height, cx, cy),
        step(g) != g,
{
    assert forall|x: int, y: int| 0 <= x < width && 0 <= y < height implies #[trigger] step(g)[x][y]
        == (x == cx && cy - 1 <= y <= cy + 1) by {
        assert forall|i: int, j: int| x - 1 <= i <= x + 1 && y - 1 <= j <= y + 1 implies alive_at(
            g,
            i,
            j,
        ) == (0 <= i < width && 0 <= j < height && j == cy && cx - 1 <= i <= cx + 1) by {
            if 0 <= i < width && 0 <= j < height {
                assert(g[i][j] == (j == cy && cx - 1 <= i <= cx + 1));
            }
        }
    }
    assert(g[cx - 1][cy] && !step(g)[cx - 1][cy]);
}

/// A blinker turns back: a lone column of three becomes the row of three
/// through the same centre, and the grid has changed.
pub proof fn lemma_column_of_three_turns(g: Grid, width: int, height: int, cx: int, cy: int)
    requires
        rectangular(g, width, height),
        1 <= cx < width - 1,
        1 <= cy < height - 1,
        is_column_of_three(g, width, height, cx, cy),
    ensures
        is_row_of_three(step(g), width, height, cx, cy),
        step(g) != g,
{
    assert forall|x: int, y: int| 0 <= x < width && 0 <= y < height implies #[trigger] step(g)[x][y]
        == (y == cy && cx - 1 <= x <= cx + 1) by {
        assert forall|i: int, j: int| x - 1 <= i <= x + 1 && y - 1 <= j <= y + 1 implies alive_at(
            g,
            i,
            j,
        ) == (0 <= i < width && 0 <= j < height && i == cx && cy - 1 <= j <= cy + 1) by {
            if 0 <= i < width && 0 <= j < height {
                assert(g[i][j] == (i == cx && cy - 1 <= j <= cy + 1));
            }
        }
    }
    assert(g[cx][cy - 1] && !step(g)[cx][cy - 1]);
}

/// A blinker has period two: after two generations the row of three is back
/// where it was, and each of the two generations changed the grid.
pub proof fn lemma_blinker_has_period_two(g: Grid, width: int, height: int, cx: int, cy: int)
    requires
        rectangular(g, width, height),
        1 <= cx < width - 1,
        1 <= cy < height - 1,
        is_row_of_three(g, width, height, cx, cy),
    ensures
        is_column_of_three(step(g), width, height, cx, cy),
        step(g) != g,
        step(step(g)) == g,
        step(step(g)) != step(g),
{
    lemma_row_of_three_turns(g, width, height, cx, cy);
    lemma_column_of_three_turns(step(g), width, height, cx, cy);
    assert(step(step(g)) =~~= g);
}

} // verus!
