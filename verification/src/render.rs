//! What a world looks like as text.

use vstd::prelude::*;
use crate::rules::{rectangular, Grid};

verus! {

/// The character that stands for a live cell.
pub const ALIVE_GLYPH: char = '#';

/// The character that stands for a dead cell.
pub const DEAD_GLYPH: char = ' ';

/// The character that closes a row.
pub const ROW_END: char = '\n';

/// The character drawn for a cell.
pub open spec fn glyph(alive: bool) -> char {
    if alive {
        ALIVE_GLYPH
    } else {
        DEAD_GLYPH
    }
}

/// The cells of row `y` from left to right, one glyph each.
pub open spec fn row_glyphs(g: Grid, width: int, y: int) -> Seq<char> {
    Seq::new(width as nat, |x: int| glyph(g[x][y]))
}

/// The first `rows` rows from the top, each closed by `ROW_END`.
pub open spec fn rendered_rows(g: Grid, width: int, rows: int) -> Seq<char>
    decreases rows,
{
    if rows <= 0 {
        Seq::empty()
    } else {
        rendered_rows(g, width, rows - 1) + row_glyphs(g, width, rows - 1).push(ROW_END)
    }
}

/// The whole grid as text.
pub open spec fn rendered(g: Grid, width: int, height: int) -> Seq<char> {
    rendered_rows(g, width, height)
}

/// Where the text holds column `x` of row `y`; column `width` is the end of
/// the row.
pub open spec fn text_index(width: int, x: int, y: int) -> int {
    y * (width + 1) + x
}

/// The first `rows` rows take `width + 1` characters each, and every cell and
/// every row end sits at its index.
proof fn lemma_rendered_rows_layout(g: Grid, width: int, rows: int)
    requires
        0 <= width,
        0 <= rows,
    ensures
        rendered_rows(g, width, rows).len() == rows * (width + 1),
        forall|x: int, y: int|
            0 <= x < width && 0 <= y < rows ==> rendered_rows(g, width, rows)[#[trigger] text_index(
                width,
                x,
                y,
            )] == glyph(g[x][y]),
        forall|y: int|
            0 <= y < rows ==> rendered_rows(g, width, rows)[#[trigger] text_index(width, width, y)]
                == ROW_END,
    decreases rows,
{
    if rows > 0 {
        let above = rendered_rows(g, width, rows - 1);
        lemma_rendered_rows_layout(g, width, rows - 1);
        assert(rows * (width + 1) == (rows - 1) * (width + 1) + (width + 1)) by (nonlinear_arith);
        assert forall|x: int, y: int| 0 <= x <= width && 0 <= y < rows implies {
            &&& y < rows - 1 ==> 0 <= text_index(width, x, y) < above.len()
            &&& y == rows - 1 ==> text_index(width, x, y) == above.len() + x
        } by {
            if y < rows - 1 {
                assert(0 <= y * (width + 1) && (y + 1) * (width + 1) <= (rows - 1) * (width + 1))
                    by (nonlinear_arith)
                    requires
                        0 <= y < rows - 1,
                        0 <= width,
                ;
                assert((y + 1) * (width + 1) == y * (width + 1) + (width + 1)) by (nonlinear_arith);
            }
        }
    } else {
        assert(rows * (width + 1) == 0) by (nonlinear_arith)
            requires
                rows == 0,
        ;
    }
}

/// Render fidelity: the text of a `width` by `height` grid is `height` rows
/// of `width` glyphs, each row followed by `ROW_END`; the glyph in column `x`
/// of row `y` is the one for the liveness of cell `(x, y)`. A glyph is never
/// `ROW_END`, so the rows can be told apart.
pub proof fn lemma_render_fidelity(g: Grid, width: int, height: int)
    requires
        0 <= width,
        0 <= height,
        rectangular(g, width, height),
    ensures
        rendered(g, width, height).len() == height * (width + 1),
        forall|x: int, y: int|
            0 <= x < width && 0 <= y < height ==> rendered(g, width, height)[#[trigger] text_index(
                width,
                x,
                y,
            )] == glyph(g[x][y]),
        forall|y: int|
            0 <= y < height ==> rendered(g, width, height)[#[trigger] text_index(width, width, y)]
                == ROW_END,
        forall|alive: bool| #[trigger] glyph(alive) != ROW_END,
        glyph(true) != glyph(false),
{
    lemma_rendered_rows_layout(g, width, height);
}

} // verus!
