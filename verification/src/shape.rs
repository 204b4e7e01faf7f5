//! The shape of the drawing: it is a rectangle of characters whose width and
//! height follow from the sizes of the columns and rows and from the border
//! lines that are drawn.

use crate::dimension::{extent, grown_is_sized, start, unit, Axis};
use crate::grid::GridView;
use crate::matrix::span_at;
use crate::render::{stamped_keeps_length, Band};
use vstd::prelude::*;

verus! {

/// Before column boundary `c`, a line holds the columns and drawn
/// boundaries that precede it.
pub proof fn line_prefix_length(grid: GridView, band: Band, c: int)
    requires
        grid.wf(),
        0 <= c <= grid.cols(),
    ensures
        grid.line_prefix(band, c).len() == grid.col_start(c) - unit(grid.has_col_line(c)),
    decreases c,
{
    grown_is_sized(grid, Axis::Columns, grid.matrix.spans.len() as int);
    if c > 0 {
        line_prefix_length(grid, band, c - 1);
    }
}

/// Every line of a grid with columns is as long as the columns and the
/// drawn column boundaries take up together.
pub proof fn line_length(grid: GridView, band: Band)
    requires
        grid.wf(),
        grid.cols() > 0,
    ensures
        grid.plain_line(band).len() == grid.total_width(),
        grid.line(band).len() == grid.total_width(),
{
    line_prefix_length(grid, band, grid.cols());
    match band {
        Band::Line(i) => {
            stamped_keeps_length(grid.plain_line(band), grid.texts, i as int);
        },
        Band::Row(r, k) => {},
    }
}

/// Above row boundary `r`, the drawing holds the lines of the rows and the
/// drawn boundaries that precede it, and each of its lines has the full width.
pub proof fn lines_above_shape(grid: GridView, r: int)
    requires
        grid.wf(),
        grid.cols() > 0,
        0 <= r <= grid.rows(),
    ensures
        grid.lines_above(r).len() == grid.row_start(r) - unit(grid.has_row_line(r)),
        forall|y: int|
            0 <= y < grid.lines_above(r).len() ==> (#[trigger] grid.lines_above(r)[y]).len()
                == grid.total_width(),
    decreases r,
{
    grown_is_sized(grid, Axis::Rows, grid.matrix.spans.len() as int);
    if r > 0 {
        lines_above_shape(grid, r - 1);
        let above = grid.lines_above(r - 1);
        let border = grid.border_block(r - 1);
        let row = grid.row_block(r - 1);
        assert forall|y: int| 0 <= y < grid.lines_above(r).len() implies (#[trigger] grid.lines_above(
            r,
        )[y]).len() == grid.total_width() by {
            if y < above.len() {
                assert(grid.lines_above(r)[y] == above[y]);
            } else if y < above.len() + border.len() {
                assert(grid.lines_above(r)[y] == border[y - above.len()]);
                line_length(grid, Band::Line((r - 1) as usize));
            } else {
                let k = y - above.len() - border.len();
                assert(grid.lines_above(r)[y] == row[k]);
                line_length(grid, Band::Row((r - 1) as usize, k as usize));
            }
        }
    }
}

/// The drawing is a rectangle: it has as many lines as the rows and the
/// drawn row boundaries take up together, and every line has as many
/// characters as the columns and the drawn column boundaries take up.
pub proof fn drawing_is_rectangular(grid: GridView)
    requires
        grid.wf(),
        grid.rows() > 0,
        grid.cols() > 0,
    ensures
        grid.drawing().len() == grid.total_height(),
        forall|y: int|
            0 <= y < grid.drawing().len() ==> (#[trigger] grid.drawing()[y]).len()
                == grid.total_width(),
{
    lines_above_shape(grid, grid.rows());
    let above = grid.lines_above(grid.rows());
    assert forall|y: int| 0 <= y < grid.drawing().len() implies (#[trigger] grid.drawing()[y]).len()
        == grid.total_width() by {
        if y < above.len() {
            assert(grid.drawing()[y] == above[y]);
        } else {
            line_length(grid, Band::Line(grid.rows() as usize));
        }
    }
}

/// The border characters of two column boundaries do not stand side by
/// side on a line where the column between them is at least one character
/// wide: on every line, the character of the boundary after column `c`
/// stands at least two places after the character of the boundary before it.
pub proof fn boundaries_stand_apart(grid: GridView, band: Band, c: int)
    requires
        grid.wf(),
        0 <= c < grid.cols(),
        grid.widths()[c] >= 1,
        grid.has_col_line(c),
        grid.has_col_line(c + 1),
    ensures
        grid.line_prefix(band, c + 1).len() >= grid.line_prefix(band, c).len() + 2,
        grid.line_prefix(band, c + 1).len() == grid.line_prefix(band, c).len() + 1
            + grid.widths()[c],
{
    line_prefix_length(grid, band, c);
    line_prefix_length(grid, band, c + 1);
}

/// Whether every cell of the grid holds exactly one line.
pub open spec fn single_lined(grid: GridView) -> bool {
    forall|r: int, c: int|
        0 <= r < grid.rows() && 0 <= c < grid.cols() ==> (#[trigger] grid.matrix.cells[r][c]).len()
            == 1
}

/// In a grid without spans whose cells hold one line each, the largest
/// claim on a row among its first `upto` cells is one line and the padding
/// above and below it.
proof fn uniform_base_height(grid: GridView, r: int, upto: int)
    requires
        grid.wf(),
        grid.matrix.spans.len() == 0,
        single_lined(grid),
        0 <= r < grid.rows(),
        0 <= upto <= grid.cols(),
    ensures
        grid.base_size(Axis::Rows, r, upto) == (if upto == 0 {
            0
        } else {
            1 + grid.padding.top + grid.padding.bottom
        }),
    decreases upto,
{
    if upto > 0 {
        uniform_base_height(grid, r, upto - 1);
        assert(span_at(grid.matrix.spans, r, upto - 1) is None);
        assert(grid.matrix.cells[r][upto - 1].len() == 1);
        assert(grid.matrix.is_anchor(r, upto - 1));
        assert(grid.claim(Axis::Rows, r, upto - 1) == 1 + grid.padding.top + grid.padding.bottom);
    }
}

/// Where all the first `t` + 1 boundaries are drawn and all rows have the
/// height `h`, row `t` starts after `t` rows and `t` + 1 lines.
proof fn uniform_start(sizes: Seq<int>, lines: Seq<bool>, h: int, t: int)
    requires
        0 <= t <= sizes.len(),
        lines.len() == sizes.len() + 1,
        forall|k: int| 0 <= k < sizes.len() ==> #[trigger] sizes[k] == h,
        forall|k: int| 0 <= k <= t ==> #[trigger] lines[k],
    ensures
        start(sizes, lines, t) == t * h + t + 1,
    decreases t,
{
    if t > 0 {
        uniform_start(sizes, lines, h, t - 1);
        assert(t * h == (t - 1) * h + h) by (nonlinear_arith);
        assert(lines[t]);
        assert(sizes[t - 1] == h);
    } else {
        assert(lines[0]);
        assert(t * h == 0) by (nonlinear_arith)
            requires
                t == 0,
        ;
    }
}

/// In a grid without spans whose cells hold one line each, all lines of the
/// drawing have the same length, and where every row boundary is drawn the
/// drawing has, for every row, its one line of content with the padding
/// above and below it, and one line more than there are rows for the
/// boundaries. With one line of padding in all, these are twice the number
/// of rows and the boundaries.
pub proof fn uniform_grid_shape(grid: GridView)
    requires
        grid.wf(),
        grid.rows() > 0,
        grid.cols() > 0,
        grid.matrix.spans.len() == 0,
        single_lined(grid),
    ensures
        forall|y: int|
            0 <= y < grid.drawing().len() ==> (#[trigger] grid.drawing()[y]).len()
                == grid.total_width(),
        (forall|i: int| 0 <= i <= grid.rows() ==> grid.has_row_line(i)) ==> grid.drawing().len()
            == grid.rows() * (1 + grid.padding.top + grid.padding.bottom) + (grid.rows() + 1),
        (forall|i: int| 0 <= i <= grid.rows() ==> grid.has_row_line(i)) && grid.padding.top
            + grid.padding.bottom == 1 ==> grid.drawing().len() == 2 * grid.rows() + (grid.rows()
            + 1),
{
    drawing_is_rectangular(grid);
    if forall|i: int| 0 <= i <= grid.rows() ==> grid.has_row_line(i) {
        let h = 1 + grid.padding.top + grid.padding.bottom;
        let heights = grid.heights();
        let lines = grid.lines(Axis::Rows);
        assert forall|k: int| 0 <= k < heights.len() implies #[trigger] heights[k] == h by {
            uniform_base_height(grid, k, grid.cols());
        }
        assert forall|k: int| 0 <= k <= grid.rows() implies #[trigger] lines[k] by {
            assert(grid.has_row_line(k));
        }
        uniform_start(heights, lines, h, grid.rows() - 1);
        assert(grid.rows() * h == (grid.rows() - 1) * h + h) by (nonlinear_arith);
        assert(extent(heights, lines, grid.rows()) == grid.rows() * h + grid.rows() + 1);
        if h == 2 {
            assert(grid.rows() * h == 2 * grid.rows()) by (nonlinear_arith)
                requires
                    h == 2,
            ;
        }
    }
}

} // verus!
