//! The mesh of a grid with spans: where spans are corrected, the border
//! lines that leave a crossing fit together, so that no line ends in the
//! open.

use crate::grid::GridView;
use crate::matrix::{span_at, span_at_is_member, span_at_is_unique};
use crate::plan::{arms_at, joined};
use crate::render::Band;
use vstd::prelude::*;

verus! {

/// Two positions side by side, or one above the other, that lie in one
/// span with a third position lie in one span with the position that
/// completes the square: spans are rectangles.
proof fn square_is_closed(grid: GridView, i: int, j: int)
    requires
        grid.wf(),
        0 < i < grid.rows(),
        0 < j < grid.cols(),
    ensures
        joined(grid.matrix.spans, i - 1, j, i, j) && joined(grid.matrix.spans, i, j - 1, i, j)
            ==> joined(grid.matrix.spans, i - 1, j - 1, i, j),
        joined(grid.matrix.spans, i - 1, j - 1, i, j - 1) && joined(
            grid.matrix.spans,
            i,
            j - 1,
            i,
            j,
        ) ==> joined(grid.matrix.spans, i - 1, j, i, j),
        joined(grid.matrix.spans, i - 1, j - 1, i - 1, j) && joined(
            grid.matrix.spans,
            i - 1,
            j,
            i,
            j,
        ) ==> joined(grid.matrix.spans, i, j - 1, i, j),
        joined(grid.matrix.spans, i - 1, j - 1, i - 1, j) && joined(
            grid.matrix.spans,
            i - 1,
            j - 1,
            i,
            j - 1,
        ) ==> joined(grid.matrix.spans, i - 1, j - 1, i, j),
{
    let spans = grid.matrix.spans;
    span_at_is_member(spans, i - 1, j - 1);
    span_at_is_member(spans, i - 1, j);
    span_at_is_member(spans, i, j - 1);
    span_at_is_member(spans, i, j);
    if joined(spans, i - 1, j, i, j) && joined(spans, i, j - 1, i, j) {
        let s = span_at(spans, i, j)->0;
        let k = choose|k: int| 0 <= k < spans.len() && spans[k] == s;
        span_at_is_unique(spans, grid.rows(), grid.cols(), k, i - 1, j - 1);
    }
    if joined(spans, i - 1, j - 1, i, j - 1) && joined(spans, i, j - 1, i, j) {
        let s = span_at(spans, i, j)->0;
        let k = choose|k: int| 0 <= k < spans.len() && spans[k] == s;
        span_at_is_unique(spans, grid.rows(), grid.cols(), k, i - 1, j);
    }
    if joined(spans, i - 1, j - 1, i - 1, j) && joined(spans, i - 1, j, i, j) {
        let s = span_at(spans, i, j)->0;
        let k = choose|k: int| 0 <= k < spans.len() && spans[k] == s;
        span_at_is_unique(spans, grid.rows(), grid.cols(), k, i, j - 1);
    }
    if joined(spans, i - 1, j - 1, i - 1, j) && joined(spans, i - 1, j - 1, i, j - 1) {
        let s = span_at(spans, i - 1, j - 1)->0;
        let k = choose|k: int| 0 <= k < spans.len() && spans[k] == s;
        span_at_is_unique(spans, grid.rows(), grid.cols(), k, i, j);
    }
}

/// In a grid that corrects its spans, border leaves every crossing in no
/// direction, where a span has taken the crossing up, or in at least two:
/// no border line ends in the open. Inside the grid, two lines that leave a
/// crossing are the two halves of one straight line. An arm stands exactly
/// where the stretch of border next to the crossing is drawn as border.
pub proof fn corrected_mesh_is_closed(grid: GridView, i: int, j: int)
    requires
        grid.wf(),
        grid.correct_spans,
        grid.rows() > 0,
        grid.cols() > 0,
        0 <= i <= grid.rows(),
        0 <= j <= grid.cols(),
    ensures
        grid.arms(i, j).count() != 1,
        grid.arms(i, j).count() == 0 <==> grid.takes_boundary(Band::Line(i as usize), j),
        0 < i < grid.rows() && 0 < j < grid.cols() && grid.arms(i, j).count() == 2 ==> (grid.arms(
            i,
            j,
        ).up && grid.arms(i, j).down) || (grid.arms(i, j).left && grid.arms(i, j).right),
        grid.arms(i, j).up <==> i > 0 && !grid.takes_boundary(Band::Row((i - 1) as usize, 0), j),
        grid.arms(i, j).down <==> i < grid.rows() && !grid.takes_boundary(
            Band::Row(i as usize, 0),
            j,
        ),
        grid.arms(i, j).left <==> j > 0 && !grid.takes_track(Band::Line(i as usize), j - 1),
        grid.arms(i, j).right <==> j < grid.cols() && !grid.takes_track(Band::Line(i as usize), j),
{
    if 0 < i < grid.rows() && 0 < j < grid.cols() {
        square_is_closed(grid, i, j);
    }
}

/// Where nothing overrides the style, the character at a crossing is the
/// one that the style has for the arms of the crossing.
pub proof fn crossing_follows_arms(grid: GridView, i: int, j: int)
    requires
        grid.cell_borders.len() == 0,
        grid.style.horizontals.len() == 0,
        grid.style.verticals.len() == 0,
    ensures
        grid.crossing(i, j) == grid.style.borders.crossing(
            grid.arms(i, j),
            i,
            j,
            grid.rows(),
            grid.cols(),
        ),
{
}

} // verus!
