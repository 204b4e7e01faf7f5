//! How the drawing depends on the border lines: two grids that differ in
//! one border line only are drawn alike everywhere else.

use crate::dimension::{grow, start, stretch, Axis};
use crate::grid::GridView;
use crate::matrix::{span_at, span_at_is_member, Span};
use crate::plan::joined;
use crate::render::Band;
use vstd::prelude::*;

verus! {

/// Whether two grids hold the same cells and show them in the same way.
pub open spec fn same_content(a: GridView, b: GridView) -> bool {
    &&& a.matrix == b.matrix
    &&& a.padding == b.padding
    &&& a.horizontal == b.horizontal
    &&& a.vertical == b.vertical
    &&& a.strategy == b.strategy
    &&& a.marks == b.marks
}

/// Whether the span holds the boundary `t` along `axis` strictly inside.
pub open spec fn holds_inside(span: Span, axis: Axis, t: int) -> bool {
    span.first(axis) < t < span.first(axis) + span.len(axis)
}

/// Whether two grids of the same content are bordered alike, but for row
/// boundary `si` and column boundary `sj` (-1 where no boundary is left
/// out): the other boundaries are drawn in both or in neither, with the same
/// characters, and a left-out boundary that lies inside a span is also drawn
/// in both or in neither.
pub open spec fn akin(a: GridView, b: GridView, si: int, sj: int) -> bool {
    &&& same_content(a, b)
    &&& forall|k: int|
        0 <= k <= a.rows() && k != si ==> #[trigger] a.has_row_line(k) == b.has_row_line(k)
    &&& forall|j: int|
        0 <= j <= a.cols() && j != sj ==> #[trigger] a.has_col_line(j) == b.has_col_line(j)
    &&& forall|k: int, j: int|
        0 <= k <= a.rows() && k != si && 0 <= j <= a.cols() && j != sj ==> #[trigger] a.crossing(
            k,
            j,
        ) == b.crossing(k, j)
    &&& forall|k: int, c: int|
        0 <= k <= a.rows() && k != si && 0 <= c < a.cols() ==> #[trigger] a.horizontal_fill(k, c)
            == b.horizontal_fill(k, c)
    &&& forall|r: int, j: int|
        0 <= r < a.rows() && 0 <= j <= a.cols() && j != sj ==> #[trigger] a.vertical_fill(r, j)
            == b.vertical_fill(r, j)
    &&& forall|m: int|
        0 <= m < a.matrix.spans.len() && holds_inside(#[trigger] a.matrix.spans[m], Axis::Rows, si)
            ==> a.has_row_line(si) == b.has_row_line(si)
    &&& forall|m: int|
        0 <= m < a.matrix.spans.len() && holds_inside(
            #[trigger] a.matrix.spans[m],
            Axis::Columns,
            sj,
        ) ==> a.has_col_line(sj) == b.has_col_line(sj)
}

/// The region of a position of the grid covers the position, lies within
/// the grid, and is one of the spans or the position alone.
pub proof fn region_is_sound(grid: GridView, r: int, c: int)
    requires
        grid.wf(),
        0 <= r < grid.rows(),
        0 <= c < grid.cols(),
    ensures
        grid.matrix.region(r, c).covers(r, c),
        grid.matrix.region(r, c).fits_in(grid.rows(), grid.cols()),
        grid.matrix.spans.contains(grid.matrix.region(r, c)) || (span_at(grid.matrix.spans, r, c)
            is None && grid.matrix.region(r, c) == Span::unit(r, c)),
{
    span_at_is_member(grid.matrix.spans, r, c);
}

/// Two positions of one span have the same region.
pub proof fn joined_share_region(grid: GridView, r1: int, c1: int, r2: int, c2: int)
    requires
        joined(grid.matrix.spans, r1, c1, r2, c2),
    ensures
        grid.matrix.region(r1, c1) == grid.matrix.region(r2, c2),
        span_at(grid.matrix.spans, r2, c2) is Some,
{
}

/// Between two tracks, the distance of their starts depends only on the
/// lines after the first and up to the second.
pub proof fn start_shift(sizes: Seq<int>, one: Seq<bool>, other: Seq<bool>, a: int, b: int)
    requires
        0 <= a <= b,
        forall|t: int| a < t <= b ==> #[trigger] one[t] == other[t],
    ensures
        start(sizes, one, b) - start(sizes, one, a) == start(sizes, other, b) - start(
            sizes,
            other,
            a,
        ),
    decreases b,
{
    if a < b {
        start_shift(sizes, one, other, a, b - 1);
        assert(one[b] == other[b]);
    }
}

/// Grids of the same content have the same base sizes.
pub proof fn base_sizes_agree(a: GridView, b: GridView, axis: Axis, t: int, upto: int)
    requires
        same_content(a, b),
    ensures
        a.base_size(axis, t, upto) == b.base_size(axis, t, upto),
    decreases upto,
{
    if upto > 0 {
        base_sizes_agree(a, b, axis, t, upto - 1);
    }
}

/// The lines of akin grids agree strictly inside every span.
pub proof fn inner_lines_agree(a: GridView, b: GridView, si: int, sj: int, axis: Axis, m: int, t: int)
    requires
        a.wf(),
        akin(a, b, si, sj),
        0 <= m < a.matrix.spans.len(),
        holds_inside(a.matrix.spans[m], axis, t),
    ensures
        0 <= t < a.count(axis),
        a.lines(axis)[t] == b.lines(axis)[t],
{
    let span = a.matrix.spans[m];
    assert(span.fits_in(a.rows(), a.cols()));
    match axis {
        Axis::Columns => {
            if t != sj {
                assert(a.has_col_line(t) == b.has_col_line(t));
            }
        },
        Axis::Rows => {
            if t != si {
                assert(a.has_row_line(t) == b.has_row_line(t));
            }
        },
    }
}

/// Akin grids have the same sizes after every number of spans.
pub proof fn grown_agree(a: GridView, b: GridView, si: int, sj: int, axis: Axis, k: int)
    requires
        a.wf(),
        akin(a, b, si, sj),
        0 <= k <= a.matrix.spans.len(),
    ensures
        a.grown(axis, k) == b.grown(axis, k),
    decreases k,
{
    if k <= 0 {
        assert forall|t: int| 0 <= t < a.count(axis) implies a.base_size(axis, t, a.across(axis))
            == b.base_size(axis, t, b.across(axis)) by {
            base_sizes_agree(a, b, axis, t, a.across(axis));
        }
        assert(a.grown(axis, k) =~= b.grown(axis, k));
    } else {
        grown_agree(a, b, si, sj, axis, k - 1);
        let span = a.matrix.spans[k - 1];
        let before = a.grown(axis, k - 1);
        let from = span.first(axis);
        let n = span.len(axis);
        assert(span.fits_in(a.rows(), a.cols()));
        assert forall|t: int| from < t <= from + n - 1 implies #[trigger] a.lines(axis)[t]
            == b.lines(axis)[t] by {
            inner_lines_agree(a, b, si, sj, axis, k - 1, t);
        }
        start_shift(before, a.lines(axis), b.lines(axis), from, from + n - 1);
        assert(stretch(before, a.lines(axis), from, n) == stretch(before, b.lines(axis), from, n));
        assert(a.need(axis, span.row as int, span.col as int) == b.need(
            axis,
            span.row as int,
            span.col as int,
        ));
    }
}

/// Akin grids have the same widths and the same heights.
pub proof fn sizes_agree(a: GridView, b: GridView, si: int, sj: int)
    requires
        a.wf(),
        akin(a, b, si, sj),
    ensures
        a.widths() == b.widths(),
        a.heights() == b.heights(),
{
    grown_agree(a, b, si, sj, Axis::Columns, a.matrix.spans.len() as int);
    grown_agree(a, b, si, sj, Axis::Rows, a.matrix.spans.len() as int);
}

/// In akin grids, a track of a region lies as far from the start of the
/// region in one as in the other, and the region takes up the same room.
pub proof fn region_offsets_agree(
    a: GridView,
    b: GridView,
    si: int,
    sj: int,
    r: int,
    c: int,
    axis: Axis,
    t: int,
)
    requires
        a.wf(),
        akin(a, b, si, sj),
        0 <= r < a.rows(),
        0 <= c < a.cols(),
        a.matrix.region(r, c).first(axis) <= t < a.matrix.region(r, c).first(axis)
            + a.matrix.region(r, c).len(axis),
    ensures
        start(a.sizes(axis), a.lines(axis), t) - start(
            a.sizes(axis),
            a.lines(axis),
            a.matrix.region(r, c).first(axis),
        ) == start(b.sizes(axis), b.lines(axis), t) - start(
            b.sizes(axis),
            b.lines(axis),
            a.matrix.region(r, c).first(axis),
        ),
        stretch(
            a.sizes(axis),
            a.lines(axis),
            a.matrix.region(r, c).first(axis),
            a.matrix.region(r, c).len(axis),
        ) == stretch(
            b.sizes(axis),
            b.lines(axis),
            a.matrix.region(r, c).first(axis),
            a.matrix.region(r, c).len(axis),
        ),
{
    let span = a.matrix.region(r, c);
    let from = span.first(axis);
    let n = span.len(axis);
    region_is_sound(a, r, c);
    grown_agree(a, b, si, sj, axis, a.matrix.spans.len() as int);
    let sizes = a.sizes(axis);
    assert forall|p: int| from < p <= from + n - 1 implies #[trigger] a.lines(axis)[p] == b.lines(
        axis,
    )[p] by {
        if a.matrix.spans.contains(span) {
            let m = choose|m: int| 0 <= m < a.matrix.spans.len() && a.matrix.spans[m] == span;
            inner_lines_agree(a, b, si, sj, axis, m, p);
        }
    }
    start_shift(sizes, a.lines(axis), b.lines(axis), from, t);
    start_shift(sizes, a.lines(axis), b.lines(axis), from, from + n - 1);
}

/// In akin grids, the cell of the region of a position shows the same
/// character at places that lie alike with respect to the region.
pub proof fn region_pixels_agree(
    a: GridView,
    b: GridView,
    si: int,
    sj: int,
    r: int,
    c: int,
    row: int,
    dy: int,
    col: int,
    dx: int,
)
    requires
        a.wf(),
        akin(a, b, si, sj),
        0 <= r < a.rows(),
        0 <= c < a.cols(),
        a.matrix.region(r, c).row <= row < a.matrix.region(r, c).row + a.matrix.region(r, c).rows,
        a.matrix.region(r, c).col <= col < a.matrix.region(r, c).col + a.matrix.region(r, c).cols,
    ensures
        a.region_pixel(a.matrix.region(r, c), a.row_start(row) + dy, a.col_start(col) + dx)
            == b.region_pixel(
            a.matrix.region(r, c),
            b.row_start(row) + dy,
            b.col_start(col) + dx,
        ),
{
    region_offsets_agree(a, b, si, sj, r, c, Axis::Rows, row);
    region_offsets_agree(a, b, si, sj, r, c, Axis::Columns, col);
}

/// Whether `band` is a line of the drawing other than the border line of
/// row boundary `si`, at a place that the grid has.
pub open spec fn band_in(grid: GridView, band: Band, si: int) -> bool {
    match band {
        Band::Line(i) => i <= grid.rows() && i != si,
        Band::Row(r, k) => r < grid.rows(),
    }
}

/// Akin grids show the same character in every column of a line that is
/// not left out.
pub proof fn track_chars_agree(a: GridView, b: GridView, si: int, sj: int, band: Band, c: int, x: int)
    requires
        a.wf(),
        akin(a, b, si, sj),
        band_in(a, band, si),
        0 <= c < a.cols(),
    ensures
        a.track_char(band, c, x) == b.track_char(band, c, x),
{
    sizes_agree(a, b, si, sj);
    if a.takes_track(band, c) {
        match band {
            Band::Row(r, k) => {
                region_is_sound(a, r as int, c);
                region_pixels_agree(a, b, si, sj, r as int, c, r as int, k as int, c, x);
            },
            Band::Line(i) => {
                joined_share_region(a, i - 1, c, i as int, c);
                region_is_sound(a, i as int, c);
                region_pixels_agree(a, b, si, sj, i as int, c, i as int, -1, c, x);
            },
        }
    } else {
        assert(a.horizontal_fill(a.band_row(band), c) == b.horizontal_fill(b.band_row(band), c));
    }
}

/// Akin grids show the same character at every column boundary that is not
/// left out, in every line that is not left out.
pub proof fn boundary_chars_agree(a: GridView, b: GridView, si: int, sj: int, band: Band, j: int)
    requires
        a.wf(),
        akin(a, b, si, sj),
        band_in(a, band, si),
        0 <= j <= a.cols(),
        j != sj,
    ensures
        a.boundary_char(band, j) == b.boundary_char(band, j),
{
    sizes_agree(a, b, si, sj);
    if a.takes_boundary(band, j) {
        match band {
            Band::Row(r, k) => {
                joined_share_region(a, r as int, j - 1, r as int, j);
                region_is_sound(a, r as int, j);
                region_is_sound(a, r as int, j - 1);
                region_pixels_agree(a, b, si, sj, r as int, j, r as int, k as int, j - 1, a.col_start(
                    j,
                ) - 1 - a.col_start(j - 1));
                region_offsets_agree(a, b, si, sj, r as int, j, Axis::Columns, j);
                region_offsets_agree(a, b, si, sj, r as int, j, Axis::Columns, j - 1);
            },
            Band::Line(i) => {
                joined_share_region(a, i - 1, j - 1, i as int, j);
                joined_share_region(a, i - 1, j - 1, i as int, j - 1);
                region_is_sound(a, i as int, j);
                region_is_sound(a, i as int, j - 1);
                region_pixels_agree(a, b, si, sj, i as int, j, i as int, -1, j - 1, a.col_start(j)
                    - 1 - a.col_start(j - 1));
                region_offsets_agree(a, b, si, sj, i as int, j, Axis::Columns, j);
                region_offsets_agree(a, b, si, sj, i as int, j, Axis::Columns, j - 1);
            },
        }
    } else {
        match band {
            Band::Row(r, k) => {
                assert(a.vertical_fill(r as int, j) == b.vertical_fill(r as int, j));
            },
            Band::Line(i) => {
                assert(a.crossing(i as int, j) == b.crossing(i as int, j));
            },
        }
    }
}

} // verus!
