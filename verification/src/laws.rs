//! Laws of the drawing: what turning off a frame line removes, and what a
//! line override leaves untouched.

use crate::dimension::{grown_is_sized, Axis};
use crate::frame::{
    akin,
    band_in,
    boundary_chars_agree,
    holds_inside,
    sizes_agree,
    track_chars_agree,
};
use crate::grid::{BorderTextView, GridView};
use crate::render::{stamp, stamped_keeps_length, text_start, Band};
use crate::shape::drawing_is_rectangular;
use crate::plan::{horizontal_line_at, horizontals_reach, vertical_line_at, verticals_reach};
use crate::style::{horizontals_with, verticals_with, HorizontalLine, LineSlot, StyleView, VerticalLine};
use vstd::prelude::*;

verus! {

impl GridView {
    /// The grid with another style.
    pub open spec fn with_style(self, style: StyleView) -> GridView {
        GridView { style, ..self }
    }

    /// The grid with one more horizontal line override, set after the others.
    pub open spec fn with_horizontal_line(self, line: HorizontalLine) -> GridView {
        GridView {
            style: StyleView { horizontals: self.style.horizontals.push(line), ..self.style },
            ..self
        }
    }

    /// Whether the arms of every crossing are those of a grid without spans:
    /// the grid has no span, or it is not asked to correct spans.
    pub open spec fn plain_crossings(self) -> bool {
        !self.correct_spans || self.matrix.spans.len() == 0
    }
}

/// The override of a boundary among overrides that all got another
/// character in one slot is the override of that boundary among the
/// overrides as they were, with the other character in that slot.
pub proof fn override_slots(style: StyleView, slot: LineSlot, value: Option<char>)
    ensures
        forall|i: int| #[trigger]
            horizontal_line_at(horizontals_with(style.horizontals, slot, value), i) == (
            match horizontal_line_at(style.horizontals, i) {
                Some(line) => Some(line.with(slot, value)),
                None => None,
            }),
        forall|j: int| #[trigger]
            vertical_line_at(verticals_with(style.verticals, slot, value), j) == (
            match vertical_line_at(style.verticals, j) {
                Some(line) => Some(line.with(slot, value)),
                None => None,
            }),
{
    assert forall|i: int| #[trigger]
        horizontal_line_at(horizontals_with(style.horizontals, slot, value), i) == (
        match horizontal_line_at(style.horizontals, i) {
            Some(line) => Some(line.with(slot, value)),
            None => None,
        }) by {
        horizontal_slots(style.horizontals, slot, value, i);
    }
    assert forall|j: int| #[trigger]
        vertical_line_at(verticals_with(style.verticals, slot, value), j) == (
        match vertical_line_at(style.verticals, j) {
            Some(line) => Some(line.with(slot, value)),
            None => None,
        }) by {
        vertical_slots(style.verticals, slot, value, j);
    }
}

/// Changing one end of all line overrides leaves it as it is whether a
/// line override reaches the frame with its other end.
pub proof fn other_end_keeps_reach(style: StyleView, slot: LineSlot, value: Option<char>, upto: int)
    requires
        slot == LineSlot::Start || slot == LineSlot::End,
    ensures
        horizontals_reach(horizontals_with(style.horizontals, slot, value), slot != LineSlot::Start, upto)
            == horizontals_reach(style.horizontals, slot != LineSlot::Start, upto),
        verticals_reach(verticals_with(style.verticals, slot, value), slot != LineSlot::Start, upto)
            == verticals_reach(style.verticals, slot != LineSlot::Start, upto),
    decreases upto,
{
    if upto > 0 {
        other_end_keeps_reach(style, slot, value, upto - 1);
        override_slots(style, slot, value);
    }
}

/// [`override_slots`] for the horizontal overrides and one boundary.
proof fn horizontal_slots(lines: Seq<HorizontalLine>, slot: LineSlot, value: Option<char>, i: int)
    ensures
        horizontal_line_at(horizontals_with(lines, slot, value), i) == (match horizontal_line_at(
            lines,
            i,
        ) {
            Some(line) => Some(line.with(slot, value)),
            None => None,
        }),
    decreases lines.len(),
{
    if lines.len() > 0 {
        horizontal_slots(lines.drop_last(), slot, value, i);
        assert(horizontals_with(lines, slot, value).drop_last() =~= horizontals_with(
            lines.drop_last(),
            slot,
            value,
        ));
    }
}

/// [`override_slots`] for the vertical overrides and one boundary.
proof fn vertical_slots(lines: Seq<VerticalLine>, slot: LineSlot, value: Option<char>, j: int)
    ensures
        vertical_line_at(verticals_with(lines, slot, value), j) == (match vertical_line_at(lines, j) {
            Some(line) => Some(line.with(slot, value)),
            None => None,
        }),
    decreases lines.len(),
{
    if lines.len() > 0 {
        vertical_slots(lines.drop_last(), slot, value, j);
        assert(verticals_with(lines, slot, value).drop_last() =~= verticals_with(
            lines.drop_last(),
            slot,
            value,
        ));
    }
}

/// Grids that are akin but for one row boundary show the same line
/// wherever it is not the border line of that boundary.
pub proof fn line_prefixes_agree(a: GridView, b: GridView, si: int, band: Band, c: int)
    requires
        a.wf(),
        akin(a, b, si, -1),
        band_in(a, band, si),
        0 <= c <= a.cols(),
    ensures
        a.line_prefix(band, c) == b.line_prefix(band, c),
    decreases c,
{
    if c > 0 {
        line_prefixes_agree(a, b, si, band, c - 1);
        pieces_agree(a, b, si, -1, band, c - 1);
    }
}

/// What akin grids show in a column, and at a column boundary that is not
/// left out, is the same.
pub proof fn pieces_agree(a: GridView, b: GridView, si: int, sj: int, band: Band, c: int)
    requires
        a.wf(),
        akin(a, b, si, sj),
        band_in(a, band, si),
        0 <= c <= a.cols(),
    ensures
        c < a.cols() ==> a.track_piece(band, c) == b.track_piece(band, c),
        c != sj ==> a.boundary_piece(band, c) == b.boundary_piece(band, c),
{
    sizes_agree(a, b, si, sj);
    grown_is_sized(a, Axis::Columns, a.matrix.spans.len() as int);
    if c < a.cols() {
        assert forall|x: int| 0 <= x < a.widths()[c] implies #[trigger] a.track_char(band, c, x)
            == b.track_char(band, c, x) by {
            track_chars_agree(a, b, si, sj, band, c, x);
        }
        assert(a.track_piece(band, c) =~= b.track_piece(band, c));
    }
    if c != sj {
        assert(a.has_col_line(c) == b.has_col_line(c));
        boundary_chars_agree(a, b, si, sj, band, c);
    }
}

/// Grids that are akin but for one row boundary draw every other line
/// alike, before and, with the same border texts, after the texts are
/// written over it.
pub proof fn lines_agree(a: GridView, b: GridView, si: int, band: Band)
    requires
        a.wf(),
        akin(a, b, si, -1),
        band_in(a, band, si),
    ensures
        a.plain_line(band) == b.plain_line(band),
        a.texts == b.texts ==> a.line(band) == b.line(band),
{
    line_prefixes_agree(a, b, si, band, a.cols());
    pieces_agree(a, b, si, -1, band, a.cols());
}

/// Grids that are akin but for one row boundary draw every row alike, and
/// every other row boundary.
pub proof fn blocks_agree(a: GridView, b: GridView, si: int)
    requires
        a.wf(),
        akin(a, b, si, -1),
        a.texts == b.texts,
    ensures
        forall|r: int| 0 <= r < a.rows() ==> #[trigger] a.row_block(r) == b.row_block(r),
        forall|k: int|
            0 <= k <= a.rows() && k != si ==> #[trigger] a.border_block(k) == b.border_block(k),
{
    sizes_agree(a, b, si, -1);
    grown_is_sized(a, Axis::Rows, a.matrix.spans.len() as int);
    assert forall|r: int| 0 <= r < a.rows() implies #[trigger] a.row_block(r) == b.row_block(r) by {
        assert forall|k: int| 0 <= k < a.heights()[r] implies #[trigger] a.row_line(r, k)
            == b.row_line(r, k) by {
            lines_agree(a, b, si, Band::Row(r as usize, k as usize));
        }
        assert(a.row_block(r) =~= b.row_block(r));
    }
    assert forall|k: int| 0 <= k <= a.rows() && k != si implies #[trigger] a.border_block(k)
        == b.border_block(k) by {
        assert(a.has_row_line(k) == b.has_row_line(k));
        lines_agree(a, b, si, Band::Line(k as usize));
    }
}

/// Grids whose rows and row boundaries are drawn alike up to boundary `r`
/// have the same lines above it.
pub proof fn lines_above_agree(a: GridView, b: GridView, r: int)
    requires
        0 <= r <= a.rows(),
        forall|k: int| 0 <= k < r ==> #[trigger] a.row_block(k) == b.row_block(k),
        forall|k: int| 0 <= k < r ==> #[trigger] a.border_block(k) == b.border_block(k),
    ensures
        a.lines_above(r) == b.lines_above(r),
    decreases r,
{
    if r > 0 {
        lines_above_agree(a, b, r - 1);
        assert(a.row_block(r - 1) == b.row_block(r - 1));
        assert(a.border_block(r - 1) == b.border_block(r - 1));
    }
}

/// A horizontal line override changes only the border line of its own
/// boundary: every row, and the border line of every other boundary, is
/// drawn as without it. Where the override makes a boundary appear that a
/// span reaches across, the span gets more room, and where its ends make
/// the left or right frame line appear or disappear, every line changes:
/// there the law does not hold, and such grids are left out.
pub proof fn horizontal_line_is_local(grid: GridView, line: HorizontalLine)
    requires
        grid.wf(),
        grid.has_row_line(line.index as int) || forall|m: int|
            0 <= m < grid.matrix.spans.len() ==> !holds_inside(
                #[trigger] grid.matrix.spans[m],
                Axis::Rows,
                line.index as int,
            ),
        grid.with_horizontal_line(line).has_col_line(0) == grid.has_col_line(0),
        grid.with_horizontal_line(line).has_col_line(grid.cols()) == grid.has_col_line(grid.cols()),
    ensures
        forall|r: int|
            0 <= r < grid.rows() ==> #[trigger] grid.with_horizontal_line(line).row_block(r)
                == grid.row_block(r),
        forall|k: int|
            0 <= k <= grid.rows() && k != line.index ==> #[trigger] grid.with_horizontal_line(
                line,
            ).border_block(k) == grid.border_block(k),
        grid.with_horizontal_line(line).widths() == grid.widths(),
        grid.with_horizontal_line(line).heights() == grid.heights(),
        line.index > grid.rows() ==> grid.with_horizontal_line(line).drawing() == grid.drawing(),
{
    let other = grid.with_horizontal_line(line);
    let i = line.index as int;
    assert(other.style.horizontals.drop_last() =~= grid.style.horizontals);
    assert(other.has_row_line(i));
    assert(akin(grid, other, i, -1));
    blocks_agree(grid, other, i);
    sizes_agree(grid, other, i, -1);
    if line.index > grid.rows() {
        lines_above_agree(grid, other, grid.rows());
    }
}

impl GridView {
    /// The grid with one more border text, set after the others.
    pub open spec fn with_border_text(self, text: BorderTextView) -> GridView {
        GridView { texts: self.texts.push(text), ..self }
    }
}

/// A border text changes only the border line that it is set for: every
/// row, and the border line of every other boundary, is drawn as without
/// it. On its own line the text replaces the characters from its start on,
/// as far as the line reaches, and the line keeps its length. A text for a
/// boundary that is not drawn, or that the grid does not have, changes
/// nothing.
pub proof fn border_text_is_local(grid: GridView, text: BorderTextView)
    requires
        grid.wf(),
    ensures
        forall|r: int|
            0 <= r < grid.rows() ==> #[trigger] grid.with_border_text(text).row_block(r)
                == grid.row_block(r),
        forall|k: int|
            0 <= k <= grid.rows() && k != text.line ==> #[trigger] grid.with_border_text(
                text,
            ).border_block(k) == grid.border_block(k),
        text.line <= grid.rows() ==> grid.with_border_text(text).line(Band::Line(text.line)) == (
        match text_start(
            text.offset,
            grid.plain_line(Band::Line(text.line)).len() as int,
        ) {
            Some(at) => stamp(grid.line(Band::Line(text.line)), text.text, at),
            None => grid.line(Band::Line(text.line)),
        }),
        text.line <= grid.rows() ==> grid.with_border_text(text).line(
            Band::Line(text.line),
        ).len() == grid.line(Band::Line(text.line)).len(),
        grid.with_border_text(text).drawing().len() == grid.drawing().len(),
{
    let other = grid.with_border_text(text);
    assert(other.texts.drop_last() =~= grid.texts);
    assert(akin(grid, other, -1, -1));
    sizes_agree(grid, other, -1, -1);
    grown_is_sized(grid, Axis::Rows, grid.matrix.spans.len() as int);
    assert forall|r: int| 0 <= r < grid.rows() implies #[trigger] other.row_block(r)
        == grid.row_block(r) by {
        assert forall|k: int| 0 <= k < grid.heights()[r] implies #[trigger] other.row_line(r, k)
            == grid.row_line(r, k) by {
            lines_agree(grid, other, -1, Band::Row(r as usize, k as usize));
        }
        assert(other.row_block(r) =~= grid.row_block(r));
    }
    assert forall|k: int| 0 <= k <= grid.rows() && k != text.line implies #[trigger] other.border_block(
        k,
    ) == grid.border_block(k) by {
        assert(other.has_row_line(k) == grid.has_row_line(k));
        lines_agree(grid, other, -1, Band::Line(k as usize));
    }
    if text.line <= grid.rows() {
        lines_agree(grid, other, -1, Band::Line(text.line));
        stamped_keeps_length(grid.plain_line(Band::Line(text.line)), grid.texts, text.line as int);
    }
    if grid.rows() > 0 && grid.cols() > 0 {
        assert forall|k: int| 0 <= k <= grid.rows() implies #[trigger] grid.has_row_line(k)
            == other.has_row_line(k) by {}
        assert(grid.lines(Axis::Rows) =~= other.lines(Axis::Rows));
        drawing_has_height(grid);
        drawing_has_height(other);
    }
}

/// The drawing of a grid with rows and columns has as many lines as its
/// rows and drawn row boundaries take up.
proof fn drawing_has_height(grid: GridView)
    requires
        grid.wf(),
        grid.rows() > 0,
        grid.cols() > 0,
    ensures
        grid.drawing().len() == grid.total_height(),
{
    drawing_is_rectangular(grid);
}

/// Turning off the top frame line removes the first line of the drawing
/// and nothing else. The law speaks of grids in which the top line is
/// drawn before and not after (no override draws on it), the same column
/// boundaries are drawn before and after, and the crossings are plain.
pub proof fn top_off_removes_first_line(grid: GridView)
    requires
        grid.wf(),
        grid.rows() > 0,
        grid.cols() > 0,
        grid.plain_crossings(),
        grid.has_row_line(0),
        !grid.with_style(grid.style.off_top()).has_row_line(0),
        forall|j: int|
            0 <= j <= grid.cols() ==> grid.with_style(grid.style.off_top()).has_col_line(
                j,
            ) == #[trigger] grid.has_col_line(j),
    ensures
        grid.with_style(grid.style.off_top()).drawing() == grid.drawing().drop_first(),
{
    let other = grid.with_style(grid.style.off_top());
    override_slots(grid.style, LineSlot::Start, None);
    other_end_keeps_reach(grid.style, LineSlot::Start, None, grid.rows() + 1);
    other_end_keeps_reach(grid.style, LineSlot::Start, None, grid.cols() + 1);
    other_end_keeps_reach(grid.style, LineSlot::Start, None, grid.rows() + 1);
    other_end_keeps_reach(grid.style, LineSlot::Start, None, grid.cols() + 1);
    assert(akin(grid, other, 0, -1));
    blocks_agree(grid, other, 0);
    without_first_above(grid, other, grid.rows());
    assert(other.border_block(grid.rows()) == grid.border_block(grid.rows()));
    assert(other.drawing() =~= grid.drawing().drop_first());
}

/// Where only the first boundary is drawn in one grid and not in the other,
/// the lines above a later boundary are those of the first grid without the
/// first.
proof fn without_first_above(a: GridView, b: GridView, r: int)
    requires
        1 <= r <= a.rows(),
        a.has_row_line(0),
        !b.has_row_line(0),
        forall|k: int| 0 <= k < a.rows() ==> #[trigger] a.row_block(k) == b.row_block(k),
        forall|k: int| 0 < k <= a.rows() ==> #[trigger] a.border_block(k) == b.border_block(k),
    ensures
        a.lines_above(r).len() >= 1,
        b.lines_above(r) == a.lines_above(r).drop_first(),
    decreases r,
{
    assert(a.row_block(r - 1) == b.row_block(r - 1));
    if r == 1 {
        assert(a.lines_above(0) =~= Seq::<Seq<char>>::empty());
        assert(b.lines_above(0) =~= Seq::<Seq<char>>::empty());
        assert(b.lines_above(1) =~= a.lines_above(1).drop_first());
    } else {
        without_first_above(a, b, r - 1);
        assert(a.border_block(r - 1) == b.border_block(r - 1));
        assert(b.lines_above(r) =~= a.lines_above(r).drop_first());
    }
}

/// Turning off the bottom frame line removes the last line of the drawing
/// and nothing else, in grids in which the bottom line is drawn before and
/// not after, the same column boundaries are drawn before and after, and the
/// crossings are plain.
pub proof fn bottom_off_removes_last_line(grid: GridView)
    requires
        grid.wf(),
        grid.rows() > 0,
        grid.cols() > 0,
        grid.plain_crossings(),
        grid.has_row_line(grid.rows()),
        !grid.with_style(grid.style.off_bottom()).has_row_line(grid.rows()),
        forall|j: int|
            0 <= j <= grid.cols() ==> grid.with_style(grid.style.off_bottom()).has_col_line(j)
                == #[trigger] grid.has_col_line(j),
    ensures
        grid.with_style(grid.style.off_bottom()).drawing()
            == grid.drawing().drop_last(),
{
    let other = grid.with_style(grid.style.off_bottom());
    override_slots(grid.style, LineSlot::End, None);
    other_end_keeps_reach(grid.style, LineSlot::End, None, grid.rows() + 1);
    other_end_keeps_reach(grid.style, LineSlot::End, None, grid.cols() + 1);
    other_end_keeps_reach(grid.style, LineSlot::End, None, grid.rows() + 1);
    other_end_keeps_reach(grid.style, LineSlot::End, None, grid.cols() + 1);
    assert(akin(grid, other, grid.rows(), -1));
    blocks_agree(grid, other, grid.rows());
    lines_above_agree(grid, other, grid.rows());
    assert(other.drawing() =~= grid.drawing().drop_last());
}

/// Every line of `lines` without its first character.
pub open spec fn each_without_first(lines: Seq<Seq<char>>) -> Seq<Seq<char>> {
    Seq::new(lines.len(), |y: int| lines[y].drop_first())
}

/// Every line of `lines` without its last character.
pub open spec fn each_without_last(lines: Seq<Seq<char>>) -> Seq<Seq<char>> {
    Seq::new(lines.len(), |y: int| lines[y].drop_last())
}

/// Where the left boundary is drawn in one of two akin grids and not in the
/// other, a line of the second is that of the first without its first
/// character.
proof fn line_without_first(a: GridView, b: GridView, band: Band, c: int)
    requires
        a.wf(),
        akin(a, b, -1, 0),
        band_in(a, band, -1),
        a.has_col_line(0),
        !b.has_col_line(0),
        1 <= c <= a.cols(),
    ensures
        a.line_prefix(band, c).len() >= 1,
        b.line_prefix(band, c) == a.line_prefix(band, c).drop_first(),
    decreases c,
{
    pieces_agree(a, b, -1, 0, band, c - 1);
    if c == 1 {
        assert(a.line_prefix(band, 0) =~= Seq::<char>::empty());
        assert(b.line_prefix(band, 0) =~= Seq::<char>::empty());
        assert(b.line_prefix(band, 1) =~= a.line_prefix(band, 1).drop_first());
    } else {
        line_without_first(a, b, band, c - 1);
        assert(b.line_prefix(band, c) =~= a.line_prefix(band, c).drop_first());
    }
}

/// A grid without border texts draws its border lines as they are.
proof fn line_is_plain(grid: GridView, band: Band)
    requires
        grid.texts.len() == 0,
    ensures
        grid.line(band) == grid.plain_line(band),
{
}

/// Where two grids have the same heights and row boundaries, and every
/// line of the second is the line of the first through `f`, so is the
/// drawing.
proof fn above_each(a: GridView, b: GridView, r: int, first: bool)
    requires
        0 <= r <= a.rows(),
        a.heights() == b.heights(),
        forall|k: int| 0 <= k <= a.rows() ==> #[trigger] a.has_row_line(k) == b.has_row_line(k),
        forall|band: Band|
            band_in(a, band, -1) ==> #[trigger] b.line(band) == (if first {
                a.line(band).drop_first()
            } else {
                a.line(band).drop_last()
            }),
    ensures
        b.lines_above(r) == (if first {
            each_without_first(a.lines_above(r))
        } else {
            each_without_last(a.lines_above(r))
        }),
        b.border_block(r) == (if first {
            each_without_first(a.border_block(r))
        } else {
            each_without_last(a.border_block(r))
        }),
    decreases r,
{
    assert(a.has_row_line(r) == b.has_row_line(r));
    assert(band_in(a, Band::Line(r as usize), -1));
    if first {
        assert(b.border_block(r) =~= each_without_first(a.border_block(r)));
    } else {
        assert(b.border_block(r) =~= each_without_last(a.border_block(r)));
    }
    if r > 0 {
        above_each(a, b, r - 1, first);
        assert forall|k: int| 0 <= k < a.heights()[r - 1] implies #[trigger] b.row_line(r - 1, k)
            == (if first {
            a.row_line(r - 1, k).drop_first()
        } else {
            a.row_line(r - 1, k).drop_last()
        }) by {
            assert(band_in(a, Band::Row((r - 1) as usize, k as usize), -1));
        }
        if first {
            assert(b.row_block(r - 1) =~= each_without_first(a.row_block(r - 1)));
            assert(b.lines_above(r) =~= each_without_first(a.lines_above(r)));
        } else {
            assert(b.row_block(r - 1) =~= each_without_last(a.row_block(r - 1)));
            assert(b.lines_above(r) =~= each_without_last(a.lines_above(r)));
        }
    } else {
        if first {
            assert(b.lines_above(r) =~= each_without_first(a.lines_above(r)));
        } else {
            assert(b.lines_above(r) =~= each_without_last(a.lines_above(r)));
        }
    }
}

/// Turning off the left frame line removes the first character of every
/// line of the drawing and nothing else, in grids without border texts in
/// which the left line is drawn before and not after, the same row
/// boundaries are drawn before and after, and the crossings are plain.
pub proof fn left_off_removes_first_column(grid: GridView)
    requires
        grid.wf(),
        grid.rows() > 0,
        grid.cols() > 0,
        grid.plain_crossings(),
        grid.texts.len() == 0,
        grid.has_col_line(0),
        !grid.with_style(grid.style.off_left()).has_col_line(0),
        forall|i: int|
            0 <= i <= grid.rows() ==> grid.with_style(grid.style.off_left()).has_row_line(i)
                == #[trigger] grid.has_row_line(i),
    ensures
        grid.with_style(grid.style.off_left()).drawing() == each_without_first(
            grid.drawing(),
        ),
{
    let other = grid.with_style(grid.style.off_left());
    override_slots(grid.style, LineSlot::Start, None);
    other_end_keeps_reach(grid.style, LineSlot::Start, None, grid.rows() + 1);
    other_end_keeps_reach(grid.style, LineSlot::Start, None, grid.cols() + 1);
    other_end_keeps_reach(grid.style, LineSlot::Start, None, grid.rows() + 1);
    other_end_keeps_reach(grid.style, LineSlot::Start, None, grid.cols() + 1);
    assert(akin(grid, other, -1, 0));
    sizes_agree(grid, other, -1, 0);
    assert forall|band: Band| band_in(grid, band, -1) implies #[trigger] other.line(band)
        == grid.line(band).drop_first() by {
        line_without_first(grid, other, band, grid.cols());
        pieces_agree(grid, other, -1, 0, band, grid.cols());
        line_is_plain(grid, band);
        line_is_plain(other, band);
        assert(other.plain_line(band) =~= grid.plain_line(band).drop_first());
    }
    above_each(grid, other, grid.rows(), true);
    assert(other.drawing() =~= each_without_first(grid.drawing()));
}

/// Where the right boundary is drawn in one of two akin grids and not in
/// the other, both show the same before it.
proof fn prefixes_agree_before_last(a: GridView, b: GridView, band: Band, c: int)
    requires
        a.wf(),
        a.cols() > 0,
        akin(a, b, -1, a.cols()),
        band_in(a, band, -1),
        0 <= c <= a.cols(),
    ensures
        a.line_prefix(band, c) == b.line_prefix(band, c),
    decreases c,
{
    if c > 0 {
        prefixes_agree_before_last(a, b, band, c - 1);
        pieces_agree(a, b, -1, a.cols(), band, c - 1);
    }
}

/// Turning off the right frame line removes the last character of every
/// line of the drawing and nothing else, in grids without border texts in
/// which the right line is drawn before and not after, the same row
/// boundaries are drawn before and after, and the crossings are plain.
pub proof fn right_off_removes_last_column(grid: GridView)
    requires
        grid.wf(),
        grid.rows() > 0,
        grid.cols() > 0,
        grid.plain_crossings(),
        grid.texts.len() == 0,
        grid.has_col_line(grid.cols()),
        !grid.with_style(grid.style.off_right()).has_col_line(grid.cols()),
        forall|i: int|
            0 <= i <= grid.rows() ==> grid.with_style(grid.style.off_right()).has_row_line(i)
                == #[trigger] grid.has_row_line(i),
    ensures
        grid.with_style(grid.style.off_right()).drawing() == each_without_last(
            grid.drawing(),
        ),
{
    let other = grid.with_style(grid.style.off_right());
    override_slots(grid.style, LineSlot::End, None);
    other_end_keeps_reach(grid.style, LineSlot::End, None, grid.rows() + 1);
    other_end_keeps_reach(grid.style, LineSlot::End, None, grid.cols() + 1);
    other_end_keeps_reach(grid.style, LineSlot::End, None, grid.rows() + 1);
    other_end_keeps_reach(grid.style, LineSlot::End, None, grid.cols() + 1);
    assert(akin(grid, other, -1, grid.cols()));
    sizes_agree(grid, other, -1, grid.cols());
    assert forall|band: Band| band_in(grid, band, -1) implies #[trigger] other.line(band)
        == grid.line(band).drop_last() by {
        prefixes_agree_before_last(grid, other, band, grid.cols());
        line_is_plain(grid, band);
        line_is_plain(other, band);
        assert(other.plain_line(band) =~= grid.plain_line(band).drop_last());
    }
    above_each(grid, other, grid.rows(), false);
    assert(other.drawing() =~= each_without_last(grid.drawing()));
}

} // verus!
