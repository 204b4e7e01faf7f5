//! The compositor: the drawing of a grid, line by line.
//!
//! The drawing has one line for every drawn row boundary and one for every
//! line of every row. Along a line stand, from left to right, one character
//! for every drawn column boundary and the characters of every column. A
//! cell that spans several rows or columns takes up the boundaries between
//! them: there its own content shows in place of the border.

use crate::dimension::{start, start_is_monotone, stretch, Axis, Dimensions, grown_is_sized};
use crate::grid::{BorderMark, BorderText, BorderTextView, Direction, Grid, GridView, Offset, text_views};
use crate::matrix::{span_at_is_member, widest, Cell, Span};
use crate::plan::{are_joined, joined, BorderPlan};
use crate::settings::{
    lead_horizontal,
    lead_vertical,
    leading_columns,
    leading_lines,
    AlignmentHorizontal,
    AlignmentStrategy,
    AlignmentVertical,
    Padding,
};
use crate::style::{first_of, or_else};
use crate::text::{lines_of, push_char, views_of};
use vstd::prelude::*;

verus! {

/// The character of an optional border character: a blank where there is none.
pub open spec fn shown(c: Option<char>) -> char {
    match c {
        Some(ch) => ch,
        None => ' ',
    }
}

/// Whether line `y`, place `x` of a box of `width` by `height` characters
/// lies in the padding of the box.
pub open spec fn in_padding(width: int, height: int, padding: Padding, y: int, x: int) -> bool {
    y < padding.top || y >= height - padding.bottom || x < padding.left || x >= width
        - padding.right
}

/// Computes [`in_padding`].
pub fn is_in_padding(width: usize, height: usize, padding: &Padding, y: usize, x: usize) -> (inside:
    bool)
    ensures
        inside == in_padding(width as int, height as int, *padding, y as int, x as int),
{
    y < padding.top || height < padding.bottom || y >= height - padding.bottom || x < padding.left
        || width < padding.right || x >= width - padding.right
}

/// The character at line `y`, place `x` of the box of `width` by `height`
/// characters that shows a cell: the padding holds its filling; inside the
/// padding, the lines of the cell stand as one block where the vertical
/// alignment puts it, each line where the horizontal alignment puts it, by
/// its own length or by the length of the longest line; everything else is
/// blank.
pub open spec fn cell_pixel(
    lines: Seq<Seq<char>>,
    width: int,
    height: int,
    padding: Padding,
    horizontal: AlignmentHorizontal,
    vertical: AlignmentVertical,
    strategy: AlignmentStrategy,
    y: int,
    x: int,
) -> char {
    if in_padding(width, height, padding, y, x) {
        padding.fill
    } else {
        text_pixel(lines, width, height, padding, horizontal, vertical, strategy, y, x)
    }
}

/// The character at line `y`, place `x` of the box that shows a cell,
/// outside the padding: a character of the content, or a blank.
pub open spec fn text_pixel(
    lines: Seq<Seq<char>>,
    width: int,
    height: int,
    padding: Padding,
    horizontal: AlignmentHorizontal,
    vertical: AlignmentVertical,
    strategy: AlignmentStrategy,
    y: int,
    x: int,
) -> char {
    let room_h = height - padding.top - padding.bottom;
    let spare_h = if room_h > lines.len() {
        room_h - lines.len()
    } else {
        0
    };
    let l = y - padding.top - lead_vertical(vertical, spare_h);
    if 0 <= l < lines.len() {
        let room_w = width - padding.left - padding.right;
        let length = match strategy {
            AlignmentStrategy::PerLine => lines[l].len() as int,
            AlignmentStrategy::PerCell => widest(lines),
        };
        let spare_w = if room_w > length {
            room_w - length
        } else {
            0
        };
        let t = x - padding.left - lead_horizontal(horizontal, spare_w);
        if 0 <= t < lines[l].len() {
            lines[l][t]
        } else {
            ' '
        }
    } else {
        ' '
    }
}

/// Whether a character of the content of the cell stands at line `y`,
/// place `x` of the box that shows the cell, and not a blank of its
/// padding or alignment.
pub open spec fn cell_is_text(
    lines: Seq<Seq<char>>,
    width: int,
    height: int,
    padding: Padding,
    horizontal: AlignmentHorizontal,
    vertical: AlignmentVertical,
    strategy: AlignmentStrategy,
    y: int,
    x: int,
) -> bool {
    !in_padding(width, height, padding, y, x) && text_spot(
        lines,
        width,
        height,
        padding,
        horizontal,
        vertical,
        strategy,
        y,
        x,
    )
}

/// Whether a character of the content of the cell stands at line `y`,
/// place `x` of the box that shows the cell, the padding left aside.
pub open spec fn text_spot(
    lines: Seq<Seq<char>>,
    width: int,
    height: int,
    padding: Padding,
    horizontal: AlignmentHorizontal,
    vertical: AlignmentVertical,
    strategy: AlignmentStrategy,
    y: int,
    x: int,
) -> bool {
    let room_h = height - padding.top - padding.bottom;
    let spare_h = if room_h > lines.len() {
        room_h - lines.len()
    } else {
        0
    };
    let l = y - padding.top - lead_vertical(vertical, spare_h);
    if 0 <= l < lines.len() {
        let room_w = width - padding.left - padding.right;
        let length = match strategy {
            AlignmentStrategy::PerLine => lines[l].len() as int,
            AlignmentStrategy::PerCell => widest(lines),
        };
        let spare_w = if room_w > length {
            room_w - length
        } else {
            0
        };
        let t = x - padding.left - lead_horizontal(horizontal, spare_w);
        0 <= t < lines[l].len()
    } else {
        false
    }
}

/// Computes [`cell_is_text`].
pub fn is_text_of(
    cell: &Cell,
    width: usize,
    height: usize,
    padding: &Padding,
    horizontal: AlignmentHorizontal,
    vertical: AlignmentVertical,
    strategy: AlignmentStrategy,
    y: usize,
    x: usize,
) -> (is_text: bool)
    ensures
        is_text == cell_is_text(
            cell@,
            width as int,
            height as int,
            *padding,
            horizontal,
            vertical,
            strategy,
            y as int,
            x as int,
        ),
{
    if is_in_padding(width, height, padding, y, x) {
        return false;
    }
    let count = cell.count_lines();
    let room_h = if height >= padding.top && height - padding.top >= padding.bottom {
        height - padding.top - padding.bottom
    } else {
        0
    };
    let spare_h = if room_h > count {
        room_h - count
    } else {
        0
    };
    let lead_h = leading_lines(vertical, spare_h);
    if y < padding.top || y - padding.top < lead_h {
        return false;
    }
    let l = y - padding.top - lead_h;
    if l >= count {
        return false;
    }
    let len = cell.line_len(l);
    let room_w = if width >= padding.left && width - padding.left >= padding.right {
        width - padding.left - padding.right
    } else {
        0
    };
    let length = match strategy {
        AlignmentStrategy::PerLine => len,
        AlignmentStrategy::PerCell => cell.width(),
    };
    let spare_w = if room_w > length {
        room_w - length
    } else {
        0
    };
    let lead_w = leading_columns(horizontal, spare_w);
    if x < padding.left || x - padding.left < lead_w {
        return false;
    }
    x - padding.left - lead_w < len
}

/// Computes [`cell_pixel`].
pub fn pixel_of(
    cell: &Cell,
    width: usize,
    height: usize,
    padding: &Padding,
    horizontal: AlignmentHorizontal,
    vertical: AlignmentVertical,
    strategy: AlignmentStrategy,
    y: usize,
    x: usize,
) -> (ch: char)
    ensures
        ch == cell_pixel(
            cell@,
            width as int,
            height as int,
            *padding,
            horizontal,
            vertical,
            strategy,
            y as int,
            x as int,
        ),
{
    if is_in_padding(width, height, padding, y, x) {
        return padding.fill;
    }
    let count = cell.count_lines();
    let room_h = if height >= padding.top && height - padding.top >= padding.bottom {
        height - padding.top - padding.bottom
    } else {
        0
    };
    let spare_h = if room_h > count {
        room_h - count
    } else {
        0
    };
    let lead_h = leading_lines(vertical, spare_h);
    if y < padding.top || y - padding.top < lead_h {
        return ' ';
    }
    let l = y - padding.top - lead_h;
    if l >= count {
        return ' ';
    }
    let len = cell.line_len(l);
    let room_w = if width >= padding.left && width - padding.left >= padding.right {
        width - padding.left - padding.right
    } else {
        0
    };
    let length = match strategy {
        AlignmentStrategy::PerLine => len,
        AlignmentStrategy::PerCell => cell.width(),
    };
    let spare_w = if room_w > length {
        room_w - length
    } else {
        0
    };
    let lead_w = leading_columns(horizontal, spare_w);
    if x < padding.left || x - padding.left < lead_w {
        return ' ';
    }
    let t = x - padding.left - lead_w;
    if t >= len {
        return ' ';
    }
    cell.char_at(l, t)
}

impl BorderMark {
    /// Whether the mark is set for place `at` of the stretch of border of
    /// the given direction at position (`a`, `b`), which is `len` long, by
    /// an offset from its start (`begin`) or from its end.
    pub open spec fn hits(
        self,
        direction: Direction,
        a: int,
        b: int,
        at: int,
        len: int,
        begin: bool,
    ) -> bool {
        &&& self.mark.direction == direction
        &&& self.row == a
        &&& self.col == b
        &&& match self.mark.offset {
            Offset::Begin(n) => begin && n == at,
            Offset::End(n) => !begin && n < len && len - 1 - n == at,
        }
    }

    /// Computes [`BorderMark::hits`].
    pub fn is_at(&self, horizontal: bool, a: usize, b: usize, at: usize, len: usize, begin: bool) -> (hit:
        bool)
        requires
            at < len,
        ensures
            hit == self.hits(
                if horizontal {
                    Direction::Horizontal
                } else {
                    Direction::Vertical
                },
                a as int,
                b as int,
                at as int,
                len as int,
                begin,
            ),
    {
        let same_direction = match self.mark.direction {
            Direction::Horizontal => horizontal,
            Direction::Vertical => !horizontal,
        };
        let same_place = match self.mark.offset {
            Offset::Begin(n) => begin && n == at,
            Offset::End(n) => !begin && n < len && len - 1 - n == at,
        };
        same_direction && self.row == a && self.col == b && same_place
    }
}

/// The character of the last mark that is set for a place on a stretch of
/// border by an offset from its start (`begin`) or from its end.
pub open spec fn mark_of_kind(
    marks: Seq<BorderMark>,
    direction: Direction,
    a: int,
    b: int,
    at: int,
    len: int,
    begin: bool,
) -> Option<char>
    decreases marks.len(),
{
    if marks.len() == 0 {
        None
    } else if marks.last().hits(direction, a, b, at, len, begin) {
        Some(marks.last().mark.ch)
    } else {
        mark_of_kind(marks.drop_last(), direction, a, b, at, len, begin)
    }
}

/// The character that the marks set for a place on a stretch of border: that
/// of the last mark set for it by an offset from the start, or else of the
/// last mark set for it by an offset from the end.
pub open spec fn mark_at(
    marks: Seq<BorderMark>,
    direction: Direction,
    a: int,
    b: int,
    at: int,
    len: int,
) -> Option<char> {
    or_else(
        mark_of_kind(marks, direction, a, b, at, len, true),
        mark_of_kind(marks, direction, a, b, at, len, false),
    )
}

/// Computes [`mark_of_kind`].
pub fn find_mark_of_kind(
    marks: &Vec<BorderMark>,
    horizontal: bool,
    a: usize,
    b: usize,
    at: usize,
    len: usize,
    begin: bool,
) -> (c: Option<char>)
    requires
        at < len,
    ensures
        c == mark_of_kind(
            marks@,
            if horizontal {
                Direction::Horizontal
            } else {
                Direction::Vertical
            },
            a as int,
            b as int,
            at as int,
            len as int,
            begin,
        ),
{
    let ghost direction = if horizontal {
        Direction::Horizontal
    } else {
        Direction::Vertical
    };
    let mut found: Option<char> = None;
    let mut k: usize = 0;
    while k < marks.len()
        invariant
            k <= marks.len(),
            at < len,
            direction == (if horizontal {
                Direction::Horizontal
            } else {
                Direction::Vertical
            }),
            found == mark_of_kind(
                marks@.take(k as int),
                direction,
                a as int,
                b as int,
                at as int,
                len as int,
                begin,
            ),
        decreases marks.len() - k,
    {
        proof {
            assert(marks@.take(k + 1).drop_last() == marks@.take(k as int));
        }
        if marks[k].is_at(horizontal, a, b, at, len, begin) {
            found = Some(marks[k].mark.ch);
        }
        k += 1;
    }
    proof {
        assert(marks@.take(k as int) == marks@);
    }
    found
}

/// Computes [`mark_at`].
pub fn find_mark(
    marks: &Vec<BorderMark>,
    horizontal: bool,
    a: usize,
    b: usize,
    at: usize,
    len: usize,
) -> (c: Option<char>)
    requires
        at < len,
    ensures
        c == mark_at(
            marks@,
            if horizontal {
                Direction::Horizontal
            } else {
                Direction::Vertical
            },
            a as int,
            b as int,
            at as int,
            len as int,
        ),
{
    first_of(
        find_mark_of_kind(marks, horizontal, a, b, at, len, true),
        find_mark_of_kind(marks, horizontal, a, b, at, len, false),
    )
}

/// Where a text with the given offset starts on a line of `width`
/// characters; nowhere if it is to end further left than the line begins.
pub open spec fn text_start(offset: Offset, width: int) -> Option<int> {
    match offset {
        Offset::Begin(n) => Some(n as int),
        Offset::End(n) => if n <= width {
            Some(width - n)
        } else {
            None
        },
    }
}

/// `line` with `text` written over it from place `at` on. The line keeps
/// its length: what of the text does not fit on it is left out.
pub open spec fn stamp(line: Seq<char>, text: Seq<char>, at: int) -> Seq<char> {
    Seq::new(
        line.len(),
        |x: int|
            if at <= x < at + text.len() {
                text[x - at]
            } else {
                line[x]
            },
    )
}

/// `line`, the border line of row boundary `i`, with the texts set for that
/// boundary written over it, in their order.
pub open spec fn stamped(line: Seq<char>, texts: Seq<BorderTextView>, i: int) -> Seq<char>
    decreases texts.len(),
{
    if texts.len() == 0 {
        line
    } else {
        let before = stamped(line, texts.drop_last(), i);
        let text = texts.last();
        match text_start(text.offset, line.len() as int) {
            Some(at) => if text.line == i {
                stamp(before, text.text, at)
            } else {
                before
            },
            None => before,
        }
    }
}

/// Stamping keeps the length of the line.
pub proof fn stamped_keeps_length(line: Seq<char>, texts: Seq<BorderTextView>, i: int)
    ensures
        stamped(line, texts, i).len() == line.len(),
    decreases texts.len(),
{
    if texts.len() > 0 {
        stamped_keeps_length(line, texts.drop_last(), i);
    }
}

/// A line of the drawing: the border line of a row boundary, or one of the
/// lines of a row.
#[derive(Debug, Clone, Copy, PartialEq, Eq, Structural)]
pub enum Band {
    /// The border line of the row boundary with this index.
    Line(usize),
    /// Of the row with the first index, the line with the second.
    Row(usize, usize),
}

impl GridView {
    /// The place in every line where column `c` starts.
    pub open spec fn col_start(self, c: int) -> int {
        start(self.widths(), self.lines(Axis::Columns), c)
    }

    /// The line of the drawing where row `r` starts.
    pub open spec fn row_start(self, r: int) -> int {
        start(self.heights(), self.lines(Axis::Rows), r)
    }

    /// Whether the drawing has the line `band`.
    pub open spec fn has_band(self, band: Band) -> bool {
        match band {
            Band::Line(i) => i <= self.rows() && self.has_row_line(i as int),
            Band::Row(r, k) => r < self.rows() && k < self.heights()[r as int],
        }
    }

    /// The index of the line `band` in the drawing.
    pub open spec fn band_y(self, band: Band) -> int {
        match band {
            Band::Line(i) => self.row_start(i as int) - 1,
            Band::Row(r, k) => self.row_start(r as int) + k,
        }
    }

    /// The grid row whose cells show on `band`: the row itself, and for a
    /// border line the row below it.
    pub open spec fn band_row(self, band: Band) -> int {
        match band {
            Band::Line(i) => i as int,
            Band::Row(r, k) => r as int,
        }
    }

    /// The character at line `y`, place `x` of the drawing, where the cell
    /// of the rectangle `span` shows there.
    pub open spec fn region_pixel(self, span: Span, y: int, x: int) -> char {
        cell_pixel(
            self.matrix.cells[span.row as int][span.col as int],
            stretch(self.widths(), self.lines(Axis::Columns), span.col as int, span.cols as int),
            stretch(self.heights(), self.lines(Axis::Rows), span.row as int, span.rows as int),
            self.padding,
            self.horizontal,
            self.vertical,
            self.strategy,
            y - self.row_start(span.row as int),
            x - self.col_start(span.col as int),
        )
    }

    /// Whether a character of the content of the cell of the rectangle
    /// `span` stands at line `y`, place `x` of the drawing.
    pub open spec fn region_is_text(self, span: Span, y: int, x: int) -> bool {
        cell_is_text(
            self.matrix.cells[span.row as int][span.col as int],
            stretch(self.widths(), self.lines(Axis::Columns), span.col as int, span.cols as int),
            stretch(self.heights(), self.lines(Axis::Rows), span.row as int, span.rows as int),
            self.padding,
            self.horizontal,
            self.vertical,
            self.strategy,
            y - self.row_start(span.row as int),
            x - self.col_start(span.col as int),
        )
    }

    /// Whether, on `band`, a span takes up column boundary `j`.
    pub open spec fn takes_boundary(self, band: Band, j: int) -> bool {
        let spans = self.matrix.spans;
        0 < j < self.cols() && match band {
            Band::Row(r, k) => joined(spans, r as int, j - 1, r as int, j),
            Band::Line(i) => 0 < i < self.rows() && joined(spans, i - 1, j - 1, i - 1, j) && joined(
                spans,
                i - 1,
                j - 1,
                i as int,
                j - 1,
            ) && joined(spans, i - 1, j - 1, i as int, j),
        }
    }

    /// Whether, on `band`, a cell shows in column `c`: always on a line of a
    /// row, and on a border line where a span reaches across it.
    pub open spec fn takes_track(self, band: Band, c: int) -> bool {
        match band {
            Band::Row(r, k) => true,
            Band::Line(i) => 0 < i < self.rows() && joined(self.matrix.spans, i - 1, c, i as int, c),
        }
    }

    /// The character on `band` at the drawn column boundary `j`.
    pub open spec fn boundary_char(self, band: Band, j: int) -> char {
        if self.takes_boundary(band, j) {
            self.region_pixel(
                self.matrix.region(self.band_row(band), j),
                self.band_y(band),
                self.col_start(j) - 1,
            )
        } else {
            match band {
                Band::Line(i) => shown(self.crossing(i as int, j)),
                Band::Row(r, k) => shown(
                    or_else(
                        mark_at(
                            self.marks,
                            Direction::Vertical,
                            r as int,
                            j,
                            k as int,
                            self.heights()[r as int],
                        ),
                        self.vertical_fill(r as int, j),
                    ),
                ),
            }
        }
    }

    /// The character on `band` at place `x` of column `c`.
    pub open spec fn track_char(self, band: Band, c: int, x: int) -> char {
        if self.takes_track(band, c) {
            self.region_pixel(
                self.matrix.region(self.band_row(band), c),
                self.band_y(band),
                self.col_start(c) + x,
            )
        } else {
            shown(
                or_else(
                    mark_at(
                        self.marks,
                        Direction::Horizontal,
                        self.band_row(band),
                        c,
                        x,
                        self.widths()[c],
                    ),
                    self.horizontal_fill(self.band_row(band), c),
                ),
            )
        }
    }

    /// What `band` shows at column boundary `j`: one character where the
    /// boundary is drawn, nothing where it is not.
    pub open spec fn boundary_piece(self, band: Band, j: int) -> Seq<char> {
        if self.has_col_line(j) {
            seq![self.boundary_char(band, j)]
        } else {
            Seq::empty()
        }
    }

    /// What `band` shows in column `c`.
    pub open spec fn track_piece(self, band: Band, c: int) -> Seq<char> {
        Seq::new(self.widths()[c] as nat, |x: int| self.track_char(band, c, x))
    }

    /// What `band` shows before column boundary `c`.
    pub open spec fn line_prefix(self, band: Band, c: int) -> Seq<char>
        decreases c,
    {
        if c <= 0 {
            Seq::empty()
        } else {
            self.line_prefix(band, c - 1) + self.boundary_piece(band, c - 1) + self.track_piece(
                band,
                c - 1,
            )
        }
    }

    /// The line `band`, before any text is written over it.
    pub open spec fn plain_line(self, band: Band) -> Seq<char> {
        self.line_prefix(band, self.cols()) + self.boundary_piece(band, self.cols())
    }

    /// The line `band` of the drawing: a border line carries the texts set
    /// for its boundary.
    pub open spec fn line(self, band: Band) -> Seq<char> {
        match band {
            Band::Line(i) => stamped(self.plain_line(band), self.texts, i as int),
            Band::Row(r, k) => self.plain_line(band),
        }
    }

    /// The border line of row boundary `i`, where it is drawn.
    pub open spec fn border_block(self, i: int) -> Seq<Seq<char>> {
        if self.has_row_line(i) {
            seq![self.line(Band::Line(i as usize))]
        } else {
            Seq::empty()
        }
    }

    /// Line `k` of row `r`.
    pub open spec fn row_line(self, r: int, k: int) -> Seq<char> {
        self.line(Band::Row(r as usize, k as usize))
    }

    /// The lines of row `r`.
    pub open spec fn row_block(self, r: int) -> Seq<Seq<char>> {
        Seq::new(self.heights()[r] as nat, |k: int| self.row_line(r, k))
    }

    /// The lines of the drawing above row boundary `r`.
    pub open spec fn lines_above(self, r: int) -> Seq<Seq<char>>
        decreases r,
    {
        if r <= 0 {
            Seq::empty()
        } else {
            self.lines_above(r - 1) + self.border_block(r - 1) + self.row_block(r - 1)
        }
    }

    /// The drawing: all its lines from top to bottom. A grid without rows or
    /// without columns has no lines.
    pub open spec fn drawing(self) -> Seq<Seq<char>> {
        if self.rows() == 0 || self.cols() == 0 {
            Seq::empty()
        } else {
            self.lines_above(self.rows()) + self.border_block(self.rows())
        }
    }
}

/// The lines joined into one text, with a line feed between every two.
pub open spec fn joined_lines(lines: Seq<Seq<char>>) -> Seq<char>
    decreases lines.len(),
{
    if lines.len() == 0 {
        Seq::empty()
    } else if lines.len() == 1 {
        lines[0]
    } else {
        joined_lines(lines.drop_last()).push('\n') + lines.last()
    }
}

/// Splitting a text into lines and joining the lines gives the text back,
/// and a text has at least one line.
pub proof fn lines_join_back(text: Seq<char>)
    ensures
        lines_of(text).len() >= 1,
        joined_lines(lines_of(text)) == text,
    decreases text.len(),
{
    if text.len() == 0 {
        assert(lines_of(text)[0] =~= text);
    } else {
        let before = text.drop_last();
        let lines = lines_of(before);
        lines_join_back(before);
        assert(text =~= before.push(text.last()));
        if text.last() == '\n' {
            let next = lines.push(Seq::<char>::empty());
            assert(next.drop_last() =~= lines);
            assert(joined_lines(next) =~= joined_lines(lines).push('\n'));
        } else {
            let grown = lines.last().push(text.last());
            let next = lines.drop_last().push(grown);
            assert(next.drop_last() =~= lines.drop_last());
            if lines.len() == 1 {
                assert(joined_lines(lines) == lines[0]);
                assert(joined_lines(next) =~= joined_lines(lines).push(text.last()));
            } else {
                assert(joined_lines(next) =~= joined_lines(lines).push(text.last()));
            }
        }
    }
}

/// Writes the border texts of row boundary `i` over its line.
pub fn stamp_texts(line: &mut Vec<char>, texts: &Vec<BorderText>, i: usize)
    ensures
        final(line)@ == stamped(old(line)@, text_views(texts@), i as int),
{
    let ghost plain = line@;
    let width = line.len();
    let mut k: usize = 0;
    while k < texts.len()
        invariant
            k <= texts.len(),
            line.len() == width,
            plain.len() == width,
            line@ == stamped(plain, text_views(texts@).take(k as int), i as int),
        decreases texts.len() - k,
    {
        let ghost before = line@;
        proof {
            let views = text_views(texts@);
            assert(views.take(k + 1).drop_last() == views.take(k as int));
            assert(views.take(k + 1).last() == texts[k as int]@);
        }
        let text = &texts[k];
        let at: Option<usize> = match text.offset {
            Offset::Begin(n) => Some(n),
            Offset::End(n) => if n <= width {
                Some(width - n)
            } else {
                None
            },
        };
        match at {
            Some(from) => {
                if text.line == i && from < width {
                    let mut x: usize = 0;
                    while x < text.text.len() && x < width - from
                        invariant
                            x <= text.text.len(),
                            from < width,
                            x <= width - from,
                            line.len() == width,
                            before.len() == width,
                            forall|p: int|
                                0 <= p < width ==> #[trigger] line[p] == (if from <= p < from + x {
                                    text.text[p - from]
                                } else {
                                    before[p]
                                }),
                        decreases text.text.len() - x,
                    {
                        line.set(from + x, text.text[x]);
                        x += 1;
                    }
                    proof {
                        assert(line@ =~= stamp(before, text.text@, from as int));
                    }
                } else {
                    proof {
                        if text.line == i {
                            assert(stamp(before, text.text@, from as int) =~= before);
                        }
                    }
                }
            },
            None => {},
        }
        k += 1;
    }
    proof {
        assert(text_views(texts@).take(k as int) == text_views(texts@));
    }
}

/// The lines joined into one string, with a line feed between every two.
pub fn join_lines(lines: &Vec<Vec<char>>) -> (text: String)
    ensures
        text@ == joined_lines(views_of(lines@)),
{
    let mut text = String::new();
    let mut k: usize = 0;
    while k < lines.len()
        invariant
            k <= lines.len(),
            text@ == joined_lines(views_of(lines@).take(k as int)),
        decreases lines.len() - k,
    {
        let ghost views = views_of(lines@);
        let ghost before = text@;
        proof {
            assert(views.take(k + 1).drop_last() == views.take(k as int));
            assert(views.take(k + 1).last() == lines[k as int]@);
        }
        if k > 0 {
            push_char(&mut text, '\n');
        }
        let ghost base = text@;
        let line = &lines[k];
        let mut x: usize = 0;
        while x < line.len()
            invariant
                x <= line.len(),
                text@ == base + line@.take(x as int),
            decreases line.len() - x,
        {
            push_char(&mut text, line[x]);
            proof {
                assert(line@.take(x + 1) == line@.take(x as int).push(line[x as int]));
            }
            x += 1;
        }
        proof {
            assert(line@.take(x as int) == line@);
            if k == 0 {
                assert(views.take(1).len() == 1);
                assert(base + line@ == line@);
                assert(views.take(1)[0] == line@);
            }
        }
        k += 1;
    }
    proof {
        assert(views_of(lines@).take(k as int) == views_of(lines@));
    }
    text
}

impl Grid {
    /// Computes [`GridView::region_pixel`].
    pub(crate) fn region_char(&self, dimensions: &Dimensions, span: Span, y: usize, x: usize) -> (ch: char)
        requires
            self@.wf(),
            self@.fits(),
            dimensions.describes(self@),
            span.fits_in(self@.rows(), self@.cols()),
        ensures
            ch == self@.region_pixel(span, y as int, x as int),
    {
        let last_col = span.col + span.cols - 1;
        let last_row = span.row + span.rows - 1;
        proof {
            let widths = self@.widths();
            let heights = self@.heights();
            grown_is_sized(self@, Axis::Columns, self@.matrix.spans.len() as int);
            grown_is_sized(self@, Axis::Rows, self@.matrix.spans.len() as int);
            start_is_monotone(widths, self@.lines(Axis::Columns), span.col as int, last_col as int);
            start_is_monotone(widths, self@.lines(Axis::Columns), last_col as int, self@.cols());
            start_is_monotone(heights, self@.lines(Axis::Rows), span.row as int, last_row as int);
            start_is_monotone(heights, self@.lines(Axis::Rows), last_row as int, self@.rows());
        }
        let width = dimensions.col_starts[last_col] + dimensions.widths[last_col]
            - dimensions.col_starts[span.col];
        let height = dimensions.row_starts[last_row] + dimensions.heights[last_row]
            - dimensions.row_starts[span.row];
        if y < dimensions.row_starts[span.row] || x < dimensions.col_starts[span.col] {
            return self.padding.fill;
        }
        pixel_of(
            self.matrix.cell(span.row, span.col),
            width,
            height,
            &self.padding,
            self.horizontal,
            self.vertical,
            self.strategy,
            y - dimensions.row_starts[span.row],
            x - dimensions.col_starts[span.col],
        )
    }

    /// Computes [`GridView::region_is_text`].
    pub(crate) fn region_text(&self, dimensions: &Dimensions, span: Span, y: usize, x: usize) -> (is_text:
        bool)
        requires
            self@.wf(),
            self@.fits(),
            dimensions.describes(self@),
            span.fits_in(self@.rows(), self@.cols()),
        ensures
            is_text == self@.region_is_text(span, y as int, x as int),
    {
        let last_col = span.col + span.cols - 1;
        let last_row = span.row + span.rows - 1;
        proof {
            let widths = self@.widths();
            let heights = self@.heights();
            grown_is_sized(self@, Axis::Columns, self@.matrix.spans.len() as int);
            grown_is_sized(self@, Axis::Rows, self@.matrix.spans.len() as int);
            start_is_monotone(widths, self@.lines(Axis::Columns), span.col as int, last_col as int);
            start_is_monotone(widths, self@.lines(Axis::Columns), last_col as int, self@.cols());
            start_is_monotone(heights, self@.lines(Axis::Rows), span.row as int, last_row as int);
            start_is_monotone(heights, self@.lines(Axis::Rows), last_row as int, self@.rows());
        }
        let width = dimensions.col_starts[last_col] + dimensions.widths[last_col]
            - dimensions.col_starts[span.col];
        let height = dimensions.row_starts[last_row] + dimensions.heights[last_row]
            - dimensions.row_starts[span.row];
        if y < dimensions.row_starts[span.row] || x < dimensions.col_starts[span.col] {
            return false;
        }
        is_text_of(
            self.matrix.cell(span.row, span.col),
            width,
            height,
            &self.padding,
            self.horizontal,
            self.vertical,
            self.strategy,
            y - dimensions.row_starts[span.row],
            x - dimensions.col_starts[span.col],
        )
    }

    /// The region of a position of the grid lies within the grid.
    pub(crate) proof fn region_fits(&self, r: int, c: int)
        requires
            self@.wf(),
            0 <= r < self@.rows(),
            0 <= c < self@.cols(),
            self@.rows() < usize::MAX,
            self@.cols() < usize::MAX,
        ensures
            self@.matrix.region(r, c).fits_in(self@.rows(), self@.cols()),
    {
        span_at_is_member(self@.matrix.spans, r, c);
    }

    /// The line of the drawing on which `band` stands.
    pub(crate) fn band_line(&self, dimensions: &Dimensions, band: Band) -> (y: usize)
        requires
            self@.wf(),
            self@.fits(),
            dimensions.describes(self@),
            self@.has_band(band),
            self@.band_row(band) < self@.rows(),
        ensures
            y == self@.band_y(band),
    {
        proof {
            let heights = self@.heights();
            grown_is_sized(self@, Axis::Rows, self@.matrix.spans.len() as int);
            start_is_monotone(heights, self@.lines(Axis::Rows), self@.band_row(band), self@.rows());
            if self@.band_row(band) > 0 {
                start_is_monotone(
                    heights,
                    self@.lines(Axis::Rows),
                    self@.band_row(band) - 1,
                    self@.band_row(band) - 1,
                );
            }
        }
        match band {
            Band::Line(i) => dimensions.row_starts[i] - 1,
            Band::Row(r, k) => dimensions.row_starts[r] + k,
        }
    }

    /// Computes [`GridView::takes_boundary`].
    pub(crate) fn boundary_taken(&self, band: Band, j: usize) -> (taken: bool)
        ensures
            taken == self@.takes_boundary(band, j as int),
    {
        let rows = self.matrix.rows();
        let cols = self.matrix.cols();
        if !(0 < j && j < cols) {
            return false;
        }
        match band {
            Band::Row(r, k) => are_joined(&self.matrix, r, j - 1, r, j),
            Band::Line(i) => 0 < i && i < rows && are_joined(&self.matrix, i - 1, j - 1, i - 1, j)
                && are_joined(&self.matrix, i - 1, j - 1, i, j - 1) && are_joined(
                &self.matrix,
                i - 1,
                j - 1,
                i,
                j,
            ),
        }
    }

    /// Computes [`GridView::takes_track`].
    pub(crate) fn track_taken(&self, band: Band, c: usize) -> (taken: bool)
        ensures
            taken == self@.takes_track(band, c as int),
    {
        let rows = self.matrix.rows();
        match band {
            Band::Row(r, k) => true,
            Band::Line(i) => 0 < i && i < rows && are_joined(&self.matrix, i - 1, c, i, c),
        }
    }

    /// Computes [`GridView::boundary_char`].
    pub(crate) fn boundary_char_of(&self, plan: &BorderPlan, dimensions: &Dimensions, band: Band, j: usize) -> (ch:
        char)
        requires
            self@.wf(),
            self@.fits(),
            plan.describes(self@),
            dimensions.describes(self@),
            self@.has_band(band),
            j <= self@.cols(),
            self@.has_col_line(j as int),
        ensures
            ch == self@.boundary_char(band, j as int),
    {
        if self.boundary_taken(band, j) {
            let row = match band {
                Band::Line(i) => i,
                Band::Row(r, k) => r,
            };
            proof {
                self.region_fits(row as int, j as int);
                let widths = self@.widths();
                grown_is_sized(self@, Axis::Columns, self@.matrix.spans.len() as int);
                start_is_monotone(widths, self@.lines(Axis::Columns), j - 1, j - 1);
            }
            let span = self.matrix.region(row, j);
            let y = self.band_line(dimensions, band);
            self.region_char(dimensions, span, y, dimensions.col_starts[j] - 1)
        } else {
            match band {
                Band::Line(i) => match plan.crossings[i][j] {
                    Some(c) => c,
                    None => ' ',
                },
                Band::Row(r, k) => {
                    let marked = find_mark(&self.marks, false, r, j, k, dimensions.heights[r]);
                    match first_of(marked, plan.vertical_fills[r][j]) {
                        Some(c) => c,
                        None => ' ',
                    }
                },
            }
        }
    }

    /// Computes [`GridView::track_char`].
    pub(crate) fn track_char_of(
        &self,
        plan: &BorderPlan,
        dimensions: &Dimensions,
        band: Band,
        c: usize,
        x: usize,
    ) -> (ch: char)
        requires
            self@.wf(),
            self@.fits(),
            plan.describes(self@),
            dimensions.describes(self@),
            self@.has_band(band),
            c < self@.cols(),
            x < self@.widths()[c as int],
        ensures
            ch == self@.track_char(band, c as int, x as int),
    {
        if self.track_taken(band, c) {
            let row = match band {
                Band::Line(i) => i,
                Band::Row(r, k) => r,
            };
            proof {
                self.region_fits(row as int, c as int);
                let widths = self@.widths();
                grown_is_sized(self@, Axis::Columns, self@.matrix.spans.len() as int);
                start_is_monotone(widths, self@.lines(Axis::Columns), c as int, self@.cols());
            }
            let span = self.matrix.region(row, c);
            let y = self.band_line(dimensions, band);
            self.region_char(dimensions, span, y, dimensions.col_starts[c] + x)
        } else {
            match band {
                Band::Line(i) => {
                    let marked = find_mark(&self.marks, true, i, c, x, dimensions.widths[c]);
                    match first_of(marked, plan.horizontal_fills[i][c]) {
                        Some(ch) => ch,
                        None => ' ',
                    }
                },
                Band::Row(r, k) => ' ',
            }
        }
    }

    /// Draws one line, without the border texts.
    pub(crate) fn draw_band(&self, plan: &BorderPlan, dimensions: &Dimensions, band: Band) -> (line: Vec<char>)
        requires
            self@.wf(),
            self@.fits(),
            plan.describes(self@),
            dimensions.describes(self@),
            self@.has_band(band),
        ensures
            line@ == self@.plain_line(band),
    {
        let cols = self.matrix.cols();
        let mut line: Vec<char> = Vec::new();
        let mut c: usize = 0;
        while c < cols
            invariant
                c <= cols,
                cols == self@.cols(),
                self@.wf(),
                self@.fits(),
                plan.describes(self@),
                dimensions.describes(self@),
                self@.has_band(band),
                line@ == self@.line_prefix(band, c as int),
            decreases cols - c,
        {
            if plan.col_lines[c] {
                let ch = self.boundary_char_of(plan, dimensions, band, c);
                line.push(ch);
            }
            let ghost base = line@;
            proof {
                assert(base =~= self@.line_prefix(band, c as int) + self@.boundary_piece(
                    band,
                    c as int,
                ));
            }
            let width = dimensions.widths[c];
            let mut x: usize = 0;
            while x < width
                invariant
                    x <= width,
                    c < cols,
                    cols == self@.cols(),
                    width == self@.widths()[c as int],
                    self@.wf(),
                    self@.fits(),
                    plan.describes(self@),
                    dimensions.describes(self@),
                    self@.has_band(band),
                    line@ == base + Seq::new(
                        x as nat,
                        |t: int| self@.track_char(band, c as int, t),
                    ),
                decreases width - x,
            {
                let ch = self.track_char_of(plan, dimensions, band, c, x);
                line.push(ch);
                x += 1;
                proof {
                    assert(line@ =~= base + Seq::new(
                        x as nat,
                        |t: int| self@.track_char(band, c as int, t),
                    ));
                }
            }
            proof {
                assert(line@ =~= self@.line_prefix(band, c + 1));
            }
            c += 1;
        }
        if plan.col_lines[cols] {
            let ch = self.boundary_char_of(plan, dimensions, band, cols);
            line.push(ch);
        }
        proof {
            assert(line@ =~= self@.plain_line(band));
        }
        line
    }

    /// Draws the border line of row boundary `i`, with its texts.
    pub(crate) fn draw_border_block(
        &self,
        plan: &BorderPlan,
        dimensions: &Dimensions,
        i: usize,
        lines: &mut Vec<Vec<char>>,
    )
        requires
            self@.wf(),
            self@.fits(),
            plan.describes(self@),
            dimensions.describes(self@),
            i <= self@.rows(),
        ensures
            views_of(final(lines)@) == views_of(old(lines)@) + self@.border_block(i as int),
    {
        if plan.row_lines[i] {
            let mut line = self.draw_band(plan, dimensions, Band::Line(i));
            stamp_texts(&mut line, &self.texts, i);
            lines.push(line);
            proof {
                assert(views_of(lines@) =~= views_of(old(lines)@) + self@.border_block(i as int));
            }
        } else {
            proof {
                assert(views_of(lines@) =~= views_of(old(lines)@) + self@.border_block(i as int));
            }
        }
    }

    /// Draws the grid: its lines from top to bottom, each a sequence of
    /// characters. `None` where the sizes of the grid do not fit in machine
    /// integers.
    pub fn draw(&self) -> (lines: Option<Vec<Vec<char>>>)
        requires
            self@.wf(),
        ensures
            lines is Some <==> self@.fits(),
            lines matches Some(v) ==> views_of(v@) == self@.drawing(),
    {
        let rows = self.matrix.rows();
        let cols = self.matrix.cols();
        if rows == usize::MAX || cols == usize::MAX {
            return None;
        }
        let plan = self.resolve();
        let dimensions = match self.estimate(&plan) {
            Some(d) => d,
            None => {
                return None;
            },
        };
        let mut lines: Vec<Vec<char>> = Vec::new();
        if rows == 0 || cols == 0 {
            proof {
                assert(views_of(lines@) =~= self@.drawing());
            }
            return Some(lines);
        }
        let mut r: usize = 0;
        proof {
            grown_is_sized(self@, Axis::Rows, self@.matrix.spans.len() as int);
        }
        while r < rows
            invariant
                r <= rows,
                rows == self@.rows(),
                self@.wf(),
                self@.fits(),
                self@.heights().len() == rows,
                plan.describes(self@),
                dimensions.describes(self@),
                views_of(lines@) == self@.lines_above(r as int),
            decreases rows - r,
        {
            self.draw_border_block(&plan, &dimensions, r, &mut lines);
            let ghost base = views_of(lines@);
            let height = dimensions.heights[r];
            let mut k: usize = 0;
            while k < height
                invariant
                    k <= height,
                    r < rows,
                    rows == self@.rows(),
                    self@.heights().len() == rows,
                    height == self@.heights()[r as int],
                    self@.wf(),
                    self@.fits(),
                    plan.describes(self@),
                    dimensions.describes(self@),
                    views_of(lines@) == base + Seq::new(
                        k as nat,
                        |t: int| self@.row_line(r as int, t),
                    ),
                decreases height - k,
            {
                let ghost before = views_of(lines@);
                let line = self.draw_band(&plan, &dimensions, Band::Row(r, k));
                let ghost drawn = line@;
                lines.push(line);
                proof {
                    assert(drawn == self@.line(Band::Row(r, k)));
                    assert(views_of(lines@) =~= before.push(drawn));
                    let done = Seq::new(k as nat, |t: int| self@.row_line(r as int, t));
                    let next = Seq::new(
                        (k + 1) as nat,
                        |t: int| self@.row_line(r as int, t),
                    );
                    assert(next =~= done.push(drawn));
                    assert(before.push(drawn) =~= base + next);
                }
                k += 1;
                proof {
                    assert(views_of(lines@) =~= base + Seq::new(
                        k as nat,
                        |t: int| self@.row_line(r as int, t),
                    ));
                }
            }
            proof {
                assert(views_of(lines@) =~= self@.lines_above(r + 1));
            }
            r += 1;
        }
        self.draw_border_block(&plan, &dimensions, rows, &mut lines);
        Some(lines)
    }
}

} // verus!
