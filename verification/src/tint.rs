//! Colour annotation: which colour every character of the drawing has, and
//! the text that results when the colours are written out.
//!
//! A border character has the colour that was set together with it: the
//! colour of the cell border that gives the character, or the colour that
//! the grid holds for the slot of the style. Characters of line overrides
//! and single characters set on a border have no colour of their own. Where
//! a border character has no colour of its own it takes the colour set for
//! all borders, if one is set. The characters of the text of a cell have
//! the colour set for the cell; blanks and the characters of a border text
//! have none. In the text, every run of characters of one colour on a line
//! stands between the prefix and the suffix of that colour; a grid can ask
//! for the runs on a border line to end where the cells of the row above
//! end. Colours add escape sequences, never characters of the drawing.

use crate::color::AnsiColor;
use crate::dimension::{grown_is_sized, Axis, Dimensions};
use crate::dimension::start_is_monotone;
use crate::grid::{
    palette_view,
    text_views,
    BorderColors,
    BorderText,
    BorderTextView,
    CellBorder,
    CellColor,
    Direction,
    Grid,
    GridView,
};
use crate::matrix::Span;
use crate::plan::{
    are_joined,
    joined,
    cell_override,
    find_cell_override,
    find_horizontal_line,
    find_vertical_line,
    horizontal_line_at,
    line_crossing,
    line_main,
    vertical_line_at,
    Arms,
    BorderPlan,
    Place,
};
use crate::render::{find_mark, join_lines, joined_lines, mark_at, stamp_texts, text_start, Band};
use crate::text::{chars_of, views_of};
use vstd::prelude::*;

verus! {

impl CellBorder {
    /// The colour that this border has for the place (`a`, `b`) of the kind
    /// `place`.
    pub open spec fn gives_tint(self, place: Place, a: int, b: int) -> Option<usize> {
        match place {
            Place::Crossing => if self.row == a && self.col == b {
                self.tints.top_left
            } else if self.row == a && self.col + 1 == b {
                self.tints.top_right
            } else if self.row + 1 == a && self.col == b {
                self.tints.bottom_left
            } else if self.row + 1 == a && self.col + 1 == b {
                self.tints.bottom_right
            } else {
                None
            },
            Place::Horizontal => if self.col == b && self.row == a {
                self.tints.top
            } else if self.col == b && self.row + 1 == a {
                self.tints.bottom
            } else {
                None
            },
            Place::Vertical => if self.row == a && self.col == b {
                self.tints.left
            } else if self.row == a && self.col + 1 == b {
                self.tints.right
            } else {
                None
            },
        }
    }

    /// Computes [`CellBorder::gives_tint`].
    pub fn give_tint(&self, place: Place, a: usize, b: usize) -> (tint: Option<usize>)
        ensures
            tint == self.gives_tint(place, a as int, b as int),
    {
        let below = a > 0 && self.row == a - 1;
        let after = b > 0 && self.col == b - 1;
        match place {
            Place::Crossing => if self.row == a && self.col == b {
                self.tints.top_left
            } else if self.row == a && after {
                self.tints.top_right
            } else if below && self.col == b {
                self.tints.bottom_left
            } else if below && after {
                self.tints.bottom_right
            } else {
                None
            },
            Place::Horizontal => if self.col == b && self.row == a {
                self.tints.top
            } else if self.col == b && below {
                self.tints.bottom
            } else {
                None
            },
            Place::Vertical => if self.row == a && self.col == b {
                self.tints.left
            } else if self.row == a && after {
                self.tints.right
            } else {
                None
            },
        }
    }
}

/// The colour of the character that the cell borders give for a place: the
/// colour that the border which gives the character has for it.
pub open spec fn cell_override_tint(
    borders: Seq<CellBorder>,
    rows: int,
    cols: int,
    place: Place,
    a: int,
    b: int,
) -> Option<usize>
    decreases borders.len(),
{
    if borders.len() == 0 {
        None
    } else {
        let last = borders.last();
        if last.row < rows && last.col < cols && last.gives(place, a, b) is Some {
            last.gives_tint(place, a, b)
        } else {
            cell_override_tint(borders.drop_last(), rows, cols, place, a, b)
        }
    }
}

/// Computes [`cell_override_tint`].
pub fn find_cell_override_tint(
    borders: &Vec<CellBorder>,
    rows: usize,
    cols: usize,
    place: Place,
    a: usize,
    b: usize,
) -> (tint: Option<usize>)
    ensures
        tint == cell_override_tint(borders@, rows as int, cols as int, place, a as int, b as int),
{
    let mut found: Option<usize> = None;
    let mut k: usize = 0;
    while k < borders.len()
        invariant
            k <= borders.len(),
            found == cell_override_tint(
                borders@.take(k as int),
                rows as int,
                cols as int,
                place,
                a as int,
                b as int,
            ),
        decreases borders.len() - k,
    {
        proof {
            assert(borders@.take(k + 1).drop_last() == borders@.take(k as int));
        }
        if borders[k].row < rows && borders[k].col < cols {
            if borders[k].give(place, a, b).is_some() {
                found = borders[k].give_tint(place, a, b);
            }
        }
        k += 1;
    }
    proof {
        assert(borders@.take(k as int) == borders@);
    }
    found
}

impl BorderColors {
    /// The colour of the filling of row boundary `i`.
    pub open spec fn row_fill(self, i: int, rows: int) -> Option<usize> {
        if i == 0 {
            self.top
        } else if i == rows {
            self.bottom
        } else {
            self.horizontal
        }
    }

    /// The colour of the filling of column boundary `j`.
    pub open spec fn col_fill(self, j: int, cols: int) -> Option<usize> {
        if j == 0 {
            self.left
        } else if j == cols {
            self.right
        } else {
            self.vertical
        }
    }

    /// The colour of the character that the style has for a crossing with
    /// the given arms.
    pub open spec fn crossing(self, arms: Arms, i: int, j: int, rows: int, cols: int) -> Option<
        usize,
    > {
        if arms.up && arms.down && arms.left && arms.right {
            self.intersection
        } else if !arms.up && arms.down && arms.left && arms.right {
            self.top_intersection
        } else if arms.up && !arms.down && arms.left && arms.right {
            self.bottom_intersection
        } else if arms.up && arms.down && !arms.left && arms.right {
            self.left_intersection
        } else if arms.up && arms.down && arms.left && !arms.right {
            self.right_intersection
        } else if !arms.up && arms.down && !arms.left && arms.right {
            self.top_left
        } else if !arms.up && arms.down && arms.left && !arms.right {
            self.top_right
        } else if arms.up && !arms.down && !arms.left && arms.right {
            self.bottom_left
        } else if arms.up && !arms.down && arms.left && !arms.right {
            self.bottom_right
        } else if !arms.up && !arms.down && arms.left && arms.right {
            self.row_fill(i, rows)
        } else if arms.up && arms.down && !arms.left && !arms.right {
            self.col_fill(j, cols)
        } else {
            None
        }
    }

    /// Computes [`BorderColors::row_fill`].
    pub fn tint_of_row_line(&self, i: usize, rows: usize) -> (tint: Option<usize>)
        ensures
            tint == self.row_fill(i as int, rows as int),
    {
        if i == 0 {
            self.top
        } else if i == rows {
            self.bottom
        } else {
            self.horizontal
        }
    }

    /// Computes [`BorderColors::col_fill`].
    pub fn tint_of_col_line(&self, j: usize, cols: usize) -> (tint: Option<usize>)
        ensures
            tint == self.col_fill(j as int, cols as int),
    {
        if j == 0 {
            self.left
        } else if j == cols {
            self.right
        } else {
            self.vertical
        }
    }

    /// Computes [`BorderColors::crossing`].
    pub fn crossing_tint(&self, arms: Arms, i: usize, j: usize, rows: usize, cols: usize) -> (tint:
        Option<usize>)
        ensures
            tint == self.crossing(arms, i as int, j as int, rows as int, cols as int),
    {
        if arms.up && arms.down && arms.left && arms.right {
            self.intersection
        } else if !arms.up && arms.down && arms.left && arms.right {
            self.top_intersection
        } else if arms.up && !arms.down && arms.left && arms.right {
            self.bottom_intersection
        } else if arms.up && arms.down && !arms.left && arms.right {
            self.left_intersection
        } else if arms.up && arms.down && arms.left && !arms.right {
            self.right_intersection
        } else if !arms.up && arms.down && !arms.left && arms.right {
            self.top_left
        } else if !arms.up && arms.down && arms.left && !arms.right {
            self.top_right
        } else if arms.up && !arms.down && !arms.left && arms.right {
            self.bottom_left
        } else if arms.up && !arms.down && arms.left && !arms.right {
            self.bottom_right
        } else if !arms.up && !arms.down && arms.left && arms.right {
            self.tint_of_row_line(i, rows)
        } else if arms.up && arms.down && !arms.left && !arms.right {
            self.tint_of_col_line(j, cols)
        } else {
            None
        }
    }
}

/// The colour set for the content of the cell at (`r`, `c`): that of the
/// last colour set for the position.
pub open spec fn cell_tint_at(colors: Seq<CellColor>, r: int, c: int) -> Option<usize>
    decreases colors.len(),
{
    if colors.len() == 0 {
        None
    } else if colors.last().row == r && colors.last().col == c {
        Some(colors.last().tint)
    } else {
        cell_tint_at(colors.drop_last(), r, c)
    }
}

/// Computes [`cell_tint_at`].
pub fn find_cell_tint(colors: &Vec<CellColor>, r: usize, c: usize) -> (tint: Option<usize>)
    ensures
        tint == cell_tint_at(colors@, r as int, c as int),
{
    let mut found: Option<usize> = None;
    let mut k: usize = 0;
    while k < colors.len()
        invariant
            k <= colors.len(),
            found == cell_tint_at(colors@.take(k as int), r as int, c as int),
        decreases colors.len() - k,
    {
        proof {
            assert(colors@.take(k + 1).drop_last() == colors@.take(k as int));
        }
        if colors[k].row == r && colors[k].col == c {
            found = Some(colors[k].tint);
        }
        k += 1;
    }
    proof {
        assert(colors@.take(k as int) == colors@);
    }
    found
}

/// The colour of a character: its own, or else the one set for all.
pub open spec fn tint_or(own: Option<usize>, global: Option<usize>) -> Option<usize> {
    if own is Some {
        own
    } else {
        global
    }
}

/// Computes [`tint_or`].
pub fn own_or(own: Option<usize>, global: Option<usize>) -> (tint: Option<usize>)
    ensures
        tint == tint_or(own, global),
{
    match own {
        Some(_) => own,
        None => global,
    }
}

/// The tints of the border line of row boundary `i` with the places that
/// the border texts are written over cleared.
pub open spec fn cleared(tints: Seq<Option<usize>>, texts: Seq<BorderTextView>, i: int) -> Seq<
    Option<usize>,
>
    decreases texts.len(),
{
    if texts.len() == 0 {
        tints
    } else {
        let before = cleared(tints, texts.drop_last(), i);
        let text = texts.last();
        match text_start(text.offset, tints.len() as int) {
            Some(at) => if text.line == i {
                Seq::new(
                    tints.len(),
                    |x: int|
                        if at <= x < at + text.text.len() {
                            None
                        } else {
                            before[x]
                        },
                )
            } else {
                before
            },
            None => before,
        }
    }
}

/// Clearing keeps the number of tints.
pub proof fn cleared_keeps_length(tints: Seq<Option<usize>>, texts: Seq<BorderTextView>, i: int)
    ensures
        cleared(tints, texts, i).len() == tints.len(),
    decreases texts.len(),
{
    if texts.len() > 0 {
        cleared_keeps_length(tints, texts.drop_last(), i);
    }
}

/// The text that switches the colour `tint` on (`opening`) or off. A tint
/// that is no colour of the palette writes nothing.
pub open spec fn code(palette: Seq<(Seq<char>, Seq<char>)>, tint: Option<usize>, opening: bool) -> Seq<
    char,
> {
    match tint {
        Some(k) => if k < palette.len() {
            if opening {
                palette[k as int].0
            } else {
                palette[k as int].1
            }
        } else {
            Seq::empty()
        },
        None => Seq::empty(),
    }
}

/// The text between two characters of the tints `from` and `to`: nothing
/// where they are the same and the run is not cut there, else the end of
/// the one and the start of the other.
pub open spec fn turn(
    palette: Seq<(Seq<char>, Seq<char>)>,
    from: Option<usize>,
    to: Option<usize>,
    cut: bool,
) -> Seq<char> {
    if from == to && !cut {
        Seq::empty()
    } else {
        code(palette, from, false) + code(palette, to, true)
    }
}

/// The tint of the character before place `k`, none at the start.
pub open spec fn tint_before(tints: Seq<Option<usize>>, k: int) -> Option<usize> {
    if k <= 0 {
        None
    } else {
        tints[k - 1]
    }
}

/// The first `k` characters with their colours written out, the last
/// colour still open.
pub open spec fn painted_upto(
    chars: Seq<char>,
    tints: Seq<Option<usize>>,
    cuts: Seq<bool>,
    palette: Seq<(Seq<char>, Seq<char>)>,
    k: int,
) -> Seq<char>
    decreases k,
{
    if k <= 0 {
        Seq::empty()
    } else {
        painted_upto(chars, tints, cuts, palette, k - 1) + turn(
            palette,
            tint_before(tints, k - 1),
            tints[k - 1],
            cuts[k - 1],
        ).push(chars[k - 1])
    }
}

/// The characters with their colours written out: every run of characters
/// of one colour stands between the prefix and the suffix of the colour,
/// and a run ends before a character at which it is cut.
pub open spec fn painted(
    chars: Seq<char>,
    tints: Seq<Option<usize>>,
    cuts: Seq<bool>,
    palette: Seq<(Seq<char>, Seq<char>)>,
) -> Seq<char> {
    painted_upto(chars, tints, cuts, palette, chars.len() as int) + code(
        palette,
        tint_before(tints, chars.len() as int),
        false,
    )
}

impl GridView {
    /// The colour of the character at the crossing of row boundary `i` and
    /// column boundary `j`; none where no character stands there.
    pub open spec fn crossing_tint(self, i: int, j: int) -> Option<usize> {
        if self.crossing(i, j) is None {
            None
        } else {
            let own = if cell_override(
                self.cell_borders,
                self.rows(),
                self.cols(),
                Place::Crossing,
                i,
                j,
            ) is Some {
                cell_override_tint(self.cell_borders, self.rows(), self.cols(), Place::Crossing, i, j)
            } else if line_crossing(horizontal_line_at(self.style.horizontals, i), j, self.cols())
                is Some || line_crossing(vertical_line_at(self.style.verticals, j), i, self.rows())
                is Some {
                None
            } else {
                self.border_colors.crossing(self.arms(i, j), i, j, self.rows(), self.cols())
            };
            tint_or(own, self.global_tint)
        }
    }

    /// The colour of the character at place `x` of row boundary `i` along
    /// column `c`.
    pub open spec fn horizontal_tint(self, i: int, c: int, x: int) -> Option<usize> {
        if mark_at(self.marks, Direction::Horizontal, i, c, x, self.widths()[c]) is Some {
            self.global_tint
        } else if self.horizontal_fill(i, c) is None {
            None
        } else {
            let own = if cell_override(
                self.cell_borders,
                self.rows(),
                self.cols(),
                Place::Horizontal,
                i,
                c,
            ) is Some {
                cell_override_tint(
                    self.cell_borders,
                    self.rows(),
                    self.cols(),
                    Place::Horizontal,
                    i,
                    c,
                )
            } else if line_main(horizontal_line_at(self.style.horizontals, i)) is Some {
                None
            } else {
                self.border_colors.row_fill(i, self.rows())
            };
            tint_or(own, self.global_tint)
        }
    }

    /// The colour of the character at line `k` of column boundary `j` along
    /// row `r`.
    pub open spec fn vertical_tint(self, r: int, j: int, k: int) -> Option<usize> {
        if mark_at(self.marks, Direction::Vertical, r, j, k, self.heights()[r]) is Some {
            self.global_tint
        } else if self.vertical_fill(r, j) is None {
            None
        } else {
            let own = if cell_override(
                self.cell_borders,
                self.rows(),
                self.cols(),
                Place::Vertical,
                r,
                j,
            ) is Some {
                cell_override_tint(self.cell_borders, self.rows(), self.cols(), Place::Vertical, r, j)
            } else if line_main(vertical_line_at(self.style.verticals, j)) is Some {
                None
            } else {
                self.border_colors.col_fill(j, self.cols())
            };
            tint_or(own, self.global_tint)
        }
    }

    /// The colour of the character at line `y`, place `x` of the drawing,
    /// where the cell of the rectangle `span` shows there: the colour set
    /// for the content of the cell where a character of its text stands,
    /// none for a blank.
    pub open spec fn region_tint(self, span: Span, y: int, x: int) -> Option<usize> {
        if self.region_is_text(span, y, x) {
            cell_tint_at(self.cell_colors, span.row as int, span.col as int)
        } else {
            None
        }
    }

    /// The colour of the character on `band` at the drawn column boundary
    /// `j`: that of the border character, or of the content of the cell
    /// that shows there.
    pub open spec fn boundary_tint(self, band: Band, j: int) -> Option<usize> {
        if self.takes_boundary(band, j) {
            self.region_tint(
                self.matrix.region(self.band_row(band), j),
                self.band_y(band),
                self.col_start(j) - 1,
            )
        } else {
            match band {
                Band::Line(i) => self.crossing_tint(i as int, j),
                Band::Row(r, k) => self.vertical_tint(r as int, j, k as int),
            }
        }
    }

    /// The colour of the character on `band` at place `x` of column `c`.
    pub open spec fn track_tint(self, band: Band, c: int, x: int) -> Option<usize> {
        if self.takes_track(band, c) {
            self.region_tint(
                self.matrix.region(self.band_row(band), c),
                self.band_y(band),
                self.col_start(c) + x,
            )
        } else {
            self.horizontal_tint(self.band_row(band), c, x)
        }
    }

    /// The colours of what `band` shows at column boundary `j`.
    pub open spec fn boundary_tints(self, band: Band, j: int) -> Seq<Option<usize>> {
        if self.has_col_line(j) {
            seq![self.boundary_tint(band, j)]
        } else {
            Seq::empty()
        }
    }

    /// The colours of what `band` shows in column `c`.
    pub open spec fn track_tints(self, band: Band, c: int) -> Seq<Option<usize>> {
        Seq::new(self.widths()[c] as nat, |x: int| self.track_tint(band, c, x))
    }

    /// The colours of what `band` shows before column boundary `c`.
    pub open spec fn tints_prefix(self, band: Band, c: int) -> Seq<Option<usize>>
        decreases c,
    {
        if c <= 0 {
            Seq::empty()
        } else {
            self.tints_prefix(band, c - 1) + self.boundary_tints(band, c - 1) + self.track_tints(
                band,
                c - 1,
            )
        }
    }

    /// The colours of the characters of the line `band`, before any text
    /// is written over it.
    pub open spec fn plain_tints(self, band: Band) -> Seq<Option<usize>> {
        self.tints_prefix(band, self.cols()) + self.boundary_tints(band, self.cols())
    }

    /// The colours of the characters of the line `band`. The characters of
    /// a border text have none.
    pub open spec fn tints(self, band: Band) -> Seq<Option<usize>> {
        match band {
            Band::Line(i) => cleared(self.plain_tints(band), self.texts, i as int),
            Band::Row(r, k) => self.plain_tints(band),
        }
    }

    /// Whether a run of colour is cut before the character on `band` at
    /// column boundary `j`: on a border line of a grid that splits its
    /// runs, where a new cell of the row above the line begins (of the first
    /// row, for the top line).
    pub open spec fn cut_before(self, band: Band, j: int) -> bool {
        match band {
            Band::Line(i) => {
                let row = if i == 0 {
                    0
                } else {
                    i - 1
                };
                self.split_runs && 0 < j < self.cols() && !joined(
                    self.matrix.spans,
                    row,
                    j - 1,
                    row,
                    j,
                )
            },
            Band::Row(r, k) => false,
        }
    }

    /// For what `band` shows at column boundary `j`, whether a run is cut
    /// before it.
    pub open spec fn boundary_cuts(self, band: Band, j: int) -> Seq<bool> {
        if self.has_col_line(j) {
            seq![self.cut_before(band, j)]
        } else {
            Seq::empty()
        }
    }

    /// No run is cut within a column.
    pub open spec fn track_cuts(self, c: int) -> Seq<bool> {
        Seq::new(self.widths()[c] as nat, |x: int| false)
    }

    /// For what `band` shows before column boundary `c`, where runs are cut.
    pub open spec fn cuts_prefix(self, band: Band, c: int) -> Seq<bool>
        decreases c,
    {
        if c <= 0 {
            Seq::empty()
        } else {
            self.cuts_prefix(band, c - 1) + self.boundary_cuts(band, c - 1) + self.track_cuts(c - 1)
        }
    }

    /// For every character of the line `band`, whether a run of colour is
    /// cut before it.
    pub open spec fn cuts(self, band: Band) -> Seq<bool> {
        self.cuts_prefix(band, self.cols()) + self.boundary_cuts(band, self.cols())
    }

    /// The line `band` with its colours written out.
    pub open spec fn painted_line(self, band: Band) -> Seq<char> {
        painted(self.line(band), self.tints(band), self.cuts(band), self.palette)
    }

    /// The border line of row boundary `i` with its colours, where it is drawn.
    pub open spec fn painted_border_block(self, i: int) -> Seq<Seq<char>> {
        if self.has_row_line(i) {
            seq![self.painted_line(Band::Line(i as usize))]
        } else {
            Seq::empty()
        }
    }

    /// Line `k` of row `r` with its colours.
    pub open spec fn painted_row_line(self, r: int, k: int) -> Seq<char> {
        self.painted_line(Band::Row(r as usize, k as usize))
    }

    /// The lines of row `r` with their colours.
    pub open spec fn painted_row_block(self, r: int) -> Seq<Seq<char>> {
        Seq::new(self.heights()[r] as nat, |k: int| self.painted_row_line(r, k))
    }

    /// The lines above row boundary `r` with their colours.
    pub open spec fn painted_above(self, r: int) -> Seq<Seq<char>>
        decreases r,
    {
        if r <= 0 {
            Seq::empty()
        } else {
            self.painted_above(r - 1) + self.painted_border_block(r - 1) + self.painted_row_block(
                r - 1,
            )
        }
    }

    /// The drawing with the colours written out: the lines of the drawing,
    /// each with the escape sequences of its colours.
    pub open spec fn painted_drawing(self) -> Seq<Seq<char>> {
        if self.rows() == 0 || self.cols() == 0 {
            Seq::empty()
        } else {
            self.painted_above(self.rows()) + self.painted_border_block(self.rows())
        }
    }
}

/// Clears the tints of the places that the border texts of row boundary
/// `i` are written over.
pub fn clear_tints(tints: &mut Vec<Option<usize>>, texts: &Vec<BorderText>, i: usize)
    ensures
        final(tints)@ == cleared(old(tints)@, text_views(texts@), i as int),
{
    let ghost plain = tints@;
    let width = tints.len();
    let mut k: usize = 0;
    while k < texts.len()
        invariant
            k <= texts.len(),
            tints.len() == width,
            plain.len() == width,
            tints@ == cleared(plain, text_views(texts@).take(k as int), i as int),
        decreases texts.len() - k,
    {
        let ghost before = tints@;
        proof {
            let views = text_views(texts@);
            assert(views.take(k + 1).drop_last() == views.take(k as int));
            assert(views.take(k + 1).last() == texts[k as int]@);
        }
        let text = &texts[k];
        let at: Option<usize> = match text.offset {
            crate::grid::Offset::Begin(n) => Some(n),
            crate::grid::Offset::End(n) => if n <= width {
                Some(width - n)
            } else {
                None
            },
        };
        match at {
            Some(from) => {
                if text.line == i {
                    if from < width {
                        let mut x: usize = 0;
                        while x < text.text.len() && x < width - from
                            invariant
                                x <= text.text.len(),
                                from < width,
                                x <= width - from,
                                tints.len() == width,
                                before.len() == width,
                                forall|p: int|
                                    0 <= p < width ==> #[trigger] tints[p] == (if from <= p < from
                                        + x {
                                        None
                                    } else {
                                        before[p]
                                    }),
                            decreases text.text.len() - x,
                        {
                            tints.set(from + x, None);
                            x += 1;
                        }
                    }
                    proof {
                        assert(tints@ =~= Seq::new(
                            width as nat,
                            |x: int|
                                if from <= x < from + text.text.len() {
                                    None
                                } else {
                                    before[x]
                                },
                        ));
                    }
                }
            },
            None => {},
        }
        k += 1;
    }
    proof {
        assert(text_views(texts@).take(k as int) == text_views(texts@));
    }
}

/// Appends the characters of `text` to `out`.
fn extend(out: &mut Vec<char>, text: &str)
    ensures
        final(out)@ == old(out)@ + text@,
{
    let chars = chars_of(text);
    let mut x: usize = 0;
    while x < chars.len()
        invariant
            x <= chars.len(),
            chars@ == text@,
            out@ == old(out)@ + chars@.take(x as int),
        decreases chars.len() - x,
    {
        out.push(chars[x]);
        proof {
            assert(chars@.take(x + 1) == chars@.take(x as int).push(chars[x as int]));
        }
        x += 1;
    }
    proof {
        assert(chars@.take(x as int) == chars@);
    }
}

/// Appends [`code`] to `out`.
fn write_code(out: &mut Vec<char>, palette: &Vec<AnsiColor<'static>>, tint: Option<usize>, opening: bool)
    ensures
        final(out)@ == old(out)@ + code(palette_view(palette@), tint, opening),
{
    match tint {
        Some(k) => {
            if k < palette.len() {
                if opening {
                    extend(out, palette[k].get_prefix());
                } else {
                    extend(out, palette[k].get_suffix());
                }
            }
        },
        None => {},
    }
}

/// Tells whether two tints are the same.
fn same_tint(a: Option<usize>, b: Option<usize>) -> (same: bool)
    ensures
        same == (a == b),
{
    match a {
        Some(x) => match b {
            Some(y) => x == y,
            None => false,
        },
        None => b.is_none(),
    }
}

/// Writes the characters out with their colours.
pub fn paint(
    chars: &Vec<char>,
    tints: &Vec<Option<usize>>,
    cuts: &Vec<bool>,
    palette: &Vec<AnsiColor<'static>>,
) -> (out: Vec<char>)
    requires
        chars.len() == tints.len(),
        chars.len() == cuts.len(),
    ensures
        out@ == painted(chars@, tints@, cuts@, palette_view(palette@)),
{
    let mut out: Vec<char> = Vec::new();
    let mut last: Option<usize> = None;
    let mut k: usize = 0;
    while k < chars.len()
        invariant
            k <= chars.len(),
            chars.len() == tints.len(),
            chars.len() == cuts.len(),
            last == tint_before(tints@, k as int),
            out@ == painted_upto(chars@, tints@, cuts@, palette_view(palette@), k as int),
        decreases chars.len() - k,
    {
        let ghost before = out@;
        let tint = tints[k];
        if cuts[k] || !same_tint(last, tint) {
            write_code(&mut out, palette, last, false);
            write_code(&mut out, palette, tint, true);
        }
        out.push(chars[k]);
        proof {
            assert(out@ =~= before + turn(palette_view(palette@), last, tint, cuts[k as int]).push(
                chars[k as int],
            ));
        }
        last = tint;
        k += 1;
    }
    write_code(&mut out, palette, last, false);
    out
}

impl Grid {
    /// Computes [`GridView::crossing_tint`].
    fn crossing_tint_of(&self, i: usize, j: usize) -> (tint: Option<usize>)
        ensures
            tint == self@.crossing_tint(i as int, j as int),
    {
        let rows = self.matrix.rows();
        let cols = self.matrix.cols();
        if self.crossing_char(i, j).is_none() {
            return None;
        }
        let from_cells = find_cell_override(&self.cell_borders, rows, cols, Place::Crossing, i, j);
        let from_row = match find_horizontal_line(&self.style.horizontals, i) {
            Some(l) => if j == 0 {
                l.start
            } else if j == cols {
                l.end
            } else {
                l.intersection
            },
            None => None,
        };
        let from_col = match find_vertical_line(&self.style.verticals, j) {
            Some(l) => if i == 0 {
                l.start
            } else if i == rows {
                l.end
            } else {
                l.intersection
            },
            None => None,
        };
        let own = if from_cells.is_some() {
            find_cell_override_tint(&self.cell_borders, rows, cols, Place::Crossing, i, j)
        } else if from_row.is_some() || from_col.is_some() {
            None
        } else {
            self.border_colors.crossing_tint(self.arms_of(i, j), i, j, rows, cols)
        };
        own_or(own, self.global_tint)
    }

    /// Computes [`GridView::horizontal_tint`].
    fn horizontal_tint_of(&self, dimensions: &Dimensions, i: usize, c: usize, x: usize) -> (tint:
        Option<usize>)
        requires
            dimensions.describes(self@),
            c < self@.cols(),
            x < self@.widths()[c as int],
        ensures
            tint == self@.horizontal_tint(i as int, c as int, x as int),
    {
        let rows = self.matrix.rows();
        let cols = self.matrix.cols();
        if find_mark(&self.marks, true, i, c, x, dimensions.widths[c]).is_some() {
            return self.global_tint;
        }
        if self.horizontal_fill_char(i, c).is_none() {
            return None;
        }
        let from_cells = find_cell_override(&self.cell_borders, rows, cols, Place::Horizontal, i, c);
        let from_line = match find_horizontal_line(&self.style.horizontals, i) {
            Some(l) => l.main,
            None => None,
        };
        let own = if from_cells.is_some() {
            find_cell_override_tint(&self.cell_borders, rows, cols, Place::Horizontal, i, c)
        } else if from_line.is_some() {
            None
        } else {
            self.border_colors.tint_of_row_line(i, rows)
        };
        own_or(own, self.global_tint)
    }

    /// Computes [`GridView::vertical_tint`].
    fn vertical_tint_of(&self, dimensions: &Dimensions, r: usize, j: usize, k: usize) -> (tint:
        Option<usize>)
        requires
            dimensions.describes(self@),
            r < self@.rows(),
            k < self@.heights()[r as int],
        ensures
            tint == self@.vertical_tint(r as int, j as int, k as int),
    {
        let rows = self.matrix.rows();
        let cols = self.matrix.cols();
        if find_mark(&self.marks, false, r, j, k, dimensions.heights[r]).is_some() {
            return self.global_tint;
        }
        if self.vertical_fill_char(r, j).is_none() {
            return None;
        }
        let from_cells = find_cell_override(&self.cell_borders, rows, cols, Place::Vertical, r, j);
        let from_line = match find_vertical_line(&self.style.verticals, j) {
            Some(l) => l.main,
            None => None,
        };
        let own = if from_cells.is_some() {
            find_cell_override_tint(&self.cell_borders, rows, cols, Place::Vertical, r, j)
        } else if from_line.is_some() {
            None
        } else {
            self.border_colors.tint_of_col_line(j, cols)
        };
        own_or(own, self.global_tint)
    }

    /// The colours of one line, before the border texts clear any.
    fn tint_band(&self, plan: &BorderPlan, dimensions: &Dimensions, band: Band) -> (tints: Vec<
        Option<usize>,
    >)
        requires
            self@.wf(),
            self@.fits(),
            plan.describes(self@),
            dimensions.describes(self@),
            self@.has_band(band),
        ensures
            tints@ == self@.plain_tints(band),
    {
        let cols = self.matrix.cols();
        let mut tints: Vec<Option<usize>> = Vec::new();
        let mut c: usize = 0;
        while c < cols
            invariant
                c <= cols,
                cols == self@.cols(),
                self@.wf(),
                self@.fits(),
                plan.describes(self@),
                dimensions.describes(self@),
                self@.has_band(band),
                tints@ == self@.tints_prefix(band, c as int),
            decreases cols - c,
        {
            if plan.col_lines[c] {
                let tint = self.boundary_tint_of(dimensions, band, c);
                tints.push(tint);
            }
            let ghost base = tints@;
            proof {
                assert(base =~= self@.tints_prefix(band, c as int) + self@.boundary_tints(
                    band,
                    c as int,
                ));
            }
            let width = dimensions.widths[c];
            let mut x: usize = 0;
            while x < width
                invariant
                    x <= width,
                    c < cols,
                    cols == self@.cols(),
                    width == self@.widths()[c as int],
                    self@.wf(),
                    self@.fits(),
                    self@.has_band(band),
                    dimensions.describes(self@),
                    tints@ == base + Seq::new(
                        x as nat,
                        |t: int| self@.track_tint(band, c as int, t),
                    ),
                decreases width - x,
            {
                let tint = self.track_tint_of(dimensions, band, c, x);
                tints.push(tint);
                x += 1;
                proof {
                    assert(tints@ =~= base + Seq::new(
                        x as nat,
                        |t: int| self@.track_tint(band, c as int, t),
                    ));
                }
            }
            proof {
                assert(tints@ =~= self@.tints_prefix(band, c + 1));
            }
            c += 1;
        }
        if plan.col_lines[cols] {
            let tint = self.boundary_tint_of(dimensions, band, cols);
            tints.push(tint);
        }
        proof {
            assert(tints@ =~= self@.plain_tints(band));
        }
        tints
    }

    /// Computes [`GridView::boundary_tint`].
    fn boundary_tint_of(&self, dimensions: &Dimensions, band: Band, j: usize) -> (tint: Option<
        usize,
    >)
        requires
            self@.wf(),
            self@.fits(),
            dimensions.describes(self@),
            self@.has_band(band),
            j <= self@.cols(),
            self@.has_col_line(j as int),
        ensures
            tint == self@.boundary_tint(band, j as int),
    {
        if self.boundary_taken(band, j) {
            let row = match band {
                Band::Line(i) => i,
                Band::Row(r, k) => r,
            };
            proof {
                self.region_fits(row as int, j as int);
                let widths = self@.widths();
                grown_is_sized(self@, Axis::Columns, self@.matrix.spans.len() as int);
                start_is_monotone(widths, self@.lines(Axis::Columns), j - 1, j - 1);
            }
            let span = self.matrix.region(row, j);
            let y = self.band_line(dimensions, band);
            self.region_tint_of(dimensions, span, y, dimensions.col_starts[j] - 1)
        } else {
            match band {
                Band::Line(i) => self.crossing_tint_of(i, j),
                Band::Row(r, k) => self.vertical_tint_of(dimensions, r, j, k),
            }
        }
    }

    /// Computes [`GridView::track_tint`].
    fn track_tint_of(&self, dimensions: &Dimensions, band: Band, c: usize, x: usize) -> (tint: Option<
        usize,
    >)
        requires
            self@.wf(),
            self@.fits(),
            dimensions.describes(self@),
            self@.has_band(band),
            c < self@.cols(),
            x < self@.widths()[c as int],
        ensures
            tint == self@.track_tint(band, c as int, x as int),
    {
        if self.track_taken(band, c) {
            let row = match band {
                Band::Line(i) => i,
                Band::Row(r, k) => r,
            };
            proof {
                self.region_fits(row as int, c as int);
                let widths = self@.widths();
                grown_is_sized(self@, Axis::Columns, self@.matrix.spans.len() as int);
                start_is_monotone(widths, self@.lines(Axis::Columns), c as int, self@.cols());
            }
            let span = self.matrix.region(row, c);
            let y = self.band_line(dimensions, band);
            self.region_tint_of(dimensions, span, y, dimensions.col_starts[c] + x)
        } else {
            match band {
                Band::Line(i) => self.horizontal_tint_of(dimensions, i, c, x),
                Band::Row(r, k) => None,
            }
        }
    }

    /// Computes [`GridView::region_tint`].
    fn region_tint_of(&self, dimensions: &Dimensions, span: Span, y: usize, x: usize) -> (tint: Option<
        usize,
    >)
        requires
            self@.wf(),
            self@.fits(),
            dimensions.describes(self@),
            span.fits_in(self@.rows(), self@.cols()),
        ensures
            tint == self@.region_tint(span, y as int, x as int),
    {
        if self.region_text(dimensions, span, y, x) {
            find_cell_tint(&self.cell_colors, span.row, span.col)
        } else {
            None
        }
    }

    /// Where the runs of colour of one line are cut.
    fn cut_band(&self, plan: &BorderPlan, dimensions: &Dimensions, band: Band) -> (cuts: Vec<bool>)
        requires
            self@.wf(),
            plan.describes(self@),
            dimensions.describes(self@),
        ensures
            cuts@ == self@.cuts(band),
    {
        let cols = self.matrix.cols();
        let mut cuts: Vec<bool> = Vec::new();
        let mut c: usize = 0;
        while c < cols
            invariant
                c <= cols,
                cols == self@.cols(),
                plan.describes(self@),
                dimensions.describes(self@),
                cuts@ == self@.cuts_prefix(band, c as int),
            decreases cols - c,
        {
            if plan.col_lines[c] {
                let cut = self.cut_before_of(band, c);
                cuts.push(cut);
            }
            let ghost base = cuts@;
            proof {
                assert(base =~= self@.cuts_prefix(band, c as int) + self@.boundary_cuts(
                    band,
                    c as int,
                ));
            }
            let width = dimensions.widths[c];
            let mut x: usize = 0;
            while x < width
                invariant
                    x <= width,
                    cuts@ == base + Seq::new(x as nat, |t: int| false),
                decreases width - x,
            {
                cuts.push(false);
                x += 1;
                proof {
                    assert(cuts@ =~= base + Seq::new(x as nat, |t: int| false));
                }
            }
            proof {
                assert(cuts@ =~= self@.cuts_prefix(band, c + 1));
            }
            c += 1;
        }
        if plan.col_lines[cols] {
            let cut = self.cut_before_of(band, cols);
            cuts.push(cut);
        }
        proof {
            assert(cuts@ =~= self@.cuts(band));
        }
        cuts
    }

    /// Computes [`GridView::cut_before`].
    fn cut_before_of(&self, band: Band, j: usize) -> (cut: bool)
        ensures
            cut == self@.cut_before(band, j as int),
    {
        match band {
            Band::Line(i) => {
                let row = if i == 0 {
                    0
                } else {
                    i - 1
                };
                self.split_runs && 0 < j && j < self.matrix.cols() && !are_joined(
                    &self.matrix,
                    row,
                    j - 1,
                    row,
                    j,
                )
            },
            Band::Row(r, k) => false,
        }
    }

    /// Draws one line with its colours written out.
    fn paint_band(&self, plan: &BorderPlan, dimensions: &Dimensions, band: Band) -> (line: Vec<char>)
        requires
            self@.wf(),
            self@.fits(),
            self@.cols() > 0,
            plan.describes(self@),
            dimensions.describes(self@),
            self@.has_band(band),
        ensures
            line@ == self@.painted_line(band),
    {
        let mut chars = self.draw_band(plan, dimensions, band);
        let mut tints = self.tint_band(plan, dimensions, band);
        let cuts = self.cut_band(plan, dimensions, band);
        proof {
            tints_match_line(self@, band, self@.cols());
        }
        match band {
            Band::Line(i) => {
                stamp_texts(&mut chars, &self.texts, i);
                clear_tints(&mut tints, &self.texts, i);
                proof {
                    crate::render::stamped_keeps_length(self@.plain_line(band), self@.texts, i as int);
                    cleared_keeps_length(self@.plain_tints(band), self@.texts, i as int);
                }
            },
            Band::Row(r, k) => {},
        }
        paint(&chars, &tints, &cuts, &self.palette)
    }

    /// Draws the border line of row boundary `i` with its colours.
    fn paint_border_block(
        &self,
        plan: &BorderPlan,
        dimensions: &Dimensions,
        i: usize,
        lines: &mut Vec<Vec<char>>,
    )
        requires
            self@.wf(),
            self@.fits(),
            self@.cols() > 0,
            plan.describes(self@),
            dimensions.describes(self@),
            i <= self@.rows(),
        ensures
            views_of(final(lines)@) == views_of(old(lines)@) + self@.painted_border_block(
                i as int,
            ),
    {
        if plan.row_lines[i] {
            let line = self.paint_band(plan, dimensions, Band::Line(i));
            lines.push(line);
        }
        proof {
            assert(views_of(lines@) =~= views_of(old(lines)@) + self@.painted_border_block(
                i as int,
            ));
        }
    }

    /// Draws the grid with its colours: the lines of the drawing, each with
    /// the escape sequences of its colours. `None` where the sizes of the
    /// grid do not fit in machine integers.
    pub fn draw_painted(&self) -> (lines: Option<Vec<Vec<char>>>)
        requires
            self@.wf(),
        ensures
            lines is Some <==> self@.fits(),
            lines matches Some(v) ==> views_of(v@) == self@.painted_drawing(),
    {
        let rows = self.matrix.rows();
        let cols = self.matrix.cols();
        if rows == usize::MAX || cols == usize::MAX {
            return None;
        }
        let plan = self.resolve();
        let dimensions = match self.estimate(&plan) {
            Some(d) => d,
            None => {
                return None;
            },
        };
        let mut lines: Vec<Vec<char>> = Vec::new();
        if rows == 0 || cols == 0 {
            proof {
                assert(views_of(lines@) =~= self@.painted_drawing());
            }
            return Some(lines);
        }
        let mut r: usize = 0;
        proof {
            grown_is_sized(self@, Axis::Rows, self@.matrix.spans.len() as int);
        }
        while r < rows
            invariant
                r <= rows,
                rows == self@.rows(),
                self@.cols() > 0,
                self@.wf(),
                self@.fits(),
                self@.heights().len() == rows,
                plan.describes(self@),
                dimensions.describes(self@),
                views_of(lines@) == self@.painted_above(r as int),
            decreases rows - r,
        {
            self.paint_border_block(&plan, &dimensions, r, &mut lines);
            let ghost base = views_of(lines@);
            let height = dimensions.heights[r];
            let mut k: usize = 0;
            while k < height
                invariant
                    k <= height,
                    r < rows,
                    rows == self@.rows(),
                    self@.cols() > 0,
                    self@.heights().len() == rows,
                    height == self@.heights()[r as int],
                    self@.wf(),
                    self@.fits(),
                    plan.describes(self@),
                    dimensions.describes(self@),
                    views_of(lines@) == base + Seq::new(
                        k as nat,
                        |t: int| self@.painted_row_line(r as int, t),
                    ),
                decreases height - k,
            {
                let ghost before = views_of(lines@);
                let line = self.paint_band(&plan, &dimensions, Band::Row(r, k));
                let ghost drawn = line@;
                lines.push(line);
                proof {
                    assert(drawn == self@.painted_row_line(r as int, k as int));
                    assert(views_of(lines@) =~= before.push(drawn));
                    let done = Seq::new(k as nat, |t: int| self@.painted_row_line(r as int, t));
                    let next = Seq::new(
                        (k + 1) as nat,
                        |t: int| self@.painted_row_line(r as int, t),
                    );
                    assert(next =~= done.push(drawn));
                    assert(before.push(drawn) =~= base + next);
                }
                k += 1;
            }
            proof {
                assert(views_of(lines@) =~= self@.painted_above(r + 1));
            }
            r += 1;
        }
        self.paint_border_block(&plan, &dimensions, rows, &mut lines);
        Some(lines)
    }

    /// Renders the grid as one text: the lines of the drawing, with the
    /// escape sequences of their colours, and a line feed between every two
    /// lines, none at the end. `None` where the sizes of the grid do not fit
    /// in machine integers.
    pub fn render(&self) -> (text: Option<String>)
        requires
            self@.wf(),
        ensures
            text is Some <==> self@.fits(),
            text matches Some(s) ==> s@ == joined_lines(self@.painted_drawing()),
    {
        match self.draw_painted() {
            Some(lines) => Some(join_lines(&lines)),
            None => None,
        }
    }
}

/// A line has as many colours, and as many marks of cuts, as characters.
pub proof fn tints_match_line(grid: GridView, band: Band, c: int)
    requires
        grid.wf(),
        0 <= c <= grid.cols(),
    ensures
        grid.tints_prefix(band, c).len() == grid.line_prefix(band, c).len(),
        grid.cuts_prefix(band, c).len() == grid.line_prefix(band, c).len(),
        c == grid.cols() ==> grid.plain_tints(band).len() == grid.plain_line(band).len(),
        c == grid.cols() ==> grid.cuts(band).len() == grid.plain_line(band).len(),
    decreases c,
{
    grown_is_sized(grid, Axis::Columns, grid.matrix.spans.len() as int);
    if c > 0 {
        tints_match_line(grid, band, c - 1);
    }
}

/// In a grid without colours, the painted drawing is the drawing.
pub proof fn no_colors_no_codes(grid: GridView)
    requires
        grid.wf(),
        grid.palette.len() == 0,
    ensures
        grid.painted_drawing() == grid.drawing(),
{
    if grid.rows() > 0 && grid.cols() > 0 {
        unpainted_above(grid, grid.rows());
        unpainted_band(grid, Band::Line(grid.rows() as usize));
    }
}

/// Without colours in the palette, a painted line is the line.
proof fn unpainted_band(grid: GridView, band: Band)
    requires
        grid.wf(),
        grid.palette.len() == 0,
    ensures
        grid.painted_line(band) == grid.line(band),
{
    let chars = grid.line(band);
    let tints = grid.tints(band);
    unpainted_upto(chars, tints, grid.cuts(band), grid.palette, chars.len() as int);
    assert(grid.painted_line(band) =~= chars);
}

/// With an empty palette nothing is written for any colour.
proof fn unpainted_upto(
    chars: Seq<char>,
    tints: Seq<Option<usize>>,
    cuts: Seq<bool>,
    palette: Seq<(Seq<char>, Seq<char>)>,
    k: int,
)
    requires
        palette.len() == 0,
        0 <= k <= chars.len(),
    ensures
        painted_upto(chars, tints, cuts, palette, k) == chars.take(k),
    decreases k,
{
    if k > 0 {
        unpainted_upto(chars, tints, cuts, palette, k - 1);
        assert(turn(palette, tint_before(tints, k - 1), tints[k - 1], cuts[k - 1]) =~= Seq::<
            char,
        >::empty());
        assert(painted_upto(chars, tints, cuts, palette, k) =~= chars.take(k));
    } else {
        assert(painted_upto(chars, tints, cuts, palette, k) =~= chars.take(k));
    }
}

/// Without colours in the palette, the painted lines above a boundary are
/// the lines above it.
proof fn unpainted_above(grid: GridView, r: int)
    requires
        grid.wf(),
        grid.palette.len() == 0,
        0 <= r <= grid.rows(),
    ensures
        grid.painted_above(r) == grid.lines_above(r),
    decreases r,
{
    if r > 0 {
        unpainted_above(grid, r - 1);
        unpainted_band(grid, Band::Line((r - 1) as usize));
        assert forall|k: int| 0 <= k < grid.heights()[r - 1] implies #[trigger] grid.painted_row_line(
            r - 1,
            k,
        ) == grid.row_line(r - 1, k) by {
            unpainted_band(grid, Band::Row((r - 1) as usize, k as usize));
        }
        grown_is_sized(grid, Axis::Rows, grid.matrix.spans.len() as int);
        assert(grid.painted_row_block(r - 1) =~= grid.row_block(r - 1));
    }
}

} // verus!
