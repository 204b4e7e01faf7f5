//! The border plan: which border lines exist, and which character stands at
//! every crossing and on every stretch of border between two crossings.
//!
//! A character is looked for in this order: the borders set for single cells
//! (of two that name one place, the later), the line that overrides the
//! boundary (a horizontal one before a vertical one), the style. Where none
//! of them gives a character the place is blank, and a whole line of border
//! exists only where one of them draws on it. A line override draws on its
//! own boundary, and with its two ends on the frame lines that it meets;
//! its crossings with inner lines make no inner line appear. Single
//! characters set on a border are written where the border exists.

use crate::grid::{CellBorder, Grid, GridView};
use crate::matrix::{span_at, Matrix, Span};
use crate::style::{first_of, or_else, Borders, HorizontalLine, Line, VerticalLine};
use vstd::prelude::*;

verus! {

/// The line that overrides row boundary `i`: the last of `lines` with that index.
pub open spec fn horizontal_line_at(lines: Seq<HorizontalLine>, i: int) -> Option<Line>
    decreases lines.len(),
{
    if lines.len() == 0 {
        None
    } else if lines.last().index == i {
        Some(lines.last().line)
    } else {
        horizontal_line_at(lines.drop_last(), i)
    }
}

/// The line that overrides column boundary `j`: the last of `lines` with that index.
pub open spec fn vertical_line_at(lines: Seq<VerticalLine>, j: int) -> Option<Line>
    decreases lines.len(),
{
    if lines.len() == 0 {
        None
    } else if lines.last().index == j {
        Some(lines.last().line)
    } else {
        vertical_line_at(lines.drop_last(), j)
    }
}

/// Computes [`horizontal_line_at`].
pub fn find_horizontal_line(lines: &Vec<HorizontalLine>, i: usize) -> (line: Option<Line>)
    ensures
        line == horizontal_line_at(lines@, i as int),
{
    let mut found: Option<Line> = None;
    let mut k: usize = 0;
    while k < lines.len()
        invariant
            k <= lines.len(),
            found == horizontal_line_at(lines@.take(k as int), i as int),
        decreases lines.len() - k,
    {
        proof {
            assert(lines@.take(k + 1).drop_last() == lines@.take(k as int));
        }
        if lines[k].index == i {
            found = Some(lines[k].line);
        }
        k += 1;
    }
    proof {
        assert(lines@.take(k as int) == lines@);
    }
    found
}

/// Computes [`vertical_line_at`].
pub fn find_vertical_line(lines: &Vec<VerticalLine>, j: usize) -> (line: Option<Line>)
    ensures
        line == vertical_line_at(lines@, j as int),
{
    let mut found: Option<Line> = None;
    let mut k: usize = 0;
    while k < lines.len()
        invariant
            k <= lines.len(),
            found == vertical_line_at(lines@.take(k as int), j as int),
        decreases lines.len() - k,
    {
        proof {
            assert(lines@.take(k + 1).drop_last() == lines@.take(k as int));
        }
        if lines[k].index == j {
            found = Some(lines[k].line);
        }
        k += 1;
    }
    proof {
        assert(lines@.take(k as int) == lines@);
    }
    found
}

/// The character of `line` for the crossing at place `at` of a line with
/// `count` cells along it: its start at 0, its end at `count`, its
/// intersection in between.
pub open spec fn line_crossing(line: Option<Line>, at: int, count: int) -> Option<char> {
    match line {
        Some(l) => if at == 0 {
            l.start
        } else if at == count {
            l.end
        } else {
            l.intersection
        },
        None => None,
    }
}

/// The filling character of `line`.
pub open spec fn line_main(line: Option<Line>) -> Option<char> {
    match line {
        Some(l) => l.main,
        None => None,
    }
}

/// The kind of place that a cell border can give a character for.
#[derive(Debug, Clone, Copy, PartialEq, Eq, Structural)]
pub enum Place {
    /// The crossing of row boundary `a` and column boundary `b`.
    Crossing,
    /// The stretch of row boundary `a` along column `b`.
    Horizontal,
    /// The stretch of column boundary `b` along row `a`.
    Vertical,
}

impl CellBorder {
    /// The character that this border gives for the place (`a`, `b`) of the
    /// kind `place`, if it gives one.
    pub open spec fn gives(self, place: Place, a: int, b: int) -> Option<char> {
        match place {
            Place::Crossing => if self.row == a && self.col == b {
                self.border.top_left
            } else if self.row == a && self.col + 1 == b {
                self.border.top_right
            } else if self.row + 1 == a && self.col == b {
                self.border.bottom_left
            } else if self.row + 1 == a && self.col + 1 == b {
                self.border.bottom_right
            } else {
                None
            },
            Place::Horizontal => if self.col == b && self.row == a {
                self.border.top
            } else if self.col == b && self.row + 1 == a {
                self.border.bottom
            } else {
                None
            },
            Place::Vertical => if self.row == a && self.col == b {
                self.border.left
            } else if self.row == a && self.col + 1 == b {
                self.border.right
            } else {
                None
            },
        }
    }

    /// Whether this border draws on row boundary `i`.
    pub open spec fn on_row_line(self, i: int) -> bool {
        ||| self.row == i && (self.border.top is Some || self.border.top_left is Some
            || self.border.top_right is Some)
        ||| self.row + 1 == i && (self.border.bottom is Some || self.border.bottom_left is Some
            || self.border.bottom_right is Some)
    }

    /// Whether this border draws on column boundary `j`.
    pub open spec fn on_col_line(self, j: int) -> bool {
        ||| self.col == j && (self.border.left is Some || self.border.top_left is Some
            || self.border.bottom_left is Some)
        ||| self.col + 1 == j && (self.border.right is Some || self.border.top_right is Some
            || self.border.bottom_right is Some)
    }

    /// Computes [`CellBorder::gives`].
    pub fn give(&self, place: Place, a: usize, b: usize) -> (c: Option<char>)
        ensures
            c == self.gives(place, a as int, b as int),
    {
        let below = a > 0 && self.row == a - 1;
        let after = b > 0 && self.col == b - 1;
        match place {
            Place::Crossing => if self.row == a && self.col == b {
                self.border.top_left
            } else if self.row == a && after {
                self.border.top_right
            } else if below && self.col == b {
                self.border.bottom_left
            } else if below && after {
                self.border.bottom_right
            } else {
                None
            },
            Place::Horizontal => if self.col == b && self.row == a {
                self.border.top
            } else if self.col == b && below {
                self.border.bottom
            } else {
                None
            },
            Place::Vertical => if self.row == a && self.col == b {
                self.border.left
            } else if self.row == a && after {
                self.border.right
            } else {
                None
            },
        }
    }

    /// Computes [`CellBorder::on_row_line`].
    pub fn draws_on_row_line(&self, i: usize) -> (b: bool)
        ensures
            b == self.on_row_line(i as int),
    {
        (self.row == i && (self.border.top.is_some() || self.border.top_left.is_some()
            || self.border.top_right.is_some())) || (i > 0 && self.row == i - 1 && (
        self.border.bottom.is_some() || self.border.bottom_left.is_some()
            || self.border.bottom_right.is_some()))
    }

    /// Computes [`CellBorder::on_col_line`].
    pub fn draws_on_col_line(&self, j: usize) -> (b: bool)
        ensures
            b == self.on_col_line(j as int),
    {
        (self.col == j && (self.border.left.is_some() || self.border.top_left.is_some()
            || self.border.bottom_left.is_some())) || (j > 0 && self.col == j - 1 && (
        self.border.right.is_some() || self.border.top_right.is_some()
            || self.border.bottom_right.is_some()))
    }
}

/// The character that the cell borders give for a place: that of the last
/// border, set for a position of the grid, that gives one.
pub open spec fn cell_override(
    borders: Seq<CellBorder>,
    rows: int,
    cols: int,
    place: Place,
    a: int,
    b: int,
) -> Option<char>
    decreases borders.len(),
{
    if borders.len() == 0 {
        None
    } else {
        let last = borders.last();
        if last.row < rows && last.col < cols && last.gives(place, a, b) is Some {
            last.gives(place, a, b)
        } else {
            cell_override(borders.drop_last(), rows, cols, place, a, b)
        }
    }
}

/// Whether some cell border, set for a position of the grid, draws on the
/// boundary `at`: a row boundary where `row_line` holds, else a column boundary.
pub open spec fn cells_touch(
    borders: Seq<CellBorder>,
    rows: int,
    cols: int,
    row_line: bool,
    at: int,
) -> bool
    decreases borders.len(),
{
    if borders.len() == 0 {
        false
    } else {
        let last = borders.last();
        (last.row < rows && last.col < cols && if row_line {
            last.on_row_line(at)
        } else {
            last.on_col_line(at)
        }) || cells_touch(borders.drop_last(), rows, cols, row_line, at)
    }
}

/// Computes [`cell_override`].
pub fn find_cell_override(
    borders: &Vec<CellBorder>,
    rows: usize,
    cols: usize,
    place: Place,
    a: usize,
    b: usize,
) -> (c: Option<char>)
    ensures
        c == cell_override(borders@, rows as int, cols as int, place, a as int, b as int),
{
    let mut found: Option<char> = None;
    let mut k: usize = 0;
    while k < borders.len()
        invariant
            k <= borders.len(),
            found == cell_override(
                borders@.take(k as int),
                rows as int,
                cols as int,
                place,
                a as int,
                b as int,
            ),
        decreases borders.len() - k,
    {
        proof {
            assert(borders@.take(k + 1).drop_last() == borders@.take(k as int));
        }
        if borders[k].row < rows && borders[k].col < cols {
            let given = borders[k].give(place, a, b);
            if given.is_some() {
                found = given;
            }
        }
        k += 1;
    }
    proof {
        assert(borders@.take(k as int) == borders@);
    }
    found
}

/// Computes [`cells_touch`].
pub fn any_cell_touches(
    borders: &Vec<CellBorder>,
    rows: usize,
    cols: usize,
    row_line: bool,
    at: usize,
) -> (b: bool)
    ensures
        b == cells_touch(borders@, rows as int, cols as int, row_line, at as int),
{
    let mut found = false;
    let mut k: usize = 0;
    while k < borders.len()
        invariant
            k <= borders.len(),
            found == cells_touch(borders@.take(k as int), rows as int, cols as int, row_line, at as int),
        decreases borders.len() - k,
    {
        proof {
            assert(borders@.take(k + 1).drop_last() == borders@.take(k as int));
        }
        if borders[k].row < rows && borders[k].col < cols {
            let touches = if row_line {
                borders[k].draws_on_row_line(at)
            } else {
                borders[k].draws_on_col_line(at)
            };
            if touches {
                found = true;
            }
        }
        k += 1;
    }
    proof {
        assert(borders@.take(k as int) == borders@);
    }
    found
}

/// The four directions in which border leaves a crossing.
#[derive(Debug, Clone, Copy, PartialEq, Eq, Structural)]
pub struct Arms {
    pub up: bool,
    pub down: bool,
    pub left: bool,
    pub right: bool,
}

impl Arms {
    /// The number of directions in which border leaves the crossing.
    pub open spec fn count(self) -> int {
        (if self.up {
            1int
        } else {
            0
        }) + (if self.down {
            1int
        } else {
            0
        }) + (if self.left {
            1int
        } else {
            0
        }) + (if self.right {
            1int
        } else {
            0
        })
    }
}

impl Borders {
    /// Whether the style draws on row boundary `i` of a grid of `rows` rows.
    pub open spec fn draws_row_line(self, i: int, rows: int) -> bool {
        if i == 0 {
            self.has_top()
        } else if i == rows {
            self.has_bottom()
        } else {
            self.has_horizontal()
        }
    }

    /// Whether the style draws on column boundary `j` of a grid of `cols` columns.
    pub open spec fn draws_col_line(self, j: int, cols: int) -> bool {
        if j == 0 {
            self.has_left()
        } else if j == cols {
            self.has_right()
        } else {
            self.has_vertical()
        }
    }

    /// The filling of row boundary `i`.
    pub open spec fn row_fill(self, i: int, rows: int) -> Option<char> {
        if i == 0 {
            self.top
        } else if i == rows {
            self.bottom
        } else {
            self.horizontal
        }
    }

    /// The filling of column boundary `j`.
    pub open spec fn col_fill(self, j: int, cols: int) -> Option<char> {
        if j == 0 {
            self.left
        } else if j == cols {
            self.right
        } else {
            self.vertical
        }
    }

    /// The character of the style for a crossing with the given arms: the
    /// piece of frame or grid whose strokes point in exactly those
    /// directions. A crossing that only a straight line passes through gets
    /// the filling of that line.
    pub open spec fn crossing(self, arms: Arms, i: int, j: int, rows: int, cols: int) -> Option<
        char,
    > {
        if arms.up && arms.down && arms.left && arms.right {
            self.intersection
        } else if !arms.up && arms.down && arms.left && arms.right {
            self.top_intersection
        } else if arms.up && !arms.down && arms.left && arms.right {
            self.bottom_intersection
        } else if arms.up && arms.down && !arms.left && arms.right {
            self.left_intersection
        } else if arms.up && arms.down && arms.left && !arms.right {
            self.right_intersection
        } else if !arms.up && arms.down && !arms.left && arms.right {
            self.top_left
        } else if !arms.up && arms.down && arms.left && !arms.right {
            self.top_right
        } else if arms.up && !arms.down && !arms.left && arms.right {
            self.bottom_left
        } else if arms.up && !arms.down && arms.left && !arms.right {
            self.bottom_right
        } else if !arms.up && !arms.down && arms.left && arms.right {
            self.row_fill(i, rows)
        } else if arms.up && arms.down && !arms.left && !arms.right {
            self.col_fill(j, cols)
        } else {
            None
        }
    }

    /// Computes [`Borders::draws_row_line`].
    pub fn row_line_drawn(&self, i: usize, rows: usize) -> (b: bool)
        ensures
            b == self.draws_row_line(i as int, rows as int),
    {
        if i == 0 {
            self.draws_top()
        } else if i == rows {
            self.draws_bottom()
        } else {
            self.draws_horizontal()
        }
    }

    /// Computes [`Borders::draws_col_line`].
    pub fn col_line_drawn(&self, j: usize, cols: usize) -> (b: bool)
        ensures
            b == self.draws_col_line(j as int, cols as int),
    {
        if j == 0 {
            self.draws_left()
        } else if j == cols {
            self.draws_right()
        } else {
            self.draws_vertical()
        }
    }

    /// Computes [`Borders::row_fill`].
    pub fn filling_of_row_line(&self, i: usize, rows: usize) -> (c: Option<char>)
        ensures
            c == self.row_fill(i as int, rows as int),
    {
        if i == 0 {
            self.top
        } else if i == rows {
            self.bottom
        } else {
            self.horizontal
        }
    }

    /// Computes [`Borders::col_fill`].
    pub fn filling_of_col_line(&self, j: usize, cols: usize) -> (c: Option<char>)
        ensures
            c == self.col_fill(j as int, cols as int),
    {
        if j == 0 {
            self.left
        } else if j == cols {
            self.right
        } else {
            self.vertical
        }
    }

    /// Computes [`Borders::crossing`].
    pub fn crossing_char(&self, arms: Arms, i: usize, j: usize, rows: usize, cols: usize) -> (c:
        Option<char>)
        ensures
            c == self.crossing(arms, i as int, j as int, rows as int, cols as int),
    {
        if arms.up && arms.down && arms.left && arms.right {
            self.intersection
        } else if !arms.up && arms.down && arms.left && arms.right {
            self.top_intersection
        } else if arms.up && !arms.down && arms.left && arms.right {
            self.bottom_intersection
        } else if arms.up && arms.down && !arms.left && arms.right {
            self.left_intersection
        } else if arms.up && arms.down && arms.left && !arms.right {
            self.right_intersection
        } else if !arms.up && arms.down && !arms.left && arms.right {
            self.top_left
        } else if !arms.up && arms.down && arms.left && !arms.right {
            self.top_right
        } else if arms.up && !arms.down && !arms.left && arms.right {
            self.bottom_left
        } else if arms.up && !arms.down && arms.left && !arms.right {
            self.bottom_right
        } else if !arms.up && !arms.down && arms.left && arms.right {
            self.filling_of_row_line(i, rows)
        } else if arms.up && arms.down && !arms.left && !arms.right {
            self.filling_of_col_line(j, cols)
        } else {
            None
        }
    }
}

/// Whether the positions (`r1`, `c1`) and (`r2`, `c2`) lie in one span.
pub open spec fn joined(spans: Seq<Span>, r1: int, c1: int, r2: int, c2: int) -> bool {
    span_at(spans, r1, c1) is Some && span_at(spans, r1, c1) == span_at(spans, r2, c2)
}

/// The arms of the crossing of row boundary `i` and column boundary `j` in a
/// grid of `rows` by `cols` positions: border leaves it in every direction
/// that stays within the grid, but not between two positions of one span.
pub open spec fn arms_at(spans: Seq<Span>, rows: int, cols: int, i: int, j: int) -> Arms {
    let inner_col = 0 < j < cols;
    let inner_row = 0 < i < rows;
    Arms {
        up: i > 0 && !(inner_col && joined(spans, i - 1, j - 1, i - 1, j)),
        down: i < rows && !(inner_col && joined(spans, i, j - 1, i, j)),
        left: j > 0 && !(inner_row && joined(spans, i - 1, j - 1, i, j - 1)),
        right: j < cols && !(inner_row && joined(spans, i - 1, j, i, j)),
    }
}

/// The character at the start (`first`) or at the end of a line.
pub open spec fn line_end(line: Option<Line>, first: bool) -> Option<char> {
    match line {
        Some(l) => if first {
            l.start
        } else {
            l.end
        },
        None => None,
    }
}

/// Whether the line that overrides one of the row boundaries before `upto`
/// has a character at its start (`first`) or at its end: such a line draws
/// on the left or on the right frame line.
pub open spec fn horizontals_reach(lines: Seq<HorizontalLine>, first: bool, upto: int) -> bool
    decreases upto,
{
    if upto <= 0 {
        false
    } else {
        line_end(horizontal_line_at(lines, upto - 1), first) is Some || horizontals_reach(
            lines,
            first,
            upto - 1,
        )
    }
}

/// Whether the line that overrides one of the column boundaries before
/// `upto` has a character at its start (`first`) or at its end: such a line
/// draws on the top or on the bottom frame line.
pub open spec fn verticals_reach(lines: Seq<VerticalLine>, first: bool, upto: int) -> bool
    decreases upto,
{
    if upto <= 0 {
        false
    } else {
        line_end(vertical_line_at(lines, upto - 1), first) is Some || verticals_reach(
            lines,
            first,
            upto - 1,
        )
    }
}

/// Computes [`horizontals_reach`] for the boundaries 0 to `last`.
pub fn any_horizontal_reaches(lines: &Vec<HorizontalLine>, first: bool, last: usize) -> (b: bool)
    requires
        last < usize::MAX,
    ensures
        b == horizontals_reach(lines@, first, last + 1),
{
    let mut found = false;
    let mut k: usize = 0;
    while k <= last
        invariant
            k <= last + 1,
            last < usize::MAX,
            found == horizontals_reach(lines@, first, k as int),
        decreases last + 1 - k,
    {
        let end = match find_horizontal_line(lines, k) {
            Some(l) => if first {
                l.start
            } else {
                l.end
            },
            None => None,
        };
        if end.is_some() {
            found = true;
        }
        k += 1;
    }
    found
}

/// Computes [`verticals_reach`] for the boundaries 0 to `last`.
pub fn any_vertical_reaches(lines: &Vec<VerticalLine>, first: bool, last: usize) -> (b: bool)
    requires
        last < usize::MAX,
    ensures
        b == verticals_reach(lines@, first, last + 1),
{
    let mut found = false;
    let mut k: usize = 0;
    while k <= last
        invariant
            k <= last + 1,
            last < usize::MAX,
            found == verticals_reach(lines@, first, k as int),
        decreases last + 1 - k,
    {
        let end = match find_vertical_line(lines, k) {
            Some(l) => if first {
                l.start
            } else {
                l.end
            },
            None => None,
        };
        if end.is_some() {
            found = true;
        }
        k += 1;
    }
    found
}

impl GridView {
    /// Whether row boundary `i` is drawn: a line of border characters exists
    /// there where the style, a line override or a cell border draws on it.
    /// A vertical line override draws on the top frame line with its start
    /// and on the bottom frame line with its end.
    pub open spec fn has_row_line(self, i: int) -> bool {
        ||| self.style.borders.draws_row_line(i, self.rows())
        ||| horizontal_line_at(self.style.horizontals, i) is Some
        ||| cells_touch(self.cell_borders, self.rows(), self.cols(), true, i)
        ||| i == 0 && verticals_reach(self.style.verticals, true, self.cols() + 1)
        ||| i == self.rows() && verticals_reach(self.style.verticals, false, self.cols() + 1)
    }

    /// Whether column boundary `j` is drawn. A horizontal line override
    /// draws on the left frame line with its start and on the right frame
    /// line with its end.
    pub open spec fn has_col_line(self, j: int) -> bool {
        ||| self.style.borders.draws_col_line(j, self.cols())
        ||| vertical_line_at(self.style.verticals, j) is Some
        ||| cells_touch(self.cell_borders, self.rows(), self.cols(), false, j)
        ||| j == 0 && horizontals_reach(self.style.horizontals, true, self.rows() + 1)
        ||| j == self.cols() && horizontals_reach(self.style.horizontals, false, self.rows() + 1)
    }

    /// The arms that decide the character of the style at a crossing. Spans
    /// count only where the grid is asked to correct them; otherwise every
    /// crossing has all the arms that stay within the grid.
    pub open spec fn arms(self, i: int, j: int) -> Arms {
        if self.correct_spans {
            arms_at(self.matrix.spans, self.rows(), self.cols(), i, j)
        } else {
            arms_at(Seq::empty(), self.rows(), self.cols(), i, j)
        }
    }

    /// The character at the crossing of row boundary `i` and column boundary
    /// `j`, if any is set.
    pub open spec fn crossing(self, i: int, j: int) -> Option<char> {
        or_else(
            cell_override(self.cell_borders, self.rows(), self.cols(), Place::Crossing, i, j),
            or_else(
                line_crossing(horizontal_line_at(self.style.horizontals, i), j, self.cols()),
                or_else(
                    line_crossing(vertical_line_at(self.style.verticals, j), i, self.rows()),
                    self.style.borders.crossing(self.arms(i, j), i, j, self.rows(), self.cols()),
                ),
            ),
        )
    }

    /// The character that fills row boundary `i` along column `c`, if any is set.
    pub open spec fn horizontal_fill(self, i: int, c: int) -> Option<char> {
        or_else(
            cell_override(self.cell_borders, self.rows(), self.cols(), Place::Horizontal, i, c),
            or_else(
                line_main(horizontal_line_at(self.style.horizontals, i)),
                self.style.borders.row_fill(i, self.rows()),
            ),
        )
    }

    /// The character that fills column boundary `j` along row `r`, if any is set.
    pub open spec fn vertical_fill(self, r: int, j: int) -> Option<char> {
        or_else(
            cell_override(self.cell_borders, self.rows(), self.cols(), Place::Vertical, r, j),
            or_else(
                line_main(vertical_line_at(self.style.verticals, j)),
                self.style.borders.col_fill(j, self.cols()),
            ),
        )
    }
}

/// The resolved borders of a grid: for every boundary whether it is drawn,
/// and the character, if any, of every crossing and every stretch.
#[derive(Debug)]
pub struct BorderPlan {
    pub row_lines: Vec<bool>,
    pub col_lines: Vec<bool>,
    pub crossings: Vec<Vec<Option<char>>>,
    pub horizontal_fills: Vec<Vec<Option<char>>>,
    pub vertical_fills: Vec<Vec<Option<char>>>,
}

impl BorderPlan {
    /// Whether the plan holds exactly the borders of `grid`.
    pub open spec fn describes(&self, grid: GridView) -> bool {
        &&& self.row_lines.len() == grid.rows() + 1
        &&& self.col_lines.len() == grid.cols() + 1
        &&& self.crossings.len() == grid.rows() + 1
        &&& self.horizontal_fills.len() == grid.rows() + 1
        &&& self.vertical_fills.len() == grid.rows()
        &&& forall|i: int| 0 <= i <= grid.rows() ==> #[trigger] self.row_lines[i] == grid.has_row_line(i)
        &&& forall|j: int| 0 <= j <= grid.cols() ==> #[trigger] self.col_lines[j] == grid.has_col_line(j)
        &&& forall|i: int|
            0 <= i <= grid.rows() ==> (#[trigger] self.crossings[i]).len() == grid.cols() + 1
        &&& forall|i: int, j: int|
            0 <= i <= grid.rows() && 0 <= j <= grid.cols() ==> #[trigger] self.crossings[i][j]
                == grid.crossing(i, j)
        &&& forall|i: int|
            0 <= i <= grid.rows() ==> (#[trigger] self.horizontal_fills[i]).len() == grid.cols()
        &&& forall|i: int, c: int|
            0 <= i <= grid.rows() && 0 <= c < grid.cols() ==> #[trigger] self.horizontal_fills[i][c]
                == grid.horizontal_fill(i, c)
        &&& forall|r: int|
            0 <= r < grid.rows() ==> (#[trigger] self.vertical_fills[r]).len() == grid.cols() + 1
        &&& forall|r: int, j: int|
            0 <= r < grid.rows() && 0 <= j <= grid.cols() ==> #[trigger] self.vertical_fills[r][j]
                == grid.vertical_fill(r, j)
    }
}

/// Tells whether two spans are the same rectangle.
pub fn same_span(a: &Span, b: &Span) -> (same: bool)
    ensures
        same == (*a == *b),
{
    a.row == b.row && a.col == b.col && a.rows == b.rows && a.cols == b.cols
}

/// Computes [`joined`] for the spans of a matrix.
pub fn are_joined(matrix: &Matrix, r1: usize, c1: usize, r2: usize, c2: usize) -> (b: bool)
    ensures
        b == joined(matrix@.spans, r1 as int, c1 as int, r2 as int, c2 as int),
{
    match matrix.span_of(r1, c1) {
        Some(first) => match matrix.span_of(r2, c2) {
            Some(second) => same_span(&first, &second),
            None => false,
        },
        None => false,
    }
}

impl Grid {
    /// Computes [`GridView::has_row_line`].
    pub fn row_line_drawn(&self, i: usize) -> (b: bool)
        requires
            self@.cols() < usize::MAX,
        ensures
            b == self@.has_row_line(i as int),
    {
        let rows = self.matrix.rows();
        let cols = self.matrix.cols();
        self.style.borders.row_line_drawn(i, rows) || find_horizontal_line(
            &self.style.horizontals,
            i,
        ).is_some() || any_cell_touches(&self.cell_borders, rows, cols, true, i) || (i == 0
            && any_vertical_reaches(&self.style.verticals, true, cols)) || (i == rows
            && any_vertical_reaches(&self.style.verticals, false, cols))
    }

    /// Computes [`GridView::has_col_line`].
    pub fn col_line_drawn(&self, j: usize) -> (b: bool)
        requires
            self@.rows() < usize::MAX,
        ensures
            b == self@.has_col_line(j as int),
    {
        let rows = self.matrix.rows();
        let cols = self.matrix.cols();
        self.style.borders.col_line_drawn(j, cols) || find_vertical_line(
            &self.style.verticals,
            j,
        ).is_some() || any_cell_touches(&self.cell_borders, rows, cols, false, j) || (j == 0
            && any_horizontal_reaches(&self.style.horizontals, true, rows)) || (j == cols
            && any_horizontal_reaches(&self.style.horizontals, false, rows))
    }

    /// Computes [`GridView::arms`].
    pub fn arms_of(&self, i: usize, j: usize) -> (arms: Arms)
        ensures
            arms == self@.arms(i as int, j as int),
    {
        let rows = self.matrix.rows();
        let cols = self.matrix.cols();
        let inner_col = 0 < j && j < cols;
        let inner_row = 0 < i && i < rows;
        if self.correct_spans {
            Arms {
                up: i > 0 && !(inner_col && are_joined(&self.matrix, i - 1, j - 1, i - 1, j)),
                down: i < rows && !(inner_col && are_joined(&self.matrix, i, j - 1, i, j)),
                left: j > 0 && !(inner_row && are_joined(&self.matrix, i - 1, j - 1, i, j - 1)),
                right: j < cols && !(inner_row && are_joined(&self.matrix, i - 1, j, i, j)),
            }
        } else {
            Arms { up: i > 0, down: i < rows, left: j > 0, right: j < cols }
        }
    }

    /// Computes [`GridView::crossing`].
    pub fn crossing_char(&self, i: usize, j: usize) -> (c: Option<char>)
        ensures
            c == self@.crossing(i as int, j as int),
    {
        let rows = self.matrix.rows();
        let cols = self.matrix.cols();
        let from_cells = find_cell_override(&self.cell_borders, rows, cols, Place::Crossing, i, j);
        let from_row = match find_horizontal_line(&self.style.horizontals, i) {
            Some(l) => if j == 0 {
                l.start
            } else if j == cols {
                l.end
            } else {
                l.intersection
            },
            None => None,
        };
        let from_col = match find_vertical_line(&self.style.verticals, j) {
            Some(l) => if i == 0 {
                l.start
            } else if i == rows {
                l.end
            } else {
                l.intersection
            },
            None => None,
        };
        let from_style = self.style.borders.crossing_char(self.arms_of(i, j), i, j, rows, cols);
        first_of(from_cells, first_of(from_row, first_of(from_col, from_style)))
    }

    /// Computes [`GridView::horizontal_fill`].
    pub fn horizontal_fill_char(&self, i: usize, c: usize) -> (ch: Option<char>)
        ensures
            ch == self@.horizontal_fill(i as int, c as int),
    {
        let rows = self.matrix.rows();
        let cols = self.matrix.cols();
        let from_cells = find_cell_override(&self.cell_borders, rows, cols, Place::Horizontal, i, c);
        let from_line = match find_horizontal_line(&self.style.horizontals, i) {
            Some(l) => l.main,
            None => None,
        };
        first_of(from_cells, first_of(from_line, self.style.borders.filling_of_row_line(i, rows)))
    }

    /// Computes [`GridView::vertical_fill`].
    pub fn vertical_fill_char(&self, r: usize, j: usize) -> (ch: Option<char>)
        ensures
            ch == self@.vertical_fill(r as int, j as int),
    {
        let rows = self.matrix.rows();
        let cols = self.matrix.cols();
        let from_cells = find_cell_override(&self.cell_borders, rows, cols, Place::Vertical, r, j);
        let from_line = match find_vertical_line(&self.style.verticals, j) {
            Some(l) => l.main,
            None => None,
        };
        first_of(from_cells, first_of(from_line, self.style.borders.filling_of_col_line(j, cols)))
    }

    /// Resolves the borders of the grid into a plan.
    pub fn resolve(&self) -> (plan: BorderPlan)
        requires
            self@.rows() < usize::MAX,
            self@.cols() < usize::MAX,
        ensures
            plan.describes(self@),
    {
        let rows = self.matrix.rows();
        let cols = self.matrix.cols();
        let mut row_lines: Vec<bool> = Vec::new();
        let mut crossings: Vec<Vec<Option<char>>> = Vec::new();
        let mut horizontal_fills: Vec<Vec<Option<char>>> = Vec::new();
        let mut i: usize = 0;
        while i <= rows
            invariant
                i <= rows + 1,
                rows == self@.rows(),
                cols == self@.cols(),
                rows < usize::MAX,
                cols < usize::MAX,
                row_lines.len() == i,
                crossings.len() == i,
                horizontal_fills.len() == i,
                forall|k: int| 0 <= k < i ==> #[trigger] row_lines[k] == self@.has_row_line(k),
                forall|k: int| 0 <= k < i ==> (#[trigger] crossings[k]).len() == cols + 1,
                forall|k: int, j: int|
                    0 <= k < i && 0 <= j <= cols ==> #[trigger] crossings[k][j] == self@.crossing(
                        k,
                        j,
                    ),
                forall|k: int| 0 <= k < i ==> (#[trigger] horizontal_fills[k]).len() == cols,
                forall|k: int, c: int|
                    0 <= k < i && 0 <= c < cols ==> #[trigger] horizontal_fills[k][c]
                        == self@.horizontal_fill(k, c),
            decreases rows + 1 - i,
        {
            row_lines.push(self.row_line_drawn(i));
            let mut crossing_row: Vec<Option<char>> = Vec::new();
            let mut j: usize = 0;
            while j <= cols
                invariant
                    j <= cols + 1,
                    cols < usize::MAX,
                    crossing_row.len() == j,
                    forall|k: int|
                        0 <= k < j ==> #[trigger] crossing_row[k] == self@.crossing(i as int, k),
                decreases cols + 1 - j,
            {
                crossing_row.push(self.crossing_char(i, j));
                j += 1;
            }
            crossings.push(crossing_row);
            let mut fill_row: Vec<Option<char>> = Vec::new();
            let mut c: usize = 0;
            while c < cols
                invariant
                    c <= cols,
                    fill_row.len() == c,
                    forall|k: int|
                        0 <= k < c ==> #[trigger] fill_row[k] == self@.horizontal_fill(i as int, k),
                decreases cols - c,
            {
                fill_row.push(self.horizontal_fill_char(i, c));
                c += 1;
            }
            horizontal_fills.push(fill_row);
            i += 1;
        }
        let mut col_lines: Vec<bool> = Vec::new();
        let mut j: usize = 0;
        while j <= cols
            invariant
                j <= cols + 1,
                cols == self@.cols(),
                cols < usize::MAX,
                self@.rows() < usize::MAX,
                col_lines.len() == j,
                forall|k: int| 0 <= k < j ==> #[trigger] col_lines[k] == self@.has_col_line(k),
            decreases cols + 1 - j,
        {
            col_lines.push(self.col_line_drawn(j));
            j += 1;
        }
        let mut vertical_fills: Vec<Vec<Option<char>>> = Vec::new();
        let mut r: usize = 0;
        while r < rows
            invariant
                r <= rows,
                cols == self@.cols(),
                cols < usize::MAX,
                vertical_fills.len() == r,
                forall|k: int| 0 <= k < r ==> (#[trigger] vertical_fills[k]).len() == cols + 1,
                forall|k: int, j: int|
                    0 <= k < r && 0 <= j <= cols ==> #[trigger] vertical_fills[k][j]
                        == self@.vertical_fill(k, j),
            decreases rows - r,
        {
            let mut fill_row: Vec<Option<char>> = Vec::new();
            let mut j: usize = 0;
            while j <= cols
                invariant
                    j <= cols + 1,
                    cols < usize::MAX,
                    fill_row.len() == j,
                    forall|k: int|
                        0 <= k < j ==> #[trigger] fill_row[k] == self@.vertical_fill(r as int, k),
                decreases cols + 1 - j,
            {
                fill_row.push(self.vertical_fill_char(r, j));
                j += 1;
            }
            vertical_fills.push(fill_row);
            r += 1;
        }
        BorderPlan { row_lines, col_lines, crossings, horizontal_fills, vertical_fills }
    }
}

} // verus!
