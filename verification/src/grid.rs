//! The grid: a matrix of cells together with everything that decides how it
//! is drawn.

use crate::color::AnsiColor;
use crate::matrix::{Matrix, MatrixView};
use crate::settings::{
    Alignment,
    AlignmentHorizontal,
    AlignmentStrategy,
    AlignmentVertical,
    Padding,
};
use crate::text::chars_of;
use crate::style::{Style, StyleView};
use vstd::prelude::*;

verus! {

/// Border characters set for one cell. They take precedence over the style
/// at the four edges and four corners of the grid position of the cell.
#[derive(Debug, Clone, Copy, PartialEq, Eq)]
pub struct Border {
    pub top: Option<char>,
    pub bottom: Option<char>,
    pub left: Option<char>,
    pub right: Option<char>,
    pub top_left: Option<char>,
    pub top_right: Option<char>,
    pub bottom_left: Option<char>,
    pub bottom_right: Option<char>,
}

/// Colours for the characters of a [`Border`], each the index of a colour
/// of the grid.
#[derive(Debug, Clone, Copy, PartialEq, Eq)]
pub struct BorderTints {
    pub top: Option<usize>,
    pub bottom: Option<usize>,
    pub left: Option<usize>,
    pub right: Option<usize>,
    pub top_left: Option<usize>,
    pub top_right: Option<usize>,
    pub bottom_left: Option<usize>,
    pub bottom_right: Option<usize>,
}

/// A [`Border`] with its colours and the position it is set for.
#[derive(Debug, Clone, Copy, PartialEq, Eq)]
pub struct CellBorder {
    pub row: usize,
    pub col: usize,
    pub border: Border,
    pub tints: BorderTints,
}

/// Colours for the border characters of the style, each the index of a
/// colour of the grid.
#[derive(Debug, Clone, Copy, PartialEq, Eq)]
pub struct BorderColors {
    pub top: Option<usize>,
    pub bottom: Option<usize>,
    pub left: Option<usize>,
    pub right: Option<usize>,
    pub horizontal: Option<usize>,
    pub vertical: Option<usize>,
    pub top_left: Option<usize>,
    pub top_right: Option<usize>,
    pub bottom_left: Option<usize>,
    pub bottom_right: Option<usize>,
    pub top_intersection: Option<usize>,
    pub bottom_intersection: Option<usize>,
    pub left_intersection: Option<usize>,
    pub right_intersection: Option<usize>,
    pub intersection: Option<usize>,
}

impl BorderTints {
    /// No colour for any character.
    pub open spec fn spec_none() -> BorderTints {
        BorderTints {
            top: None,
            bottom: None,
            left: None,
            right: None,
            top_left: None,
            top_right: None,
            bottom_left: None,
            bottom_right: None,
        }
    }

    /// No colour for any character.
    pub fn none() -> (tints: BorderTints)
        ensures
            tints == BorderTints::spec_none(),
    {
        BorderTints {
            top: None,
            bottom: None,
            left: None,
            right: None,
            top_left: None,
            top_right: None,
            bottom_left: None,
            bottom_right: None,
        }
    }

    /// The colour `tint` for every character.
    pub fn filled(tint: usize) -> (tints: BorderTints)
        ensures
            tints == (BorderTints {
                top: Some(tint),
                bottom: Some(tint),
                left: Some(tint),
                right: Some(tint),
                top_left: Some(tint),
                top_right: Some(tint),
                bottom_left: Some(tint),
                bottom_right: Some(tint),
            }),
    {
        BorderTints {
            top: Some(tint),
            bottom: Some(tint),
            left: Some(tint),
            right: Some(tint),
            top_left: Some(tint),
            top_right: Some(tint),
            bottom_left: Some(tint),
            bottom_right: Some(tint),
        }
    }
}

impl BorderColors {
    /// No colour for any character.
    pub open spec fn spec_none() -> BorderColors {
        BorderColors {
            top: None,
            bottom: None,
            left: None,
            right: None,
            horizontal: None,
            vertical: None,
            top_left: None,
            top_right: None,
            bottom_left: None,
            bottom_right: None,
            top_intersection: None,
            bottom_intersection: None,
            left_intersection: None,
            right_intersection: None,
            intersection: None,
        }
    }

    /// No colour for any character.
    pub fn none() -> (colors: BorderColors)
        ensures
            colors == BorderColors::spec_none(),
    {
        BorderColors {
            top: None,
            bottom: None,
            left: None,
            right: None,
            horizontal: None,
            vertical: None,
            top_left: None,
            top_right: None,
            bottom_left: None,
            bottom_right: None,
            top_intersection: None,
            bottom_intersection: None,
            left_intersection: None,
            right_intersection: None,
            intersection: None,
        }
    }
}

/// The colour of the content of one cell: the index of a colour of the
/// grid, with the position of the cell.
#[derive(Debug, Clone, Copy, PartialEq, Eq)]
pub struct CellColor {
    pub row: usize,
    pub col: usize,
    pub tint: usize,
}

/// A place along an edge, counted from its first or from its last character.
#[derive(Debug, Clone, Copy, PartialEq, Eq)]
pub enum Offset {
    Begin(usize),
    End(usize),
}

/// Which border of a grid position a [`BorderChar`] is written on: the
/// horizontal one above it or the vertical one to its left.
#[derive(Debug, Clone, Copy, PartialEq, Eq)]
pub enum Direction {
    Horizontal,
    Vertical,
}

/// One character written over a border at an exact place.
#[derive(Debug, Clone, Copy, PartialEq, Eq)]
pub struct BorderChar {
    pub direction: Direction,
    pub ch: char,
    pub offset: Offset,
}

/// A [`BorderChar`] with the grid position it is set for. Row `rows` stands
/// for the bottom border and column `cols` for the right border.
#[derive(Debug, Clone, Copy, PartialEq, Eq)]
pub struct BorderMark {
    pub row: usize,
    pub col: usize,
    pub mark: BorderChar,
}

/// A text written over one horizontal border line, starting at `offset`.
#[derive(Debug, Clone, PartialEq, Eq)]
pub struct BorderText {
    pub line: usize,
    pub text: Vec<char>,
    pub offset: Offset,
}

/// A [`BorderText`] as a mathematical value.
pub struct BorderTextView {
    pub line: usize,
    pub text: Seq<char>,
    pub offset: Offset,
}

impl View for BorderText {
    type V = BorderTextView;

    /// The text with its characters as a sequence.
    open spec fn view(&self) -> BorderTextView {
        BorderTextView { line: self.line, text: self.text@, offset: self.offset }
    }
}

/// The views of the border texts held in `texts`.
pub open spec fn text_views(texts: Seq<BorderText>) -> Seq<BorderTextView> {
    Seq::new(texts.len(), |k: int| texts[k]@)
}

/// A matrix and its drawing settings.
#[derive(Debug)]
pub struct Grid {
    pub matrix: Matrix,
    pub style: Style,
    pub cell_borders: Vec<CellBorder>,
    pub marks: Vec<BorderMark>,
    pub texts: Vec<BorderText>,
    pub padding: Padding,
    pub horizontal: AlignmentHorizontal,
    pub vertical: AlignmentVertical,
    pub strategy: AlignmentStrategy,
    pub correct_spans: bool,
    pub palette: Vec<AnsiColor<'static>>,
    pub border_colors: BorderColors,
    pub global_tint: Option<usize>,
    pub cell_colors: Vec<CellColor>,
    pub split_runs: bool,
}

/// The views of the colours held in `palette`.
pub open spec fn palette_view(palette: Seq<AnsiColor<'static>>) -> Seq<(Seq<char>, Seq<char>)> {
    Seq::new(palette.len(), |k: int| palette[k]@)
}

/// A grid as a mathematical value.
pub struct GridView {
    pub matrix: MatrixView,
    pub style: StyleView,
    pub cell_borders: Seq<CellBorder>,
    pub marks: Seq<BorderMark>,
    pub texts: Seq<BorderTextView>,
    pub padding: Padding,
    pub horizontal: AlignmentHorizontal,
    pub vertical: AlignmentVertical,
    pub strategy: AlignmentStrategy,
    pub correct_spans: bool,
    pub palette: Seq<(Seq<char>, Seq<char>)>,
    pub border_colors: BorderColors,
    pub global_tint: Option<usize>,
    pub cell_colors: Seq<CellColor>,
    pub split_runs: bool,
}

impl View for Grid {
    type V = GridView;

    /// The matrix and the settings, each as a mathematical value.
    open spec fn view(&self) -> GridView {
        GridView {
            matrix: self.matrix@,
            style: self.style@,
            cell_borders: self.cell_borders@,
            marks: self.marks@,
            texts: text_views(self.texts@),
            padding: self.padding,
            horizontal: self.horizontal,
            vertical: self.vertical,
            strategy: self.strategy,
            correct_spans: self.correct_spans,
            palette: palette_view(self.palette@),
            border_colors: self.border_colors,
            global_tint: self.global_tint,
            cell_colors: self.cell_colors@,
            split_runs: self.split_runs,
        }
    }
}

impl Grid {
    /// The grid that draws `matrix` in `style`, with the default padding of
    /// one blank left and right of the content, content at the left and at
    /// the top of its cell, every line aligned by itself, and nothing set
    /// for single cells or borders.
    pub fn new(matrix: Matrix, style: Style) -> (grid: Grid)
        ensures
            grid@ == (GridView {
                matrix: matrix@,
                style: style@,
                cell_borders: Seq::empty(),
                marks: Seq::empty(),
                texts: Seq::empty(),
                padding: Padding { left: 1, right: 1, top: 0, bottom: 0, fill: ' ' },
                horizontal: AlignmentHorizontal::Left,
                vertical: AlignmentVertical::Top,
                strategy: AlignmentStrategy::PerLine,
                correct_spans: false,
                palette: Seq::empty(),
                border_colors: BorderColors::spec_none(),
                global_tint: None,
                cell_colors: Seq::empty(),
                split_runs: false,
            }),
    {
        let grid = Grid {
            matrix,
            style,
            cell_borders: Vec::new(),
            marks: Vec::new(),
            texts: Vec::new(),
            padding: Padding { left: 1, right: 1, top: 0, bottom: 0, fill: ' ' },
            horizontal: AlignmentHorizontal::Left,
            vertical: AlignmentVertical::Top,
            strategy: AlignmentStrategy::PerLine,
            correct_spans: false,
            palette: Vec::new(),
            border_colors: BorderColors::none(),
            global_tint: None,
            cell_colors: Vec::new(),
            split_runs: false,
        };
        proof {
            assert(text_views(grid.texts@) =~= Seq::empty());
            assert(palette_view(grid.palette@) =~= Seq::empty());
        }
        grid
    }
}

impl Border {
    /// The border that sets nothing.
    pub fn empty() -> (border: Border)
        ensures
            border == (Border {
                top: None,
                bottom: None,
                left: None,
                right: None,
                top_left: None,
                top_right: None,
                bottom_left: None,
                bottom_right: None,
            }),
    {
        Border {
            top: None,
            bottom: None,
            left: None,
            right: None,
            top_left: None,
            top_right: None,
            bottom_left: None,
            bottom_right: None,
        }
    }

    /// The border that sets `c` on all edges and corners.
    pub fn filled(c: char) -> (border: Border)
        ensures
            border == (Border {
                top: Some(c),
                bottom: Some(c),
                left: Some(c),
                right: Some(c),
                top_left: Some(c),
                top_right: Some(c),
                bottom_left: Some(c),
                bottom_right: Some(c),
            }),
    {
        Border {
            top: Some(c),
            bottom: Some(c),
            left: Some(c),
            right: Some(c),
            top_left: Some(c),
            top_right: Some(c),
            bottom_left: Some(c),
            bottom_right: Some(c),
        }
    }

    /// The same border with `c` on the top edge.
    pub fn top(self, c: char) -> (border: Border)
        ensures
            border == (Border { top: Some(c), ..self }),
    {
        let mut border = self;
        border.top = Some(c);
        border
    }

    /// The same border with `c` on the bottom edge.
    pub fn bottom(self, c: char) -> (border: Border)
        ensures
            border == (Border { bottom: Some(c), ..self }),
    {
        let mut border = self;
        border.bottom = Some(c);
        border
    }

    /// The same border with `c` on the left edge.
    pub fn left(self, c: char) -> (border: Border)
        ensures
            border == (Border { left: Some(c), ..self }),
    {
        let mut border = self;
        border.left = Some(c);
        border
    }

    /// The same border with `c` on the right edge.
    pub fn right(self, c: char) -> (border: Border)
        ensures
            border == (Border { right: Some(c), ..self }),
    {
        let mut border = self;
        border.right = Some(c);
        border
    }

    /// The same border with `c` on the top left corner.
    pub fn top_left_corner(self, c: char) -> (border: Border)
        ensures
            border == (Border { top_left: Some(c), ..self }),
    {
        let mut border = self;
        border.top_left = Some(c);
        border
    }

    /// The same border with `c` on the top right corner.
    pub fn top_right_corner(self, c: char) -> (border: Border)
        ensures
            border == (Border { top_right: Some(c), ..self }),
    {
        let mut border = self;
        border.top_right = Some(c);
        border
    }

    /// The same border with `c` on the bottom left corner.
    pub fn bottom_left_corner(self, c: char) -> (border: Border)
        ensures
            border == (Border { bottom_left: Some(c), ..self }),
    {
        let mut border = self;
        border.bottom_left = Some(c);
        border
    }

    /// The same border with `c` on the bottom right corner.
    pub fn bottom_right_corner(self, c: char) -> (border: Border)
        ensures
            border == (Border { bottom_right: Some(c), ..self }),
    {
        let mut border = self;
        border.bottom_right = Some(c);
        border
    }

}

impl Default for Border {
    /// The border that sets nothing.
    fn default() -> (border: Border)
        ensures
            border == (Border {
                top: None,
                bottom: None,
                left: None,
                right: None,
                top_left: None,
                top_right: None,
                bottom_left: None,
                bottom_right: None,
            }),
    {
        Border::empty()
    }
}

impl BorderChar {
    /// The character `ch` at `offset` on the horizontal border above a cell.
    pub fn horizontal(ch: char, offset: Offset) -> (mark: BorderChar)
        ensures
            mark == (BorderChar { direction: Direction::Horizontal, ch, offset }),
    {
        BorderChar { direction: Direction::Horizontal, ch, offset }
    }

    /// The character `ch` at `offset` on the vertical border left of a cell.
    pub fn vertical(ch: char, offset: Offset) -> (mark: BorderChar)
        ensures
            mark == (BorderChar { direction: Direction::Vertical, ch, offset }),
    {
        BorderChar { direction: Direction::Vertical, ch, offset }
    }
}

impl BorderText {
    /// The text `text` for the border line of row boundary `line`, written
    /// from the first character of the line on.
    pub fn new(line: usize, text: &str) -> (border_text: BorderText)
        ensures
            border_text@ == (BorderTextView { line, text: text@, offset: Offset::Begin(0) }),
    {
        BorderText { line, text: chars_of(text), offset: Offset::Begin(0) }
    }

    /// The text `text` for the top border line.
    pub fn first(text: &str) -> (border_text: BorderText)
        ensures
            border_text@ == (BorderTextView { line: 0, text: text@, offset: Offset::Begin(0) }),
    {
        BorderText { line: 0, text: chars_of(text), offset: Offset::Begin(0) }
    }

    /// The same text at another place of its line.
    pub fn offset(self, offset: Offset) -> (border_text: BorderText)
        ensures
            border_text@ == (BorderTextView { offset, ..self@ }),
    {
        let mut border_text = self;
        border_text.offset = offset;
        border_text
    }
}

impl Grid {
    /// Replaces the style.
    pub fn set_style(&mut self, style: Style)
        ensures
            final(self)@ == (GridView { style: style@, ..old(self)@ }),
    {
        self.style = style;
    }

    /// Replaces the padding of all cells.
    pub fn set_padding(&mut self, padding: Padding)
        ensures
            final(self)@ == (GridView { padding, ..old(self)@ }),
    {
        self.padding = padding;
    }

    /// Sets the alignment of all cells along the axis of `alignment`.
    pub fn set_alignment(&mut self, alignment: Alignment)
        ensures
            final(self)@ == (match alignment {
                Alignment::Horizontal(h) => GridView { horizontal: h, ..old(self)@ },
                Alignment::Vertical(v) => GridView { vertical: v, ..old(self)@ },
            }),
    {
        match alignment {
            Alignment::Horizontal(h) => {
                self.horizontal = h;
            },
            Alignment::Vertical(v) => {
                self.vertical = v;
            },
        }
    }

    /// Sets what the horizontal alignment of cells with several lines goes by.
    pub fn set_alignment_strategy(&mut self, strategy: AlignmentStrategy)
        ensures
            final(self)@ == (GridView { strategy, ..old(self)@ }),
    {
        self.strategy = strategy;
    }

    /// Asks for the crossings to follow the spans, or not.
    pub fn set_correct_spans(&mut self, correct: bool)
        ensures
            final(self)@ == (GridView { correct_spans: correct, ..old(self)@ }),
    {
        self.correct_spans = correct;
    }

    /// Sets the colour of the content of the cell at (`row`, `col`), after
    /// the colours set before: the characters of its text get the colour,
    /// the blanks around them do not.
    pub fn set_cell_color(&mut self, row: usize, col: usize, tint: usize)
        ensures
            final(self)@ == (GridView {
                cell_colors: old(self)@.cell_colors.push(CellColor { row, col, tint }),
                ..old(self)@
            }),
    {
        self.cell_colors.push(CellColor { row, col, tint });
    }

    /// Asks for the runs of colour on a border line to end where a new
    /// cell of the row above the line begins, or not.
    pub fn set_split_runs(&mut self, split: bool)
        ensures
            final(self)@ == (GridView { split_runs: split, ..old(self)@ }),
    {
        self.split_runs = split;
    }

    /// Sets a border without colours for the cell at (`row`, `col`), after
    /// the borders set before. A border for a position outside the grid
    /// draws nothing.
    pub fn set_border(&mut self, row: usize, col: usize, border: Border)
        ensures
            final(self)@ == (GridView {
                cell_borders: old(self)@.cell_borders.push(
                    CellBorder { row, col, border, tints: BorderTints::spec_none() },
                ),
                ..old(self)@
            }),
    {
        self.cell_borders.push(CellBorder { row, col, border, tints: BorderTints::none() });
    }

    /// Sets a border with colours for the cell at (`row`, `col`), after the
    /// borders set before.
    pub fn set_border_colored(&mut self, row: usize, col: usize, border: Border, tints: BorderTints)
        ensures
            final(self)@ == (GridView {
                cell_borders: old(self)@.cell_borders.push(CellBorder { row, col, border, tints }),
                ..old(self)@
            }),
    {
        self.cell_borders.push(CellBorder { row, col, border, tints });
    }

    /// Adds a colour to the colours of the grid and returns its index.
    pub fn add_color(&mut self, color: AnsiColor<'static>) -> (tint: usize)
        ensures
            tint == old(self)@.palette.len(),
            final(self)@ == (GridView { palette: old(self)@.palette.push(color@), ..old(self)@ }),
    {
        let ghost before = palette_view(self.palette@);
        let tint = self.palette.len();
        self.palette.push(color);
        proof {
            assert(palette_view(self.palette@) =~= before.push(color@));
        }
        tint
    }

    /// Sets the colours of the border characters of the style.
    pub fn set_border_colors(&mut self, colors: BorderColors)
        ensures
            final(self)@ == (GridView { border_colors: colors, ..old(self)@ }),
    {
        self.border_colors = colors;
    }

    /// Sets the colour of all border characters that have no colour of
    /// their own, or none.
    pub fn set_global_border_color(&mut self, tint: Option<usize>)
        ensures
            final(self)@ == (GridView { global_tint: tint, ..old(self)@ }),
    {
        self.global_tint = tint;
    }

    /// Sets one character on a border of the position (`row`, `col`), after
    /// the characters set before.
    pub fn set_border_char(&mut self, row: usize, col: usize, mark: BorderChar)
        ensures
            final(self)@ == (GridView {
                marks: old(self)@.marks.push(BorderMark { row, col, mark }),
                ..old(self)@
            }),
    {
        self.marks.push(BorderMark { row, col, mark });
    }

    /// Sets a text for a border line, after the texts set before.
    pub fn set_border_text(&mut self, text: BorderText)
        ensures
            final(self)@ == (GridView { texts: old(self)@.texts.push(text@), ..old(self)@ }),
    {
        let ghost before = text_views(self.texts@);
        self.texts.push(text);
        proof {
            assert(text_views(self.texts@) =~= before.push(text@));
        }
    }
}

impl GridView {
    /// The number of rows.
    pub open spec fn rows(self) -> int {
        self.matrix.rows()
    }

    /// The number of columns.
    pub open spec fn cols(self) -> int {
        self.matrix.cols
    }

    /// Whether the matrix is well formed.
    pub open spec fn wf(self) -> bool {
        self.matrix.wf()
    }
}

} // verus!
