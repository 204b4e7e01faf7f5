//! Tables of nested values: a value is a scalar, an array of values or an
//! object of named values.
//!
//! Drawn as nested tables, an array is one column with a row for every
//! element, an object two columns with a row for every entry: its name and
//! its value. A scalar inside an array or object is the text of its cell,
//! any other value is drawn as a table and that drawing is the text of its
//! cell.
//!
//! Collapsed, the whole value is one grid. Every value takes up a
//! rectangle of positions: a scalar one cell that spans its rectangle, an
//! array its elements one below the other, an object its entries one below
//! the other with the names in the first column. The crossings of the grid
//! follow the spans, so that the borders of all values form one mesh. The
//! name of an entry is given two characters of room more than its text has,
//! and on a border line a run of colour ends where a new cell of the row
//! above begins.

use crate::color::AnsiColor;
use crate::grid::{BorderColors, Grid, GridView};
use crate::matrix::{changes_keep_wf, texts_of, widest, Cell, Matrix, MatrixView, Span};
use crate::mesh::corrected_mesh_is_closed;
use crate::render::Band;
use crate::text::lines_of;
use crate::render::joined_lines;
use crate::settings::{AlignmentHorizontal, AlignmentStrategy, AlignmentVertical, Padding};
use crate::style::{Style, StyleView};
use vstd::prelude::*;

verus! {

/// A nested value.
#[derive(Debug)]
pub enum Value {
    /// A value without parts, given by its text.
    Scalar(String),
    /// A sequence of values.
    Array(Vec<Value>),
    /// A sequence of named values, in the order in which they are shown.
    Object(Vec<(String, Value)>),
}

/// A nested value with the settings of its table.
#[derive(Debug)]
pub struct NestedTable {
    pub value: Value,
    pub style: Style,
    pub padding: Padding,
    pub horizontal: AlignmentHorizontal,
    pub vertical: AlignmentVertical,
    pub collapsed: bool,
    pub border_color: Option<AnsiColor<'static>>,
}

/// The settings of a nested table as a mathematical value.
pub struct Look {
    pub style: StyleView,
    pub padding: Padding,
    pub horizontal: AlignmentHorizontal,
    pub vertical: AlignmentVertical,
    pub border_color: Option<(Seq<char>, Seq<char>)>,
}

/// The grid that shows `matrix` with the settings `look`: all its borders
/// have the border colour of the settings, and where `collapsed` holds it
/// follows its spans and splits its runs of colour.
pub open spec fn grid_of(matrix: MatrixView, look: Look, collapsed: bool) -> GridView {
    GridView {
        matrix,
        style: look.style,
        cell_borders: Seq::empty(),
        marks: Seq::empty(),
        texts: Seq::empty(),
        padding: look.padding,
        horizontal: look.horizontal,
        vertical: look.vertical,
        strategy: AlignmentStrategy::PerLine,
        correct_spans: collapsed,
        palette: match look.border_color {
            Some(color) => seq![color],
            None => Seq::empty(),
        },
        border_colors: BorderColors::spec_none(),
        global_tint: if look.border_color is Some {
            Some(0usize)
        } else {
            None
        },
        cell_colors: Seq::empty(),
        split_runs: collapsed,
    }
}

/// The text of a grid, where its sizes fit in machine integers.
pub open spec fn text_of(grid: GridView) -> Option<Seq<char>> {
    if grid.fits() {
        Some(joined_lines(grid.painted_drawing()))
    } else {
        None
    }
}

/// The text that shows `value` in a cell: its own text for a scalar, its
/// table for any other value.
pub open spec fn cell_text(value: Value, look: Look) -> Option<Seq<char>>
    decreases value, 2nat,
{
    match value {
        Value::Scalar(text) => Some(text@),
        _ => table_text(value, look),
    }
}

/// The table of `value` as text; `None` where this table, or one inside it,
/// has sizes that do not fit in machine integers.
pub open spec fn table_text(value: Value, look: Look) -> Option<Seq<char>>
    decreases value, 1nat,
{
    match table_rows(value, look) {
        Some(rows) => text_of(grid_of(MatrixView::of_texts(rows), look, false)),
        None => None,
    }
}

/// The texts of the cells of the table of `value`, row by row.
pub open spec fn table_rows(value: Value, look: Look) -> Option<Seq<Seq<Seq<char>>>>
    decreases value, 0nat,
{
    match value {
        Value::Scalar(text) => Some(seq![seq![text@]]),
        Value::Array(items) => item_rows(items@, look, items.len() as int),
        Value::Object(entries) => entry_rows(entries@, look, entries.len() as int),
    }
}

/// The rows for the first `k` elements of an array: one cell each.
pub open spec fn item_rows(items: Seq<Value>, look: Look, k: int) -> Option<Seq<Seq<Seq<char>>>>
    decreases items, k,
{
    if k <= 0 || k > items.len() {
        Some(Seq::empty())
    } else {
        match (item_rows(items, look, k - 1), cell_text(items[k - 1], look)) {
            (Some(rows), Some(text)) => Some(rows.push(seq![text])),
            _ => None,
        }
    }
}

/// The rows for the first `k` entries of an object: the name and the value.
pub open spec fn entry_rows(entries: Seq<(String, Value)>, look: Look, k: int) -> Option<
    Seq<Seq<Seq<char>>>,
>
    decreases entries, k,
{
    if k <= 0 || k > entries.len() {
        Some(Seq::empty())
    } else {
        match (entry_rows(entries, look, k - 1), cell_text(entries[k - 1].1, look)) {
            (Some(rows), Some(text)) => Some(rows.push(seq![entries[k - 1].0@, text])),
            _ => None,
        }
    }
}

/// Where the rows of some elements cannot be had, neither can those of more.
pub proof fn item_rows_stay_none(items: Seq<Value>, look: Look, k: int, n: int)
    requires
        0 <= k <= n <= items.len(),
        item_rows(items, look, k) is None,
    ensures
        item_rows(items, look, n) is None,
    decreases n,
{
    if k < n {
        item_rows_stay_none(items, look, k, n - 1);
    }
}

/// Where the rows of some entries cannot be had, neither can those of more.
pub proof fn entry_rows_stay_none(entries: Seq<(String, Value)>, look: Look, k: int, n: int)
    requires
        0 <= k <= n <= entries.len(),
        entry_rows(entries, look, k) is None,
    ensures
        entry_rows(entries, look, n) is None,
    decreases n,
{
    if k < n {
        entry_rows_stay_none(entries, look, k, n - 1);
    }
}

impl NestedTable {
    /// The settings of the table.
    pub open spec fn look(&self) -> Look {
        Look {
            style: self.style@,
            padding: self.padding,
            horizontal: self.horizontal,
            vertical: self.vertical,
            border_color: match self.border_color {
                Some(color) => Some(color@),
                None => None,
            },
        }
    }

    /// The table of `value` in the style `style`, with the default padding,
    /// content at the left and at the top, nested and without colour.
    pub fn new(value: Value, style: Style) -> (table: NestedTable)
        ensures
            table.value == value,
            table.style@ == style@,
            table.padding == (Padding { left: 1, right: 1, top: 0, bottom: 0, fill: ' ' }),
            table.horizontal == AlignmentHorizontal::Left,
            table.vertical == AlignmentVertical::Top,
            !table.collapsed,
            table.border_color is None,
    {
        NestedTable {
            value,
            style,
            padding: Padding { left: 1, right: 1, top: 0, bottom: 0, fill: ' ' },
            horizontal: AlignmentHorizontal::Left,
            vertical: AlignmentVertical::Top,
            collapsed: false,
            border_color: None,
        }
    }

    /// The grid that shows `matrix` with the settings of the table.
    pub fn grid_with(&self, matrix: Matrix, collapsed: bool) -> (grid: Grid)
        ensures
            grid@ == grid_of(matrix@, self.look(), collapsed),
    {
        let mut grid = Grid::new(matrix, self.style.copy());
        grid.padding = self.padding;
        grid.horizontal = self.horizontal;
        grid.vertical = self.vertical;
        grid.correct_spans = collapsed;
        grid.split_runs = collapsed;
        match &self.border_color {
            Some(color) => {
                let tint = grid.add_color(color.clone());
                grid.global_tint = Some(tint);
                proof {
                    assert(grid@.palette =~= seq![color@]);
                }
            },
            None => {},
        }
        grid
    }

    /// Computes [`cell_text`].
    pub fn cell_text_of(&self, value: &Value) -> (text: Option<String>)
        ensures
            text is Some <==> cell_text(*value, self.look()) is Some,
            text matches Some(s) ==> cell_text(*value, self.look()) == Some(s@),
        decreases value, 2nat,
    {
        match value {
            Value::Scalar(text) => Some(text.clone()),
            _ => self.table_text_of(value),
        }
    }

    /// Computes [`table_text`].
    pub fn table_text_of(&self, value: &Value) -> (text: Option<String>)
        ensures
            text is Some <==> table_text(*value, self.look()) is Some,
            text matches Some(s) ==> table_text(*value, self.look()) == Some(s@),
        decreases value, 1nat,
    {
        let rows = match self.table_rows_of(value) {
            Some(rows) => rows,
            None => {
                return None;
            },
        };
        let matrix = Matrix::from_rows(&rows);
        let grid = self.grid_with(matrix, false);
        grid.render()
    }

    /// Computes [`table_rows`].
    pub fn table_rows_of(&self, value: &Value) -> (rows: Option<Vec<Vec<String>>>)
        ensures
            rows is Some <==> table_rows(*value, self.look()) is Some,
            rows matches Some(v) ==> table_rows(*value, self.look()) == Some(texts_of(v@)),
        decreases value, 0nat,
    {
        let mut rows: Vec<Vec<String>> = Vec::new();
        match value {
            Value::Scalar(text) => {
                let mut row: Vec<String> = Vec::new();
                row.push(text.clone());
                rows.push(row);
                proof {
                    assert(texts_of(rows@) =~~= seq![seq![text@]]);
                }
            },
            Value::Array(items) => {
                proof {
                    assert(decreases_to!(*value => *items));
                    assert(texts_of(rows@) =~~= Seq::<Seq<Seq<char>>>::empty());
                }
                let mut k: usize = 0;
                while k < items.len()
                    invariant
                        k <= items.len(),
                        decreases_to!(*value => *items),
                        *value == Value::Array(*items),
                        item_rows(items@, self.look(), k as int) == Some(texts_of(rows@)),
                    decreases items.len() - k,
                {
                    proof {
                        vstd::std_specs::vec::axiom_vec_index_decreases(*items, k as int);
                        assert(decreases_to!(*items => items[k as int]));
                    }
                    let ghost before = texts_of(rows@);
                    match self.cell_text_of(&items[k]) {
                        Some(text) => {
                            let mut row: Vec<String> = Vec::new();
                            row.push(text);
                            rows.push(row);
                            proof {
                                assert(texts_of(rows@) =~~= before.push(seq![text@]));
                            }
                        },
                        None => {
                            proof {
                                assert(cell_text(items[k as int], self.look()) is None);
                                assert(item_rows(items@, self.look(), k + 1) is None);
                                item_rows_stay_none(
                                    items@,
                                    self.look(),
                                    k + 1,
                                    items.len() as int,
                                );
                            }
                            return None;
                        },
                    }
                    k += 1;
                }
            },
            Value::Object(entries) => {
                proof {
                    assert(decreases_to!(*value => *entries));
                    assert(texts_of(rows@) =~~= Seq::<Seq<Seq<char>>>::empty());
                }
                let mut k: usize = 0;
                while k < entries.len()
                    invariant
                        k <= entries.len(),
                        decreases_to!(*value => *entries),
                        *value == Value::Object(*entries),
                        entry_rows(entries@, self.look(), k as int) == Some(texts_of(rows@)),
                    decreases entries.len() - k,
                {
                    proof {
                        vstd::std_specs::vec::axiom_vec_index_decreases(*entries, k as int);
                        assert(decreases_to!(*entries => entries[k as int]));
                        assert(decreases_to!(entries[k as int] => entries[k as int].1));
                    }
                    let ghost before = texts_of(rows@);
                    match self.cell_text_of(&entries[k].1) {
                        Some(text) => {
                            let mut row: Vec<String> = Vec::new();
                            row.push(entries[k].0.clone());
                            row.push(text);
                            rows.push(row);
                            proof {
                                assert(texts_of(rows@) =~~= before.push(
                                    seq![entries[k as int].0@, text@],
                                ));
                            }
                        },
                        None => {
                            proof {
                                assert(cell_text(entries[k as int].1, self.look()) is None);
                                assert(entry_rows(entries@, self.look(), k + 1) is None);
                                entry_rows_stay_none(
                                    entries@,
                                    self.look(),
                                    k + 1,
                                    entries.len() as int,
                                );
                            }
                            return None;
                        },
                    }
                    k += 1;
                }
            },
        }
        Some(rows)
    }
}

/// The number of rows that `value` takes up in a collapsed table: one for a
/// scalar and for an empty array or object, else as many as its parts
/// together.
pub open spec fn rows_of(value: Value) -> int
    decreases value,
{
    match value {
        Value::Scalar(text) => 1,
        Value::Array(items) => if items.len() == 0 {
            1
        } else {
            rows_upto(items@, items.len() as int)
        },
        Value::Object(entries) => if entries.len() == 0 {
            1
        } else {
            entry_rows_upto(entries@, entries.len() as int)
        },
    }
}

/// The number of rows of the first `k` elements of an array.
pub open spec fn rows_upto(items: Seq<Value>, k: int) -> int
    decreases items, k,
{
    if k <= 0 || k > items.len() {
        0
    } else {
        rows_upto(items, k - 1) + rows_of(items[k - 1])
    }
}

/// The number of rows of the values of the first `k` entries of an object.
pub open spec fn entry_rows_upto(entries: Seq<(String, Value)>, k: int) -> int
    decreases entries, k,
{
    if k <= 0 || k > entries.len() {
        0
    } else {
        entry_rows_upto(entries, k - 1) + rows_of(entries[k - 1].1)
    }
}

/// The number of columns that `value` takes up in a collapsed table: one
/// for a scalar and for an empty array or object, for an array as many as
/// its widest element, for an object one for the names and as many as its
/// widest value.
pub open spec fn cols_of(value: Value) -> int
    decreases value,
{
    match value {
        Value::Scalar(text) => 1,
        Value::Array(items) => if items.len() == 0 {
            1
        } else {
            cols_upto(items@, items.len() as int)
        },
        Value::Object(entries) => if entries.len() == 0 {
            1
        } else {
            1 + entry_cols_upto(entries@, entries.len() as int)
        },
    }
}

/// The number of columns of the widest of the first `k` elements of an array.
pub open spec fn cols_upto(items: Seq<Value>, k: int) -> int
    decreases items, k,
{
    if k <= 0 || k > items.len() {
        0
    } else {
        let before = cols_upto(items, k - 1);
        if cols_of(items[k - 1]) > before {
            cols_of(items[k - 1])
        } else {
            before
        }
    }
}

/// The number of columns of the widest value of the first `k` entries of an
/// object.
pub open spec fn entry_cols_upto(entries: Seq<(String, Value)>, k: int) -> int
    decreases entries, k,
{
    if k <= 0 || k > entries.len() {
        0
    } else {
        let before = entry_cols_upto(entries, k - 1);
        if cols_of(entries[k - 1].1) > before {
            cols_of(entries[k - 1].1)
        } else {
            before
        }
    }
}

/// Every value takes up at least one row and one column.
pub proof fn sizes_are_positive(value: Value)
    ensures
        rows_of(value) >= 1,
        cols_of(value) >= 1,
    decreases value,
{
    match value {
        Value::Scalar(text) => {},
        Value::Array(items) => {
            if items.len() > 0 {
                sizes_upto_bounds(items@, 0, items.len() as int);
                sizes_are_positive(items[0]);
            }
        },
        Value::Object(entries) => {
            if entries.len() > 0 {
                entry_sizes_upto_bounds(entries@, 0, entries.len() as int);
                sizes_are_positive(entries[0].1);
            }
        },
    }
}

/// The element `j` of an array has its rows between the rows of the
/// elements before it and the rows of any number of elements that
/// includes it, and no more columns than the widest of these.
pub proof fn sizes_upto_bounds(items: Seq<Value>, j: int, n: int)
    requires
        0 <= j < n <= items.len(),
    ensures
        rows_upto(items, j) + rows_of(items[j]) <= rows_upto(items, n),
        0 <= rows_upto(items, j),
        cols_of(items[j]) <= cols_upto(items, n),
    decreases items, n,
{
    if j < n - 1 {
        sizes_upto_bounds(items, j, n - 1);
    } else if j > 0 {
        sizes_upto_bounds(items, j - 1, j);
        sizes_are_positive(items[j - 1]);
    }
    sizes_are_positive(items[n - 1]);
    sizes_are_positive(items[j]);
}

/// The same as [`sizes_upto_bounds`], for the values of an object.
pub proof fn entry_sizes_upto_bounds(entries: Seq<(String, Value)>, j: int, n: int)
    requires
        0 <= j < n <= entries.len(),
    ensures
        entry_rows_upto(entries, j) + rows_of(entries[j].1) <= entry_rows_upto(entries, n),
        0 <= entry_rows_upto(entries, j),
        cols_of(entries[j].1) <= entry_cols_upto(entries, n),
    decreases entries, n,
{
    if j < n - 1 {
        entry_sizes_upto_bounds(entries, j, n - 1);
    } else if j > 0 {
        entry_sizes_upto_bounds(entries, j - 1, j);
        sizes_are_positive(entries[j - 1].1);
    }
    sizes_are_positive(entries[n - 1].1);
    sizes_are_positive(entries[j].1);
}

/// The numbers of rows and columns of `value`, or `None` where one of them
/// is no machine integer.
pub fn measure(value: &Value) -> (size: Option<(usize, usize)>)
    ensures
        size is Some <==> rows_of(*value) <= usize::MAX && cols_of(*value) <= usize::MAX,
        size matches Some(s) ==> s.0 == rows_of(*value) && s.1 == cols_of(*value),
    decreases value,
{
    match value {
        Value::Scalar(text) => Some((1, 1)),
        Value::Array(items) => {
            if items.len() == 0 {
                return Some((1, 1));
            }
            proof {
                assert(decreases_to!(*value => *items));
            }
            let mut rows: usize = 0;
            let mut cols: usize = 0;
            let mut k: usize = 0;
            while k < items.len()
                invariant
                    k <= items.len(),
                    items.len() > 0,
                    decreases_to!(*value => *items),
                    *value == Value::Array(*items),
                    rows == rows_upto(items@, k as int),
                    cols == cols_upto(items@, k as int),
                decreases items.len() - k,
            {
                proof {
                    vstd::std_specs::vec::axiom_vec_index_decreases(*items, k as int);
                    assert(decreases_to!(*items => items[k as int]));
                    sizes_upto_bounds(items@, k as int, items.len() as int);
                }
                match measure(&items[k]) {
                    Some(size) => {
                        if size.0 > usize::MAX - rows {
                            return None;
                        }
                        rows = rows + size.0;
                        if size.1 > cols {
                            cols = size.1;
                        }
                    },
                    None => {
                        return None;
                    },
                }
                k += 1;
            }
            Some((rows, cols))
        },
        Value::Object(entries) => {
            if entries.len() == 0 {
                return Some((1, 1));
            }
            proof {
                assert(decreases_to!(*value => *entries));
            }
            let mut rows: usize = 0;
            let mut cols: usize = 0;
            let mut k: usize = 0;
            while k < entries.len()
                invariant
                    k <= entries.len(),
                    entries.len() > 0,
                    decreases_to!(*value => *entries),
                    *value == Value::Object(*entries),
                    rows == entry_rows_upto(entries@, k as int),
                    cols == entry_cols_upto(entries@, k as int),
                decreases entries.len() - k,
            {
                proof {
                    vstd::std_specs::vec::axiom_vec_index_decreases(*entries, k as int);
                    assert(decreases_to!(*entries => entries[k as int]));
                    assert(decreases_to!(entries[k as int] => entries[k as int].1));
                    entry_sizes_upto_bounds(entries@, k as int, entries.len() as int);
                }
                match measure(&entries[k].1) {
                    Some(size) => {
                        if size.0 > usize::MAX - rows {
                            return None;
                        }
                        rows = rows + size.0;
                        if size.1 > cols {
                            cols = size.1;
                        }
                    },
                    None => {
                        return None;
                    },
                }
                k += 1;
            }
            if cols == usize::MAX {
                return None;
            }
            Some((rows, cols + 1))
        },
    }
}

/// The least width that the name of an entry is given: two more than its
/// longest line, as far as machine integers reach.
pub open spec fn name_floor(name: Seq<char>) -> int {
    if widest(lines_of(name)) + 2 <= usize::MAX {
        widest(lines_of(name)) + 2
    } else {
        usize::MAX as int
    }
}

/// The matrix with the cell `text` of the least width `floor` put into the
/// rectangle `at`: the text stands at the first position of the rectangle,
/// and the cell spans the rectangle where that is more than one position.
pub open spec fn put(m: MatrixView, text: Seq<char>, floor: int, at: Span) -> MatrixView {
    let filled = m.with_cell(at.row as int, at.col as int, lines_of(text)).with_floor(
        at.row as int,
        at.col as int,
        floor,
    );
    if at.rows > 1 || at.cols > 1 {
        filled.with_span(at)
    } else {
        filled
    }
}

/// The rows of the rectangle `at` from its row `top` on, `height` of them.
pub open spec fn band_of(at: Span, top: int, height: int) -> Span {
    Span { row: (at.row + top) as usize, col: at.col, rows: height as usize, cols: at.cols }
}

/// The rows that element `k` of an array gets in a rectangle of `rows`
/// rows: its own, and for the last element all that are left.
pub open spec fn item_height(items: Seq<Value>, k: int, rows: int) -> int {
    if k == items.len() - 1 {
        rows - rows_upto(items, k)
    } else {
        rows_of(items[k])
    }
}

/// The same as [`item_height`], for the entries of an object.
pub open spec fn entry_height(entries: Seq<(String, Value)>, k: int, rows: int) -> int {
    if k == entries.len() - 1 {
        rows - entry_rows_upto(entries, k)
    } else {
        rows_of(entries[k].1)
    }
}

/// The matrix with `value` laid out in the rectangle `at`. A scalar fills
/// the rectangle with one cell, and so does an empty array or object, with
/// an empty cell. The elements of an array stand one below the other, each
/// as wide as the rectangle. The entries of an object stand one below the
/// other, the name in the first column of the rectangle and the value in
/// the columns that are left.
pub open spec fn placed(value: Value, at: Span, m: MatrixView) -> MatrixView
    decreases value,
{
    match value {
        Value::Scalar(text) => put(m, text@, 0, at),
        Value::Array(items) => if items.len() == 0 {
            put(m, Seq::empty(), 0, at)
        } else {
            placed_items(items@, items.len() as int, at, m)
        },
        Value::Object(entries) => if entries.len() == 0 {
            put(m, Seq::empty(), 0, at)
        } else {
            placed_entries(entries@, entries.len() as int, at, m)
        },
    }
}

/// The matrix with the first `k` elements of an array laid out in the
/// rectangle `at`.
pub open spec fn placed_items(items: Seq<Value>, k: int, at: Span, m: MatrixView) -> MatrixView
    decreases items, k,
{
    if k <= 0 || k > items.len() {
        m
    } else {
        placed(
            items[k - 1],
            band_of(at, rows_upto(items, k - 1), item_height(items, k - 1, at.rows as int)),
            placed_items(items, k - 1, at, m),
        )
    }
}

/// The matrix with the first `k` entries of an object laid out in the
/// rectangle `at`.
pub open spec fn placed_entries(
    entries: Seq<(String, Value)>,
    k: int,
    at: Span,
    m: MatrixView,
) -> MatrixView
    decreases entries, k,
{
    if k <= 0 || k > entries.len() {
        m
    } else {
        let band = band_of(
            at,
            entry_rows_upto(entries, k - 1),
            entry_height(entries, k - 1, at.rows as int),
        );
        let named = put(
            placed_entries(entries, k - 1, at, m),
            entries[k - 1].0@,
            name_floor(entries[k - 1].0@),
            Span { cols: 1, ..band },
        );
        placed(
            entries[k - 1].1,
            Span { col: (band.col + 1) as usize, cols: (band.cols - 1) as usize, ..band },
            named,
        )
    }
}

/// The matrix of the collapsed table of `value`: the value laid out in a
/// matrix of as many rows and columns as it takes up.
pub open spec fn collapsed_matrix(value: Value) -> MatrixView {
    placed(
        value,
        Span { row: 0, col: 0, rows: rows_of(value) as usize, cols: cols_of(value) as usize },
        MatrixView::blank(rows_of(value), cols_of(value)),
    )
}

/// The collapsed table of `value` as text; `None` where its sizes do not
/// fit in machine integers.
pub open spec fn collapsed_text(value: Value, look: Look) -> Option<Seq<char>> {
    if rows_of(value) <= usize::MAX && cols_of(value) <= usize::MAX {
        text_of(grid_of(collapsed_matrix(value), look, true))
    } else {
        None
    }
}

/// Puts a cell into a rectangle of the matrix.
fn put_cell(m: &mut Matrix, text: &str, floor: usize, at: Span)
    requires
        old(m)@.wf(),
    ensures
        final(m)@ == put(old(m)@, text@, floor as int, at),
        final(m)@.wf(),
        final(m)@.rows() == old(m)@.rows(),
        final(m)@.cols == old(m)@.cols,
{
    m.set_cell(at.row, at.col, text);
    m.set_min_width(at.row, at.col, floor);
    if at.rows > 1 || at.cols > 1 {
        m.set_span(at);
    }
}

/// Computes [`name_floor`].
fn floor_of_name(name: &str) -> (floor: usize)
    ensures
        floor == name_floor(name@),
{
    let width = Cell::new(name).width();
    if width > usize::MAX - 2 {
        usize::MAX
    } else {
        width + 2
    }
}

/// Lays `value` out in the rectangle `at` of the matrix.
pub fn place(value: &Value, at: Span, m: &mut Matrix)
    requires
        old(m)@.wf(),
        at.fits_in(old(m)@.rows(), old(m)@.cols),
        rows_of(*value) <= at.rows,
        cols_of(*value) <= at.cols,
    ensures
        final(m)@ == placed(*value, at, old(m)@),
        final(m)@.wf(),
        final(m)@.rows() == old(m)@.rows(),
        final(m)@.cols == old(m)@.cols,
    decreases value,
{
    match value {
        Value::Scalar(text) => {
            put_cell(m, text.as_str(), 0, at);
        },
        Value::Array(items) => {
            if items.len() == 0 {
                proof {
                    reveal_strlit("");
                    assert(""@ =~= Seq::<char>::empty());
                }
                put_cell(m, "", 0, at);
                return ;
            }
            proof {
                assert(decreases_to!(*value => *items));
            }
            let mut used: usize = 0;
            let mut k: usize = 0;
            while k < items.len()
                invariant
                    k <= items.len(),
                    items.len() > 0,
                    decreases_to!(*value => *items),
                    *value == Value::Array(*items),
                    used == rows_upto(items@, k as int),
                    rows_upto(items@, items.len() as int) <= at.rows,
                    cols_upto(items@, items.len() as int) <= at.cols,
                    at.fits_in(old(m)@.rows(), old(m)@.cols),
                    m@ == placed_items(items@, k as int, at, old(m)@),
                    m@.wf(),
                    m@.rows() == old(m)@.rows(),
                    m@.cols == old(m)@.cols,
                decreases items.len() - k,
            {
                proof {
                    vstd::std_specs::vec::axiom_vec_index_decreases(*items, k as int);
                    assert(decreases_to!(*items => items[k as int]));
                    sizes_upto_bounds(items@, k as int, items.len() as int);
                    sizes_are_positive(items[k as int]);
                }
                let own = match measure(&items[k]) {
                    Some(size) => size.0,
                    None => vstd::pervasive::unreached(),
                };
                let height = if k == items.len() - 1 {
                    at.rows - used
                } else {
                    own
                };
                let band = Span { row: at.row + used, col: at.col, rows: height, cols: at.cols };
                proof {
                    assert(band == band_of(
                        at,
                        rows_upto(items@, k as int),
                        item_height(items@, k as int, at.rows as int),
                    ));
                }
                place(&items[k], band, m);
                used = used + own;
                k += 1;
            }
        },
        Value::Object(entries) => {
            if entries.len() == 0 {
                proof {
                    reveal_strlit("");
                    assert(""@ =~= Seq::<char>::empty());
                }
                put_cell(m, "", 0, at);
                return ;
            }
            proof {
                assert(decreases_to!(*value => *entries));
            }
            let mut used: usize = 0;
            let mut k: usize = 0;
            while k < entries.len()
                invariant
                    k <= entries.len(),
                    entries.len() > 0,
                    decreases_to!(*value => *entries),
                    *value == Value::Object(*entries),
                    used == entry_rows_upto(entries@, k as int),
                    entry_rows_upto(entries@, entries.len() as int) <= at.rows,
                    1 + entry_cols_upto(entries@, entries.len() as int) <= at.cols,
                    at.fits_in(old(m)@.rows(), old(m)@.cols),
                    m@ == placed_entries(entries@, k as int, at, old(m)@),
                    m@.wf(),
                    m@.rows() == old(m)@.rows(),
                    m@.cols == old(m)@.cols,
                decreases entries.len() - k,
            {
                proof {
                    vstd::std_specs::vec::axiom_vec_index_decreases(*entries, k as int);
                    assert(decreases_to!(*entries => entries[k as int]));
                    assert(decreases_to!(entries[k as int] => entries[k as int].1));
                    entry_sizes_upto_bounds(entries@, k as int, entries.len() as int);
                    sizes_are_positive(entries[k as int].1);
                }
                let own = match measure(&entries[k].1) {
                    Some(size) => size.0,
                    None => vstd::pervasive::unreached(),
                };
                let height = if k == entries.len() - 1 {
                    at.rows - used
                } else {
                    own
                };
                let band = Span { row: at.row + used, col: at.col, rows: height, cols: at.cols };
                proof {
                    assert(band == band_of(
                        at,
                        entry_rows_upto(entries@, k as int),
                        entry_height(entries@, k as int, at.rows as int),
                    ));
                }
                let name = entries[k].0.as_str();
                put_cell(
                    m,
                    name,
                    floor_of_name(name),
                    Span { row: band.row, col: band.col, rows: band.rows, cols: 1 },
                );
                place(
                    &entries[k].1,
                    Span { row: band.row, col: band.col + 1, rows: band.rows, cols: band.cols - 1 },
                    m,
                );
                used = used + own;
                k += 1;
            }
        },
    }
}

impl NestedTable {
    /// Computes [`collapsed_text`].
    pub fn collapsed_text_of(&self, value: &Value) -> (text: Option<String>)
        ensures
            text is Some <==> collapsed_text(*value, self.look()) is Some,
            text matches Some(s) ==> collapsed_text(*value, self.look()) == Some(s@),
    {
        let (rows, cols) = match measure(value) {
            Some(size) => size,
            None => {
                return None;
            },
        };
        proof {
            sizes_are_positive(*value);
        }
        let mut matrix = Matrix::new(rows, cols);
        place(value, Span { row: 0, col: 0, rows, cols }, &mut matrix);
        let grid = self.grid_with(matrix, true);
        grid.render()
    }

    /// The text of the table: collapsed into one grid where the table is
    /// set to be collapsed, else with the tables of the values inside it
    /// drawn in its cells.
    pub open spec fn text(&self) -> Option<Seq<char>> {
        if self.collapsed {
            collapsed_text(self.value, self.look())
        } else {
            table_text(self.value, self.look())
        }
    }

    /// Renders the table as text; `None` where the sizes of the table, or
    /// of a table inside it, do not fit in machine integers.
    pub fn render(&self) -> (text: Option<String>)
        ensures
            text is Some <==> self.text() is Some,
            text matches Some(s) ==> self.text() == Some(s@),
    {
        if self.collapsed {
            self.collapsed_text_of(&self.value)
        } else {
            self.table_text_of(&self.value)
        }
    }

    /// Sets the table to be collapsed into one grid.
    pub fn collapse(self) -> (table: NestedTable)
        ensures
            table.collapsed,
            table.value == self.value,
            table.look() == self.look(),
    {
        let mut table = self;
        table.collapsed = true;
        table
    }
}

/// Putting a cell into a well-formed matrix leaves it well formed, with
/// the same numbers of rows and columns.
pub proof fn put_keeps_wf(m: MatrixView, text: Seq<char>, floor: int, at: Span)
    requires
        m.wf(),
    ensures
        put(m, text, floor, at).wf(),
        put(m, text, floor, at).rows() == m.rows(),
        put(m, text, floor, at).cols == m.cols,
{
    let celled = m.with_cell(at.row as int, at.col as int, lines_of(text));
    changes_keep_wf(m, at.row as int, at.col as int, lines_of(text), floor, at);
    let floored = celled.with_floor(at.row as int, at.col as int, floor);
    changes_keep_wf(celled, at.row as int, at.col as int, lines_of(text), floor, at);
    changes_keep_wf(floored, at.row as int, at.col as int, lines_of(text), floor, at);
}

/// Laying a value out in a well-formed matrix leaves it well formed, with
/// the same numbers of rows and columns.
pub proof fn placed_keeps_wf(value: Value, at: Span, m: MatrixView)
    requires
        m.wf(),
    ensures
        placed(value, at, m).wf(),
        placed(value, at, m).rows() == m.rows(),
        placed(value, at, m).cols == m.cols,
    decreases value,
{
    match value {
        Value::Scalar(text) => {
            put_keeps_wf(m, text@, 0, at);
        },
        Value::Array(items) => {
            if items.len() == 0 {
                put_keeps_wf(m, Seq::empty(), 0, at);
            } else {
                placed_items_keep_wf(items@, items.len() as int, at, m);
            }
        },
        Value::Object(entries) => {
            if entries.len() == 0 {
                put_keeps_wf(m, Seq::empty(), 0, at);
            } else {
                placed_entries_keep_wf(entries@, entries.len() as int, at, m);
            }
        },
    }
}

/// [`placed_keeps_wf`] for the first `k` elements of an array.
pub proof fn placed_items_keep_wf(items: Seq<Value>, k: int, at: Span, m: MatrixView)
    requires
        m.wf(),
    ensures
        placed_items(items, k, at, m).wf(),
        placed_items(items, k, at, m).rows() == m.rows(),
        placed_items(items, k, at, m).cols == m.cols,
    decreases items, k,
{
    if 0 < k <= items.len() {
        placed_items_keep_wf(items, k - 1, at, m);
        placed_keeps_wf(
            items[k - 1],
            band_of(at, rows_upto(items, k - 1), item_height(items, k - 1, at.rows as int)),
            placed_items(items, k - 1, at, m),
        );
    }
}

/// [`placed_keeps_wf`] for the first `k` entries of an object.
pub proof fn placed_entries_keep_wf(entries: Seq<(String, Value)>, k: int, at: Span, m: MatrixView)
    requires
        m.wf(),
    ensures
        placed_entries(entries, k, at, m).wf(),
        placed_entries(entries, k, at, m).rows() == m.rows(),
        placed_entries(entries, k, at, m).cols == m.cols,
    decreases entries, k,
{
    if 0 < k <= entries.len() {
        placed_entries_keep_wf(entries, k - 1, at, m);
        let band = band_of(
            at,
            entry_rows_upto(entries, k - 1),
            entry_height(entries, k - 1, at.rows as int),
        );
        let before = placed_entries(entries, k - 1, at, m);
        put_keeps_wf(before, entries[k - 1].0@, name_floor(entries[k - 1].0@), Span { cols: 1, ..band });
        placed_keeps_wf(
            entries[k - 1].1,
            Span { col: (band.col + 1) as usize, cols: (band.cols - 1) as usize, ..band },
            put(before, entries[k - 1].0@, name_floor(entries[k - 1].0@), Span { cols: 1, ..band }),
        );
    }
}

/// The collapsed table of a value is one closed mesh: its matrix is well
/// formed, so that no two of its spans share a position, and border leaves
/// every crossing of its grid in no direction, where a span has taken the
/// crossing up, or in at least two.
pub proof fn collapsed_mesh_is_closed(value: Value, look: Look, i: int, j: int)
    requires
        rows_of(value) <= usize::MAX,
        cols_of(value) <= usize::MAX,
        0 <= i <= rows_of(value),
        0 <= j <= cols_of(value),
    ensures
        grid_of(collapsed_matrix(value), look, true).wf(),
        grid_of(collapsed_matrix(value), look, true).rows() == rows_of(value),
        grid_of(collapsed_matrix(value), look, true).cols() == cols_of(value),
        grid_of(collapsed_matrix(value), look, true).arms(i, j).count() != 1,
        grid_of(collapsed_matrix(value), look, true).arms(i, j).count() == 0 <==> grid_of(
            collapsed_matrix(value),
            look,
            true,
        ).takes_boundary(Band::Line(i as usize), j),
{
    sizes_are_positive(value);
    let blank = MatrixView::blank(rows_of(value), cols_of(value));
    assert(blank.wf());
    placed_keeps_wf(
        value,
        Span { row: 0, col: 0, rows: rows_of(value) as usize, cols: cols_of(value) as usize },
        blank,
    );
    corrected_mesh_is_closed(grid_of(collapsed_matrix(value), look, true), i, j);
}

} // verus!
