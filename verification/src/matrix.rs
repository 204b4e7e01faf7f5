//! The cell matrix: a rectangle of multi-line cells, some of which span
//! several rows or columns.
//!
//! A cell that spans a rectangle of positions holds its content at the
//! first position of the rectangle; the other positions of the rectangle
//! are not drawn and do not count for any size. Of two spans that share a
//! position the one set later stays and the other is dropped. A span that
//! is empty or does not lie within the matrix is ignored.

use crate::text::{lines_of, split_lines, views_of};
use vstd::prelude::*;

verus! {

/// The content of one grid position: a sequence of text lines.
#[derive(Debug)]
pub struct Cell {
    lines: Vec<Vec<char>>,
    floor: usize,
}

impl View for Cell {
    type V = Seq<Seq<char>>;

    /// The lines of the cell, each a sequence of characters.
    closed spec fn view(&self) -> Seq<Seq<char>> {
        views_of(self.lines@)
    }
}

/// The length of the longest line, 0 where there is no line.
pub open spec fn widest(lines: Seq<Seq<char>>) -> int
    decreases lines.len(),
{
    if lines.len() == 0 {
        0
    } else {
        let rest = widest(lines.drop_last());
        if lines.last().len() > rest {
            lines.last().len() as int
        } else {
            rest
        }
    }
}

impl Cell {
    /// The least width that the content of the cell is given, however short
    /// its lines are.
    pub closed spec fn floor(&self) -> int {
        self.floor as int
    }

    /// The cell that holds `text`, split at its line feeds, without a least
    /// width.
    pub fn new(text: &str) -> (cell: Cell)
        ensures
            cell@ == lines_of(text@),
            cell.floor() == 0,
    {
        Cell { lines: split_lines(text), floor: 0 }
    }

    /// The cell that holds `text`, split at its line feeds, with the least
    /// width `floor`.
    pub fn with_floor(text: &str, floor: usize) -> (cell: Cell)
        ensures
            cell@ == lines_of(text@),
            cell.floor() == floor,
    {
        Cell { lines: split_lines(text), floor }
    }

    /// The least width of the content.
    pub fn min_width(&self) -> (floor: usize)
        ensures
            floor == self.floor(),
    {
        self.floor
    }

    /// The cell with one empty line.
    pub fn empty() -> (cell: Cell)
        ensures
            cell@ == seq![Seq::<char>::empty()],
            cell.floor() == 0,
    {
        let mut lines: Vec<Vec<char>> = Vec::new();
        lines.push(Vec::new());
        proof {
            assert(views_of(lines@) =~= seq![Seq::<char>::empty()]);
        }
        Cell { lines, floor: 0 }
    }

    /// The number of lines.
    pub fn count_lines(&self) -> (n: usize)
        ensures
            n == self@.len(),
    {
        self.lines.len()
    }

    /// The length of line `l`.
    pub fn line_len(&self, l: usize) -> (n: usize)
        requires
            l < self@.len(),
        ensures
            n == self@[l as int].len(),
    {
        self.lines[l].len()
    }

    /// The character at place `t` of line `l`.
    pub fn char_at(&self, l: usize, t: usize) -> (c: char)
        requires
            l < self@.len(),
            t < self@[l as int].len(),
        ensures
            c == self@[l as int][t as int],
    {
        self.lines[l][t]
    }

    /// The length of the longest line.
    pub fn width(&self) -> (w: usize)
        ensures
            w == widest(self@),
    {
        let mut w: usize = 0;
        let mut l: usize = 0;
        while l < self.lines.len()
            invariant
                l <= self.lines.len(),
                w == widest(self@.take(l as int)),
            decreases self.lines.len() - l,
        {
            proof {
                assert(self@.take(l + 1).drop_last() == self@.take(l as int));
            }
            if self.lines[l].len() > w {
                w = self.lines[l].len();
            }
            l += 1;
        }
        proof {
            assert(self@.take(l as int) == self@);
        }
        w
    }
}

/// A rectangle of grid positions that one cell covers: the cell at
/// (`row`, `col`) stretches over `rows` rows and `cols` columns.
#[derive(Debug, Clone, Copy, PartialEq, Eq)]
pub struct Span {
    pub row: usize,
    pub col: usize,
    pub rows: usize,
    pub cols: usize,
}

impl Span {
    /// Whether the position (`r`, `c`) lies in the rectangle.
    pub open spec fn covers(self, r: int, c: int) -> bool {
        self.row <= r < self.row + self.rows && self.col <= c < self.col + self.cols
    }

    /// Whether the two rectangles share a position.
    pub open spec fn overlaps(self, other: Span) -> bool {
        &&& self.rows >= 1 && self.cols >= 1 && other.rows >= 1 && other.cols >= 1
        &&& self.row < other.row + other.rows && other.row < self.row + self.rows
        &&& self.col < other.col + other.cols && other.col < self.col + self.cols
    }

    /// Whether the rectangle is not empty and lies within a grid of `rows`
    /// rows and `cols` columns.
    pub open spec fn fits_in(self, rows: int, cols: int) -> bool {
        self.rows >= 1 && self.cols >= 1 && self.row + self.rows <= rows && self.col + self.cols
            <= cols
    }

    /// The rectangle of the single position (`r`, `c`).
    pub open spec fn unit(r: int, c: int) -> Span
        recommends
            0 <= r <= usize::MAX,
            0 <= c <= usize::MAX,
    {
        Span { row: r as usize, col: c as usize, rows: 1, cols: 1 }
    }

    /// Computes [`Span::covers`].
    pub fn contains(&self, r: usize, c: usize) -> (b: bool)
        ensures
            b == self.covers(r as int, c as int),
    {
        r >= self.row && r - self.row < self.rows && c >= self.col && c - self.col < self.cols
    }

    /// Computes [`Span::overlaps`].
    pub fn intersects(&self, other: &Span) -> (b: bool)
        ensures
            b == self.overlaps(*other),
    {
        let rows_meet = if self.row <= other.row {
            other.row - self.row < self.rows
        } else {
            self.row - other.row < other.rows
        };
        let cols_meet = if self.col <= other.col {
            other.col - self.col < self.cols
        } else {
            self.col - other.col < other.cols
        };
        self.rows >= 1 && self.cols >= 1 && other.rows >= 1 && other.cols >= 1 && rows_meet
            && cols_meet
    }

    /// Computes [`Span::fits_in`].
    pub fn is_within(&self, rows: usize, cols: usize) -> (b: bool)
        ensures
            b == self.fits_in(rows as int, cols as int),
    {
        self.rows >= 1 && self.cols >= 1 && self.row < rows && self.rows <= rows - self.row
            && self.col < cols && self.cols <= cols - self.col
    }
}

/// The first span of `spans` that covers (`r`, `c`), if there is one.
pub open spec fn span_at(spans: Seq<Span>, r: int, c: int) -> Option<Span>
    decreases spans.len(),
{
    if spans.len() == 0 {
        None
    } else if spans[0].covers(r, c) {
        Some(spans[0])
    } else {
        span_at(spans.drop_first(), r, c)
    }
}

/// Whether every span lies within the grid and no two of them share a
/// position.
pub open spec fn spans_valid(spans: Seq<Span>, rows: int, cols: int) -> bool {
    &&& forall|k: int| 0 <= k < spans.len() ==> (#[trigger] spans[k]).fits_in(rows, cols)
    &&& forall|a: int, b: int|
        0 <= a < b < spans.len() ==> !(#[trigger] spans[a]).overlaps(#[trigger] spans[b])
}

/// The spans of `spans` that share no position with `span`, in their order.
pub open spec fn apart_from(spans: Seq<Span>, span: Span) -> Seq<Span>
    decreases spans.len(),
{
    if spans.len() == 0 {
        spans
    } else if spans.last().overlaps(span) {
        apart_from(spans.drop_last(), span)
    } else {
        apart_from(spans.drop_last(), span).push(spans.last())
    }
}

/// Among valid spans, those apart from a span are valid, are spans of the
/// sequence, and share no position with that span.
pub proof fn apart_from_is_valid(spans: Seq<Span>, span: Span, rows: int, cols: int)
    requires
        spans_valid(spans, rows, cols),
    ensures
        spans_valid(apart_from(spans, span), rows, cols),
        forall|k: int|
            0 <= k < apart_from(spans, span).len() ==> !(#[trigger] apart_from(
                spans,
                span,
            )[k]).overlaps(span) && spans.contains(apart_from(spans, span)[k]),
    decreases spans.len(),
{
    if spans.len() > 0 {
        let shorter = spans.drop_last();
        let rest = apart_from(shorter, span);
        assert forall|k: int| 0 <= k < shorter.len() implies (#[trigger] shorter[k]).fits_in(
            rows,
            cols,
        ) by {
            assert(shorter[k] == spans[k]);
        }
        assert forall|a: int, b: int| 0 <= a < b < shorter.len() implies !(#[trigger] shorter[a]).overlaps(
            #[trigger] shorter[b],
        ) by {
            assert(shorter[a] == spans[a]);
            assert(shorter[b] == spans[b]);
        }
        apart_from_is_valid(shorter, span, rows, cols);
        let result = apart_from(spans, span);
        assert forall|k: int| 0 <= k < rest.len() implies spans.contains(#[trigger] rest[k]) by {
            let i = choose|i: int| 0 <= i < shorter.len() && shorter[i] == rest[k];
            assert(spans[i] == rest[k]);
        }
        if !spans.last().overlaps(span) {
            assert(spans[spans.len() - 1] == spans.last());
            assert forall|k: int| 0 <= k < result.len() implies (#[trigger] result[k]).fits_in(
                rows,
                cols,
            ) by {
                if k < rest.len() {
                    assert(result[k] == rest[k]);
                }
            }
            assert forall|a: int, b: int| 0 <= a < b < result.len() implies !(#[trigger] result[a]).overlaps(
                #[trigger] result[b],
            ) by {
                assert(result[a] == rest[a]);
                if b < rest.len() {
                    assert(result[b] == rest[b]);
                } else {
                    let i = choose|i: int| 0 <= i < shorter.len() && shorter[i] == rest[a];
                    assert(spans[i] == rest[a]);
                    assert(!spans[i].overlaps(spans[spans.len() - 1]));
                }
            }
            assert forall|k: int| 0 <= k < result.len() implies !(#[trigger] result[k]).overlaps(
                span,
            ) && spans.contains(result[k]) by {
                if k < rest.len() {
                    assert(result[k] == rest[k]);
                }
            }
        }
    }
}

/// A well-formed matrix stays well formed when a cell gets other content
/// or another least width, and when a span is set.
pub proof fn changes_keep_wf(m: MatrixView, r: int, c: int, lines: Seq<Seq<char>>, floor: int, span: Span)
    requires
        m.wf(),
    ensures
        m.with_cell(r, c, lines).wf(),
        m.with_floor(r, c, floor).wf(),
        m.with_span(span).wf(),
{
    let celled = m.with_cell(r, c, lines);
    assert forall|k: int| 0 <= k < celled.rows() implies (#[trigger] celled.cells[k]).len()
        == celled.cols by {
        assert(m.cells[k].len() == m.cols);
    }
    assert forall|k: int| 0 <= k < celled.rows() implies (#[trigger] celled.floors[k]).len()
        == celled.cols by {
        assert(m.floors[k].len() == m.cols);
    }
    let floored = m.with_floor(r, c, floor);
    assert forall|k: int| 0 <= k < floored.rows() implies (#[trigger] floored.floors[k]).len()
        == floored.cols by {
        assert(m.floors[k].len() == m.cols);
    }
    assert forall|k: int| 0 <= k < floored.rows() implies (#[trigger] floored.cells[k]).len()
        == floored.cols by {
        assert(m.cells[k].len() == m.cols);
    }
    if span.fits_in(m.rows(), m.cols) {
        apart_from_is_valid(m.spans, span, m.rows(), m.cols);
        let kept = apart_from(m.spans, span);
        let spans = kept.push(span);
        assert forall|k: int| 0 <= k < spans.len() implies (#[trigger] spans[k]).fits_in(
            m.rows(),
            m.cols,
        ) by {
            if k < kept.len() {
                assert(spans[k] == kept[k]);
            }
        }
        assert forall|a: int, b: int| 0 <= a < b < spans.len() implies !(#[trigger] spans[a]).overlaps(
            #[trigger] spans[b],
        ) by {
            assert(spans[a] == kept[a]);
            if b < kept.len() {
                assert(spans[b] == kept[b]);
            }
        }
        let spanned = m.with_span(span);
        assert forall|k: int| 0 <= k < spanned.rows() implies (#[trigger] spanned.cells[k]).len()
            == spanned.cols by {
            assert(m.cells[k].len() == m.cols);
        }
        assert forall|k: int| 0 <= k < spanned.rows() implies (#[trigger] spanned.floors[k]).len()
            == spanned.cols by {
            assert(m.floors[k].len() == m.cols);
        }
    }
}

/// What [`span_at`] finds is a span of the sequence that covers the position.
pub proof fn span_at_is_member(spans: Seq<Span>, r: int, c: int)
    ensures
        span_at(spans, r, c) matches Some(s) ==> s.covers(r, c) && spans.contains(s),
        span_at(spans, r, c) is None ==> forall|k: int|
            0 <= k < spans.len() ==> !(#[trigger] spans[k]).covers(r, c),
    decreases spans.len(),
{
    if spans.len() > 0 {
        if spans[0].covers(r, c) {
            assert(spans[0] == spans[0]);
        } else {
            let rest = spans.drop_first();
            span_at_is_member(rest, r, c);
            if let Some(s) = span_at(rest, r, c) {
                let k = choose|k: int| 0 <= k < rest.len() && rest[k] == s;
                assert(spans[k + 1] == s);
            } else {
                assert forall|k: int| 0 <= k < spans.len() implies !(#[trigger] spans[k]).covers(
                    r,
                    c,
                ) by {
                    if k > 0 {
                        assert(rest[k - 1] == spans[k]);
                    }
                }
            }
        }
    }
}

/// Among valid spans, a span that covers a position is the one found there.
pub proof fn span_at_is_unique(spans: Seq<Span>, rows: int, cols: int, k: int, r: int, c: int)
    requires
        spans_valid(spans, rows, cols),
        0 <= k < spans.len(),
        spans[k].covers(r, c),
    ensures
        span_at(spans, r, c) == Some(spans[k]),
{
    span_at_is_member(spans, r, c);
    let found = span_at(spans, r, c);
    assert(found is Some);
    let s = found->0;
    let j = choose|j: int| 0 <= j < spans.len() && spans[j] == s;
    if j < k {
        assert(spans[j].overlaps(spans[k]));
    } else if k < j {
        assert(spans[k].overlaps(spans[j]));
    }
}

/// A matrix as a mathematical value: the lines and the least width of each
/// cell, the number of columns, and the spans.
pub struct MatrixView {
    pub cells: Seq<Seq<Seq<Seq<char>>>>,
    pub floors: Seq<Seq<int>>,
    pub cols: int,
    pub spans: Seq<Span>,
}

impl MatrixView {
    /// The number of rows.
    pub open spec fn rows(self) -> int {
        self.cells.len() as int
    }

    /// Every row has `cols` cells, the numbers of rows and columns are
    /// machine integers, and the spans are valid for the grid.
    pub open spec fn wf(self) -> bool {
        &&& 0 <= self.cols <= usize::MAX
        &&& self.rows() <= usize::MAX
        &&& forall|r: int| 0 <= r < self.rows() ==> (#[trigger] self.cells[r]).len() == self.cols
        &&& self.floors.len() == self.rows()
        &&& forall|r: int| 0 <= r < self.rows() ==> (#[trigger] self.floors[r]).len() == self.cols
        &&& spans_valid(self.spans, self.rows(), self.cols)
    }

    /// The rectangle that the position (`r`, `c`) belongs to: the span that
    /// covers it, or the position alone.
    pub open spec fn region(self, r: int, c: int) -> Span {
        match span_at(self.spans, r, c) {
            Some(s) => s,
            None => Span::unit(r, c),
        }
    }

    /// Whether (`r`, `c`) is where the content of its region is kept.
    pub open spec fn is_anchor(self, r: int, c: int) -> bool {
        self.region(r, c).row == r && self.region(r, c).col == c
    }
}

/// A rectangle of cells with spans. A matrix made and changed by the
/// functions of this type is well formed: every row has the same number of
/// cells, and the spans lie within the grid and do not overlap.
#[derive(Debug)]
pub struct Matrix {
    cells: Vec<Vec<Cell>>,
    cols: usize,
    spans: Vec<Span>,
}

/// The length of the longest of `rows`.
pub open spec fn longest_row(rows: Seq<Vec<String>>) -> int
    decreases rows.len(),
{
    if rows.len() == 0 {
        0
    } else {
        let rest = longest_row(rows.drop_last());
        if rows.last().len() > rest {
            rows.last().len() as int
        } else {
            rest
        }
    }
}

/// The texts held in `rows`.
pub open spec fn texts_of(rows: Seq<Vec<String>>) -> Seq<Seq<Seq<char>>> {
    Seq::new(rows.len(), |r: int| Seq::new(rows[r].len() as nat, |c: int| rows[r][c]@))
}

/// The length of the longest of `rows`.
pub open spec fn longest(rows: Seq<Seq<Seq<char>>>) -> int
    decreases rows.len(),
{
    if rows.len() == 0 {
        0
    } else {
        let rest = longest(rows.drop_last());
        if rows.last().len() > rest {
            rows.last().len() as int
        } else {
            rest
        }
    }
}

/// The longest row of texts is as long as the longest row of strings.
pub proof fn longest_of_texts(rows: Seq<Vec<String>>)
    ensures
        longest(texts_of(rows)) == longest_row(rows),
    decreases rows.len(),
{
    if rows.len() > 0 {
        longest_of_texts(rows.drop_last());
        assert(texts_of(rows).drop_last() =~= texts_of(rows.drop_last()));
    }
}

impl MatrixView {
    /// The matrix that holds the texts of `rows`, each split at its line
    /// feeds: it has as many columns as the longest row, a shorter row is
    /// filled up with cells of one empty line, no cell has a least width
    /// and there is no span.
    pub open spec fn of_texts(rows: Seq<Seq<Seq<char>>>) -> MatrixView {
        MatrixView {
            cells: Seq::new(
                rows.len(),
                |r: int|
                    Seq::new(
                        longest(rows) as nat,
                        |c: int|
                            if c < rows[r].len() {
                                lines_of(rows[r][c])
                            } else {
                                seq![Seq::<char>::empty()]
                            },
                    ),
            ),
            floors: Seq::new(rows.len(), |r: int| Seq::new(longest(rows) as nat, |c: int| 0int)),
            cols: longest(rows),
            spans: Seq::empty(),
        }
    }

    /// The matrix of `rows` by `cols` cells of one empty line each.
    pub open spec fn blank(rows: int, cols: int) -> MatrixView {
        MatrixView {
            cells: Seq::new(
                rows as nat,
                |r: int| Seq::new(cols as nat, |c: int| seq![Seq::<char>::empty()]),
            ),
            floors: Seq::new(rows as nat, |r: int| Seq::new(cols as nat, |c: int| 0int)),
            cols,
            spans: Seq::empty(),
        }
    }

    /// The matrix with other content in the cell at (`r`, `c`); the same
    /// matrix where it has no such cell.
    pub open spec fn with_cell(self, r: int, c: int, lines: Seq<Seq<char>>) -> MatrixView {
        if 0 <= r < self.rows() && 0 <= c < self.cols {
            MatrixView { cells: self.cells.update(r, self.cells[r].update(c, lines)), ..self }
        } else {
            self
        }
    }

    /// The matrix with another least width for the cell at (`r`, `c`).
    pub open spec fn with_floor(self, r: int, c: int, floor: int) -> MatrixView {
        if 0 <= r < self.rows() && 0 <= c < self.cols {
            MatrixView { floors: self.floors.update(r, self.floors[r].update(c, floor)), ..self }
        } else {
            self
        }
    }

    /// The matrix with the span `span` set after the others: the spans that
    /// share a position with it are dropped. The same matrix where the span
    /// is empty or does not lie within it.
    pub open spec fn with_span(self, span: Span) -> MatrixView {
        if span.fits_in(self.rows(), self.cols) {
            MatrixView { spans: apart_from(self.spans, span).push(span), ..self }
        } else {
            self
        }
    }
}

impl View for Matrix {
    type V = MatrixView;

    /// The content and the least width of every cell, the number of
    /// columns, and the spans.
    closed spec fn view(&self) -> MatrixView {
        MatrixView {
            cells: Seq::new(
                self.cells.len() as nat,
                |r: int| Seq::new(self.cells[r].len() as nat, |c: int| self.cells[r][c]@),
            ),
            floors: Seq::new(
                self.cells.len() as nat,
                |r: int| Seq::new(self.cells[r].len() as nat, |c: int| self.cells[r][c].floor()),
            ),
            cols: self.cols as int,
            spans: self.spans@,
        }
    }
}

impl Matrix {
    /// The matrix of `rows` rows and `cols` columns whose cells each hold one
    /// empty line.
    pub fn new(rows: usize, cols: usize) -> (matrix: Matrix)
        ensures
            matrix@.wf(),
            matrix@.rows() == rows,
            matrix@.cols == cols,
            matrix@.spans.len() == 0,
            forall|r: int, c: int|
                0 <= r < rows && 0 <= c < cols ==> #[trigger] matrix@.cells[r][c]
                    == seq![Seq::<char>::empty()],
            forall|r: int, c: int|
                0 <= r < rows && 0 <= c < cols ==> #[trigger] matrix@.floors[r][c] == 0,
            matrix@ == MatrixView::blank(rows as int, cols as int),
    {
        let mut cells: Vec<Vec<Cell>> = Vec::new();
        let mut r: usize = 0;
        while r < rows
            invariant
                r <= rows,
                cells.len() == r,
                forall|i: int| 0 <= i < r ==> (#[trigger] cells[i]).len() == cols,
                forall|i: int, c: int|
                    0 <= i < r && 0 <= c < cols ==> (#[trigger] cells[i][c])@
                        == seq![Seq::<char>::empty()],
                forall|i: int, c: int|
                    0 <= i < r && 0 <= c < cols ==> (#[trigger] cells[i][c]).floor() == 0,
            decreases rows - r,
        {
            let mut row: Vec<Cell> = Vec::new();
            let mut c: usize = 0;
            while c < cols
                invariant
                    c <= cols,
                    row.len() == c,
                    forall|j: int| 0 <= j < c ==> (#[trigger] row[j])@ == seq![Seq::<char>::empty()],
                    forall|j: int| 0 <= j < c ==> (#[trigger] row[j]).floor() == 0,
                decreases cols - c,
            {
                row.push(Cell::empty());
                c += 1;
            }
            cells.push(row);
            r += 1;
        }
        let matrix = Matrix { cells, cols, spans: Vec::new() };
        proof {
            let target = MatrixView::blank(rows as int, cols as int);
            assert(matrix@.cells =~~= target.cells);
            assert(matrix@.floors =~~= target.floors);
        }
        matrix
    }

    /// The matrix that holds the texts of `rows`, each split at its line
    /// feeds. It has as many columns as the longest row; a shorter row is
    /// filled up with cells of one empty line.
    pub fn from_rows(rows: &Vec<Vec<String>>) -> (matrix: Matrix)
        ensures
            matrix@.wf(),
            matrix@.rows() == rows.len(),
            matrix@.cols == longest_row(rows@),
            matrix@.spans.len() == 0,
            forall|r: int, c: int|
                0 <= r < rows.len() && 0 <= c < matrix@.cols ==> #[trigger] matrix@.cells[r][c] == (
                if c < rows[r].len() {
                    lines_of(rows[r][c]@)
                } else {
                    seq![Seq::<char>::empty()]
                }),
            forall|r: int, c: int|
                0 <= r < rows.len() && 0 <= c < matrix@.cols ==> #[trigger] matrix@.floors[r][c] == 0,
            matrix@ == MatrixView::of_texts(texts_of(rows@)),
    {
        let mut cols: usize = 0;
        let mut r: usize = 0;
        while r < rows.len()
            invariant
                r <= rows.len(),
                cols == longest_row(rows@.take(r as int)),
            decreases rows.len() - r,
        {
            proof {
                assert(rows@.take(r + 1).drop_last() == rows@.take(r as int));
            }
            if rows[r].len() > cols {
                cols = rows[r].len();
            }
            r += 1;
        }
        proof {
            assert(rows@.take(r as int) == rows@);
        }
        let mut cells: Vec<Vec<Cell>> = Vec::new();
        r = 0;
        while r < rows.len()
            invariant
                r <= rows.len(),
                cells.len() == r,
                cols == longest_row(rows@),
                forall|i: int| 0 <= i < r ==> (#[trigger] cells[i]).len() == cols,
                forall|i: int, c: int|
                    0 <= i < r && 0 <= c < cols ==> (#[trigger] cells[i][c])@ == (if c
                        < rows[i].len() {
                        lines_of(rows[i][c]@)
                    } else {
                        seq![Seq::<char>::empty()]
                    }),
                forall|i: int, c: int|
                    0 <= i < r && 0 <= c < cols ==> (#[trigger] cells[i][c]).floor() == 0,
            decreases rows.len() - r,
        {
            let texts = &rows[r];
            let mut row: Vec<Cell> = Vec::new();
            let mut c: usize = 0;
            while c < cols
                invariant
                    c <= cols,
                    row.len() == c,
                    texts == rows[r as int],
                    forall|j: int|
                        0 <= j < c ==> (#[trigger] row[j])@ == (if j < texts.len() {
                            lines_of(texts[j]@)
                        } else {
                            seq![Seq::<char>::empty()]
                        }),
                    forall|j: int| 0 <= j < c ==> (#[trigger] row[j]).floor() == 0,
                decreases cols - c,
            {
                if c < texts.len() {
                    row.push(Cell::new(texts[c].as_str()));
                } else {
                    row.push(Cell::empty());
                }
                c += 1;
            }
            cells.push(row);
            r += 1;
        }
        let matrix = Matrix { cells, cols, spans: Vec::new() };
        proof {
            longest_of_texts(rows@);
            let target = MatrixView::of_texts(texts_of(rows@));
            assert(matrix@.cells =~~= target.cells);
            assert(matrix@.floors =~~= target.floors);
        }
        matrix
    }

    /// The number of rows.
    pub fn rows(&self) -> (n: usize)
        ensures
            n == self@.rows(),
    {
        self.cells.len()
    }

    /// The number of columns.
    pub fn cols(&self) -> (n: usize)
        ensures
            n == self@.cols,
    {
        self.cols
    }

    /// The cell at (`r`, `c`).
    pub fn cell(&self, r: usize, c: usize) -> (cell: &Cell)
        requires
            self@.wf(),
            r < self@.rows(),
            c < self@.cols,
        ensures
            cell@ == self@.cells[r as int][c as int],
            cell.floor() == self@.floors[r as int][c as int],
    {
        proof {
            assert(self@.cells[r as int].len() == self@.cols);
        }
        &self.cells[r][c]
    }

    /// The spans, in the order in which they were set.
    pub fn spans(&self) -> (spans: &Vec<Span>)
        ensures
            spans@ == self@.spans,
    {
        &self.spans
    }

    /// Replaces the content of the cell at (`r`, `c`) by `text`. A position
    /// outside the matrix is ignored.
    pub fn set_cell(&mut self, r: usize, c: usize, text: &str)
        requires
            old(self)@.wf(),
        ensures
            final(self)@.wf(),
            final(self)@.cols == old(self)@.cols,
            final(self)@.spans == old(self)@.spans,
            final(self)@.floors == old(self)@.floors,
            r < old(self)@.rows() && c < old(self)@.cols ==> final(self)@.cells == old(self)@.cells.update(
                r as int,
                old(self)@.cells[r as int].update(c as int, lines_of(text@)),
            ),
            !(r < old(self)@.rows() && c < old(self)@.cols) ==> final(self)@ == old(self)@,
            final(self)@ == old(self)@.with_cell(r as int, c as int, lines_of(text@)),
    {
        if r < self.cells.len() && c < self.cols {
            assert(self@.cells[r as int].len() == self@.cols);
            let floor = self.cells[r][c].min_width();
            self.cells[r][c] = Cell::with_floor(text, floor);
            proof {
                assert(final(self)@.cells =~~= old(self)@.cells.update(
                    r as int,
                    old(self)@.cells[r as int].update(c as int, lines_of(text@)),
                ));
                assert(final(self)@.floors =~~= old(self)@.floors);
            }
        }
    }

    /// Tells whether the matrix is well formed. Every matrix made and
    /// changed by the functions of this type is.
    pub fn is_well_formed(&self) -> (ok: bool)
        ensures
            ok == self@.wf(),
    {
        let rows = self.cells.len();
        let mut r: usize = 0;
        while r < rows
            invariant
                r <= rows,
                rows == self.cells.len(),
                forall|k: int| 0 <= k < r ==> (#[trigger] self.cells[k]).len() == self.cols,
            decreases rows - r,
        {
            if self.cells[r].len() != self.cols {
                proof {
                    assert(self@.cells[r as int].len() != self@.cols);
                }
                return false;
            }
            r += 1;
        }
        let mut a: usize = 0;
        while a < self.spans.len()
            invariant
                a <= self.spans.len(),
                rows == self.cells.len(),
                forall|k: int|
                    0 <= k < a ==> (#[trigger] self.spans[k]).fits_in(rows as int, self.cols as int),
                forall|k: int, m: int|
                    0 <= k < m < a ==> !(#[trigger] self.spans[k]).overlaps(#[trigger] self.spans[m]),
            decreases self.spans.len() - a,
        {
            if !self.spans[a].is_within(rows, self.cols) {
                return false;
            }
            let mut b: usize = 0;
            while b < a
                invariant
                    b <= a < self.spans.len(),
                    forall|k: int| 0 <= k < b ==> !(#[trigger] self.spans[k]).overlaps(self.spans[a as int]),
                decreases a - b,
            {
                if self.spans[b].intersects(&self.spans[a]) {
                    return false;
                }
                b += 1;
            }
            a += 1;
        }
        proof {
            assert forall|k: int| 0 <= k < self@.rows() implies (#[trigger] self@.cells[k]).len()
                == self@.cols by {
                assert(self.cells[k].len() == self.cols);
            }
            assert forall|k: int| 0 <= k < self@.rows() implies (#[trigger] self@.floors[k]).len()
                == self@.cols by {
                assert(self.cells[k].len() == self.cols);
            }
        }
        true
    }

    /// Sets the least width of the content of the cell at (`r`, `c`). A
    /// position outside the matrix is ignored.
    pub fn set_min_width(&mut self, r: usize, c: usize, floor: usize)
        requires
            old(self)@.wf(),
        ensures
            final(self)@.wf(),
            final(self)@.cols == old(self)@.cols,
            final(self)@.spans == old(self)@.spans,
            final(self)@.cells == old(self)@.cells,
            r < old(self)@.rows() && c < old(self)@.cols ==> final(self)@.floors == old(
                self,
            )@.floors.update(r as int, old(self)@.floors[r as int].update(c as int, floor as int)),
            !(r < old(self)@.rows() && c < old(self)@.cols) ==> final(self)@ == old(self)@,
            final(self)@ == old(self)@.with_floor(r as int, c as int, floor as int),
    {
        if r < self.cells.len() && c < self.cols {
            assert(self@.cells[r as int].len() == self@.cols);
            self.cells[r][c].floor = floor;
            proof {
                assert(final(self)@.cells =~~= old(self)@.cells);
                assert(final(self)@.floors =~~= old(self)@.floors.update(
                    r as int,
                    old(self)@.floors[r as int].update(c as int, floor as int),
                ));
            }
        }
    }

    /// The span that covers (`r`, `c`), if there is one.
    pub fn span_of(&self, r: usize, c: usize) -> (span: Option<Span>)
        ensures
            span == span_at(self@.spans, r as int, c as int),
    {
        let mut k: usize = 0;
        proof {
            assert(self.spans@.skip(0) == self.spans@);
        }
        while k < self.spans.len()
            invariant
                k <= self.spans.len(),
                span_at(self.spans@, r as int, c as int) == span_at(
                    self.spans@.skip(k as int),
                    r as int,
                    c as int,
                ),
            decreases self.spans.len() - k,
        {
            if self.spans[k].contains(r, c) {
                return Some(self.spans[k]);
            }
            proof {
                assert(self.spans@.skip(k as int).drop_first() == self.spans@.skip(k + 1));
            }
            k += 1;
        }
        None
    }

    /// The span that covers (`r`, `c`), or the position alone.
    pub fn region(&self, r: usize, c: usize) -> (span: Span)
        ensures
            span == self@.region(r as int, c as int),
    {
        match self.span_of(r, c) {
            Some(span) => span,
            None => Span { row: r, col: c, rows: 1, cols: 1 },
        }
    }

    /// Makes the cell at (`span.row`, `span.col`) cover the rectangle of
    /// `span`. Spans set earlier that share a position with it are dropped:
    /// the later span wins. A span that is empty or does not lie within the
    /// matrix is ignored.
    pub fn set_span(&mut self, span: Span)
        requires
            old(self)@.wf(),
        ensures
            final(self)@.wf(),
            final(self)@.cells == old(self)@.cells,
            final(self)@.floors == old(self)@.floors,
            final(self)@.cols == old(self)@.cols,
            span.fits_in(old(self)@.rows(), old(self)@.cols) ==> final(self)@.spans == apart_from(
                old(self)@.spans,
                span,
            ).push(span),
            !span.fits_in(old(self)@.rows(), old(self)@.cols) ==> final(self)@.spans == old(
                self,
            )@.spans,
            final(self)@ == old(self)@.with_span(span),
    {
        if !span.is_within(self.cells.len(), self.cols) {
            return ;
        }
        let mut kept: Vec<Span> = Vec::new();
        let ghost mut origin: Seq<int> = Seq::empty();
        let mut k: usize = 0;
        while k < self.spans.len()
            invariant
                k <= self.spans.len(),
                self@ == old(self)@,
                self@.wf(),
                kept@ == apart_from(self.spans@.take(k as int), span),
                origin.len() == kept.len(),
                forall|a: int|
                    0 <= a < kept.len() ==> 0 <= #[trigger] origin[a] < k && kept[a]
                        == self.spans[origin[a]] && !kept[a].overlaps(span),
                forall|a: int, b: int|
                    0 <= a < b < kept.len() ==> #[trigger] origin[a] < #[trigger] origin[b],
            decreases self.spans.len() - k,
        {
            proof {
                assert(self.spans@.take(k + 1).drop_last() == self.spans@.take(k as int));
            }
            if !self.spans[k].intersects(&span) {
                kept.push(self.spans[k]);
                proof {
                    origin = origin.push(k as int);
                }
            }
            k += 1;
        }
        proof {
            assert(self.spans@.take(k as int) == self.spans@);
        }
        kept.push(span);
        proof {
            let rows = self@.rows();
            let cols = self@.cols;
            assert forall|a: int| 0 <= a < kept.len() implies (#[trigger] kept[a]).fits_in(
                rows,
                cols,
            ) by {
                if a < kept.len() - 1 {
                    assert(self.spans@[origin[a]].fits_in(rows, cols));
                }
            }
            assert forall|a: int, b: int| 0 <= a < b < kept.len() implies !(#[trigger] kept[a]).overlaps(
                #[trigger] kept[b],
            ) by {
                if b < kept.len() - 1 {
                    assert(!self.spans@[origin[a]].overlaps(self.spans@[origin[b]]));
                }
            }
        }
        self.spans = kept;
    }
}

} // verus!
