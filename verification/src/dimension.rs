//! The dimension estimator: the width of every column and the height of
//! every row.
//!
//! A column is first as wide as the widest cell that lies in it alone (line
//! length plus left and right padding). Then the spans are taken in the order
//! in which they were set: where the columns of a span, with the border lines
//! between them, are narrower than its cell needs, the leftmost column of the
//! span grows by what is missing. Rows get their heights the same way, from
//! line counts and top and bottom padding, and the topmost row grows.

use crate::grid::{Grid, GridView};
use crate::matrix::{span_at_is_member, span_at_is_unique, widest, Span};
use crate::plan::BorderPlan;
use vstd::prelude::*;

verus! {

/// The direction along which sizes are taken: columns have widths, rows have
/// heights.
#[derive(Debug, Clone, Copy, PartialEq, Eq, Structural)]
pub enum Axis {
    Columns,
    Rows,
}

/// 1 for a line that is drawn, 0 for one that is not.
pub open spec fn unit(drawn: bool) -> int {
    if drawn {
        1
    } else {
        0
    }
}

/// Where track `t` starts: the number of characters before it, which are the
/// tracks before it and the drawn lines up to the one that precedes it.
pub open spec fn start(sizes: Seq<int>, lines: Seq<bool>, t: int) -> int
    decreases t,
{
    if t <= 0 {
        unit(lines[0])
    } else {
        start(sizes, lines, t - 1) + sizes[t - 1] + unit(lines[t])
    }
}

/// The room that `n` tracks from track `from` on take up together, with the
/// drawn lines between them.
pub open spec fn stretch(sizes: Seq<int>, lines: Seq<bool>, from: int, n: int) -> int {
    if n <= 0 {
        0
    } else {
        start(sizes, lines, from + n - 1) + sizes[from + n - 1] - start(sizes, lines, from)
    }
}

/// The room that `count` tracks and all the drawn lines take up.
pub open spec fn extent(sizes: Seq<int>, lines: Seq<bool>, count: int) -> int {
    if count <= 0 {
        0
    } else {
        start(sizes, lines, count - 1) + sizes[count - 1] + unit(lines[count])
    }
}

/// The sizes after a span of `n` tracks from `from` on has been given room
/// for `need`: where it lacks room, its first track grows.
pub open spec fn grow(sizes: Seq<int>, lines: Seq<bool>, from: int, n: int, need: int) -> Seq<
    int,
> {
    if n > 1 && need > stretch(sizes, lines, from, n) {
        sizes.update(from, sizes[from] + need - stretch(sizes, lines, from, n))
    } else {
        sizes
    }
}

/// With sizes that are not negative, a later track starts no earlier.
pub proof fn start_is_monotone(sizes: Seq<int>, lines: Seq<bool>, a: int, b: int)
    requires
        0 <= a <= b <= sizes.len(),
        forall|t: int| 0 <= t < sizes.len() ==> 0 <= #[trigger] sizes[t],
    ensures
        start(sizes, lines, a) <= start(sizes, lines, b),
        a < b ==> start(sizes, lines, a) + sizes[a] <= start(sizes, lines, b),
        0 <= start(sizes, lines, a),
    decreases b,
{
    if a < b {
        start_is_monotone(sizes, lines, a, b - 1);
    } else if a > 0 {
        start_is_monotone(sizes, lines, a - 1, a - 1);
    }
}

impl Span {
    /// The first track of the span along `axis`.
    pub open spec fn first(self, axis: Axis) -> int {
        match axis {
            Axis::Columns => self.col as int,
            Axis::Rows => self.row as int,
        }
    }

    /// The number of tracks of the span along `axis`.
    pub open spec fn len(self, axis: Axis) -> int {
        match axis {
            Axis::Columns => self.cols as int,
            Axis::Rows => self.rows as int,
        }
    }
}

impl GridView {
    /// The number of tracks along `axis`.
    pub open spec fn count(self, axis: Axis) -> int {
        match axis {
            Axis::Columns => self.cols(),
            Axis::Rows => self.rows(),
        }
    }

    /// The number of tracks across `axis`.
    pub open spec fn across(self, axis: Axis) -> int {
        match axis {
            Axis::Columns => self.rows(),
            Axis::Rows => self.cols(),
        }
    }

    /// For every boundary along `axis` whether it is drawn.
    pub open spec fn lines(self, axis: Axis) -> Seq<bool> {
        Seq::new(
            (self.count(axis) + 1) as nat,
            |t: int|
                match axis {
                    Axis::Columns => self.has_col_line(t),
                    Axis::Rows => self.has_row_line(t),
                },
        )
    }

    /// The room that the cell at (`r`, `c`) needs along `axis`: its longest
    /// line, or its least width where that is more, with the padding left
    /// and right; or its lines with the padding above and below.
    pub open spec fn need(self, axis: Axis, r: int, c: int) -> int {
        match axis {
            Axis::Columns => (if self.matrix.floors[r][c] > widest(self.matrix.cells[r][c]) {
                self.matrix.floors[r][c]
            } else {
                widest(self.matrix.cells[r][c])
            }) + self.padding.left + self.padding.right,
            Axis::Rows => self.matrix.cells[r][c].len() + self.padding.top + self.padding.bottom,
        }
    }

    /// What the cell at (`r`, `c`) asks of its own track along `axis`: its
    /// need, where it holds content and lies in that track alone, else 0.
    pub open spec fn claim(self, axis: Axis, r: int, c: int) -> int {
        if self.matrix.is_anchor(r, c) && self.matrix.region(r, c).len(axis) == 1 {
            self.need(axis, r, c)
        } else {
            0
        }
    }

    /// The largest claim on track `t` among the first `upto` positions across.
    pub open spec fn base_size(self, axis: Axis, t: int, upto: int) -> int
        decreases upto,
    {
        if upto <= 0 {
            0
        } else {
            let before = self.base_size(axis, t, upto - 1);
            let claim = match axis {
                Axis::Columns => self.claim(axis, upto - 1, t),
                Axis::Rows => self.claim(axis, t, upto - 1),
            };
            if claim > before {
                claim
            } else {
                before
            }
        }
    }

    /// The sizes after the first `k` spans have been given room.
    pub open spec fn grown(self, axis: Axis, k: int) -> Seq<int>
        decreases k,
    {
        if k <= 0 {
            Seq::new(self.count(axis) as nat, |t: int| self.base_size(axis, t, self.across(axis)))
        } else {
            let span = self.matrix.spans[k - 1];
            grow(
                self.grown(axis, k - 1),
                self.lines(axis),
                span.first(axis),
                span.len(axis),
                self.need(axis, span.row as int, span.col as int),
            )
        }
    }

    /// The size of every track along `axis`: the widths of the columns or
    /// the heights of the rows.
    pub open spec fn sizes(self, axis: Axis) -> Seq<int> {
        self.grown(axis, self.matrix.spans.len() as int)
    }

    /// The width of every column.
    pub open spec fn widths(self) -> Seq<int> {
        self.sizes(Axis::Columns)
    }

    /// The height of every row.
    pub open spec fn heights(self) -> Seq<int> {
        self.sizes(Axis::Rows)
    }

    /// The number of characters in every line of the drawing.
    pub open spec fn total_width(self) -> int {
        extent(self.widths(), self.lines(Axis::Columns), self.cols())
    }

    /// The number of lines of the drawing.
    pub open spec fn total_height(self) -> int {
        extent(self.heights(), self.lines(Axis::Rows), self.rows())
    }

    /// Whether the sizes along `axis` can be held in machine integers: the
    /// need of every cell that holds content, and the room that all tracks
    /// and lines take up together.
    pub open spec fn fits_along(self, axis: Axis) -> bool {
        &&& forall|r: int, c: int|
            0 <= r < self.rows() && 0 <= c < self.cols() && #[trigger] self.matrix.is_anchor(r, c)
                ==> self.need(axis, r, c) <= usize::MAX
        &&& extent(self.sizes(axis), self.lines(axis), self.count(axis)) <= usize::MAX
    }

    /// Whether the grid can be measured: its numbers of rows and columns
    /// leave room for one boundary more, and its sizes fit along both axes.
    pub open spec fn fits(self) -> bool {
        &&& self.rows() < usize::MAX
        &&& self.cols() < usize::MAX
        &&& self.fits_along(Axis::Columns)
        &&& self.fits_along(Axis::Rows)
    }
}

/// The grown sizes keep their number, and none of them is negative.
pub proof fn grown_is_sized(grid: GridView, axis: Axis, k: int)
    requires
        grid.wf(),
        0 <= k <= grid.matrix.spans.len(),
    ensures
        grid.grown(axis, k).len() == grid.count(axis),
        forall|t: int| 0 <= t < grid.count(axis) ==> 0 <= #[trigger] grid.grown(axis, k)[t],
    decreases k,
{
    if k <= 0 {
        assert forall|t: int| 0 <= t < grid.count(axis) implies 0 <= #[trigger] grid.grown(
            axis,
            k,
        )[t] by {
            base_size_is_not_negative(grid, axis, t, grid.across(axis));
        }
    } else {
        grown_is_sized(grid, axis, k - 1);
    }
}

/// A base size is never negative.
pub proof fn base_size_is_not_negative(grid: GridView, axis: Axis, t: int, upto: int)
    ensures
        0 <= grid.base_size(axis, t, upto),
    decreases upto,
{
    if upto > 0 {
        base_size_is_not_negative(grid, axis, t, upto - 1);
    }
}

/// Whether the need of the cell at place `u` of track `t` fits, where that
/// cell holds content.
pub open spec fn need_fits(grid: GridView, axis: Axis, t: int, u: int) -> bool {
    match axis {
        Axis::Columns => grid.matrix.is_anchor(u, t) ==> grid.need(axis, u, t) <= usize::MAX,
        Axis::Rows => grid.matrix.is_anchor(t, u) ==> grid.need(axis, t, u) <= usize::MAX,
    }
}

/// The measured grid: the size and the start of every column and row.
#[derive(Debug)]
pub struct Dimensions {
    pub widths: Vec<usize>,
    pub heights: Vec<usize>,
    pub col_starts: Vec<usize>,
    pub row_starts: Vec<usize>,
}

/// Whether `sizes` and `starts` hold the sizes of `grid` along `axis` and
/// the starts that follow from them.
pub open spec fn measures(sizes: Seq<usize>, starts: Seq<usize>, grid: GridView, axis: Axis) -> bool {
    &&& sizes.len() == grid.count(axis)
    &&& starts.len() == grid.count(axis)
    &&& forall|t: int| 0 <= t < grid.count(axis) ==> #[trigger] sizes[t] == grid.sizes(axis)[t]
    &&& forall|t: int|
        0 <= t < grid.count(axis) ==> #[trigger] starts[t] == start(
            grid.sizes(axis),
            grid.lines(axis),
            t,
        )
}

impl Dimensions {
    /// Whether these are the dimensions of `grid`.
    pub open spec fn describes(&self, grid: GridView) -> bool {
        &&& measures(self.widths@, self.col_starts@, grid, Axis::Columns)
        &&& measures(self.heights@, self.row_starts@, grid, Axis::Rows)
    }
}

/// The sizes held in `v`, as integers.
pub open spec fn as_ints(v: Seq<usize>) -> Seq<int> {
    Seq::new(v.len(), |t: int| v[t] as int)
}

/// One more than the largest `usize`.
pub const LIMIT: u128 = 0x1_0000_0000_0000_0000;

/// Computes [`stretch`] without overflow.
fn stretch_of(sizes: &Vec<usize>, lines: &Vec<bool>, from: usize, n: usize) -> (room: u128)
    requires
        lines.len() == sizes.len() + 1,
        from + n <= sizes.len(),
        usize::MAX < LIMIT,
    ensures
        room == stretch(as_ints(sizes@), lines@, from as int, n as int),
        room <= n * LIMIT,
{
    if n == 0 {
        return 0;
    }
    let mut room: u128 = sizes[from] as u128;
    let mut t: usize = from;
    let last = from + n - 1;
    while t < last
        invariant
            from <= t <= last < sizes.len(),
            lines.len() == sizes.len() + 1,
            usize::MAX < LIMIT,
            room == start(as_ints(sizes@), lines@, t as int) + sizes[t as int] - start(
                as_ints(sizes@),
                lines@,
                from as int,
            ),
            room <= (t - from + 1) * LIMIT,
        decreases last - t,
    {
        t += 1;
        let line: u128 = if lines[t] {
            1
        } else {
            0
        };
        room = room + line + sizes[t] as u128;
    }
    room
}

/// Computes [`extent`] without overflow.
fn extent_of(sizes: &Vec<usize>, lines: &Vec<bool>) -> (room: u128)
    requires
        lines.len() == sizes.len() + 1,
        usize::MAX < LIMIT,
    ensures
        room == extent(as_ints(sizes@), lines@, sizes.len() as int),
{
    if sizes.len() == 0 {
        return 0;
    }
    let inner = stretch_of(sizes, lines, 0, sizes.len());
    let first: u128 = if lines[0] {
        1
    } else {
        0
    };
    let last: u128 = if lines[sizes.len()] {
        1
    } else {
        0
    };
    proof {
        assert(inner <= sizes.len() * LIMIT);
    }
    inner + first + last
}

/// The start of every track, for sizes whose extent fits.
fn starts_of(sizes: &Vec<usize>, lines: &Vec<bool>) -> (starts: Vec<usize>)
    requires
        lines.len() == sizes.len() + 1,
        extent(as_ints(sizes@), lines@, sizes.len() as int) <= usize::MAX,
    ensures
        starts.len() == sizes.len(),
        forall|t: int|
            0 <= t < sizes.len() ==> #[trigger] starts[t] == start(as_ints(sizes@), lines@, t),
{
    let mut starts: Vec<usize> = Vec::new();
    if sizes.len() == 0 {
        return starts;
    }
    let mut at: usize = if lines[0] {
        1
    } else {
        0
    };
    let mut t: usize = 0;
    let ghost ints = as_ints(sizes@);
    proof {
        start_is_monotone(ints, lines@, 0, sizes.len() - 1);
    }
    while t < sizes.len()
        invariant
            t <= sizes.len(),
            sizes.len() > 0,
            lines.len() == sizes.len() + 1,
            ints == as_ints(sizes@),
            extent(ints, lines@, sizes.len() as int) <= usize::MAX,
            starts.len() == t,
            t < sizes.len() ==> at == start(ints, lines@, t as int),
            forall|k: int| 0 <= k < t ==> #[trigger] starts[k] == start(ints, lines@, k),
        decreases sizes.len() - t,
    {
        starts.push(at);
        proof {
            if t + 1 < sizes.len() {
                start_is_monotone(ints, lines@, t + 1, sizes.len() - 1);
            }
        }
        if t + 1 < sizes.len() {
            let line: usize = if lines[t + 1] {
                1
            } else {
                0
            };
            at = at + sizes[t] + line;
        }
        t += 1;
    }
    starts
}

impl Grid {
    /// Computes [`GridView::need`].
    fn need_of(&self, axis: Axis, r: usize, c: usize) -> (need: u128)
        requires
            self@.wf(),
            r < self@.rows(),
            c < self@.cols(),
        ensures
            need == self@.need(axis, r as int, c as int),
    {
        let cell = self.matrix.cell(r, c);
        match axis {
            Axis::Columns => {
                let width = cell.width();
                let floor = cell.min_width();
                let content = if floor > width {
                    floor
                } else {
                    width
                };
                content as u128 + self.padding.left as u128 + self.padding.right as u128
            },
            Axis::Rows => cell.count_lines() as u128 + self.padding.top as u128
                + self.padding.bottom as u128,
        }
    }

    /// The sizes along one axis, or `None` where they do not fit.
    fn estimate_along(&self, axis: Axis, lines: &Vec<bool>) -> (sizes: Option<Vec<usize>>)
        requires
            self@.wf(),
            self@.rows() < usize::MAX,
            self@.cols() < usize::MAX,
            lines@ == self@.lines(axis),
        ensures
            sizes is Some <==> self@.fits_along(axis),
            sizes matches Some(v) ==> as_ints(v@) == self@.sizes(axis) && v.len() == self@.count(
                axis,
            ),
    {
        let rows = self.matrix.rows();
        let cols = self.matrix.cols();
        let (count, across) = match axis {
            Axis::Columns => (cols, rows),
            Axis::Rows => (rows, cols),
        };
        let mut sizes: Vec<usize> = Vec::new();
        let mut t: usize = 0;
        while t < count
            invariant
                t <= count,
                self@.wf(),
                rows == self@.rows(),
                cols == self@.cols(),
                count == self@.count(axis),
                across == self@.across(axis),
                sizes.len() == t,
                forall|k: int|
                    0 <= k < t ==> #[trigger] sizes[k] == self@.base_size(axis, k, across as int),
                forall|k: int, u: int|
                    0 <= k < t && 0 <= u < across ==> #[trigger] need_fits(self@, axis, k, u),
            decreases count - t,
        {
            let mut size: usize = 0;
            let mut u: usize = 0;
            while u < across
                invariant
                    u <= across,
                    t < count,
                    self@.wf(),
                    rows == self@.rows(),
                    cols == self@.cols(),
                    count == self@.count(axis),
                    across == self@.across(axis),
                    size == self@.base_size(axis, t as int, u as int),
                    forall|v: int| 0 <= v < u ==> #[trigger] need_fits(self@, axis, t as int, v),
                decreases across - u,
            {
                let (r, c) = match axis {
                    Axis::Columns => (u, t),
                    Axis::Rows => (t, u),
                };
                let region = self.matrix.region(r, c);
                if region.row == r && region.col == c {
                    let need = self.need_of(axis, r, c);
                    if need > usize::MAX as u128 {
                        proof {
                            assert(self@.matrix.is_anchor(r as int, c as int));
                            assert(!need_fits(self@, axis, t as int, u as int));
                        }
                        return None;
                    }
                    let len = match axis {
                        Axis::Columns => region.cols,
                        Axis::Rows => region.rows,
                    };
                    if len == 1 && need as usize > size {
                        size = need as usize;
                    }
                }
                u += 1;
            }
            sizes.push(size);
            t += 1;
        }
        proof {
            assert(as_ints(sizes@) =~= self@.grown(axis, 0));
            assert forall|r: int, c: int|
                0 <= r < self@.rows() && 0 <= c < self@.cols() && #[trigger] self@.matrix.is_anchor(
                    r,
                    c,
                ) implies self@.need(axis, r, c) <= usize::MAX by {
                match axis {
                    Axis::Columns => {
                        assert(need_fits(self@, axis, c, r));
                    },
                    Axis::Rows => {
                        assert(need_fits(self@, axis, r, c));
                    },
                }
            }
        }
        let spans = self.matrix.spans();
        let mut k: usize = 0;
        while k < spans.len()
            invariant
                k <= spans.len(),
                self@.wf(),
                spans@ == self@.matrix.spans,
                rows == self@.rows(),
                cols == self@.cols(),
                count == self@.count(axis),
                lines@ == self@.lines(axis),
                sizes.len() == count,
                as_ints(sizes@) == self@.grown(axis, k as int),
                forall|r: int, c: int|
                    0 <= r < self@.rows() && 0 <= c < self@.cols()
                        && #[trigger] self@.matrix.is_anchor(r, c) ==> self@.need(axis, r, c)
                        <= usize::MAX,
            decreases spans.len() - k,
        {
            let span = spans[k];
            let (from, n) = match axis {
                Axis::Columns => (span.col, span.cols),
                Axis::Rows => (span.row, span.rows),
            };
            proof {
                assert(span.fits_in(rows as int, cols as int));
                span_at_is_unique(
                    self@.matrix.spans,
                    rows as int,
                    cols as int,
                    k as int,
                    span.row as int,
                    span.col as int,
                );
                assert(self@.matrix.is_anchor(span.row as int, span.col as int));
            }
            if n > 1 {
                let need = self.need_of(axis, span.row, span.col);
                let have = stretch_of(&sizes, lines, from, n);
                if need > have {
                    let ghost before = as_ints(sizes@);
                    proof {
                        start_is_monotone(before, lines@, from as int, from + n - 1);
                    }
                    let grown: u128 = sizes[from] as u128 + (need - have);
                    sizes.set(from, grown as usize);
                    proof {
                        assert(as_ints(sizes@) =~= before.update(
                            from as int,
                            before[from as int] + need - have,
                        ));
                    }
                }
            }
            k += 1;
        }
        let total = extent_of(&sizes, lines);
        if total > usize::MAX as u128 {
            None
        } else {
            Some(sizes)
        }
    }

    /// Measures the grid: the widths of its columns and the heights of its
    /// rows, with the place where each starts in the drawing. `None` where
    /// the sizes do not fit in machine integers.
    pub fn estimate(&self, plan: &BorderPlan) -> (dimensions: Option<Dimensions>)
        requires
            self@.wf(),
            self@.rows() < usize::MAX,
            self@.cols() < usize::MAX,
            plan.describes(self@),
        ensures
            dimensions is Some <==> self@.fits(),
            dimensions matches Some(d) ==> d.describes(self@),
    {
        proof {
            assert(plan.col_lines@ =~= self@.lines(Axis::Columns));
            assert(plan.row_lines@ =~= self@.lines(Axis::Rows));
        }
        let widths = match self.estimate_along(Axis::Columns, &plan.col_lines) {
            Some(v) => v,
            None => {
                return None;
            },
        };
        let heights = match self.estimate_along(Axis::Rows, &plan.row_lines) {
            Some(v) => v,
            None => {
                return None;
            },
        };
        let col_starts = starts_of(&widths, &plan.col_lines);
        let row_starts = starts_of(&heights, &plan.row_lines);
        proof {
            assert forall|t: int| 0 <= t < self@.cols() implies #[trigger] widths[t]
                == self@.sizes(Axis::Columns)[t] by {
                assert(as_ints(widths@)[t] == widths[t]);
            }
            assert forall|t: int| 0 <= t < self@.rows() implies #[trigger] heights[t]
                == self@.sizes(Axis::Rows)[t] by {
                assert(as_ints(heights@)[t] == heights[t]);
            }
        }
        Some(Dimensions { widths, heights, col_starts, row_starts })
    }
}

/// The room of `n` + 1 tracks is the room of the first `n`, the line
/// before the last track, and the last track.
pub proof fn stretch_step(sizes: Seq<int>, lines: Seq<bool>, from: int, n: int)
    requires
        0 <= from,
        1 <= n,
    ensures
        stretch(sizes, lines, from, n + 1) == stretch(sizes, lines, from, n) + unit(lines[from + n])
            + sizes[from + n],
        stretch(sizes, lines, from, 1) == sizes[from],
{
}

/// Larger tracks take up more room.
pub proof fn stretch_is_monotone(small: Seq<int>, large: Seq<int>, lines: Seq<bool>, from: int, n: int)
    requires
        0 <= from,
        0 <= n,
        from + n <= small.len(),
        small.len() == large.len(),
        forall|t: int| 0 <= t < small.len() ==> #[trigger] small[t] <= large[t],
    ensures
        stretch(small, lines, from, n) <= stretch(large, lines, from, n),
    decreases n,
{
    if n > 1 {
        stretch_is_monotone(small, large, lines, from, n - 1);
        stretch_step(small, lines, from, n - 1);
        stretch_step(large, lines, from, n - 1);
        assert(small[from + n - 1] <= large[from + n - 1]);
    } else if n == 1 {
        assert(small[from] <= large[from]);
    }
}

/// A track that grows moves the start of every later track by as much, and
/// of no other track.
pub proof fn start_after_growth(sizes: Seq<int>, lines: Seq<bool>, at: int, size: int, t: int)
    requires
        0 <= at < sizes.len(),
        0 <= t <= sizes.len(),
    ensures
        start(sizes.update(at, size), lines, t) == start(sizes, lines, t) + (if t > at {
            size - sizes[at]
        } else {
            0
        }),
    decreases t,
{
    if t > 0 {
        start_after_growth(sizes, lines, at, size, t - 1);
    }
}

/// After a span has been given room, its tracks take up at least its need,
/// and no track has become smaller.
pub proof fn grow_gives_room(sizes: Seq<int>, lines: Seq<bool>, from: int, n: int, need: int)
    requires
        0 <= from,
        1 < n,
        from + n <= sizes.len(),
    ensures
        stretch(grow(sizes, lines, from, n, need), lines, from, n) >= need,
        grow(sizes, lines, from, n, need).len() == sizes.len(),
        forall|t: int|
            0 <= t < sizes.len() ==> #[trigger] sizes[t] <= grow(sizes, lines, from, n, need)[t],
{
    let have = stretch(sizes, lines, from, n);
    if need > have {
        let grown = sizes.update(from, sizes[from] + need - have);
        start_after_growth(sizes, lines, from, sizes[from] + need - have, from + n - 1);
        start_after_growth(sizes, lines, from, sizes[from] + need - have, from);
    }
}

/// Giving room to one more span makes no track smaller.
pub proof fn grown_is_monotone(grid: GridView, axis: Axis, k: int, n: int)
    requires
        grid.wf(),
        0 <= k <= n <= grid.matrix.spans.len(),
    ensures
        grid.grown(axis, k).len() == grid.grown(axis, n).len(),
        forall|t: int|
            0 <= t < grid.count(axis) ==> #[trigger] grid.grown(axis, k)[t] <= grid.grown(axis, n)[t],
    decreases n,
{
    grown_is_sized(grid, axis, k);
    grown_is_sized(grid, axis, n);
    if k < n {
        grown_is_monotone(grid, axis, k, n - 1);
        grown_is_sized(grid, axis, n - 1);
        let span = grid.matrix.spans[n - 1];
        assert(span.fits_in(grid.rows(), grid.cols()));
        if span.len(axis) > 1 {
            grow_gives_room(
                grid.grown(axis, n - 1),
                grid.lines(axis),
                span.first(axis),
                span.len(axis),
                grid.need(axis, span.row as int, span.col as int),
            );
        }
        assert forall|t: int| 0 <= t < grid.count(axis) implies #[trigger] grid.grown(axis, k)[t]
            <= grid.grown(axis, n)[t] by {
            assert(grid.grown(axis, k)[t] <= grid.grown(axis, n - 1)[t]);
            assert(grid.grown(axis, n - 1)[t] <= grid.grown(axis, n)[t]);
        }
    }
}

/// The base size of a track is at least every claim on it.
pub proof fn base_size_covers_claims(grid: GridView, axis: Axis, t: int, u: int, upto: int)
    requires
        0 <= u < upto,
    ensures
        grid.base_size(axis, t, upto) >= (match axis {
            Axis::Columns => grid.claim(axis, u, t),
            Axis::Rows => grid.claim(axis, t, u),
        }),
    decreases upto,
{
    if u < upto - 1 {
        base_size_covers_claims(grid, axis, t, u, upto - 1);
    }
}

/// Every cell that holds content has room for it: the tracks of its
/// region, with the lines between them, take up at least what the cell
/// needs. A cell is never narrower or lower than its content and padding.
pub proof fn cells_have_room(grid: GridView, axis: Axis, r: int, c: int)
    requires
        grid.wf(),
        0 <= r < grid.rows(),
        0 <= c < grid.cols(),
        grid.matrix.is_anchor(r, c),
    ensures
        stretch(
            grid.sizes(axis),
            grid.lines(axis),
            grid.matrix.region(r, c).first(axis),
            grid.matrix.region(r, c).len(axis),
        ) >= grid.need(axis, r, c),
{
    let region = grid.matrix.region(r, c);
    let count = grid.matrix.spans.len() as int;
    span_at_is_member(grid.matrix.spans, r, c);
    grown_is_sized(grid, axis, count);
    if region.len(axis) == 1 {
        let t = region.first(axis);
        grown_is_monotone(grid, axis, 0, count);
        match axis {
            Axis::Columns => {
                base_size_covers_claims(grid, axis, t, r, grid.rows());
            },
            Axis::Rows => {
                base_size_covers_claims(grid, axis, t, c, grid.cols());
            },
        }
        assert(grid.grown(axis, 0)[t] == grid.base_size(axis, t, grid.across(axis)));
        assert(grid.grown(axis, 0)[t] <= grid.grown(axis, count)[t]);
    } else {
        assert(grid.matrix.spans.contains(region));
        let m = choose|m: int| 0 <= m < count && grid.matrix.spans[m] == region;
        assert(region.fits_in(grid.rows(), grid.cols()));
        grown_is_sized(grid, axis, m);
        grown_is_sized(grid, axis, m + 1);
        grow_gives_room(
            grid.grown(axis, m),
            grid.lines(axis),
            region.first(axis),
            region.len(axis),
            grid.need(axis, region.row as int, region.col as int),
        );
        grown_is_monotone(grid, axis, m + 1, count);
        stretch_is_monotone(
            grid.grown(axis, m + 1),
            grid.grown(axis, count),
            grid.lines(axis),
            region.first(axis),
            region.len(axis),
        );
    }
}

} // verus!
