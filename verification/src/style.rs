//! Border styles: the characters of the frame, of the inner lines and of
//! their crossings, and the lines that replace them at one boundary.

use vstd::prelude::*;

verus! {

/// The border characters of a style. A slot that is `None` draws nothing; a
/// row or column of border characters exists only where some slot, or some
/// override, gives it a character.
#[derive(Debug, Clone, Copy, PartialEq, Eq)]
pub struct Borders {
    pub top: Option<char>,
    pub bottom: Option<char>,
    pub left: Option<char>,
    pub right: Option<char>,
    pub horizontal: Option<char>,
    pub vertical: Option<char>,
    pub top_left: Option<char>,
    pub top_right: Option<char>,
    pub bottom_left: Option<char>,
    pub bottom_right: Option<char>,
    pub top_intersection: Option<char>,
    pub bottom_intersection: Option<char>,
    pub left_intersection: Option<char>,
    pub right_intersection: Option<char>,
    pub intersection: Option<char>,
}

/// The characters of one line: its filling, the crossings with the
/// perpendicular inner lines, and its two ends (left and right for a
/// horizontal line, top and bottom for a vertical one).
#[derive(Debug, Clone, Copy, PartialEq, Eq)]
pub struct Line {
    pub main: Option<char>,
    pub intersection: Option<char>,
    pub start: Option<char>,
    pub end: Option<char>,
}

/// A line that takes the place of the style's horizontal rule at one row
/// boundary: boundary 0 is above the first row.
#[derive(Debug, Clone, Copy, PartialEq, Eq)]
pub struct HorizontalLine {
    pub index: usize,
    pub line: Line,
}

/// A line that takes the place of the style's vertical rule at one column
/// boundary: boundary 0 is left of the first column.
#[derive(Debug, Clone, Copy, PartialEq, Eq)]
pub struct VerticalLine {
    pub index: usize,
    pub line: Line,
}

/// A style: border characters together with the lines that override them at
/// single boundaries. Of two lines for one boundary the later one counts.
#[derive(Debug, Clone, PartialEq, Eq)]
pub struct Style {
    pub borders: Borders,
    pub horizontals: Vec<HorizontalLine>,
    pub verticals: Vec<VerticalLine>,
}

/// A style as a mathematical value.
pub struct StyleView {
    pub borders: Borders,
    pub horizontals: Seq<HorizontalLine>,
    pub verticals: Seq<VerticalLine>,
}

impl View for Style {
    type V = StyleView;

    /// The borders and the line overrides, as sequences.
    open spec fn view(&self) -> StyleView {
        StyleView {
            borders: self.borders,
            horizontals: self.horizontals@,
            verticals: self.verticals@,
        }
    }
}

/// The first of two optional characters that is there.
pub open spec fn or_else(first: Option<char>, second: Option<char>) -> Option<char> {
    if first is Some {
        first
    } else {
        second
    }
}

/// Computes [`or_else`].
pub fn first_of(first: Option<char>, second: Option<char>) -> (c: Option<char>)
    ensures
        c == or_else(first, second),
{
    match first {
        Some(_) => first,
        None => second,
    }
}

impl Borders {
    /// Borders that draw nothing.
    pub open spec fn spec_empty() -> Borders {
        Borders {
            top: None,
            bottom: None,
            left: None,
            right: None,
            horizontal: None,
            vertical: None,
            top_left: None,
            top_right: None,
            bottom_left: None,
            bottom_right: None,
            top_intersection: None,
            bottom_intersection: None,
            left_intersection: None,
            right_intersection: None,
            intersection: None,
        }
    }

    /// Whether some slot draws on the top frame line.
    pub open spec fn has_top(self) -> bool {
        self.top is Some || self.top_left is Some || self.top_right is Some
            || self.top_intersection is Some
    }

    /// Whether some slot draws on the bottom frame line.
    pub open spec fn has_bottom(self) -> bool {
        self.bottom is Some || self.bottom_left is Some || self.bottom_right is Some
            || self.bottom_intersection is Some
    }

    /// Whether some slot draws on the left frame line.
    pub open spec fn has_left(self) -> bool {
        self.left is Some || self.top_left is Some || self.bottom_left is Some
            || self.left_intersection is Some
    }

    /// Whether some slot draws on the right frame line.
    pub open spec fn has_right(self) -> bool {
        self.right is Some || self.top_right is Some || self.bottom_right is Some
            || self.right_intersection is Some
    }

    /// Whether some slot draws on the lines between rows.
    pub open spec fn has_horizontal(self) -> bool {
        self.horizontal is Some || self.left_intersection is Some
            || self.right_intersection is Some || self.intersection is Some
    }

    /// Whether some slot draws on the lines between columns.
    pub open spec fn has_vertical(self) -> bool {
        self.vertical is Some || self.top_intersection is Some
            || self.bottom_intersection is Some || self.intersection is Some
    }

    /// Borders that draw nothing.
    pub fn empty() -> (borders: Borders)
        ensures
            borders == Borders::spec_empty(),
    {
        Borders {
            top: None,
            bottom: None,
            left: None,
            right: None,
            horizontal: None,
            vertical: None,
            top_left: None,
            top_right: None,
            bottom_left: None,
            bottom_right: None,
            top_intersection: None,
            bottom_intersection: None,
            left_intersection: None,
            right_intersection: None,
            intersection: None,
        }
    }

    /// Computes [`Borders::has_top`].
    pub fn draws_top(&self) -> (b: bool)
        ensures
            b == self.has_top(),
    {
        self.top.is_some() || self.top_left.is_some() || self.top_right.is_some()
            || self.top_intersection.is_some()
    }

    /// Computes [`Borders::has_bottom`].
    pub fn draws_bottom(&self) -> (b: bool)
        ensures
            b == self.has_bottom(),
    {
        self.bottom.is_some() || self.bottom_left.is_some() || self.bottom_right.is_some()
            || self.bottom_intersection.is_some()
    }

    /// Computes [`Borders::has_left`].
    pub fn draws_left(&self) -> (b: bool)
        ensures
            b == self.has_left(),
    {
        self.left.is_some() || self.top_left.is_some() || self.bottom_left.is_some()
            || self.left_intersection.is_some()
    }

    /// Computes [`Borders::has_right`].
    pub fn draws_right(&self) -> (b: bool)
        ensures
            b == self.has_right(),
    {
        self.right.is_some() || self.top_right.is_some() || self.bottom_right.is_some()
            || self.right_intersection.is_some()
    }

    /// Computes [`Borders::has_horizontal`].
    pub fn draws_horizontal(&self) -> (b: bool)
        ensures
            b == self.has_horizontal(),
    {
        self.horizontal.is_some() || self.left_intersection.is_some()
            || self.right_intersection.is_some() || self.intersection.is_some()
    }

    /// Computes [`Borders::has_vertical`].
    pub fn draws_vertical(&self) -> (b: bool)
        ensures
            b == self.has_vertical(),
    {
        self.vertical.is_some() || self.top_intersection.is_some()
            || self.bottom_intersection.is_some() || self.intersection.is_some()
    }
}

impl Borders {
    /// The borders with `c` on the top frame line. The crossings of that line
    /// with the lines that the borders already draw get `c` too.
    pub open spec fn with_top(self, c: char) -> Borders {
        Borders {
            top: Some(c),
            top_left: if self.has_left() {
                Some(c)
            } else {
                self.top_left
            },
            top_right: if self.has_right() {
                Some(c)
            } else {
                self.top_right
            },
            top_intersection: if self.has_vertical() {
                Some(c)
            } else {
                self.top_intersection
            },
            ..self
        }
    }

    /// Computes [`Borders::with_top`].
    pub fn set_top(&self, c: char) -> (borders: Borders)
        ensures
            borders == self.with_top(c),
    {
        let mut borders = *self;
        borders.top = Some(c);
        if self.draws_left() {
            borders.top_left = Some(c);
        }
        if self.draws_right() {
            borders.top_right = Some(c);
        }
        if self.draws_vertical() {
            borders.top_intersection = Some(c);
        }
        borders
    }

    /// The borders with `c` on the bottom frame line. The crossings of that
    /// line with the lines that the borders already draw get `c` too.
    pub open spec fn with_bottom(self, c: char) -> Borders {
        Borders {
            bottom: Some(c),
            bottom_left: if self.has_left() {
                Some(c)
            } else {
                self.bottom_left
            },
            bottom_right: if self.has_right() {
                Some(c)
            } else {
                self.bottom_right
            },
            bottom_intersection: if self.has_vertical() {
                Some(c)
            } else {
                self.bottom_intersection
            },
            ..self
        }
    }

    /// Computes [`Borders::with_bottom`].
    pub fn set_bottom(&self, c: char) -> (borders: Borders)
        ensures
            borders == self.with_bottom(c),
    {
        let mut borders = *self;
        borders.bottom = Some(c);
        if self.draws_left() {
            borders.bottom_left = Some(c);
        }
        if self.draws_right() {
            borders.bottom_right = Some(c);
        }
        if self.draws_vertical() {
            borders.bottom_intersection = Some(c);
        }
        borders
    }

    /// The borders with `c` on the left frame line. The crossings of that
    /// line with the lines that the borders already draw get `c` too.
    pub open spec fn with_left(self, c: char) -> Borders {
        Borders {
            left: Some(c),
            top_left: if self.has_top() {
                Some(c)
            } else {
                self.top_left
            },
            bottom_left: if self.has_bottom() {
                Some(c)
            } else {
                self.bottom_left
            },
            left_intersection: if self.has_horizontal() {
                Some(c)
            } else {
                self.left_intersection
            },
            ..self
        }
    }

    /// Computes [`Borders::with_left`].
    pub fn set_left(&self, c: char) -> (borders: Borders)
        ensures
            borders == self.with_left(c),
    {
        let mut borders = *self;
        borders.left = Some(c);
        if self.draws_top() {
            borders.top_left = Some(c);
        }
        if self.draws_bottom() {
            borders.bottom_left = Some(c);
        }
        if self.draws_horizontal() {
            borders.left_intersection = Some(c);
        }
        borders
    }

    /// The borders with `c` on the right frame line. The crossings of that
    /// line with the lines that the borders already draw get `c` too.
    pub open spec fn with_right(self, c: char) -> Borders {
        Borders {
            right: Some(c),
            top_right: if self.has_top() {
                Some(c)
            } else {
                self.top_right
            },
            bottom_right: if self.has_bottom() {
                Some(c)
            } else {
                self.bottom_right
            },
            right_intersection: if self.has_horizontal() {
                Some(c)
            } else {
                self.right_intersection
            },
            ..self
        }
    }

    /// Computes [`Borders::with_right`].
    pub fn set_right(&self, c: char) -> (borders: Borders)
        ensures
            borders == self.with_right(c),
    {
        let mut borders = *self;
        borders.right = Some(c);
        if self.draws_top() {
            borders.top_right = Some(c);
        }
        if self.draws_bottom() {
            borders.bottom_right = Some(c);
        }
        if self.draws_horizontal() {
            borders.right_intersection = Some(c);
        }
        borders
    }

    /// The borders with `c` on the lines between rows. The crossings of that
    /// line with the lines that the borders already draw get `c` too.
    pub open spec fn with_horizontal(self, c: char) -> Borders {
        Borders {
            horizontal: Some(c),
            intersection: if self.has_vertical() {
                Some(c)
            } else {
                self.intersection
            },
            left_intersection: if self.has_left() {
                Some(c)
            } else {
                self.left_intersection
            },
            right_intersection: if self.has_right() {
                Some(c)
            } else {
                self.right_intersection
            },
            ..self
        }
    }

    /// Computes [`Borders::with_horizontal`].
    pub fn set_horizontal(&self, c: char) -> (borders: Borders)
        ensures
            borders == self.with_horizontal(c),
    {
        let mut borders = *self;
        borders.horizontal = Some(c);
        if self.draws_vertical() {
            borders.intersection = Some(c);
        }
        if self.draws_left() {
            borders.left_intersection = Some(c);
        }
        if self.draws_right() {
            borders.right_intersection = Some(c);
        }
        borders
    }

    /// The borders with `c` on the lines between columns. The crossings of
    /// that line with the lines that the borders already draw get `c` too.
    pub open spec fn with_vertical(self, c: char) -> Borders {
        Borders {
            vertical: Some(c),
            intersection: if self.has_horizontal() {
                Some(c)
            } else {
                self.intersection
            },
            top_intersection: if self.has_top() {
                Some(c)
            } else {
                self.top_intersection
            },
            bottom_intersection: if self.has_bottom() {
                Some(c)
            } else {
                self.bottom_intersection
            },
            ..self
        }
    }

    /// Computes [`Borders::with_vertical`].
    pub fn set_vertical(&self, c: char) -> (borders: Borders)
        ensures
            borders == self.with_vertical(c),
    {
        let mut borders = *self;
        borders.vertical = Some(c);
        if self.draws_horizontal() {
            borders.intersection = Some(c);
        }
        if self.draws_top() {
            borders.top_intersection = Some(c);
        }
        if self.draws_bottom() {
            borders.bottom_intersection = Some(c);
        }
        borders
    }

    /// The borders without the top frame line: its filling and its crossings
    /// are cleared.
    pub open spec fn without_top(self) -> Borders {
        Borders { top: None, top_left: None, top_right: None, top_intersection: None, ..self }
    }

    /// Computes [`Borders::without_top`].
    pub fn clear_top(&self) -> (borders: Borders)
        ensures
            borders == self.without_top(),
    {
        let mut borders = *self;
        borders.top = None;
        borders.top_left = None;
        borders.top_right = None;
        borders.top_intersection = None;
        borders
    }

    /// The borders without the bottom frame line: its filling and its
    /// crossings are cleared.
    pub open spec fn without_bottom(self) -> Borders {
        Borders { bottom: None, bottom_left: None, bottom_right: None, bottom_intersection: None, ..self }
    }

    /// Computes [`Borders::without_bottom`].
    pub fn clear_bottom(&self) -> (borders: Borders)
        ensures
            borders == self.without_bottom(),
    {
        let mut borders = *self;
        borders.bottom = None;
        borders.bottom_left = None;
        borders.bottom_right = None;
        borders.bottom_intersection = None;
        borders
    }

    /// The borders without the left frame line: its filling and its crossings
    /// are cleared.
    pub open spec fn without_left(self) -> Borders {
        Borders { left: None, top_left: None, bottom_left: None, left_intersection: None, ..self }
    }

    /// Computes [`Borders::without_left`].
    pub fn clear_left(&self) -> (borders: Borders)
        ensures
            borders == self.without_left(),
    {
        let mut borders = *self;
        borders.left = None;
        borders.top_left = None;
        borders.bottom_left = None;
        borders.left_intersection = None;
        borders
    }

    /// The borders without the right frame line: its filling and its
    /// crossings are cleared.
    pub open spec fn without_right(self) -> Borders {
        Borders { right: None, top_right: None, bottom_right: None, right_intersection: None, ..self }
    }

    /// Computes [`Borders::without_right`].
    pub fn clear_right(&self) -> (borders: Borders)
        ensures
            borders == self.without_right(),
    {
        let mut borders = *self;
        borders.right = None;
        borders.top_right = None;
        borders.bottom_right = None;
        borders.right_intersection = None;
        borders
    }

    /// The borders without the lines between rows: its filling and its
    /// crossings are cleared.
    pub open spec fn without_horizontal(self) -> Borders {
        Borders {
            horizontal: None,
            left_intersection: None,
            right_intersection: None,
            intersection: None,
            ..self
        }
    }

    /// Computes [`Borders::without_horizontal`].
    pub fn clear_horizontal(&self) -> (borders: Borders)
        ensures
            borders == self.without_horizontal(),
    {
        let mut borders = *self;
        borders.horizontal = None;
        borders.left_intersection = None;
        borders.right_intersection = None;
        borders.intersection = None;
        borders
    }

    /// The borders without the lines between columns: its filling and its
    /// crossings are cleared.
    pub open spec fn without_vertical(self) -> Borders {
        Borders {
            vertical: None,
            top_intersection: None,
            bottom_intersection: None,
            intersection: None,
            ..self
        }
    }

    /// Computes [`Borders::without_vertical`].
    pub fn clear_vertical(&self) -> (borders: Borders)
        ensures
            borders == self.without_vertical(),
    {
        let mut borders = *self;
        borders.vertical = None;
        borders.top_intersection = None;
        borders.bottom_intersection = None;
        borders.intersection = None;
        borders
    }

}

/// One of the four characters of a [`Line`].
#[derive(Debug, Clone, Copy, PartialEq, Eq, Structural)]
pub enum LineSlot {
    Main,
    Intersection,
    Start,
    End,
}

impl Line {
    /// The line with `value` in the slot `slot`.
    pub open spec fn with(self, slot: LineSlot, value: Option<char>) -> Line {
        match slot {
            LineSlot::Main => Line { main: value, ..self },
            LineSlot::Intersection => Line { intersection: value, ..self },
            LineSlot::Start => Line { start: value, ..self },
            LineSlot::End => Line { end: value, ..self },
        }
    }

    /// Computes [`Line::with`].
    pub fn set(&self, slot: LineSlot, value: Option<char>) -> (line: Line)
        ensures
            line == self.with(slot, value),
    {
        let mut line = *self;
        match slot {
            LineSlot::Main => {
                line.main = value;
            },
            LineSlot::Intersection => {
                line.intersection = value;
            },
            LineSlot::Start => {
                line.start = value;
            },
            LineSlot::End => {
                line.end = value;
            },
        }
        line
    }

    /// The line with the four characters given.
    pub fn new(
        main: Option<char>,
        intersection: Option<char>,
        start: Option<char>,
        end: Option<char>,
    ) -> (line: Line)
        ensures
            line == (Line { main, intersection, start, end }),
    {
        Line { main, intersection, start, end }
    }

    /// The line with all four characters set.
    pub fn full(main: char, intersection: char, start: char, end: char) -> (line: Line)
        ensures
            line == (Line {
                main: Some(main),
                intersection: Some(intersection),
                start: Some(start),
                end: Some(end),
            }),
    {
        Line { main: Some(main), intersection: Some(intersection), start: Some(start), end: Some(end) }
    }

    /// The line that has `c` in all four places.
    pub fn filled(c: char) -> (line: Line)
        ensures
            line == (Line { main: Some(c), intersection: Some(c), start: Some(c), end: Some(c) }),
    {
        Line { main: Some(c), intersection: Some(c), start: Some(c), end: Some(c) }
    }

    /// The line without any character: it is drawn as blanks.
    pub fn empty() -> (line: Line)
        ensures
            line == (Line { main: None, intersection: None, start: None, end: None }),
    {
        Line { main: None, intersection: None, start: None, end: None }
    }
}

impl Default for Line {
    /// The line without any character.
    fn default() -> (line: Line)
        ensures
            line == (Line { main: None, intersection: None, start: None, end: None }),
    {
        Line { main: None, intersection: None, start: None, end: None }
    }
}

impl HorizontalLine {
    /// The override of row boundary `index` by `line`.
    pub fn new(index: usize, line: Line) -> (over: HorizontalLine)
        ensures
            over == (HorizontalLine { index, line }),
    {
        HorizontalLine { index, line }
    }

    /// The same override with another filling.
    pub fn main(self, value: Option<char>) -> (over: HorizontalLine)
        ensures
            over == (HorizontalLine { index: self.index, line: self.line.with(LineSlot::Main, value) }),
    {
        HorizontalLine { index: self.index, line: self.line.set(LineSlot::Main, value) }
    }

    /// The same override with another character at the crossings.
    pub fn intersection(self, value: Option<char>) -> (over: HorizontalLine)
        ensures
            over == (HorizontalLine {
                index: self.index,
                line: self.line.with(LineSlot::Intersection, value),
            }),
    {
        HorizontalLine { index: self.index, line: self.line.set(LineSlot::Intersection, value) }
    }

    /// The same override with another first character.
    pub fn start(self, value: Option<char>) -> (over: HorizontalLine)
        ensures
            over == (HorizontalLine { index: self.index, line: self.line.with(LineSlot::Start, value) }),
    {
        HorizontalLine { index: self.index, line: self.line.set(LineSlot::Start, value) }
    }

    /// The same override with another last character.
    pub fn end(self, value: Option<char>) -> (over: HorizontalLine)
        ensures
            over == (HorizontalLine { index: self.index, line: self.line.with(LineSlot::End, value) }),
    {
        HorizontalLine { index: self.index, line: self.line.set(LineSlot::End, value) }
    }

}

/// The lines of `lines`, each with `value` in the slot `slot`.
pub open spec fn horizontals_with(
    lines: Seq<HorizontalLine>,
    slot: LineSlot,
    value: Option<char>,
) -> Seq<HorizontalLine> {
    Seq::new(
        lines.len(),
        |k: int| HorizontalLine { index: lines[k].index, line: lines[k].line.with(slot, value) },
    )
}

/// Computes [`horizontals_with`].
pub fn set_in_horizontals(lines: &mut Vec<HorizontalLine>, slot: LineSlot, value: Option<char>)
    ensures
        final(lines)@ == horizontals_with(old(lines)@, slot, value),
{
    let mut k: usize = 0;
    while k < lines.len()
        invariant
            k <= lines.len(),
            lines.len() == old(lines).len(),
            forall|m: int|
                0 <= m < k ==> #[trigger] lines[m] == (HorizontalLine {
                    index: old(lines)[m].index,
                    line: old(lines)[m].line.with(slot, value),
                }),
            forall|m: int| k <= m < lines.len() ==> #[trigger] lines[m] == old(lines)[m],
        decreases lines.len() - k,
    {
        let over = HorizontalLine { index: lines[k].index, line: lines[k].line.set(slot, value) };
        lines.set(k, over);
        k += 1;
    }
    proof {
        assert(lines@ =~= horizontals_with(old(lines)@, slot, value));
    }
}

impl VerticalLine {
    /// The override of column boundary `index` by `line`.
    pub fn new(index: usize, line: Line) -> (over: VerticalLine)
        ensures
            over == (VerticalLine { index, line }),
    {
        VerticalLine { index, line }
    }

    /// The same override with another filling.
    pub fn main(self, value: Option<char>) -> (over: VerticalLine)
        ensures
            over == (VerticalLine { index: self.index, line: self.line.with(LineSlot::Main, value) }),
    {
        VerticalLine { index: self.index, line: self.line.set(LineSlot::Main, value) }
    }

    /// The same override with another character at the crossings.
    pub fn intersection(self, value: Option<char>) -> (over: VerticalLine)
        ensures
            over == (VerticalLine {
                index: self.index,
                line: self.line.with(LineSlot::Intersection, value),
            }),
    {
        VerticalLine { index: self.index, line: self.line.set(LineSlot::Intersection, value) }
    }

    /// The same override with another first character.
    pub fn start(self, value: Option<char>) -> (over: VerticalLine)
        ensures
            over == (VerticalLine { index: self.index, line: self.line.with(LineSlot::Start, value) }),
    {
        VerticalLine { index: self.index, line: self.line.set(LineSlot::Start, value) }
    }

    /// The same override with another last character.
    pub fn end(self, value: Option<char>) -> (over: VerticalLine)
        ensures
            over == (VerticalLine { index: self.index, line: self.line.with(LineSlot::End, value) }),
    {
        VerticalLine { index: self.index, line: self.line.set(LineSlot::End, value) }
    }

}

/// The lines of `lines`, each with `value` in the slot `slot`.
pub open spec fn verticals_with(
    lines: Seq<VerticalLine>,
    slot: LineSlot,
    value: Option<char>,
) -> Seq<VerticalLine> {
    Seq::new(
        lines.len(),
        |k: int| VerticalLine { index: lines[k].index, line: lines[k].line.with(slot, value) },
    )
}

/// Computes [`verticals_with`].
pub fn set_in_verticals(lines: &mut Vec<VerticalLine>, slot: LineSlot, value: Option<char>)
    ensures
        final(lines)@ == verticals_with(old(lines)@, slot, value),
{
    let mut k: usize = 0;
    while k < lines.len()
        invariant
            k <= lines.len(),
            lines.len() == old(lines).len(),
            forall|m: int|
                0 <= m < k ==> #[trigger] lines[m] == (VerticalLine {
                    index: old(lines)[m].index,
                    line: old(lines)[m].line.with(slot, value),
                }),
            forall|m: int| k <= m < lines.len() ==> #[trigger] lines[m] == old(lines)[m],
        decreases lines.len() - k,
    {
        let over = VerticalLine { index: lines[k].index, line: lines[k].line.set(slot, value) };
        lines.set(k, over);
        k += 1;
    }
    proof {
        assert(lines@ =~= verticals_with(old(lines)@, slot, value));
    }
}

impl StyleView {
    /// The style with `c` on the top frame line, on its crossings with the lines
    /// that the style already draws, and where the line overrides meet it.
    pub open spec fn top(self, c: char) -> StyleView {
        StyleView {
            borders: self.borders.with_top(c),
            verticals: verticals_with(self.verticals, LineSlot::Start, Some(c)),
            ..self
        }
    }

    /// The style without the top frame line.
    pub open spec fn off_top(self) -> StyleView {
        StyleView {
            borders: self.borders.without_top(),
            verticals: verticals_with(self.verticals, LineSlot::Start, None),
            ..self
        }
    }

    /// The style with `c` on the bottom frame line, on its crossings with the lines
    /// that the style already draws, and where the line overrides meet it.
    pub open spec fn bottom(self, c: char) -> StyleView {
        StyleView {
            borders: self.borders.with_bottom(c),
            verticals: verticals_with(self.verticals, LineSlot::End, Some(c)),
            ..self
        }
    }

    /// The style without the bottom frame line.
    pub open spec fn off_bottom(self) -> StyleView {
        StyleView {
            borders: self.borders.without_bottom(),
            verticals: verticals_with(self.verticals, LineSlot::End, None),
            ..self
        }
    }

    /// The style with `c` on the left frame line, on its crossings with the lines
    /// that the style already draws, and where the line overrides meet it.
    pub open spec fn left(self, c: char) -> StyleView {
        StyleView {
            borders: self.borders.with_left(c),
            horizontals: horizontals_with(self.horizontals, LineSlot::Start, Some(c)),
            ..self
        }
    }

    /// The style without the left frame line.
    pub open spec fn off_left(self) -> StyleView {
        StyleView {
            borders: self.borders.without_left(),
            horizontals: horizontals_with(self.horizontals, LineSlot::Start, None),
            ..self
        }
    }

    /// The style with `c` on the right frame line, on its crossings with the lines
    /// that the style already draws, and where the line overrides meet it.
    pub open spec fn right(self, c: char) -> StyleView {
        StyleView {
            borders: self.borders.with_right(c),
            horizontals: horizontals_with(self.horizontals, LineSlot::End, Some(c)),
            ..self
        }
    }

    /// The style without the right frame line.
    pub open spec fn off_right(self) -> StyleView {
        StyleView {
            borders: self.borders.without_right(),
            horizontals: horizontals_with(self.horizontals, LineSlot::End, None),
            ..self
        }
    }

    /// The style with `c` on the lines between rows, on its crossings with the lines
    /// that the style already draws, and where the line overrides meet it.
    pub open spec fn horizontal(self, c: char) -> StyleView {
        StyleView {
            borders: self.borders.with_horizontal(c),
            verticals: verticals_with(self.verticals, LineSlot::Intersection, Some(c)),
            ..self
        }
    }

    /// The style without the lines between rows.
    pub open spec fn off_horizontal(self) -> StyleView {
        StyleView {
            borders: self.borders.without_horizontal(),
            verticals: verticals_with(self.verticals, LineSlot::Intersection, None),
            ..self
        }
    }

    /// The style with `c` on the lines between columns, on its crossings with
    /// the lines that the style already draws, and where the line overrides
    /// meet it.
    pub open spec fn vertical(self, c: char) -> StyleView {
        StyleView {
            borders: self.borders.with_vertical(c),
            horizontals: horizontals_with(self.horizontals, LineSlot::Intersection, Some(c)),
            ..self
        }
    }

    /// The style without the lines between columns.
    pub open spec fn off_vertical(self) -> StyleView {
        StyleView {
            borders: self.borders.without_vertical(),
            horizontals: horizontals_with(self.horizontals, LineSlot::Intersection, None),
            ..self
        }
    }

}

impl Style {
    /// A copy of the style.
    pub fn copy(&self) -> (style: Style)
        ensures
            style@ == self@,
    {
        let mut horizontals: Vec<HorizontalLine> = Vec::new();
        let mut k: usize = 0;
        while k < self.horizontals.len()
            invariant
                k <= self.horizontals.len(),
                horizontals@ == self.horizontals@.take(k as int),
            decreases self.horizontals.len() - k,
        {
            horizontals.push(self.horizontals[k]);
            proof {
                assert(self.horizontals@.take(k + 1) == self.horizontals@.take(k as int).push(
                    self.horizontals[k as int],
                ));
            }
            k += 1;
        }
        let mut verticals: Vec<VerticalLine> = Vec::new();
        let mut j: usize = 0;
        while j < self.verticals.len()
            invariant
                j <= self.verticals.len(),
                verticals@ == self.verticals@.take(j as int),
            decreases self.verticals.len() - j,
        {
            verticals.push(self.verticals[j]);
            proof {
                assert(self.verticals@.take(j + 1) == self.verticals@.take(j as int).push(
                    self.verticals[j as int],
                ));
            }
            j += 1;
        }
        proof {
            assert(self.horizontals@.take(k as int) == self.horizontals@);
            assert(self.verticals@.take(j as int) == self.verticals@);
        }
        Style { borders: self.borders, horizontals, verticals }
    }

    /// Sets `c` on the top frame line, on its crossings with the lines that the
    /// style already draws, and where the line overrides meet it.
    pub fn top(self, c: char) -> (style: Style)
        ensures
            style@ == self@.top(c),
    {
        let mut style = self;
        style.borders = style.borders.set_top(c);
        set_in_verticals(&mut style.verticals, LineSlot::Start, Some(c));
        style
    }

    /// Turns off the top frame line: clears its filling and its crossings, also
    /// where the line overrides meet it.
    pub fn off_top(self) -> (style: Style)
        ensures
            style@ == self@.off_top(),
    {
        let mut style = self;
        style.borders = style.borders.clear_top();
        set_in_verticals(&mut style.verticals, LineSlot::Start, None);
        style
    }

    /// Sets `c` on the bottom frame line, on its crossings with the lines that the
    /// style already draws, and where the line overrides meet it.
    pub fn bottom(self, c: char) -> (style: Style)
        ensures
            style@ == self@.bottom(c),
    {
        let mut style = self;
        style.borders = style.borders.set_bottom(c);
        set_in_verticals(&mut style.verticals, LineSlot::End, Some(c));
        style
    }

    /// Turns off the bottom frame line: clears its filling and its crossings, also
    /// where the line overrides meet it.
    pub fn off_bottom(self) -> (style: Style)
        ensures
            style@ == self@.off_bottom(),
    {
        let mut style = self;
        style.borders = style.borders.clear_bottom();
        set_in_verticals(&mut style.verticals, LineSlot::End, None);
        style
    }

    /// Sets `c` on the left frame line, on its crossings with the lines that the
    /// style already draws, and where the line overrides meet it.
    pub fn left(self, c: char) -> (style: Style)
        ensures
            style@ == self@.left(c),
    {
        let mut style = self;
        style.borders = style.borders.set_left(c);
        set_in_horizontals(&mut style.horizontals, LineSlot::Start, Some(c));
        style
    }

    /// Turns off the left frame line: clears its filling and its crossings, also
    /// where the line overrides meet it.
    pub fn off_left(self) -> (style: Style)
        ensures
            style@ == self@.off_left(),
    {
        let mut style = self;
        style.borders = style.borders.clear_left();
        set_in_horizontals(&mut style.horizontals, LineSlot::Start, None);
        style
    }

    /// Sets `c` on the right frame line, on its crossings with the lines that the
    /// style already draws, and where the line overrides meet it.
    pub fn right(self, c: char) -> (style: Style)
        ensures
            style@ == self@.right(c),
    {
        let mut style = self;
        style.borders = style.borders.set_right(c);
        set_in_horizontals(&mut style.horizontals, LineSlot::End, Some(c));
        style
    }

    /// Turns off the right frame line: clears its filling and its crossings, also
    /// where the line overrides meet it.
    pub fn off_right(self) -> (style: Style)
        ensures
            style@ == self@.off_right(),
    {
        let mut style = self;
        style.borders = style.borders.clear_right();
        set_in_horizontals(&mut style.horizontals, LineSlot::End, None);
        style
    }

    /// Sets `c` on the lines between rows, on its crossings with the lines that the
    /// style already draws, and where the line overrides meet it.
    pub fn horizontal(self, c: char) -> (style: Style)
        ensures
            style@ == self@.horizontal(c),
    {
        let mut style = self;
        style.borders = style.borders.set_horizontal(c);
        set_in_verticals(&mut style.verticals, LineSlot::Intersection, Some(c));
        style
    }

    /// Turns off the lines between rows: clears its filling and its crossings, also
    /// where the line overrides meet it.
    pub fn off_horizontal(self) -> (style: Style)
        ensures
            style@ == self@.off_horizontal(),
    {
        let mut style = self;
        style.borders = style.borders.clear_horizontal();
        set_in_verticals(&mut style.verticals, LineSlot::Intersection, None);
        style
    }

    /// Sets `c` on the lines between columns, on its crossings with the lines
    /// that the style already draws, and where the line overrides meet it.
    pub fn vertical(self, c: char) -> (style: Style)
        ensures
            style@ == self@.vertical(c),
    {
        let mut style = self;
        style.borders = style.borders.set_vertical(c);
        set_in_horizontals(&mut style.horizontals, LineSlot::Intersection, Some(c));
        style
    }

    /// Turns off the lines between columns: clears its filling and its
    /// crossings, also where the line overrides meet it.
    pub fn off_vertical(self) -> (style: Style)
        ensures
            style@ == self@.off_vertical(),
    {
        let mut style = self;
        style.borders = style.borders.clear_vertical();
        set_in_horizontals(&mut style.horizontals, LineSlot::Intersection, None);
        style
    }

    /// Sets `c` on the top left corner.
    pub fn top_left_corner(self, c: char) -> (style: Style)
        ensures
            style@ == (StyleView {
                borders: Borders { top_left: Some(c), ..self@.borders },
                ..self@
            }),
    {
        let mut style = self;
        style.borders.top_left = Some(c);
        style
    }

    /// Sets `c` on the top right corner.
    pub fn top_right_corner(self, c: char) -> (style: Style)
        ensures
            style@ == (StyleView {
                borders: Borders { top_right: Some(c), ..self@.borders },
                ..self@
            }),
    {
        let mut style = self;
        style.borders.top_right = Some(c);
        style
    }

    /// Sets `c` on the bottom left corner.
    pub fn bottom_left_corner(self, c: char) -> (style: Style)
        ensures
            style@ == (StyleView {
                borders: Borders { bottom_left: Some(c), ..self@.borders },
                ..self@
            }),
    {
        let mut style = self;
        style.borders.bottom_left = Some(c);
        style
    }

    /// Sets `c` on the bottom right corner.
    pub fn bottom_right_corner(self, c: char) -> (style: Style)
        ensures
            style@ == (StyleView {
                borders: Borders { bottom_right: Some(c), ..self@.borders },
                ..self@
            }),
    {
        let mut style = self;
        style.borders.bottom_right = Some(c);
        style
    }

    /// Sets `c` on the crossings of the top frame line with the lines between
    /// columns.
    pub fn top_intersection(self, c: char) -> (style: Style)
        ensures
            style@ == (StyleView {
                borders: Borders { top_intersection: Some(c), ..self@.borders },
                ..self@
            }),
    {
        let mut style = self;
        style.borders.top_intersection = Some(c);
        style
    }

    /// Sets `c` on the crossings of the bottom frame line with the lines
    /// between columns.
    pub fn bottom_intersection(self, c: char) -> (style: Style)
        ensures
            style@ == (StyleView {
                borders: Borders { bottom_intersection: Some(c), ..self@.borders },
                ..self@
            }),
    {
        let mut style = self;
        style.borders.bottom_intersection = Some(c);
        style
    }

    /// Sets `c` on the crossings of the left frame line with the lines between rows.
    pub fn left_intersection(self, c: char) -> (style: Style)
        ensures
            style@ == (StyleView {
                borders: Borders { left_intersection: Some(c), ..self@.borders },
                ..self@
            }),
    {
        let mut style = self;
        style.borders.left_intersection = Some(c);
        style
    }

    /// Sets `c` on the crossings of the right frame line with the lines between rows.
    pub fn right_intersection(self, c: char) -> (style: Style)
        ensures
            style@ == (StyleView {
                borders: Borders { right_intersection: Some(c), ..self@.borders },
                ..self@
            }),
    {
        let mut style = self;
        style.borders.right_intersection = Some(c);
        style
    }

    /// Sets `c` on the crossings of the lines between rows with the lines
    /// between columns.
    pub fn inner_intersection(self, c: char) -> (style: Style)
        ensures
            style@ == (StyleView {
                borders: Borders { intersection: Some(c), ..self@.borders },
                ..self@
            }),
    {
        let mut style = self;
        style.borders.intersection = Some(c);
        style
    }

    /// Replaces the horizontal line overrides by `lines`.
    pub fn horizontals(self, lines: Vec<HorizontalLine>) -> (style: Style)
        ensures
            style@ == (StyleView { horizontals: lines@, ..self@ }),
    {
        let mut style = self;
        style.horizontals = lines;
        style
    }

    /// Replaces the vertical line overrides by `lines`.
    pub fn verticals(self, lines: Vec<VerticalLine>) -> (style: Style)
        ensures
            style@ == (StyleView { verticals: lines@, ..self@ }),
    {
        let mut style = self;
        style.verticals = lines;
        style
    }

    /// Removes the horizontal line overrides.
    pub fn off_horizontals(self) -> (style: Style)
        ensures
            style@ == (StyleView { horizontals: Seq::empty(), ..self@ }),
    {
        let mut style = self;
        style.horizontals = Vec::new();
        style
    }

    /// Removes the vertical line overrides.
    pub fn off_verticals(self) -> (style: Style)
        ensures
            style@ == (StyleView { verticals: Seq::empty(), ..self@ }),
    {
        let mut style = self;
        style.verticals = Vec::new();
        style
    }

    /// The line of the style that separates rows: its filling, its crossing
    /// with the lines between columns, and its ends on the left and right frame.
    pub fn get_horizontal(&self) -> (line: Line)
        ensures
            line == (Line {
                main: self.borders.horizontal,
                intersection: self.borders.intersection,
                start: self.borders.left_intersection,
                end: self.borders.right_intersection,
            }),
    {
        Line {
            main: self.borders.horizontal,
            intersection: self.borders.intersection,
            start: self.borders.left_intersection,
            end: self.borders.right_intersection,
        }
    }

    /// The line of the style that separates columns: its filling, its
    /// crossing with the lines between rows, and its ends on the top and
    /// bottom frame.
    pub fn get_vertical(&self) -> (line: Line)
        ensures
            line == (Line {
                main: self.borders.vertical,
                intersection: self.borders.intersection,
                start: self.borders.top_intersection,
                end: self.borders.bottom_intersection,
            }),
    {
        Line {
            main: self.borders.vertical,
            intersection: self.borders.intersection,
            start: self.borders.top_intersection,
            end: self.borders.bottom_intersection,
        }
    }

    /// The style with the borders given and no line override.
    pub fn of(borders: Borders) -> (style: Style)
        ensures
            style@ == (StyleView { borders, horizontals: Seq::empty(), verticals: Seq::empty() }),
    {
        Style { borders, horizontals: Vec::new(), verticals: Vec::new() }
    }

    /// The style with the borders given and one line under the first row.
    pub fn with_header(borders: Borders, line: Line) -> (style: Style)
        ensures
            style@ == (StyleView {
                borders,
                horizontals: seq![HorizontalLine { index: 1, line }],
                verticals: Seq::empty(),
            }),
    {
        let mut horizontals: Vec<HorizontalLine> = Vec::new();
        horizontals.push(HorizontalLine { index: 1, line });
        proof {
            assert(horizontals@ =~= seq![HorizontalLine { index: 1, line }]);
        }
        Style { borders, horizontals, verticals: Vec::new() }
    }

    /// The style that draws nothing.
    pub fn empty() -> (style: Style)
        ensures
            style@ == (StyleView {
                borders: Borders {
                    top: None,
                    bottom: None,
                    left: None,
                    right: None,
                    horizontal: None,
                    vertical: None,
                    top_left: None,
                    top_right: None,
                    bottom_left: None,
                    bottom_right: None,
                    top_intersection: None,
                    bottom_intersection: None,
                    left_intersection: None,
                    right_intersection: None,
                    intersection: None,
                },
                horizontals: Seq::empty(),
                verticals: Seq::empty(),
            }),
    {
        let borders = Borders {
            top: None,
            bottom: None,
            left: None,
            right: None,
            horizontal: None,
            vertical: None,
            top_left: None,
            top_right: None,
            bottom_left: None,
            bottom_right: None,
            top_intersection: None,
            bottom_intersection: None,
            left_intersection: None,
            right_intersection: None,
            intersection: None,
        };
        Style::of(borders)
    }

    /// The style that keeps the columns one blank apart.
    pub fn blank() -> (style: Style)
        ensures
            style@ == (StyleView {
                borders: Borders {
                    top: None,
                    bottom: None,
                    left: None,
                    right: None,
                    horizontal: None,
                    vertical: Some(' '),
                    top_left: None,
                    top_right: None,
                    bottom_left: None,
                    bottom_right: None,
                    top_intersection: None,
                    bottom_intersection: None,
                    left_intersection: None,
                    right_intersection: None,
                    intersection: None,
                },
                horizontals: Seq::empty(),
                verticals: Seq::empty(),
            }),
    {
        let borders = Borders {
            top: None,
            bottom: None,
            left: None,
            right: None,
            horizontal: None,
            vertical: Some(' '),
            top_left: None,
            top_right: None,
            bottom_left: None,
            bottom_right: None,
            top_intersection: None,
            bottom_intersection: None,
            left_intersection: None,
            right_intersection: None,
            intersection: None,
        };
        Style::of(borders)
    }

    /// The style drawn with `-`, `|` and `+`.
    pub fn ascii() -> (style: Style)
        ensures
            style@ == (StyleView {
                borders: Borders {
                    top: Some('-'),
                    bottom: Some('-'),
                    left: Some('|'),
                    right: Some('|'),
                    horizontal: Some('-'),
                    vertical: Some('|'),
                    top_left: Some('+'),
                    top_right: Some('+'),
                    bottom_left: Some('+'),
                    bottom_right: Some('+'),
                    top_intersection: Some('+'),
                    bottom_intersection: Some('+'),
                    left_intersection: Some('+'),
                    right_intersection: Some('+'),
                    intersection: Some('+'),
                },
                horizontals: Seq::empty(),
                verticals: Seq::empty(),
            }),
    {
        let borders = Borders {
            top: Some('-'),
            bottom: Some('-'),
            left: Some('|'),
            right: Some('|'),
            horizontal: Some('-'),
            vertical: Some('|'),
            top_left: Some('+'),
            top_right: Some('+'),
            bottom_left: Some('+'),
            bottom_right: Some('+'),
            top_intersection: Some('+'),
            bottom_intersection: Some('+'),
            left_intersection: Some('+'),
            right_intersection: Some('+'),
            intersection: Some('+'),
        };
        Style::of(borders)
    }

    /// The style with lines between the columns and one line under the first row.
    pub fn psql() -> (style: Style)
        ensures
            style@ == (StyleView {
                borders: Borders {
                    top: None,
                    bottom: None,
                    left: None,
                    right: None,
                    horizontal: None,
                    vertical: Some('|'),
                    top_left: None,
                    top_right: None,
                    bottom_left: None,
                    bottom_right: None,
                    top_intersection: None,
                    bottom_intersection: None,
                    left_intersection: None,
                    right_intersection: None,
                    intersection: None,
                },
                horizontals: seq![
                    HorizontalLine {
                        index: 1,
                        line: Line {
                            main: Some('-'),
                            intersection: Some('+'),
                            start: None,
                            end: None,
                        },
                    },
                ],
                verticals: Seq::empty(),
            }),
    {
        let borders = Borders {
            top: None,
            bottom: None,
            left: None,
            right: None,
            horizontal: None,
            vertical: Some('|'),
            top_left: None,
            top_right: None,
            bottom_left: None,
            bottom_right: None,
            top_intersection: None,
            bottom_intersection: None,
            left_intersection: None,
            right_intersection: None,
            intersection: None,
        };
        Style::with_header(
            borders,
            Line {
                main: Some('-'),
                intersection: Some('+'),
                start: None,
                end: None,
            },
        )
    }

    /// The style of a table in Markdown.
    pub fn markdown() -> (style: Style)
        ensures
            style@ == (StyleView {
                borders: Borders {
                    top: None,
                    bottom: None,
                    left: Some('|'),
                    right: Some('|'),
                    horizontal: None,
                    vertical: Some('|'),
                    top_left: None,
                    top_right: None,
                    bottom_left: None,
                    bottom_right: None,
                    top_intersection: None,
                    bottom_intersection: None,
                    left_intersection: None,
                    right_intersection: None,
                    intersection: None,
                },
                horizontals: seq![
                    HorizontalLine {
                        index: 1,
                        line: Line {
                            main: Some('-'),
                            intersection: Some('|'),
                            start: Some('|'),
                            end: Some('|'),
                        },
                    },
                ],
                verticals: Seq::empty(),
            }),
    {
        let borders = Borders {
            top: None,
            bottom: None,
            left: Some('|'),
            right: Some('|'),
            horizontal: None,
            vertical: Some('|'),
            top_left: None,
            top_right: None,
            bottom_left: None,
            bottom_right: None,
            top_intersection: None,
            bottom_intersection: None,
            left_intersection: None,
            right_intersection: None,
            intersection: None,
        };
        Style::with_header(
            borders,
            Line {
                main: Some('-'),
                intersection: Some('|'),
                start: Some('|'),
                end: Some('|'),
            },
        )
    }

    /// The style drawn with box-drawing characters, with a line between every
    /// two rows.
    pub fn modern() -> (style: Style)
        ensures
            style@ == (StyleView {
                borders: Borders {
                    top: Some('─'),
                    bottom: Some('─'),
                    left: Some('│'),
                    right: Some('│'),
                    horizontal: Some('─'),
                    vertical: Some('│'),
                    top_left: Some('┌'),
                    top_right: Some('┐'),
                    bottom_left: Some('└'),
                    bottom_right: Some('┘'),
                    top_intersection: Some('┬'),
                    bottom_intersection: Some('┴'),
                    left_intersection: Some('├'),
                    right_intersection: Some('┤'),
                    intersection: Some('┼'),
                },
                horizontals: Seq::empty(),
                verticals: Seq::empty(),
            }),
    {
        let borders = Borders {
            top: Some('─'),
            bottom: Some('─'),
            left: Some('│'),
            right: Some('│'),
            horizontal: Some('─'),
            vertical: Some('│'),
            top_left: Some('┌'),
            top_right: Some('┐'),
            bottom_left: Some('└'),
            bottom_right: Some('┘'),
            top_intersection: Some('┬'),
            bottom_intersection: Some('┴'),
            left_intersection: Some('├'),
            right_intersection: Some('┤'),
            intersection: Some('┼'),
        };
        Style::of(borders)
    }

    /// The style drawn with box-drawing characters and rounded corners, with
    /// one line under the first row.
    pub fn rounded() -> (style: Style)
        ensures
            style@ == (StyleView {
                borders: Borders {
                    top: Some('─'),
                    bottom: Some('─'),
                    left: Some('│'),
                    right: Some('│'),
                    horizontal: None,
                    vertical: Some('│'),
                    top_left: Some('╭'),
                    top_right: Some('╮'),
                    bottom_left: Some('╰'),
                    bottom_right: Some('╯'),
                    top_intersection: Some('┬'),
                    bottom_intersection: Some('┴'),
                    left_intersection: None,
                    right_intersection: None,
                    intersection: None,
                },
                horizontals: seq![
                    HorizontalLine {
                        index: 1,
                        line: Line {
                            main: Some('─'),
                            intersection: Some('┼'),
                            start: Some('├'),
                            end: Some('┤'),
                        },
                    },
                ],
                verticals: Seq::empty(),
            }),
    {
        let borders = Borders {
            top: Some('─'),
            bottom: Some('─'),
            left: Some('│'),
            right: Some('│'),
            horizontal: None,
            vertical: Some('│'),
            top_left: Some('╭'),
            top_right: Some('╮'),
            bottom_left: Some('╰'),
            bottom_right: Some('╯'),
            top_intersection: Some('┬'),
            bottom_intersection: Some('┴'),
            left_intersection: None,
            right_intersection: None,
            intersection: None,
        };
        Style::with_header(
            borders,
            Line {
                main: Some('─'),
                intersection: Some('┼'),
                start: Some('├'),
                end: Some('┤'),
            },
        )
    }

    /// The style drawn with double box-drawing characters.
    pub fn extended() -> (style: Style)
        ensures
            style@ == (StyleView {
                borders: Borders {
                    top: Some('═'),
                    bottom: Some('═'),
                    left: Some('║'),
                    right: Some('║'),
                    horizontal: Some('═'),
                    vertical: Some('║'),
                    top_left: Some('╔'),
                    top_right: Some('╗'),
                    bottom_left: Some('╚'),
                    bottom_right: Some('╝'),
                    top_intersection: Some('╦'),
                    bottom_intersection: Some('╩'),
                    left_intersection: Some('╠'),
                    right_intersection: Some('╣'),
                    intersection: Some('╬'),
                },
                horizontals: Seq::empty(),
                verticals: Seq::empty(),
            }),
    {
        let borders = Borders {
            top: Some('═'),
            bottom: Some('═'),
            left: Some('║'),
            right: Some('║'),
            horizontal: Some('═'),
            vertical: Some('║'),
            top_left: Some('╔'),
            top_right: Some('╗'),
            bottom_left: Some('╚'),
            bottom_right: Some('╝'),
            top_intersection: Some('╦'),
            bottom_intersection: Some('╩'),
            left_intersection: Some('╠'),
            right_intersection: Some('╣'),
            intersection: Some('╬'),
        };
        Style::of(borders)
    }

    /// The style drawn with dots and colons.
    pub fn dots() -> (style: Style)
        ensures
            style@ == (StyleView {
                borders: Borders {
                    top: Some('.'),
                    bottom: Some('.'),
                    left: Some(':'),
                    right: Some(':'),
                    horizontal: Some('.'),
                    vertical: Some(':'),
                    top_left: Some('.'),
                    top_right: Some('.'),
                    bottom_left: Some(':'),
                    bottom_right: Some(':'),
                    top_intersection: Some('.'),
                    bottom_intersection: Some(':'),
                    left_intersection: Some(':'),
                    right_intersection: Some(':'),
                    intersection: Some(':'),
                },
                horizontals: Seq::empty(),
                verticals: Seq::empty(),
            }),
    {
        let borders = Borders {
            top: Some('.'),
            bottom: Some('.'),
            left: Some(':'),
            right: Some(':'),
            horizontal: Some('.'),
            vertical: Some(':'),
            top_left: Some('.'),
            top_right: Some('.'),
            bottom_left: Some(':'),
            bottom_right: Some(':'),
            top_intersection: Some('.'),
            bottom_intersection: Some(':'),
            left_intersection: Some(':'),
            right_intersection: Some(':'),
            intersection: Some(':'),
        };
        Style::of(borders)
    }

    /// The style of a simple table in reStructuredText.
    pub fn re_structured_text() -> (style: Style)
        ensures
            style@ == (StyleView {
                borders: Borders {
                    top: Some('='),
                    bottom: Some('='),
                    left: None,
                    right: None,
                    horizontal: None,
                    vertical: Some(' '),
                    top_left: None,
                    top_right: None,
                    bottom_left: None,
                    bottom_right: None,
                    top_intersection: Some(' '),
                    bottom_intersection: Some(' '),
                    left_intersection: None,
                    right_intersection: None,
                    intersection: None,
                },
                horizontals: seq![
                    HorizontalLine {
                        index: 1,
                        line: Line {
                            main: Some('='),
                            intersection: Some(' '),
                            start: None,
                            end: None,
                        },
                    },
                ],
                verticals: Seq::empty(),
            }),
    {
        let borders = Borders {
            top: Some('='),
            bottom: Some('='),
            left: None,
            right: None,
            horizontal: None,
            vertical: Some(' '),
            top_left: None,
            top_right: None,
            bottom_left: None,
            bottom_right: None,
            top_intersection: Some(' '),
            bottom_intersection: Some(' '),
            left_intersection: None,
            right_intersection: None,
            intersection: None,
        };
        Style::with_header(
            borders,
            Line {
                main: Some('='),
                intersection: Some(' '),
                start: None,
                end: None,
            },
        )
    }

    /// The style drawn with `-` and `|`, with `.` and `'` for corners.
    pub fn ascii_rounded() -> (style: Style)
        ensures
            style@ == (StyleView {
                borders: Borders {
                    top: Some('-'),
                    bottom: Some('-'),
                    left: Some('|'),
                    right: Some('|'),
                    horizontal: None,
                    vertical: Some('|'),
                    top_left: Some('.'),
                    top_right: Some('.'),
                    bottom_left: Some('\''),
                    bottom_right: Some('\''),
                    top_intersection: Some('-'),
                    bottom_intersection: Some('-'),
                    left_intersection: None,
                    right_intersection: None,
                    intersection: None,
                },
                horizontals: Seq::empty(),
                verticals: Seq::empty(),
            }),
    {
        let borders = Borders {
            top: Some('-'),
            bottom: Some('-'),
            left: Some('|'),
            right: Some('|'),
            horizontal: None,
            vertical: Some('|'),
            top_left: Some('.'),
            top_right: Some('.'),
            bottom_left: Some('\''),
            bottom_right: Some('\''),
            top_intersection: Some('-'),
            bottom_intersection: Some('-'),
            left_intersection: None,
            right_intersection: None,
            intersection: None,
        };
        Style::of(borders)
    }

}

} // verus!
