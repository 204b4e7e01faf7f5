//! Padding and alignment of cell content.

use vstd::prelude::*;

verus! {

/// Space kept around the content of every cell, in characters (left,
/// right) and lines (top, bottom), and the character that fills it.
#[derive(Debug, Clone, Copy, PartialEq, Eq, Structural)]
pub struct Padding {
    pub left: usize,
    pub right: usize,
    pub top: usize,
    pub bottom: usize,
    pub fill: char,
}

impl Padding {
    /// The same padding filled with `fill`.
    pub fn filled_with(self, fill: char) -> (padding: Self)
        ensures
            padding == (Padding { fill, ..self }),
    {
        Padding { left: self.left, right: self.right, top: self.top, bottom: self.bottom, fill }
    }

    /// A padding with the four sizes given, filled with blanks.
    pub fn new(left: usize, right: usize, top: usize, bottom: usize) -> (padding: Self)
        ensures
            padding == (Padding { left, right, top, bottom, fill: ' ' }),
    {
        Padding { left, right, top, bottom, fill: ' ' }
    }

    /// No padding on any side.
    pub fn zero() -> (padding: Self)
        ensures
            padding == (Padding { left: 0, right: 0, top: 0, bottom: 0, fill: ' ' }),
    {
        Padding { left: 0, right: 0, top: 0, bottom: 0, fill: ' ' }
    }
}

impl Default for Padding {
    /// One blank character on the left and on the right, none above or below.
    fn default() -> (padding: Self)
        ensures
            padding == (Padding { left: 1, right: 1, top: 0, bottom: 0, fill: ' ' }),
    {
        Padding { left: 1, right: 1, top: 0, bottom: 0, fill: ' ' }
    }
}

/// Where a line of content stands within the width left to it.
#[derive(Debug, Clone, Copy, PartialEq, Eq, Structural)]
pub enum AlignmentHorizontal {
    Left,
    Center,
    Right,
}

/// Where the lines of a cell stand within the height left to them.
#[derive(Debug, Clone, Copy, PartialEq, Eq, Structural)]
pub enum AlignmentVertical {
    Top,
    Center,
    Bottom,
}

/// What the horizontal alignment of a cell with several lines goes by.
#[derive(Debug, Clone, Copy, PartialEq, Eq, Structural)]
pub enum AlignmentStrategy {
    /// Every line is aligned by its own length.
    PerLine,
    /// All lines start where the longest of them starts: the lines are
    /// aligned as one block.
    PerCell,
}

/// An alignment along one of the two axes.
#[derive(Debug, Clone, Copy, PartialEq, Eq, Structural)]
pub enum Alignment {
    Horizontal(AlignmentHorizontal),
    Vertical(AlignmentVertical),
}

impl Alignment {
    /// Content starts at the left edge.
    pub fn left() -> (a: Self)
        ensures
            a == Alignment::Horizontal(AlignmentHorizontal::Left),
    {
        Alignment::Horizontal(AlignmentHorizontal::Left)
    }

    /// Content ends at the right edge.
    pub fn right() -> (a: Self)
        ensures
            a == Alignment::Horizontal(AlignmentHorizontal::Right),
    {
        Alignment::Horizontal(AlignmentHorizontal::Right)
    }

    /// Content stands in the middle of the width.
    pub fn center() -> (a: Self)
        ensures
            a == Alignment::Horizontal(AlignmentHorizontal::Center),
    {
        Alignment::Horizontal(AlignmentHorizontal::Center)
    }

    /// Content starts at the top edge.
    pub fn top() -> (a: Self)
        ensures
            a == Alignment::Vertical(AlignmentVertical::Top),
    {
        Alignment::Vertical(AlignmentVertical::Top)
    }

    /// Content ends at the bottom edge.
    pub fn bottom() -> (a: Self)
        ensures
            a == Alignment::Vertical(AlignmentVertical::Bottom),
    {
        Alignment::Vertical(AlignmentVertical::Bottom)
    }

    /// Content stands in the middle of the height.
    pub fn center_vertical() -> (a: Self)
        ensures
            a == Alignment::Vertical(AlignmentVertical::Center),
    {
        Alignment::Vertical(AlignmentVertical::Center)
    }
}

/// The blank space put before content that leaves `spare` positions free:
/// none when it starts at the edge, all of it when it ends at the far edge,
/// and half of it, rounded down, when it is centred.
pub open spec fn lead_horizontal(align: AlignmentHorizontal, spare: int) -> int {
    match align {
        AlignmentHorizontal::Left => 0,
        AlignmentHorizontal::Center => spare / 2,
        AlignmentHorizontal::Right => spare,
    }
}

/// The same as [`lead_horizontal`], for lines above the content.
pub open spec fn lead_vertical(align: AlignmentVertical, spare: int) -> int {
    match align {
        AlignmentVertical::Top => 0,
        AlignmentVertical::Center => spare / 2,
        AlignmentVertical::Bottom => spare,
    }
}

/// Computes [`lead_horizontal`].
pub fn leading_columns(align: AlignmentHorizontal, spare: usize) -> (lead: usize)
    ensures
        lead == lead_horizontal(align, spare as int),
        lead <= spare,
{
    match align {
        AlignmentHorizontal::Left => 0,
        AlignmentHorizontal::Center => spare / 2,
        AlignmentHorizontal::Right => spare,
    }
}

/// Computes [`lead_vertical`].
pub fn leading_lines(align: AlignmentVertical, spare: usize) -> (lead: usize)
    ensures
        lead == lead_vertical(align, spare as int),
        lead <= spare,
{
    match align {
        AlignmentVertical::Top => 0,
        AlignmentVertical::Center => spare / 2,
        AlignmentVertical::Bottom => spare,
    }
}

} // verus!
