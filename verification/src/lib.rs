//! A text-table grid engine: it lays out a matrix of cells, composes the
//! borders around them and writes the drawing out as text, with every
//! function verified against its contract.
//!
//! - [`matrix`]: the cells, with multi-line content and spans.
//! - [`style`], [`settings`], [`grid`]: border characters, padding,
//!   alignment, and the grid that holds them with a matrix.
//! - [`plan`]: which border lines are drawn, and the character at every
//!   place of the borders.
//! - [`dimension`]: the widths of the columns and the heights of the rows.
//! - [`render`]: the drawing, line by line.
//! - [`color`], [`tint`]: colours, and the text of the drawing with the
//!   colours written out.
//! - [`nested`]: tables of nested values, drawn inside one another or
//!   collapsed into one grid.
//! - [`shape`], [`frame`], [`laws`], [`mesh`]: what holds of every drawing.
//! - [`text`]: strings as sequences of characters and lines.

pub mod color;
pub mod dimension;
pub mod frame;
pub mod grid;
pub mod laws;
pub mod matrix;
pub mod mesh;
pub mod nested;
pub mod plan;
pub mod render;
pub mod settings;
pub mod shape;
pub mod style;
pub mod text;
pub mod tint;
