//! A screen as coloured cells.

use crate::input::Rect;
use vstd::prelude::*;

verus! {

/// A colour of a terminal.
#[derive(Clone, Copy, PartialEq, Eq, Structural, Debug)]
pub enum Color {
    /// The terminal's own.
    Reset,
    Black,
    Red,
    Green,
    Yellow,
    Blue,
    Magenta,
    Cyan,
    Gray,
    DarkGray,
    LightRed,
    LightGreen,
    LightYellow,
    LightBlue,
    LightMagenta,
    LightCyan,
    White,
    Rgb(u8, u8, u8),
    Indexed(u8),
}

/// How the text of a cell is shown.
#[derive(Clone, Copy, PartialEq, Eq, Structural, Debug)]
pub struct Modifiers {
    pub bold: bool,
    pub dim: bool,
    pub italic: bool,
    pub underlined: bool,
    pub slow_blink: bool,
    pub rapid_blink: bool,
    pub reversed: bool,
    pub invisible: bool,
    pub crossed_out: bool,
}

impl Modifiers {
    /// Plain text.
    pub open spec fn spec_plain() -> Modifiers {
        Modifiers {
            bold: false,
            dim: false,
            italic: false,
            underlined: false,
            slow_blink: false,
            rapid_blink: false,
            reversed: false,
            invisible: false,
            crossed_out: false,
        }
    }

    /// Plain text.
    pub fn plain() -> (m: Modifiers)
        ensures
            m == Modifiers::spec_plain(),
    {
        Modifiers {
            bold: false,
            dim: false,
            italic: false,
            underlined: false,
            slow_blink: false,
            rapid_blink: false,
            reversed: false,
            invisible: false,
            crossed_out: false,
        }
    }
}

/// A cell: what it shows, and how. The second half of a wide character shows nothing.
#[derive(Debug)]
pub struct StyledCell {
    pub symbol: String,
    pub fg: Color,
    pub bg: Color,
    pub modifiers: Modifiers,
}

/// A rectangle of cells, row by row.
#[derive(Debug)]
pub struct CellBuffer {
    pub area: Rect,
    pub cells: Vec<StyledCell>,
}

impl CellBuffer {
    /// Whether there are just as many cells as the rectangle has.
    pub open spec fn wf(self) -> bool {
        self.cells@.len() == self.area.width * self.area.height
    }

    /// Whether the cell at a position among all cells lies in a rectangle.
    pub open spec fn cell_in(self, i: int, area: Rect) -> bool {
        let column = self.area.x + i % (self.area.width as int);
        let row = self.area.y + i / (self.area.width as int);
        &&& area.x <= column < Rect::edge(area.x, area.width)
        &&& area.y <= row < Rect::edge(area.y, area.height)
    }

    /// Whether the cell at a position among all cells lies in a rectangle.
    pub fn is_cell_in(&self, i: usize, area: Rect) -> (r: bool)
        requires
            self.area.width > 0,
            i < self.cells@.len(),
            self.wf(),
        ensures
            r == self.cell_in(i as int, area),
    {
        let width: usize = self.area.width as usize;
        let column: usize = i % width;
        let row: usize = i / width;
        assert(row < self.area.height) by (nonlinear_arith)
            requires
                row == i / width,
                width == self.area.width,
                width > 0,
                i < self.area.width * self.area.height,
        ;
        let x: u32 = self.area.x as u32 + column as u32;
        let y: u32 = self.area.y as u32 + row as u32;
        x >= area.x as u32 && x < area.x.saturating_add(area.width) as u32 && y >= area.y as u32 && y
            < area.y.saturating_add(area.height) as u32
    }
}

} // verus!
