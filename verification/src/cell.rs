//! Character cells of the terminal grid: a color, a style attribute set,
//! and one cell holding a character together with its attributes.

use vstd::prelude::*;

verus! {

/// A terminal color: the default for its slot, one of the 256 indexed
/// colors, or a 24-bit truecolor value.
#[derive(Clone, Copy, PartialEq, Eq, Structural, Debug)]
pub enum TermColor {
    Default,
    Indexed(u8),
    Rgb(u8, u8, u8),
}

/// The rendition attributes a cell is drawn with.
#[derive(Clone, Copy, PartialEq, Eq, Structural, Debug)]
pub struct CellAttr {
    pub fg: TermColor,
    pub bg: TermColor,
    pub bold: bool,
    pub italic: bool,
    pub underline: bool,
    pub inverse: bool,
}

/// The attribute set of untouched cells: default colors, no styles.
pub open spec fn default_attr() -> CellAttr {
    CellAttr {
        fg: TermColor::Default,
        bg: TermColor::Default,
        bold: false,
        italic: false,
        underline: false,
        inverse: false,
    }
}

impl Default for CellAttr {
    fn default() -> (r: Self)
        ensures
            r == default_attr(),
    {
        CellAttr {
            fg: TermColor::Default,
            bg: TermColor::Default,
            bold: false,
            italic: false,
            underline: false,
            inverse: false,
        }
    }
}

/// One cell of the grid: a character and the attributes it was printed with.
#[derive(Clone, Copy, PartialEq, Eq, Structural, Debug)]
pub struct Cell {
    pub c: char,
    pub attr: CellAttr,
}

/// The value of untouched cells: a space with default attributes.
pub open spec fn blank_cell() -> Cell {
    Cell { c: ' ', attr: default_attr() }
}

impl Default for Cell {
    fn default() -> (r: Self)
        ensures
            r == blank_cell(),
    {
        Cell { c: ' ', attr: CellAttr::default() }
    }
}

/// The bold variant of an indexed color: the first eight indexed colors
/// brighten to their counterparts eight places up; everything else is kept.
pub open spec fn spec_effective_fg_index(idx: u8, bold: bool) -> u8 {
    if bold && idx < 8 {
        (idx + 8) as u8
    } else {
        idx
    }
}

/// The color index a bold cell is actually drawn with.
pub fn effective_fg_index(idx: u8, bold: bool) -> (r: u8)
    ensures
        r == spec_effective_fg_index(idx, bold),
{
    if bold && idx < 8 {
        idx + 8
    } else {
        idx
    }
}

/// The red/green/blue value of one of the 256 indexed colors beyond the
/// base sixteen: indices 16..=231 form a 6x6x6 color cube, and 232..=255 a
/// 24-step grayscale ramp. The base sixteen are theme-defined and left to
/// the presentation layer; for them this returns the cube origin pattern.
pub open spec fn spec_cube_component(n: u8) -> u8 {
    if n > 0 {
        (55 + n * 40) as u8
    } else {
        0
    }
}

/// The 24-bit value of an extended indexed color (index 16 and up).
pub fn extended_indexed_rgb(idx: u8) -> (rgb: (u8, u8, u8))
    requires
        idx >= 16,
    ensures
        idx <= 231 ==> rgb == (
            spec_cube_component(((idx - 16) / 36) as u8),
            spec_cube_component((((idx - 16) % 36) / 6) as u8),
            spec_cube_component(((idx - 16) % 6) as u8),
        ),
        idx >= 232 ==> rgb == (
            (8 + (idx - 232) * 10) as u8,
            (8 + (idx - 232) * 10) as u8,
            (8 + (idx - 232) * 10) as u8,
        ),
{
    if idx <= 231 {
        let n = idx - 16;
        let r_comp = n / 36;
        let g_comp = (n % 36) / 6;
        let b_comp = n % 6;
        let r = if r_comp > 0 { 55 + r_comp * 40 } else { 0 };
        let g = if g_comp > 0 { 55 + g_comp * 40 } else { 0 };
        let b = if b_comp > 0 { 55 + b_comp * 40 } else { 0 };
        (r, g, b)
    } else {
        let v = 8 + (idx - 232) * 10;
        (v, v, v)
    }
}

} // verus!
