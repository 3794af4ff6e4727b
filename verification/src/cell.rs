//! Character cells and their colours, as held in a terminal grid.

use vstd::prelude::*;

verus! {

/// Terminal cell color.
#[derive(Debug, Clone, Copy, PartialEq, Eq, Structural)]
pub enum CellColor {
    Default,
    Idx(u8),
    Rgb(u8, u8, u8),
}

/// A single character cell in the terminal grid.
#[derive(Debug, Clone, Copy, PartialEq, Eq, Structural)]
pub struct Cell {
    pub ch: char,
    pub fg: CellColor,
    pub bg: CellColor,
    pub bold: bool,
    pub dim: bool,
    pub italic: bool,
    pub underline: bool,
    pub inverse: bool,
    /// This cell is the trailing column of a wide (CJK) character.
    pub wide_continuation: bool,
}

/// The blank cell: a space in default colours with no attributes.
pub open spec fn blank_cell() -> Cell {
    Cell {
        ch: ' ',
        fg: CellColor::Default,
        bg: CellColor::Default,
        bold: false,
        dim: false,
        italic: false,
        underline: false,
        inverse: false,
        wide_continuation: false,
    }
}

impl Cell {
    /// The blank cell (what `Default` gives).
    pub fn blank() -> (c: Cell)
        ensures
            c == blank_cell(),
    {
        Cell {
            ch: ' ',
            fg: CellColor::Default,
            bg: CellColor::Default,
            bold: false,
            dim: false,
            italic: false,
            underline: false,
            inverse: false,
            wide_continuation: false,
        }
    }
}

impl Default for Cell {
    fn default() -> (c: Cell)
        ensures
            c == blank_cell(),
    {
        Cell::blank()
    }
}

} // verus!

verus! {

/// Current text attributes applied to new characters.
#[derive(Debug, Clone, Copy, PartialEq, Eq, Structural)]
pub struct Attrs {
    pub fg: CellColor,
    pub bg: CellColor,
    pub bold: bool,
    pub dim: bool,
    pub italic: bool,
    pub underline: bool,
    pub inverse: bool,
}

/// Default colours, no attributes.
pub open spec fn default_attrs() -> Attrs {
    Attrs {
        fg: CellColor::Default,
        bg: CellColor::Default,
        bold: false,
        dim: false,
        italic: false,
        underline: false,
        inverse: false,
    }
}

impl Attrs {
    pub fn plain() -> (a: Attrs)
        ensures
            a == default_attrs(),
    {
        Attrs {
            fg: CellColor::Default,
            bg: CellColor::Default,
            bold: false,
            dim: false,
            italic: false,
            underline: false,
            inverse: false,
        }
    }
}

impl Default for Attrs {
    fn default() -> (a: Attrs)
        ensures
            a == default_attrs(),
    {
        Attrs::plain()
    }
}

/// The cell that printing `ch` with attributes `a` writes.
pub open spec fn attr_cell(ch: char, a: Attrs) -> Cell {
    Cell {
        ch,
        fg: a.fg,
        bg: a.bg,
        bold: a.bold,
        dim: a.dim,
        italic: a.italic,
        underline: a.underline,
        inverse: a.inverse,
        wide_continuation: false,
    }
}

/// The blank cell that stands in the second column of a wide character.
pub open spec fn continuation_cell() -> Cell {
    Cell { wide_continuation: true, ..blank_cell() }
}

/// The low eight bits of a parameter.
pub open spec fn low_byte(x: u16) -> u8 {
    (x % 256) as u8
}

/// An extended colour (`5;n` or `2;r;g;b`) read from `params` at position
/// `k`, and the position after it (the end of the parameters when they stop
/// short of a colour).
pub open spec fn extended_color(params: Seq<u16>, k: int) -> (CellColor, int) {
    if k >= params.len() {
        (CellColor::Default, k)
    } else if params[k] == 5 {
        if k + 1 < params.len() {
            (CellColor::Idx(low_byte(params[k + 1])), k + 2)
        } else {
            (CellColor::Default, params.len() as int)
        }
    } else if params[k] == 2 {
        if k + 3 < params.len() {
            (
                CellColor::Rgb(low_byte(params[k + 1]), low_byte(params[k + 2]), low_byte(params[k + 3])),
                k + 4,
            )
        } else {
            (CellColor::Default, params.len() as int)
        }
    } else {
        (CellColor::Default, k + 1)
    }
}

/// The attributes after the SGR parameters from position `i` on.
pub open spec fn sgr_from(a: Attrs, params: Seq<u16>, i: int) -> Attrs
    decreases params.len() + 4 - i,
{
    if i < 0 || i >= params.len() {
        a
    } else {
        let p = params[i];
        if p == 38 {
            let (c, j) = extended_color(params, i + 1);
            sgr_from(Attrs { fg: c, ..a }, params, j)
        } else if p == 48 {
            let (c, j) = extended_color(params, i + 1);
            sgr_from(Attrs { bg: c, ..a }, params, j)
        } else {
            sgr_from(sgr_one(a, p), params, i + 1)
        }
    }
}

/// The attributes after one SGR parameter other than 38 and 48.
pub open spec fn sgr_one(a: Attrs, p: u16) -> Attrs {
    if p == 0 {
        default_attrs()
    } else if p == 1 {
        Attrs { bold: true, ..a }
    } else if p == 2 {
        Attrs { dim: true, ..a }
    } else if p == 3 {
        Attrs { italic: true, ..a }
    } else if p == 4 {
        Attrs { underline: true, ..a }
    } else if p == 7 {
        Attrs { inverse: true, ..a }
    } else if p == 22 {
        Attrs { bold: false, dim: false, ..a }
    } else if p == 23 {
        Attrs { italic: false, ..a }
    } else if p == 24 {
        Attrs { underline: false, ..a }
    } else if p == 27 {
        Attrs { inverse: false, ..a }
    } else if 30 <= p && p <= 37 {
        Attrs { fg: CellColor::Idx((p - 30) as u8), ..a }
    } else if p == 39 {
        Attrs { fg: CellColor::Default, ..a }
    } else if 40 <= p && p <= 47 {
        Attrs { bg: CellColor::Idx((p - 40) as u8), ..a }
    } else if p == 49 {
        Attrs { bg: CellColor::Default, ..a }
    } else if 90 <= p && p <= 97 {
        Attrs { fg: CellColor::Idx((p - 90 + 8) as u8), ..a }
    } else if 100 <= p && p <= 107 {
        Attrs { bg: CellColor::Idx((p - 100 + 8) as u8), ..a }
    } else {
        a
    }
}

/// The attributes after a select-graphic-rendition sequence: no parameters
/// reset them.
pub open spec fn sgr(a: Attrs, params: Seq<u16>) -> Attrs {
    if params.len() == 0 {
        default_attrs()
    } else {
        sgr_from(a, params, 0)
    }
}

} // verus!
