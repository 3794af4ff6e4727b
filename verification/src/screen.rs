//! Minimal VT100/xterm screen emulator: the grid of cells that the bytes
//! from a pseudo-terminal draw.

use vstd::prelude::*;
use crate::cell::{Attrs, Cell, CellColor, sgr, sgr_from, sgr_one, extended_color};
use crate::grid::{grid_view, blank_row, new_blank_cell, new_blank_grid, new_blank_row, set_cell, set_row, remove_row, insert_row, push_row, blank_rows, row_blank_between, row_delete_chars, row_insert_chars, row_fit, blank_from, blank_through, blank_all_rows};
use crate::model::{ParseState, ScreenView, fit_grid, dec1, clamp_to, cell_at, cursor_report, device_attributes};
use crate::parse::{parse_csi_params, push_decimal};
use crate::utf8::decode_utf8_char;
use crate::width::display_width;

verus! {

/// Minimal VT100/xterm screen emulator.
pub struct Screen {
    rows: u16,
    cols: u16,
    grid: Vec<Vec<Cell>>,
    cursor_row: u16,
    cursor_col: u16,
    attrs: Attrs,
    saved_cursor: Option<(u16, u16, Attrs)>,
    scroll_top: u16,
    scroll_bottom: u16,
    /// Alternate screen buffer (for vim, htop, etc.)
    alt_grid: Option<Vec<Vec<Cell>>>,
    alt_cursor: Option<(u16, u16)>,
    alt_attrs: Option<Attrs>,
    /// Whether to auto-wrap at right margin.
    autowrap: bool,
    /// A character was placed at the last column; next printable wraps.
    pending_wrap: bool,
    /// Cursor visible flag (`?25h` / `?25l`).
    pub cursor_visible: bool,
    /// Parser state.
    state: ParseState,
    /// Accumulator for CSI parameter bytes.
    csi_buf: Vec<u8>,
    /// Partial UTF-8 bytes.
    utf8_buf: Vec<u8>,
    /// Response bytes to write back to the PTY (e.g. cursor-position report).
    pub responses: Vec<Vec<u8>>,
    /// Scrollback buffer — lines that scrolled off the top.
    scrollback: Vec<Vec<Cell>>,
    /// How many lines the user has scrolled back (0 = live view).
    pub scroll_offset: usize,
    /// Max scrollback lines kept.
    scrollback_limit: usize,
}

/// The view of an optional grid.
pub open spec fn opt_grid_view(g: Option<Vec<Vec<Cell>>>) -> Option<Seq<Seq<Cell>>> {
    match g {
        Some(v) => Some(grid_view(v@)),
        None => None,
    }
}

/// The view of a list of byte strings.
pub open spec fn bytes_list_view(v: Seq<Vec<u8>>) -> Seq<Seq<u8>> {
    v.map_values(|r: Vec<u8>| r@)
}

impl View for Screen {
    type V = ScreenView;

    closed spec fn view(&self) -> ScreenView {
        ScreenView {
            rows: self.rows,
            cols: self.cols,
            grid: grid_view(self.grid@),
            cursor_row: self.cursor_row,
            cursor_col: self.cursor_col,
            attrs: self.attrs,
            saved_cursor: self.saved_cursor,
            scroll_top: self.scroll_top,
            scroll_bottom: self.scroll_bottom,
            alt_grid: opt_grid_view(self.alt_grid),
            alt_cursor: self.alt_cursor,
            alt_attrs: self.alt_attrs,
            autowrap: self.autowrap,
            pending_wrap: self.pending_wrap,
            cursor_visible: self.cursor_visible,
            state: self.state,
            csi_buf: self.csi_buf@,
            utf8_buf: self.utf8_buf@,
            responses: bytes_list_view(self.responses@),
            scrollback: grid_view(self.scrollback@),
            scroll_offset: self.scroll_offset,
            scrollback_limit: self.scrollback_limit,
        }
    }
}

/// `x - 1` for a row or column count, never below zero.
fn last_index(x: u16) -> (r: u16)
    ensures
        r == dec1(x),
{
    if x == 0 {
        0
    } else {
        x - 1
    }
}

/// `x` clamped to at most `hi`.
fn clamp_u32(x: u32, hi: u16) -> (r: u16)
    ensures
        r == clamp_to(x as int, hi),
{
    if x < hi as u32 {
        x as u16
    } else {
        hi
    }
}

impl Screen {
    pub fn new(rows: u16, cols: u16) -> (s: Screen)
        ensures
            s@ == ScreenView::initial(rows, cols),
            rows > 0 ==> s@.well_formed(),
    {
        proof {
            if rows > 0 {
                crate::laws::law_new_screen_well_formed(rows, cols);
            }
        }
        let grid = new_blank_grid(rows as usize, cols as usize);
        Screen {
            rows,
            cols,
            grid,
            cursor_row: 0,
            cursor_col: 0,
            attrs: Attrs::plain(),
            saved_cursor: None,
            scroll_top: 0,
            scroll_bottom: last_index(rows),
            alt_grid: None,
            alt_cursor: None,
            alt_attrs: None,
            autowrap: true,
            pending_wrap: false,
            cursor_visible: true,
            state: ParseState::Normal,
            csi_buf: Vec::new(),
            utf8_buf: Vec::new(),
            responses: Vec::new(),
            scrollback: Vec::new(),
            scroll_offset: 0,
            scrollback_limit: 5000,
        }
    }

    pub fn size(&self) -> (r: (u16, u16))
        ensures
            r == (self@.rows, self@.cols),
    {
        (self.rows, self.cols)
    }

    pub fn cell(&self, row: u16, col: u16) -> (r: Option<&Cell>)
        ensures
            r matches Some(c) ==> cell_at(self@.grid, row as int, col as int) == Some(*c),
            r is None ==> cell_at(self@.grid, row as int, col as int) is None,
    {
        let r = row as usize;
        let c = col as usize;
        if r < self.grid.len() && c < self.grid[r].len() {
            Some(&self.grid[r][c])
        } else {
            None
        }
    }

    pub fn cursor_position(&self) -> (r: (u16, u16))
        ensures
            r == (self@.cursor_row, self@.cursor_col),
    {
        (self.cursor_row, self.cursor_col)
    }

    pub fn set_size(&mut self, rows: u16, cols: u16)
        ensures
            final(self)@ == old(self)@.resized(rows, cols),
            old(self)@.well_formed() && rows > 0 ==> final(self)@.well_formed(),
    {
        proof {
            if old(self)@.well_formed() && rows > 0 {
                crate::laws::law_resize_well_formed(old(self)@, rows, cols);
            }
        }
        self.rows = rows;
        self.cols = cols;
        let mut grid: Vec<Vec<Cell>> = Vec::new();
        std::mem::swap(&mut grid, &mut self.grid);
        fit_grid_exec(&mut grid, rows, cols);
        self.grid = grid;
        let mut alt: Option<Vec<Vec<Cell>>> = None;
        std::mem::swap(&mut alt, &mut self.alt_grid);
        match alt {
            Some(mut g) => {
                fit_grid_exec(&mut g, rows, cols);
                self.alt_grid = Some(g);
            },
            None => {},
        }
        if self.scroll_top > last_index(rows) {
            self.scroll_top = 0;
        }
        self.scroll_bottom = last_index(rows);
        if self.cursor_row >= rows {
            self.cursor_row = last_index(rows);
        }
        if self.cursor_col >= cols {
            self.cursor_col = last_index(cols);
        }
        self.pending_wrap = false;
        assert(self@ =~= old(self)@.resized(rows, cols));
    }
}

/// Fits a grid to `rows` rows of `cols` cells (see `fit_grid`).
fn fit_grid_exec(grid: &mut Vec<Vec<Cell>>, rows: u16, cols: u16)
    ensures
        grid_view(final(grid)@) == fit_grid(grid_view(old(grid)@), rows, cols),
{
    let ghost g0 = grid_view(grid@);
    grid.truncate(rows as usize);
    let n = grid.len();
    let mut i: usize = 0;
    while i < n
        invariant
            n == grid@.len(),
            n <= rows,
            n == (if (rows as int) < g0.len() { rows as int } else { g0.len() as int }),
            0 <= i <= n,
            forall|k: int| 0 <= k < i ==> (#[trigger] grid@[k])@ == fit_row_of(g0[k], cols),
            forall|k: int| i <= k < n ==> (#[trigger] grid@[k])@ == g0[k],
        decreases n - i,
    {
        let mut row: Vec<Cell> = Vec::new();
        std::mem::swap(&mut row, &mut grid[i]);
        row_fit(&mut row, cols as usize);
        grid.set(i, row);
        i += 1;
    }
    while grid.len() < rows as usize
        invariant
            n <= grid@.len() <= rows,
            forall|k: int| 0 <= k < n ==> (#[trigger] grid@[k])@ == fit_row_of(g0[k], cols),
            forall|k: int| n <= k < grid@.len() ==> (#[trigger] grid@[k])@ == blank_row(cols as nat),
            n == (if (rows as int) < g0.len() { rows as int } else { g0.len() as int }),
        decreases rows - grid@.len(),
    {
        grid.push(new_blank_row(cols as usize));
    }
    assert(grid_view(grid@) =~~= fit_grid(g0, rows, cols));
}

pub open spec fn fit_row_of(r: Seq<Cell>, cols: u16) -> Seq<Cell> {
    crate::grid::fit_row(r, cols as nat)
}

} // verus!

verus! {

impl Screen {
    // ── Scrolling ───────────────────────────────────────────────────

    fn scroll_up_region(&mut self, n: u16)
        ensures
            final(self)@ == old(self)@.scroll_up_region(n),
    {
        let top = self.scroll_top as usize;
        let bot = self.scroll_bottom as usize;
        if !(top <= bot && top < self.grid.len() && bot < self.grid.len()) {
            return;
        }
        let k: usize = if (n as usize) < bot - top + 1 { n as usize } else { bot - top + 1 };
        let ghost s0 = self@;
        let mut i: usize = 0;
        while i < k
            invariant
                0 <= i <= k,
                top == self.scroll_top as usize,
                bot == self.scroll_bottom as usize,
                top <= bot < self.grid@.len(),
                self@ == s0.scroll_up_times(i as nat),
            decreases k - i,
        {
            let ghost before = self@;
            let removed = remove_row(&mut self.grid, top);
            if self.scroll_top == 0 && self.alt_grid.is_none() {
                push_row(&mut self.scrollback, removed);
                if self.scrollback.len() > self.scrollback_limit {
                    let _ = remove_row(&mut self.scrollback, 0);
                }
            }
            let blank = new_blank_row(self.cols as usize);
            insert_row(&mut self.grid, bot, blank);
            proof {
                let s = before.scroll_up_once();
                assert(self@.grid =~~= s.grid);
                assert(self@.scrollback =~~= s.scrollback);
                assert(self@ =~~= s);
            }
            i += 1;
        }
    }

    fn scroll_down_region(&mut self, n: u16)
        ensures
            final(self)@ == old(self)@.scroll_down_region(n),
    {
        let top = self.scroll_top as usize;
        let bot = self.scroll_bottom as usize;
        if !(top <= bot && bot < self.grid.len()) {
            return;
        }
        let k: usize = if (n as usize) < bot - top + 1 { n as usize } else { bot - top + 1 };
        let ghost s0 = self@;
        let mut i: usize = 0;
        while i < k
            invariant
                0 <= i <= k,
                top == self.scroll_top as usize,
                bot == self.scroll_bottom as usize,
                top <= bot < self.grid@.len(),
                self@ == s0.scroll_down_times(i as nat),
            decreases k - i,
        {
            let ghost before = self@;
            let _ = remove_row(&mut self.grid, bot);
            let blank = new_blank_row(self.cols as usize);
            insert_row(&mut self.grid, top, blank);
            proof {
                assert(self@ =~~= before.scroll_down_once());
            }
            i += 1;
        }
    }

    fn insert_lines(&mut self, n: u16)
        ensures
            final(self)@ == old(self)@.insert_lines(n),
    {
        let row = self.cursor_row as usize;
        let bot = self.scroll_bottom as usize;
        if row > bot {
            return;
        }
        let k: usize = if (n as usize) < bot - row + 1 { n as usize } else { bot - row + 1 };
        let ghost s0 = self@;
        let mut i: usize = 0;
        while i < k
            invariant
                0 <= i <= k,
                row == self.cursor_row as usize,
                bot == self.scroll_bottom as usize,
                self@ == s0.insert_lines_times(i as nat),
            decreases k - i,
        {
            let ghost before = self@;
            if bot < self.grid.len() {
                let _ = remove_row(&mut self.grid, bot);
            }
            if row <= self.grid.len() {
                let blank = new_blank_row(self.cols as usize);
                insert_row(&mut self.grid, row, blank);
            }
            proof {
                assert(self@ =~~= before.insert_line_once());
            }
            i += 1;
        }
    }

    fn delete_lines(&mut self, n: u16)
        ensures
            final(self)@ == old(self)@.delete_lines(n),
    {
        let row = self.cursor_row as usize;
        let bot = self.scroll_bottom as usize;
        if row > bot {
            return;
        }
        let k: usize = if (n as usize) < bot - row + 1 { n as usize } else { bot - row + 1 };
        let ghost s0 = self@;
        let mut i: usize = 0;
        while i < k
            invariant
                0 <= i <= k,
                row == self.cursor_row as usize,
                bot == self.scroll_bottom as usize,
                self@ == s0.delete_lines_times(i as nat),
            decreases k - i,
        {
            let ghost before = self@;
            if row < self.grid.len() {
                let _ = remove_row(&mut self.grid, row);
            }
            if bot <= self.grid.len() {
                let blank = new_blank_row(self.cols as usize);
                insert_row(&mut self.grid, bot, blank);
            }
            proof {
                assert(self@ =~~= before.delete_line_once());
            }
            i += 1;
        }
    }

    fn linefeed(&mut self)
        ensures
            final(self)@ == old(self)@.linefeed(),
    {
        if self.cursor_row == self.scroll_bottom {
            self.scroll_up_region(1);
        } else if (self.cursor_row as u32) + 1 < self.rows as u32 {
            self.cursor_row = self.cursor_row + 1;
        }
    }

    // ── Alternate screen ────────────────────────────────────────────

    fn enter_alt_screen(&mut self)
        ensures
            final(self)@ == old(self)@.enter_alt_screen(),
    {
        let mut main_grid = new_blank_grid(self.rows as usize, self.cols as usize);
        std::mem::swap(&mut main_grid, &mut self.grid);
        self.alt_grid = Some(main_grid);
        self.alt_cursor = Some((self.cursor_row, self.cursor_col));
        self.alt_attrs = Some(self.attrs);
        self.cursor_row = 0;
        self.cursor_col = 0;
        self.pending_wrap = false;
        assert(self@ =~~= old(self)@.enter_alt_screen());
    }

    fn leave_alt_screen(&mut self)
        ensures
            final(self)@ == old(self)@.leave_alt_screen(),
    {
        if let Some(main_grid) = self.alt_grid.take() {
            self.grid = main_grid;
        }
        if let Some((r, c)) = self.alt_cursor.take() {
            self.cursor_row = clamp_u32(r as u32, last_index(self.rows));
            self.cursor_col = clamp_u32(c as u32, last_index(self.cols));
        }
        if let Some(a) = self.alt_attrs.take() {
            self.attrs = a;
        }
        self.pending_wrap = false;
        assert(self@ =~~= old(self)@.leave_alt_screen());
    }

    // ── Control characters ──────────────────────────────────────────

    fn control(&mut self, b: u8)
        ensures
            final(self)@ == old(self)@.control(b),
    {
        if b == 0x08 {
            // BS — cursor left
            if self.cursor_col > 0 {
                self.cursor_col = self.cursor_col - 1;
            }
            self.pending_wrap = false;
        } else if b == 0x09 {
            // TAB — advance to next 8-column stop
            let next: u32 = ((self.cursor_col / 8) as u32 + 1) * 8;
            self.cursor_col = clamp_u32(next, last_index(self.cols));
            self.pending_wrap = false;
        } else if 0x0a <= b && b <= 0x0c {
            // LF / VT / FF — line feed
            self.linefeed();
            self.pending_wrap = false;
        } else if b == 0x0d {
            // CR — carriage return
            self.cursor_col = 0;
            self.pending_wrap = false;
        }
        // BEL and the other control characters are ignored.
    }

    // ── Screen operations ───────────────────────────────────────────

    fn put_char(&mut self, ch: char)
        ensures
            final(self)@ == old(self)@.put_char(ch),
    {
        let w: usize = match display_width(ch) {
            Some(n) => n,
            None => 0,
        };
        if w == 0 {
            // Control / zero-width, skip
            return;
        }
        assert(w <= 3);
        let width = w as u16;
        if self.pending_wrap && self.autowrap {
            self.cursor_col = 0;
            self.linefeed();
            self.pending_wrap = false;
        }
        assert(self@ == old(self)@.wrap_if_pending());
        let ghost s1 = self@;
        // Place character
        let r = self.cursor_row as usize;
        let c = self.cursor_col as usize;
        if r < self.grid.len() && c < self.grid[r].len() {
            let cell = Cell {
                ch,
                fg: self.attrs.fg,
                bg: self.attrs.bg,
                bold: self.attrs.bold,
                dim: self.attrs.dim,
                italic: self.attrs.italic,
                underline: self.attrs.underline,
                inverse: self.attrs.inverse,
                wide_continuation: false,
            };
            set_cell(&mut self.grid, r, c, cell);
            // Mark second column for wide chars
            if width == 2 && c + 1 < self.grid[r].len() {
                let mut cont = new_blank_cell();
                cont.wide_continuation = true;
                set_cell(&mut self.grid, r, c + 1, cont);
            }
        }
        assert(self@ =~~= s1.placed(ch, w as int));
        // Advance cursor
        if self.cursor_col as u32 + width as u32 >= self.cols as u32 {
            self.cursor_col = last_index(self.cols);
            self.pending_wrap = true;
        } else {
            self.cursor_col = self.cursor_col + width;
        }
    }

    fn erase_display(&mut self, mode: u16)
        ensures
            final(self)@ == old(self)@.erase_display(mode),
    {
        let r = self.cursor_row as usize;
        let c = self.cursor_col as usize;
        if mode == 0 && r < self.grid.len() {
            // Erase below (including cursor position to end)
            let len = self.grid.len();
            blank_rows(&mut self.grid, r + 1, len);
            let rlen = self.grid[r].len();
            let line = row_blank_between(&self.grid[r], c, rlen);
            proof {
                assert(line@ =~= blank_from(self@.grid[r as int], c as int));
            }
            set_row(&mut self.grid, r, line);
        } else if mode == 1 {
            // Erase above (including start to cursor position)
            blank_rows(&mut self.grid, 0, r);
            if r < self.grid.len() {
                let rlen = self.grid[r].len();
                let last = if rlen == 0 { 0 } else { rlen - 1 };
                let end = if c < last { c } else { last };
                let line = row_blank_between(&self.grid[r], 0, end + 1);
                proof {
                    assert(line@ =~= blank_through(self@.grid[r as int], end as int));
                }
                set_row(&mut self.grid, r, line);
            }
        } else if mode == 2 || mode == 3 {
            // Erase all
            let len = self.grid.len();
            blank_rows(&mut self.grid, 0, len);
            proof {
                assert(self@.grid =~~= blank_all_rows(old(self)@.grid));
            }
        }
        assert(self@ =~~= old(self)@.erase_display(mode));
    }

    fn erase_line(&mut self, mode: u16)
        ensures
            final(self)@ == old(self)@.erase_line(mode),
    {
        let r = self.cursor_row as usize;
        let c = self.cursor_col as usize;
        if r >= self.grid.len() {
            return;
        }
        let rlen = self.grid[r].len();
        if mode == 0 {
            let line = row_blank_between(&self.grid[r], c, rlen);
            proof {
                assert(line@ =~= blank_from(self@.grid[r as int], c as int));
            }
            set_row(&mut self.grid, r, line);
        } else if mode == 1 {
            let last = if rlen == 0 { 0 } else { rlen - 1 };
            let end = if c < last { c } else { last };
            let line = row_blank_between(&self.grid[r], 0, end + 1);
            proof {
                assert(line@ =~= blank_through(self@.grid[r as int], end as int));
            }
            set_row(&mut self.grid, r, line);
        } else if mode == 2 {
            let line = new_blank_row(rlen);
            set_row(&mut self.grid, r, line);
        }
        assert(self@ =~~= old(self)@.erase_line(mode));
    }
}

} // verus!

verus! {

/// The attributes after one SGR parameter other than 38 and 48.
fn apply_sgr_param(a: Attrs, p: u16) -> (r: Attrs)
    ensures
        r == sgr_one(a, p),
{
    let mut a = a;
    if p == 0 {
        a = Attrs::plain();
    } else if p == 1 {
        a.bold = true;
    } else if p == 2 {
        a.dim = true;
    } else if p == 3 {
        a.italic = true;
    } else if p == 4 {
        a.underline = true;
    } else if p == 7 {
        a.inverse = true;
    } else if p == 22 {
        a.bold = false;
        a.dim = false;
    } else if p == 23 {
        a.italic = false;
    } else if p == 24 {
        a.underline = false;
    } else if p == 27 {
        a.inverse = false;
    } else if 30 <= p && p <= 37 {
        // Standard foreground colors
        a.fg = CellColor::Idx((p - 30) as u8);
    } else if p == 39 {
        a.fg = CellColor::Default;
    } else if 40 <= p && p <= 47 {
        // Standard background colors
        a.bg = CellColor::Idx((p - 40) as u8);
    } else if p == 49 {
        a.bg = CellColor::Default;
    } else if 90 <= p && p <= 97 {
        // Bright foreground
        a.fg = CellColor::Idx((p - 90 + 8) as u8);
    } else if 100 <= p && p <= 107 {
        // Bright background
        a.bg = CellColor::Idx((p - 100 + 8) as u8);
    }
    a
}

impl Screen {
    // ── SGR (colors / attributes) ───────────────────────────────────

    fn apply_sgr(&mut self, params: &Vec<u16>)
        ensures
            final(self)@ == (ScreenView { attrs: sgr(old(self)@.attrs, params@), ..old(self)@ }),
    {
        if params.len() == 0 {
            self.attrs = Attrs::plain();
            return;
        }
        let ghost s0 = self@;
        let ghost target = sgr_from(s0.attrs, params@, 0);
        let mut i: usize = 0;
        while i < params.len()
            invariant
                i <= params@.len(),
                sgr_from(self.attrs, params@, i as int) == target,
                self@ == (ScreenView { attrs: self.attrs, ..s0 }),
            decreases params@.len() + 4 - i,
        {
            let p = params[i];
            if p == 38 {
                i += 1;
                self.attrs.fg = self.parse_extended_color(params, &mut i);
                continue;
            } else if p == 48 {
                i += 1;
                self.attrs.bg = self.parse_extended_color(params, &mut i);
                continue;
            }
            self.attrs = apply_sgr_param(self.attrs, p);
            i += 1;
        }
    }

    fn parse_extended_color(&self, params: &Vec<u16>, i: &mut usize) -> (c: CellColor)
        requires
            *old(i) <= params@.len(),
        ensures
            (c, *final(i) as int) == extended_color(params@, *old(i) as int),
            *final(i) <= params@.len(),
    {
        if *i >= params.len() {
            return CellColor::Default;
        }
        let k = *i;
        if params[k] == 5 {
            // 256-color: 38;5;n
            if k + 1 < params.len() {
                *i = k + 2;
                CellColor::Idx((params[k + 1] % 256) as u8)
            } else {
                *i = params.len();
                CellColor::Default
            }
        } else if params[k] == 2 {
            // Truecolor: 38;2;r;g;b
            if params.len() > 3 && k < params.len() - 3 {
                let r = (params[k + 1] % 256) as u8;
                let g = (params[k + 2] % 256) as u8;
                let b = (params[k + 3] % 256) as u8;
                *i = k + 4;
                CellColor::Rgb(r, g, b)
            } else {
                *i = params.len();
                CellColor::Default
            }
        } else {
            *i = k + 1;
            CellColor::Default
        }
    }

    // ── Control sequences ───────────────────────────────────────────

    fn private_modes(&mut self, params: &Vec<u16>, set: bool)
        ensures
            final(self)@ == old(self)@.private_modes(params@, 0, set),
    {
        let mut i: usize = 0;
        while i < params.len()
            invariant
                i <= params@.len(),
                self@.private_modes(params@, i as int, set) == old(self)@.private_modes(params@, 0, set),
            decreases params@.len() - i,
        {
            let p = params[i];
            if p == 7 {
                self.autowrap = set;
            } else if p == 25 {
                self.cursor_visible = set;
            } else if p == 1049 {
                if set {
                    self.enter_alt_screen();
                } else {
                    self.leave_alt_screen();
                }
            }
            i += 1;
        }
    }

    fn save_cursor(&mut self)
        ensures
            final(self)@ == old(self)@.save_cursor(),
    {
        self.saved_cursor = Some((self.cursor_row, self.cursor_col, self.attrs));
    }

    fn restore_cursor(&mut self)
        ensures
            final(self)@ == old(self)@.restore_cursor(),
    {
        if let Some((r, c, a)) = self.saved_cursor {
            self.cursor_row = clamp_u32(r as u32, last_index(self.rows));
            self.cursor_col = clamp_u32(c as u32, last_index(self.cols));
            self.attrs = a;
        }
    }

    fn cursor_line_ops(&mut self, f: u8, n: u16)
        ensures
            final(self)@ == old(self)@.cursor_line_ops(f, n),
    {
        let r = self.cursor_row as usize;
        let c = self.cursor_col as usize;
        let cols = self.cols as usize;
        if r < self.grid.len() {
            let new_line = if f == 0x50 {
                // DCH — delete characters
                row_delete_chars(&self.grid[r], c, n as usize, cols)
            } else if f == 0x40 {
                // ICH — insert characters
                row_insert_chars(&self.grid[r], c, n as usize, cols)
            } else {
                // ECH — erase characters
                let hi = if c + (n as usize) < cols { c + n as usize } else { cols };
                row_blank_between(&self.grid[r], c, hi)
            };
            set_row(&mut self.grid, r, new_line);
            assert(self@ =~~= old(self)@.cursor_line_ops(f, n));
        }
    }

    fn push_response(&mut self, resp: Vec<u8>)
        ensures
            final(self)@ == (ScreenView { responses: old(self)@.responses.push(resp@), ..old(self)@ }),
    {
        let ghost v = resp@;
        self.responses.push(resp);
        assert(self@ =~~= ScreenView { responses: old(self)@.responses.push(v), ..old(self)@ });
    }

    fn execute_csi(&mut self, final_byte: u8)
        ensures
            final(self)@ == old(self)@.execute_csi(final_byte),
    {
        let (private, params) = parse_csi_params(&self.csi_buf);
        let p0: u16 = if params.len() > 0 { params[0] } else { 0 };
        let p1: u16 = if params.len() > 1 { params[1] } else { 0 };
        let n: u16 = if p0 == 0 { 1 } else { p0 };
        let rmax = last_index(self.rows);
        let cmax = last_index(self.cols);
        let f = final_byte;
        if f == 0x41 {
            // CUU — cursor up
            self.cursor_row = if n <= self.cursor_row { self.cursor_row - n } else { 0 };
            self.pending_wrap = false;
        } else if f == 0x42 {
            // CUD — cursor down
            self.cursor_row = clamp_u32(self.cursor_row as u32 + n as u32, rmax);
            self.pending_wrap = false;
        } else if f == 0x43 {
            // CUF — cursor forward
            self.cursor_col = clamp_u32(self.cursor_col as u32 + n as u32, cmax);
            self.pending_wrap = false;
        } else if f == 0x44 {
            // CUB — cursor back
            self.cursor_col = if n <= self.cursor_col { self.cursor_col - n } else { 0 };
            self.pending_wrap = false;
        } else if f == 0x45 {
            // CNL — cursor next line
            self.cursor_row = clamp_u32(self.cursor_row as u32 + n as u32, rmax);
            self.cursor_col = 0;
            self.pending_wrap = false;
        } else if f == 0x46 {
            // CPL — cursor previous line
            self.cursor_row = if n <= self.cursor_row { self.cursor_row - n } else { 0 };
            self.cursor_col = 0;
            self.pending_wrap = false;
        } else if f == 0x47 {
            // CHA — cursor horizontal absolute
            self.cursor_col = clamp_u32((n - 1) as u32, cmax);
            self.pending_wrap = false;
        } else if f == 0x48 || f == 0x66 {
            // CUP — cursor position
            let m: u16 = if p1 == 0 { 1 } else { p1 };
            self.cursor_row = clamp_u32((n - 1) as u32, rmax);
            self.cursor_col = clamp_u32((m - 1) as u32, cmax);
            self.pending_wrap = false;
        } else if f == 0x4a {
            // ED — erase display
            self.erase_display(p0);
        } else if f == 0x4b {
            // EL — erase line
            self.erase_line(p0);
        } else if f == 0x4c {
            // IL — insert lines
            self.insert_lines(n);
        } else if f == 0x4d {
            // DL — delete lines
            self.delete_lines(n);
        } else if f == 0x50 || f == 0x40 || f == 0x58 {
            self.cursor_line_ops(f, n);
        } else if f == 0x53 && !private {
            // SU — scroll up
            self.scroll_up_region(n);
        } else if f == 0x54 && !private {
            // SD — scroll down
            self.scroll_down_region(n);
        } else if f == 0x64 {
            // VPA — cursor vertical absolute
            self.cursor_row = clamp_u32((n - 1) as u32, rmax);
            self.pending_wrap = false;
        } else if f == 0x6d {
            // SGR — select graphic rendition
            self.apply_sgr(&params);
        } else if f == 0x72 && !private {
            // DECSTBM — set scroll region
            let top = n - 1;
            let bot = if p1 == 0 { rmax } else { clamp_u32((p1 - 1) as u32, rmax) };
            if top < bot {
                self.scroll_top = top;
                self.scroll_bottom = bot;
            }
            self.cursor_row = 0;
            self.cursor_col = 0;
            self.pending_wrap = false;
        } else if f == 0x73 && !private {
            // SCP — save cursor position
            self.save_cursor();
        } else if f == 0x75 && !private {
            // RCP — restore cursor position
            self.restore_cursor();
            self.pending_wrap = false;
        } else if f == 0x68 && private {
            // DECSET
            self.private_modes(&params, true);
        } else if f == 0x6c && private {
            // DECRST
            self.private_modes(&params, false);
        } else if f == 0x6e && !private && p0 == 6 {
            // DSR — cursor position report
            let mut resp: Vec<u8> = Vec::new();
            resp.push(0x1b);
            resp.push(0x5b);
            push_decimal(&mut resp, self.cursor_row as u32 + 1);
            resp.push(0x3b);
            push_decimal(&mut resp, self.cursor_col as u32 + 1);
            resp.push(0x52);
            assert(resp@ =~= cursor_report((self.cursor_row + 1) as nat, (self.cursor_col + 1) as nat));
            self.push_response(resp);
        } else if f == 0x63 && !private {
            // DA — device attributes
            let resp: Vec<u8> = vec![0x1b, 0x5b, 0x3f, 0x31, 0x3b, 0x32, 0x63];
            assert(resp@ =~= device_attributes());
            self.push_response(resp);
        }
        // Unknown — ignore
    }

    fn csi_byte(&mut self, b: u8)
        ensures
            final(self)@ == old(self)@.csi_byte(b),
    {
        if 0x20 <= b && b <= 0x3f {
            // Parameter/intermediate bytes
            self.csi_buf.push(b);
        } else if 0x40 <= b && b <= 0x7e {
            // Final byte — execute
            self.execute_csi(b);
            self.state = ParseState::Normal;
        } else {
            // Unexpected, abort
            self.state = ParseState::Normal;
        }
    }

    // ── Escape entry ────────────────────────────────────────────────

    fn escape(&mut self, b: u8)
        ensures
            final(self)@ == old(self)@.escape(b),
    {
        if b == 0x5b {
            self.state = ParseState::Csi;
            self.csi_buf.clear();
        } else if b == 0x5d {
            self.state = ParseState::Osc;
        } else if b == 0x37 {
            // DECSC — save cursor
            self.save_cursor();
            self.state = ParseState::Normal;
        } else if b == 0x38 {
            // DECRC — restore cursor
            self.restore_cursor();
            self.state = ParseState::Normal;
        } else if b == 0x63 {
            // RIS — full reset
            *self = Screen::new(self.rows, self.cols);
        } else if b == 0x44 {
            // IND — linefeed
            self.linefeed();
            self.state = ParseState::Normal;
        } else if b == 0x4d {
            // RI — reverse index (scroll down if at top of scroll region)
            if self.cursor_row == self.scroll_top {
                self.scroll_down_region(1);
            } else if self.cursor_row > 0 {
                self.cursor_row = self.cursor_row - 1;
            }
            self.state = ParseState::Normal;
        } else if b == 0x28 || b == 0x29 || b == 0x2a || b == 0x2b || b == 0x2d || b == 0x2e
            || b == 0x2f {
            // Character set designation — eat the next byte (the charset ID)
            self.state = ParseState::EatOne;
        } else {
            // DECKPAM / DECKPNM and the rest — ignore
            self.state = ParseState::Normal;
        }
    }

    // ── Bytes ───────────────────────────────────────────────────────

    fn utf8_byte(&mut self, b: u8)
        ensures
            final(self)@ == old(self)@.utf8_byte(b),
    {
        self.utf8_buf.push(b);
        match decode_utf8_char(&self.utf8_buf) {
            Some(ch) => {
                self.put_char(ch);
                self.utf8_buf.clear();
            },
            None => {
                if self.utf8_buf.len() >= 4 {
                    // Invalid sequence, discard
                    self.utf8_buf.clear();
                }
            },
        }
        assert(self@ =~~= old(self)@.utf8_byte(b));
    }

    fn step(&mut self, b: u8)
        ensures
            final(self)@ == old(self)@.step(b),
    {
        match self.state {
            ParseState::Normal => {
                if b == 0x1b {
                    self.state = ParseState::Escape;
                } else if b < 0x20 || b == 0x7f {
                    self.control(b);
                } else if b < 0x80 {
                    self.put_char(b as char);
                } else {
                    // UTF-8 multi-byte
                    self.utf8_byte(b);
                }
            },
            ParseState::Escape => self.escape(b),
            ParseState::Csi => self.csi_byte(b),
            ParseState::Osc => {
                // Eat until BEL (\x07) or ST (\x1b\\)
                if b == 0x07 || b == 0x9c {
                    self.state = ParseState::Normal;
                } else if b == 0x1b {
                    // Could be start of ST (\x1b\\) — eat one more byte
                    self.state = ParseState::EatOne;
                }
            },
            ParseState::EatOne => {
                // Consume this byte and return to Normal
                self.state = ParseState::Normal;
            },
        }
        proof {
            reveal(ScreenView::step);
        }
    }

    /// Feed raw bytes from the PTY into the emulator.
    pub fn process(&mut self, bytes: &[u8])
        ensures
            final(self)@ == old(self)@.feed(bytes@),
            old(self)@.well_formed() ==> final(self)@.well_formed(),
    {
        proof {
            if old(self)@.well_formed() {
                crate::laws::law_feed_well_formed(old(self)@, bytes@);
            }
        }
        // New output snaps to live view
        if bytes.len() > 0 {
            self.scroll_offset = 0;
        }
        let ghost s0 = self@;
        let mut i: usize = 0;
        while i < bytes.len()
            invariant
                i <= bytes@.len(),
                self@ == s0.process_bytes(bytes@.take(i as int)),
            decreases bytes@.len() - i,
        {
            proof {
                assert(bytes@.take(i + 1).drop_last() =~= bytes@.take(i as int));
            }
            self.step(bytes[i]);
            i += 1;
        }
        assert(bytes@.take(bytes@.len() as int) =~= bytes@);
    }
}

} // verus!

verus! {

impl Screen {
    /// Takes the replies for the PTY, oldest first, leaving none.
    pub fn take_responses(&mut self) -> (r: Vec<Vec<u8>>)
        ensures
            r@.map_values(|v: Vec<u8>| v@) == old(self)@.responses,
            final(self)@ == (ScreenView { responses: seq![], ..old(self)@ }),
            old(self)@.well_formed() ==> final(self)@.well_formed(),
    {
        let mut r: Vec<Vec<u8>> = Vec::new();
        std::mem::swap(&mut r, &mut self.responses);
        proof {
            assert(self@ =~~= ScreenView { responses: seq![], ..old(self)@ });
        }
        r
    }

    /// Total scrollback lines available.
    pub fn scrollback_len(&self) -> (n: usize)
        ensures
            n == self@.scrollback.len(),
    {
        self.scrollback.len()
    }

    /// Scroll up (back into history) by `n` lines.
    pub fn scroll_up(&mut self, n: usize)
        ensures
            final(self)@ == old(self)@.scrolled_up(n),
            old(self)@.well_formed() ==> final(self)@.well_formed(),
    {
        proof {
            if old(self)@.well_formed() {
                crate::laws::law_scroll_view(old(self)@, n);
            }
        }
        let len = self.scrollback.len();
        self.scroll_offset = if self.scroll_offset >= len || n >= len - self.scroll_offset {
            len
        } else {
            self.scroll_offset + n
        };
    }

    /// Scroll down (toward live view) by `n` lines.
    pub fn scroll_down(&mut self, n: usize)
        ensures
            final(self)@ == old(self)@.scrolled_down(n),
            old(self)@.well_formed() ==> final(self)@.well_formed(),
    {
        proof {
            if old(self)@.well_formed() {
                crate::laws::law_scroll_view(old(self)@, n);
            }
        }
        self.scroll_offset = if n <= self.scroll_offset { self.scroll_offset - n } else { 0 };
    }

    /// Snap back to live view (scroll_offset = 0).
    pub fn snap_to_bottom(&mut self)
        ensures
            final(self)@ == (ScreenView { scroll_offset: 0, ..old(self)@ }),
            old(self)@.well_formed() ==> final(self)@.well_formed(),
    {
        self.scroll_offset = 0;
    }

    /// Get a cell accounting for scroll offset.
    /// When scrolled back, the top rows come from scrollback, the rest from the grid.
    pub fn visible_cell(&self, vis_row: u16, col: u16) -> (r: Option<&Cell>)
        ensures
            r matches Some(c) ==> self@.visible(vis_row, col) == Some(*c),
            r is None ==> self@.visible(vis_row, col) is None,
    {
        if self.scroll_offset == 0 {
            return self.cell(vis_row, col);
        }
        let sb_len = self.scrollback.len();
        let row = vis_row as usize;
        let c = col as usize;
        if row < self.scroll_offset {
            // This row comes from scrollback: index sb_len - scroll_offset + row
            let idx: usize = if self.scroll_offset <= sb_len {
                sb_len - self.scroll_offset + row
            } else if row >= self.scroll_offset - sb_len {
                row - (self.scroll_offset - sb_len)
            } else {
                return None;
            };
            if idx < self.scrollback.len() && c < self.scrollback[idx].len() {
                Some(&self.scrollback[idx][c])
            } else {
                None
            }
        } else {
            // This row comes from the live grid
            let grid_row = row - self.scroll_offset;
            if grid_row < self.grid.len() && c < self.grid[grid_row].len() {
                Some(&self.grid[grid_row][c])
            } else {
                None
            }
        }
    }
}

} // verus!
