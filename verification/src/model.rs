//! The mathematical model of the screen emulator: its state, and what each
//! byte received from the terminal does to it.

use vstd::prelude::*;
use crate::cell::{Attrs, Cell, attr_cell, continuation_cell, default_attrs, sgr};
use crate::grid::{blank_all_rows, blank_between, blank_from, blank_grid, blank_row, blank_rows_between, blank_through, delete_chars_row, fit_row, insert_chars_row};
use crate::parse::{csi_params, csi_private, decimal};
use crate::utf8::utf8_char;
use crate::width::char_width;

verus! {

/// ANSI escape parser state machine.
#[derive(Debug, Clone, Copy, PartialEq, Eq, Structural)]
pub enum ParseState {
    Normal,
    /// Got `\x1b`, waiting for next byte.
    Escape,
    /// Inside a CSI sequence (`\x1b[`).
    Csi,
    /// Inside an OSC sequence (`\x1b]`), eat until ST.
    Osc,
    /// Eat exactly one more byte then return to Normal (e.g. charset designation `\x1b(B`).
    EatOne,
}

/// `x - 1`, but never below zero: the last row or column of a screen.
pub open spec fn dec1(x: u16) -> u16 {
    if x == 0 {
        0
    } else {
        (x - 1) as u16
    }
}

/// `x` clamped to at most `hi` (for `x >= 0`).
pub open spec fn clamp_to(x: int, hi: u16) -> u16 {
    if x < hi {
        x as u16
    } else {
        hi
    }
}

/// `x - n`, but never below zero.
pub open spec fn sub_sat(x: u16, n: u16) -> u16 {
    if n <= x {
        (x - n) as u16
    } else {
        0
    }
}

/// A count parameter: zero or missing counts as one.
pub open spec fn at_least_one(p: u16) -> u16 {
    if p == 0 {
        1
    } else {
        p
    }
}

/// The smaller of two integers.
pub open spec fn min_int(a: int, b: int) -> int {
    if a < b {
        a
    } else {
        b
    }
}

/// The columns a character takes: its display width, zero for a control character.
pub open spec fn width_of(ch: char) -> int {
    match char_width(ch) {
        Some(n) => n as int,
        None => 0,
    }
}

/// Appends a row to the scrollback, dropping the oldest row when it grows
/// beyond `limit`.
pub open spec fn bounded_push(sb: Seq<Seq<Cell>>, row: Seq<Cell>, limit: nat) -> Seq<Seq<Cell>> {
    let s = sb.push(row);
    if s.len() > limit {
        s.subrange(1, s.len() as int)
    } else {
        s
    }
}

/// The cell at a row and column of a grid, if there is one.
pub open spec fn cell_at(g: Seq<Seq<Cell>>, r: int, c: int) -> Option<Cell> {
    if 0 <= r < g.len() && 0 <= c < g[r].len() {
        Some(g[r][c])
    } else {
        None
    }
}

/// The cursor position report `ESC [ row ; col R`.
pub open spec fn cursor_report(row: nat, col: nat) -> Seq<u8> {
    seq![0x1bu8, 0x5bu8] + decimal(row) + seq![0x3bu8] + decimal(col) + seq![0x52u8]
}

/// The primary device attributes reply `ESC [ ? 1 ; 2 c`.
pub open spec fn device_attributes() -> Seq<u8> {
    seq![0x1bu8, 0x5bu8, 0x3fu8, 0x31u8, 0x3bu8, 0x32u8, 0x63u8]
}

/// A grid fitted to `rows` rows of `cols` cells: rows cut or added (blank),
/// every row cut or padded to the width.
pub open spec fn fit_grid(g: Seq<Seq<Cell>>, rows: u16, cols: u16) -> Seq<Seq<Cell>> {
    Seq::new(
        rows as nat,
        |i: int|
            if i < g.len() {
                fit_row(g[i], cols as nat)
            } else {
                blank_row(cols as nat)
            },
    )
}

/// A grid of exactly `rows` rows of `cols` cells.
pub open spec fn shaped(g: Seq<Seq<Cell>>, rows: u16, cols: u16) -> bool {
    g.len() == rows as nat && forall|i: int| 0 <= i < g.len() ==> (#[trigger] g[i]).len() == cols as nat
}

/// The state of the screen emulator.
#[verifier::ext_equal]
pub struct ScreenView {
    pub rows: u16,
    pub cols: u16,
    pub grid: Seq<Seq<Cell>>,
    pub cursor_row: u16,
    pub cursor_col: u16,
    pub attrs: Attrs,
    pub saved_cursor: Option<(u16, u16, Attrs)>,
    pub scroll_top: u16,
    pub scroll_bottom: u16,
    pub alt_grid: Option<Seq<Seq<Cell>>>,
    pub alt_cursor: Option<(u16, u16)>,
    pub alt_attrs: Option<Attrs>,
    pub autowrap: bool,
    pub pending_wrap: bool,
    pub cursor_visible: bool,
    pub state: ParseState,
    pub csi_buf: Seq<u8>,
    pub utf8_buf: Seq<u8>,
    pub responses: Seq<Seq<u8>>,
    pub scrollback: Seq<Seq<Cell>>,
    pub scroll_offset: usize,
    pub scrollback_limit: usize,
}

impl ScreenView {
    /// A fresh screen: blank, cursor at the top left, scroll region the
    /// whole screen, 5000 lines of scrollback allowed.
    pub open spec fn initial(rows: u16, cols: u16) -> ScreenView {
        ScreenView {
            rows,
            cols,
            grid: blank_grid(rows as nat, cols as nat),
            cursor_row: 0,
            cursor_col: 0,
            attrs: default_attrs(),
            saved_cursor: None,
            scroll_top: 0,
            scroll_bottom: dec1(rows),
            alt_grid: None,
            alt_cursor: None,
            alt_attrs: None,
            autowrap: true,
            pending_wrap: false,
            cursor_visible: true,
            state: ParseState::Normal,
            csi_buf: Seq::empty(),
            utf8_buf: Seq::empty(),
            responses: Seq::empty(),
            scrollback: Seq::empty(),
            scroll_offset: 0,
            scrollback_limit: 5000,
        }
    }

    /// The screen resized: rows cut or added (blank), every row cut or
    /// padded to the new width (the main screen put aside under the
    /// alternate one too), the scroll region running down to the last row
    /// (from its old top while that is still on the screen, else from the
    /// first row), the cursor kept on the screen.
    pub open spec fn resized(self, rows: u16, cols: u16) -> ScreenView {
        ScreenView {
            rows,
            cols,
            grid: fit_grid(self.grid, rows, cols),
            alt_grid: match self.alt_grid {
                Some(g) => Some(fit_grid(g, rows, cols)),
                None => None,
            },
            scroll_top: if self.scroll_top <= dec1(rows) { self.scroll_top } else { 0 },
            scroll_bottom: dec1(rows),
            cursor_row: if self.cursor_row >= rows { dec1(rows) } else { self.cursor_row },
            cursor_col: if self.cursor_col >= cols { dec1(cols) } else { self.cursor_col },
            pending_wrap: false,
            ..self
        }
    }

    /// A screen in good order: at least one row; the cursor and the bottom
    /// of the scroll region on the screen; the grid (and the grid put aside
    /// for the alternate screen) exactly `rows` by `cols`; the scrollback
    /// within its limit and the view scrolled back no further than it goes;
    /// fewer than four bytes of an unfinished character buffered.
    pub open spec fn well_formed(self) -> bool {
        &&& self.layout_ok()
        &&& self.utf8_buf.len() < 4
    }

    /// Everything of `well_formed` but the buffered bytes.
    pub open spec fn layout_ok(self) -> bool {
        &&& self.rows > 0
        &&& self.cursor_row < self.rows
        &&& self.cursor_col <= dec1(self.cols)
        &&& self.scroll_bottom < self.rows
        &&& shaped(self.grid, self.rows, self.cols)
        &&& (self.alt_grid matches Some(g) ==> shaped(g, self.rows, self.cols))
        &&& self.scrollback.len() <= self.scrollback_limit
        &&& self.scroll_offset <= self.scrollback.len()
    }

    // ── Scrolling ───────────────────────────────────────────────────

    /// One line of the scroll region scrolled up: its top line leaves (into
    /// the scrollback when the region starts at the top of the main screen)
    /// and a blank line comes in at its bottom.
    pub open spec fn scroll_up_once(self) -> ScreenView {
        let top = self.scroll_top as int;
        let bot = self.scroll_bottom as int;
        let removed = self.grid[top];
        ScreenView {
            grid: self.grid.remove(top).insert(bot, blank_row(self.cols as nat)),
            scrollback: if self.scroll_top == 0 && self.alt_grid is None {
                bounded_push(self.scrollback, removed, self.scrollback_limit as nat)
            } else {
                self.scrollback
            },
            ..self
        }
    }

    pub open spec fn scroll_up_times(self, k: nat) -> ScreenView
        decreases k,
    {
        if k == 0 {
            self
        } else {
            self.scroll_up_times((k - 1) as nat).scroll_up_once()
        }
    }

    /// `n` lines of the scroll region scrolled up (at most its height).
    pub open spec fn scroll_up_region(self, n: u16) -> ScreenView {
        let top = self.scroll_top as int;
        let bot = self.scroll_bottom as int;
        if top <= bot && top < self.grid.len() && bot < self.grid.len() {
            self.scroll_up_times(min_int(n as int, bot - top + 1) as nat)
        } else {
            self
        }
    }

    /// One line of the scroll region scrolled down: its bottom line leaves and
    /// a blank line comes in at its top.
    pub open spec fn scroll_down_once(self) -> ScreenView {
        let top = self.scroll_top as int;
        let bot = self.scroll_bottom as int;
        ScreenView {
            grid: self.grid.remove(bot).insert(top, blank_row(self.cols as nat)),
            ..self
        }
    }

    pub open spec fn scroll_down_times(self, k: nat) -> ScreenView
        decreases k,
    {
        if k == 0 {
            self
        } else {
            self.scroll_down_times((k - 1) as nat).scroll_down_once()
        }
    }

    /// `n` lines of the scroll region scrolled down (at most its height).
    pub open spec fn scroll_down_region(self, n: u16) -> ScreenView {
        let top = self.scroll_top as int;
        let bot = self.scroll_bottom as int;
        if top <= bot && bot < self.grid.len() {
            self.scroll_down_times(min_int(n as int, bot - top + 1) as nat)
        } else {
            self
        }
    }

    /// One blank line inserted at the cursor row; the bottom line of the
    /// scroll region leaves.
    pub open spec fn insert_line_once(self) -> ScreenView {
        let row = self.cursor_row as int;
        let bot = self.scroll_bottom as int;
        let g1 = if bot < self.grid.len() { self.grid.remove(bot) } else { self.grid };
        ScreenView {
            grid: if row <= g1.len() { g1.insert(row, blank_row(self.cols as nat)) } else { g1 },
            ..self
        }
    }

    pub open spec fn insert_lines_times(self, k: nat) -> ScreenView
        decreases k,
    {
        if k == 0 {
            self
        } else {
            self.insert_lines_times((k - 1) as nat).insert_line_once()
        }
    }

    /// `n` blank lines inserted at the cursor row (at most down to the bottom
    /// of the scroll region); nothing when the cursor is below the region.
    pub open spec fn insert_lines(self, n: u16) -> ScreenView {
        let row = self.cursor_row as int;
        let bot = self.scroll_bottom as int;
        if row <= bot {
            self.insert_lines_times(min_int(n as int, bot - row + 1) as nat)
        } else {
            self
        }
    }

    /// The line at the cursor row deleted; a blank line comes in at the bottom
    /// of the scroll region.
    pub open spec fn delete_line_once(self) -> ScreenView {
        let row = self.cursor_row as int;
        let bot = self.scroll_bottom as int;
        let g1 = if row < self.grid.len() { self.grid.remove(row) } else { self.grid };
        ScreenView {
            grid: if bot <= g1.len() { g1.insert(bot, blank_row(self.cols as nat)) } else { g1 },
            ..self
        }
    }

    pub open spec fn delete_lines_times(self, k: nat) -> ScreenView
        decreases k,
    {
        if k == 0 {
            self
        } else {
            self.delete_lines_times((k - 1) as nat).delete_line_once()
        }
    }

    /// `n` lines deleted at the cursor row (at most down to the bottom of the
    /// scroll region); nothing when the cursor is below the region.
    pub open spec fn delete_lines(self, n: u16) -> ScreenView {
        let row = self.cursor_row as int;
        let bot = self.scroll_bottom as int;
        if row <= bot {
            self.delete_lines_times(min_int(n as int, bot - row + 1) as nat)
        } else {
            self
        }
    }

    /// The cursor moved down one line, scrolling when it is on the bottom of
    /// the scroll region.
    pub open spec fn linefeed(self) -> ScreenView {
        if self.cursor_row == self.scroll_bottom {
            self.scroll_up_region(1)
        } else if self.cursor_row + 1 < self.rows {
            ScreenView { cursor_row: (self.cursor_row + 1) as u16, ..self }
        } else {
            self
        }
    }

    // ── Alternate screen ────────────────────────────────────────────

    /// The main grid, cursor and attributes put aside; a blank grid shown.
    pub open spec fn enter_alt_screen(self) -> ScreenView {
        ScreenView {
            grid: blank_grid(self.rows as nat, self.cols as nat),
            alt_grid: Some(self.grid),
            alt_cursor: Some((self.cursor_row, self.cursor_col)),
            alt_attrs: Some(self.attrs),
            cursor_row: 0,
            cursor_col: 0,
            pending_wrap: false,
            ..self
        }
    }

    /// What was put aside brought back (each part only if there is one), the
    /// cursor kept on the screen.
    pub open spec fn leave_alt_screen(self) -> ScreenView {
        let s1 = match self.alt_grid {
            Some(g) => ScreenView { grid: g, alt_grid: None, ..self },
            None => self,
        };
        let s2 = match s1.alt_cursor {
            Some((r, c)) => ScreenView {
                cursor_row: clamp_to(r as int, dec1(s1.rows)),
                cursor_col: clamp_to(c as int, dec1(s1.cols)),
                alt_cursor: None,
                ..s1
            },
            None => s1,
        };
        let s3 = match s2.alt_attrs {
            Some(a) => ScreenView { attrs: a, alt_attrs: None, ..s2 },
            None => s2,
        };
        ScreenView { pending_wrap: false, ..s3 }
    }

    // ── Characters ──────────────────────────────────────────────────

    /// A control character (BS, TAB, LF/VT/FF, CR; the others are ignored).
    pub open spec fn control(self, b: u8) -> ScreenView {
        if b == 0x08 {
            ScreenView {
                cursor_col: if self.cursor_col > 0 { (self.cursor_col - 1) as u16 } else { 0 },
                pending_wrap: false,
                ..self
            }
        } else if b == 0x09 {
            ScreenView {
                cursor_col: clamp_to((self.cursor_col / 8 + 1) * 8, dec1(self.cols)),
                pending_wrap: false,
                ..self
            }
        } else if 0x0a <= b && b <= 0x0c {
            ScreenView { pending_wrap: false, ..self.linefeed() }
        } else if b == 0x0d {
            ScreenView { cursor_col: 0, pending_wrap: false, ..self }
        } else {
            self
        }
    }

    /// The screen after the pending wrap, if any, moved the cursor to the
    /// start of the next line.
    pub open spec fn wrap_if_pending(self) -> ScreenView {
        if self.pending_wrap && self.autowrap {
            ScreenView { pending_wrap: false, ..ScreenView { cursor_col: 0, ..self }.linefeed() }
        } else {
            self
        }
    }

    /// The grid with `ch` written at the cursor (and the continuation mark
    /// after a double-width character), when the cursor is on a cell.
    pub open spec fn placed(self, ch: char, w: int) -> ScreenView {
        let r = self.cursor_row as int;
        let c = self.cursor_col as int;
        if r < self.grid.len() && c < self.grid[r].len() {
            let g1 = self.grid.update(r, self.grid[r].update(c, attr_cell(ch, self.attrs)));
            let g2 = if w == 2 && c + 1 < g1[r].len() {
                g1.update(r, g1[r].update(c + 1, continuation_cell()))
            } else {
                g1
            };
            ScreenView { grid: g2, ..self }
        } else {
            self
        }
    }

    /// A printable character: written at the cursor, which then advances by
    /// its width, or stays on the last column with a wrap pending.
    pub open spec fn put_char(self, ch: char) -> ScreenView {
        let w = width_of(ch);
        if w == 0 {
            self
        } else {
            let s = self.wrap_if_pending().placed(ch, w);
            if s.cursor_col + w >= s.cols {
                ScreenView { cursor_col: dec1(s.cols), pending_wrap: true, ..s }
            } else {
                ScreenView { cursor_col: (s.cursor_col + w) as u16, ..s }
            }
        }
    }

    // ── Erasing ─────────────────────────────────────────────────────

    /// Erase in display: 0 from the cursor to the end, 1 from the start to the
    /// cursor, 2 or 3 everything.
    pub open spec fn erase_display(self, mode: u16) -> ScreenView {
        let r = self.cursor_row as int;
        let c = self.cursor_col as int;
        if mode == 0 && r < self.grid.len() {
            let g = blank_rows_between(self.grid, r + 1, self.grid.len() as int);
            ScreenView { grid: g.update(r, blank_from(g[r], c)), ..self }
        } else if mode == 1 {
            let g = blank_rows_between(self.grid, 0, r);
            let g2 = if r < g.len() {
                let end = min_int(c, if g[r].len() == 0 { 0 } else { g[r].len() - 1 });
                g.update(r, blank_through(g[r], end))
            } else {
                g
            };
            ScreenView { grid: g2, ..self }
        } else if mode == 2 || mode == 3 {
            ScreenView { grid: blank_all_rows(self.grid), ..self }
        } else {
            self
        }
    }

    /// Erase in line: 0 from the cursor to the end, 1 from the start to the
    /// cursor, 2 the whole line.
    pub open spec fn erase_line(self, mode: u16) -> ScreenView {
        let r = self.cursor_row as int;
        let c = self.cursor_col as int;
        if r >= self.grid.len() {
            self
        } else {
            let line = self.grid[r];
            if mode == 0 {
                ScreenView { grid: self.grid.update(r, blank_from(line, c)), ..self }
            } else if mode == 1 {
                let end = min_int(c, if line.len() == 0 { 0 } else { line.len() - 1 });
                ScreenView { grid: self.grid.update(r, blank_through(line, end)), ..self }
            } else if mode == 2 {
                ScreenView { grid: self.grid.update(r, blank_row(line.len())), ..self }
            } else {
                self
            }
        }
    }

    // ── Control sequences ───────────────────────────────────────────

    /// The private modes set (`h`) or reset (`l`) by the parameters from
    /// position `i` on: 7 autowrap, 25 cursor visibility, 1049 the alternate
    /// screen.
    pub open spec fn private_modes(self, params: Seq<u16>, i: int, set: bool) -> ScreenView
        decreases params.len() - i,
    {
        if i < 0 || i >= params.len() {
            self
        } else {
            let p = params[i];
            let s = if p == 7 {
                ScreenView { autowrap: set, ..self }
            } else if p == 25 {
                ScreenView { cursor_visible: set, ..self }
            } else if p == 1049 {
                if set {
                    self.enter_alt_screen()
                } else {
                    self.leave_alt_screen()
                }
            } else {
                self
            };
            s.private_modes(params, i + 1, set)
        }
    }

    /// The cursor saved with the current attributes.
    pub open spec fn save_cursor(self) -> ScreenView {
        ScreenView { saved_cursor: Some((self.cursor_row, self.cursor_col, self.attrs)), ..self }
    }

    /// The saved cursor and attributes restored (kept on the screen), if any.
    pub open spec fn restore_cursor(self) -> ScreenView {
        match self.saved_cursor {
            Some((r, c, a)) => ScreenView {
                cursor_row: clamp_to(r as int, dec1(self.rows)),
                cursor_col: clamp_to(c as int, dec1(self.cols)),
                attrs: a,
                ..self
            },
            None => self,
        }
    }

    /// The row at the cursor replaced by `f` of it, when the cursor row exists.
    pub open spec fn cursor_line_ops(self, f: u8, n: u16) -> ScreenView {
        let r = self.cursor_row as int;
        let c = self.cursor_col as int;
        if r < self.grid.len() {
            let line = self.grid[r];
            let new_line = if f == 0x50 {
                delete_chars_row(line, c, n as int, self.cols as nat)
            } else if f == 0x40 {
                insert_chars_row(line, c, n as nat, self.cols as nat)
            } else {
                blank_between(line, c, min_int(c + n, self.cols as int))
            };
            ScreenView { grid: self.grid.update(r, new_line), ..self }
        } else {
            self
        }
    }

    /// A complete control sequence `ESC [ params f` carried out.
    pub open spec fn execute_csi(self, f: u8) -> ScreenView {
        let private = csi_private(self.csi_buf);
        let params = csi_params(self.csi_buf);
        let p0: u16 = if params.len() > 0 { params[0] } else { 0 };
        let p1: u16 = if params.len() > 1 { params[1] } else { 0 };
        let n = at_least_one(p0);
        let rmax = dec1(self.rows);
        let cmax = dec1(self.cols);
        if f == 0x41 {
            // CUU
            ScreenView { cursor_row: sub_sat(self.cursor_row, n), pending_wrap: false, ..self }
        } else if f == 0x42 {
            // CUD
            ScreenView {
                cursor_row: clamp_to(self.cursor_row + n, rmax),
                pending_wrap: false,
                ..self
            }
        } else if f == 0x43 {
            // CUF
            ScreenView {
                cursor_col: clamp_to(self.cursor_col + n, cmax),
                pending_wrap: false,
                ..self
            }
        } else if f == 0x44 {
            // CUB
            ScreenView { cursor_col: sub_sat(self.cursor_col, n), pending_wrap: false, ..self }
        } else if f == 0x45 {
            // CNL
            ScreenView {
                cursor_row: clamp_to(self.cursor_row + n, rmax),
                cursor_col: 0,
                pending_wrap: false,
                ..self
            }
        } else if f == 0x46 {
            // CPL
            ScreenView {
                cursor_row: sub_sat(self.cursor_row, n),
                cursor_col: 0,
                pending_wrap: false,
                ..self
            }
        } else if f == 0x47 {
            // CHA
            ScreenView { cursor_col: clamp_to(n - 1, cmax), pending_wrap: false, ..self }
        } else if f == 0x48 || f == 0x66 {
            // CUP
            ScreenView {
                cursor_row: clamp_to(n - 1, rmax),
                cursor_col: clamp_to(at_least_one(p1) - 1, cmax),
                pending_wrap: false,
                ..self
            }
        } else if f == 0x4a {
            self.erase_display(p0)
        } else if f == 0x4b {
            self.erase_line(p0)
        } else if f == 0x4c {
            self.insert_lines(n)
        } else if f == 0x4d {
            self.delete_lines(n)
        } else if f == 0x50 || f == 0x40 || f == 0x58 {
            // DCH, ICH, ECH
            self.cursor_line_ops(f, n)
        } else if f == 0x53 && !private {
            self.scroll_up_region(n)
        } else if f == 0x54 && !private {
            self.scroll_down_region(n)
        } else if f == 0x64 {
            // VPA
            ScreenView { cursor_row: clamp_to(n - 1, rmax), pending_wrap: false, ..self }
        } else if f == 0x6d {
            ScreenView { attrs: sgr(self.attrs, params), ..self }
        } else if f == 0x72 && !private {
            // DECSTBM
            let top = (n - 1) as u16;
            let bot = if p1 == 0 { rmax } else { clamp_to(p1 - 1, rmax) };
            let s = if top < bot {
                ScreenView { scroll_top: top, scroll_bottom: bot, ..self }
            } else {
                self
            };
            ScreenView { cursor_row: 0, cursor_col: 0, pending_wrap: false, ..s }
        } else if f == 0x73 && !private {
            self.save_cursor()
        } else if f == 0x75 && !private {
            ScreenView { pending_wrap: false, ..self.restore_cursor() }
        } else if f == 0x68 && private {
            self.private_modes(params, 0, true)
        } else if f == 0x6c && private {
            self.private_modes(params, 0, false)
        } else if f == 0x6e && !private && p0 == 6 {
            ScreenView {
                responses: self.responses.push(
                    cursor_report((self.cursor_row + 1) as nat, (self.cursor_col + 1) as nat),
                ),
                ..self
            }
        } else if f == 0x63 && !private {
            ScreenView { responses: self.responses.push(device_attributes()), ..self }
        } else {
            self
        }
    }

    /// A byte inside a control sequence: a parameter byte is kept, a final
    /// byte carries the sequence out, anything else abandons it.
    pub open spec fn csi_byte(self, b: u8) -> ScreenView {
        if 0x20 <= b && b <= 0x3f {
            ScreenView { csi_buf: self.csi_buf.push(b), ..self }
        } else if 0x40 <= b && b <= 0x7e {
            ScreenView { state: ParseState::Normal, ..self.execute_csi(b) }
        } else {
            ScreenView { state: ParseState::Normal, ..self }
        }
    }

    /// The byte after `ESC`.
    pub open spec fn escape(self, b: u8) -> ScreenView {
        if b == 0x5b {
            ScreenView { state: ParseState::Csi, csi_buf: Seq::empty(), ..self }
        } else if b == 0x5d {
            ScreenView { state: ParseState::Osc, ..self }
        } else if b == 0x37 {
            ScreenView { state: ParseState::Normal, ..self.save_cursor() }
        } else if b == 0x38 {
            ScreenView { state: ParseState::Normal, ..self.restore_cursor() }
        } else if b == 0x63 {
            ScreenView::initial(self.rows, self.cols)
        } else if b == 0x44 {
            ScreenView { state: ParseState::Normal, ..self.linefeed() }
        } else if b == 0x4d {
            let s = if self.cursor_row == self.scroll_top {
                self.scroll_down_region(1)
            } else if self.cursor_row > 0 {
                ScreenView { cursor_row: (self.cursor_row - 1) as u16, ..self }
            } else {
                self
            };
            ScreenView { state: ParseState::Normal, ..s }
        } else if b == 0x28 || b == 0x29 || b == 0x2a || b == 0x2b || b == 0x2d || b == 0x2e || b
            == 0x2f {
            ScreenView { state: ParseState::EatOne, ..self }
        } else {
            ScreenView { state: ParseState::Normal, ..self }
        }
    }

    /// A byte of a multi-byte UTF-8 character: printed once the buffered
    /// bytes encode one character, dropped with them once four bytes do not.
    pub open spec fn utf8_byte(self, b: u8) -> ScreenView {
        let buf = self.utf8_buf.push(b);
        match utf8_char(buf) {
            Some(ch) => ScreenView {
                utf8_buf: Seq::empty(),
                ..ScreenView { utf8_buf: buf, ..self }.put_char(ch)
            },
            None => if buf.len() >= 4 {
                ScreenView { utf8_buf: Seq::empty(), ..self }
            } else {
                ScreenView { utf8_buf: buf, ..self }
            },
        }
    }

    /// One byte from the terminal.
    #[verifier::opaque]
    pub open spec fn step(self, b: u8) -> ScreenView {
        match self.state {
            ParseState::Normal => if b == 0x1b {
                ScreenView { state: ParseState::Escape, ..self }
            } else if b < 0x20 || b == 0x7f {
                self.control(b)
            } else if b < 0x80 {
                self.put_char(b as char)
            } else {
                self.utf8_byte(b)
            },
            ParseState::Escape => self.escape(b),
            ParseState::Csi => self.csi_byte(b),
            ParseState::Osc => if b == 0x07 || b == 0x9c {
                ScreenView { state: ParseState::Normal, ..self }
            } else if b == 0x1b {
                ScreenView { state: ParseState::EatOne, ..self }
            } else {
                self
            },
            ParseState::EatOne => ScreenView { state: ParseState::Normal, ..self },
        }
    }

    /// The bytes taken one by one.
    pub open spec fn process_bytes(self, bytes: Seq<u8>) -> ScreenView
        decreases bytes.len(),
    {
        if bytes.len() == 0 {
            self
        } else {
            self.process_bytes(bytes.drop_last()).step(bytes.last())
        }
    }

    /// What `Screen::process` does: new output snaps the view back to the
    /// live screen, then every byte is taken.
    pub open spec fn feed(self, bytes: Seq<u8>) -> ScreenView {
        let s = if bytes.len() > 0 { ScreenView { scroll_offset: 0, ..self } } else { self };
        s.process_bytes(bytes)
    }

    // ── Scrollback view ─────────────────────────────────────────────

    /// The view scrolled back by `n` more lines, at most to the oldest line
    /// of the scrollback.
    pub open spec fn scrolled_up(self, n: usize) -> ScreenView {
        ScreenView {
            scroll_offset: min_int(self.scroll_offset + n, self.scrollback.len() as int) as usize,
            ..self
        }
    }

    /// The view scrolled `n` lines towards the live screen, at most to it.
    pub open spec fn scrolled_down(self, n: usize) -> ScreenView {
        ScreenView {
            scroll_offset: if n <= self.scroll_offset { (self.scroll_offset - n) as usize } else { 0 },
            ..self
        }
    }

    /// The cell at a visible row and column, when the view is scrolled back by
    /// `scroll_offset` lines: the top rows from the scrollback, the rest from
    /// the grid.
    pub open spec fn visible(self, vis_row: u16, col: u16) -> Option<Cell> {
        let row = vis_row as int;
        let off = self.scroll_offset as int;
        if off == 0 {
            cell_at(self.grid, row, col as int)
        } else if row < off {
            cell_at(self.scrollback, self.scrollback.len() - off + row, col as int)
        } else {
            cell_at(self.grid, row - off, col as int)
        }
    }
}

} // verus!
