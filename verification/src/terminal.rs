//! The embedded terminal: its screen, the mouse selection on it, and what
//! goes to the pseudo-terminal behind it (keys, pastes, replies).

use vstd::prelude::*;
use vstd::string::StringSliceAdditionalSpecFns;
use crate::cell::Cell;
use crate::keys::{KeyCode, KeyEvent, key_bytes, key_to_bytes};
use crate::layout::{Area, cell_in, mouse_cell, on_screen};
use crate::model::{ScreenView, dec1};
use crate::screen::Screen;
use crate::text::{chars_to_string, trim_end, trim_end_chars};

verus! {

/// Text selection anchor and endpoint (row, col) in screen coordinates.
#[derive(Debug, Clone, Copy, PartialEq, Eq, Structural)]
pub struct Selection {
    pub anchor_row: u16,
    pub anchor_col: u16,
    pub end_row: u16,
    pub end_col: u16,
}

/// `a` comes no later than `b` in reading order (row first, then column).
pub open spec fn pos_le(a: (u16, u16), b: (u16, u16)) -> bool {
    a.0 < b.0 || (a.0 == b.0 && a.1 <= b.1)
}

impl Selection {
    /// The two ends of the selection, first in reading order first.
    pub open spec fn spec_ordered(self) -> ((u16, u16), (u16, u16)) {
        let a = (self.anchor_row, self.anchor_col);
        let b = (self.end_row, self.end_col);
        if pos_le(a, b) {
            (a, b)
        } else {
            (b, a)
        }
    }

    /// Return (start, end) normalized so start <= end in reading order.
    pub fn ordered(&self) -> (r: ((u16, u16), (u16, u16)))
        ensures
            r == self.spec_ordered(),
    {
        let a = (self.anchor_row, self.anchor_col);
        let b = (self.end_row, self.end_col);
        if a.0 < b.0 || (a.0 == b.0 && a.1 <= b.1) {
            (a, b)
        } else {
            (b, a)
        }
    }

    /// Check if a cell at (row, col) falls within this selection: whether it
    /// lies, in reading order, between the two ends (both included).
    pub fn contains(&self, row: u16, col: u16) -> (b: bool)
        ensures
            b == (pos_le(self.spec_ordered().0, (row, col)) && pos_le((row, col), self.spec_ordered().1)),
    {
        let ((sr, sc), (er, ec)) = self.ordered();
        if row < sr || row > er {
            return false;
        }
        if sr == er {
            return col >= sc && col <= ec;
        }
        if row == sr {
            return col >= sc;
        }
        if row == er {
            return col <= ec;
        }
        true
    }
}

/// The text of a visible cell: nothing for the second column of a wide
/// character or a missing cell, a space for NUL.
pub open spec fn cell_text(c: Option<Cell>) -> Seq<char> {
    match c {
        Some(cell) => if cell.wide_continuation {
            seq![]
        } else if cell.ch == '\0' {
            seq![' ']
        } else {
            seq![cell.ch]
        },
        None => seq![],
    }
}

/// The text of `n` visible cells of a row from column `c0` on.
pub open spec fn row_text(s: ScreenView, row: u16, c0: int, n: nat) -> Seq<char>
    decreases n,
{
    if n == 0 {
        seq![]
    } else {
        row_text(s, row, c0, (n - 1) as nat) + cell_text(s.visible(row, (c0 + n - 1) as u16))
    }
}

/// The selected text of row `sr + k`: from the start column on the first
/// row, to the end column on the last row, otherwise across the whole width;
/// trailing whitespace dropped.
pub open spec fn selection_line(s: ScreenView, start: (u16, u16), end: (u16, u16), k: int) -> Seq<char> {
    let row = start.0 + k;
    let c0: int = if k == 0 { start.1 as int } else { 0 };
    let c1: int = if row == end.0 { end.1 as int } else { dec1(s.cols) as int };
    trim_end(if c1 >= c0 { row_text(s, row as u16, c0, (c1 - c0 + 1) as nat) } else { seq![] })
}

/// The selected lines, one per row from the start row to the end row.
pub open spec fn selection_lines(s: ScreenView, sel: Selection) -> Seq<Seq<char>> {
    let (start, end) = sel.spec_ordered();
    Seq::new((end.0 - start.0 + 1) as nat, |k: int| selection_line(s, start, end, k))
}

/// The lines without the empty ones at the end.
pub open spec fn drop_trailing_empty(ls: Seq<Seq<char>>) -> Seq<Seq<char>>
    decreases ls.len(),
{
    if ls.len() > 0 && ls.last().len() == 0 {
        drop_trailing_empty(ls.drop_last())
    } else {
        ls
    }
}

/// Lines joined by newlines.
pub open spec fn join_lines(ls: Seq<Seq<char>>) -> Seq<char>
    decreases ls.len(),
{
    if ls.len() == 0 {
        seq![]
    } else if ls.len() == 1 {
        ls[0]
    } else {
        join_lines(ls.drop_last()) + seq!['\n'] + ls.last()
    }
}

/// The text a selection covers, if it is not empty.
pub open spec fn selected_text(s: ScreenView, sel: Option<Selection>) -> Option<Seq<char>> {
    match sel {
        None => None,
        Some(sel) => {
            let text = join_lines(drop_trailing_empty(selection_lines(s, sel)));
            if text.len() == 0 {
                None
            } else {
                Some(text)
            }
        },
    }
}

/// Bracketed paste start and end.
pub open spec fn paste_start() -> Seq<u8> {
    seq![0x1bu8, 0x5bu8, 0x32u8, 0x30u8, 0x30u8, 0x7eu8]
}

pub open spec fn paste_end() -> Seq<u8> {
    seq![0x1bu8, 0x5bu8, 0x32u8, 0x30u8, 0x31u8, 0x7eu8]
}

/// The bytes cut into pieces of at most `size` bytes.
pub open spec fn chunks(b: Seq<u8>, size: nat) -> Seq<Seq<u8>>
    decreases b.len(),
{
    if b.len() == 0 || size == 0 {
        seq![]
    } else if b.len() <= size {
        seq![b]
    } else {
        seq![b.take(size as int)] + chunks(b.skip(size as int), size)
    }
}

/// The state of the embedded terminal.
pub struct TerminalView {
    pub screen: ScreenView,
    pub cols: u16,
    pub rows: u16,
    pub exited: bool,
    pub selection: Option<Selection>,
}

/// Embedded interactive terminal: the screen emulator and the selection on
/// it. The pseudo-terminal it talks to is driven by the caller, which writes
/// what `key_input`, `paste_input` and `take_responses` give.
pub struct TerminalModal {
    screen: Screen,
    cols: u16,
    rows: u16,
    exited: bool,
    /// Current mouse text selection (if any).
    pub selection: Option<Selection>,
}

impl View for TerminalModal {
    type V = TerminalView;

    closed spec fn view(&self) -> TerminalView {
        TerminalView {
            screen: self.screen@,
            cols: self.cols,
            rows: self.rows,
            exited: self.exited,
            selection: self.selection,
        }
    }
}

impl TerminalModal {
    /// A terminal of the given size with a fresh screen, nothing selected.
    pub fn new(cols: u16, rows: u16) -> (t: TerminalModal)
        ensures
            t@ == (TerminalView {
                screen: ScreenView::initial(rows, cols),
                cols,
                rows,
                exited: false,
                selection: None,
            }),
            rows > 0 ==> t@.screen.well_formed(),
    {
        TerminalModal { screen: Screen::new(rows, cols), cols, rows, exited: false, selection: None }
    }

    /// Feeds output of the pseudo-terminal into the screen.
    pub fn process_output(&mut self, bytes: &[u8])
        ensures
            final(self)@ == (TerminalView { screen: old(self)@.screen.feed(bytes@), ..old(self)@ }),
            old(self)@.screen.well_formed() ==> final(self)@.screen.well_formed(),
    {
        self.screen.process(bytes);
    }

    /// Takes the replies (e.g. cursor position reports) the screen has for
    /// the pseudo-terminal, oldest first.
    pub fn take_responses(&mut self) -> (r: Vec<Vec<u8>>)
        ensures
            r@.map_values(|v: Vec<u8>| v@) == old(self)@.screen.responses,
            final(self)@ == (TerminalView {
                screen: ScreenView { responses: seq![], ..old(self)@.screen },
                ..old(self)@
            }),
    {
        self.screen.take_responses()
    }

    /// Records that the shell has exited.
    pub fn mark_exited(&mut self)
        ensures
            final(self)@ == (TerminalView { exited: true, ..old(self)@ }),
    {
        self.exited = true;
    }

    /// The bytes a key press sends: none once the shell has exited.
    pub fn key_input(&self, key: &KeyEvent) -> (r: Option<Vec<u8>>)
        ensures
            self@.exited ==> r is None,
            !self@.exited ==> (r matches Some(v) ==> key_bytes(*key) == Some(v@)),
            !self@.exited ==> (r is None ==> key_bytes(*key) is None),
    {
        if self.exited {
            return None;
        }
        key_to_bytes(key)
    }

    /// The writes a paste makes, wrapped in bracketed-paste sequences so
    /// shells (bash, zsh) handle multi-byte UTF-8 and special characters
    /// correctly, the text cut into pieces of at most 4096 bytes so as not to
    /// overflow the PTY buffer; none once the shell has exited.
    pub fn paste_input(&self, text: &str) -> (r: Option<Vec<Vec<u8>>>)
        ensures
            self@.exited ==> r is None,
            !self@.exited ==> (r is Some && r->0@.map_values(|v: Vec<u8>| v@) == seq![paste_start()]
                + chunks(text.spec_bytes(), 4096) + seq![paste_end()]),
    {
        if self.exited {
            return None;
        }
        let bytes = text.as_bytes();
        let mut out: Vec<Vec<u8>> = Vec::new();
        out.push(vec![0x1b, 0x5b, 0x32, 0x30, 0x30, 0x7e]);
        let ghost b = bytes@;
        let mut pos: usize = 0;
        proof {
            assert(out@.map_values(|v: Vec<u8>| v@) =~= seq![paste_start()]);
            assert(b.skip(0) =~= b);
        }
        while pos < bytes.len()
            invariant
                pos <= b.len(),
                b == bytes@,
                out@.map_values(|v: Vec<u8>| v@) + chunks(b.skip(pos as int), 4096) == seq![paste_start()] + chunks(b, 4096),
            decreases b.len() - pos,
        {
            let end = if bytes.len() - pos <= 4096 { bytes.len() } else { pos + 4096 };
            let mut chunk: Vec<u8> = Vec::new();
            let mut j = pos;
            while j < end
                invariant
                    pos <= j <= end <= b.len(),
                    b == bytes@,
                    chunk@ == b.subrange(pos as int, j as int),
                decreases end - j,
            {
                chunk.push(bytes[j]);
                assert(chunk@ =~= b.subrange(pos as int, j + 1));
                j += 1;
            }
            let ghost o0 = out@.map_values(|v: Vec<u8>| v@);
            let ghost rest = b.skip(pos as int);
            let ghost cv = chunk@;
            out.push(chunk);
            proof {
                assert(out@.map_values(|v: Vec<u8>| v@) =~= o0.push(cv));
                if rest.len() <= 4096 {
                    assert(cv =~= rest);
                    assert(b.skip(end as int) =~= Seq::<u8>::empty());
                    assert(chunks(rest, 4096) =~= seq![rest]);
                } else {
                    assert(cv =~= rest.take(4096));
                    assert(rest.skip(4096) =~= b.skip(end as int));
                }
                assert(o0.push(cv) + chunks(b.skip(end as int), 4096) =~= o0 + chunks(rest, 4096));
            }
            pos = end;
        }
        let ghost o1 = out@.map_values(|v: Vec<u8>| v@);
        out.push(vec![0x1b, 0x5b, 0x32, 0x30, 0x31, 0x7e]);
        proof {
            assert(b.skip(b.len() as int) =~= Seq::<u8>::empty());
            assert(o1 =~= seq![paste_start()] + chunks(b, 4096));
            assert(out@.map_values(|v: Vec<u8>| v@) =~= o1.push(paste_end()));
        }
        Some(out)
    }

    /// Resizes the screen; false (and nothing changed) when the size is the
    /// same, true when the pseudo-terminal must be resized too.
    pub fn resize(&mut self, cols: u16, rows: u16) -> (changed: bool)
        ensures
            changed == !(cols == old(self)@.cols && rows == old(self)@.rows),
            !changed ==> final(self)@ == old(self)@,
            changed ==> final(self)@ == (TerminalView {
                cols,
                rows,
                screen: old(self)@.screen.resized(rows, cols),
                ..old(self)@
            }),
            old(self)@.screen.well_formed() && rows > 0 ==> final(self)@.screen.well_formed(),
    {
        if cols == self.cols && rows == self.rows {
            return false;
        }
        self.cols = cols;
        self.rows = rows;
        self.screen.set_size(rows, cols);
        true
    }

    pub fn screen(&self) -> (s: &Screen)
        ensures
            s@ == self@.screen,
    {
        &self.screen
    }

    pub fn screen_mut(&mut self) -> (s: &mut Screen)
        ensures
            s@ == old(self)@.screen,
            final(self)@ == (TerminalView { screen: final(s)@, ..old(self)@ }),
    {
        &mut self.screen
    }

    pub fn has_exited(&self) -> (b: bool)
        ensures
            b == self@.exited,
    {
        self.exited
    }

    /// Begin a new text selection at the given screen coordinate.
    pub fn start_selection(&mut self, row: u16, col: u16)
        ensures
            final(self)@ == (TerminalView {
                selection: Some(Selection { anchor_row: row, anchor_col: col, end_row: row, end_col: col }),
                ..old(self)@
            }),
    {
        self.selection = Some(Selection { anchor_row: row, anchor_col: col, end_row: row, end_col: col });
    }

    /// Update the endpoint of the current selection.
    pub fn update_selection(&mut self, row: u16, col: u16)
        ensures
            final(self)@ == (TerminalView {
                selection: match old(self)@.selection {
                    Some(s) => Some(Selection { end_row: row, end_col: col, ..s }),
                    None => None,
                },
                ..old(self)@
            }),
    {
        if let Some(sel) = self.selection {
            self.selection = Some(Selection { end_row: row, end_col: col, ..sel });
        }
    }

    /// Clear the current selection.
    pub fn clear_selection(&mut self)
        ensures
            final(self)@ == (TerminalView { selection: None, ..old(self)@ }),
    {
        self.selection = None;
    }
}

/// The visible text of columns `col_start..=col_end` of a row.
fn row_chars(screen: &Screen, row: u16, col_start: u16, col_end: u16) -> (line: Vec<char>)
    ensures
        line@ == (if col_end >= col_start {
            row_text(screen@, row, col_start as int, (col_end - col_start + 1) as nat)
        } else {
            seq![]
        }),
{
    let mut line: Vec<char> = Vec::new();
    if col_end < col_start {
        return line;
    }
    let mut col: u32 = col_start as u32;
    while col <= col_end as u32
        invariant
            col_start <= col <= col_end as u32 + 1,
            line@ == row_text(screen@, row, col_start as int, (col - col_start) as nat),
        decreases col_end as u32 + 1 - col,
    {
        match screen.visible_cell(row, col as u16) {
            Some(cell) => {
                if !cell.wide_continuation {
                    let ch = if cell.ch == '\0' { ' ' } else { cell.ch };
                    line.push(ch);
                }
            },
            None => {},
        }
        assert(line@ =~= row_text(screen@, row, col_start as int, (col + 1 - col_start) as nat));
        col += 1;
    }
    line
}

impl TerminalModal {
    /// Extract selected text from the screen (accounts for scrollback).
    pub fn extract_selected_text(&self) -> (r: Option<String>)
        ensures
            r matches Some(t) ==> selected_text(self@.screen, self@.selection) == Some(t@),
            r is None ==> selected_text(self@.screen, self@.selection) is None,
    {
        let sel = match self.selection {
            Some(s) => s,
            None => {
                return None;
            },
        };
        let ((sr, sc), (er, ec)) = sel.ordered();
        let ghost start = (sr, sc);
        let ghost end = (er, ec);
        let ghost sv = self@.screen;
        let cols = self.screen.size().1;
        let last_col: u16 = if cols == 0 { 0 } else { cols - 1 };
        let mut lines: Vec<Vec<char>> = Vec::new();
        let mut row: u32 = sr as u32;
        while row <= er as u32
            invariant
                sr <= row <= er as u32 + 1,
                sr <= er,
                sv == self@.screen,
                start == (sr, sc),
                end == (er, ec),
                last_col == dec1(sv.cols),
                lines@.map_values(|l: Vec<char>| l@) =~= Seq::new(
                    (row - sr) as nat,
                    |k: int| selection_line(sv, start, end, k),
                ),
            decreases er as u32 + 1 - row,
        {
            let r16 = row as u16;
            let col_start: u16 = if r16 == sr { sc } else { 0 };
            let col_end: u16 = if r16 == er { ec } else { last_col };
            let mut line = row_chars(&self.screen, r16, col_start, col_end);
            // Trim trailing spaces from each line
            trim_end_chars(&mut line);
            let ghost l0 = lines@.map_values(|l: Vec<char>| l@);
            let ghost lv = line@;
            lines.push(line);
            proof {
                let k = (row - sr) as int;
                let c0: int = if k == 0 { start.1 as int } else { 0 };
                let c1: int = if start.0 + k == end.0 { end.1 as int } else { dec1(sv.cols) as int };
                assert(start.0 + k == row);
                assert(c0 == col_start as int);
                assert(c1 == col_end as int);
                assert(lv == selection_line(sv, start, end, k));
            }
            assert(lines@.map_values(|l: Vec<char>| l@) =~= l0.push(lv));
            row += 1;
        }
        let ghost all = lines@.map_values(|l: Vec<char>| l@);
        assert(all =~= selection_lines(sv, sel));
        // Remove empty trailing lines
        while lines.len() > 0 && lines[lines.len() - 1].len() == 0
            invariant
                drop_trailing_empty(lines@.map_values(|l: Vec<char>| l@)) == drop_trailing_empty(all),
            decreases lines@.len(),
        {
            let ghost l0 = lines@.map_values(|l: Vec<char>| l@);
            lines.pop();
            assert(lines@.map_values(|l: Vec<char>| l@) =~= l0.drop_last());
        }
        let ghost kept = lines@.map_values(|l: Vec<char>| l@);
        assert(kept == drop_trailing_empty(all));
        let mut text: Vec<char> = Vec::new();
        let mut i: usize = 0;
        while i < lines.len()
            invariant
                i <= lines@.len(),
                kept == lines@.map_values(|l: Vec<char>| l@),
                text@ == join_lines(kept.take(i as int)),
            decreases lines@.len() - i,
        {
            proof {
                assert(kept.take(i + 1).drop_last() =~= kept.take(i as int));
            }
            if i > 0 {
                text.push('\n');
            }
            let mut j: usize = 0;
            let ghost t0 = text@;
            while j < lines[i].len()
                invariant
                    i < lines@.len(),
                    j <= lines@[i as int]@.len(),
                    text@ == t0 + lines@[i as int]@.take(j as int),
                decreases lines@[i as int]@.len() - j,
            {
                text.push(lines[i][j]);
                assert(text@ =~= t0 + lines@[i as int]@.take(j + 1));
                j += 1;
            }
            assert(lines@[i as int]@.take(j as int) =~= lines@[i as int]@);
            assert(text@ =~= join_lines(kept.take(i + 1)));
            i += 1;
        }
        assert(kept.take(lines@.len() as int) =~= kept);
        if text.len() == 0 {
            None
        } else {
            Some(chars_to_string(&text))
        }
    }
}

/// What a key does while the terminal is shown: Ctrl+Up/Down scroll the
/// view by one line, Ctrl+PageUp/PageDown by half the screen height (at least
/// one line); any other key returns the view to the live screen, clears the
/// selection and goes to the shell (the bytes it sends, none once the shell
/// has exited).
pub open spec fn visible_key(t: TerminalView, key: KeyEvent) -> (TerminalView, Option<Seq<u8>>) {
    let ctrl = key.modifiers.control;
    let half = if t.screen.rows / 2 >= 1 { (t.screen.rows / 2) as usize } else { 1usize };
    if ctrl && key.code == KeyCode::Up {
        (TerminalView { screen: t.screen.scrolled_up(1), ..t }, None)
    } else if ctrl && key.code == KeyCode::Down {
        (TerminalView { screen: t.screen.scrolled_down(1), ..t }, None)
    } else if ctrl && key.code == KeyCode::PageUp {
        (TerminalView { screen: t.screen.scrolled_up(half), ..t }, None)
    } else if ctrl && key.code == KeyCode::PageDown {
        (TerminalView { screen: t.screen.scrolled_down(half), ..t }, None)
    } else {
        (
            TerminalView {
                screen: ScreenView { scroll_offset: 0, ..t.screen },
                selection: None,
                ..t
            },
            if t.exited { None } else { key_bytes(key) },
        )
    }
}

impl TerminalModal {
    /// Handles a key while the terminal is shown (see `visible_key`); gives
    /// the bytes to write to the shell, if any.
    pub fn handle_visible_key(&mut self, key: &KeyEvent) -> (r: Option<Vec<u8>>)
        ensures
            final(self)@ == visible_key(old(self)@, *key).0,
            r matches Some(v) ==> visible_key(old(self)@, *key).1 == Some(v@),
            r is None ==> visible_key(old(self)@, *key).1 is None,
    {
        let ctrl = key.modifiers.control;
        let rows = self.screen.size().0;
        let half: usize = if rows / 2 >= 1 { (rows / 2) as usize } else { 1 };
        match key.code {
            // Ctrl+Up: scroll up 1 line
            KeyCode::Up if ctrl => {
                self.screen.scroll_up(1);
                None
            },
            // Ctrl+Down: scroll down 1 line
            KeyCode::Down if ctrl => {
                self.screen.scroll_down(1);
                None
            },
            // Ctrl+PageUp: scroll up half page
            KeyCode::PageUp if ctrl => {
                self.screen.scroll_up(half);
                None
            },
            // Ctrl+PageDown: scroll down half page
            KeyCode::PageDown if ctrl => {
                self.screen.scroll_down(half);
                None
            },
            _ => {
                // Any other key snaps to live view and forwards to PTY
                self.screen.snap_to_bottom();
                // Clear selection on any keypress
                self.clear_selection();
                self.key_input(key)
            },
        }
    }
}

/// The size (columns, rows) of a new terminal for a window of `width` by
/// `height` cells: an overlay of 90% of the width (at least 20) and 85% of
/// the height left by the five interface rows (at least 10), less its border.
pub open spec fn open_size(width: u16, height: u16) -> (u16, u16) {
    let chat_h: int = if height >= 5 { height - 5 } else { 0 };
    let overlay_w: int = if width * 90 / 100 >= 20 { width * 90 / 100 } else { 20 };
    let overlay_h: int = if chat_h * 85 / 100 >= 10 { chat_h * 85 / 100 } else { 10 };
    ((overlay_w - 2) as u16, (overlay_h - 2) as u16)
}

/// The size of a new terminal for the window size (see `open_size`).
pub fn terminal_open_size(width: u16, height: u16) -> (r: (u16, u16))
    ensures
        r == open_size(width, height),
{
    let chat_h: u32 = if height >= 5 { (height - 5) as u32 } else { 0 };
    let w90: u32 = width as u32 * 90 / 100;
    let h85: u32 = chat_h * 85 / 100;
    let overlay_w: u32 = if w90 >= 20 { w90 } else { 20 };
    let overlay_h: u32 = if h85 >= 10 { h85 } else { 10 };
    ((overlay_w - 2) as u16, (overlay_h - 2) as u16)
}

// ── The mouse on the overlay ────────────────────────────────────────────

/// What the mouse did, as the overlay tells it apart.
#[derive(Debug, Clone, Copy, PartialEq, Eq, Structural)]
pub enum MouseKind {
    /// The left button went down.
    LeftDown,
    /// The mouse moved with the left button held.
    LeftDrag,
    /// The left button came up.
    LeftUp,
    ScrollUp,
    ScrollDown,
    /// Anything else (other buttons, plain moves).
    Other,
}

/// What a mouse event at (`col`, `row`) of the whole screen does to the
/// terminal whose text fills `inner`: inside it, a press starts a selection
/// at that cell, a drag or a release moves the selection's end there, and
/// the wheel scrolls the view three lines into the history or back; any
/// event outside clears the selection.
pub open spec fn mouse_step(t: TerminalView, inner: Area, kind: MouseKind, col: u16, row: u16) -> TerminalView {
    match cell_in(inner, col, row) {
        None => TerminalView { selection: None, ..t },
        Some((r, c)) => match kind {
            MouseKind::LeftDown => TerminalView {
                selection: Some(Selection { anchor_row: r, anchor_col: c, end_row: r, end_col: c }),
                ..t
            },
            MouseKind::LeftDrag | MouseKind::LeftUp => TerminalView {
                selection: match t.selection {
                    Some(s) => Some(Selection { end_row: r, end_col: c, ..s }),
                    None => None,
                },
                ..t
            },
            MouseKind::ScrollUp => TerminalView { screen: t.screen.scrolled_up(3), ..t },
            MouseKind::ScrollDown => TerminalView { screen: t.screen.scrolled_down(3), ..t },
            MouseKind::Other => t,
        },
    }
}

impl TerminalModal {
    /// A mouse event on the overlay (see `mouse_step`). When the left button
    /// comes up inside, the result is the selected text, to be copied to the
    /// clipboard; otherwise it is `None`.
    pub fn handle_mouse(&mut self, inner: Area, kind: MouseKind, col: u16, row: u16) -> (copied: Option<String>)
        requires
            on_screen(inner),
        ensures
            final(self)@ == mouse_step(old(self)@, inner, kind, col, row),
            kind == MouseKind::LeftUp && cell_in(inner, col, row) is Some ==> match copied {
                Some(t) => selected_text(final(self)@.screen, final(self)@.selection) == Some(t@),
                None => selected_text(final(self)@.screen, final(self)@.selection) is None,
            },
            !(kind == MouseKind::LeftUp && cell_in(inner, col, row) is Some) ==> copied is None,
    {
        match mouse_cell(inner, col, row) {
            None => {
                self.clear_selection();
                None
            },
            Some((r, c)) => match kind {
                MouseKind::LeftDown => {
                    self.start_selection(r, c);
                    None
                },
                MouseKind::LeftDrag => {
                    self.update_selection(r, c);
                    None
                },
                MouseKind::LeftUp => {
                    self.update_selection(r, c);
                    self.extract_selected_text()
                },
                MouseKind::ScrollUp => {
                    self.screen.scroll_up(3);
                    None
                },
                MouseKind::ScrollDown => {
                    self.screen.scroll_down(3);
                    None
                },
                MouseKind::Other => None,
            },
        }
    }
}

// ── Laws of the selection ───────────────────────────────────────────────

proof fn lemma_row_text_len(s: ScreenView, row: u16, c0: int, n: nat)
    ensures
        row_text(s, row, c0, n).len() <= n,
    decreases n,
{
    if n > 0 {
        lemma_row_text_len(s, row, c0, (n - 1) as nat);
    }
}

/// A selection on one row copies the text of exactly the columns between
/// its two ends (both included, in either order), trailing whitespace
/// dropped; nothing when that is empty.
pub proof fn law_one_row_selection(s: ScreenView, sel: Selection)
    requires
        sel.anchor_row == sel.end_row,
    ensures
        ({
            let a = if sel.anchor_col <= sel.end_col { sel.anchor_col } else { sel.end_col };
            let b = if sel.anchor_col <= sel.end_col { sel.end_col } else { sel.anchor_col };
            let t = trim_end(row_text(s, sel.anchor_row, a as int, (b - a + 1) as nat));
            selected_text(s, Some(sel)) == (if t.len() == 0 { None } else { Some(t) })
        }),
{
    let (start, end) = sel.spec_ordered();
    let ls = selection_lines(s, sel);
    assert(ls.len() == 1);
    assert(ls =~= seq![selection_line(s, start, end, 0)]);
    let t = ls[0];
    if t.len() == 0 {
        assert(ls.drop_last() =~= Seq::<Seq<char>>::empty());
        assert(drop_trailing_empty(ls.drop_last()) =~= Seq::<Seq<char>>::empty());
    } else {
        assert(drop_trailing_empty(ls) == ls);
    }
}

/// The last selected row holds no cell to the right of the selection's
/// end: its line has at most as many characters as there are columns up to
/// the end column (from the start column on, when it is also the first
/// row).
pub proof fn law_selection_stays_within(s: ScreenView, sel: Selection)
    ensures
        selection_lines(s, sel).last().len() <= sel.spec_ordered().1.1 + 1,
        sel.spec_ordered().0.0 == sel.spec_ordered().1.0 ==> selection_lines(s, sel).last().len()
            <= sel.spec_ordered().1.1 - sel.spec_ordered().0.1 + 1,
{
    let (start, end) = sel.spec_ordered();
    let ls = selection_lines(s, sel);
    assert forall|k: int| 0 <= k < ls.len() && start.0 + k == end.0 implies
        (#[trigger] ls[k]).len() <= end.1 + 1 && (k == 0 ==> ls[k].len() <= end.1 - start.1 + 1) by {
        let row = start.0 + k;
        let c0: int = if k == 0 { start.1 as int } else { 0 };
        let c1: int = if row == end.0 { end.1 as int } else { dec1(s.cols) as int };
        let raw = if c1 >= c0 { row_text(s, row as u16, c0, (c1 - c0 + 1) as nat) } else { seq![] };
        if c1 >= c0 {
            lemma_row_text_len(s, row as u16, c0, (c1 - c0 + 1) as nat);
        }
        crate::text::lemma_trim_end_prefix(raw);
        assert(ls[k] == trim_end(raw));
    }
    assert(start.0 + (ls.len() - 1) == end.0);
}

/// A selection over several rows copies, one line per row and trailing
/// whitespace dropped from each: the first row from the selection's start
/// column to the right edge, every row between across the whole width, and
/// the last row from the left edge through the selection's end column
/// (both ends taken in reading order).
pub proof fn law_many_row_selection(s: ScreenView, sel: Selection)
    requires
        sel.anchor_row != sel.end_row,
        s.cols > 0,
    ensures
        ({
            let (start, end) = sel.spec_ordered();
            let ls = selection_lines(s, sel);
            &&& ls.len() == end.0 - start.0 + 1
            &&& ls[0] == trim_end(row_text(s, start.0, start.1 as int, (s.cols - start.1) as nat))
                || start.1 >= s.cols
            &&& (forall|k: int| 0 < k < ls.len() - 1 ==> #[trigger] ls[k] == trim_end(
                row_text(s, (start.0 + k) as u16, 0, s.cols as nat)))
            &&& ls[ls.len() - 1] == trim_end(row_text(s, end.0, 0, (end.1 + 1) as nat))
        }),
{
    let (start, end) = sel.spec_ordered();
    assert(start.0 < end.0);
}

} // verus!
