//! What holds of the screen emulator across calls: feeding output in pieces
//! is feeding it at once, and the screen stays well formed.

use vstd::prelude::*;
use crate::cell::{Attrs, Cell, CellColor, blank_cell};
use crate::grid::{blank_row, blank_grid};
use crate::model::{ScreenView, ParseState, min_int, shaped, bounded_push};

verus! {

// ── What the repeated operations leave alone ────────────────────────────

pub broadcast proof fn lemma_scroll_up_times_frame(s: ScreenView, k: nat)
    ensures
        #[trigger] s.scroll_up_times(k) == (ScreenView {
            grid: s.scroll_up_times(k).grid,
            scrollback: s.scroll_up_times(k).scrollback,
            ..s
        }),
    decreases k,
{
    if k > 0 {
        lemma_scroll_up_times_frame(s, (k - 1) as nat);
    }
}

pub broadcast proof fn lemma_scroll_down_times_frame(s: ScreenView, k: nat)
    ensures
        #[trigger] s.scroll_down_times(k) == (ScreenView { grid: s.scroll_down_times(k).grid, ..s }),
    decreases k,
{
    if k > 0 {
        lemma_scroll_down_times_frame(s, (k - 1) as nat);
    }
}

pub broadcast proof fn lemma_insert_lines_times_frame(s: ScreenView, k: nat)
    ensures
        #[trigger] s.insert_lines_times(k) == (ScreenView { grid: s.insert_lines_times(k).grid, ..s }),
    decreases k,
{
    if k > 0 {
        lemma_insert_lines_times_frame(s, (k - 1) as nat);
    }
}

pub broadcast proof fn lemma_delete_lines_times_frame(s: ScreenView, k: nat)
    ensures
        #[trigger] s.delete_lines_times(k) == (ScreenView { grid: s.delete_lines_times(k).grid, ..s }),
    decreases k,
{
    if k > 0 {
        lemma_delete_lines_times_frame(s, (k - 1) as nat);
    }
}

/// Setting private modes touches only the modes, the grids, the cursor and
/// the attributes.
pub broadcast proof fn lemma_private_modes_frame(s: ScreenView, params: Seq<u16>, i: int, set: bool)
    ensures
        #![trigger s.private_modes(params, i, set)]
        s.private_modes(params, i, set).rows == s.rows,
        s.private_modes(params, i, set).cols == s.cols,
        s.private_modes(params, i, set).scroll_offset == s.scroll_offset,
        s.private_modes(params, i, set).scrollback == s.scrollback,
        s.private_modes(params, i, set).scrollback_limit == s.scrollback_limit,
        s.private_modes(params, i, set).scroll_bottom == s.scroll_bottom,
        s.private_modes(params, i, set).utf8_buf == s.utf8_buf,
    decreases params.len() - i,
{
    if 0 <= i < params.len() {
        let p = params[i];
        let t = if p == 7 {
            ScreenView { autowrap: set, ..s }
        } else if p == 25 {
            ScreenView { cursor_visible: set, ..s }
        } else if p == 1049 {
            if set {
                s.enter_alt_screen()
            } else {
                s.leave_alt_screen()
            }
        } else {
            s
        };
        lemma_private_modes_frame(t, params, i + 1, set);
    }
}

pub broadcast group group_screen_frames {
    lemma_scroll_up_times_frame,
    lemma_scroll_down_times_frame,
    lemma_insert_lines_times_frame,
    lemma_delete_lines_times_frame,
    lemma_private_modes_frame,
}

// ── Feeding output in pieces ────────────────────────────────────────────

/// Bytes never scroll the view back: from the live view, a step stays there.
proof fn lemma_step_keeps_live_view(s: ScreenView, b: u8)
    requires
        s.scroll_offset == 0,
    ensures
        s.step(b).scroll_offset == 0,
{
    broadcast use group_screen_frames;
    reveal(ScreenView::step);
}

proof fn lemma_process_keeps_live_view(s: ScreenView, bytes: Seq<u8>)
    requires
        s.scroll_offset == 0,
    ensures
        s.process_bytes(bytes).scroll_offset == 0,
    decreases bytes.len(),
{
    if bytes.len() > 0 {
        lemma_process_keeps_live_view(s, bytes.drop_last());
        lemma_step_keeps_live_view(s.process_bytes(bytes.drop_last()), bytes.last());
    }
}

proof fn lemma_process_concat(s: ScreenView, a: Seq<u8>, b: Seq<u8>)
    ensures
        s.process_bytes(a + b) == s.process_bytes(a).process_bytes(b),
    decreases b.len(),
{
    if b.len() == 0 {
        assert(a + b =~= a);
    } else {
        lemma_process_concat(s, a, b.drop_last());
        assert((a + b).drop_last() =~= a + b.drop_last());
        assert((a + b).last() == b.last());
    }
}

/// Output fed in two pieces leaves the screen as the same output fed at once:
/// the parser keeps its place between calls, so where the pseudo-terminal's
/// reads happen to split the stream does not matter.
pub proof fn law_feed_in_pieces(s: ScreenView, a: Seq<u8>, b: Seq<u8>)
    ensures
        s.feed(a).feed(b) == s.feed(a + b),
{
    if a.len() == 0 {
        assert(a + b =~= b);
    } else {
        let s0 = ScreenView { scroll_offset: 0, ..s };
        lemma_process_concat(s0, a, b);
        lemma_process_keeps_live_view(s0, a);
        let t = s0.process_bytes(a);
        if b.len() > 0 {
            assert(ScreenView { scroll_offset: 0, ..t } == t);
        }
    }
}

// ── The screen stays well formed ────────────────────────────────────────

proof fn lemma_shaped_remove_insert(g: Seq<Seq<Cell>>, i: int, j: int, row: Seq<Cell>, rows: u16, cols: u16)
    requires
        shaped(g, rows, cols),
        0 <= i < g.len(),
        0 <= j < g.len(),
        row.len() == cols as nat,
    ensures
        shaped(g.remove(i).insert(j, row), rows, cols),
{
    let h = g.remove(i);
    assert(h.len() == g.len() - 1);
    assert forall|k: int| 0 <= k < h.len() implies (#[trigger] h[k]).len() == cols as nat by {
        if k < i {
            assert(h[k] == g[k]);
        } else {
            assert(h[k] == g[k + 1]);
        }
    }
    let r = h.insert(j, row);
    assert(r.len() == g.len());
    assert forall|k: int| 0 <= k < r.len() implies (#[trigger] r[k]).len() == cols as nat by {
        if k < j {
            assert(r[k] == h[k]);
        } else if k == j {
            assert(r[k] == row);
        } else {
            assert(r[k] == h[k - 1]);
        }
    }
}

proof fn lemma_shaped_update(g: Seq<Seq<Cell>>, i: int, row: Seq<Cell>, rows: u16, cols: u16)
    requires
        shaped(g, rows, cols),
        0 <= i < g.len(),
        row.len() == cols as nat,
    ensures
        shaped(g.update(i, row), rows, cols),
{
    assert forall|k: int| 0 <= k < g.update(i, row).len() implies (#[trigger] g.update(i, row)[k]).len()
        == cols as nat by {
        if k != i {
            assert(g.update(i, row)[k] == g[k]);
        }
    }
}

proof fn lemma_bounded_push(sb: Seq<Seq<Cell>>, row: Seq<Cell>, limit: nat)
    requires
        sb.len() <= limit,
    ensures
        sb.len() <= bounded_push(sb, row, limit).len() <= limit || (limit == 0 && bounded_push(sb, row, limit).len() == 0),
{
}

proof fn lemma_scroll_up_times_shape(s: ScreenView, k: nat)
    requires
        shaped(s.grid, s.rows, s.cols),
        s.scroll_top <= s.scroll_bottom,
        (s.scroll_bottom as int) < s.grid.len(),
        s.scrollback.len() <= s.scrollback_limit,
    ensures
        shaped(s.scroll_up_times(k).grid, s.rows, s.cols),
        s.scrollback.len() <= s.scroll_up_times(k).scrollback.len() <= s.scrollback_limit,
    decreases k,
{
    broadcast use group_screen_frames;
    if k > 0 {
        lemma_scroll_up_times_shape(s, (k - 1) as nat);
        let t = s.scroll_up_times((k - 1) as nat);
        lemma_shaped_remove_insert(t.grid, t.scroll_top as int, t.scroll_bottom as int, blank_row(t.cols as nat), t.rows, t.cols);
        if t.scroll_top == 0 && t.alt_grid is None {
            lemma_bounded_push(t.scrollback, t.grid[t.scroll_top as int], t.scrollback_limit as nat);
        }
    }
}

proof fn lemma_scroll_down_times_shape(s: ScreenView, k: nat)
    requires
        shaped(s.grid, s.rows, s.cols),
        s.scroll_top <= s.scroll_bottom,
        (s.scroll_bottom as int) < s.grid.len(),
    ensures
        shaped(s.scroll_down_times(k).grid, s.rows, s.cols),
    decreases k,
{
    broadcast use group_screen_frames;
    if k > 0 {
        lemma_scroll_down_times_shape(s, (k - 1) as nat);
        let t = s.scroll_down_times((k - 1) as nat);
        lemma_shaped_remove_insert(t.grid, t.scroll_bottom as int, t.scroll_top as int, blank_row(t.cols as nat), t.rows, t.cols);
    }
}

proof fn lemma_insert_lines_times_shape(s: ScreenView, k: nat)
    requires
        shaped(s.grid, s.rows, s.cols),
        s.cursor_row <= s.scroll_bottom,
        (s.scroll_bottom as int) < s.grid.len(),
    ensures
        shaped(s.insert_lines_times(k).grid, s.rows, s.cols),
    decreases k,
{
    broadcast use group_screen_frames;
    if k > 0 {
        lemma_insert_lines_times_shape(s, (k - 1) as nat);
        let t = s.insert_lines_times((k - 1) as nat);
        lemma_shaped_remove_insert(t.grid, t.scroll_bottom as int, t.cursor_row as int, blank_row(t.cols as nat), t.rows, t.cols);
    }
}

proof fn lemma_delete_lines_times_shape(s: ScreenView, k: nat)
    requires
        shaped(s.grid, s.rows, s.cols),
        s.cursor_row <= s.scroll_bottom,
        (s.scroll_bottom as int) < s.grid.len(),
    ensures
        shaped(s.delete_lines_times(k).grid, s.rows, s.cols),
    decreases k,
{
    broadcast use group_screen_frames;
    if k > 0 {
        lemma_delete_lines_times_shape(s, (k - 1) as nat);
        let t = s.delete_lines_times((k - 1) as nat);
        lemma_shaped_remove_insert(t.grid, t.cursor_row as int, t.scroll_bottom as int, blank_row(t.cols as nat), t.rows, t.cols);
    }
}

proof fn lemma_scroll_up_region_wf(s: ScreenView, n: u16)
    requires
        s.layout_ok(),
    ensures
        s.scroll_up_region(n).layout_ok(),
{
    broadcast use group_screen_frames;
    let top = s.scroll_top as int;
    let bot = s.scroll_bottom as int;
    if top <= bot && top < s.grid.len() && bot < s.grid.len() {
        lemma_scroll_up_times_shape(s, min_int(n as int, bot - top + 1) as nat);
    }
}

proof fn lemma_scroll_down_region_wf(s: ScreenView, n: u16)
    requires
        s.layout_ok(),
    ensures
        s.scroll_down_region(n).layout_ok(),
{
    broadcast use group_screen_frames;
    let top = s.scroll_top as int;
    let bot = s.scroll_bottom as int;
    if top <= bot && bot < s.grid.len() {
        lemma_scroll_down_times_shape(s, min_int(n as int, bot - top + 1) as nat);
    }
}

proof fn lemma_insert_lines_wf(s: ScreenView, n: u16)
    requires
        s.layout_ok(),
    ensures
        s.insert_lines(n).layout_ok(),
{
    broadcast use group_screen_frames;
    if s.cursor_row <= s.scroll_bottom {
        lemma_insert_lines_times_shape(s, min_int(n as int, s.scroll_bottom - s.cursor_row + 1) as nat);
    }
}

proof fn lemma_delete_lines_wf(s: ScreenView, n: u16)
    requires
        s.layout_ok(),
    ensures
        s.delete_lines(n).layout_ok(),
{
    broadcast use group_screen_frames;
    if s.cursor_row <= s.scroll_bottom {
        lemma_delete_lines_times_shape(s, min_int(n as int, s.scroll_bottom - s.cursor_row + 1) as nat);
    }
}

proof fn lemma_linefeed_wf(s: ScreenView)
    requires
        s.layout_ok(),
    ensures
        s.linefeed().layout_ok(),
{
    lemma_scroll_up_region_wf(s, 1);
}

proof fn lemma_blank_grid_shaped(rows: u16, cols: u16)
    ensures
        shaped(blank_grid(rows as nat, cols as nat), rows, cols),
{
}

proof fn lemma_alt_screen_wf(s: ScreenView)
    requires
        s.layout_ok(),
    ensures
        s.enter_alt_screen().layout_ok(),
        s.leave_alt_screen().layout_ok(),
{
    lemma_blank_grid_shaped(s.rows, s.cols);
}

proof fn lemma_private_modes_wf(s: ScreenView, params: Seq<u16>, i: int, set: bool)
    requires
        s.layout_ok(),
    ensures
        s.private_modes(params, i, set).layout_ok(),
    decreases params.len() - i,
{
    if 0 <= i < params.len() {
        let p = params[i];
        lemma_alt_screen_wf(s);
        let t = if p == 7 {
            ScreenView { autowrap: set, ..s }
        } else if p == 25 {
            ScreenView { cursor_visible: set, ..s }
        } else if p == 1049 {
            if set {
                s.enter_alt_screen()
            } else {
                s.leave_alt_screen()
            }
        } else {
            s
        };
        lemma_private_modes_wf(t, params, i + 1, set);
    }
}

proof fn lemma_control_wf(s: ScreenView, b: u8)
    requires
        s.layout_ok(),
    ensures
        s.control(b).layout_ok(),
{
    lemma_linefeed_wf(s);
}

proof fn lemma_put_char_wf(s: ScreenView, ch: char)
    requires
        s.layout_ok(),
    ensures
        s.put_char(ch).layout_ok(),
{
    let w = crate::model::width_of(ch);
    if w != 0 {
        lemma_linefeed_wf(ScreenView { cursor_col: 0, ..s });
        let s1 = s.wrap_if_pending();
        assert(s1.layout_ok());
        let r = s1.cursor_row as int;
        let c = s1.cursor_col as int;
        if r < s1.grid.len() && c < s1.grid[r].len() {
            let g1 = s1.grid.update(r, s1.grid[r].update(c, crate::cell::attr_cell(ch, s1.attrs)));
            lemma_shaped_update(s1.grid, r, s1.grid[r].update(c, crate::cell::attr_cell(ch, s1.attrs)), s1.rows, s1.cols);
            if w == 2 && c + 1 < g1[r].len() {
                lemma_shaped_update(g1, r, g1[r].update(c + 1, crate::cell::continuation_cell()), s1.rows, s1.cols);
            }
        }
        assert(s1.placed(ch, w).layout_ok());
    }
}

proof fn lemma_erase_wf(s: ScreenView, mode: u16)
    requires
        s.layout_ok(),
    ensures
        s.erase_display(mode).layout_ok(),
        s.erase_line(mode).layout_ok(),
{
    let r = s.cursor_row as int;
    let c = s.cursor_col as int;
    let g0 = crate::grid::blank_rows_between(s.grid, r + 1, s.grid.len() as int);
    assert(shaped(g0, s.rows, s.cols));
    lemma_shaped_update(g0, r, crate::grid::blank_from(g0[r], c), s.rows, s.cols);
    let g1 = crate::grid::blank_rows_between(s.grid, 0, r);
    assert(shaped(g1, s.rows, s.cols));
    if r < g1.len() {
        let end = min_int(c, if g1[r].len() == 0 { 0 } else { g1[r].len() - 1 });
        lemma_shaped_update(g1, r, crate::grid::blank_through(g1[r], end), s.rows, s.cols);
    }
    assert(shaped(crate::grid::blank_all_rows(s.grid), s.rows, s.cols));
    let line = s.grid[r];
    lemma_shaped_update(s.grid, r, crate::grid::blank_from(line, c), s.rows, s.cols);
    let end = min_int(c, if line.len() == 0 { 0 } else { line.len() - 1 });
    lemma_shaped_update(s.grid, r, crate::grid::blank_through(line, end), s.rows, s.cols);
    lemma_shaped_update(s.grid, r, blank_row(line.len()), s.rows, s.cols);
}

proof fn lemma_cursor_line_ops_wf(s: ScreenView, f: u8, n: u16)
    requires
        s.layout_ok(),
    ensures
        s.cursor_line_ops(f, n).layout_ok(),
{
    let r = s.cursor_row as int;
    let c = s.cursor_col as int;
    let line = s.grid[r];
    let cols = s.cols as nat;
    assert(line.len() == cols);
    let new_line = if f == 0x50 {
        crate::grid::delete_chars_row(line, c, n as int, cols)
    } else if f == 0x40 {
        crate::grid::insert_chars_row(line, c, n as nat, cols)
    } else {
        crate::grid::blank_between(line, c, min_int(c + n, cols as int))
    };
    if f == 0x50 {
        if c < line.len() {
            let k = if n < line.len() - c { n as int } else { line.len() - c };
            assert((line.take(c) + line.skip(c + k) + blank_row(k as nat)).len() == cols);
        }
    } else if f == 0x40 {
        assert((line.take(c) + blank_row(n as nat) + line.skip(c)).len() >= cols);
    }
    assert(new_line.len() == cols);
    lemma_shaped_update(s.grid, r, new_line, s.rows, s.cols);
}

/// The final bytes of the control sequences that change the grid or the
/// modes.
spec fn is_grid_csi(f: u8) -> bool {
    f == 0x4a || f == 0x4b || f == 0x4c || f == 0x4d || f == 0x50 || f == 0x40 || f == 0x58
        || f == 0x53 || f == 0x54 || f == 0x68 || f == 0x6c
}

proof fn lemma_execute_csi_wf(s: ScreenView, f: u8)
    requires
        s.layout_ok(),
    ensures
        s.execute_csi(f).layout_ok(),
{
    if is_grid_csi(f) {
        lemma_execute_grid_csi_wf(s, f);
    } else {
        lemma_execute_cursor_csi_wf(s, f);
    }
}

#[verifier::rlimit(50)]
#[verifier::spinoff_prover]
proof fn lemma_execute_cursor_csi_wf(s: ScreenView, f: u8)
    requires
        s.layout_ok(),
        !is_grid_csi(f),
    ensures
        s.execute_csi(f).layout_ok(),
{
}

#[verifier::rlimit(100)]
#[verifier::spinoff_prover]
proof fn lemma_execute_grid_csi_wf(s: ScreenView, f: u8)
    requires
        s.layout_ok(),
        is_grid_csi(f),
    ensures
        s.execute_csi(f).layout_ok(),
{
    let private = crate::parse::csi_private(s.csi_buf);
    let params = crate::parse::csi_params(s.csi_buf);
    let p0: u16 = if params.len() > 0 { params[0] } else { 0 };
    let n = crate::model::at_least_one(p0);
    if f == 0x4a || f == 0x4b {
        lemma_erase_wf(s, p0);
    } else if f == 0x4c {
        lemma_insert_lines_wf(s, n);
    } else if f == 0x4d {
        lemma_delete_lines_wf(s, n);
    } else if f == 0x50 || f == 0x40 || f == 0x58 {
        lemma_cursor_line_ops_wf(s, f, n);
    } else if f == 0x53 && !private {
        lemma_scroll_up_region_wf(s, n);
    } else if f == 0x54 && !private {
        lemma_scroll_down_region_wf(s, n);
    } else if f == 0x68 && private {
        lemma_private_modes_wf(s, params, 0, true);
    } else if f == 0x6c && private {
        lemma_private_modes_wf(s, params, 0, false);
    }
}

proof fn lemma_initial_wf(rows: u16, cols: u16)
    requires
        rows > 0,
    ensures
        ScreenView::initial(rows, cols).layout_ok(),
{
    lemma_blank_grid_shaped(rows, cols);
}

proof fn lemma_normal_byte_wf(s: ScreenView, b: u8)
    requires
        s.well_formed(),
        b != 0x1b,
    ensures
        (if b < 0x20 || b == 0x7f {
            s.control(b)
        } else if b < 0x80 {
            s.put_char(b as char)
        } else {
            s.utf8_byte(b)
        }).well_formed(),
{
    broadcast use group_screen_frames;
    if b < 0x20 || b == 0x7f {
        lemma_control_wf(s, b);
    } else if b < 0x80 {
        lemma_put_char_wf(s, b as char);
        lemma_put_char_utf8(s, b as char);
    } else {
        let buf = s.utf8_buf.push(b);
        match crate::utf8::utf8_char(buf) {
            Some(ch) => {
                lemma_put_char_wf(ScreenView { utf8_buf: buf, ..s }, ch);
            },
            None => {},
        }
    }
}

proof fn lemma_put_char_utf8(s: ScreenView, ch: char)
    ensures
        s.put_char(ch).utf8_buf == s.utf8_buf,
{
    broadcast use group_screen_frames;
}

proof fn lemma_escape_wf(s: ScreenView, b: u8)
    requires
        s.well_formed(),
    ensures
        s.escape(b).well_formed(),
{
    broadcast use group_screen_frames;
    if b == 0x63 {
        lemma_initial_wf(s.rows, s.cols);
    } else if b == 0x44 {
        lemma_linefeed_wf(s);
    } else if b == 0x4d {
        lemma_scroll_down_region_wf(s, 1);
    }
}

proof fn lemma_csi_byte_wf(s: ScreenView, b: u8)
    requires
        s.well_formed(),
    ensures
        s.csi_byte(b).well_formed(),
{
    broadcast use group_screen_frames;
    if 0x40 <= b && b <= 0x7e {
        lemma_execute_csi_wf(s, b);
        lemma_execute_csi_utf8(s, b);
    }
}

proof fn lemma_execute_csi_utf8(s: ScreenView, f: u8)
    ensures
        s.execute_csi(f).utf8_buf == s.utf8_buf,
{
    broadcast use group_screen_frames;
}

proof fn lemma_step_wf(s: ScreenView, b: u8)
    requires
        s.well_formed(),
    ensures
        s.step(b).well_formed(),
{
    reveal(ScreenView::step);
    match s.state {
        ParseState::Normal => {
            if b != 0x1b {
                lemma_normal_byte_wf(s, b);
            }
        },
        ParseState::Escape => {
            lemma_escape_wf(s, b);
        },
        ParseState::Csi => {
            lemma_csi_byte_wf(s, b);
        },
        _ => {},
    }
}

proof fn lemma_process_wf(s: ScreenView, bytes: Seq<u8>)
    requires
        s.well_formed(),
    ensures
        s.process_bytes(bytes).well_formed(),
    decreases bytes.len(),
{
    if bytes.len() > 0 {
        lemma_process_wf(s, bytes.drop_last());
        lemma_step_wf(s.process_bytes(bytes.drop_last()), bytes.last());
    }
}

/// A new screen with at least one row is well formed.
pub proof fn law_new_screen_well_formed(rows: u16, cols: u16)
    requires
        rows > 0,
    ensures
        ScreenView::initial(rows, cols).well_formed(),
{
    lemma_initial_wf(rows, cols);
}

/// Whatever output a well-formed screen is fed, it stays well formed: in
/// particular the cursor never leaves the screen and the grid keeps its
/// size.
pub proof fn law_feed_well_formed(s: ScreenView, bytes: Seq<u8>)
    requires
        s.well_formed(),
    ensures
        s.feed(bytes).well_formed(),
{
    let s0 = if bytes.len() > 0 { ScreenView { scroll_offset: 0, ..s } } else { s };
    lemma_process_wf(s0, bytes);
}

/// Resizing a well-formed screen to at least one row leaves it well formed
/// with the new size, the main screen put aside under the alternate one
/// included, and the scroll region running down to the new last row (from
/// its old top while that is still on the screen, else from the first row).
pub proof fn law_resize_well_formed(s: ScreenView, rows: u16, cols: u16)
    requires
        s.well_formed(),
        rows > 0,
    ensures
        s.resized(rows, cols).well_formed(),
        s.resized(rows, cols).rows == rows && s.resized(rows, cols).cols == cols,
        s.resized(rows, cols).scroll_bottom == rows - 1,
        s.resized(rows, cols).scroll_top == (if s.scroll_top <= rows - 1 { s.scroll_top } else { 0 }),
{
    let t = s.resized(rows, cols);
    assert forall|i: int| 0 <= i < t.grid.len() implies (#[trigger] t.grid[i]).len() == cols as nat by {
    }
    match t.alt_grid {
        Some(g) => {
            assert forall|i: int| 0 <= i < g.len() implies (#[trigger] g[i]).len() == cols as nat by {
            }
        },
        None => {},
    }
}

/// Scrolling the view back and forth keeps a well-formed screen well formed,
/// and scrolling back `n` lines then forward `n` lines returns to where the
/// view was, when the scrollback reaches that far back.
pub proof fn law_scroll_view(s: ScreenView, n: usize)
    requires
        s.well_formed(),
    ensures
        s.scrolled_up(n).well_formed(),
        s.scrolled_down(n).well_formed(),
        (ScreenView { scroll_offset: 0, ..s }).well_formed(),
        s.scroll_offset + n <= s.scrollback.len() ==> s.scrolled_up(n).scrolled_down(n) == s,
{
}

/// A printable character one column wide, written where no wrap is
/// pending, reads back from the cell the cursor was on, in the current
/// colors and attributes; the cursor moves one column on, or, on the last
/// column, stays with a wrap pending.
pub proof fn law_written_char_reads_back(s: ScreenView, b: u8)
    requires
        s.well_formed(),
        s.cols > 0,
        s.state == ParseState::Normal,
        !s.pending_wrap,
        0x20 <= b < 0x7f,
        crate::model::width_of(b as char) == 1,
    ensures
        ({
            let t = s.feed(seq![b]);
            &&& t.visible(s.cursor_row, s.cursor_col) == Some(crate::cell::attr_cell(b as char, s.attrs))
            &&& t.cursor_row == s.cursor_row
            &&& s.cursor_col + 1 < s.cols ==> t.cursor_col == s.cursor_col + 1 && !t.pending_wrap
            &&& s.cursor_col + 1 >= s.cols ==> t.cursor_col == s.cursor_col && t.pending_wrap
        }),
{
    reveal(ScreenView::step);
    let s0 = ScreenView { scroll_offset: 0, ..s };
    assert(seq![b].drop_last() =~= Seq::<u8>::empty());
    assert(seq![b].last() == b);
    assert(s0.process_bytes(Seq::<u8>::empty()) == s0);
    assert(s0.process_bytes(seq![b]) == s0.process_bytes(seq![b].drop_last()).step(b));
    assert(s.feed(seq![b]) == s0.step(b));
    assert(s0.step(b) == s0.put_char(b as char));
    let r = s.cursor_row as int;
    let c = s.cursor_col as int;
    assert(s.grid[r].len() == s.cols);
}

/// A line feed on the bottom line of the scroll region scrolls the region
/// up by one line: its top line leaves and a blank line comes in at its
/// bottom, the cursor staying on its line. The line that leaves goes to the
/// end of the scrollback (its oldest line going when it is full) exactly
/// when the region starts at the top and the alternate screen is off;
/// otherwise the scrollback stays as it was.
pub proof fn law_line_feed_scrolls_region(s: ScreenView)
    requires
        s.well_formed(),
        s.state == ParseState::Normal,
        s.scroll_top <= s.scroll_bottom,
        s.cursor_row == s.scroll_bottom,
    ensures
        ({
            let t = s.feed(seq![0x0au8]);
            let top = s.scroll_top as int;
            &&& t.scrollback == (if s.scroll_top == 0 && s.alt_grid is None {
                bounded_push(s.scrollback, s.grid[top], s.scrollback_limit as nat)
            } else {
                s.scrollback
            })
            &&& t.grid == s.grid.remove(top).insert(s.scroll_bottom as int, blank_row(s.cols as nat))
            &&& t.cursor_row == s.cursor_row
            &&& t.cursor_col == s.cursor_col
        }),
{
    reveal(ScreenView::step);
    let s0 = ScreenView { scroll_offset: 0, ..s };
    assert(seq![0x0au8].drop_last() =~= Seq::<u8>::empty());
    assert(seq![0x0au8].last() == 0x0au8);
    assert(s0.process_bytes(Seq::<u8>::empty()) == s0);
    assert(s0.process_bytes(seq![0x0au8]) == s0.process_bytes(seq![0x0au8].drop_last()).step(0x0au8));
    assert(s.feed(seq![0x0au8]) == s0.step(0x0au8));
    assert(s0.step(0x0au8) == s0.control(0x0au8));
    assert(min_int(1, s.scroll_bottom - s.scroll_top + 1) == 1);
    assert(s0.scroll_up_times(1) == s0.scroll_up_times(0).scroll_up_once());
    assert(s0.scroll_up_times(0) == s0);
}

/// Lines pushed one after another onto a scrollback (see `bounded_push`).
pub open spec fn pushed_lines(sb: Seq<Seq<Cell>>, lines: Seq<Seq<Cell>>, limit: nat) -> Seq<Seq<Cell>>
    decreases lines.len(),
{
    if lines.len() == 0 {
        sb
    } else {
        bounded_push(pushed_lines(sb, lines.drop_last(), limit), lines.last(), limit)
    }
}

/// The scrollback is first in, first out: after any run of lines going into
/// a scrollback within its limit, it holds the last lines of what it held
/// followed by the new lines, as many as the limit allows, in order.
pub proof fn law_scrollback_first_in_first_out(sb: Seq<Seq<Cell>>, lines: Seq<Seq<Cell>>, limit: nat)
    requires
        limit > 0,
        sb.len() <= limit,
    ensures
        ({
            let all = sb + lines;
            pushed_lines(sb, lines, limit) == all.skip(if all.len() > limit { all.len() - limit } else { 0 })
        }),
    decreases lines.len(),
{
    let all = sb + lines;
    if lines.len() == 0 {
        assert(all =~= sb);
        assert(all.skip(0) =~= all);
    } else {
        let prev = sb + lines.drop_last();
        law_scrollback_first_in_first_out(sb, lines.drop_last(), limit);
        let p = pushed_lines(sb, lines.drop_last(), limit);
        let k: int = if prev.len() > limit { prev.len() - limit } else { 0 };
        assert(p == prev.skip(k));
        assert(prev.push(lines.last()) =~= all);
        let q = p.push(lines.last());
        assert(q =~= all.skip(k));
        if q.len() > limit {
            assert(q.subrange(1, q.len() as int) =~= all.skip(k + 1));
        }
    }
}

// ── The size and the scrollback's bound ─────────────────────────────────

#[verifier::spinoff_prover]
proof fn lemma_grid_csi_keeps_size(s: ScreenView, f: u8)
    requires
        is_grid_csi(f),
    ensures
        s.execute_csi(f).rows == s.rows,
        s.execute_csi(f).cols == s.cols,
        s.execute_csi(f).scrollback_limit == s.scrollback_limit,
{
    broadcast use group_screen_frames;
    let params = crate::parse::csi_params(s.csi_buf);
    if f == 0x68 || f == 0x6c {
        lemma_private_modes_limit(s, params, 0, f == 0x68);
    }
}

proof fn lemma_private_modes_limit(s: ScreenView, params: Seq<u16>, i: int, set: bool)
    ensures
        s.private_modes(params, i, set).scrollback_limit == s.scrollback_limit,
    decreases params.len() - i,
{
    if 0 <= i < params.len() {
        let p = params[i];
        let t = if p == 7 {
            ScreenView { autowrap: set, ..s }
        } else if p == 25 {
            ScreenView { cursor_visible: set, ..s }
        } else if p == 1049 {
            if set {
                s.enter_alt_screen()
            } else {
                s.leave_alt_screen()
            }
        } else {
            s
        };
        lemma_private_modes_limit(t, params, i + 1, set);
    }
}

#[verifier::spinoff_prover]
proof fn lemma_cursor_csi_keeps_size(s: ScreenView, f: u8)
    requires
        !is_grid_csi(f),
    ensures
        s.execute_csi(f).rows == s.rows,
        s.execute_csi(f).cols == s.cols,
        s.execute_csi(f).scrollback_limit == s.scrollback_limit,
{
}

proof fn lemma_step_keeps_size(s: ScreenView, b: u8)
    ensures
        s.step(b).rows == s.rows,
        s.step(b).cols == s.cols,
        s.scrollback_limit == 5000 ==> s.step(b).scrollback_limit == 5000,
{
    broadcast use group_screen_frames;
    reveal(ScreenView::step);
    match s.state {
        ParseState::Csi => {
            if 0x40 <= b && b <= 0x7e {
                if is_grid_csi(b) {
                    lemma_grid_csi_keeps_size(s, b);
                } else {
                    lemma_cursor_csi_keeps_size(s, b);
                }
            }
        },
        _ => {},
    }
}

proof fn lemma_process_keeps_size(s: ScreenView, bytes: Seq<u8>)
    ensures
        s.process_bytes(bytes).rows == s.rows,
        s.process_bytes(bytes).cols == s.cols,
        s.scrollback_limit == 5000 ==> s.process_bytes(bytes).scrollback_limit == 5000,
    decreases bytes.len(),
{
    if bytes.len() > 0 {
        lemma_process_keeps_size(s, bytes.drop_last());
        lemma_step_keeps_size(s.process_bytes(bytes.drop_last()), bytes.last());
    }
}

/// Output never changes the screen's size: a well-formed screen fed any
/// bytes keeps its rows and columns, has exactly that many cells, and keeps
/// the cursor on them.
pub proof fn law_feed_keeps_size(s: ScreenView, bytes: Seq<u8>)
    requires
        s.well_formed(),
        s.cols > 0,
    ensures
        ({
            let t = s.feed(bytes);
            &&& t.rows == s.rows
            &&& t.cols == s.cols
            &&& crate::model::shaped(t.grid, s.rows, s.cols)
            &&& t.cursor_row < s.rows
            &&& t.cursor_col < s.cols
        }),
{
    let s0 = if bytes.len() > 0 { ScreenView { scroll_offset: 0, ..s } } else { s };
    lemma_process_keeps_size(s0, bytes);
    lemma_process_wf(s0, bytes);
}

/// The scrollback never holds more than 5000 lines: a new screen starts with
/// that limit, and neither output nor a resize changes the limit or lets the
/// scrollback pass it (lines beyond it go oldest first, see
/// `law_line_feed_scrolls_region` and
/// `law_scrollback_first_in_first_out`).
pub proof fn law_scrollback_bounded(s: ScreenView, bytes: Seq<u8>, rows: u16, cols: u16)
    requires
        s.well_formed(),
        s.scrollback_limit == 5000,
        rows > 0,
    ensures
        ScreenView::initial(rows, cols).scrollback_limit == 5000,
        s.feed(bytes).scrollback_limit == 5000,
        s.feed(bytes).scrollback.len() <= 5000,
        s.resized(rows, cols).scrollback_limit == 5000,
        s.resized(rows, cols).scrollback.len() <= 5000,
{
    law_feed_well_formed(s, bytes);
    let s0 = if bytes.len() > 0 { ScreenView { scroll_offset: 0, ..s } } else { s };
    lemma_process_keeps_size(s0, bytes);
}

// ── Reports and the alternate screen ────────────────────────────────────

/// A cursor position report gives back the position just set: moving the
/// cursor to row `r`, column `c` (counted from 1, on the screen) with
/// `ESC [ r ; c H`, then asking with `ESC [ 6 n`, answers `ESC [ r ; c R`.
pub proof fn law_cursor_report_after_move(s: ScreenView, move_buf: Seq<u8>, ask_buf: Seq<u8>, r: u16, c: u16)
    requires
        s.layout_ok(),
        !crate::parse::csi_private(move_buf),
        crate::parse::csi_params(move_buf) == seq![r, c],
        !crate::parse::csi_private(ask_buf),
        crate::parse::csi_params(ask_buf) == seq![6u16],
        1 <= r <= s.rows,
        1 <= c <= s.cols,
    ensures
        ({
            let moved = ScreenView { csi_buf: move_buf, ..s }.execute_csi(0x48);
            let asked = ScreenView { csi_buf: ask_buf, ..moved }.execute_csi(0x6e);
            &&& moved.cursor_row == r - 1
            &&& moved.cursor_col == c - 1
            &&& asked.responses == moved.responses.push(crate::model::cursor_report(r as nat, c as nat))
        }),
{
}

/// The bytes of a control sequence: `ESC [`, its parameter bytes, and its
/// final byte.
pub open spec fn csi_bytes(params: Seq<u8>, fin: u8) -> Seq<u8> {
    seq![0x1bu8, 0x5bu8] + params + seq![fin]
}

/// Parameter bytes gather in the control sequence's buffer.
proof fn lemma_csi_param_bytes(t: ScreenView, params: Seq<u8>)
    requires
        t.state == ParseState::Csi,
        forall|i: int| 0 <= i < params.len() ==> 0x20 <= #[trigger] params[i] <= 0x3f,
    ensures
        t.process_bytes(params) == (ScreenView { csi_buf: t.csi_buf + params, ..t }),
    decreases params.len(),
{
    reveal(ScreenView::step);
    if params.len() == 0 {
        assert(t.csi_buf + params =~= t.csi_buf);
        assert(ScreenView { csi_buf: t.csi_buf, ..t } == t);
    } else {
        lemma_csi_param_bytes(t, params.drop_last());
        assert(t.csi_buf + params.drop_last() + seq![params.last()] =~= t.csi_buf + params);
    }
}

/// `ESC [` in the ground state starts an empty control sequence.
#[verifier::spinoff_prover]
proof fn lemma_csi_start(s: ScreenView)
    requires
        s.state == ParseState::Normal,
    ensures
        s.process_bytes(seq![0x1bu8, 0x5bu8]) == (ScreenView { state: ParseState::Csi, csi_buf: Seq::<u8>::empty(), ..s }),
{
    let one: Seq<u8> = seq![0x1bu8];
    let head: Seq<u8> = seq![0x1bu8, 0x5bu8];
    assert(head.drop_last() =~= one);
    assert(one.drop_last() =~= Seq::<u8>::empty());
    assert(s.process_bytes(Seq::<u8>::empty()) == s);
    let e = ScreenView { state: ParseState::Escape, ..s };
    assert(s.step(0x1b) == e) by {
        reveal(ScreenView::step);
    }
    assert(s.process_bytes(one) == s.process_bytes(Seq::<u8>::empty()).step(0x1b));
    assert(s.process_bytes(one) == e);
    assert(e.step(0x5b) == ScreenView { state: ParseState::Csi, csi_buf: Seq::<u8>::empty(), ..s }) by {
        reveal(ScreenView::step);
    }
    assert(s.process_bytes(head) == s.process_bytes(one).step(0x5b));
}

/// The final byte of a control sequence runs its command.
#[verifier::spinoff_prover]
proof fn lemma_csi_final(t: ScreenView, fin: u8)
    requires
        t.state == ParseState::Csi,
        0x40 <= fin <= 0x7e,
    ensures
        t.process_bytes(seq![fin]) == (ScreenView { state: ParseState::Normal, ..t.execute_csi(fin) }),
{
    let one: Seq<u8> = seq![fin];
    assert(one.drop_last() =~= Seq::<u8>::empty());
    assert(t.process_bytes(Seq::<u8>::empty()) == t);
    assert(t.step(fin) == (ScreenView { state: ParseState::Normal, ..t.execute_csi(fin) })) by {
        reveal(ScreenView::step);
    }
    assert(t.process_bytes(one) == t.process_bytes(Seq::<u8>::empty()).step(fin));
}

/// A whole control sequence fed in the ground state runs its command on
/// the parameters, and the parser is back in the ground state.
proof fn lemma_csi_bytes(s: ScreenView, params: Seq<u8>, fin: u8)
    requires
        s.state == ParseState::Normal,
        forall|i: int| 0 <= i < params.len() ==> 0x20 <= #[trigger] params[i] <= 0x3f,
        0x40 <= fin <= 0x7e,
    ensures
        s.process_bytes(csi_bytes(params, fin)) == (ScreenView {
            state: ParseState::Normal,
            ..ScreenView { state: ParseState::Csi, csi_buf: params, ..s }.execute_csi(fin)
        }),
{
    let head: Seq<u8> = seq![0x1bu8, 0x5bu8];
    lemma_csi_start(s);
    let t = s.process_bytes(head);
    lemma_csi_param_bytes(t, params);
    assert(Seq::<u8>::empty() + params =~= params);
    lemma_process_concat(s, head, params);
    let u = s.process_bytes(head + params);
    assert(u == ScreenView { state: ParseState::Csi, csi_buf: params, ..s });
    lemma_csi_final(u, fin);
    lemma_process_concat(s, head + params, seq![fin]);
    assert(csi_bytes(params, fin) =~= head + params + seq![fin]);
}

/// The decimal digits of a number are digits, and read back as the number.
proof fn lemma_decimal_reads_back(n: nat)
    requires
        n <= 65535,
    ensures
        crate::parse::field_value(crate::parse::decimal(n)) == n,
        forall|i: int| 0 <= i < crate::parse::decimal(n).len()
            ==> crate::parse::is_digit(#[trigger] crate::parse::decimal(n)[i]),
    decreases n,
{
    let d = crate::parse::decimal(n);
    let digit = d.last();
    if n < 10 {
        assert(d.drop_last() =~= Seq::<u8>::empty());
        assert(digit == (0x30 + n) as u8);
        assert(crate::parse::field_value(Seq::<u8>::empty()) == 0);
    } else {
        let q = n / 10;
        let m = n % 10;
        assert(q * 10 + m == n && m < 10 && q < n);
        lemma_decimal_reads_back(q);
        assert(d.drop_last() =~= crate::parse::decimal(q));
        assert(digit == (0x30 + m) as u8);
        assert(crate::parse::field_value(d.drop_last()) == q);
        assert(q * 10 <= 65535);
        assert(crate::parse::sat_u16((q * 10) as int) == q * 10);
        assert forall|i: int| 0 <= i < d.len() implies crate::parse::is_digit(#[trigger] d[i]) by {
            if i < d.len() - 1 {
                assert(d[i] == crate::parse::decimal(q)[i]);
            }
        }
    }
    assert(crate::parse::is_digit(digit));
    assert(crate::parse::field_value(d) == crate::parse::sat_u16(
        crate::parse::sat_u16(crate::parse::field_value(d.drop_last()) * 10) + (digit - 0x30),
    ));
}

/// Bytes without a semicolon extend the last field.
proof fn lemma_split_extends_last(x: Seq<u8>, b: Seq<u8>)
    requires
        forall|i: int| 0 <= i < b.len() ==> #[trigger] b[i] != 0x3b,
    ensures
        crate::parse::split_fields(x + b) == crate::parse::split_fields(x).update(
            crate::parse::split_fields(x).len() - 1,
            crate::parse::split_fields(x).last() + b,
        ),
    decreases b.len(),
{
    crate::parse::lemma_split_fields_len(x);
    let p = crate::parse::split_fields(x);
    if b.len() == 0 {
        assert(x + b =~= x);
        assert(p.last() + b =~= p.last());
        assert(p.update(p.len() - 1, p.last()) =~= p);
    } else {
        lemma_split_extends_last(x, b.drop_last());
        assert((x + b).drop_last() =~= x + b.drop_last());
        assert((x + b).last() == b.last());
        assert((p.last() + b.drop_last()).push(b.last()) =~= p.last() + b);
        let q = p.update(p.len() - 1, p.last() + b.drop_last());
        assert(q.update(q.len() - 1, q.last().push(b.last())) =~= p.update(p.len() - 1, p.last() + b));
    }
}

/// The parameters `r;c` written in decimal read back as `r` and `c`.
proof fn lemma_two_params(r: nat, c: nat)
    requires
        r <= 65535,
        c <= 65535,
    ensures
        ({
            let buf = crate::parse::decimal(r) + seq![0x3bu8] + crate::parse::decimal(c);
            &&& !crate::parse::csi_private(buf)
            &&& crate::parse::csi_params(buf) == seq![r as u16, c as u16]
            &&& forall|i: int| 0 <= i < buf.len() ==> 0x20 <= #[trigger] buf[i] <= 0x3f
        }),
{
    let dr = crate::parse::decimal(r);
    let dc = crate::parse::decimal(c);
    lemma_decimal_reads_back(r);
    lemma_decimal_reads_back(c);
    let buf = dr + seq![0x3bu8] + dc;
    assert(buf[0] == dr[0]);
    assert(buf.skip(0) =~= buf);
    lemma_split_extends_last(Seq::<u8>::empty(), dr);
    assert(Seq::<u8>::empty() + dr =~= dr);
    assert(crate::parse::split_fields(Seq::<u8>::empty()) =~= seq![Seq::<u8>::empty()]);
    assert(crate::parse::split_fields(dr) =~= seq![dr]);
    let x = dr.push(0x3bu8);
    assert(x.drop_last() =~= dr);
    assert(crate::parse::split_fields(x) =~= seq![dr, Seq::<u8>::empty()]);
    lemma_split_extends_last(x, dc);
    assert(x + dc =~= buf);
    assert(crate::parse::split_fields(buf) =~= seq![dr, dc]);
    assert(crate::parse::csi_params(buf) =~= seq![r as u16, c as u16]);
    assert forall|i: int| 0 <= i < buf.len() implies 0x20 <= #[trigger] buf[i] <= 0x3f by {
        if i < dr.len() {
            assert(buf[i] == dr[i]);
        } else if i > dr.len() {
            assert(buf[i] == dc[i - dr.len() - 1]);
        }
    }
}

/// A cursor position report gives back the position just set, as bytes:
/// fed `ESC [ r ; c H` (row and column counted from 1, on the screen) and
/// then `ESC [ 6 n`, a screen in the ground state puts its cursor there and
/// answers `ESC [ r ; c R`, the cursor staying where it was put.
pub proof fn law_cursor_report_bytes(s: ScreenView, r: u16, c: u16)
    requires
        s.layout_ok(),
        s.state == ParseState::Normal,
        1 <= r <= s.rows,
        1 <= c <= s.cols,
    ensures
        ({
            let moved = s.process_bytes(csi_bytes(
                crate::parse::decimal(r as nat) + seq![0x3bu8] + crate::parse::decimal(c as nat),
                0x48,
            ));
            let asked = moved.process_bytes(csi_bytes(seq![0x36u8], 0x6e));
            &&& moved.cursor_row == r - 1
            &&& moved.cursor_col == c - 1
            &&& moved.state == ParseState::Normal
            &&& asked.responses == moved.responses.push(crate::model::cursor_report(r as nat, c as nat))
            &&& asked.cursor_row == moved.cursor_row
            &&& asked.cursor_col == moved.cursor_col
        }),
{
    let buf = crate::parse::decimal(r as nat) + seq![0x3bu8] + crate::parse::decimal(c as nat);
    lemma_two_params(r as nat, c as nat);
    lemma_csi_bytes(s, buf, 0x48);
    let s1 = ScreenView { state: ParseState::Csi, ..s };
    let ask: Seq<u8> = seq![0x36u8];
    assert(ask.skip(0) =~= ask);
    assert(ask.drop_last() =~= Seq::<u8>::empty());
    assert(crate::parse::split_fields(Seq::<u8>::empty()) =~= seq![Seq::<u8>::empty()]);
    assert(crate::parse::split_fields(ask) =~= seq![ask]);
    assert(crate::parse::field_value(Seq::<u8>::empty()) == 0);
    assert(crate::parse::csi_params(ask) =~= seq![6u16]);
    law_cursor_report_after_move(s1, buf, ask, r, c);
    let moved = s.process_bytes(csi_bytes(buf, 0x48));
    lemma_csi_bytes(moved, ask, 0x6e);
}

/// Leaving the alternate screen brings the main screen back as it was when
/// it was entered, and what was printed there (text, carriage returns and
/// line feeds) never reaches the scrollback.
pub proof fn law_alt_screen_round_trip(s: ScreenView, mid: Seq<u8>)
    requires
        s.well_formed(),
        s.state == ParseState::Normal,
        s.alt_grid is None,
        forall|i: int| 0 <= i < mid.len() ==> (0x20 <= #[trigger] mid[i] < 0x7f || mid[i] == 0x0a || mid[i] == 0x0d),
    ensures
        ({
            let t = s.enter_alt_screen().process_bytes(mid).leave_alt_screen();
            &&& t.grid == s.grid
            &&& t.cursor_row == s.cursor_row
            &&& t.cursor_col == s.cursor_col
            &&& t.attrs == s.attrs
            &&& t.scrollback == s.scrollback
            &&& t.alt_grid is None
        }),
{
    let e = s.enter_alt_screen();
    lemma_alt_text_keeps_main(e, mid);
}

/// The parameter bytes `?1049` of the alternate screen's mode.
pub open spec fn alt_screen_params() -> Seq<u8> {
    seq![0x3fu8, 0x31u8, 0x30u8, 0x34u8, 0x39u8]
}

proof fn lemma_alt_screen_params()
    ensures
        crate::parse::csi_private(alt_screen_params()),
        crate::parse::csi_params(alt_screen_params()) == seq![1049u16],
        forall|i: int| 0 <= i < alt_screen_params().len() ==> 0x20 <= #[trigger] alt_screen_params()[i] <= 0x3f,
{
    let p = alt_screen_params();
    let d = crate::parse::decimal(1049);
    reveal_with_fuel(crate::parse::decimal, 4);
    assert(d =~= seq![0x31u8, 0x30u8, 0x34u8, 0x39u8]);
    lemma_decimal_reads_back(1049);
    assert(p.skip(1) =~= d);
    lemma_split_extends_last(Seq::<u8>::empty(), d);
    assert(Seq::<u8>::empty() + d =~= d);
    assert(crate::parse::split_fields(Seq::<u8>::empty()) =~= seq![Seq::<u8>::empty()]);
    assert(crate::parse::split_fields(d) =~= seq![d]);
    assert(crate::parse::csi_params(p) =~= seq![1049u16]);
}

/// Leaving the alternate screen brings the main screen back, as bytes: a
/// well-formed screen in the ground state fed `ESC [ ? 1049 h`, then text,
/// carriage returns and line feeds, then `ESC [ ? 1049 l`, has its grid,
/// cursor, attributes and scrollback as before, and the parser is back in
/// the ground state.
#[verifier::spinoff_prover]
pub proof fn law_alt_screen_round_trip_bytes(s: ScreenView, mid: Seq<u8>)
    requires
        s.well_formed(),
        s.state == ParseState::Normal,
        s.alt_grid is None,
        forall|i: int| 0 <= i < mid.len() ==> (0x20 <= #[trigger] mid[i] < 0x7f || mid[i] == 0x0a || mid[i] == 0x0d),
    ensures
        ({
            let t = s.process_bytes(csi_bytes(alt_screen_params(), 0x68) + mid + csi_bytes(alt_screen_params(), 0x6c));
            &&& t.grid == s.grid
            &&& t.cursor_row == s.cursor_row
            &&& t.cursor_col == s.cursor_col
            &&& t.attrs == s.attrs
            &&& t.scrollback == s.scrollback
            &&& t.alt_grid is None
            &&& t.state == ParseState::Normal
        }),
{
    let p = alt_screen_params();
    let on = csi_bytes(p, 0x68);
    let off = csi_bytes(p, 0x6c);
    lemma_alt_screen_params();
    lemma_csi_bytes(s, p, 0x68);
    let s1 = ScreenView { state: ParseState::Csi, csi_buf: p, ..s };
    let ps: Seq<u16> = seq![1049u16];
    assert(s1.execute_csi(0x68) == s1.private_modes(ps, 0, true));
    assert(s1.private_modes(ps, 0, true) == s1.enter_alt_screen().private_modes(ps, 1, true));
    assert(s1.enter_alt_screen().private_modes(ps, 1, true) == s1.enter_alt_screen());
    let e = s.process_bytes(on);
    assert(e == ScreenView { state: ParseState::Normal, ..s1.enter_alt_screen() });
    lemma_alt_text_keeps_main(e, mid);
    lemma_process_concat(s, on, mid);
    let m = s.process_bytes(on + mid);
    lemma_csi_bytes(m, p, 0x6c);
    lemma_process_concat(s, on + mid, off);
    let m1 = ScreenView { state: ParseState::Csi, csi_buf: p, ..m };
    assert(m1.execute_csi(0x6c) == m1.private_modes(ps, 0, false));
    assert(m1.private_modes(ps, 0, false) == m1.leave_alt_screen().private_modes(ps, 1, false));
    assert(m1.leave_alt_screen().private_modes(ps, 1, false) == m1.leave_alt_screen());
}

/// The cursor report law as the terminal's own calls see it: output
/// `ESC [ r ; c H` fed in one call and `ESC [ 6 n` in the next (see
/// `Screen::process`, which is `feed`) put the cursor at row `r`, column
/// `c` and answer exactly `ESC [ r ; c R`.
pub proof fn law_cursor_report_after_output(s: ScreenView, r: u16, c: u16)
    requires
        s.layout_ok(),
        s.state == ParseState::Normal,
        1 <= r <= s.rows,
        1 <= c <= s.cols,
    ensures
        ({
            let moved = s.feed(csi_bytes(
                crate::parse::decimal(r as nat) + seq![0x3bu8] + crate::parse::decimal(c as nat),
                0x48,
            ));
            let asked = moved.feed(csi_bytes(seq![0x36u8], 0x6e));
            &&& moved.cursor_row == r - 1
            &&& moved.cursor_col == c - 1
            &&& asked.responses == moved.responses.push(crate::model::cursor_report(r as nat, c as nat))
            &&& asked.cursor_row == r - 1
            &&& asked.cursor_col == c - 1
        }),
{
    let mv = csi_bytes(crate::parse::decimal(r as nat) + seq![0x3bu8] + crate::parse::decimal(c as nat), 0x48);
    let ask = csi_bytes(seq![0x36u8], 0x6e);
    let s0 = ScreenView { scroll_offset: 0, ..s };
    law_cursor_report_bytes(s0, r, c);
    let moved = s0.process_bytes(mv);
    lemma_process_keeps_live_view(s0, mv);
    assert(ScreenView { scroll_offset: 0, ..moved } == moved);
}

/// The alternate screen round trip as the terminal's own calls see it:
/// `ESC [ ? 1049 h`, then text, carriage returns and line feeds, then
/// `ESC [ ? 1049 l`, each fed in a call of its own (see `Screen::process`),
/// leave every cell, the cursor, the attributes and the scrollback of a
/// well-formed screen in the ground state as they were.
pub proof fn law_alt_screen_round_trip_output(s: ScreenView, mid: Seq<u8>)
    requires
        s.well_formed(),
        s.state == ParseState::Normal,
        s.alt_grid is None,
        forall|i: int| 0 <= i < mid.len() ==> (0x20 <= #[trigger] mid[i] < 0x7f || mid[i] == 0x0a || mid[i] == 0x0d),
    ensures
        ({
            let t = s.feed(csi_bytes(alt_screen_params(), 0x68)).feed(mid).feed(csi_bytes(alt_screen_params(), 0x6c));
            &&& t.grid == s.grid
            &&& t.cursor_row == s.cursor_row
            &&& t.cursor_col == s.cursor_col
            &&& t.attrs == s.attrs
            &&& t.scrollback == s.scrollback
            &&& t.alt_grid is None
        }),
{
    let on = csi_bytes(alt_screen_params(), 0x68);
    let off = csi_bytes(alt_screen_params(), 0x6c);
    law_feed_in_pieces(s, on, mid);
    law_feed_in_pieces(s, on + mid, off);
    let s0 = ScreenView { scroll_offset: 0, ..s };
    law_alt_screen_round_trip_bytes(s0, mid);
    assert(on.len() > 0);
    assert((on + mid + off).len() > 0);
}

proof fn lemma_scroll_up_times_alt(s: ScreenView, k: nat)
    requires
        s.alt_grid is Some,
    ensures
        s.scroll_up_times(k).scrollback == s.scrollback,
        s.scroll_up_times(k).alt_grid == s.alt_grid,
    decreases k,
{
    broadcast use group_screen_frames;
    if k > 0 {
        lemma_scroll_up_times_alt(s, (k - 1) as nat);
    }
}

proof fn lemma_alt_text_keeps_main(s: ScreenView, mid: Seq<u8>)
    requires
        s.state == ParseState::Normal,
        s.alt_grid is Some,
        forall|i: int| 0 <= i < mid.len() ==> (0x20 <= #[trigger] mid[i] < 0x7f || mid[i] == 0x0a || mid[i] == 0x0d),
    ensures
        ({
            let t = s.process_bytes(mid);
            &&& t.state == ParseState::Normal
            &&& t.alt_grid == s.alt_grid
            &&& t.alt_cursor == s.alt_cursor
            &&& t.alt_attrs == s.alt_attrs
            &&& t.scrollback == s.scrollback
            &&& t.rows == s.rows
            &&& t.cols == s.cols
        }),
    decreases mid.len(),
{
    broadcast use group_screen_frames;
    if mid.len() > 0 {
        let pre = mid.drop_last();
        assert forall|i: int| 0 <= i < pre.len() implies (0x20 <= #[trigger] pre[i] < 0x7f || pre[i] == 0x0a || pre[i] == 0x0d) by {
            assert(pre[i] == mid[i]);
        }
        lemma_alt_text_keeps_main(s, pre);
        let p = s.process_bytes(pre);
        let b = mid.last();
        assert(b == mid[mid.len() - 1]);
        reveal(ScreenView::step);
        if b == 0x0a {
            lemma_scroll_up_times_alt(p, 1);
            assert(p.step(b) == ScreenView { pending_wrap: false, ..p.linefeed() });
        } else if b == 0x0d {
        } else {
            let w = p.wrap_if_pending();
            lemma_scroll_up_times_alt(ScreenView { cursor_col: 0, ..p }, 1);
            assert(w.alt_grid == p.alt_grid && w.scrollback == p.scrollback);
        }
    }
}

// ── Erasing a line ──────────────────────────────────────────────────────

/// The one-digit parameter of a control sequence reads as its digit.
proof fn lemma_one_digit_param(d: u8)
    requires
        0x30 <= d <= 0x39,
    ensures
        !crate::parse::csi_private(seq![d]),
        crate::parse::csi_params(seq![d]) == seq![(d - 0x30) as u16],
{
    let p: Seq<u8> = seq![d];
    assert(p.skip(0) =~= p);
    assert(p.drop_last() =~= Seq::<u8>::empty());
    assert(crate::parse::split_fields(Seq::<u8>::empty()) =~= seq![Seq::<u8>::empty()]);
    assert(crate::parse::split_fields(p) =~= seq![p]);
    assert(crate::parse::field_value(Seq::<u8>::empty()) == 0);
    assert(crate::parse::field_value(p) == (d - 0x30) as u16);
    assert(crate::parse::csi_params(p) =~= seq![(d - 0x30) as u16]);
}

/// Erasing in the line (`ESC [ 0 K`, `ESC [ 1 K`, `ESC [ 2 K`) touches only
/// the cursor's row: `0` blanks its cells from the cursor to the end of the
/// line, `1` from the start of the line through the cursor, and `2` every
/// cell of the line, whatever the cursor's column. The other cells and rows,
/// the row's length and the cursor stay as they were.
#[verifier::spinoff_prover]
pub proof fn law_erase_in_line(s: ScreenView, mode: u8)
    requires
        s.layout_ok(),
        s.state == ParseState::Normal,
        0x30 <= mode <= 0x32,
    ensures
        ({
            let t = s.feed(csi_bytes(seq![mode], 0x4b));
            let r = s.cursor_row as int;
            let c = s.cursor_col as int;
            &&& t.grid.len() == s.grid.len()
            &&& (forall|i: int| 0 <= i < s.grid.len() && i != r ==> t.grid[i] == s.grid[i])
            &&& t.grid[r].len() == s.grid[r].len()
            &&& (forall|j: int| 0 <= j < s.grid[r].len() ==> #[trigger] t.grid[r][j] == (
                if mode == 0x32 || (mode == 0x30 && j >= c) || (mode == 0x31 && j <= c) {
                    blank_cell()
                } else {
                    s.grid[r][j]
                }))
            &&& t.cursor_row == s.cursor_row
            &&& t.cursor_col == s.cursor_col
            &&& t.state == ParseState::Normal
        }),
{
    let s0 = ScreenView { scroll_offset: 0, ..s };
    lemma_one_digit_param(mode);
    assert(0x20 <= mode <= 0x3f);
    assert forall|i: int| 0 <= i < seq![mode].len() implies 0x20 <= #[trigger] seq![mode][i] <= 0x3f by {
        assert(seq![mode][i] == mode);
    }
    lemma_csi_bytes(s0, seq![mode], 0x4b);
    assert(csi_bytes(seq![mode], 0x4b).len() > 0);
    let u = ScreenView { state: ParseState::Csi, csi_buf: seq![mode], ..s0 };
    assert(u.execute_csi(0x4b) == u.erase_line((mode - 0x30) as u16));
}

/// Erasing in the display (`ESC [ 0 J` to `ESC [ 3 J`): `0` blanks from
/// the cursor to the end of the screen (the rest of its row and every row
/// below), `1` from the start of the screen through the cursor (every row
/// above and its row up to and including the cursor), `2` and `3` every
/// cell. Every other cell, each row's length and the cursor stay as they
/// were.
#[verifier::spinoff_prover]
pub proof fn law_erase_in_display(s: ScreenView, mode: u8)
    requires
        s.layout_ok(),
        s.state == ParseState::Normal,
        0x30 <= mode <= 0x33,
    ensures
        ({
            let t = s.feed(csi_bytes(seq![mode], 0x4a));
            let r = s.cursor_row as int;
            let c = s.cursor_col as int;
            &&& t.grid.len() == s.grid.len()
            &&& (forall|i: int| 0 <= i < s.grid.len() ==> (#[trigger] t.grid[i]).len() == s.grid[i].len())
            &&& (forall|i: int, j: int| 0 <= i < s.grid.len() && 0 <= j < s.grid[i].len() ==> #[trigger] t.grid[i][j] == (
                if mode >= 0x32
                    || (mode == 0x30 && (i > r || (i == r && j >= c)))
                    || (mode == 0x31 && (i < r || (i == r && j <= c))) {
                    blank_cell()
                } else {
                    s.grid[i][j]
                }))
            &&& t.cursor_row == s.cursor_row
            &&& t.cursor_col == s.cursor_col
        }),
{
    let s0 = ScreenView { scroll_offset: 0, ..s };
    lemma_one_digit_param(mode);
    assert forall|i: int| 0 <= i < seq![mode].len() implies 0x20 <= #[trigger] seq![mode][i] <= 0x3f by {
        assert(seq![mode][i] == mode);
    }
    lemma_csi_bytes(s0, seq![mode], 0x4a);
    assert(csi_bytes(seq![mode], 0x4a).len() > 0);
    let u = ScreenView { state: ParseState::Csi, csi_buf: seq![mode], ..s0 };
    assert(u.execute_csi(0x4a) == u.erase_display((mode - 0x30) as u16));
}

// ── Moving the cursor ───────────────────────────────────────────────────

/// The cursor keys of the emulator: `ESC [ n A` moves the cursor up `n`
/// rows, `B` down, `C` right and `D` left (one when `n` is 0 or left out),
/// stopping at the screen's edges; the cells stay as they were.
#[verifier::spinoff_prover]
pub proof fn law_cursor_moves(s: ScreenView, d: u8, f: u8)
    requires
        s.layout_ok(),
        s.cols > 0,
        s.state == ParseState::Normal,
        0x30 <= d <= 0x39,
        0x41 <= f <= 0x44,
    ensures
        ({
            let t = s.feed(csi_bytes(seq![d], f));
            let n: int = if d == 0x30 { 1 } else { d - 0x30 };
            let r = s.cursor_row as int;
            let c = s.cursor_col as int;
            &&& t.grid == s.grid
            &&& f == 0x41 ==> t.cursor_row == (if r >= n { r - n } else { 0 }) && t.cursor_col == c
            &&& f == 0x42 ==> t.cursor_row == (if r + n <= s.rows - 1 { r + n } else { s.rows - 1 }) && t.cursor_col == c
            &&& f == 0x43 ==> t.cursor_col == (if c + n <= s.cols - 1 { c + n } else { s.cols - 1 }) && t.cursor_row == r
            &&& f == 0x44 ==> t.cursor_col == (if c >= n { c - n } else { 0 }) && t.cursor_row == r
        }),
{
    let s0 = ScreenView { scroll_offset: 0, ..s };
    lemma_one_digit_param(d);
    assert forall|i: int| 0 <= i < seq![d].len() implies 0x20 <= #[trigger] seq![d][i] <= 0x3f by {
        assert(seq![d][i] == d);
    }
    lemma_csi_bytes(s0, seq![d], f);
    assert(csi_bytes(seq![d], f).len() > 0);
}

/// A control character fed in the ground state does its control action.
#[verifier::spinoff_prover]
proof fn lemma_one_control(s: ScreenView, b: u8)
    requires
        s.state == ParseState::Normal,
        b < 0x20,
        b != 0x1b,
    ensures
        s.feed(seq![b]) == (ScreenView { scroll_offset: 0, ..s }).control(b),
{
    let s0 = ScreenView { scroll_offset: 0, ..s };
    assert(s0.process_bytes(Seq::<u8>::empty()) == s0);
    assert(seq![b].drop_last() =~= Seq::<u8>::empty());
    assert(s0.process_bytes(seq![b]) == s0.process_bytes(Seq::<u8>::empty()).step(b));
    assert(s0.step(b) == s0.control(b)) by {
        reveal(ScreenView::step);
    }
}

/// The control characters that move the cursor: a carriage return goes to
/// the first column, a backspace one column left (not past the first), a
/// tab to the next multiple of eight (not past the last column), and a line
/// feed one row down when the cursor is not on the scroll region's bottom
/// nor the last row; none of them changes a cell.
pub proof fn law_control_moves(s: ScreenView)
    requires
        s.layout_ok(),
        s.cols > 0,
        s.state == ParseState::Normal,
    ensures
        ({
            let r = s.cursor_row as int;
            let c = s.cursor_col as int;
            let cr = s.feed(seq![0x0du8]);
            let bs = s.feed(seq![0x08u8]);
            let tab = s.feed(seq![0x09u8]);
            let lf = s.feed(seq![0x0au8]);
            &&& cr.cursor_col == 0 && cr.cursor_row == r && cr.grid == s.grid
            &&& bs.cursor_col == (if c > 0 { c - 1 } else { 0 }) && bs.cursor_row == r && bs.grid == s.grid
            &&& tab.cursor_col == (if (c / 8 + 1) * 8 <= s.cols - 1 { (c / 8 + 1) * 8 } else { s.cols - 1 })
            &&& tab.cursor_row == r && tab.grid == s.grid
            &&& (s.cursor_row != s.scroll_bottom && r + 1 < s.rows ==> lf.cursor_row == r + 1 && lf.cursor_col == c
                && lf.grid == s.grid)
        }),
{
    lemma_one_control(s, 0x0d);
    lemma_one_control(s, 0x08);
    lemma_one_control(s, 0x09);
    lemma_one_control(s, 0x0a);
}

// ── Colours and attributes ──────────────────────────────────────────────

/// One number written in decimal is the one parameter of a sequence.
proof fn lemma_one_param(p: nat)
    requires
        p <= 65535,
    ensures
        !crate::parse::csi_private(crate::parse::decimal(p)),
        crate::parse::csi_params(crate::parse::decimal(p)) == seq![p as u16],
        forall|i: int| 0 <= i < crate::parse::decimal(p).len() ==> 0x20 <= #[trigger] crate::parse::decimal(p)[i] <= 0x3f,
{
    let d = crate::parse::decimal(p);
    lemma_decimal_reads_back(p);
    assert(crate::parse::is_digit(d[0]));
    assert(d.skip(0) =~= d);
    lemma_split_extends_last(Seq::<u8>::empty(), d);
    assert(Seq::<u8>::empty() + d =~= d);
    assert(crate::parse::split_fields(Seq::<u8>::empty()) =~= seq![Seq::<u8>::empty()]);
    assert(crate::parse::split_fields(d) =~= seq![d]);
    assert(crate::parse::csi_params(d) =~= seq![p as u16]);
    assert forall|i: int| 0 <= i < d.len() implies 0x20 <= #[trigger] d[i] <= 0x3f by {
        assert(crate::parse::is_digit(d[i]));
    }
}

/// Select graphic rendition, one parameter `p` (`ESC [ p m`): 0 resets to
/// the default colours without attributes; 1 bold, 2 dim, 3 italic, 4
/// underline and 7 inverse switch that attribute on, 22 switches bold and
/// dim off; 30 to 37 set the foreground to colour 0 to 7 and 90 to 97 to
/// colour 8 to 15, 40 to 47 and 100 to 107 the background likewise, 39 and
/// 49 give back the default foreground and background. Nothing else of the
/// attributes changes, and the cells and the cursor stay.
#[verifier::spinoff_prover]
pub proof fn law_select_graphic_rendition(s: ScreenView, p: u16)
    requires
        s.state == ParseState::Normal,
    ensures
        ({
            let t = s.feed(csi_bytes(crate::parse::decimal(p as nat), 0x6d));
            let a = s.attrs;
            &&& t.grid == s.grid
            &&& t.cursor_row == s.cursor_row && t.cursor_col == s.cursor_col
            &&& p == 0 ==> t.attrs == (Attrs {
                fg: CellColor::Default,
                bg: CellColor::Default,
                bold: false,
                dim: false,
                italic: false,
                underline: false,
                inverse: false,
            })
            &&& p == 1 ==> t.attrs == (Attrs { bold: true, ..a })
            &&& p == 2 ==> t.attrs == (Attrs { dim: true, ..a })
            &&& p == 3 ==> t.attrs == (Attrs { italic: true, ..a })
            &&& p == 4 ==> t.attrs == (Attrs { underline: true, ..a })
            &&& p == 7 ==> t.attrs == (Attrs { inverse: true, ..a })
            &&& p == 22 ==> t.attrs == (Attrs { bold: false, dim: false, ..a })
            &&& 30 <= p <= 37 ==> t.attrs == (Attrs { fg: CellColor::Idx((p - 30) as u8), ..a })
            &&& 90 <= p <= 97 ==> t.attrs == (Attrs { fg: CellColor::Idx((p - 82) as u8), ..a })
            &&& 40 <= p <= 47 ==> t.attrs == (Attrs { bg: CellColor::Idx((p - 40) as u8), ..a })
            &&& 100 <= p <= 107 ==> t.attrs == (Attrs { bg: CellColor::Idx((p - 92) as u8), ..a })
            &&& p == 39 ==> t.attrs == (Attrs { fg: CellColor::Default, ..a })
            &&& p == 49 ==> t.attrs == (Attrs { bg: CellColor::Default, ..a })
        }),
{
    let s0 = ScreenView { scroll_offset: 0, ..s };
    let d = crate::parse::decimal(p as nat);
    lemma_one_param(p as nat);
    lemma_csi_bytes(s0, d, 0x6d);
    assert(csi_bytes(d, 0x6d).len() > 0);
    let u = ScreenView { state: ParseState::Csi, csi_buf: d, ..s0 };
    let ps: Seq<u16> = seq![p];
    assert(u.execute_csi(0x6d) == ScreenView { attrs: crate::cell::sgr(s.attrs, ps), ..u });
    if p != 38 && p != 48 {
        assert(crate::cell::sgr_from(s.attrs, ps, 0) == crate::cell::sgr_from(crate::cell::sgr_one(s.attrs, p), ps, 1));
        assert(crate::cell::sgr_from(crate::cell::sgr_one(s.attrs, p), ps, 1) == crate::cell::sgr_one(s.attrs, p));
    }
}

// ── Characters in the cursor's row ──────────────────────────────────────

/// Deleting (`ESC [ n P`), inserting (`ESC [ n @`) and erasing
/// (`ESC [ n X`) characters at the cursor, `n` one when 0 or left out,
/// touch only the cursor's row, which keeps its width: deleting moves the
/// cells right of the deleted ones left and brings blanks in at the end,
/// inserting puts `n` blanks at the cursor and moves the cells from there
/// right (those pushed past the end are lost), erasing blanks `n` cells from
/// the cursor on. The cells left of the cursor, the other rows and the
/// cursor stay.
#[verifier::spinoff_prover]
#[verifier::rlimit(40)]
pub proof fn law_character_edits(s: ScreenView, d: u8, f: u8)
    requires
        s.well_formed(),
        s.state == ParseState::Normal,
        0x30 <= d <= 0x39,
        f == 0x50 || f == 0x40 || f == 0x58,
    ensures
        ({
            let t = s.feed(csi_bytes(seq![d], f));
            let n: int = if d == 0x30 { 1 } else { d - 0x30 };
            let r = s.cursor_row as int;
            let c = s.cursor_col as int;
            let row = s.grid[r];
            let cols = s.cols as int;
            &&& t.grid.len() == s.grid.len()
            &&& (forall|i: int| 0 <= i < s.grid.len() && i != r ==> t.grid[i] == s.grid[i])
            &&& t.grid[r].len() == cols
            &&& (forall|j: int| 0 <= j < cols ==> #[trigger] t.grid[r][j] == (
                if j < c {
                    row[j]
                } else if f == 0x50 {
                    if j + n < cols { row[j + n] } else { blank_cell() }
                } else if f == 0x40 {
                    if j < c + n { blank_cell() } else { row[j - n] }
                } else {
                    if j < c + n { blank_cell() } else { row[j] }
                }))
            &&& t.cursor_row == s.cursor_row && t.cursor_col == s.cursor_col
        }),
{
    let s0 = ScreenView { scroll_offset: 0, ..s };
    lemma_one_digit_param(d);
    assert forall|i: int| 0 <= i < seq![d].len() implies 0x20 <= #[trigger] seq![d][i] <= 0x3f by {
        assert(seq![d][i] == d);
    }
    lemma_csi_bytes(s0, seq![d], f);
    assert(csi_bytes(seq![d], f).len() > 0);
    let u = ScreenView { state: ParseState::Csi, csi_buf: seq![d], ..s0 };
    let n: int = if d == 0x30 { 1 } else { d - 0x30 };
    assert(u.execute_csi(f) == u.cursor_line_ops(f, n as u16));
    let r = s.cursor_row as int;
    let c = s.cursor_col as int;
    let row = s.grid[r];
    assert(row.len() == s.cols);
}

// ── Lines in the scroll region ──────────────────────────────────────────

proof fn lemma_insert_lines_times(s: ScreenView, k: nat)
    requires
        s.cursor_row <= s.scroll_bottom,
        s.scroll_bottom < s.grid.len(),
        k <= s.scroll_bottom - s.cursor_row + 1,
    ensures
        ({
            let t = s.insert_lines_times(k);
            let r = s.cursor_row as int;
            let bot = s.scroll_bottom as int;
            &&& t.grid.len() == s.grid.len()
            &&& t.cursor_row == s.cursor_row && t.cursor_col == s.cursor_col && t.scroll_bottom == s.scroll_bottom
            &&& t.cols == s.cols
            &&& forall|i: int| 0 <= i < s.grid.len() ==> #[trigger] t.grid[i] == (
                if i < r || i > bot { s.grid[i] } else if i < r + k { blank_row(s.cols as nat) } else { s.grid[i - k] })
        }),
    decreases k,
{
    if k > 0 {
        lemma_insert_lines_times(s, (k - 1) as nat);
        let p = s.insert_lines_times((k - 1) as nat);
        let r = s.cursor_row as int;
        let bot = s.scroll_bottom as int;
        let g1 = p.grid.remove(bot);
        let g2 = g1.insert(r, blank_row(s.cols as nat));
        assert forall|i: int| 0 <= i < s.grid.len() implies #[trigger] g2[i] == (
            if i < r || i > bot { s.grid[i] } else if i < r + k { blank_row(s.cols as nat) } else { s.grid[i - k] }) by {
            if i < r {
                assert(g2[i] == g1[i]);
            } else if i == r {
            } else if i <= bot {
                assert(g2[i] == g1[i - 1]);
                assert(g1[i - 1] == p.grid[i - 1]);
            } else {
                assert(g2[i] == g1[i - 1]);
                assert(g1[i - 1] == p.grid[i]);
            }
        }
    }
}

proof fn lemma_delete_lines_times(s: ScreenView, k: nat)
    requires
        s.cursor_row <= s.scroll_bottom,
        s.scroll_bottom < s.grid.len(),
        k <= s.scroll_bottom - s.cursor_row + 1,
    ensures
        ({
            let t = s.delete_lines_times(k);
            let r = s.cursor_row as int;
            let bot = s.scroll_bottom as int;
            &&& t.grid.len() == s.grid.len()
            &&& t.cursor_row == s.cursor_row && t.cursor_col == s.cursor_col && t.scroll_bottom == s.scroll_bottom
            &&& t.cols == s.cols
            &&& forall|i: int| 0 <= i < s.grid.len() ==> #[trigger] t.grid[i] == (
                if i < r || i > bot { s.grid[i] } else if i <= bot - k { s.grid[i + k] } else { blank_row(s.cols as nat) })
        }),
    decreases k,
{
    if k > 0 {
        lemma_delete_lines_times(s, (k - 1) as nat);
        let p = s.delete_lines_times((k - 1) as nat);
        let r = s.cursor_row as int;
        let bot = s.scroll_bottom as int;
        let g1 = p.grid.remove(r);
        let g2 = g1.insert(bot, blank_row(s.cols as nat));
        assert forall|i: int| 0 <= i < s.grid.len() implies #[trigger] g2[i] == (
            if i < r || i > bot { s.grid[i] } else if i <= bot - k { s.grid[i + k] } else { blank_row(s.cols as nat) }) by {
            if i < r {
                assert(g2[i] == g1[i]);
                assert(g1[i] == p.grid[i]);
            } else if i < bot {
                assert(g2[i] == g1[i]);
                assert(g1[i] == p.grid[i + 1]);
            } else if i == bot {
            } else {
                assert(g2[i] == g1[i - 1]);
                assert(g1[i - 1] == p.grid[i]);
            }
        }
    }
}

/// Inserting (`ESC [ n L`) and deleting (`ESC [ n M`) lines at the cursor,
/// `n` one when 0 or left out, work inside the scroll region and leave the
/// rows above the cursor and below the region alone. Inserting puts `n`
/// blank lines at the cursor's row and moves the lines from there down, the
/// region's last lines leaving; deleting takes `n` lines from the cursor's
/// row on away, moves the lines below them up and brings blank lines in at
/// the region's bottom. Either way at most the lines from the cursor to the
/// region's bottom are touched, and the cursor stays.
#[verifier::spinoff_prover]
pub proof fn law_line_edits(s: ScreenView, d: u8, f: u8)
    requires
        s.well_formed(),
        s.state == ParseState::Normal,
        s.cursor_row <= s.scroll_bottom,
        0x30 <= d <= 0x39,
        f == 0x4c || f == 0x4d,
    ensures
        ({
            let t = s.feed(csi_bytes(seq![d], f));
            let n: int = if d == 0x30 { 1 } else { d - 0x30 };
            let r = s.cursor_row as int;
            let bot = s.scroll_bottom as int;
            let k = if n < bot - r + 1 { n } else { bot - r + 1 };
            &&& t.grid.len() == s.grid.len()
            &&& t.cursor_row == s.cursor_row && t.cursor_col == s.cursor_col
            &&& forall|i: int| 0 <= i < s.grid.len() ==> #[trigger] t.grid[i] == (
                if i < r || i > bot {
                    s.grid[i]
                } else if f == 0x4c {
                    if i < r + k { blank_row(s.cols as nat) } else { s.grid[i - k] }
                } else {
                    if i <= bot - k { s.grid[i + k] } else { blank_row(s.cols as nat) }
                })
        }),
{
    let s0 = ScreenView { scroll_offset: 0, ..s };
    lemma_one_digit_param(d);
    assert forall|i: int| 0 <= i < seq![d].len() implies 0x20 <= #[trigger] seq![d][i] <= 0x3f by {
        assert(seq![d][i] == d);
    }
    lemma_csi_bytes(s0, seq![d], f);
    assert(csi_bytes(seq![d], f).len() > 0);
    let u = ScreenView { state: ParseState::Csi, csi_buf: seq![d], ..s0 };
    let n: int = if d == 0x30 { 1 } else { d - 0x30 };
    let r = s.cursor_row as int;
    let bot = s.scroll_bottom as int;
    let k = if n < bot - r + 1 { n } else { bot - r + 1 };
    assert(min_int(n, bot - r + 1) == k);
    if f == 0x4c {
        assert(u.execute_csi(f) == u.insert_lines(n as u16));
        lemma_insert_lines_times(u, k as nat);
    } else {
        assert(u.execute_csi(f) == u.delete_lines(n as u16));
        lemma_delete_lines_times(u, k as nat);
    }
}

/// Setting the scroll region (`ESC [ t ; b r`, rows counted from 1, the top
/// above the bottom, both on the screen) makes rows `t` to `b` the region
/// and puts the cursor in the top left corner; no cell changes.
#[verifier::spinoff_prover]
pub proof fn law_set_scroll_region(s: ScreenView, top: u16, bottom: u16)
    requires
        s.layout_ok(),
        s.state == ParseState::Normal,
        1 <= top < bottom <= s.rows,
    ensures
        ({
            let t = s.feed(csi_bytes(
                crate::parse::decimal(top as nat) + seq![0x3bu8] + crate::parse::decimal(bottom as nat),
                0x72,
            ));
            &&& t.scroll_top == top - 1
            &&& t.scroll_bottom == bottom - 1
            &&& t.cursor_row == 0 && t.cursor_col == 0
            &&& t.grid == s.grid
        }),
{
    let buf = crate::parse::decimal(top as nat) + seq![0x3bu8] + crate::parse::decimal(bottom as nat);
    lemma_two_params(top as nat, bottom as nat);
    let s0 = ScreenView { scroll_offset: 0, ..s };
    lemma_csi_bytes(s0, buf, 0x72);
    assert(csi_bytes(buf, 0x72).len() > 0);
}

// ── Saving the cursor ───────────────────────────────────────────────────

/// `ESC` and one byte in the ground state do what that escape does.
#[verifier::spinoff_prover]
proof fn lemma_escape_pair(s: ScreenView, b: u8)
    requires
        s.state == ParseState::Normal,
    ensures
        s.process_bytes(seq![0x1bu8, b]) == (ScreenView { state: ParseState::Escape, ..s }).escape(b),
{
    let one: Seq<u8> = seq![0x1bu8];
    let two: Seq<u8> = seq![0x1bu8, b];
    assert(two.drop_last() =~= one);
    assert(one.drop_last() =~= Seq::<u8>::empty());
    assert(s.process_bytes(Seq::<u8>::empty()) == s);
    let e = ScreenView { state: ParseState::Escape, ..s };
    assert(s.step(0x1b) == e) by {
        reveal(ScreenView::step);
    }
    assert(s.process_bytes(one) == s.process_bytes(Seq::<u8>::empty()).step(0x1b));
    assert(e.step(b) == e.escape(b)) by {
        reveal(ScreenView::step);
    }
    assert(s.process_bytes(two) == s.process_bytes(one).step(b));
}

/// Saving and restoring the cursor (`ESC 7`, `ESC 8`): whatever moves the
/// cursor (`ESC [ r ; c H`) and changes the colours (`ESC [ p m`) between
/// them, the cursor and the attributes come back as they were saved.
pub proof fn law_save_restore_cursor(s: ScreenView, r: u16, c: u16, p: u16)
    requires
        s.layout_ok(),
        s.state == ParseState::Normal,
        1 <= r <= s.rows,
        1 <= c <= s.cols,
    ensures
        ({
            let t = s.feed(seq![0x1bu8, 0x37u8])
                .feed(csi_bytes(crate::parse::decimal(r as nat) + seq![0x3bu8] + crate::parse::decimal(c as nat), 0x48))
                .feed(csi_bytes(crate::parse::decimal(p as nat), 0x6d))
                .feed(seq![0x1bu8, 0x38u8]);
            &&& t.cursor_row == s.cursor_row
            &&& t.cursor_col == s.cursor_col
            &&& t.attrs == s.attrs
        }),
{
    let s0 = ScreenView { scroll_offset: 0, ..s };
    lemma_escape_pair(s0, 0x37);
    let a = s.feed(seq![0x1bu8, 0x37u8]);
    assert(a.saved_cursor == Some((s.cursor_row, s.cursor_col, s.attrs)));
    assert(a.layout_ok());
    let mv = csi_bytes(crate::parse::decimal(r as nat) + seq![0x3bu8] + crate::parse::decimal(c as nat), 0x48);
    law_cursor_report_bytes(a, r, c);
    lemma_two_params(r as nat, c as nat);
    lemma_csi_bytes(a, crate::parse::decimal(r as nat) + seq![0x3bu8] + crate::parse::decimal(c as nat), 0x48);
    let b = a.feed(mv);
    assert(b.saved_cursor == a.saved_cursor);
    law_select_graphic_rendition(b, p);
    lemma_one_param(p as nat);
    lemma_csi_bytes(b, crate::parse::decimal(p as nat), 0x6d);
    let c2 = b.feed(csi_bytes(crate::parse::decimal(p as nat), 0x6d));
    assert(c2.saved_cursor == a.saved_cursor);
    assert(c2.state == ParseState::Normal);
    lemma_escape_pair(c2, 0x38);
}

/// Absolute cursor moves: `ESC [ H` puts the cursor in the top left
/// corner; `ESC [ c G` moves it to column `c` of its row and `ESC [ r d` to
/// row `r` of its column (counted from 1, held on the screen); and the
/// device-attributes question `ESC [ c` is answered `ESC [ ? 1 ; 2 c`.
/// None of them changes a cell.
#[verifier::spinoff_prover]
pub proof fn law_absolute_moves(s: ScreenView, n: u16)
    requires
        s.layout_ok(),
        s.cols > 0,
        s.state == ParseState::Normal,
        n >= 1,
    ensures
        ({
            let home = s.feed(csi_bytes(seq![], 0x48));
            let col = s.feed(csi_bytes(crate::parse::decimal(n as nat), 0x47));
            let row = s.feed(csi_bytes(crate::parse::decimal(n as nat), 0x64));
            let da = s.feed(csi_bytes(seq![], 0x63));
            &&& home.cursor_row == 0 && home.cursor_col == 0 && home.grid == s.grid
            &&& col.cursor_row == s.cursor_row && col.grid == s.grid
            &&& col.cursor_col == (if n <= s.cols { n - 1 } else { s.cols - 1 })
            &&& row.cursor_col == s.cursor_col && row.grid == s.grid
            &&& row.cursor_row == (if n <= s.rows { n - 1 } else { s.rows - 1 })
            &&& da.responses == s.responses.push(seq![0x1bu8, 0x5bu8, 0x3fu8, 0x31u8, 0x3bu8, 0x32u8, 0x63u8])
            &&& da.grid == s.grid
        }),
{
    let s0 = ScreenView { scroll_offset: 0, ..s };
    let e: Seq<u8> = seq![];
    assert(!crate::parse::csi_private(e));
    assert(crate::parse::csi_params(e) =~= Seq::<u16>::empty());
    lemma_csi_bytes(s0, e, 0x48);
    lemma_csi_bytes(s0, e, 0x63);
    assert(csi_bytes(e, 0x48).len() > 0);
    assert(csi_bytes(e, 0x63).len() > 0);
    let d = crate::parse::decimal(n as nat);
    lemma_one_param(n as nat);
    lemma_csi_bytes(s0, d, 0x47);
    lemma_csi_bytes(s0, d, 0x64);
    assert(csi_bytes(d, 0x47).len() > 0);
    assert(csi_bytes(d, 0x64).len() > 0);
}

} // verus!
