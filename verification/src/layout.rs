//! Where things go on the screen: overlays centred on the chat, the
//! notes in its corner, the lines of queued messages, the label of the
//! working indicator, the hint inside the input box.

use vstd::prelude::*;
use crate::text::{append_decimal, append_str, decimal_chars, str_chars};
use crate::widgets::{Span, Tone, lines_view, push_line, push_span, span, span_of, spans_view};
use crate::width::{str_width, text_width};
use crate::overlays::strings_view;

verus! {

/// A rectangle of the screen, in cells.
#[derive(Debug, Clone, Copy, PartialEq, Eq, Structural)]
pub struct Area {
    pub x: u16,
    pub y: u16,
    pub width: u16,
    pub height: u16,
}

/// The area lies on the screen: its right and bottom edges are numbers of
/// the screen.
pub open spec fn on_screen(a: Area) -> bool {
    a.x + a.width <= u16::MAX && a.y + a.height <= u16::MAX
}

pub open spec fn at_least(n: int, min: int) -> int {
    if n < min { min } else { n }
}

pub open spec fn sat_sub(a: int, b: int) -> int {
    if a > b { a - b } else { 0 }
}

/// An overlay centred on an area: `pw` percent of its width but at least
/// `min_w` columns, `ph` percent of its height but at least `min_h` rows
/// (each percentage rounded down); when larger than the area it starts at
/// the area's corner.
pub open spec fn centered(a: Area, pw: nat, ph: nat, min_w: nat, min_h: nat) -> Area {
    let w = at_least(a.width * pw / 100, min_w as int);
    let h = at_least(a.height * ph / 100, min_h as int);
    Area {
        x: (a.x + sat_sub(a.width as int, w) / 2) as u16,
        y: (a.y + sat_sub(a.height as int, h) / 2) as u16,
        width: w as u16,
        height: h as u16,
    }
}

/// An overlay centred on an area (see `centered`).
pub fn overlay_area(a: Area, pw: u16, ph: u16, min_w: u16, min_h: u16) -> (r: Area)
    requires
        on_screen(a),
        a.width * pw <= u16::MAX,
        a.height * ph <= u16::MAX,
    ensures
        r == centered(a, pw as nat, ph as nat, min_w as nat, min_h as nat),
{
    let w0: u16 = a.width * pw / 100;
    let h0: u16 = a.height * ph / 100;
    let w = if w0 < min_w { min_w } else { w0 };
    let h = if h0 < min_h { min_h } else { h0 };
    let dx: u16 = if a.width > w { a.width - w } else { 0 };
    let dy: u16 = if a.height > h { a.height - h } else { 0 };
    Area { x: a.x + dx / 2, y: a.y + dy / 2, width: w, height: h }
}

/// What lies inside an area's border, one cell in on each side.
pub open spec fn inside_border(a: Area) -> Area {
    Area {
        x: (a.x + 1) as u16,
        y: (a.y + 1) as u16,
        width: sat_sub(a.width as int, 2) as u16,
        height: sat_sub(a.height as int, 2) as u16,
    }
}

/// What lies inside an area's border (see `inside_border`).
pub fn inner_area(a: Area) -> (r: Area)
    requires
        a.x < u16::MAX,
        a.y < u16::MAX,
    ensures
        r == inside_border(a),
{
    Area {
        x: a.x + 1,
        y: a.y + 1,
        width: if a.width > 2 { a.width - 2 } else { 0 },
        height: if a.height > 2 { a.height - 2 } else { 0 },
    }
}

// ── The working indicator ───────────────────────────────────────────────

/// What the indicator says while an answer streams: in the main chat,
/// working until something arrives, thinking while only reasoning has, and
/// writing once text has; in the event agent's view, working until text
/// arrives, then writing.
pub open spec fn shimmer_text(event_view: bool, text_empty: bool, thinking_empty: bool) -> Seq<char> {
    if event_view {
        if text_empty { "Event Agent working..."@ } else { "Event Agent writing..."@ }
    } else if text_empty && thinking_empty {
        "Working on it..."@
    } else if text_empty {
        "Thinking..."@
    } else {
        "Writing..."@
    }
}

/// What the indicator says (see `shimmer_text`).
pub fn shimmer_label(event_view: bool, text_empty: bool, thinking_empty: bool) -> (r: &'static str)
    ensures
        r@ == shimmer_text(event_view, text_empty, thinking_empty),
{
    if event_view {
        if text_empty { "Event Agent working..." } else { "Event Agent writing..." }
    } else if text_empty && thinking_empty {
        "Working on it..."
    } else if text_empty {
        "Thinking..."
    } else {
        "Writing..."
    }
}

// ── Queued messages ─────────────────────────────────────────────────────

/// The label of the queued message at `i` (from 0): "↳ queued {i + 1}: ".
pub open spec fn queued_label(i: nat) -> Seq<char> {
    "↳ queued "@ + decimal_chars(i + 1) + ": "@
}

/// The bytes the label takes: the arrow takes three.
pub open spec fn queued_label_bytes(i: nat) -> nat {
    13 + decimal_chars(i + 1).len()
}

/// A queued message as its line shows it, in `room` characters: cut to one
/// less and "…" when longer.
pub open spec fn queued_preview(m: Seq<char>, room: nat) -> Seq<char> {
    if m.len() > room {
        m.take(sat_sub(room as int, 1)) + "…"@
    } else {
        m
    }
}

/// The line of each queued message in `width` columns: its label, dim, and
/// its preview in what is left of the width (counting the label's bytes),
/// yellow.
pub open spec fn queued_view(ms: Seq<Seq<char>>, width: u16) -> Seq<Seq<(Seq<char>, Tone)>> {
    Seq::new(ms.len(), |i: int| seq![
        (queued_label(i as nat), Tone::Dim),
        (queued_preview(ms[i], sat_sub(width as int, queued_label_bytes(i as nat) as int) as nat), Tone::Caret),
    ])
}

/// The lines of the queued messages (see `queued_view`).
pub fn queued_lines(ms: &Vec<String>, width: u16) -> (r: Vec<Vec<Span>>)
    ensures
        lines_view(r@) == queued_view(crate::overlays::strings_view(ms@), width),
{
    let ghost mv = crate::overlays::strings_view(ms@);
    let mut lines: Vec<Vec<Span>> = Vec::new();
    let mut i: usize = 0;
    while i < ms.len()
        invariant
            i <= ms@.len(),
            mv == crate::overlays::strings_view(ms@),
            lines_view(lines@) =~~= queued_view(mv, width).take(i as int),
        decreases ms@.len() - i,
    {
        let mut label = str_chars("↳ queued ");
        append_decimal(&mut label, i as u64 + 1);
        append_str(&mut label, ": ");
        proof {
            reveal_strlit("↳ queued ");
            reveal_strlit(": ");
        }
        let digits: usize = label.len() - 11;
        assert(digits == decimal_chars((i + 1) as nat).len());
        let w = width as usize;
        let room: usize = if w > 13 && w - 13 > digits { w - 13 - digits } else { 0 };
        let m = str_chars(ms[i].as_str());
        let preview = if m.len() > room {
            let keep: usize = if room > 1 { room - 1 } else { 0 };
            let mut p: Vec<char> = Vec::new();
            let mut k: usize = 0;
            while k < keep
                invariant
                    k <= keep < m@.len(),
                    p@ == m@.take(k as int),
                decreases keep - k,
            {
                p.push(m[k]);
                assert(p@ =~= m@.take(k + 1));
                k += 1;
            }
            append_str(&mut p, "…");
            p
        } else {
            m
        };
        let mut line: Vec<Span> = Vec::new();
        push_span(&mut line, span_of(&label, Tone::Dim));
        push_span(&mut line, span_of(&preview, Tone::Caret));
        assert(spans_view(line@) =~~= queued_view(mv, width)[i as int]);
        push_line(&mut lines, line);
        assert(queued_view(mv, width).take(i + 1) =~~= queued_view(mv, width).take(i as int).push(queued_view(mv, width)[i as int]));
        i += 1;
    }
    assert(queued_view(mv, width).take(ms@.len() as int) =~~= queued_view(mv, width));
    lines
}

// ── Notes in the corner ─────────────────────────────────────────────────

/// How many notes show: the last five at most.
pub open spec fn toasts_shown(n: nat) -> nat {
    if n < 5 { n } else { 5 }
}

/// The columns a note's line takes: the marker "▸ " and the note.
pub open spec fn toast_width(m: Seq<char>) -> nat {
    (text_width("▸ "@) + text_width(m)) as nat
}

/// The columns a note's box needs for its line: the line's width plus two,
/// held at the largest width a box can have.
pub open spec fn toast_line_width(m: Seq<char>) -> nat {
    if toast_width(m) + 2 <= u16::MAX { toast_width(m) + 2 } else { u16::MAX as nat }
}

/// The widest of the lines of notes (see `toast_line_width`).
pub open spec fn widest(ms: Seq<Seq<char>>) -> nat
    decreases ms.len(),
{
    if ms.len() == 0 {
        0
    } else {
        let w = toast_line_width(ms.last());
        let rest = widest(ms.drop_last());
        if w > rest { w } else { rest }
    }
}

proof fn lemma_widest_bound(ms: Seq<Seq<char>>)
    ensures
        widest(ms) <= u16::MAX,
    decreases ms.len(),
{
    if ms.len() > 0 {
        lemma_widest_bound(ms.drop_last());
    }
}

/// The box of the notes in the chat's top right corner: as wide as the
/// widest line of the notes that show (plus two, see `toast_line_width`)
/// but no wider than the
/// chat, as high as their number but no higher than the chat; none without
/// notes.
pub open spec fn toast_box(ms: Seq<Seq<char>>, chat: Area) -> Option<Area> {
    if ms.len() == 0 {
        None
    } else {
        let shown = ms.skip(ms.len() - toasts_shown(ms.len()));
        let w = if widest(shown) < chat.width { widest(shown) } else { chat.width as nat };
        let right = if chat.x + chat.width <= u16::MAX { chat.x + chat.width } else { u16::MAX as int };
        Some(Area {
            x: sat_sub(right, w as int) as u16,
            y: chat.y,
            width: w as u16,
            height: if shown.len() < chat.height { shown.len() as u16 } else { chat.height },
        })
    }
}

/// The lines of the notes that show: the marker, yellow, then the note,
/// dim.
pub open spec fn toast_view(ms: Seq<Seq<char>>) -> Seq<Seq<(Seq<char>, Tone)>> {
    let shown = ms.skip(ms.len() - toasts_shown(ms.len()));
    Seq::new(shown.len(), |i: int| seq![("▸ "@, Tone::Caret), (shown[i], Tone::Dim)])
}

/// The box of the notes (see `toast_box`).
pub fn toast_area(ms: &Vec<String>, chat: Area) -> (r: Option<Area>)
    ensures
        r == toast_box(strings_view(ms@), chat),
{
    let ghost mv = strings_view(ms@);
    let n = ms.len();
    if n == 0 {
        return None;
    }
    let count: usize = if n < 5 { n } else { 5 };
    let first = n - count;
    let ghost shown = mv.skip(first as int);
    let marker = str_width("▸ ");
    let mut w: u16 = 0;
    let mut i: usize = first;
    assert(shown.take(0) =~= Seq::<Seq<char>>::empty());
    while i < n
        invariant
            first <= i <= n == ms@.len(),
            mv == strings_view(ms@),
            shown == mv.skip(first as int),
            marker == text_width("▸ "@),
            w == widest(shown.take(i - first)),
        decreases n - i,
    {
        let tw = str_width(ms[i].as_str());
        assert(mv[i as int] == ms@[i as int]@);
        let lw: u16 = if marker <= 65533 && tw <= 65533 - marker { (marker + tw + 2) as u16 } else { 65535 };
        assert(lw == toast_line_width(mv[i as int]));
        proof {
            lemma_widest_bound(shown.take(i - first));
        }
        assert(shown.take(i + 1 - first).drop_last() =~= shown.take(i - first));
        assert(shown.take(i + 1 - first).last() == mv[i as int]);
        if lw > w {
            w = lw;
        }
        i += 1;
    }
    assert(shown.take(n - first) =~= shown);
    let width = if w < chat.width { w } else { chat.width };
    let right: u16 = if chat.x as u32 + chat.width as u32 <= 65535 { chat.x + chat.width } else { 65535 };
    let x = if right > width { right - width } else { 0 };
    let height = if (count as u16) < chat.height { count as u16 } else { chat.height };
    Some(Area { x, y: chat.y, width, height })
}

/// The lines of the notes that show (see `toast_view`).
pub fn toast_lines(ms: &Vec<String>) -> (r: Vec<Vec<Span>>)
    ensures
        lines_view(r@) == toast_view(strings_view(ms@)),
{
    let ghost mv = strings_view(ms@);
    let n = ms.len();
    let count: usize = if n < 5 { n } else { 5 };
    let first = n - count;
    let ghost shown = mv.skip(first as int);
    assert(toasts_shown(mv.len()) == count);
    assert(toast_view(mv).len() == n - first);
    let mut lines: Vec<Vec<Span>> = Vec::new();
    let mut i: usize = first;
    while i < n
        invariant
            first <= i <= n == ms@.len(),
            mv == strings_view(ms@),
            shown == mv.skip(first as int),
            toast_view(mv).len() == n - first,
            toast_view(mv) == Seq::new(shown.len(), |k: int| seq![("▸ "@, Tone::Caret), (shown[k], Tone::Dim)]),
            lines_view(lines@) =~~= toast_view(mv).take(i - first),
        decreases n - i,
    {
        let mut line: Vec<Span> = Vec::new();
        push_span(&mut line, span("▸ ", Tone::Caret));
        push_span(&mut line, span(ms[i].as_str(), Tone::Dim));
        assert(shown[i - first] == ms@[i as int]@);
        assert(spans_view(line@) =~~= toast_view(mv)[i - first]);
        push_line(&mut lines, line);
        assert(toast_view(mv).take(i + 1 - first) =~~= toast_view(mv).take(i - first).push(toast_view(mv)[i - first]));
        i += 1;
    }
    assert(toast_view(mv).take(n - first) =~~= toast_view(mv));
    lines
}

// ── The hint in the input box ───────────────────────────────────────────

/// Where " ESC to clear " goes inside the input box: right-aligned before
/// the border, on the last row inside it; nowhere when the box is not
/// wider than the hint and four more columns.
pub open spec fn esc_hint_spot(a: Area) -> Option<(u16, u16)> {
    if a.width > 18 {
        Some(((a.x + a.width - 14 - 1) as u16, (a.y + sat_sub(a.height as int, 2)) as u16))
    } else {
        None
    }
}

/// Where the hint that ESC clears the input goes (see `esc_hint_spot`).
pub fn esc_hint_position(a: Area) -> (r: Option<(u16, u16)>)
    requires
        on_screen(a),
    ensures
        r == esc_hint_spot(a),
{
    let hint_len: u16 = 14;
    if a.width > hint_len + 4 {
        let x = a.x + a.width - hint_len - 1;
        let y = a.y + if a.height > 2 { a.height - 2 } else { 0 };
        Some((x, y))
    } else {
        None
    }
}

// ── The frame ───────────────────────────────────────────────────────────

/// The rows of the task panel: none when hidden, three for "no tasks", else
/// one per task and its border, at most eight.
pub open spec fn task_panel_rows(visible: bool, tasks: nat) -> nat {
    if !visible {
        0
    } else if tasks == 0 {
        3
    } else if tasks + 2 < 8 {
        tasks + 2
    } else {
        8
    }
}

/// The rows of the task panel (see `task_panel_rows`).
pub fn task_panel_height(visible: bool, tasks: usize) -> (r: u16)
    ensures
        r == task_panel_rows(visible, tasks as nat),
{
    if !visible {
        0
    } else if tasks == 0 {
        3
    } else if tasks < 6 {
        tasks as u16 + 2
    } else {
        8
    }
}

/// The rows left to the chat: the terminal's, less the input's, the status
/// bar and the gap above the input, the task panel's, and one each for the
/// working indicator and the queue when they show.
pub open spec fn chat_rows(term: u16, input: u16, tasks: u16, working: bool, queued: bool) -> nat {
    sat_sub(term as int, input + 2 + tasks + (if working { 1int } else { 0 }) + (if queued { 1int } else { 0 })) as nat
}

/// The rows left to the chat (see `chat_rows`).
pub fn chat_area_height(term: u16, input: u16, tasks: u16, working: bool, queued: bool) -> (r: u16)
    requires
        input + 2 + tasks + 2 <= u16::MAX,
    ensures
        r == chat_rows(term, input, tasks, working, queued),
{
    let used: u16 = input + 2 + tasks + if working { 1 } else { 0 } + if queued { 1 } else { 0 };
    if term > used { term - used } else { 0 }
}

/// The columns and rows inside the embedded terminal's overlay for a space
/// of `width` by `height` cells: 90% of the width (at least 20) and 85% of
/// the height (at least 10), less the border.
pub open spec fn terminal_inner(width: u16, height: u16) -> (u16, u16) {
    (
        (at_least(width * 90 / 100, 20) - 2) as u16,
        (at_least(height * 85 / 100, 10) - 2) as u16,
    )
}

/// The size inside the embedded terminal's overlay (see `terminal_inner`).
pub fn terminal_inner_size(width: u16, height: u16) -> (r: (u16, u16))
    ensures
        r == terminal_inner(width, height),
{
    let w: u32 = width as u32 * 90 / 100;
    let h: u32 = height as u32 * 85 / 100;
    let w: u32 = if w < 20 { 20 } else { w };
    let h: u32 = if h < 10 { 10 } else { h };
    ((w - 2) as u16, (h - 2) as u16)
}

/// What the palette under the input shows, if anything: the reasoning
/// levels (two rows more than their number), else the models (likewise,
/// unless the session picker is open), else the commands matching the input
/// (one row more than their number), when there are any and no answer
/// streams and no picker is open; and the command under the cursor, kept
/// among those that match.
pub open spec fn palette_plan(
    commands: nat,
    cursor: nat,
    streaming: bool,
    session_picker: bool,
    models: Option<nat>,
    levels: Option<nat>,
    other_picker: bool,
) -> (bool, nat, nat) {
    let commands_on = commands > 0 && !streaming && !session_picker && models is None && levels is None && !other_picker;
    let models_on = models is Some && !session_picker;
    let height = match levels {
        Some(n) => n + 2,
        None => if models_on { models->0 + 2 } else if commands_on { commands + 1 } else { 0 },
    };
    let last = sat_sub(commands as int, 1) as nat;
    (commands_on || models_on || levels is Some, height, if cursor < last { cursor } else { last })
}

/// What the palette under the input shows (see `palette_plan`).
pub fn palette_layout(
    commands: usize,
    cursor: usize,
    streaming: bool,
    session_picker: bool,
    models: Option<usize>,
    levels: Option<usize>,
    other_picker: bool,
) -> (r: (bool, u16, usize))
    requires
        commands < u16::MAX,
        models matches Some(n) ==> n + 2 <= u16::MAX,
        levels matches Some(n) ==> n + 2 <= u16::MAX,
    ensures
        ({
            let p = palette_plan(
                commands as nat,
                cursor as nat,
                streaming,
                session_picker,
                match models { Some(n) => Some(n as nat), None => None },
                match levels { Some(n) => Some(n as nat), None => None },
                other_picker,
            );
            r.0 == p.0 && r.1 == p.1 && r.2 == p.2
        }),
{
    let commands_on = commands > 0 && !streaming && !session_picker && models.is_none() && levels.is_none() && !other_picker;
    let models_on = models.is_some() && !session_picker;
    let height: u16 = match levels {
        Some(n) => n as u16 + 2,
        None => match models {
            Some(n) if models_on => n as u16 + 2,
            _ => if commands_on { commands as u16 + 1 } else { 0 },
        },
    };
    let last = if commands > 0 { commands - 1 } else { 0 };
    (commands_on || models_on || levels.is_some(), height, if cursor < last { cursor } else { last })
}

/// Where a click falls inside an area, by row and column from its corner;
/// nowhere when it falls outside.
pub open spec fn cell_in(a: Area, col: u16, row: u16) -> Option<(u16, u16)> {
    if a.x <= col < a.x + a.width && a.y <= row < a.y + a.height {
        Some(((row - a.y) as u16, (col - a.x) as u16))
    } else {
        None
    }
}

/// Where a click falls inside an area (see `cell_in`).
pub fn mouse_cell(a: Area, col: u16, row: u16) -> (r: Option<(u16, u16)>)
    requires
        on_screen(a),
    ensures
        r == cell_in(a, col, row),
{
    if col >= a.x && col < a.x + a.width && row >= a.y && row < a.y + a.height {
        Some((row - a.y, col - a.x))
    } else {
        None
    }
}

} // verus!
