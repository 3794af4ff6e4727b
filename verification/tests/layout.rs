use lukan_tui::layout::{
    chat_area_height, esc_hint_position, inner_area, mouse_cell, overlay_area, palette_layout,
    queued_lines, shimmer_label, task_panel_height, terminal_inner_size, toast_area, toast_lines,
    Area,
};
use lukan_tui::event_agent::{after_poll, worker_toast, PollAction};
use lukan_tui::widgets::Tone;

fn area(x: u16, y: u16, width: u16, height: u16) -> Area {
    Area { x, y, width, height }
}

fn s(x: &str) -> String {
    x.to_string()
}

#[test]
fn overlays_are_centred_with_minimums() {
    assert_eq!(overlay_area(area(0, 1, 100, 40), 80, 70, 30, 8), area(10, 7, 80, 28));
    assert_eq!(overlay_area(area(5, 5, 20, 5), 90, 85, 20, 10), area(5, 5, 20, 10));
    assert_eq!(overlay_area(area(3, 2, 101, 41), 90, 85, 20, 10), area(8, 5, 90, 34));
    assert_eq!(inner_area(area(10, 7, 80, 28)), area(11, 8, 78, 26));
    assert_eq!(inner_area(area(0, 0, 1, 1)), area(1, 1, 0, 0));
}

#[test]
fn the_working_indicator_says_what_happens() {
    assert_eq!(shimmer_label(false, true, true), "Working on it...");
    assert_eq!(shimmer_label(false, true, false), "Thinking...");
    assert_eq!(shimmer_label(false, false, true), "Writing...");
    assert_eq!(shimmer_label(false, false, false), "Writing...");
    assert_eq!(shimmer_label(true, true, false), "Event Agent working...");
    assert_eq!(shimmer_label(true, false, true), "Event Agent writing...");
}

fn texts(lines: &[Vec<lukan_tui::widgets::Span>]) -> Vec<Vec<String>> {
    lines.iter().map(|l| l.iter().map(|sp| sp.text.clone()).collect()).collect()
}

#[test]
fn queued_messages_are_cut_to_the_width() {
    let q = vec![s("hello world"), s("hi")];
    let lines = queued_lines(&q, 20);
    assert_eq!(
        texts(&lines),
        vec![vec![s("↳ queued 1: "), s("hello…")], vec![s("↳ queued 2: "), s("hi")]]
    );
    assert_eq!(lines[0][0].tone, Tone::Dim);
    assert_eq!(lines[0][1].tone, Tone::Caret);
    assert_eq!(texts(&queued_lines(&q, 10)), vec![vec![s("↳ queued 1: "), s("…")], vec![s("↳ queued 2: "), s("…")]]);
    let many: Vec<String> = (0..10).map(|i| format!("m{i}")).collect();
    let lines = queued_lines(&many, 17);
    assert_eq!(texts(&lines)[9], vec![s("↳ queued 10: "), s("m9")]);
    assert_eq!(texts(&lines)[0], vec![s("↳ queued 1: "), s("m0")]);
    assert!(queued_lines(&vec![], 30).is_empty());
}

#[test]
fn notes_sit_in_the_top_right_corner() {
    let chat = area(0, 0, 50, 10);
    assert_eq!(toast_area(&vec![s("a"), s("bb")], chat), Some(area(44, 0, 6, 2)));
    let seven: Vec<String> = (1..=7).map(|i| format!("t{i}")).collect();
    assert_eq!(toast_area(&seven, area(10, 4, 30, 3)), Some(area(34, 4, 6, 3)));
    assert_eq!(toast_area(&vec![s("a long note")], area(2, 0, 4, 10)), Some(area(2, 0, 4, 1)));
    assert_eq!(toast_area(&vec![s("日本")], chat), Some(area(42, 0, 8, 1)));
    assert_eq!(toast_area(&vec![], chat), None);
    let huge = "x".repeat(70000);
    assert_eq!(toast_area(&vec![huge], area(0, 0, 65535, 2)), Some(area(0, 0, 65535, 1)));
    let lines = toast_lines(&seven);
    assert_eq!(
        texts(&lines),
        (3..=7).map(|i| vec![s("▸ "), format!("t{i}")]).collect::<Vec<_>>()
    );
    assert_eq!(lines[0][0].tone, Tone::Caret);
    assert_eq!(lines[0][1].tone, Tone::Dim);
}

#[test]
fn the_escape_hint_needs_room() {
    assert_eq!(esc_hint_position(area(0, 10, 40, 3)), Some((25, 11)));
    assert_eq!(esc_hint_position(area(5, 0, 19, 1)), Some((9, 0)));
    assert_eq!(esc_hint_position(area(0, 0, 18, 3)), None);
}

#[test]
fn the_frame_is_shared_out() {
    assert_eq!(task_panel_height(false, 4), 0);
    assert_eq!(task_panel_height(true, 0), 3);
    assert_eq!(task_panel_height(true, 4), 6);
    assert_eq!(task_panel_height(true, 6), 8);
    assert_eq!(task_panel_height(true, 100), 8);
    assert_eq!(chat_area_height(40, 3, 0, false, false), 35);
    assert_eq!(chat_area_height(40, 3, 6, true, true), 27);
    assert_eq!(chat_area_height(5, 3, 6, true, true), 0);
    assert_eq!(terminal_inner_size(100, 35), (88, 27));
    assert_eq!(terminal_inner_size(10, 5), (18, 8));
}

#[test]
fn the_palette_shows_one_thing() {
    // Matching commands, nothing else open.
    assert_eq!(palette_layout(3, 7, false, false, None, None, false), (true, 4, 2));
    assert_eq!(palette_layout(3, 1, true, false, None, None, false), (false, 0, 1));
    assert_eq!(palette_layout(0, 5, false, false, None, None, false), (false, 0, 0));
    assert_eq!(palette_layout(3, 0, false, false, None, None, true), (false, 0, 0));
    // Models, unless the session picker is open.
    assert_eq!(palette_layout(3, 0, false, false, Some(5), None, false), (true, 7, 0));
    assert_eq!(palette_layout(3, 0, false, true, Some(5), None, false), (false, 0, 0));
    // Reasoning levels win.
    assert_eq!(palette_layout(3, 0, false, true, Some(5), Some(4), false), (true, 6, 0));
}

#[test]
fn clicks_inside_the_terminal() {
    let inner = area(10, 5, 20, 8);
    assert_eq!(mouse_cell(inner, 10, 5), Some((0, 0)));
    assert_eq!(mouse_cell(inner, 29, 12), Some((7, 19)));
    assert_eq!(mouse_cell(inner, 30, 6), None);
    assert_eq!(mouse_cell(inner, 9, 6), None);
    assert_eq!(mouse_cell(inner, 12, 13), None);
}

#[test]
fn polled_events_and_worker_notes() {
    assert_eq!(after_poll(false, true, false, 3), PollAction::Nothing);
    assert_eq!(after_poll(true, true, true, 0), PollAction::AutoTurn);
    assert_eq!(after_poll(true, false, false, 2), PollAction::OpenPicker);
    assert_eq!(after_poll(true, false, true, 2), PollAction::Nothing);
    assert_eq!(after_poll(true, false, false, 0), PollAction::Nothing);
    assert_eq!(worker_toast("backup", "success", "3 files"), "✓ Worker 'backup': 3 files");
    assert_eq!(worker_toast("backup", "failed", "disk full"), "✗ Worker 'backup': disk full");
}
