use lukan_tui::keys::{is_quit, is_submit, key_to_bytes, KeyCode, KeyEvent, KeyModifiers};
use lukan_tui::layout::Area;
use lukan_tui::terminal::{terminal_open_size, MouseKind, Selection, TerminalModal};

fn key(code: KeyCode) -> KeyEvent {
    KeyEvent { code, modifiers: KeyModifiers::none() }
}

fn with(code: KeyCode, control: bool, alt: bool) -> KeyEvent {
    let mut m = KeyModifiers::none();
    m.control = control;
    m.alt = alt;
    KeyEvent { code, modifiers: m }
}

#[test]
fn plain_keys_send_their_sequences() {
    assert_eq!(key_to_bytes(&key(KeyCode::Char('a'))), Some(b"a".to_vec()));
    assert_eq!(key_to_bytes(&key(KeyCode::Char('é'))), Some("é".as_bytes().to_vec()));
    assert_eq!(key_to_bytes(&key(KeyCode::Enter)), Some(vec![b'\r']));
    assert_eq!(key_to_bytes(&key(KeyCode::Backspace)), Some(vec![0x7f]));
    assert_eq!(key_to_bytes(&key(KeyCode::Tab)), Some(vec![b'\t']));
    assert_eq!(key_to_bytes(&key(KeyCode::BackTab)), Some(b"\x1b[Z".to_vec()));
    assert_eq!(key_to_bytes(&key(KeyCode::Esc)), Some(vec![0x1b]));
    assert_eq!(key_to_bytes(&key(KeyCode::Up)), Some(b"\x1b[A".to_vec()));
    assert_eq!(key_to_bytes(&key(KeyCode::Left)), Some(b"\x1b[D".to_vec()));
    assert_eq!(key_to_bytes(&key(KeyCode::End)), Some(b"\x1b[F".to_vec()));
    assert_eq!(key_to_bytes(&key(KeyCode::PageDown)), Some(b"\x1b[6~".to_vec()));
    assert_eq!(key_to_bytes(&key(KeyCode::Delete)), Some(b"\x1b[3~".to_vec()));
    assert_eq!(key_to_bytes(&key(KeyCode::F(1))), Some(b"\x1bOP".to_vec()));
    assert_eq!(key_to_bytes(&key(KeyCode::F(5))), Some(b"\x1b[15~".to_vec()));
    assert_eq!(key_to_bytes(&key(KeyCode::F(12))), Some(b"\x1b[24~".to_vec()));
    assert_eq!(key_to_bytes(&key(KeyCode::F(13))), None);
    assert_eq!(key_to_bytes(&key(KeyCode::Null)), None);
}

#[test]
fn control_and_alt_keys() {
    assert_eq!(key_to_bytes(&with(KeyCode::Char('c'), true, false)), Some(vec![3]));
    assert_eq!(key_to_bytes(&with(KeyCode::Char('C'), true, false)), Some(vec![3]));
    assert_eq!(key_to_bytes(&with(KeyCode::Char('a'), true, true)), Some(vec![0x1b, 1]));
    assert_eq!(key_to_bytes(&with(KeyCode::Char('x'), false, true)), Some(vec![0x1b, b'x']));
}

#[test]
fn quit_and_submit_keys() {
    assert!(is_quit(&with(KeyCode::Char('c'), true, false)));
    assert!(is_quit(&with(KeyCode::Char('q'), true, false)));
    assert!(!is_quit(&with(KeyCode::Char('c'), true, true)));
    assert!(!is_quit(&key(KeyCode::Char('c'))));
    assert!(is_submit(&key(KeyCode::Enter)));
    assert!(!is_submit(&key(KeyCode::Tab)));
}

#[test]
fn selection_is_ordered_and_contains_cells() {
    let sel = Selection { anchor_row: 2, anchor_col: 5, end_row: 1, end_col: 3 };
    assert_eq!(sel.ordered(), ((1, 3), (2, 5)));
    assert!(sel.contains(1, 3));
    assert!(sel.contains(1, 70));
    assert!(sel.contains(2, 0));
    assert!(sel.contains(2, 5));
    assert!(!sel.contains(2, 6));
    assert!(!sel.contains(1, 2));
    assert!(!sel.contains(3, 0));
}

#[test]
fn selected_text_is_trimmed_per_line() {
    let mut t = TerminalModal::new(6, 3);
    t.process_output(b"ab  \r\ncd\r\n");
    assert_eq!(t.extract_selected_text(), None);
    t.start_selection(0, 0);
    t.update_selection(2, 5);
    assert_eq!(t.extract_selected_text(), Some("ab\ncd".to_string()));
    t.clear_selection();
    assert!(t.selection.is_none());
}

#[test]
fn selection_skips_wide_continuations() {
    let mut t = TerminalModal::new(6, 1);
    t.process_output("中x".as_bytes());
    t.start_selection(0, 0);
    t.update_selection(0, 5);
    assert_eq!(t.extract_selected_text(), Some("中x".to_string()));
}

#[test]
fn paste_is_bracketed_and_chunked() {
    let t = TerminalModal::new(10, 5);
    let text = "z".repeat(5000);
    let writes = t.paste_input(&text).unwrap();
    assert_eq!(writes.len(), 4);
    assert_eq!(writes[0], b"\x1b[200~".to_vec());
    assert_eq!(writes[1].len(), 4096);
    assert_eq!(writes[2].len(), 904);
    assert_eq!(writes[3], b"\x1b[201~".to_vec());
    let empty = t.paste_input("").unwrap();
    assert_eq!(empty, vec![b"\x1b[200~".to_vec(), b"\x1b[201~".to_vec()]);
}

#[test]
fn nothing_is_sent_after_exit() {
    let mut t = TerminalModal::new(10, 5);
    assert!(!t.has_exited());
    assert_eq!(t.key_input(&key(KeyCode::Char('a'))), Some(b"a".to_vec()));
    t.mark_exited();
    assert!(t.has_exited());
    assert_eq!(t.key_input(&key(KeyCode::Char('a'))), None);
    assert_eq!(t.paste_input("hi"), None);
}

#[test]
fn resize_reports_a_change() {
    let mut t = TerminalModal::new(10, 5);
    assert!(!t.resize(10, 5));
    assert!(t.resize(12, 4));
    assert_eq!(t.screen().size(), (4, 12));
}

#[test]
fn terminal_replies_go_back_to_the_shell() {
    let mut t = TerminalModal::new(10, 5);
    t.process_output(b"\x1b[6n");
    assert_eq!(t.take_responses(), vec![b"\x1b[1;1R".to_vec()]);
}

#[test]
fn visible_keys_scroll_or_go_to_the_shell() {
    let mut t = TerminalModal::new(3, 2);
    t.process_output(b"a\r\nb\r\nc\r\nd\r\ne");
    assert_eq!(t.screen().scrollback_len(), 3);
    assert_eq!(t.handle_visible_key(&with(KeyCode::Up, true, false)), None);
    assert_eq!(t.screen().visible_cell(0, 0).unwrap().ch, 'c');
    assert_eq!(t.handle_visible_key(&with(KeyCode::PageUp, true, false)), None);
    assert_eq!(t.screen().visible_cell(0, 0).unwrap().ch, 'b');
    t.start_selection(0, 0);
    assert_eq!(t.handle_visible_key(&key(KeyCode::Char('x'))), Some(b"x".to_vec()));
    assert!(t.selection.is_none());
    assert_eq!(t.screen().visible_cell(0, 0).unwrap().ch, 'd');
}

#[test]
fn terminal_size_for_a_window() {
    assert_eq!(terminal_open_size(100, 45), (88, 32));
    assert_eq!(terminal_open_size(10, 5), (18, 8));
}

#[test]
fn the_mouse_selects_copies_and_clears() {
    let mut t = TerminalModal::new(6, 3);
    t.process_output(b"ab  \r\ncd\r\n");
    let inner = Area { x: 10, y: 5, width: 6, height: 3 };
    assert_eq!(t.handle_mouse(inner, MouseKind::LeftDown, 10, 5), None);
    assert_eq!(t.selection, Some(Selection { anchor_row: 0, anchor_col: 0, end_row: 0, end_col: 0 }));
    assert_eq!(t.handle_mouse(inner, MouseKind::LeftDrag, 12, 6), None);
    assert_eq!(t.selection, Some(Selection { anchor_row: 0, anchor_col: 0, end_row: 1, end_col: 2 }));
    assert_eq!(t.handle_mouse(inner, MouseKind::LeftUp, 15, 6), Some("ab\ncd".to_string()));
    assert_eq!(t.selection, Some(Selection { anchor_row: 0, anchor_col: 0, end_row: 1, end_col: 5 }));
    assert_eq!(t.handle_mouse(inner, MouseKind::LeftDown, 16, 5), None);
    assert!(t.selection.is_none());
    assert_eq!(t.handle_mouse(inner, MouseKind::LeftUp, 9, 5), None);
}

#[test]
fn the_wheel_scrolls_three_lines() {
    let mut t = TerminalModal::new(4, 2);
    for _ in 0..6 {
        t.process_output(b"x\r\n");
    }
    let inner = Area { x: 0, y: 0, width: 4, height: 2 };
    assert_eq!(t.screen().scrollback_len(), 5);
    t.handle_mouse(inner, MouseKind::ScrollUp, 1, 1);
    assert_eq!(t.screen().scroll_offset, 3);
    t.handle_mouse(inner, MouseKind::ScrollUp, 1, 1);
    assert_eq!(t.screen().scroll_offset, 5);
    t.handle_mouse(inner, MouseKind::ScrollDown, 1, 1);
    assert_eq!(t.screen().scroll_offset, 2);
    t.handle_mouse(inner, MouseKind::ScrollUp, 4, 1);
    assert_eq!(t.screen().scroll_offset, 2);
}
