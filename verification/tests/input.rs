use lukan_tui::chat::ChatMessage;
use lukan_tui::input::{sanitize_paste, InputLine};
use lukan_tui::keys::KeyCode;
use lukan_tui::prompt::Prompt;

fn line(text: &str, cursor: usize) -> InputLine {
    InputLine { text: text.chars().collect(), cursor, paste: None }
}

fn text(l: &InputLine) -> String {
    l.text.iter().collect()
}

#[test]
fn typing_and_backspace() {
    let mut l = InputLine::new();
    for c in "héllo".chars() {
        l.insert_char(c);
    }
    assert_eq!(text(&l), "héllo");
    assert_eq!(l.cursor, 5);
    l.move_left();
    l.move_left();
    l.insert_char('X');
    assert_eq!(text(&l), "hélXlo");
    l.backspace();
    assert_eq!(text(&l), "héllo");
    assert_eq!(l.cursor, 3);
    l.home();
    l.backspace();
    assert_eq!(text(&l), "héllo");
    l.end();
    assert_eq!(l.cursor, 5);
    l.move_right();
    assert_eq!(l.cursor, 5);
}

#[test]
fn sanitizing_pasted_text() {
    let cleaned: String = sanitize_paste("a\x1b[31mred\x1b[0m\tb\r\nc\x07\x1bXd").iter().collect();
    assert_eq!(cleaned, "ared b\ncd");
    let unfinished: String = sanitize_paste("x\x1b[12").iter().collect();
    assert_eq!(unfinished, "x");
    let bracketed: String = sanitize_paste("\x1b[200~hi\x1b[201~").iter().collect();
    assert_eq!(bracketed, "hi");
}

#[test]
fn short_paste_goes_in_inline() {
    let mut l = line("ab", 1);
    l.paste_text("xyz");
    assert_eq!(text(&l), "axyzb");
    assert_eq!(l.cursor, 4);
    assert!(l.paste.is_none());
    assert_eq!(l.display_input(), "axyzb");
}

#[test]
fn long_paste_is_collapsed_into_a_block() {
    let mut l = line("ab", 1);
    let big = "p".repeat(250);
    l.paste_text(&big);
    assert_eq!(l.text.len(), 252);
    assert_eq!(l.cursor, 251);
    let (s, e, label) = l.paste.clone().unwrap();
    assert_eq!((s, e), (1, 251));
    assert_eq!(label, "[Pasted Content 250 chars]");
    assert_eq!(l.display_input(), "a[Pasted Content 250 chars]b");
    assert_eq!(l.display_cursor(), 1 + label.chars().count());
    // Left jumps over the block, Right jumps back over it.
    l.move_left();
    assert_eq!(l.cursor, 1);
    assert_eq!(l.display_cursor(), 1);
    l.move_right();
    assert_eq!(l.cursor, 251);
    // Typing before the block moves it along.
    l.home();
    l.insert_char('>');
    assert_eq!(l.paste.clone().unwrap().0, 2);
    // Backspace at the block's end removes all of it.
    l.end();
    l.move_left();
    assert_eq!(l.cursor, 252);
    l.backspace();
    assert_eq!(text(&l), ">ab");
    assert!(l.paste.is_none());
    assert_eq!(l.cursor, 2);
}

#[test]
fn newlines_show_as_spaces() {
    let l = line("a\nb", 3);
    assert_eq!(l.display_input(), "a b");
    assert_eq!(l.display_cursor(), 3);
}

#[test]
fn streaming_keys_ignore_the_block() {
    let mut l = line("abc", 3);
    l.paste = Some((0, 2, "[P]".to_string()));
    l.step_left();
    assert_eq!(l.cursor, 2);
    l.step_left();
    assert_eq!(l.cursor, 1);
    l.step_right();
    assert_eq!(l.cursor, 2);
    l.backspace_char();
    assert_eq!(text(&l), "ac");
}

fn msg(role: &str, content: &str) -> ChatMessage {
    ChatMessage::new(role, content)
}

#[test]
fn prompt_history_goes_back_and_forth() {
    let messages = vec![msg("user", "first"), msg("assistant", "reply"), msg("user", "second")];
    let mut p = Prompt::new();
    p.handle_key(KeyCode::Char('d'), &messages);
    p.handle_key(KeyCode::Up, &messages);
    assert_eq!(text(&p.line), "second");
    assert_eq!(p.history_idx, Some(1));
    p.handle_key(KeyCode::Up, &messages);
    assert_eq!(text(&p.line), "first");
    p.handle_key(KeyCode::Up, &messages);
    assert_eq!(text(&p.line), "first");
    assert_eq!(p.history_idx, Some(0));
    p.handle_key(KeyCode::Down, &messages);
    assert_eq!(text(&p.line), "second");
    p.handle_key(KeyCode::Down, &messages);
    assert_eq!(text(&p.line), "d");
    assert_eq!(p.history_idx, None);
    assert_eq!(p.line.cursor, 1);
}

#[test]
fn prompt_palette_navigation_and_choice() {
    let messages: Vec<ChatMessage> = Vec::new();
    let mut p = Prompt::new();
    p.handle_key(KeyCode::Char('/'), &messages);
    p.handle_key(KeyCode::Char('c'), &messages);
    // "/c" offers /clear, /compact, /checkpoints.
    p.handle_key(KeyCode::Up, &messages);
    assert_eq!(p.palette_idx, 2);
    p.handle_key(KeyCode::Down, &messages);
    assert_eq!(p.palette_idx, 0);
    p.handle_key(KeyCode::Down, &messages);
    assert_eq!(p.palette_idx, 1);
    let send = p.handle_key(KeyCode::Enter, &messages);
    assert!(send);
    assert_eq!(text(&p.line), "/compact");
    assert_eq!(p.palette_idx, 0);
}

#[test]
fn prompt_escape_clears_on_second_press() {
    let messages: Vec<ChatMessage> = Vec::new();
    let mut p = Prompt::new();
    p.handle_key(KeyCode::Char('h'), &messages);
    p.handle_key(KeyCode::Esc, &messages);
    assert!(p.esc_pending);
    assert_eq!(text(&p.line), "h");
    p.handle_key(KeyCode::Esc, &messages);
    assert!(!p.esc_pending);
    assert_eq!(text(&p.line), "");
}

#[test]
fn prompt_sends_only_non_blank_lines() {
    let messages: Vec<ChatMessage> = Vec::new();
    let mut p = Prompt::new();
    assert!(!p.handle_key(KeyCode::Enter, &messages));
    p.handle_key(KeyCode::Char(' '), &messages);
    assert!(!p.handle_key(KeyCode::Enter, &messages));
    p.handle_key(KeyCode::Char('x'), &messages);
    assert!(p.handle_key(KeyCode::Enter, &messages));
    assert!(!p.handle_key(KeyCode::Char('y'), &messages));
}

#[test]
fn a_paste_at_the_prompt_forgets_a_pending_escape() {
    let mut p = lukan_tui::prompt::Prompt::new();
    p.line.insert_char('x');
    p.esc_pending = true;
    p.palette_idx = 3;
    p.paste("a\tb\r\nc\x1b[31m");
    assert_eq!(p.line.text.iter().collect::<String>(), "xa b\nc");
    assert_eq!(p.line.cursor, 6);
    assert!(!p.esc_pending);
    assert_eq!(p.palette_idx, 0);
}
