use lukan_tui::cell::{Cell, CellColor};
use lukan_tui::screen::Screen;

fn row_text(s: &Screen, row: u16) -> String {
    let (_, cols) = s.size();
    (0..cols).map(|c| s.cell(row, c).map(|x| x.ch).unwrap_or('?')).collect()
}

#[test]
fn new_screen_is_blank() {
    let s = Screen::new(3, 4);
    assert_eq!(s.size(), (3, 4));
    assert_eq!(s.cursor_position(), (0, 0));
    assert_eq!(*s.cell(2, 3).unwrap(), Cell::blank());
    assert!(s.cell(3, 0).is_none());
    assert!(s.cell(0, 4).is_none());
    assert_eq!(s.scrollback_len(), 0);
}

#[test]
fn printing_text_advances_the_cursor() {
    let mut s = Screen::new(2, 10);
    s.process(b"hello");
    assert_eq!(row_text(&s, 0), "hello     ");
    assert_eq!(s.cursor_position(), (0, 5));
}

#[test]
fn carriage_return_and_line_feed() {
    let mut s = Screen::new(3, 5);
    s.process(b"ab\r\ncd");
    assert_eq!(row_text(&s, 0), "ab   ");
    assert_eq!(row_text(&s, 1), "cd   ");
    assert_eq!(s.cursor_position(), (1, 2));
}

#[test]
fn wrapping_at_the_last_column() {
    let mut s = Screen::new(2, 3);
    s.process(b"abcd");
    assert_eq!(row_text(&s, 0), "abc");
    assert_eq!(row_text(&s, 1), "d  ");
    assert_eq!(s.cursor_position(), (1, 1));
}

#[test]
fn scrolling_pushes_rows_into_scrollback() {
    let mut s = Screen::new(2, 3);
    s.process(b"one\r\ntwo\r\nsix");
    assert_eq!(s.scrollback_len(), 1);
    assert_eq!(row_text(&s, 0), "two");
    assert_eq!(row_text(&s, 1), "six");
    s.scroll_up(5);
    assert_eq!(s.visible_cell(0, 0).unwrap().ch, 'o');
    assert_eq!(s.visible_cell(1, 0).unwrap().ch, 't');
    s.scroll_down(1);
    assert_eq!(s.visible_cell(0, 0).unwrap().ch, 't');
    s.scroll_up(1);
    s.snap_to_bottom();
    assert_eq!(s.visible_cell(1, 0).unwrap().ch, 's');
}

#[test]
fn cursor_position_sequence() {
    let mut s = Screen::new(5, 10);
    s.process(b"\x1b[3;4H");
    assert_eq!(s.cursor_position(), (2, 3));
    s.process(b"\x1b[H");
    assert_eq!(s.cursor_position(), (0, 0));
    s.process(b"\x1b[99;99H");
    assert_eq!(s.cursor_position(), (4, 9));
}

#[test]
fn cursor_moves() {
    let mut s = Screen::new(5, 10);
    s.process(b"\x1b[3B\x1b[4C");
    assert_eq!(s.cursor_position(), (3, 4));
    s.process(b"\x1b[A\x1b[2D");
    assert_eq!(s.cursor_position(), (2, 2));
}

#[test]
fn colors_and_bold() {
    let mut s = Screen::new(1, 4);
    s.process(b"\x1b[1;31mR\x1b[0mN\x1b[38;5;200mX\x1b[48;2;1;2;3mY");
    let r = s.cell(0, 0).unwrap();
    assert!(r.bold);
    assert_eq!(r.fg, CellColor::Idx(1));
    let n = s.cell(0, 1).unwrap();
    assert!(!n.bold);
    assert_eq!(n.fg, CellColor::Default);
    assert_eq!(s.cell(0, 2).unwrap().fg, CellColor::Idx(200));
    assert_eq!(s.cell(0, 3).unwrap().bg, CellColor::Rgb(1, 2, 3));
}

#[test]
fn cursor_position_report() {
    let mut s = Screen::new(5, 10);
    s.process(b"\x1b[2;3H\x1b[6n");
    let r = s.take_responses();
    assert_eq!(r, vec![b"\x1b[2;3R".to_vec()]);
    assert!(s.take_responses().is_empty());
}

#[test]
fn device_attributes_report() {
    let mut s = Screen::new(5, 10);
    s.process(b"\x1b[c");
    assert_eq!(s.take_responses(), vec![b"\x1b[?1;2c".to_vec()]);
}

#[test]
fn utf8_and_wide_characters() {
    let mut s = Screen::new(1, 6);
    s.process("é中".as_bytes());
    assert_eq!(s.cell(0, 0).unwrap().ch, 'é');
    assert_eq!(s.cell(0, 1).unwrap().ch, '中');
    assert!(s.cell(0, 2).unwrap().wide_continuation);
    assert_eq!(s.cursor_position(), (0, 3));
}

#[test]
fn utf8_split_across_calls() {
    let mut s = Screen::new(1, 4);
    let bytes = "中".as_bytes();
    s.process(&bytes[..1]);
    s.process(&bytes[1..]);
    assert_eq!(s.cell(0, 0).unwrap().ch, '中');
}

#[test]
fn erase_line_and_display() {
    let mut s = Screen::new(2, 4);
    s.process(b"abcd\r\nefgh");
    s.process(b"\x1b[1;3H\x1b[K");
    assert_eq!(row_text(&s, 0), "ab  ");
    s.process(b"\x1b[2J");
    assert_eq!(row_text(&s, 0), "    ");
    assert_eq!(row_text(&s, 1), "    ");
}

#[test]
fn alternate_screen_keeps_the_main_screen() {
    let mut s = Screen::new(2, 4);
    s.process(b"main");
    s.process(b"\x1b[?1049h");
    assert_eq!(row_text(&s, 0), "    ");
    s.process(b"alt");
    s.process(b"\x1b[?1049l");
    assert_eq!(row_text(&s, 0), "main");
}

#[test]
fn resizing_keeps_what_fits() {
    let mut s = Screen::new(2, 4);
    s.process(b"abcd");
    s.set_size(3, 2);
    assert_eq!(s.size(), (3, 2));
    assert_eq!(s.cell(0, 1).unwrap().ch, 'b');
    assert!(s.cell(0, 2).is_none());
    assert_eq!(*s.cell(2, 1).unwrap(), Cell::blank());
}

#[test]
fn tab_stops() {
    let mut s = Screen::new(1, 20);
    s.process(b"a\tb");
    assert_eq!(s.cell(0, 8).unwrap().ch, 'b');
}

#[test]
fn backspace_moves_left() {
    let mut s = Screen::new(1, 5);
    s.process(b"ab\x08c");
    assert_eq!(s.cell(0, 1).unwrap().ch, 'c');
}

#[test]
fn feeding_in_pieces_is_feeding_at_once() {
    let data: &[u8] = b"x\x1b[31my\r\n\x1b[2;1Hzz\x1b[6n";
    let mut a = Screen::new(3, 5);
    a.process(data);
    let mut b = Screen::new(3, 5);
    for chunk in data.chunks(3) {
        b.process(chunk);
    }
    for r in 0..3 {
        for c in 0..5 {
            assert_eq!(a.cell(r, c), b.cell(r, c));
        }
    }
    assert_eq!(a.cursor_position(), b.cursor_position());
    assert_eq!(a.take_responses(), b.take_responses());
}

#[test]
fn scroll_back_then_forward_returns() {
    let mut s = Screen::new(2, 3);
    s.process(b"a\r\nb\r\nc\r\nd");
    assert_eq!(s.scrollback_len(), 2);
    let before = s.visible_cell(0, 0).copied();
    s.scroll_up(2);
    s.scroll_down(2);
    assert_eq!(s.visible_cell(0, 0).copied(), before);
}

#[test]
fn a_written_character_reads_back() {
    let mut s = Screen::new(2, 3);
    s.process(b"\x1b[1mx");
    let c = s.cell(0, 0).unwrap();
    assert_eq!(c.ch, 'x');
    assert!(c.bold);
    assert_eq!(s.cursor_position(), (0, 1));
    s.process(b"yz");
    assert_eq!(s.cell(0, 2).unwrap().ch, 'z');
    assert_eq!(s.cursor_position(), (0, 2));
}

#[test]
fn a_scrolled_line_is_kept() {
    let mut s = Screen::new(2, 3);
    s.process(b"top\r\nbot");
    assert_eq!(s.scrollback_len(), 0);
    s.process(b"\n");
    assert_eq!(s.scrollback_len(), 1);
    assert_eq!(row_text(&s, 0), "bot");
    assert_eq!(row_text(&s, 1), "   ");
    s.scroll_up(1);
    let top: String = (0..3).map(|c| s.visible_cell(0, c).unwrap().ch).collect();
    assert_eq!(top, "top");
}

#[test]
fn resizing_makes_the_scroll_region_the_whole_screen() {
    let mut s = Screen::new(10, 10);
    s.process(b"\x1b[3;5r");
    s.set_size(2, 10);
    s.process(b"A\x1b[2HB\n");
    assert_eq!(s.cell(0, 0).unwrap().ch, 'B');
    assert_eq!(s.cell(1, 0).unwrap().ch, ' ');
    assert_eq!(s.cursor_position(), (1, 1));
    assert_eq!(s.scrollback_len(), 1);
}

#[test]
fn resizing_inside_the_alternate_screen_fits_the_main_one() {
    let mut s = Screen::new(5, 10);
    s.process(b"main");
    s.process(b"\x1b[?1049h");
    s.set_size(20, 10);
    s.process(b"\x1b[?1049l");
    assert_eq!(row_text(&s, 0), "main      ");
    s.process(b"\x1b[15H\x1b[1J");
    assert_eq!(s.size(), (20, 10));
    for i in 0..22u16 {
        for j in 0..12u16 {
            assert_eq!(s.cell(i, j).is_some(), i < 20 && j < 10);
        }
    }
}

#[test]
fn resizing_keeps_a_region_top_that_still_fits() {
    let mut s = Screen::new(10, 10);
    s.process(b"\x1b[3;5r");
    s.set_size(20, 10);
    s.process(b"\x1b[1HA\x1b[3HB\x1b[20HC\n");
    assert_eq!(s.cell(0, 0).unwrap().ch, 'A');
    assert_eq!(s.cell(2, 0).unwrap().ch, ' ');
    assert_eq!(s.cell(18, 0).unwrap().ch, 'C');
    assert_eq!(s.scrollback_len(), 0);
    assert_eq!(s.cursor_position(), (19, 1));
}

#[test]
fn cursor_report_after_a_separate_move() {
    let mut s = Screen::new(30, 120);
    s.process(b"\x1b[27;115H");
    s.process(b"\x1b[6n");
    assert_eq!(s.cursor_position(), (26, 114));
    assert_eq!(s.take_responses(), vec![b"\x1b[27;115R".to_vec()]);
}
