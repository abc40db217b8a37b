use ssherald::cell::TermColor;
use ssherald::emulator::TerminalEmulator;
use ssherald::keys::{ctrl_key_byte, key_bytes, TermKey};

fn row_text(em: &TerminalEmulator, r: usize) -> String {
    em.grid()[r].iter().map(|c| c.c).collect::<String>().trim_end().to_string()
}

#[test]
fn resize_sets_dimensions() {
    let mut em = TerminalEmulator::new(80, 24);
    em.resize(100, 30);
    assert_eq!(em.cols(), 100);
    assert_eq!(em.rows(), 30);
    assert_eq!(em.grid().len(), 30);
    assert_eq!(em.grid()[0].len(), 100);
    em.resize(1, 1);
    assert_eq!((em.cols(), em.rows()), (1, 1));
}

#[test]
fn resize_zero_or_same_is_noop() {
    let mut em = TerminalEmulator::new(80, 24);
    em.process(b"hi");
    em.resize(0, 10);
    assert_eq!((em.cols(), em.rows()), (80, 24));
    em.resize(80, 24);
    assert_eq!(row_text(&em, 0), "hi");
}

#[test]
fn resize_preserves_top_left() {
    let mut em = TerminalEmulator::new(80, 24);
    em.process(b"abc\r\ndef");
    em.resize(40, 10);
    assert_eq!(row_text(&em, 0), "abc");
    assert_eq!(row_text(&em, 1), "def");
}

#[test]
fn resize_shrink_scrolls_cursor_rows_into_scrollback() {
    let mut em = TerminalEmulator::new(20, 10);
    for i in 0..10 {
        em.process(format!("line{}\r\n", i).as_bytes());
    }
    // cursor now on the last row; shrinking to 4 rows pushes rows above
    // the cursor into the scrollback
    let before = em.scrollback_len();
    em.resize(20, 4);
    assert_eq!(em.rows(), 4);
    assert!(em.scrollback_len() > before);
    let (r, _, _) = em.cursor();
    assert_eq!(r, 3);
}

#[test]
fn full_reset_clears_everything() {
    let mut em = TerminalEmulator::new(40, 5);
    for i in 0..12 {
        em.process(format!("junk{}\r\n", i).as_bytes());
    }
    em.process(b"\x1b[38;5;9mcolored\x1b[?1049h");
    assert!(em.scrollback_len() > 0);
    em.process(b"\x1bc");
    assert_eq!(em.scrollback_len(), 0);
    let (r, c, vis) = em.cursor();
    assert_eq!((r, c), (0, 0));
    assert!(vis);
    for row in em.grid() {
        for cell in row {
            assert_eq!(cell.c, ' ');
            assert_eq!(cell.attr.fg, TermColor::Default);
        }
    }
    // still at the old dimensions
    assert_eq!((em.cols(), em.rows()), (40, 5));
}

#[test]
fn alternate_screen_round_trip_restores_primary() {
    let mut em = TerminalEmulator::new(40, 6);
    em.process(b"primary one\r\nprimary two");
    let (r0, c0, _) = em.cursor();
    em.process(b"\x1b[?1049h");
    // the alternate screen starts blank at the origin
    assert_eq!(row_text(&em, 0), "");
    let (ar, ac, _) = em.cursor();
    assert_eq!((ar, ac), (0, 0));
    em.process(b"\x1b[2Jfull screen program\x1b[5;5Hmore");
    em.process(b"\x1b[?1049l");
    assert_eq!(row_text(&em, 0), "primary one");
    assert_eq!(row_text(&em, 1), "primary two");
    let (r1, c1, _) = em.cursor();
    assert_eq!((r0, c0), (r1, c1));
}

#[test]
fn enter_alt_twice_is_noop() {
    let mut em = TerminalEmulator::new(20, 4);
    em.process(b"keep");
    em.process(b"\x1b[?47h");
    em.process(b"alt text");
    em.process(b"\x1b[?47h");
    assert_eq!(row_text(&em, 0), "alt text");
    em.process(b"\x1b[?47l");
    assert_eq!(row_text(&em, 0), "keep");
    em.process(b"\x1b[?47l");
    assert_eq!(row_text(&em, 0), "keep");
}

#[test]
fn deferred_wrap_waits_for_next_character() {
    let mut em = TerminalEmulator::new(10, 4);
    em.process(b"0123456789");
    // exactly one full row: the cursor stays on row 0, last column
    let (r, c, _) = em.cursor();
    assert_eq!((r, c), (0, 9));
    assert_eq!(row_text(&em, 1), "");
    // the next printable character performs the wrap
    em.process(b"x");
    let (r, c, _) = em.cursor();
    assert_eq!((r, c), (1, 1));
    assert_eq!(em.grid()[1][0].c, 'x');
    assert_eq!(row_text(&em, 0), "0123456789");
}

#[test]
fn wrap_disabled_overwrites_last_column() {
    let mut em = TerminalEmulator::new(10, 4);
    em.process(b"\x1b[?7l0123456789xyz");
    let (r, c, _) = em.cursor();
    assert_eq!((r, c), (0, 9));
    assert_eq!(em.grid()[0][9].c, 'z');
    assert_eq!(row_text(&em, 1), "");
}

#[test]
fn sgr_indexed_foreground_and_reset() {
    let mut em = TerminalEmulator::new(20, 4);
    em.process(b"\x1b[38;5;196ma\x1b[0mb");
    assert_eq!(em.grid()[0][0].attr.fg, TermColor::Indexed(196));
    assert_eq!(em.grid()[0][1].attr.fg, TermColor::Default);
    assert!(!em.grid()[0][1].attr.bold);
}

#[test]
fn sgr_truecolor_and_styles() {
    let mut em = TerminalEmulator::new(20, 4);
    em.process(b"\x1b[1;3;4;7;38;2;1;2;3;48;5;17mz");
    let attr = em.grid()[0][0].attr;
    assert!(attr.bold && attr.italic && attr.underline && attr.inverse);
    assert_eq!(attr.fg, TermColor::Rgb(1, 2, 3));
    assert_eq!(attr.bg, TermColor::Indexed(17));
    let mut em2 = TerminalEmulator::new(20, 4);
    em2.process(b"\x1b[31;42my");
    assert_eq!(em2.grid()[0][0].attr.fg, TermColor::Indexed(1));
    assert_eq!(em2.grid()[0][0].attr.bg, TermColor::Indexed(2));
    // bright range
    let mut em3 = TerminalEmulator::new(20, 4);
    em3.process(b"\x1b[91;102mw");
    assert_eq!(em3.grid()[0][0].attr.fg, TermColor::Indexed(9));
    assert_eq!(em3.grid()[0][0].attr.bg, TermColor::Indexed(10));
}

#[test]
fn cursor_movement_and_clamping() {
    let mut em = TerminalEmulator::new(10, 5);
    em.process(b"\x1b[3;4H");
    let (r, c, _) = em.cursor();
    assert_eq!((r, c), (2, 3));
    em.process(b"\x1b[99A");
    assert_eq!(em.cursor().0, 0);
    em.process(b"\x1b[99B");
    assert_eq!(em.cursor().0, 4);
    em.process(b"\x1b[99C");
    assert_eq!(em.cursor().1, 9);
    em.process(b"\x1b[99D");
    assert_eq!(em.cursor().1, 0);
    em.process(b"\x1b[7G");
    assert_eq!(em.cursor().1, 6);
    em.process(b"\x1b[2d");
    assert_eq!(em.cursor().0, 1);
}

#[test]
fn erase_in_line_and_display() {
    let mut em = TerminalEmulator::new(10, 3);
    em.process(b"abcdefghij\r");
    em.process(b"\x1b[5G\x1b[K");
    assert_eq!(row_text(&em, 0), "abcd");
    let mut em2 = TerminalEmulator::new(10, 3);
    em2.process(b"abcdefghij\r\x1b[5G\x1b[1K");
    assert_eq!(row_text(&em2, 0), "     fghij");
    let mut em3 = TerminalEmulator::new(10, 3);
    em3.process(b"one\r\ntwo\r\nthree\x1b[2;2H\x1b[J");
    assert_eq!(row_text(&em3, 0), "one");
    assert_eq!(row_text(&em3, 1), "t");
    assert_eq!(row_text(&em3, 2), "");
}

#[test]
fn erase_display_mode_three_clears_scrollback() {
    let mut em = TerminalEmulator::new(10, 3);
    for i in 0..9 {
        em.process(format!("{}\r\n", i).as_bytes());
    }
    assert!(em.scrollback_len() > 0);
    em.process(b"\x1b[3J");
    assert_eq!(em.scrollback_len(), 0);
}

#[test]
fn insert_and_delete_lines_and_chars() {
    let mut em = TerminalEmulator::new(10, 4);
    em.process(b"aaa\r\nbbb\r\nccc\x1b[2;1H\x1b[L");
    assert_eq!(row_text(&em, 1), "");
    assert_eq!(row_text(&em, 2), "bbb");
    em.process(b"\x1b[2;1H\x1b[M");
    assert_eq!(row_text(&em, 1), "bbb");
    let mut em2 = TerminalEmulator::new(10, 2);
    em2.process(b"abcdef\r\x1b[2P");
    assert_eq!(row_text(&em2, 0), "cdef");
    em2.process(b"\x1b[2@");
    assert_eq!(row_text(&em2, 0), "  cdef");
    let mut em3 = TerminalEmulator::new(10, 2);
    em3.process(b"abcdef\r\x1b[3X");
    assert_eq!(row_text(&em3, 0), "   def");
}

#[test]
fn scroll_region_keeps_scrollback_out() {
    let mut em = TerminalEmulator::new(10, 5);
    em.process(b"\x1b[2;4r");
    let (r, c, _) = em.cursor();
    assert_eq!((r, c), (1, 0));
    for i in 0..8 {
        em.process(format!("r{}\r\n", i).as_bytes());
    }
    // a partial region never feeds the scrollback
    assert_eq!(em.scrollback_len(), 0);
}

#[test]
fn line_feed_at_bottom_scrolls_into_scrollback() {
    let mut em = TerminalEmulator::new(10, 3);
    em.process(b"one\r\ntwo\r\nthree\r\nfour");
    assert_eq!(em.scrollback_len(), 1);
    assert_eq!(row_text(&em, 0), "two");
    assert_eq!(row_text(&em, 2), "four");
    // view snaps back on new output
    em.scroll_up_view(1);
    assert!(em.is_scrolled());
    em.process(b"!");
    assert!(!em.is_scrolled());
}

#[test]
fn visible_rows_window_scrollback() {
    let mut em = TerminalEmulator::new(10, 2);
    em.process(b"a\r\nb\r\nc\r\nd");
    assert_eq!(em.scrollback_len(), 2);
    em.scroll_up_view(1);
    assert_eq!(em.scroll_offset(), 1);
    let rows = em.visible_rows();
    assert_eq!(rows.len(), 2);
    let texts: Vec<String> = rows
        .iter()
        .map(|r| r.iter().map(|c| c.c).collect::<String>().trim_end().to_string())
        .collect();
    assert_eq!(texts, vec!["b".to_string(), "c".to_string()]);
    em.scroll_up_view(99);
    assert_eq!(em.scroll_offset(), 2);
    em.scroll_down_view(1);
    assert_eq!(em.scroll_offset(), 1);
    em.reset_scroll();
    assert_eq!(em.scroll_offset(), 0);
}

#[test]
fn application_cursor_keys_mode() {
    let mut em = TerminalEmulator::new(10, 2);
    assert!(!em.app_cursor_keys());
    em.process(b"\x1b[?1h");
    assert!(em.app_cursor_keys());
    em.process(b"\x1b[?1l");
    assert!(!em.app_cursor_keys());
}

#[test]
fn save_and_restore_cursor() {
    let mut em = TerminalEmulator::new(20, 5);
    em.process(b"\x1b[3;7H\x1b7\x1b[H");
    assert_eq!((em.cursor().0, em.cursor().1), (0, 0));
    em.process(b"\x1b8");
    assert_eq!((em.cursor().0, em.cursor().1), (2, 6));
    em.process(b"\x1b[2;2H\x1b[s\x1b[H\x1b[u");
    assert_eq!((em.cursor().0, em.cursor().1), (1, 1));
}

#[test]
fn control_bytes_and_tabs() {
    let mut em = TerminalEmulator::new(20, 3);
    em.process(b"ab\x08x");
    assert_eq!(row_text(&em, 0), "ax");
    em.process(b"\r\tt");
    assert_eq!(em.grid()[0][8].c, 't');
    // carriage return and line feed
    let mut em2 = TerminalEmulator::new(20, 3);
    em2.process(b"one\r\ntwo");
    assert_eq!(row_text(&em2, 0), "one");
    assert_eq!(row_text(&em2, 1), "two");
}

#[test]
fn utf8_characters_print() {
    let mut em = TerminalEmulator::new(20, 2);
    em.process("héllo ∑".as_bytes());
    assert_eq!(em.grid()[0][0].c, 'h');
    assert_eq!(em.grid()[0][1].c, 'é');
    assert_eq!(em.grid()[0][6].c, '∑');
}

#[test]
fn invalid_utf8_prints_replacement() {
    let mut em = TerminalEmulator::new(20, 2);
    // an invalid lead byte, then a broken two-byte sequence
    em.process(&[0xFF, b'a', 0xC3, 0x28]);
    em.process(b"b");
    assert_eq!(em.grid()[0][0].c, '\u{FFFD}');
    assert_eq!(em.grid()[0][1].c, 'a');
    // the broken continuation becomes one replacement character
    assert_eq!(em.grid()[0][2].c, '\u{FFFD}');
    assert_eq!(em.grid()[0][3].c, 'b');
}

#[test]
fn malformed_sequences_are_ignored() {
    let mut em = TerminalEmulator::new(20, 2);
    em.process(b"\x1b[999;999;1;2;3;4;5;6zuo\x1b]0;title\x07k");
    assert_eq!(row_text(&em, 0), "uok");
}

#[test]
fn feed_and_flush_buffer_output() {
    let mut em = TerminalEmulator::new(20, 2);
    em.feed(b"hel");
    em.feed(b"lo");
    assert_eq!(row_text(&em, 0), "");
    em.flush();
    assert_eq!(row_text(&em, 0), "hello");
}

#[test]
fn special_keys_encode_for_the_shell() {
    assert_eq!(key_bytes(TermKey::Enter, false), b"\r");
    assert_eq!(key_bytes(TermKey::ArrowUp, false), b"\x1b[A");
    assert_eq!(key_bytes(TermKey::ArrowUp, true), b"\x1bOA");
    assert_eq!(key_bytes(TermKey::ArrowLeft, true), b"\x1bOD");
    assert_eq!(key_bytes(TermKey::Home, false), b"\x1b[H");
    assert_eq!(key_bytes(TermKey::PageDown, false), b"\x1b[6~");
    assert_eq!(key_bytes(TermKey::Delete, false), b"\x1b[3~");
    assert_eq!(key_bytes(TermKey::Function(1), false), b"\x1bOP");
    assert_eq!(key_bytes(TermKey::Function(5), false), b"\x1b[15~");
    assert_eq!(key_bytes(TermKey::Function(12), false), b"\x1b[24~");
    assert!(key_bytes(TermKey::Function(13), false).is_empty());
    assert_eq!(ctrl_key_byte('c'), Some(3));
    assert_eq!(ctrl_key_byte('z'), Some(26));
    assert_eq!(ctrl_key_byte('v'), None);
    assert_eq!(ctrl_key_byte('1'), None);
}
