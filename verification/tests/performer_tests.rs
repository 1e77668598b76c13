use memtty::color::{parse_color_spec, xterm_color_from_256, Color};
use memtty::performer::model::MouseMode;
use memtty::terminal::Terminal;

#[test]
fn status_reports_answer_the_cursor_position() {
    let mut t = Terminal::new();
    let replies = t.process(b"\x1b[3;7H\x1b[6n\x1b[5n\x1b[?6n");
    assert_eq!(
        replies,
        vec![b"\x1b[3;7R".to_vec(), b"\x1b[0n".to_vec(), b"\x1b[?3;7R".to_vec()]
    );
    assert!(t.process(b"").is_empty());
}

#[test]
fn device_attributes_are_answered() {
    let mut t = Terminal::new();
    assert_eq!(t.process(b"\x1b[c"), vec![b"\x1b[?1;2c".to_vec()]);
    assert_eq!(t.process(b"\x1b[>c"), vec![b"\x1b[>0;0;0c".to_vec()]);
}

#[test]
fn mouse_reports_follow_the_encoding() {
    let mut t = Terminal::new();
    t.performer.report_mouse(0, 0, 0, true);
    assert!(t.performer.drain_pty_replies().is_empty());
    t.process(b"\x1b[?1000h");
    assert_eq!(t.performer.mouse_mode, MouseMode::Normal);
    t.performer.report_mouse(4, 2, 0, true);
    assert_eq!(t.performer.drain_pty_replies(), vec![vec![0x1b, b'[', b'M', 32, 37, 35]]);
    t.performer.report_mouse(199, 2, 0, true);
    let r = t.performer.drain_pty_replies();
    assert_eq!(r, vec!["\x1b[M \u{e8}#".as_bytes().to_vec()]);
    t.process(b"\x1b[?1006h");
    t.performer.report_mouse(4, 2, 1, false);
    assert_eq!(t.performer.drain_pty_replies(), vec![b"\x1b[<1;5;3m".to_vec()]);
    t.process(b"\x1b[?1000l");
    assert_eq!(t.performer.mouse_mode, MouseMode::Off);
}

#[test]
fn osc_sets_palette_and_default_colors() {
    let mut t = Terminal::new();
    t.process(b"\x1b]4;1;#102030\x07\x1b[31mX");
    assert_eq!(t.performer.grid[0][0].fg, Color::rgb(0x10, 0x20, 0x30));
    t.process(b"\x1b[0m\x1b]10;rgb:aa/bb/cc\x07Y");
    assert_eq!(t.performer.grid[0][1].fg, Color::rgb(0xaa, 0xbb, 0xcc));
    t.process(b"\x1b]11;#000\x07Z");
    assert_eq!(t.performer.grid[0][2].bg, Color::rgb(0, 0, 0));
    t.process(b"\x1b]4;300;#ffffff\x07");
    assert_eq!(t.performer.palette_256[44], xterm_color_from_256(44));
}

#[test]
fn osc_clipboard_query_and_history() {
    let mut t = Terminal::new();
    assert_eq!(t.process(b"\x1b]52;c;?\x07"), vec![b"\x1b]52;c;\x07".to_vec()]);
    assert!(t.process(b"\x1b]52;c;aGk=\x07").is_empty());
    t.process(b"\x1b]777;history;git commit;-m\x07");
    assert_eq!(t.performer.drain_history_commands(), vec!["git commit;-m".to_string()]);
    assert!(t.performer.drain_history_commands().is_empty());
    t.process(b"\x1b]777;other;x\x07\x1b]0\x07");
    assert!(t.performer.drain_history_commands().is_empty());
    assert_eq!(t.performer.title, "");
}

#[test]
fn resize_pads_and_clamps() {
    let mut t = Terminal::new();
    t.process(b"\x1b[24;80HZ");
    t.performer.resize(40, 10);
    assert_eq!(t.performer.grid.len(), 10);
    assert!(t.performer.grid.iter().all(|r| r.len() == 40));
    assert_eq!(t.performer.cursor_x, 39);
    assert_eq!(t.performer.cursor_y, 9);
    assert_eq!(t.performer.scroll_bottom, 9);
    t.performer.resize(100, 30);
    assert_eq!(t.performer.tab_stops.len(), 100);
    assert!(t.performer.tab_stops[96]);
    assert!(!t.performer.tab_stops[97]);
}

#[test]
fn alt_screen_round_trip_keeps_cursor_and_text() {
    let mut t = Terminal::new();
    t.process(b"\x1b[2;3Hab\x1b[1m");
    t.process(b"\x1b[?1049hxyz\x1b[10;10H\x1b[0m");
    t.process(b"\x1b[?1049l");
    assert_eq!(t.performer.grid[1][2].c, 'a');
    assert_eq!(t.performer.grid[1][3].c, 'b');
    assert_eq!(t.performer.cursor_y, 1);
    assert_eq!(t.performer.cursor_x, 4);
    assert_eq!(t.performer.current_style, 1);
}

#[test]
fn parse_color_spec_forms() {
    assert_eq!(parse_color_spec("  #FFF  "), Some(Color::rgb(255, 255, 255)));
    assert_eq!(parse_color_spec("rgb:1234/5/+6"), Some(Color::rgb(0x12, 0x05, 0x06)));
    assert_eq!(parse_color_spec("#12345"), None);
    assert_eq!(parse_color_spec("blue"), None);
}

#[test]
fn erase_characters_and_delete_characters() {
    let mut t = Terminal::new();
    t.process(b"abcdef\r\x1b[2C\x1b[2X");
    let row: String = t.performer.grid[0][..6].iter().map(|c| c.c).collect();
    assert_eq!(row, "ab  ef");
    t.process(b"\r\x1b[1P");
    let row: String = t.performer.grid[0][..6].iter().map(|c| c.c).collect();
    assert_eq!(row, "b  ef ");
    t.process(b"\r\x1b[2@");
    let row: String = t.performer.grid[0][..6].iter().map(|c| c.c).collect();
    assert_eq!(row, "  b  e");
}

#[test]
fn tabs_and_backspace_move_the_cursor() {
    let mut t = Terminal::new();
    t.process(b"\tA");
    assert_eq!(t.performer.grid[0][8].c, 'A');
    t.process(b"\x08\x08");
    assert_eq!(t.performer.cursor_x, 7);
    t.process(b"\x1b[80G\t");
    assert_eq!(t.performer.cursor_x, 79);
}

#[test]
fn dec_alignment_fills_the_screen() {
    let mut t = Terminal::new();
    t.process(b"\x1b#8");
    assert!(t.performer.grid.iter().all(|r| r.iter().all(|c| c.c == 'E' && c.text == "E")));
}

#[test]
fn cursor_style_sequences() {
    let mut t = Terminal::new();
    t.process(b"\x1b[5 q");
    assert!(t.performer.cursor_blinking);
    t.process(b"\x1b[2 q");
    assert!(!t.performer.cursor_blinking);
    t.process(b"\x1b[?12h");
    assert!(t.performer.cursor_blinking);
}

#[test]
fn osc_title_replaces_invalid_utf8() {
    let mut t = Terminal::new();
    t.process(b"\x1b]0;a\xffb\x07");
    assert_eq!(t.performer.title, "a\u{fffd}b");
    t.process(b"\x1b]2;caf\xc3\xa9\x07");
    assert_eq!(t.performer.title, "caf\u{e9}");
}

#[test]
fn cursor_motion_counts_zero_and_absent_as_one() {
    let mut a = Terminal::new();
    a.process(b"\x1b[4;1H\x1b[A");
    assert_eq!(a.performer.cursor_y, 2);
    let mut b = Terminal::new();
    b.process(b"\x1b[4;1H\x1b[0A");
    assert_eq!(b.performer.cursor_y, 2);
    let mut c = Terminal::new();
    c.process(b"\x1b[5;7H\x1b[H");
    assert_eq!((c.performer.cursor_x, c.performer.cursor_y), (0, 0));
}

#[test]
fn cursor_motion_stays_on_screen_and_in_region() {
    let mut t = Terminal::new();
    t.process(b"\x1b[999;999H");
    assert_eq!((t.performer.cursor_x, t.performer.cursor_y), (79, 23));
    t.process(b"\x1b[3;10r\x1b[5;1H\x1b[50A");
    assert_eq!(t.performer.cursor_y, 2);
    t.process(b"\x1b[50B");
    assert_eq!(t.performer.cursor_y, 9);
    assert!(!t.performer.pending_wrap);
}

#[test]
fn scroll_region_that_is_too_small_is_ignored() {
    let mut t = Terminal::new();
    t.process(b"\x1b[3;1H\x1b[10;5r");
    assert_eq!((t.performer.scroll_top, t.performer.scroll_bottom), (0, 23));
    assert_eq!((t.performer.cursor_x, t.performer.cursor_y), (0, 0));
    t.process(b"\x1b[7;7r");
    assert_eq!((t.performer.scroll_top, t.performer.scroll_bottom), (0, 23));
}

#[test]
fn wide_char_at_last_column_is_not_split() {
    let mut t = Terminal::new();
    t.process("\x1b[1;80H\u{4e2d}".as_bytes());
    assert_eq!(t.performer.grid[0][79].c, ' ');
    assert!(!t.performer.grid[0][79].wide_continuation);
    assert!(t.performer.pending_wrap);
    assert_eq!((t.performer.cursor_x, t.performer.cursor_y), (79, 0));
    t.process("\u{4e2d}".as_bytes());
    assert_eq!(t.performer.grid[1][0].c, '\u{4e2d}');
    assert!(t.performer.grid[1][1].wide_continuation);
    assert_eq!((t.performer.cursor_x, t.performer.cursor_y), (2, 1));
}

#[test]
fn zero_width_char_does_not_move_the_cursor() {
    let mut t = Terminal::new();
    t.process("e\u{301}".as_bytes());
    assert_eq!(t.performer.cursor_x, 1);
    assert_eq!(t.performer.grid[0][0].text, "e\u{301}");
}

#[test]
fn region_scroll_by_several_lines() {
    let mut t = Terminal::new();
    t.process(b"\x1b[1;1HA\x1b[2;1HB\x1b[3;1HC\x1b[4;1HD\x1b[5;1HE");
    t.process(b"\x1b[2;4r\x1b[2S");
    assert_eq!(t.performer.grid[0][0].c, 'A');
    assert_eq!(t.performer.grid[1][0].c, 'D');
    assert_eq!(t.performer.grid[2][0].c, ' ');
    assert_eq!(t.performer.grid[3][0].c, ' ');
    assert_eq!(t.performer.grid[4][0].c, 'E');
    assert_eq!(t.performer.scrollback.len(), 0);
}

#[test]
fn alt_screen_work_is_forgotten_on_leaving() {
    let mut t = Terminal::new();
    t.process(b"hello\x1b[3;4H");
    t.process(b"\x1b[?1049h\x1b[2;2Hxyz\x1b[31m\x1b[5S\x1b[1;1H");
    t.process(b"\x1b[?1049l");
    assert_eq!(t.performer.grid[0][0].c, 'h');
    assert_eq!(t.performer.grid[1][1].c, ' ');
    assert_eq!((t.performer.cursor_x, t.performer.cursor_y), (3, 2));
}

#[test]
fn wide_char_at_last_column_in_insert_mode_is_not_split() {
    let mut t = Terminal::new();
    t.process(b"\x1b[1;80HX\x1b[1;80H\x1b[4h");
    t.process("\u{4e2d}".as_bytes());
    assert_eq!(t.performer.grid[0][79].c, ' ');
    assert!(!t.performer.grid[0][79].wide_continuation);
    assert!(t.performer.pending_wrap);
    assert_eq!((t.performer.cursor_x, t.performer.cursor_y), (79, 0));
}
