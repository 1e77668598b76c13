use memtty::performer::model::MouseMode;
use memtty::pointer::{
    button_code, click_streak, drag_selection, motion_report_button, press_selection, release_selection,
    select_row, select_word, PointerButton, SelectionMode, SelectionState,
};
use memtty::terminal::Terminal;

fn none() -> SelectionState {
    SelectionState { start: None, end: None, anchor: None }
}

fn screen() -> Terminal {
    let mut t = Terminal::new();
    t.process(b"hello world\r\nfoo.bar baz\r\n");
    t
}

#[test]
fn pointer_select_word_and_row() {
    let t = screen();
    let p = &t.performer;
    let s = select_word(p, 0, 1, none());
    assert_eq!(s.start, Some((0, 0)));
    assert_eq!(s.end, Some((4, 0)));
    // the gap between words is a word of its own
    let gap = select_word(p, 0, 5, none());
    assert_eq!((gap.start, gap.end), (Some((5, 0)), Some((5, 0))));
    // punctuation separates words
    let dot = select_word(p, 1, 1, none());
    assert_eq!((dot.start, dot.end), (Some((0, 1)), Some((2, 1))));
    // a missing row clears everything, anchor included
    let anchored = SelectionState { start: Some((1, 1)), end: Some((2, 1)), anchor: Some((1, 1)) };
    assert_eq!(select_word(p, 1000, 0, anchored), none());

    let r = select_row(p, 1, anchored);
    assert_eq!(r.start, Some((0, 1)));
    assert_eq!(r.end, Some((79, 1)));
    assert_eq!(r.anchor, Some((1, 1)));
    let missing = select_row(p, 1000, anchored);
    assert_eq!((missing.start, missing.end, missing.anchor), (None, None, Some((1, 1))));
}

#[test]
fn pointer_click_streak_counts_to_three() {
    assert_eq!(click_streak(1, Some((3, 2)), Some((9, 2)), true), 2);
    assert_eq!(click_streak(2, Some((3, 2)), Some((9, 2)), true), 3);
    assert_eq!(click_streak(3, Some((3, 2)), Some((9, 2)), true), 3);
    assert_eq!(click_streak(255, Some((3, 2)), Some((9, 2)), true), 3);
    assert_eq!(click_streak(2, Some((3, 2)), Some((3, 3)), true), 1);
    assert_eq!(click_streak(2, Some((3, 2)), Some((3, 2)), false), 1);
    assert_eq!(click_streak(2, None, Some((3, 2)), true), 1);
}

#[test]
fn pointer_press_selects_by_click_count() {
    let t = screen();
    let p = &t.performer;
    let (s, mode, selecting) = press_selection(p, 1, Some((7, 0)), false, none(), false);
    assert_eq!((s.start, s.end, s.anchor), (None, None, Some((7, 0))));
    assert_eq!(mode, SelectionMode::Char);
    assert!(!selecting);

    let (s, mode, selecting) = press_selection(p, 2, Some((7, 0)), false, none(), false);
    assert_eq!((s.start, s.end, s.anchor), (Some((6, 0)), Some((10, 0)), Some((6, 0))));
    assert_eq!(mode, SelectionMode::Word);
    assert!(selecting);

    let (s, mode, _) = press_selection(p, 3, Some((7, 0)), false, none(), false);
    assert_eq!((s.start, s.end, s.anchor), (Some((0, 0)), Some((79, 0)), Some((0, 0))));
    assert_eq!(mode, SelectionMode::Line);

    let (s, mode, selecting) = press_selection(p, 2, Some((7, 0)), true, none(), true);
    assert_eq!(s, none());
    assert_eq!(mode, SelectionMode::Word);
    assert!(!selecting);
}

#[test]
fn pointer_drag_extends_selection() {
    let t = screen();
    let p = &t.performer;
    // by cells: the end follows the pointer
    let s = SelectionState { start: Some((1, 0)), end: Some((2, 0)), anchor: Some((1, 0)) };
    let (d, changed) = drag_selection(p, SelectionMode::Char, (2, 0), s);
    assert_eq!(d, s);
    assert!(!changed);
    let (d, changed) = drag_selection(p, SelectionMode::Char, (5, 1), s);
    assert_eq!(d.end, Some((5, 1)));
    assert!(changed);

    // by words, forward from the anchor: from the anchor to the word's end
    let w = SelectionState { start: Some((0, 0)), end: Some((4, 0)), anchor: Some((0, 0)) };
    let (d, _) = drag_selection(p, SelectionMode::Word, (8, 0), w);
    assert_eq!((d.start, d.end), (Some((0, 0)), Some((10, 0))));
    // by words, backward: from the pointer's word to the anchor's word
    let w = SelectionState { start: Some((6, 0)), end: Some((10, 0)), anchor: Some((6, 0)) };
    let (d, _) = drag_selection(p, SelectionMode::Word, (1, 0), w);
    assert_eq!((d.start, d.end), (Some((0, 0)), Some((10, 0))));

    // by rows
    let l = SelectionState { start: Some((0, 1)), end: Some((79, 1)), anchor: Some((0, 1)) };
    let (d, _) = drag_selection(p, SelectionMode::Line, (3, 2), l);
    assert_eq!((d.start, d.end), (Some((0, 1)), Some((79, 2))));
    let (d, _) = drag_selection(p, SelectionMode::Line, (3, 0), l);
    assert_eq!((d.start, d.end), (Some((0, 0)), Some((79, 1))));
}

#[test]
fn pointer_release_clears_plain_click() {
    let s = SelectionState { start: Some((1, 0)), end: Some((2, 0)), anchor: Some((1, 0)) };
    assert_eq!(release_selection(SelectionMode::Char, false, s), none());
    assert_eq!(release_selection(SelectionMode::Char, true, s), s);
    assert_eq!(release_selection(SelectionMode::Word, false, s), s);
}

#[test]
fn pointer_motion_reports() {
    assert_eq!(button_code(PointerButton::Right), 2);
    assert_eq!(motion_report_button(MouseMode::ButtonEvent, Some(PointerButton::Left)), Some(32));
    assert_eq!(motion_report_button(MouseMode::ButtonEvent, None), None);
    assert_eq!(motion_report_button(MouseMode::AnyEvent, None), Some(35));
    assert_eq!(motion_report_button(MouseMode::AnyEvent, Some(PointerButton::Middle)), Some(33));
    assert_eq!(motion_report_button(MouseMode::Normal, Some(PointerButton::Left)), None);
    assert_eq!(motion_report_button(MouseMode::Off, Some(PointerButton::Left)), None);
}

#[test]
fn pointer_plain_click_leaves_no_selection() {
    let t = screen();
    let before = SelectionState { start: Some((0, 0)), end: Some((4, 0)), anchor: Some((0, 0)) };
    let (s, mode, selecting) = press_selection(&t.performer, 1, Some((2, 1)), false, before, false);
    assert_eq!(release_selection(mode, selecting, s), none());
}
