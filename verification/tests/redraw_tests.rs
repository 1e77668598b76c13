use memtty::cell::Cell;
use memtty::color::Color;
use memtty::redraw::{
    background_runs, plan_redraw, remember_rows, rows_look_same, text_spans, underline_runs, visible_len, GlyphStyle,
};

fn row(text: &str) -> Vec<Cell> {
    text.chars()
        .map(|c| {
            let mut cell = Cell::default();
            cell.c = c;
            cell.text = c.to_string();
            cell
        })
        .collect()
}

#[test]
fn redraw_rows_compare_by_look() {
    let a = row("abc");
    let mut b = row("abc");
    assert!(rows_look_same(&a, &b));
    b[1].is_selected = true;
    assert!(rows_look_same(&a, &b));
    b[1].fg = Color::rgb(1, 2, 3);
    assert!(!rows_look_same(&a, &b));
    assert!(!rows_look_same(&a, &row("ab")));
    let mut c = row("abc");
    c[2].hyperlink = Some("https://example.com".to_string());
    assert!(!rows_look_same(&a, &c));
}

#[test]
fn redraw_plan_marks_changed_and_cursor_rows() {
    let last = vec![row("one"), row("two"), row("six")];
    let r0 = row("one");
    let r1 = row("tw0");
    let r2 = row("six");
    let rows = vec![&r0, &r1, &r2];

    let plan = plan_redraw(&last, &rows, false, false, false, None, None, false);
    assert_eq!(plan.content_dirty, vec![false, true, false]);
    assert!(plan.any_dirty && plan.any_content_dirty && plan.needs_text_rebuild);

    let same = vec![&r0, &last[1], &r2];
    let plan = plan_redraw(&last, &same, false, false, false, None, None, false);
    assert_eq!(plan.content_dirty, vec![false, false, false]);
    assert!(!plan.any_dirty && !plan.any_content_dirty && !plan.needs_text_rebuild);

    // a moved cursor redraws its rows; the text only for a block cursor
    let plan = plan_redraw(&last, &same, false, false, true, Some(0), Some(2), false);
    assert!(plan.any_dirty && !plan.any_content_dirty && !plan.needs_text_rebuild);
    let plan = plan_redraw(&last, &same, false, false, true, Some(0), Some(2), true);
    assert!(plan.any_dirty && plan.needs_text_rebuild);

    let plan = plan_redraw(&last, &same, true, false, false, None, None, false);
    assert_eq!(plan.content_dirty, vec![true, true, true]);
    let plan = plan_redraw(&last, &same, false, true, false, None, None, false);
    assert_eq!(plan.content_dirty, vec![true, true, true]);

    let empty: Vec<Vec<Cell>> = Vec::new();
    let plan = plan_redraw(&empty, &[], true, false, true, Some(0), None, true);
    assert!(!plan.any_dirty && !plan.needs_text_rebuild);
}

#[test]
fn redraw_remembers_changed_rows() {
    let mut last = vec![row("one"), row("two")];
    let r0 = row("ONE");
    let r1 = row("TWO");
    remember_rows(&mut last, &[&r0, &r1], &vec![false, true]);
    assert_eq!(last[0][0].c, 'o');
    assert_eq!(last[1][0].c, 'T');
    remember_rows(&mut last, &[&r0, &r1], &vec![]);
    assert_eq!(last[0][0].c, 'O');
}

fn plain() -> GlyphStyle {
    GlyphStyle { color: Color::rgb(229, 229, 229), bold: false, italic: false }
}

#[test]
fn redraw_visible_len_skips_trailing_blanks() {
    assert_eq!(visible_len(&row("ab  ")), 2);
    assert_eq!(visible_len(&row("   ")), 0);
    assert_eq!(visible_len(&row(" a")), 2);
    assert_eq!(visible_len(&Vec::new()), 0);
}

#[test]
fn redraw_text_spans_join_rows_and_styles() {
    let r0 = row("ab  ");
    let r1 = row("  ");
    let mut r2 = row("cd");
    let spans = text_spans(&[&r0, &r1, &r2], None);
    assert_eq!(spans.len(), 1);
    assert_eq!(spans[0].text, "ab\n\ncd");
    assert_eq!(spans[0].style, plain());

    r2[1].style = 1; // bold
    let spans = text_spans(&[&r0, &r1, &r2], None);
    assert_eq!(spans.len(), 2);
    assert_eq!(spans[0].text, "ab\n\nc");
    assert_eq!(spans[1].text, "d");
    assert!(spans[1].style.bold && !spans[1].style.italic);

    // the glyph under a white block cursor turns black
    let spans = text_spans(&[&r0], Some((1, 0, Color::rgb(255, 255, 255))));
    assert_eq!(spans.len(), 2);
    assert_eq!(spans[0].text, "a");
    assert_eq!(spans[1].text, "b");
    assert_eq!(spans[1].style.color, Color::rgb(0, 0, 0));
}

#[test]
fn redraw_text_spans_start_with_a_break_span() {
    let blank = row("  ");
    let x = row("x");
    let spans = text_spans(&[&blank, &x], None);
    assert_eq!(spans.len(), 2);
    assert_eq!(spans[0].text, "\n");
    assert_eq!(spans[0].style, GlyphStyle { color: Color::rgb(255, 255, 255), bold: false, italic: false });
    assert_eq!(spans[1].text, "x");
    assert!(text_spans(&[], None).is_empty());
}

#[test]
fn redraw_background_and_underline_runs() {
    let red = Color::rgb(200, 0, 0);
    let base = Cell::default().bg;
    let mut r = row("abcdef");
    r[1].bg = red;
    r[2].bg = red;
    r[4].style = 64; // reverse video: the text color becomes the background
    assert_eq!(
        background_runs(&r),
        vec![(0, 1, base), (1, 2, red), (3, 1, base), (4, 1, r[4].fg), (5, 1, base)]
    );
    assert!(background_runs(&Vec::new()).is_empty());

    let fg = r[0].fg;
    r[0].style = 4; // underline
    r[1].style = 4;
    r[2].is_link_hovered = true;
    r[2].fg = red;
    r[5].style = 4;
    assert_eq!(underline_runs(&r), vec![(0, 2, fg), (2, 1, red), (5, 1, fg)]);
}
