use memtty::appearance::{
    contrast_text_color, cursor_blink_on, cursor_render_style, cursor_view_row, divider_level, effective_colors,
    glyph_color, DividerLevel,
};
use memtty::cell::Cell;
use memtty::color::Color;
use memtty::performer::model::CursorStyle;
use memtty::settings::CursorRenderStyle;
use memtty::terminal::RowWindow;

fn divider_alpha(i: usize, is_active: bool, active_index: Option<usize>) -> f32 {
    match divider_level(i, is_active, active_index) {
        DividerLevel::Hidden => 0.0,
        DividerLevel::Bright => 1.0,
        DividerLevel::Dim => 0.2,
    }
}

#[test]
fn contrast_text_color_picks_white_for_dark_background() {
    assert_eq!(contrast_text_color(Color::rgb(0, 0, 0)), Color::rgb(255, 255, 255));
    assert_eq!(contrast_text_color(Color::rgb(10, 10, 10)), Color::rgb(255, 255, 255));
}

#[test]
fn contrast_text_color_picks_black_for_bright_background() {
    assert_eq!(contrast_text_color(Color::rgb(255, 255, 255)), Color::rgb(0, 0, 0));
    assert_eq!(contrast_text_color(Color::rgb(240, 240, 240)), Color::rgb(0, 0, 0));
}

#[test]
fn contrast_text_color_weighs_green_most() {
    // luminance of pure green is about 182, of pure blue about 18
    assert_eq!(contrast_text_color(Color::rgb(0, 255, 0)), Color::rgb(0, 0, 0));
    assert_eq!(contrast_text_color(Color::rgb(0, 0, 255)), Color::rgb(255, 255, 255));
    assert_eq!(contrast_text_color(Color::rgb(255, 0, 0)), Color::rgb(255, 255, 255));
}

#[test]
fn divider_alpha_is_dim_by_default() {
    assert!((divider_alpha(1, false, Some(10)) - 0.2).abs() < f32::EPSILON);
    assert!((divider_alpha(3, false, None) - 0.2).abs() < f32::EPSILON);
}

#[test]
fn divider_alpha_is_bright_for_active_tab_divider() {
    assert!((divider_alpha(2, true, Some(0)) - 1.0).abs() < f32::EPSILON);
}

#[test]
fn divider_alpha_is_bright_for_divider_right_of_active_tab() {
    assert!((divider_alpha(2, false, Some(1)) - 1.0).abs() < f32::EPSILON);
    assert!((divider_alpha(1, false, Some(0)) - 1.0).abs() < f32::EPSILON);
}

#[test]
fn divider_alpha_is_never_drawn_for_first_divider() {
    assert!((divider_alpha(0, false, Some(0)) - 0.0).abs() < f32::EPSILON);
    assert!((divider_alpha(0, true, Some(0)) - 0.0).abs() < f32::EPSILON);
}

#[test]
fn appearance_divider_levels() {
    assert_eq!(divider_level(0, true, Some(0)), DividerLevel::Hidden);
    assert_eq!(divider_level(4, false, Some(3)), DividerLevel::Bright);
    assert_eq!(divider_level(4, false, Some(usize::MAX)), DividerLevel::Dim);
}

fn cell_with(style: u8, selected: bool) -> Cell {
    let mut c = Cell::default();
    c.fg = Color::rgb(200, 100, 50);
    c.bg = Color::rgb(1, 2, 3);
    c.style = style;
    c.is_selected = selected;
    c
}

#[test]
fn appearance_effective_colors() {
    assert_eq!(effective_colors(&cell_with(0, false)), (Color::rgb(200, 100, 50), Color::rgb(1, 2, 3)));
    assert_eq!(effective_colors(&cell_with(64, false)), (Color::rgb(1, 2, 3), Color::rgb(200, 100, 50)));
    assert_eq!(effective_colors(&cell_with(64, true)), (Color::rgb(12, 16, 24), Color::rgb(176, 212, 255)));
}

#[test]
fn appearance_glyph_color() {
    let fg = Color::rgba(200, 100, 51, 128);
    assert_eq!(glyph_color(&cell_with(0, false), fg), fg);
    assert_eq!(glyph_color(&cell_with(16, false), fg), Color::rgba(100, 50, 25, 128));
    assert_eq!(glyph_color(&cell_with(16 | 128, false), fg), Color::rgb(1, 2, 3));
}

#[test]
fn appearance_cursor_rules() {
    assert_eq!(cursor_render_style(CursorStyle::Bar, true), CursorRenderStyle::Bar);
    assert_eq!(cursor_render_style(CursorStyle::Bar, false), CursorRenderStyle::Unfocused);
    assert_eq!(cursor_render_style(CursorStyle::Underline, true), CursorRenderStyle::Underline);

    // 10 scrollback rows and a 24-row screen, scrolled up 3 rows
    let window = RowWindow { start: 7, end: 31, total_rows: 34, scrollback_len: 10 };
    assert_eq!(cursor_view_row(window, 0, 24), Some(3));
    assert_eq!(cursor_view_row(window, 20, 24), Some(23));
    assert_eq!(cursor_view_row(window, 21, 24), None);
    assert_eq!(cursor_view_row(window, 5, 6), None);
    assert_eq!(cursor_view_row(window, usize::MAX, 24), None);

    assert!(cursor_blink_on(false, true, false));
    assert!(cursor_blink_on(true, false, false));
    assert!(!cursor_blink_on(true, true, false));
    assert!(cursor_blink_on(true, true, true));
}

#[test]
fn contrast_text_color_on_exact_ties_follows_single_precision() {
    // both have luminance exactly 128; only the first sums below it in f32
    assert_eq!(contrast_text_color(Color::rgb(210, 101, 154)), Color::rgb(255, 255, 255));
    assert_eq!(contrast_text_color(Color::rgb(12, 175, 4)), Color::rgb(0, 0, 0));
}
