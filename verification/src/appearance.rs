use vstd::prelude::*;

use crate::cell::Cell;
use crate::color::{spec_rgb, Color};
use crate::performer::model::{CursorStyle, DIM, HIDDEN, REVERSE};
use crate::settings::CursorRenderStyle;
use crate::terminal::RowWindow;

verus! {

/// Text and background of a selected cell.
pub open spec fn selection_colors() -> (Color, Color) {
    (spec_rgb(12, 16, 24), spec_rgb(176, 212, 255))
}

/// The colors a cell is drawn in, text first: the selection colors for a
/// selected cell, its two colors swapped under reverse video, else its own.
pub open spec fn spec_effective_colors(selected: bool, style: u8, fg: Color, bg: Color) -> (Color, Color) {
    if selected {
        selection_colors()
    } else if style & REVERSE != 0 {
        (bg, fg)
    } else {
        (fg, bg)
    }
}

/// The text and background colors `cell` is drawn with.
pub fn effective_colors(cell: &Cell) -> (r: (Color, Color))
    ensures
        r == spec_effective_colors(cell.is_selected, cell.style, cell.fg, cell.bg),
{
    if cell.is_selected {
        (Color::rgb(12, 16, 24), Color::rgb(176, 212, 255))
    } else if cell.style & REVERSE != 0 {
        (cell.bg, cell.fg)
    } else {
        (cell.fg, cell.bg)
    }
}

/// `c` at half intensity, alpha kept.
pub open spec fn dimmed(c: Color) -> Color {
    Color { r: c.r / 2, g: c.g / 2, b: c.b / 2, a: c.a }
}

/// The color the glyph of a cell is drawn in, from its text color `fg`:
/// halved when dim, the background when hidden (hidden wins).
pub open spec fn spec_glyph_color(style: u8, fg: Color, bg: Color) -> Color {
    if style & HIDDEN != 0 {
        bg
    } else if style & DIM != 0 {
        dimmed(fg)
    } else {
        fg
    }
}

/// The color of the glyph of `cell` drawn with text color `fg`.
pub fn glyph_color(cell: &Cell, fg: Color) -> (r: Color)
    ensures
        r == spec_glyph_color(cell.style, fg, cell.bg),
{
    if cell.style & HIDDEN != 0 {
        cell.bg
    } else if cell.style & DIM != 0 {
        Color::rgba(fg.r / 2, fg.g / 2, fg.b / 2, fg.a)
    } else {
        fg
    }
}

/// Relative luminance of an opaque color, scaled by 10000 (Rec. 709
/// weights).
pub open spec fn luma_scaled(c: Color) -> int {
    2126 * c.r + 7152 * c.g + 722 * c.b
}

/// Whether the luminance `0.2126 r + 0.7152 g + 0.0722 b`, summed in that
/// order in single-precision floating point, falls under 128. Rounding
/// moves no sum across 128 but one: rgb(210, 101, 154), whose exact
/// luminance is 128, sums to just under it.
pub open spec fn is_dark(c: Color) -> bool {
    luma_scaled(c) < 1280000 || (c.r == 210 && c.g == 101 && c.b == 154)
}

/// White text on a dark background (luminance under 128), black otherwise.
pub open spec fn spec_contrast_text_color(background: Color) -> Color {
    if is_dark(background) {
        spec_rgb(255, 255, 255)
    } else {
        spec_rgb(0, 0, 0)
    }
}

/// The text color that stays readable on `background` (used for the
/// character under a block cursor).
pub fn contrast_text_color(background: Color) -> (r: Color)
    ensures
        r == spec_contrast_text_color(background),
{
    let r = background.r as u32;
    let g = background.g as u32;
    let b = background.b as u32;
    let luma = 2126 * r + 7152 * g + 722 * b;
    if luma < 1280000 || (r == 210 && g == 101 && b == 154) {
        Color::rgb(255, 255, 255)
    } else {
        Color::rgb(0, 0, 0)
    }
}

/// The number a cursor shape is kept under between frames.
pub open spec fn cursor_style_code(style: CursorRenderStyle) -> u8 {
    match style {
        CursorRenderStyle::Block => 0,
        CursorRenderStyle::Underline => 1,
        CursorRenderStyle::Bar => 2,
        CursorRenderStyle::Unfocused => 3,
    }
}

/// The code of the block cursor shape.
pub const CURSOR_STYLE_BLOCK: u8 = 0;

/// What identifies the cursor drawn in a frame: its cell, shape, packed
/// color and blink phase. A change of any of them redraws the rows it
/// touches.
#[derive(Clone, Copy, PartialEq, Eq, Structural, Debug)]
pub struct CursorCacheKey {
    pub col: usize,
    pub row: usize,
    pub style: u8,
    pub color: u32,
    pub blink_on: bool,
}

/// The key of a cursor at (`col`, `row`) drawn in shape `style`, packed
/// color `color` and blink phase `blink_on`.
pub fn cursor_cache_key(col: usize, row: usize, style: CursorRenderStyle, color: u32, blink_on: bool) -> (k: CursorCacheKey)
    ensures
        k == (CursorCacheKey { col, row, style: cursor_style_code(style), color, blink_on }),
{
    let code: u8 = match style {
        CursorRenderStyle::Block => 0,
        CursorRenderStyle::Underline => 1,
        CursorRenderStyle::Bar => 2,
        CursorRenderStyle::Unfocused => 3,
    };
    CursorCacheKey { col, row, style: code, color, blink_on }
}

/// How strongly the divider on the left edge of a tab is drawn.
#[derive(Clone, Copy, PartialEq, Eq, Structural, Debug)]
pub enum DividerLevel {
    /// Not drawn.
    Hidden,
    /// Full strength.
    Bright,
    /// Faint.
    Dim,
}

/// The divider left of tab `i`: none before the first tab, bright beside
/// the active tab (on either side), faint elsewhere.
pub open spec fn spec_divider_level(i: usize, is_active: bool, active_index: Option<usize>) -> DividerLevel {
    if i == 0 {
        DividerLevel::Hidden
    } else if is_active {
        DividerLevel::Bright
    } else if active_index matches Some(a) && i == a + 1 {
        DividerLevel::Bright
    } else {
        DividerLevel::Dim
    }
}

/// The divider drawn at the left edge of tab `i`.
pub fn divider_level(i: usize, is_active: bool, active_index: Option<usize>) -> (r: DividerLevel)
    ensures
        r == spec_divider_level(i, is_active, active_index),
{
    if i == 0 {
        return DividerLevel::Hidden;
    }
    if is_active {
        return DividerLevel::Bright;
    }
    match active_index {
        Some(a) => {
            if a < usize::MAX && i == a + 1 {
                DividerLevel::Bright
            } else {
                DividerLevel::Dim
            }
        },
        None => DividerLevel::Dim,
    }
}

/// How the cursor is drawn: in the terminal's cursor style while the
/// window has focus, as an outline otherwise.
pub open spec fn spec_cursor_render_style(style: CursorStyle, has_focus: bool) -> CursorRenderStyle {
    if !has_focus {
        CursorRenderStyle::Unfocused
    } else {
        match style {
            CursorStyle::Block => CursorRenderStyle::Block,
            CursorStyle::Underline => CursorRenderStyle::Underline,
            CursorStyle::Bar => CursorRenderStyle::Bar,
        }
    }
}

pub fn cursor_render_style(style: CursorStyle, has_focus: bool) -> (r: CursorRenderStyle)
    ensures
        r == spec_cursor_render_style(style, has_focus),
{
    if !has_focus {
        return CursorRenderStyle::Unfocused;
    }
    match style {
        CursorStyle::Block => CursorRenderStyle::Block,
        CursorStyle::Underline => CursorRenderStyle::Underline,
        CursorStyle::Bar => CursorRenderStyle::Bar,
    }
}

/// The row of the view that shows the cursor on screen row `cursor_y`,
/// when the view `window` shows it among its first `shown_rows` rows.
pub open spec fn spec_cursor_view_row(window: RowWindow, cursor_y: usize, shown_rows: usize) -> Option<usize> {
    let abs = window.scrollback_len + cursor_y;
    if abs < window.start || abs >= window.end || abs - window.start >= shown_rows {
        None
    } else {
        Some((abs - window.start) as usize)
    }
}

pub fn cursor_view_row(window: RowWindow, cursor_y: usize, shown_rows: usize) -> (r: Option<usize>)
    ensures
        r == spec_cursor_view_row(window, cursor_y, shown_rows),
{
    if cursor_y >= window.end || window.scrollback_len >= window.end - cursor_y {
        return None;
    }
    let abs = window.scrollback_len + cursor_y;
    if abs < window.start {
        return None;
    }
    let row = abs - window.start;
    if row >= shown_rows {
        None
    } else {
        Some(row)
    }
}

/// Whether a focused cursor is in the visible phase of its blinking; an
/// unfocused cursor is always drawn.
pub open spec fn spec_cursor_blink_on(has_focus: bool, blinking: bool, phase_on: bool) -> bool {
    !has_focus || !blinking || phase_on
}

pub fn cursor_blink_on(has_focus: bool, blinking: bool, phase_on: bool) -> (r: bool)
    ensures
        r == spec_cursor_blink_on(has_focus, blinking, phase_on),
{
    !has_focus || !blinking || phase_on
}

} // verus!
