use vstd::prelude::*;

use crate::cell::{blank_cell, spec_display_text, CellView};
use crate::charset::{spec_dec_special_graphics, Charset};
use crate::color::{
    spec_clamp, spec_default_bg, spec_default_fg, spec_extended_color_group, spec_rgb,
    xterm_color, Color, MAX_SCROLLBACK,
};
use crate::text::{spec_char_width, decimal};

verus! {

pub open spec fn imin(a: int, b: int) -> int {
    if a <= b {
        a
    } else {
        b
    }
}

pub open spec fn imax(a: int, b: int) -> int {
    if a >= b {
        a
    } else {
        b
    }
}

/// `f` applied `n` times to `x`.
#[verifier::opaque]
pub open spec fn iterate<T>(f: spec_fn(T) -> T, x: T, n: nat) -> T
    decreases n,
{
    if n == 0 {
        x
    } else {
        iterate(f, f(x), (n - 1) as nat)
    }
}

/// Cursor state saved by DECSC / CSI s and by entering the alternate screen.
#[derive(Clone, Copy, PartialEq, Eq, Structural, Debug)]
pub struct SavedCursor {
    pub x: usize,
    pub y: usize,
    pub fg: Color,
    pub bg: Color,
    pub style: u8,
    pub origin_mode: bool,
    pub g0_charset: Charset,
    pub g1_charset: Charset,
    pub use_g1_charset: bool,
}

#[derive(Clone, Copy, PartialEq, Eq, Structural, Debug)]
pub enum CursorStyle {
    Block,
    Underline,
    Bar,
}

/// Which pointer events the application asked to receive.
#[derive(Clone, Copy, PartialEq, Eq, Structural, Debug)]
pub enum MouseMode {
    /// No pointer reporting.
    Off,
    /// `?9`
    X10,
    /// `?1000`
    Normal,
    /// `?1002`
    ButtonEvent,
    /// `?1003`
    AnyEvent,
}

/// The mathematical state of a terminal screen.
pub struct PerformerView {
    pub grid: Seq<Seq<CellView>>,
    pub scrollback: Seq<Seq<CellView>>,
    pub alt_grid: Option<Seq<Seq<CellView>>>,
    pub alt_cursor: Option<SavedCursor>,
    pub in_alt_screen: bool,
    pub cursor_x: usize,
    pub cursor_y: usize,
    pub cursor_style: CursorStyle,
    pub cursor_blinking: bool,
    pub cursor_visible: bool,
    pub saved_cursor: Option<SavedCursor>,
    pub cols: usize,
    pub rows: usize,
    pub scroll_top: usize,
    pub scroll_bottom: usize,
    pub default_fg: Color,
    pub default_bg: Color,
    pub palette_256: Seq<Color>,
    pub current_fg: Color,
    pub current_bg: Color,
    pub current_style: u8,
    pub auto_wrap: bool,
    pub origin_mode: bool,
    pub app_cursor_keys: bool,
    pub bracketed_paste: bool,
    pub mouse_mode: MouseMode,
    pub sgr_mouse: bool,
    pub g0_charset: Charset,
    pub g1_charset: Charset,
    pub use_g1_charset: bool,
    pub pending_wrap: bool,
    pub focus_enable: bool,
    pub insert_mode: bool,
    pub tab_stops: Seq<bool>,
    pub last_printed: Option<char>,
    pub last_cell_pos: Option<(usize, usize)>,
    pub join_next_to_last_cell: bool,
    pub current_hyperlink: Option<Seq<char>>,
    pub pty_replies: Seq<Seq<u8>>,
    pub history_commands: Seq<Seq<char>>,
    pub tmux_dcs_buffer: Option<Seq<u8>>,
    pub title: Seq<char>,
}

/// Every row of `g` has `n` cells.
#[verifier::opaque]
pub open spec fn rows_have_len(g: Seq<Seq<CellView>>, n: nat) -> bool {
    forall|r: int| 0 <= r < g.len() ==> (#[trigger] g[r]).len() == n
}

/// The alignment-pattern version of `cell`: an `E`, no link, colors and
/// style kept.
pub open spec fn aligned_cell(cell: CellView) -> CellView {
    CellView {
        c: 'E',
        text: seq!['E'],
        wide_continuation: false,
        hyperlink: None,
        is_link_hovered: false,
        ..cell
    }
}

pub open spec fn blank_row_of(cols: nat, cell: CellView) -> Seq<CellView> {
    Seq::new(cols, |i: int| cell)
}

/// `row` cut or padded with `blank` to `n` cells.
pub open spec fn resize_row(row: Seq<CellView>, n: nat, blank: CellView) -> Seq<CellView> {
    if n <= row.len() {
        row.subrange(0, n as int)
    } else {
        row + Seq::new((n - row.len()) as nat, |i: int| blank)
    }
}

/// `g` cut or padded to `rows` rows of `cols` cells.
pub open spec fn normalize_grid(g: Seq<Seq<CellView>>, rows: nat, cols: nat, blank: CellView) -> Seq<
    Seq<CellView>,
> {
    Seq::new(
        rows,
        |r: int|
            if r < g.len() {
                resize_row(g[r], cols, blank)
            } else {
                blank_row_of(cols, blank)
            },
    )
}

/// `row` with the cells in `from..to` replaced by `blank`.
pub open spec fn fill_row(row: Seq<CellView>, from: int, to: int, blank: CellView) -> Seq<CellView> {
    Seq::new(row.len(), |i: int| if from <= i < to { blank } else { row[i] })
}

/// The first parameter of each group (0 for an empty group).
pub open spec fn firsts(params: Seq<Seq<u16>>) -> Seq<u16> {
    params.map_values(|g: Seq<u16>| if g.len() > 0 { g[0] } else { 0u16 })
}

/// CSI parameter `i`, 0 when absent.
pub open spec fn param(params: Seq<Seq<u16>>, i: int) -> int {
    if 0 <= i < params.len() && params[i].len() > 0 {
        params[i][0] as int
    } else {
        0
    }
}

/// CSI parameter `i` with 0 and absence meaning 1.
pub open spec fn param1(params: Seq<Seq<u16>>, i: int) -> int {
    imax(param(params, i), 1)
}

/// The first tab stop at or after column `i`, or the last column.
pub open spec fn next_tab_stop(stops: Seq<bool>, i: int, cols: int) -> int
    decreases cols - i,
{
    if i >= cols {
        if cols >= 1 {
            cols - 1
        } else {
            0
        }
    } else if 0 <= i < stops.len() && stops[i] {
        i
    } else {
        next_tab_stop(stops, i + 1, cols)
    }
}

/// Tab stops after resizing to `cols` columns: existing stops kept, new
/// columns without stops, and a stop at every eighth column.
pub open spec fn resized_tab_stops(stops: Seq<bool>, cols: nat) -> Seq<bool> {
    Seq::new(cols, |i: int| i % 8 == 0 || (i < stops.len() && stops[i]))
}

pub open spec fn default_tab_stops(cols: nat) -> Seq<bool> {
    Seq::new(cols, |i: int| i % 8 == 0)
}

/// The charset that designator byte `b` names.
pub open spec fn designated(b: u8) -> Charset {
    if b == 48 {
        Charset::DecSpecialGraphics
    } else {
        Charset::Ascii
    }
}

pub open spec fn default_palette() -> Seq<Color> {
    Seq::new(256, |i: int| xterm_color(i as u8))
}

pub const BOLD: u8 = 1;
pub const ITALIC: u8 = 2;
pub const UNDERLINE: u8 = 4;
pub const STRIKETHROUGH: u8 = 8;
pub const DIM: u8 = 16;
pub const BLINK: u8 = 32;
pub const REVERSE: u8 = 64;
pub const HIDDEN: u8 = 128;

/// The state of a terminal that has just been created or reset.
pub open spec fn initial_view() -> PerformerView {
    PerformerView {
        grid: Seq::new(24, |r: int| blank_row_of(80, blank_cell(spec_default_fg(), spec_default_bg()))),
        scrollback: Seq::empty(),
        alt_grid: None,
        alt_cursor: None,
        in_alt_screen: false,
        cursor_x: 0,
        cursor_y: 0,
        cursor_style: CursorStyle::Block,
        cursor_blinking: false,
        cursor_visible: true,
        saved_cursor: None,
        cols: 80,
        rows: 24,
        scroll_top: 0,
        scroll_bottom: 23,
        default_fg: spec_default_fg(),
        default_bg: spec_default_bg(),
        palette_256: default_palette(),
        current_fg: spec_default_fg(),
        current_bg: spec_default_bg(),
        current_style: 0,
        auto_wrap: true,
        origin_mode: false,
        app_cursor_keys: false,
        bracketed_paste: false,
        mouse_mode: MouseMode::Off,
        sgr_mouse: false,
        g0_charset: Charset::Ascii,
        g1_charset: Charset::Ascii,
        use_g1_charset: false,
        pending_wrap: false,
        focus_enable: false,
        insert_mode: false,
        tab_stops: default_tab_stops(80),
        last_printed: None,
        last_cell_pos: None,
        join_next_to_last_cell: false,
        current_hyperlink: None,
        pty_replies: Seq::empty(),
        history_commands: Seq::empty(),
        tmux_dcs_buffer: None,
        title: Seq::empty(),
    }
}

/// Bytes of the device attributes reply `ESC [ ? 1 ; 2 c`.
pub open spec fn primary_da_reply() -> Seq<u8> {
    seq![27u8, 91, 63, 49, 59, 50, 99]
}

/// Bytes of the secondary device attributes reply `ESC [ > 0 ; 0 ; 0 c`.
pub open spec fn secondary_da_reply() -> Seq<u8> {
    seq![27u8, 91, 62, 48, 59, 48, 59, 48, 99]
}

/// `ESC [` followed by `?` when `private`.
pub open spec fn csi_prefix(private: bool) -> Seq<u8> {
    if private {
        seq![27u8, 91, 63]
    } else {
        seq![27u8, 91]
    }
}

/// The reply to a device status report request `code`, if it has one:
/// `5` reports "OK", `6` the cursor position (1-based).
pub open spec fn dsr_reply(code: u16, private: bool, x: usize, y: usize) -> Option<Seq<u8>> {
    if code == 5 {
        Some(csi_prefix(private) + seq![48u8, 110])
    } else if code == 6 {
        Some(
            csi_prefix(private) + decimal((y + 1) as nat) + seq![59u8] + decimal((x + 1) as nat)
                + seq![82u8],
        )
    } else {
        None
    }
}

impl PerformerView {
    pub open spec fn blank(self) -> CellView {
        blank_cell(self.current_fg, self.current_bg)
    }

    pub open spec fn blank_row(self) -> Seq<CellView> {
        blank_row_of(self.cols as nat, self.blank())
    }

    /// The shape that every operation keeps: a `rows` x `cols` grid, the
    /// cursor on it, a scroll region inside it, one tab stop flag per
    /// column, a full palette, and bounded scrollback.
    pub open spec fn wf(self) -> bool {
        &&& self.rows >= 1
        &&& self.cols >= 1
        &&& self.grid.len() == self.rows
        &&& rows_have_len(self.grid, self.cols as nat)
        &&& self.scroll_top <= self.scroll_bottom
        &&& self.scroll_bottom < self.rows
        &&& self.cursor_x < self.cols
        &&& self.cursor_y < self.rows
        &&& self.tab_stops.len() == self.cols
        &&& self.palette_256.len() == 256
        &&& self.scrollback.len() <= MAX_SCROLLBACK
    }

    pub open spec fn with_grid(self, grid: Seq<Seq<CellView>>) -> Self {
        PerformerView { grid, ..self }
    }

    pub open spec fn with_row(self, y: int, row: Seq<CellView>) -> Self {
        PerformerView { grid: self.grid.update(y, row), ..self }
    }

    pub open spec fn with_cursor(self, x: int, y: int) -> Self {
        PerformerView { cursor_x: x as usize, cursor_y: y as usize, ..self }
    }

    pub open spec fn no_pending(self) -> Self {
        PerformerView { pending_wrap: false, ..self }
    }

    pub open spec fn with_reply(self, reply: Seq<u8>) -> Self {
        PerformerView { pty_replies: self.pty_replies.push(reply), ..self }
    }

    // ── scrolling ──────────────────────────────────────────────────────────

    /// Whole-screen scroll: the top line goes to the scrollback (which keeps
    /// at most `MAX_SCROLLBACK` lines) and a blank line enters at the bottom.
    #[verifier::opaque]
    pub open spec fn scroll_screen_once(self) -> Self {
        if self.grid.len() == 0 {
            self
        } else {
            let sb = self.scrollback.push(self.grid[0]);
            PerformerView {
                scrollback: if sb.len() > MAX_SCROLLBACK {
                    sb.drop_first()
                } else {
                    sb
                },
                grid: self.grid.drop_first().push(self.blank_row()),
                ..self
            }
        }
    }

    /// Partial-region scroll: the region's top line is dropped and a blank
    /// line appears at the region's bottom.
    #[verifier::opaque]
    pub open spec fn scroll_region_once(self) -> Self {
        let g1 = if self.scroll_top < self.grid.len() {
            self.grid.remove(self.scroll_top as int)
        } else {
            self.grid
        };
        self.with_grid(g1.insert(imin(self.scroll_bottom as int, g1.len() as int), self.blank_row()))
    }

    /// Moves the scroll region up one line: the top line leaves (into the
    /// scrollback when the region is the whole screen) and a blank line
    /// appears at the bottom of the region.
    pub open spec fn scroll_up_once(self) -> Self {
        if self.scroll_top == 0 && self.scroll_bottom + 1 >= self.grid.len() {
            self.scroll_screen_once()
        } else {
            self.scroll_region_once()
        }
    }

    pub open spec fn scroll_up(self, n: nat) -> Self {
        iterate(|s: PerformerView| s.scroll_up_once(), self, n)
    }

    /// Moves the scroll region down one line: its bottom line is dropped and
    /// a blank line appears at its top.
    #[verifier::opaque]
    pub open spec fn scroll_down_once(self) -> Self {
        let g1 = if self.scroll_bottom < self.grid.len() {
            self.grid.remove(self.scroll_bottom as int)
        } else {
            self.grid
        };
        self.with_grid(g1.insert(self.scroll_top as int, self.blank_row()))
    }

    pub open spec fn scroll_down(self, n: nat) -> Self {
        iterate(|s: PerformerView| s.scroll_down_once(), self, n)
    }

    /// Line feed: scroll at the bottom of the region, else move down.
    pub open spec fn index_line(self) -> Self {
        if self.cursor_y == self.scroll_bottom {
            self.scroll_up(1)
        } else {
            self.with_cursor(
                self.cursor_x as int,
                imin(self.cursor_y + 1, self.rows - 1),
            )
        }
    }

    /// Reverse index: scroll down at the top of the region, else move up.
    pub open spec fn reverse_index(self) -> Self {
        if self.cursor_y == self.scroll_top {
            self.scroll_down(1)
        } else {
            self.with_cursor(self.cursor_x as int, imax(self.cursor_y - 1, 0))
        }
    }

    // ── cursor save / restore and the alternate screen ──────────────────────

    pub open spec fn cursor_snapshot(self) -> SavedCursor {
        SavedCursor {
            x: self.cursor_x,
            y: self.cursor_y,
            fg: self.current_fg,
            bg: self.current_bg,
            style: self.current_style,
            origin_mode: self.origin_mode,
            g0_charset: self.g0_charset,
            g1_charset: self.g1_charset,
            use_g1_charset: self.use_g1_charset,
        }
    }

    pub open spec fn save_cursor(self) -> Self {
        PerformerView { saved_cursor: Some(self.cursor_snapshot()), ..self }
    }

    /// Applies a saved cursor: position clamped to the screen, colors,
    /// style, origin mode and charsets restored.
    #[verifier::opaque]
    pub open spec fn apply_saved(self, s: SavedCursor) -> Self {
        PerformerView {
            cursor_x: imin(s.x as int, self.cols - 1) as usize,
            cursor_y: imin(s.y as int, self.rows - 1) as usize,
            current_fg: s.fg,
            current_bg: s.bg,
            current_style: s.style,
            origin_mode: s.origin_mode,
            g0_charset: s.g0_charset,
            g1_charset: s.g1_charset,
            use_g1_charset: s.use_g1_charset,
            ..self
        }
    }

    #[verifier::opaque]
    pub open spec fn restore_cursor(self) -> Self {
        match self.saved_cursor {
            Some(s) => self.apply_saved(s).no_pending(),
            None => self,
        }
    }

    #[verifier::opaque]
    pub open spec fn enter_alt_screen(self) -> Self {
        if self.in_alt_screen {
            self
        } else {
            PerformerView {
                alt_grid: Some(self.grid),
                grid: Seq::new(self.rows as nat, |r: int| self.blank_row()),
                alt_cursor: Some(self.cursor_snapshot()),
                cursor_x: 0,
                cursor_y: 0,
                in_alt_screen: true,
                ..self
            }
        }
    }

    /// The grid saved on entering the alternate screen put back, fitted to
    /// the current size.
    #[verifier::opaque]
    pub open spec fn restore_normal_grid(self) -> Self {
        match self.alt_grid {
            Some(g) => PerformerView {
                grid: normalize_grid(g, self.rows as nat, self.cols as nat, self.blank()),
                alt_grid: None,
                ..self
            },
            None => self,
        }
    }

    /// The cursor saved on entering the alternate screen applied.
    #[verifier::opaque]
    pub open spec fn restore_alt_cursor(self) -> Self {
        match self.alt_cursor {
            Some(c) => PerformerView { alt_cursor: None, ..self.apply_saved(c) },
            None => self,
        }
    }

    pub open spec fn exit_alt_screen(self) -> Self {
        if !self.in_alt_screen {
            self
        } else {
            PerformerView {
                in_alt_screen: false,
                pending_wrap: false,
                ..self.restore_normal_grid().restore_alt_cursor()
            }
        }
    }

    /// The cursor pulled back onto the screen (onto the scroll region's
    /// bottom in origin mode).
    pub open spec fn clamp_cursor(self) -> Self {
        let y_max = if self.origin_mode {
            self.scroll_bottom as int
        } else {
            self.rows - 1
        };
        self.with_cursor(imin(self.cursor_x as int, self.cols - 1), imin(self.cursor_y as int, y_max))
    }

    /// The screen resized to `cols` x `rows`: rows and columns cut or padded
    /// with blanks in the current colors, tab stops extended, the scroll
    /// region reset to the whole screen and the cursor clamped.
    #[verifier::opaque]
    pub open spec fn resize(self, cols: usize, rows: usize) -> Self {
        let s1 = PerformerView {
            cols,
            rows,
            tab_stops: resized_tab_stops(self.tab_stops, cols as nat),
            ..self
        };
        let s2 = s1.with_grid(normalize_grid(s1.grid, rows as nat, cols as nat, s1.blank()));
        PerformerView { scroll_top: 0, scroll_bottom: (rows - 1) as usize, ..s2 }.clamp_cursor()
    }

    // ── charsets ──────────────────────────────────────────────────────────

    pub open spec fn active_charset(self) -> Charset {
        if self.use_g1_charset {
            self.g1_charset
        } else {
            self.g0_charset
        }
    }

    pub open spec fn translate_char(self, c: char) -> char {
        match self.active_charset() {
            Charset::Ascii => c,
            Charset::DecSpecialGraphics => spec_dec_special_graphics(c),
        }
    }

    // ── modes ─────────────────────────────────────────────────────────────

    /// DEC origin mode set or reset; the cursor goes home.
    pub open spec fn set_origin_mode(self, enable: bool) -> Self {
        PerformerView {
            origin_mode: enable,
            cursor_x: 0,
            cursor_y: if enable {
                self.scroll_top
            } else {
                0
            },
            pending_wrap: false,
            ..self
        }
    }

    /// A mouse tracking mode (`9`, `1000`, `1002`, `1003`) turned on, or
    /// tracking turned off.
    pub open spec fn set_mouse_mode(self, mode: u16, enable: bool) -> Self {
        PerformerView {
            mouse_mode: if !enable {
                MouseMode::Off
            } else if mode == 9 {
                MouseMode::X10
            } else if mode == 1000 {
                MouseMode::Normal
            } else if mode == 1002 {
                MouseMode::ButtonEvent
            } else {
                MouseMode::AnyEvent
            },
            ..self
        }
    }

    /// The DEC private modes that are plain flags: `1` cursor keys, `7`
    /// auto-wrap, `12` blinking, `25` visibility, `1004` focus reports,
    /// `1006` SGR mouse encoding, `2004` bracketed paste.
    pub open spec fn set_flag_mode(self, mode: u16, enable: bool) -> Self {
        PerformerView {
            app_cursor_keys: if mode == 1 { enable } else { self.app_cursor_keys },
            auto_wrap: if mode == 7 { enable } else { self.auto_wrap },
            cursor_blinking: if mode == 12 { enable } else { self.cursor_blinking },
            cursor_visible: if mode == 25 { enable } else { self.cursor_visible },
            focus_enable: if mode == 1004 { enable } else { self.focus_enable },
            sgr_mouse: if mode == 1006 { enable } else { self.sgr_mouse },
            bracketed_paste: if mode == 2004 { enable } else { self.bracketed_paste },
            ..self
        }
    }

    /// DEC private mode `mode` set (`enable`) or reset. `1049` saves the
    /// cursor and enters the alternate screen, or leaves it and restores the
    /// cursor; unknown modes change nothing.
    pub open spec fn set_dec_mode(self, mode: u16, enable: bool) -> Self {
        if mode == 6 {
            self.set_origin_mode(enable)
        } else if mode == 9 || mode == 1000 || mode == 1002 || mode == 1003 {
            self.set_mouse_mode(mode, enable)
        } else if mode == 1049 {
            if enable {
                self.save_cursor().enter_alt_screen()
            } else {
                self.exit_alt_screen().restore_cursor()
            }
        } else {
            self.set_flag_mode(mode, enable)
        }
    }

    /// Each of `modes` set or reset in turn.
    pub open spec fn set_dec_modes(self, modes: Seq<u16>, enable: bool) -> Self
        decreases modes.len(),
    {
        if modes.len() == 0 {
            self
        } else {
            self.set_dec_mode(modes[0], enable).set_dec_modes(modes.drop_first(), enable)
        }
    }

    /// Public modes: only insert mode (4) is recognized.
    pub open spec fn set_public_modes(self, modes: Seq<u16>, enable: bool) -> Self {
        if modes.contains(4u16) {
            PerformerView { insert_mode: enable, ..self }
        } else {
            self
        }
    }

    /// Answers each device status request among `codes` in turn.
    pub open spec fn report_device_status(self, codes: Seq<u16>, private: bool) -> Self
        decreases codes.len(),
    {
        if codes.len() == 0 {
            self
        } else {
            let s1 = match dsr_reply(codes[0], private, self.cursor_x, self.cursor_y) {
                Some(r) => self.with_reply(r),
                None => self,
            };
            s1.report_device_status(codes.drop_first(), private)
        }
    }

    // ── control characters ────────────────────────────────────────────────

    pub open spec fn carriage_return(self) -> Self {
        self.with_cursor(0, self.cursor_y as int).no_pending()
    }

    pub open spec fn horizontal_tab(self) -> Self {
        self.with_cursor(
            next_tab_stop(self.tab_stops, self.cursor_x + 1, self.cols as int),
            self.cursor_y as int,
        ).no_pending()
    }

    pub open spec fn backspace(self) -> Self {
        self.with_cursor(imax(self.cursor_x - 1, 0), self.cursor_y as int).no_pending()
    }

    /// A C0 control byte: LF/VT/FF, CR, HT, BS, SO and SI act; others do
    /// nothing.
    pub open spec fn execute_control(self, byte: u8) -> Self {
        if byte == 10 || byte == 11 || byte == 12 {
            self.no_pending().index_line()
        } else if byte == 13 {
            self.carriage_return()
        } else if byte == 9 {
            self.horizontal_tab()
        } else if byte == 8 {
            self.backspace()
        } else if byte == 14 {
            PerformerView { use_g1_charset: true, ..self }
        } else if byte == 15 {
            PerformerView { use_g1_charset: false, ..self }
        } else {
            self
        }
    }

    // ── escape sequences ──────────────────────────────────────────────────

    /// The screen alignment pattern: every cell shows `E`, links dropped.
    #[verifier::opaque]
    pub open spec fn alignment_pattern(self) -> Self {
        self.with_grid(self.grid.map_values(|row: Seq<CellView>| row.map_values(|c: CellView| aligned_cell(c))))
    }

    /// A tab stop set at the cursor column.
    pub open spec fn set_tab_stop(self) -> Self {
        if self.cursor_x < self.tab_stops.len() {
            PerformerView { tab_stops: self.tab_stops.update(self.cursor_x as int, true), ..self }
        } else {
            self
        }
    }

    /// An escape sequence: `7` / `8` save and restore the cursor, `D`
    /// index, `E` next line, `M` reverse index, `H` sets a tab stop, `c`
    /// resets the terminal, `# 8` fills the screen with `E`, and `( x` /
    /// `) x` designate the G0 / G1 charset.
    pub open spec fn dispatch_escape(self, intermediates: Seq<u8>, byte: u8) -> Self {
        if intermediates.len() == 0 {
            if byte == 55 {
                self.save_cursor()
            } else if byte == 56 {
                self.restore_cursor()
            } else if byte == 68 {
                self.index_line()
            } else if byte == 69 {
                self.with_cursor(0, self.cursor_y as int).index_line()
            } else if byte == 77 {
                self.reverse_index()
            } else if byte == 72 {
                self.set_tab_stop()
            } else if byte == 99 {
                initial_view()
            } else {
                self
            }
        } else if intermediates[0] == 35 && byte == 56 {
            self.alignment_pattern()
        } else if intermediates[0] == 40 {
            PerformerView { g0_charset: designated(byte), ..self }
        } else if intermediates[0] == 41 {
            PerformerView { g1_charset: designated(byte), ..self }
        } else {
            self
        }
    }

    // ── erasing, inserting and deleting ───────────────────────────────────

    /// The cursor's row with the cells `from..to` blanked.
    pub open spec fn fill_cursor_row(self, from: int, to: int) -> Self {
        self.with_row(self.cursor_y as int, fill_row(self.grid[self.cursor_y as int], from, to, self.blank()))
    }

    /// Every row in `from..to` replaced by a blank row.
    pub open spec fn blank_rows(self, from: int, to: int) -> Self {
        self.with_grid(
            Seq::new(self.grid.len(), |r: int| if from <= r < to { self.blank_row() } else { self.grid[r] }),
        )
    }

    /// The whole screen blanked and the cursor sent home; `3` also clears
    /// the scrollback.
    pub open spec fn erase_all(self, clear_scrollback: bool) -> Self {
        PerformerView {
            scrollback: if clear_scrollback {
                Seq::empty()
            } else {
                self.scrollback
            },
            cursor_x: 0,
            cursor_y: 0,
            pending_wrap: false,
            ..self.blank_rows(0, self.grid.len() as int)
        }
    }

    /// Erase in display: `0` from the cursor to the end of the screen, `1`
    /// from the start of the screen through the cursor, `2` all of it and
    /// `3` all of it and the scrollback.
    pub open spec fn erase_in_display(self, mode: int) -> Self {
        if mode == 0 {
            self.fill_cursor_row(self.cursor_x as int, self.grid[self.cursor_y as int].len() as int).blank_rows(
                self.cursor_y + 1,
                self.grid.len() as int,
            )
        } else if mode == 1 {
            self.blank_rows(0, self.cursor_y as int).fill_cursor_row(
                0,
                imin(self.cursor_x + 1, self.grid[self.cursor_y as int].len() as int),
            )
        } else if mode == 2 || mode == 3 {
            self.erase_all(mode == 3)
        } else {
            self
        }
    }

    /// Erase in line: `0` from the cursor to the end of the line, `1`
    /// from its start through the cursor, `2` the whole line.
    pub open spec fn erase_in_line(self, mode: int) -> Self {
        if mode == 0 {
            self.fill_cursor_row(self.cursor_x as int, self.cols as int)
        } else if mode == 1 {
            self.fill_cursor_row(0, imin(self.cursor_x as int, self.cols - 1) + 1)
        } else if mode == 2 {
            self.with_row(self.cursor_y as int, self.blank_row())
        } else {
            self
        }
    }

    /// `count` cells blanked from the cursor on, within the line.
    pub open spec fn erase_characters(self, count: int) -> Self {
        self.fill_cursor_row(self.cursor_x as int, imin(self.cursor_x + count, self.cols as int))
    }

    #[verifier::opaque]
    pub open spec fn insert_line_once(self) -> Self {
        let g1 = if self.scroll_bottom < self.grid.len() {
            self.grid.remove(self.scroll_bottom as int)
        } else {
            self.grid
        };
        self.with_grid(g1.insert(self.cursor_y as int, self.blank_row()))
    }

    pub open spec fn insert_lines(self, count: nat) -> Self {
        let s = if self.scroll_top <= self.cursor_y && self.cursor_y <= self.scroll_bottom {
            iterate(|s: PerformerView| s.insert_line_once(), self, count)
        } else {
            self
        };
        s.with_cursor(0, s.cursor_y as int).no_pending()
    }

    #[verifier::opaque]
    pub open spec fn delete_line_once(self) -> Self {
        let g1 = if self.cursor_y < self.grid.len() {
            self.grid.remove(self.cursor_y as int)
        } else {
            self.grid
        };
        self.with_grid(g1.insert(imin(self.scroll_bottom + 1, g1.len() as int), self.blank_row()))
    }

    pub open spec fn delete_lines(self, count: nat) -> Self {
        let s = iterate(|s: PerformerView| s.delete_line_once(), self, count);
        s.with_cursor(0, s.cursor_y as int).no_pending()
    }

    #[verifier::opaque]
    pub open spec fn delete_character_once(self) -> Self {
        let y = self.cursor_y as int;
        let row = self.grid[y];
        if self.cursor_x < row.len() {
            self.with_row(y, row.remove(self.cursor_x as int).push(self.blank()))
        } else {
            self
        }
    }

    pub open spec fn delete_characters(self, count: nat) -> Self {
        if self.cursor_y < self.grid.len() {
            iterate(|s: PerformerView| s.delete_character_once(), self, count)
        } else {
            self
        }
    }

    #[verifier::opaque]
    pub open spec fn insert_blank_once(self) -> Self {
        let y = self.cursor_y as int;
        let row = self.grid[y];
        let r1 = if row.len() >= self.cols {
            row.drop_last()
        } else {
            row
        };
        self.with_row(y, r1.insert(self.cursor_x as int, self.blank()))
    }

    pub open spec fn insert_blank_characters(self, count: nat) -> Self {
        if self.cursor_y < self.grid.len() {
            iterate(|s: PerformerView| s.insert_blank_once(), self, count)
        } else {
            self
        }
    }

    // ── printing ──────────────────────────────────────────────────────────

    /// Whether the last printed cell can take another code point of its
    /// grapheme.
    pub open spec fn can_join(self) -> bool {
        match self.last_cell_pos {
            Some(p) => p.1 < self.grid.len() && p.0 < self.grid[p.1 as int].len()
                && !self.grid[p.1 as int][p.0 as int].wide_continuation,
            None => false,
        }
    }

    #[verifier::opaque]
    pub open spec fn join_to_last_cell(self, c: char) -> Self {
        let p = self.last_cell_pos.unwrap();
        let cell = self.grid[p.1 as int][p.0 as int];
        PerformerView {
            join_next_to_last_cell: c == '\u{200d}',
            ..self.with_row(
                p.1 as int,
                self.grid[p.1 as int].update(p.0 as int, CellView { text: cell.text.push(c), ..cell }),
            )
        }
    }

    /// Carries out a pending wrap before printing: the cursor goes to the
    /// start of the next line, scrolling the region when it leaves its
    /// bottom.
    pub open spec fn wrap_if_pending(self) -> Self {
        if self.pending_wrap && self.auto_wrap {
            let s = self.with_cursor(0, self.cursor_y as int);
            if self.cursor_y + 1 > self.scroll_bottom {
                let t = s.scroll_up(1);
                t.with_cursor(0, t.scroll_bottom as int).no_pending()
            } else {
                s.with_cursor(0, self.cursor_y + 1).no_pending()
            }
        } else {
            self
        }
    }

    /// Insert mode: pushes the row right by one blank cell at the cursor.
    #[verifier::opaque]
    pub open spec fn shift_right_once(self) -> Self {
        let y = self.cursor_y as int;
        self.with_row(y, self.grid[y].drop_last().insert(self.cursor_x as int, self.blank()))
    }

    pub open spec fn printed_cell(self, c: char) -> CellView {
        CellView {
            c,
            text: seq![c],
            wide_continuation: false,
            hyperlink: self.current_hyperlink,
            is_link_hovered: false,
            fg: self.current_fg,
            bg: self.current_bg,
            is_selected: false,
            style: self.current_style,
        }
    }

    pub open spec fn continuation_cell(self) -> CellView {
        CellView {
            c: ' ',
            text: Seq::empty(),
            wide_continuation: true,
            hyperlink: self.current_hyperlink,
            is_link_hovered: false,
            fg: self.current_fg,
            bg: self.current_bg,
            is_selected: false,
            style: self.current_style,
        }
    }

    /// `cell` written at column `x` of row `y`.
    pub open spec fn write_cell(self, x: int, y: int, cell: CellView) -> Self {
        self.with_row(y, self.grid[y].update(x, cell))
    }

    /// In insert mode, the rest of the row pushed right by `w` cells (as far
    /// as the row reaches).
    pub open spec fn insert_shift(self, w: int) -> Self {
        if self.insert_mode {
            iterate(
                |s: PerformerView| s.shift_right_once(),
                self,
                imin(w, self.grid[self.cursor_y as int].len() - self.cursor_x) as nat,
            )
        } else {
            self
        }
    }

    /// The glyph `c` written at the cursor, followed by a trailing half
    /// when `wide`.
    pub open spec fn write_glyph(self, c: char, wide: bool) -> Self {
        let x = self.cursor_x as int;
        let y = self.cursor_y as int;
        let s1 = self.write_cell(x, y, self.printed_cell(c));
        if wide {
            s1.write_cell(x + 1, y, self.continuation_cell())
        } else {
            s1
        }
    }

    /// After writing `c` at column `x` of row `y`: it is remembered as the
    /// last printed cell, and the cursor moves `adv` columns on, or a wrap
    /// becomes pending when that leaves the row of `row_len` cells.
    pub open spec fn finish_put(self, c: char, x: int, y: int, adv: int, row_len: int) -> Self {
        PerformerView {
            last_cell_pos: Some((x as usize, y as usize)),
            join_next_to_last_cell: false,
            last_printed: Some(c),
            pending_wrap: x + adv >= row_len || self.pending_wrap,
            cursor_x: if x + adv >= row_len {
                x as usize
            } else {
                (x + adv) as usize
            },
            ..self
        }
    }

    /// Writes `c` of width `w` at the cursor and advances it; at the end of
    /// the line the cursor stays and a wrap becomes pending. A wide
    /// character that does not fit is not written, and waits for the wrap.
    pub open spec fn put_char(self, c: char, w: int) -> Self {
        let x = self.cursor_x as int;
        let y = self.cursor_y as int;
        let row_len = self.grid[y].len() as int;
        if w == 2 && x + 1 >= row_len {
            PerformerView { pending_wrap: self.auto_wrap || self.pending_wrap, ..self }
        } else {
            self.write_glyph(c, w == 2).finish_put(c, x, y, if w == 2 { 2 } else { 1 }, row_len)
        }
    }

    /// Writes `c` of width `w` at the cursor (after any pending wrap).
    pub open spec fn place(self, c: char, w: int) -> Self {
        let x = self.cursor_x as int;
        let y = self.cursor_y as int;
        if y >= self.grid.len() || x >= self.grid[y].len() {
            self
        } else {
            self.insert_shift(w).put_char(c, w)
        }
    }

    /// Prints the code point `c`: it joins the previous cell's grapheme when
    /// it is a joiner, variation selector, skin-tone modifier or zero-width
    /// mark (or follows a joiner); otherwise it takes one or two cells.
    #[verifier::opaque]
    pub open spec fn print(self, c0: char) -> Self {
        let c = self.translate_char(c0);
        let w: int = match spec_char_width(c) {
            Some(w) => w as int,
            None => 0,
        };
        let extends = c == '\u{200d}' || c == '\u{fe0e}' || c == '\u{fe0f}' || ('\u{1f3fb}' <= c
            && c <= '\u{1f3ff}') || w == 0;
        if (self.join_next_to_last_cell || extends) && self.can_join() {
            self.join_to_last_cell(c)
        } else if w == 0 {
            self
        } else {
            self.wrap_if_pending().place(c, w)
        }
    }

    pub open spec fn repeat_last_printed(self, count: nat) -> Self {
        match self.last_printed {
            Some(c) => iterate(|s: PerformerView| s.print(c), self, count),
            None => self,
        }
    }
}

} // verus!

verus! {

pub proof fn lemma_iterate_zero<T>(f: spec_fn(T) -> T, x: T)
    ensures
        iterate(f, x, 0) == x,
{
    reveal(iterate);
}

pub proof fn lemma_iterate_step<T>(f: spec_fn(T) -> T, x: T, n: nat)
    requires
        n > 0,
    ensures
        iterate(f, x, n) == iterate(f, f(x), (n - 1) as nat),
{
    reveal(iterate);
}

} // verus!

verus! {

/// A tab always lands on the screen.
pub proof fn lemma_next_tab_stop_bound(stops: Seq<bool>, i: int, cols: int)
    requires
        cols >= 1,
    ensures
        0 <= next_tab_stop(stops, i, cols) < cols,
        i >= 0 ==> (next_tab_stop(stops, i, cols) >= i || next_tab_stop(stops, i, cols) == cols - 1),
    decreases cols - i,
{
    if i >= cols {
    } else if 0 <= i < stops.len() && stops[i] {
        if i < 0 {
        }
    } else {
        lemma_next_tab_stop_bound(stops, i + 1, cols);
    }
}

} // verus!
