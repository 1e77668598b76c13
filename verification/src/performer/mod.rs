use std::collections::VecDeque;
use vstd::prelude::*;

use crate::cell::{blank_cell, clone_opt_string, opt_text, repeat_cell, Cell, CellView};
use crate::charset::Charset;
use crate::color::{default_bg, default_fg, default_palette_256, Color, MAX_SCROLLBACK};

pub mod model;
mod rows;
mod screen;
mod modes;
mod control;
mod edit;
pub mod sgr;
mod csi;
mod print;
mod osc;
pub mod dispatch;
pub mod laws;

use model::{rows_have_len, blank_row_of, initial_view, CursorStyle, MouseMode, PerformerView, SavedCursor};

verus! {

pub open spec fn row_view(row: Vec<Cell>) -> Seq<CellView> {
    row@.map_values(|c: Cell| c@)
}

pub open spec fn rows_view(rows: Seq<Vec<Cell>>) -> Seq<Seq<CellView>> {
    rows.map_values(|r: Vec<Cell>| row_view(r))
}

pub open spec fn bytes_view(v: Seq<Vec<u8>>) -> Seq<Seq<u8>> {
    v.map_values(|b: Vec<u8>| b@)
}

pub open spec fn strings_view(v: Seq<String>) -> Seq<Seq<char>> {
    v.map_values(|s: String| s@)
}

/// The screen state machine that the parser's actions drive.
pub struct Performer {
    pub grid: Vec<Vec<Cell>>,
    pub scrollback: VecDeque<Vec<Cell>>,
    pub alt_grid: Option<Vec<Vec<Cell>>>,
    pub alt_cursor: Option<SavedCursor>,
    pub in_alt_screen: bool,
    pub cursor_x: usize,
    pub cursor_y: usize,
    pub cursor_style: CursorStyle,
    pub cursor_blinking: bool,
    pub cursor_visible: bool,
    pub saved_cursor: Option<SavedCursor>,
    pub cols: usize,
    pub rows: usize,
    /// Scroll region, inclusive and 0-based.
    pub scroll_top: usize,
    pub scroll_bottom: usize,
    pub default_fg: Color,
    pub default_bg: Color,
    pub palette_256: Vec<Color>,
    pub current_fg: Color,
    pub current_bg: Color,
    pub current_style: u8,
    /// Auto-wrap mode (default on).
    pub auto_wrap: bool,
    /// DEC origin mode: cursor movement is relative to the scroll region.
    pub origin_mode: bool,
    /// Application cursor keys (DECCKM).
    pub app_cursor_keys: bool,
    pub bracketed_paste: bool,
    pub mouse_mode: MouseMode,
    pub sgr_mouse: bool,
    pub g0_charset: Charset,
    pub g1_charset: Charset,
    pub use_g1_charset: bool,
    /// The next print first moves to the next line.
    pub pending_wrap: bool,
    pub focus_enable: bool,
    pub insert_mode: bool,
    pub tab_stops: Vec<bool>,
    pub last_printed: Option<char>,
    pub last_cell_pos: Option<(usize, usize)>,
    pub join_next_to_last_cell: bool,
    pub current_hyperlink: Option<String>,
    /// Bytes to write back to the PTY (status and attribute replies, mouse reports).
    pub pty_replies: Vec<Vec<u8>>,
    /// Commands that the shell reported through the private history OSC.
    pub history_commands: Vec<String>,
    pub tmux_dcs_buffer: Option<Vec<u8>>,
    pub title: String,
}

impl View for Performer {
    type V = PerformerView;

    open spec fn view(&self) -> PerformerView {
        PerformerView {
            grid: rows_view(self.grid@),
            scrollback: rows_view(self.scrollback@),
            alt_grid: match self.alt_grid {
                Some(g) => Some(rows_view(g@)),
                None => None,
            },
            alt_cursor: self.alt_cursor,
            in_alt_screen: self.in_alt_screen,
            cursor_x: self.cursor_x,
            cursor_y: self.cursor_y,
            cursor_style: self.cursor_style,
            cursor_blinking: self.cursor_blinking,
            cursor_visible: self.cursor_visible,
            saved_cursor: self.saved_cursor,
            cols: self.cols,
            rows: self.rows,
            scroll_top: self.scroll_top,
            scroll_bottom: self.scroll_bottom,
            default_fg: self.default_fg,
            default_bg: self.default_bg,
            palette_256: self.palette_256@,
            current_fg: self.current_fg,
            current_bg: self.current_bg,
            current_style: self.current_style,
            auto_wrap: self.auto_wrap,
            origin_mode: self.origin_mode,
            app_cursor_keys: self.app_cursor_keys,
            bracketed_paste: self.bracketed_paste,
            mouse_mode: self.mouse_mode,
            sgr_mouse: self.sgr_mouse,
            g0_charset: self.g0_charset,
            g1_charset: self.g1_charset,
            use_g1_charset: self.use_g1_charset,
            pending_wrap: self.pending_wrap,
            focus_enable: self.focus_enable,
            insert_mode: self.insert_mode,
            tab_stops: self.tab_stops@,
            last_printed: self.last_printed,
            last_cell_pos: self.last_cell_pos,
            join_next_to_last_cell: self.join_next_to_last_cell,
            current_hyperlink: opt_text(self.current_hyperlink),
            pty_replies: bytes_view(self.pty_replies@),
            history_commands: strings_view(self.history_commands@),
            tmux_dcs_buffer: match self.tmux_dcs_buffer {
                Some(b) => Some(b@),
                None => None,
            },
            title: self.title@,
        }
    }
}

/// A row of `cols` blank cells in the given colors.
pub fn blank_row(cols: usize, fg: Color, bg: Color) -> (row: Vec<Cell>)
    ensures
        row_view(row) == blank_row_of(cols as nat, blank_cell(fg, bg)),
{
    let row = repeat_cell(&Cell::blank(fg, bg), cols);
    assert(row_view(row) =~= blank_row_of(cols as nat, blank_cell(fg, bg)));
    row
}

/// Writes `cell` at row `y`, column `x`.
pub fn set_cell(grid: &mut Vec<Vec<Cell>>, y: usize, x: usize, cell: Cell)
    requires
        y < old(grid)@.len(),
        x < old(grid)@[y as int]@.len(),
    ensures
        rows_view(final(grid)@) == rows_view(old(grid)@).update(
            y as int,
            row_view(old(grid)@[y as int]).update(x as int, cell@),
        ),
        final(grid)@.len() == old(grid)@.len(),
        forall|i: int| 0 <= i < final(grid)@.len() ==> (#[trigger] final(grid)@[i])@.len() == old(grid)@[i]@.len(),
{
    grid[y][x] = cell;
    assert(grid@.len() == old(grid)@.len());
    assert(grid@[y as int]@ == old(grid)@[y as int]@.update(x as int, cell));
    assert(forall|i: int| 0 <= i < grid@.len() && i != y ==> grid@[i] == old(grid)@[i]);
    assert(row_view(grid@[y as int]) =~= row_view(old(grid)@[y as int]).update(x as int, cell@));
    assert(rows_view(grid@) =~= rows_view(old(grid)@).update(
        y as int,
        row_view(old(grid)@[y as int]).update(x as int, cell@),
    ));
}

impl Performer {
    /// A fresh 80x24 terminal.
    pub fn new() -> (p: Performer)
        ensures
            p@ == initial_view(),
            p@.wf(),
    {
        reveal(rows_have_len);
        let rows: usize = 24;
        let cols: usize = 80;
        let fg = default_fg();
        let bg = default_bg();
        let mut grid: Vec<Vec<Cell>> = Vec::new();
        let mut r: usize = 0;
        while r < rows
            invariant
                r <= rows,
                rows == 24,
                cols == 80,
                grid@.len() == r,
                forall|i: int| 0 <= i < r ==> row_view(#[trigger] grid@[i]) == blank_row_of(cols as nat, blank_cell(fg, bg)),
            decreases rows - r,
        {
            grid.push(blank_row(cols, fg, bg));
            r = r + 1;
        }
        let mut tab_stops: Vec<bool> = Vec::new();
        let mut i: usize = 0;
        while i < cols
            invariant
                i <= cols,
                cols == 80,
                tab_stops@.len() == i,
                forall|j: int| 0 <= j < i ==> #[trigger] tab_stops@[j] == (j % 8 == 0),
            decreases cols - i,
        {
            tab_stops.push(i % 8 == 0);
            i = i + 1;
        }
        let palette_256 = default_palette_256();
        let p = Performer {
            grid,
            scrollback: VecDeque::new(),
            alt_grid: None,
            alt_cursor: None,
            in_alt_screen: false,
            cursor_x: 0,
            cursor_y: 0,
            cursor_style: CursorStyle::Block,
            cursor_blinking: false,
            cursor_visible: true,
            saved_cursor: None,
            cols,
            rows,
            scroll_top: 0,
            scroll_bottom: rows - 1,
            default_fg: fg,
            default_bg: bg,
            palette_256,
            current_fg: fg,
            current_bg: bg,
            current_style: 0,
            auto_wrap: true,
            origin_mode: false,
            app_cursor_keys: false,
            bracketed_paste: false,
            mouse_mode: MouseMode::Off,
            sgr_mouse: false,
            g0_charset: Charset::Ascii,
            g1_charset: Charset::Ascii,
            use_g1_charset: false,
            pending_wrap: false,
            focus_enable: false,
            insert_mode: false,
            tab_stops,
            last_printed: None,
            last_cell_pos: None,
            join_next_to_last_cell: false,
            current_hyperlink: None,
            pty_replies: Vec::new(),
            history_commands: Vec::new(),
            tmux_dcs_buffer: None,
            title: String::new(),
        };
        assert(p@.grid =~= initial_view().grid);
        assert(p@.tab_stops =~= initial_view().tab_stops);
        assert(p@.palette_256 =~= initial_view().palette_256);
        assert(p@.scrollback =~= initial_view().scrollback);
        assert(p@.pty_replies =~= initial_view().pty_replies);
        assert(p@.history_commands =~= initial_view().history_commands);
        assert(p@ == initial_view());
        p
    }

    /// A blank cell in the current colors.
    pub fn empty_cell(&self) -> (c: Cell)
        ensures
            c@ == self@.blank(),
    {
        Cell::blank(self.current_fg, self.current_bg)
    }

    /// A row of blank cells in the current colors.
    pub fn empty_row(&self) -> (r: Vec<Cell>)
        ensures
            row_view(r) == self@.blank_row(),
    {
        blank_row(self.cols, self.current_fg, self.current_bg)
    }

    /// Whether the application asked for focus in/out reports (`?1004`).
    pub fn focus_reporting_enabled(&self) -> (r: bool)
        ensures
            r == self@.focus_enable,
    {
        self.focus_enable
    }
}

impl Default for Performer {
    /// A fresh 80x24 terminal.
    fn default() -> (p: Performer)
        ensures
            p@ == initial_view(),
    {
        Performer::new()
    }
}

} // verus!
