use vstd::prelude::*;

use crate::cell::{blank_cell, Cell};

use super::model::{rows_have_len, 
    blank_row_of, imin, normalize_grid, resized_tab_stops, MouseMode, PerformerView, SavedCursor,
};
use super::rows::normalize_rows;
use super::{blank_row, row_view, rows_view, Performer};

verus! {

/// A grid of `rows` rows of `cols` blank cells in the given colors.
pub fn blank_grid(rows: usize, cols: usize, fg: crate::color::Color, bg: crate::color::Color) -> (g: Vec<Vec<Cell>>)
    ensures
        rows_view(g@) == Seq::new(rows as nat, |r: int| blank_row_of(cols as nat, blank_cell(fg, bg))),
{
    let mut g: Vec<Vec<Cell>> = Vec::new();
    let mut r: usize = 0;
    while r < rows
        invariant
            r <= rows,
            g@.len() == r,
            forall|i: int| 0 <= i < r ==> row_view(#[trigger] g@[i]) == blank_row_of(cols as nat, blank_cell(fg, bg)),
        decreases rows - r,
    {
        g.push(blank_row(cols, fg, bg));
        r = r + 1;
    }
    assert(rows_view(g@) =~= Seq::new(rows as nat, |r: int| blank_row_of(cols as nat, blank_cell(fg, bg))));
    g
}

/// Resizes the tab stop flags to `n` columns: new columns get no stop, and
/// every eighth column gets one.
pub fn resize_tab_stops(stops: &mut Vec<bool>, n: usize)
    ensures
        final(stops)@ == resized_tab_stops(old(stops)@, n as nat),
{
    let ghost s0 = stops@;
    let mut out: Vec<bool> = Vec::new();
    let mut i: usize = 0;
    while i < n
        invariant
            i <= n,
            stops@ == s0,
            out@.len() == i,
            forall|j: int| 0 <= j < i ==> out@[j] == resized_tab_stops(s0, n as nat)[j],
        decreases n - i,
    {
        let kept = i < stops.len() && stops[i];
        out.push(i % 8 == 0 || kept);
        i = i + 1;
    }
    assert(out@ =~= resized_tab_stops(s0, n as nat));
    *stops = out;
}

impl Performer {
    pub fn cursor_snapshot(&self) -> (s: SavedCursor)
        ensures
            s == self@.cursor_snapshot(),
    {
        SavedCursor {
            x: self.cursor_x,
            y: self.cursor_y,
            fg: self.current_fg,
            bg: self.current_bg,
            style: self.current_style,
            origin_mode: self.origin_mode,
            g0_charset: self.g0_charset,
            g1_charset: self.g1_charset,
            use_g1_charset: self.use_g1_charset,
        }
    }

    /// Saves the cursor position, colors, style, origin mode and charsets.
    #[verifier::spinoff_prover]
   #[verifier::rlimit(50)]
    #[verifier::rlimit(40)]
    pub fn save_cursor(&mut self)
        requires
            old(self)@.wf(),
        ensures
            final(self)@ == old(self)@.save_cursor(),
            final(self)@.wf(),
    {
        self.saved_cursor = Some(self.cursor_snapshot());
    }

    #[verifier::spinoff_prover]
    #[verifier::rlimit(50)]
    fn apply_saved(&mut self, s: SavedCursor)
        requires
            old(self)@.wf(),
        ensures
            final(self)@ == old(self)@.apply_saved(s),
            final(self)@.wf(),
    {
        reveal(PerformerView::apply_saved);
        self.cursor_x = if s.x <= self.cols - 1 {
            s.x
        } else {
            self.cols - 1
        };
        self.cursor_y = if s.y <= self.rows - 1 {
            s.y
        } else {
            self.rows - 1
        };
        self.current_fg = s.fg;
        self.current_bg = s.bg;
        self.current_style = s.style;
        self.origin_mode = s.origin_mode;
        self.g0_charset = s.g0_charset;
        self.g1_charset = s.g1_charset;
        self.use_g1_charset = s.use_g1_charset;
    }

    /// Restores what `save_cursor` saved, if anything, with the position
    /// clamped to the screen.
    #[verifier::spinoff_prover]
    #[verifier::rlimit(50)]
    pub fn restore_cursor(&mut self)
        requires
            old(self)@.wf(),
        ensures
            final(self)@ == old(self)@.restore_cursor(),
            final(self)@.wf(),
    {
        reveal(PerformerView::restore_cursor);
        match self.saved_cursor {
            Some(s) => {
                self.apply_saved(s);
                self.pending_wrap = false;
            },
            None => {},
        }
    }

    /// Switches to a blank alternate screen, keeping the normal screen and
    /// the cursor to come back to.
    #[verifier::spinoff_prover]
    #[verifier::rlimit(50)]
    pub fn enter_alt_screen(&mut self)
        requires
            old(self)@.wf(),
        ensures
            final(self)@ == old(self)@.enter_alt_screen(),
            final(self)@.wf(),
    {
        reveal(rows_have_len);
        reveal(PerformerView::enter_alt_screen);
        if self.in_alt_screen {
            return;
        }
        let ghost s0 = self@;
        let fresh = blank_grid(self.rows, self.cols, self.current_fg, self.current_bg);
        let snap = self.cursor_snapshot();
        let mut normal = fresh;
        std::mem::swap(&mut normal, &mut self.grid);
        self.alt_grid = Some(normal);
        self.alt_cursor = Some(snap);
        self.cursor_x = 0;
        self.cursor_y = 0;
        self.in_alt_screen = true;
        assert(self@.grid =~= Seq::new(s0.rows as nat, |r: int| s0.blank_row()));
        assert(self@ == s0.enter_alt_screen());
    }

    /// Returns to the normal screen, fitted to the current size, and to the
    /// cursor saved on entering.
    #[verifier::spinoff_prover]
   #[verifier::rlimit(50)]
    #[verifier::rlimit(60)]
    pub fn exit_alt_screen(&mut self)
        requires
            old(self)@.wf(),
        ensures
            final(self)@ == old(self)@.exit_alt_screen(),
            final(self)@.wf(),
    {
        if !self.in_alt_screen {
            return;
        }
        self.restore_normal_grid();
        self.restore_alt_cursor();
        let ghost s2 = self@;
        self.in_alt_screen = false;
        self.pending_wrap = false;
        assert(self@ == PerformerView { in_alt_screen: false, pending_wrap: false, ..s2 });
    }

    /// Applies the cursor saved on entering the alternate screen, if any.
    #[verifier::spinoff_prover]
    #[verifier::rlimit(50)]
    fn restore_alt_cursor(&mut self)
        requires
            old(self)@.wf(),
        ensures
            final(self)@.wf(),
            final(self)@ == old(self)@.restore_alt_cursor(),
    {
        reveal(PerformerView::restore_alt_cursor);
        let cur = self.alt_cursor;
        match cur {
            Some(c) => {
                self.alt_cursor = None;
                self.apply_saved(c);
                proof {
                    reveal(PerformerView::apply_saved);
                }
            },
            None => {},
        }
    }

    /// Puts back the grid saved on entering the alternate screen, fitted to
    /// the current size.
    #[verifier::spinoff_prover]
   #[verifier::rlimit(50)]
    #[verifier::rlimit(40)]
    fn restore_normal_grid(&mut self)
        requires
            old(self)@.wf(),
        ensures
            final(self)@ == old(self)@.restore_normal_grid(),
            final(self)@.wf(),
    {
        reveal(PerformerView::restore_normal_grid);
        reveal(rows_have_len);
        let taken = self.alt_grid.take();
        match taken {
            Some(g) => {
                let blank = self.empty_cell();
                self.grid = g;
                let rows = self.rows;
                let cols = self.cols;
                normalize_rows(&mut self.grid, rows, cols, &blank);
            },
            None => {},
        }
    }

    /// Pulls the cursor back onto the screen (onto the scroll region's
    /// bottom in origin mode).
    #[verifier::spinoff_prover]
    #[verifier::rlimit(50)]
    fn clamp_cursor(&mut self)
        requires
            old(self).rows >= 1,
            old(self).cols >= 1,
            old(self).scroll_bottom < old(self).rows,
        ensures
            final(self)@ == old(self)@.clamp_cursor(),
    {
        let y_max = if self.origin_mode {
            self.scroll_bottom
        } else {
            self.rows - 1
        };
        let x_max = self.cols - 1;
        if self.cursor_x > x_max {
            self.cursor_x = x_max;
        }
        if self.cursor_y > y_max {
            self.cursor_y = y_max;
        }
    }

    /// Resizes the screen to `new_cols` x `new_rows`: rows and columns are
    /// cut or padded with blanks, tab stops extended, the scroll region reset
    /// to the whole screen and the cursor clamped.
    #[verifier::spinoff_prover]
    #[verifier::rlimit(50)]
    pub fn resize(&mut self, new_cols: usize, new_rows: usize)
        requires
            old(self)@.wf(),
            new_cols >= 1,
            new_rows >= 1,
        ensures
            final(self)@ == old(self)@.resize(new_cols, new_rows),
            final(self)@.wf(),
    {
        reveal(rows_have_len);
        reveal(PerformerView::resize);
        let ghost s0 = self@;
        self.cols = new_cols;
        self.rows = new_rows;
        resize_tab_stops(&mut self.tab_stops, new_cols);
        let blank = self.empty_cell();
        normalize_rows(&mut self.grid, new_rows, new_cols, &blank);
        self.scroll_top = 0;
        self.scroll_bottom = new_rows - 1;
        self.clamp_cursor();
    }
}

} // verus!
