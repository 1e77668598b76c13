use vstd::prelude::*;

use crate::cell::Cell;
use crate::color::MAX_SCROLLBACK;

use super::model::{rows_have_len, 
    fill_row, imax, imin, iterate, lemma_iterate_step, lemma_iterate_zero, normalize_grid, resize_row,
    resized_tab_stops, PerformerView,
};
use super::{blank_row, row_view, rows_view, set_cell, Performer};

verus! {

impl Performer {
    #[verifier::spinoff_prover]
    fn scroll_screen_once(&mut self)
        requires
            old(self)@.wf(),
            old(self)@.scroll_top == 0,
            old(self)@.scroll_bottom + 1 >= old(self)@.grid.len(),
        ensures
            final(self)@ == old(self)@.scroll_screen_once(),
            final(self)@.wf(),
    {
        reveal(rows_have_len);
        let ghost s0 = self@;
        reveal(PerformerView::scroll_screen_once);
        let row = self.empty_row();
        let old_row = self.grid.remove(0);
        self.scrollback.push_back(old_row);
        if self.scrollback.len() > MAX_SCROLLBACK {
            self.scrollback.pop_front();
        }
        self.grid.push(row);
        let ghost sb = s0.scrollback.push(s0.grid[0]);
        assert(self@.scrollback =~= (if sb.len() > MAX_SCROLLBACK {
            sb.drop_first()
        } else {
            sb
        }));
        assert(self@.grid =~= s0.grid.drop_first().push(s0.blank_row()));
    }

    #[verifier::spinoff_prover]
    fn scroll_region_once(&mut self)
        requires
            old(self)@.wf(),
        ensures
            final(self)@ == old(self)@.scroll_region_once(),
            final(self)@.wf(),
    {
        reveal(rows_have_len);
        let ghost s0 = self@;
        reveal(PerformerView::scroll_region_once);
        let row = self.empty_row();
        self.grid.remove(self.scroll_top);
        let ghost g1 = s0.grid.remove(s0.scroll_top as int);
        assert(rows_view(self.grid@) =~= g1);
        let ins = if self.scroll_bottom <= self.grid.len() {
            self.scroll_bottom
        } else {
            self.grid.len()
        };
        self.grid.insert(ins, row);
        assert(self@.grid =~= g1.insert(ins as int, s0.blank_row()));
    }

    fn scroll_up_once(&mut self)
        requires
            old(self)@.wf(),
        ensures
            final(self)@ == old(self)@.scroll_up_once(),
            final(self)@.wf(),
    {
        if self.scroll_top == 0 && self.scroll_bottom + 1 >= self.grid.len() {
            self.scroll_screen_once();
        } else {
            self.scroll_region_once();
        }
    }

    /// Scrolls the scroll region up by `n` lines (content moves up, blank
    /// lines appear at the bottom of the region).
    pub fn scroll_up_region(&mut self, n: usize)
        requires
            old(self)@.wf(),
        ensures
            final(self)@ == old(self)@.scroll_up(n as nat),
            final(self)@.wf(),
    {
        let mut i: usize = 0;
        while i < n
            invariant
                i <= n,
                self@.wf(),
                self@.scroll_up((n - i) as nat) == old(self)@.scroll_up(n as nat),
            decreases n - i,
        {
            proof {
                lemma_iterate_step(|s: PerformerView| s.scroll_up_once(), self@, (n - i) as nat);
            }
            self.scroll_up_once();
            i = i + 1;
        }
        proof {
            lemma_iterate_zero(|s: PerformerView| s.scroll_up_once(), self@);
        }
    }

    #[verifier::spinoff_prover]
    fn scroll_down_once(&mut self)
        requires
            old(self)@.wf(),
        ensures
            final(self)@ == old(self)@.scroll_down_once(),
            final(self)@.wf(),
    {
        reveal(rows_have_len);
        let ghost s0 = self@;
        reveal(PerformerView::scroll_down_once);
        let row = self.empty_row();
        self.grid.remove(self.scroll_bottom);
        let ghost g1 = s0.grid.remove(s0.scroll_bottom as int);
        assert(rows_view(self.grid@) =~= g1);
        self.grid.insert(self.scroll_top, row);
        assert(self@.grid =~= g1.insert(s0.scroll_top as int, s0.blank_row()));
        assert(self@ == s0.scroll_down_once());
    }

    /// Scrolls the scroll region down by `n` lines.
    pub fn scroll_down_region(&mut self, n: usize)
        requires
            old(self)@.wf(),
        ensures
            final(self)@ == old(self)@.scroll_down(n as nat),
            final(self)@.wf(),
    {
        let mut i: usize = 0;
        while i < n
            invariant
                i <= n,
                self@.wf(),
                self@.scroll_down((n - i) as nat) == old(self)@.scroll_down(n as nat),
            decreases n - i,
        {
            proof {
                lemma_iterate_step(|s: PerformerView| s.scroll_down_once(), self@, (n - i) as nat);
            }
            self.scroll_down_once();
            i = i + 1;
        }
        proof {
            lemma_iterate_zero(|s: PerformerView| s.scroll_down_once(), self@);
        }
    }

    /// Line feed without carriage return.
    #[verifier::spinoff_prover]
    pub fn index_line(&mut self)
        requires
            old(self)@.wf(),
        ensures
            final(self)@ == old(self)@.index_line(),
            final(self)@.wf(),
    {
        let ghost s0 = self@;
        if self.cursor_y == self.scroll_bottom {
            self.scroll_up_region(1);
        } else {
            self.cursor_y = if self.cursor_y + 1 <= self.rows - 1 {
                self.cursor_y + 1
            } else {
                self.rows - 1
            };
            assert(self@ == s0.with_cursor(s0.cursor_x as int, imin(s0.cursor_y + 1, s0.rows - 1)));
        }
    }

    /// Moves up a line, scrolling down at the top of the region.
    pub fn reverse_index(&mut self)
        requires
            old(self)@.wf(),
        ensures
            final(self)@ == old(self)@.reverse_index(),
            final(self)@.wf(),
    {
        if self.cursor_y == self.scroll_top {
            self.scroll_down_region(1);
        } else {
            self.cursor_y = if self.cursor_y >= 1 {
                self.cursor_y - 1
            } else {
                0
            };
        }
    }
}

} // verus!
