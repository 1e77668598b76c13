use vstd::prelude::*;

use crate::cell::{Cell, CellView};
use crate::text::char_to_string;

use super::model::{
    aligned_cell, blank_row_of, fill_row, imin, iterate, lemma_iterate_step, lemma_iterate_zero, rows_have_len,
    PerformerView,
};
use super::rows::fill_row_in_place;
use super::{row_view, rows_view, Performer};

verus! {

/// Replaces the rows `from..to` of `g` by copies of `row`.
fn grid_replace_rows(g: &mut Vec<Vec<Cell>>, from: usize, to: usize, cols: usize, blank: &Cell)
    requires
        from <= to <= old(g)@.len(),
    ensures
        rows_view(final(g)@) == Seq::new(
            old(g)@.len(),
            |r: int|
                if from <= r < to {
                    blank_row_of(cols as nat, blank@)
                } else {
                    rows_view(old(g)@)[r]
                },
        ),
{
    let ghost g0 = rows_view(g@);
    let mut r = from;
    while r < to
        invariant
            from <= r <= to <= g@.len(),
            g@.len() == g0.len(),
            forall|i: int|
                0 <= i < g@.len() ==> row_view(#[trigger] g@[i]) == (if from <= i < r {
                    blank_row_of(cols as nat, blank@)
                } else {
                    g0[i]
                }),
        decreases to - r,
    {
        let row = crate::cell::repeat_cell(blank, cols);
        assert(row_view(row) =~= blank_row_of(cols as nat, blank@));
        g.set(r, row);
        r = r + 1;
    }
    assert(rows_view(g@) =~= Seq::new(
        g0.len(),
        |i: int|
            if from <= i < to {
                blank_row_of(cols as nat, blank@)
            } else {
                g0[i]
            },
    ));
}

/// Every cell of `row` turned into an `E`.
fn align_row(row: &Vec<Cell>) -> (out: Vec<Cell>)
    ensures
        row_view(out) == row_view(*row).map_values(|c: CellView| aligned_cell(c)),
{
    let mut out: Vec<Cell> = Vec::new();
    let mut i: usize = 0;
    while i < row.len()
        invariant
            i <= row@.len(),
            out@.len() == i,
            forall|j: int| 0 <= j < i ==> (#[trigger] out@[j])@ == aligned_cell(row@[j]@),
        decreases row@.len() - i,
    {
        let c = &row[i];
        out.push(
            Cell {
                c: 'E',
                text: char_to_string('E'),
                wide_continuation: false,
                hyperlink: None,
                is_link_hovered: false,
                fg: c.fg,
                bg: c.bg,
                is_selected: c.is_selected,
                style: c.style,
            },
        );
        i = i + 1;
    }
    assert(row_view(out) =~= row_view(*row).map_values(|c: CellView| aligned_cell(c)));
    out
}

impl Performer {
    /// Blanks the cells `from..to` of the cursor's row.
    #[verifier::spinoff_prover]
    #[verifier::rlimit(50)]
    fn fill_cursor_row(&mut self, from: usize, to: usize)
        requires
            old(self)@.wf(),
        ensures
            final(self)@.wf(),
            final(self)@ == old(self)@.fill_cursor_row(from as int, to as int),
    {
        reveal(rows_have_len);
        let ghost s0 = self@;
        let blank = self.empty_cell();
        let y = self.cursor_y;
        let ghost before = self.grid@;
        fill_row_in_place(&mut self.grid[y], from, to, &blank);
        proof {
            assert(self.grid@.len() == before.len());
            assert(forall|i: int| 0 <= i < before.len() && i != y ==> self.grid@[i] == before[i]);
            assert(rows_view(self.grid@) =~= s0.grid.update(
                y as int,
                fill_row(s0.grid[y as int], from as int, to as int, s0.blank()),
            ));
            assert(self@ == s0.fill_cursor_row(from as int, to as int));
            assert(self@.wf());
        }
    }

    /// Replaces the rows `from..to` by blank rows.
    #[verifier::spinoff_prover]
    #[verifier::rlimit(50)]
    fn blank_rows(&mut self, from: usize, to: usize)
        requires
            old(self)@.wf(),
            from <= to <= old(self)@.grid.len(),
        ensures
            final(self)@.wf(),
            final(self)@ == old(self)@.blank_rows(from as int, to as int),
    {
        reveal(rows_have_len);
        let ghost s0 = self@;
        let blank = self.empty_cell();
        let cols = self.cols;
        grid_replace_rows(&mut self.grid, from, to, cols, &blank);
        proof {
            assert(rows_view(self.grid@) =~= s0.blank_rows(from as int, to as int).grid);
            assert(self@ == s0.blank_rows(from as int, to as int));
            assert(self@.wf());
        }
    }

    #[verifier::spinoff_prover]
    #[verifier::rlimit(50)]
    fn erase_all(&mut self, clear_scrollback: bool)
        requires
            old(self)@.wf(),
        ensures
            final(self)@.wf(),
            final(self)@ == old(self)@.erase_all(clear_scrollback),
    {
        let len = self.grid.len();
        self.blank_rows(0, len);
        let ghost s1 = self@;
        if clear_scrollback {
            self.scrollback.clear();
        }
        self.cursor_x = 0;
        self.cursor_y = 0;
        self.pending_wrap = false;
        proof {
            assert(rows_view(self.scrollback@) =~= (if clear_scrollback {
                Seq::empty()
            } else {
                s1.scrollback
            }));
            assert(self@.wf());
        }
    }

    /// Erase in display (`CSI J`): `0` from the cursor to the end of the
    /// screen, `1` from the start through the cursor, `2` everything, `3`
    /// everything and the scrollback.
    pub fn erase_in_display(&mut self, mode: usize)
        requires
            old(self)@.wf(),
        ensures
            final(self)@.wf(),
            final(self)@ == old(self)@.erase_in_display(mode as int),
    {
        reveal(rows_have_len);
        if mode == 0 {
            let len = self.grid[self.cursor_y].len();
            self.fill_cursor_row(self.cursor_x, len);
            let y = self.cursor_y;
            let n = self.grid.len();
            self.blank_rows(y + 1, n);
        } else if mode == 1 {
            let y = self.cursor_y;
            self.blank_rows(0, y);
            let len = self.grid[self.cursor_y].len();
            let end = if self.cursor_x + 1 <= len {
                self.cursor_x + 1
            } else {
                len
            };
            self.fill_cursor_row(0, end);
        } else if mode == 2 || mode == 3 {
            self.erase_all(mode == 3);
        }
    }

    /// Erase in line (`CSI K`): `0` from the cursor to the end of the line,
    /// `1` from its start through the cursor, `2` the whole line.
    pub fn erase_in_line(&mut self, mode: usize)
        requires
            old(self)@.wf(),
        ensures
            final(self)@.wf(),
            final(self)@ == old(self)@.erase_in_line(mode as int),
    {
        if mode == 0 {
            let cols = self.cols;
            self.fill_cursor_row(self.cursor_x, cols);
        } else if mode == 1 {
            let end = if self.cursor_x <= self.cols - 1 {
                self.cursor_x + 1
            } else {
                self.cols
            };
            self.fill_cursor_row(0, end);
        } else if mode == 2 {
            self.replace_cursor_row();
        }
    }

    #[verifier::spinoff_prover]
    #[verifier::rlimit(50)]
    fn replace_cursor_row(&mut self)
        requires
            old(self)@.wf(),
        ensures
            final(self)@.wf(),
            final(self)@ == old(self)@.with_row(old(self).cursor_y as int, old(self)@.blank_row()),
    {
        reveal(rows_have_len);
        let ghost s0 = self@;
        let row = self.empty_row();
        let y = self.cursor_y;
        self.grid.set(y, row);
        proof {
            assert(rows_view(self.grid@) =~= s0.grid.update(y as int, s0.blank_row()));
            assert(self@ == s0.with_row(y as int, s0.blank_row()));
            assert(self@.wf());
        }
    }

    /// Blanks `count` cells from the cursor on, within the line (`CSI X`).
    pub fn erase_characters(&mut self, count: usize)
        requires
            old(self)@.wf(),
        ensures
            final(self)@.wf(),
            final(self)@ == old(self)@.erase_characters(count as int),
    {
        let end = if count <= self.cols - self.cursor_x {
            self.cursor_x + count
        } else {
            self.cols
        };
        self.fill_cursor_row(self.cursor_x, end);
    }

    #[verifier::spinoff_prover]
    #[verifier::rlimit(50)]
    fn insert_line_once(&mut self)
        requires
            old(self)@.wf(),
        ensures
            final(self)@.wf(),
            final(self)@ == old(self)@.insert_line_once(),
    {
        reveal(rows_have_len);
        reveal(PerformerView::insert_line_once);
        let ghost s0 = self@;
        let row = self.empty_row();
        self.grid.remove(self.scroll_bottom);
        let ghost g1 = s0.grid.remove(s0.scroll_bottom as int);
        assert(rows_view(self.grid@) =~= g1);
        self.grid.insert(self.cursor_y, row);
        proof {
            assert(rows_view(self.grid@) =~= g1.insert(s0.cursor_y as int, s0.blank_row()));
            assert(self@ == s0.insert_line_once());
            assert(self@.wf());
        }
    }

    #[verifier::spinoff_prover]
    #[verifier::rlimit(50)]
    fn home_column(&mut self)
        requires
            old(self)@.wf(),
        ensures
            final(self)@.wf(),
            final(self)@ == old(self)@.with_cursor(0, old(self).cursor_y as int).no_pending(),
    {
        let ghost s0 = self@;
        self.cursor_x = 0;
        self.pending_wrap = false;
        proof {
            assert(self@ == s0.with_cursor(0, s0.cursor_y as int).no_pending());
            assert(self@.wf());
        }
    }

    /// Inserts `count` blank lines at the cursor within the scroll region
    /// (`CSI L`); the cursor goes to the line's start.
    pub fn insert_lines(&mut self, count: usize)
        requires
            old(self)@.wf(),
        ensures
            final(self)@.wf(),
            final(self)@ == old(self)@.insert_lines(count as nat),
    {
        if self.scroll_top <= self.cursor_y && self.cursor_y <= self.scroll_bottom {
            let mut i: usize = 0;
            while i < count
                invariant
                    i <= count,
                    self@.wf(),
                    iterate(|s: PerformerView| s.insert_line_once(), self@, (count - i) as nat)
                        == iterate(|s: PerformerView| s.insert_line_once(), old(self)@, count as nat),
                decreases count - i,
            {
                proof {
                    lemma_iterate_step(|s: PerformerView| s.insert_line_once(), self@, (count - i) as nat);
                }
                self.insert_line_once();
                i = i + 1;
            }
            proof {
                lemma_iterate_zero(|s: PerformerView| s.insert_line_once(), self@);
            }
        }
        self.home_column();
    }

    #[verifier::spinoff_prover]
    #[verifier::rlimit(50)]
    fn delete_line_once(&mut self)
        requires
            old(self)@.wf(),
        ensures
            final(self)@.wf(),
            final(self)@ == old(self)@.delete_line_once(),
    {
        reveal(rows_have_len);
        reveal(PerformerView::delete_line_once);
        let ghost s0 = self@;
        let row = self.empty_row();
        self.grid.remove(self.cursor_y);
        let ghost g1 = s0.grid.remove(s0.cursor_y as int);
        assert(rows_view(self.grid@) =~= g1);
        let ins = if self.scroll_bottom + 1 <= self.grid.len() {
            self.scroll_bottom + 1
        } else {
            self.grid.len()
        };
        self.grid.insert(ins, row);
        proof {
            assert(rows_view(self.grid@) =~= g1.insert(ins as int, s0.blank_row()));
            assert(self@ == s0.delete_line_once());
            assert(self@.wf());
        }
    }

    /// Deletes `count` lines at the cursor, pulling up the lines below it
    /// within the scroll region (`CSI M`); the cursor goes to the line's
    /// start.
    pub fn delete_lines(&mut self, count: usize)
        requires
            old(self)@.wf(),
        ensures
            final(self)@.wf(),
            final(self)@ == old(self)@.delete_lines(count as nat),
    {
        let mut i: usize = 0;
        while i < count
            invariant
                i <= count,
                self@.wf(),
                iterate(|s: PerformerView| s.delete_line_once(), self@, (count - i) as nat)
                    == iterate(|s: PerformerView| s.delete_line_once(), old(self)@, count as nat),
            decreases count - i,
        {
            proof {
                lemma_iterate_step(|s: PerformerView| s.delete_line_once(), self@, (count - i) as nat);
            }
            self.delete_line_once();
            i = i + 1;
        }
        proof {
            lemma_iterate_zero(|s: PerformerView| s.delete_line_once(), self@);
        }
        self.home_column();
    }

    #[verifier::spinoff_prover]
    #[verifier::rlimit(50)]
    fn delete_character_once(&mut self)
        requires
            old(self)@.wf(),
        ensures
            final(self)@.wf(),
            final(self)@ == old(self)@.delete_character_once(),
    {
        reveal(rows_have_len);
        reveal(PerformerView::delete_character_once);
        let ghost s0 = self@;
        let blank = self.empty_cell();
        let y = self.cursor_y;
        let x = self.cursor_x;
        let mut row: Vec<Cell> = Vec::new();
        std::mem::swap(&mut row, &mut self.grid[y]);
        let ghost r0 = row_view(row);
        assert(r0 == s0.grid[y as int]);
        row.remove(x);
        row.push(blank);
        assert(row_view(row) =~= r0.remove(x as int).push(s0.blank()));
        self.grid.set(y, row);
        proof {
            assert(rows_view(self.grid@) =~= s0.grid.update(y as int, r0.remove(x as int).push(s0.blank())));
            assert(self@ == s0.delete_character_once());
            assert(self@.wf());
        }
    }

    /// Deletes `count` characters at the cursor, pulling the rest of the
    /// line left and filling blanks at its end (`CSI P`).
    pub fn delete_characters(&mut self, count: usize)
        requires
            old(self)@.wf(),
        ensures
            final(self)@.wf(),
            final(self)@ == old(self)@.delete_characters(count as nat),
    {
        let mut i: usize = 0;
        while i < count
            invariant
                i <= count,
                self@.wf(),
                iterate(|s: PerformerView| s.delete_character_once(), self@, (count - i) as nat)
                    == iterate(|s: PerformerView| s.delete_character_once(), old(self)@, count as nat),
            decreases count - i,
        {
            proof {
                lemma_iterate_step(|s: PerformerView| s.delete_character_once(), self@, (count - i) as nat);
            }
            self.delete_character_once();
            i = i + 1;
        }
        proof {
            lemma_iterate_zero(|s: PerformerView| s.delete_character_once(), self@);
        }
    }

    #[verifier::spinoff_prover]
    #[verifier::rlimit(50)]
    fn insert_blank_once(&mut self)
        requires
            old(self)@.wf(),
        ensures
            final(self)@.wf(),
            final(self)@ == old(self)@.insert_blank_once(),
    {
        reveal(rows_have_len);
        reveal(PerformerView::insert_blank_once);
        let ghost s0 = self@;
        let blank = self.empty_cell();
        let y = self.cursor_y;
        let x = self.cursor_x;
        let mut row: Vec<Cell> = Vec::new();
        std::mem::swap(&mut row, &mut self.grid[y]);
        let ghost r0 = row_view(row);
        assert(r0 == s0.grid[y as int]);
        row.pop();
        assert(row_view(row) =~= r0.drop_last());
        row.insert(x, blank);
        assert(row_view(row) =~= r0.drop_last().insert(x as int, s0.blank()));
        self.grid.set(y, row);
        proof {
            assert(rows_view(self.grid@) =~= s0.grid.update(
                y as int,
                r0.drop_last().insert(x as int, s0.blank()),
            ));
            assert(self@ == s0.insert_blank_once());
            assert(self@.wf());
        }
    }

    /// Inserts `count` blank cells at the cursor, pushing the rest of the
    /// line right and off its end (`CSI @`).
    pub fn insert_blank_characters(&mut self, count: usize)
        requires
            old(self)@.wf(),
        ensures
            final(self)@.wf(),
            final(self)@ == old(self)@.insert_blank_characters(count as nat),
    {
        let mut i: usize = 0;
        while i < count
            invariant
                i <= count,
                self@.wf(),
                iterate(|s: PerformerView| s.insert_blank_once(), self@, (count - i) as nat)
                    == iterate(|s: PerformerView| s.insert_blank_once(), old(self)@, count as nat),
            decreases count - i,
        {
            proof {
                lemma_iterate_step(|s: PerformerView| s.insert_blank_once(), self@, (count - i) as nat);
            }
            self.insert_blank_once();
            i = i + 1;
        }
        proof {
            lemma_iterate_zero(|s: PerformerView| s.insert_blank_once(), self@);
        }
    }

    /// Fills the screen with `E` (`ESC # 8`), dropping wide-character halves
    /// and links.
    #[verifier::spinoff_prover]
    #[verifier::rlimit(50)]
    pub fn alignment_pattern(&mut self)
        requires
            old(self)@.wf(),
        ensures
            final(self)@.wf(),
            final(self)@ == old(self)@.alignment_pattern(),
    {
        reveal(rows_have_len);
        reveal(PerformerView::alignment_pattern);
        let ghost s0 = self@;
        let n = self.grid.len();
        let mut r: usize = 0;
        while r < n
            invariant
                r <= n,
                n == s0.grid.len(),
                self.grid@.len() == n,
                self@ == s0.with_grid(rows_view(self.grid@)),
                forall|i: int|
                    0 <= i < n ==> row_view(#[trigger] self.grid@[i]) == (if i < r {
                        s0.grid[i].map_values(|c: CellView| aligned_cell(c))
                    } else {
                        s0.grid[i]
                    }),
            decreases n - r,
        {
            let row = align_row(&self.grid[r]);
            self.grid.set(r, row);
            r = r + 1;
        }
        proof {
            assert(rows_view(self.grid@) =~= s0.alignment_pattern().grid);
            assert(self@ == s0.alignment_pattern());
            assert(self@.wf());
        }
    }
}

} // verus!
