use vstd::prelude::*;

use crate::cell::{clone_opt_string, Cell, CellView};
use crate::charset::{map_dec_special_graphics, Charset};
use crate::text::{char_to_string, char_width, spec_char_width, string_push};

use super::model::{imin, iterate, lemma_iterate_step, lemma_iterate_zero, rows_have_len, PerformerView};
use super::{row_view, rows_view, set_cell, Performer};

verus! {

/// Appends `c` to the text of the cell at row `y`, column `x`.
fn grid_push_text(g: &mut Vec<Vec<Cell>>, y: usize, x: usize, c: char)
    requires
        y < old(g)@.len(),
        x < old(g)@[y as int]@.len(),
    ensures
        rows_view(final(g)@) == rows_view(old(g)@).update(
            y as int,
            rows_view(old(g)@)[y as int].update(
                x as int,
                CellView { text: rows_view(old(g)@)[y as int][x as int].text.push(c), ..rows_view(old(g)@)[y as int][x as int] },
            ),
        ),
{
    let mut cell = g[y][x].duplicate();
    string_push(&mut cell.text, c);
    set_cell(g, y, x, cell);
}

/// Row `y` of `g` without its last cell and with `blank` inserted at `x`.
fn grid_shift_right(g: &mut Vec<Vec<Cell>>, y: usize, x: usize, blank: Cell)
    requires
        y < old(g)@.len(),
        x < old(g)@[y as int]@.len(),
    ensures
        rows_view(final(g)@) == rows_view(old(g)@).update(
            y as int,
            rows_view(old(g)@)[y as int].drop_last().insert(x as int, blank@),
        ),
{
    let ghost g0 = rows_view(g@);
    let mut row: Vec<Cell> = Vec::new();
    std::mem::swap(&mut row, &mut g[y]);
    let ghost r0 = row_view(row);
    assert(r0 == g0[y as int]);
    row.pop();
    assert(row_view(row) =~= r0.drop_last());
    row.insert(x, blank);
    assert(row_view(row) =~= r0.drop_last().insert(x as int, blank@));
    let ghost before = g@;
    g.set(y, row);
    assert(rows_view(g@) =~= g0.update(y as int, r0.drop_last().insert(x as int, blank@)));
}

impl Performer {
    /// The charset now selected into GL.
    pub fn translate_char(&self, c: char) -> (r: char)
        ensures
            r == self@.translate_char(c),
    {
        let set = if self.use_g1_charset {
            self.g1_charset
        } else {
            self.g0_charset
        };
        match set {
            Charset::Ascii => c,
            Charset::DecSpecialGraphics => map_dec_special_graphics(c),
        }
    }

    /// Whether the last printed cell can take another code point.
    fn can_join(&self) -> (r: bool)
        ensures
            r == self@.can_join(),
    {
        match self.last_cell_pos {
            Some((x, y)) => {
                if y < self.grid.len() && x < self.grid[y].len() {
                    proof {
                        assert(self@.grid[y as int][x as int] == self.grid@[y as int]@[x as int]@);
                    }
                    !self.grid[y][x].wide_continuation
                } else {
                    false
                }
            },
            None => false,
        }
    }

    /// Appends `c` to the grapheme of the last printed cell.
    #[verifier::spinoff_prover]
    #[verifier::rlimit(50)]
    fn join_to_last_cell(&mut self, c: char)
        requires
            old(self)@.wf(),
            old(self)@.can_join(),
        ensures
            final(self)@.wf(),
            final(self)@ == old(self)@.join_to_last_cell(c),
    {
        reveal(PerformerView::join_to_last_cell);
        reveal(rows_have_len);
        let ghost s0 = self@;
        let (x, y) = self.last_cell_pos.unwrap();
        grid_push_text(&mut self.grid, y, x, c);
        self.join_next_to_last_cell = c == '\u{200d}';
        proof {
            assert(self@ == s0.join_to_last_cell(c));
            assert(self@.wf());
        }
    }

    #[verifier::spinoff_prover]
    #[verifier::rlimit(50)]
    pub(crate) fn cursor_to(&mut self, x: usize, y: usize)
        requires
            old(self)@.wf(),
            x < old(self).cols,
            y < old(self).rows,
        ensures
            final(self)@.wf(),
            final(self)@ == old(self)@.with_cursor(x as int, y as int).no_pending(),
    {
        let ghost s0 = self@;
        self.cursor_x = x;
        self.cursor_y = y;
        self.pending_wrap = false;
        proof {
            assert(self@ == s0.with_cursor(x as int, y as int).no_pending());
            assert(self@.wf());
        }
    }

    #[verifier::spinoff_prover]
    #[verifier::rlimit(50)]
    pub(crate) fn column_zero(&mut self)
        requires
            old(self)@.wf(),
        ensures
            final(self)@.wf(),
            final(self)@ == old(self)@.with_cursor(0, old(self).cursor_y as int),
    {
        let ghost s0 = self@;
        self.cursor_x = 0;
        proof {
            assert(self@ == s0.with_cursor(0, s0.cursor_y as int));
            assert(self@.wf());
        }
    }

    /// The pending wrap carried out, if there is one.
    fn wrap_if_pending(&mut self)
        requires
            old(self)@.wf(),
        ensures
            final(self)@.wf(),
            final(self)@ == old(self)@.wrap_if_pending(),
    {
        if self.pending_wrap && self.auto_wrap {
            let below = self.cursor_y + 1 > self.scroll_bottom;
            let y = self.cursor_y;
            self.column_zero();
            if below {
                self.scroll_up_region(1);
                let b = self.scroll_bottom;
                self.cursor_to(0, b);
            } else {
                self.cursor_to(0, y + 1);
            }
        }
    }

    /// Insert mode: the row pushed right by one blank at the cursor.
    #[verifier::spinoff_prover]
    #[verifier::rlimit(50)]
    fn shift_right_once(&mut self)
        requires
            old(self)@.wf(),
        ensures
            final(self)@.wf(),
            final(self)@ == old(self)@.shift_right_once(),
    {
        reveal(rows_have_len);
        reveal(PerformerView::shift_right_once);
        let ghost s0 = self@;
        let blank = self.empty_cell();
        let y = self.cursor_y;
        let x = self.cursor_x;
        grid_shift_right(&mut self.grid, y, x, blank);
        proof {
            assert(self@ == s0.shift_right_once());
            assert(self@.wf());
        }
    }

    fn insert_shift(&mut self, w: usize)
        requires
            old(self)@.wf(),
        ensures
            final(self)@.wf(),
            final(self)@ == old(self)@.insert_shift(w as int),
    {
        proof {
            reveal(rows_have_len);
            assert(self@.grid[self.cursor_y as int].len() == self.grid@[self.cursor_y as int]@.len());
        }
        if self.insert_mode {
            let room = self.grid[self.cursor_y].len() - self.cursor_x;
            let k = if w <= room {
                w
            } else {
                room
            };
            let ghost s0 = self@;
            assert(k == imin(w as int, s0.grid[s0.cursor_y as int].len() - s0.cursor_x));
            let mut i: usize = 0;
            while i < k
                invariant
                    i <= k,
                    self@.wf(),
                    iterate(|s: PerformerView| s.shift_right_once(), self@, (k - i) as nat)
                        == iterate(|s: PerformerView| s.shift_right_once(), s0, k as nat),
                decreases k - i,
            {
                proof {
                    lemma_iterate_step(|s: PerformerView| s.shift_right_once(), self@, (k - i) as nat);
                }
                self.shift_right_once();
                i = i + 1;
            }
            proof {
                lemma_iterate_zero(|s: PerformerView| s.shift_right_once(), self@);
            }
        }
    }

    /// Writes the printed cell (and, for a wide character, its trailing
    /// half) into the grid.
    #[verifier::spinoff_prover]
    #[verifier::rlimit(50)]
    fn write_glyph(&mut self, c: char, wide: bool)
        requires
            old(self)@.wf(),
            wide ==> old(self).cursor_x + 1 < old(self).cols,
        ensures
            final(self)@.wf(),
            final(self)@ == old(self)@.write_glyph(c, wide),
    {
        reveal(rows_have_len);
        let ghost s0 = self@;
        let x = self.cursor_x;
        let y = self.cursor_y;
        assert(self.grid@[y as int]@.len() == s0.grid[y as int].len());
        let cell = Cell {
            c,
            text: char_to_string(c),
            wide_continuation: false,
            hyperlink: clone_opt_string(&self.current_hyperlink),
            is_link_hovered: false,
            fg: self.current_fg,
            bg: self.current_bg,
            is_selected: false,
            style: self.current_style,
        };
        set_cell(&mut self.grid, y, x, cell);
        let ghost s1 = self@;
        assert(s1 == s0.write_cell(x as int, y as int, s0.printed_cell(c)));
        if wide {
            let cont = Cell {
                c: ' ',
                text: String::new(),
                wide_continuation: true,
                hyperlink: clone_opt_string(&self.current_hyperlink),
                is_link_hovered: false,
                fg: self.current_fg,
                bg: self.current_bg,
                is_selected: false,
                style: self.current_style,
            };
            assert(cont@ == s0.continuation_cell());
            set_cell(&mut self.grid, y, x + 1, cont);
            proof {
                assert(self@ == s1.write_cell(x + 1, y as int, s0.continuation_cell()));
            }
        }
        proof {
            assert(self@ == s0.write_glyph(c, wide));
            assert(self@.wf());
        }
    }

    #[verifier::spinoff_prover]
    #[verifier::rlimit(50)]
    fn finish_put(&mut self, c: char, x: usize, y: usize, adv: usize, row_len: usize)
        requires
            old(self)@.wf(),
            x < old(self).cols,
            y < old(self).rows,
            row_len == old(self).cols,
            adv <= 2,
        ensures
            final(self)@.wf(),
            final(self)@ == old(self)@.finish_put(c, x as int, y as int, adv as int, row_len as int),
    {
        let ghost s0 = self@;
        let wraps = adv >= row_len - x;
        self.last_cell_pos = Some((x, y));
        self.join_next_to_last_cell = false;
        self.last_printed = Some(c);
        self.pending_wrap = wraps || self.pending_wrap;
        self.cursor_x = if wraps {
            x
        } else {
            x + adv
        };
        proof {
            assert(self@ == s0.finish_put(c, x as int, y as int, adv as int, row_len as int));
            assert(self@.wf());
        }
    }

    #[verifier::spinoff_prover]
    #[verifier::rlimit(50)]
    fn defer_wide(&mut self)
        requires
            old(self)@.wf(),
        ensures
            final(self)@.wf(),
            final(self)@ == (PerformerView { pending_wrap: old(self)@.auto_wrap || old(self)@.pending_wrap, ..old(self)@ }),
    {
        let ghost s0 = self@;
        let p = self.auto_wrap || self.pending_wrap;
        self.pending_wrap = p;
        proof {
            assert(self@ == PerformerView { pending_wrap: s0.auto_wrap || s0.pending_wrap, ..s0 });
            assert(self@.wf());
        }
    }

    /// Writes `c` of width `w` at the cursor and advances the cursor.
    fn put_char(&mut self, c: char, w: usize)
        requires
            old(self)@.wf(),
        ensures
            final(self)@.wf(),
            final(self)@ == old(self)@.put_char(c, w as int),
    {
        proof {
            reveal(rows_have_len);
            assert(self@.grid[self.cursor_y as int].len() == self.grid@[self.cursor_y as int]@.len());
        }
        let x = self.cursor_x;
        let y = self.cursor_y;
        let row_len = self.grid[y].len();
        if w == 2 && x + 1 >= row_len {
            self.defer_wide();
        } else {
            self.write_glyph(c, w == 2);
            let adv: usize = if w == 2 {
                2
            } else {
                1
            };
            self.finish_put(c, x, y, adv, row_len);
        }
    }

    /// Writes `c` of width `w` at the cursor, in insert mode pushing the
    /// rest of the line right first.
    fn place(&mut self, c: char, w: usize)
        requires
            old(self)@.wf(),
        ensures
            final(self)@.wf(),
            final(self)@ == old(self)@.place(c, w as int),
    {
        proof {
            reveal(rows_have_len);
        }
        self.insert_shift(w);
        self.put_char(c, w);
    }

    /// Prints the code point `c` at the cursor (`vte::Perform::print`).
    pub fn print_char(&mut self, c0: char)
        requires
            old(self)@.wf(),
        ensures
            final(self)@.wf(),
            final(self)@ == old(self)@.print(c0),
            ' ' <= old(self)@.translate_char(c0) < '\u{7f}' ==> spec_char_width(old(self)@.translate_char(c0))
                == Some(1usize),
    {
        reveal(PerformerView::print);
        let c = self.translate_char(c0);
        let w: usize = match char_width(c) {
            Some(w) => w,
            None => 0,
        };
        let extends = c == '\u{200d}' || c == '\u{fe0e}' || c == '\u{fe0f}' || ('\u{1f3fb}' <= c && c
            <= '\u{1f3ff}') || w == 0;
        if (self.join_next_to_last_cell || extends) && self.can_join() {
            self.join_to_last_cell(c);
            return;
        }
        if w == 0 {
            return;
        }
        self.wrap_if_pending();
        self.place(c, w);
    }

    /// Prints the last printed character `count` more times (`CSI b`).
    pub fn repeat_last_printed(&mut self, count: usize)
        requires
            old(self)@.wf(),
        ensures
            final(self)@.wf(),
            final(self)@ == old(self)@.repeat_last_printed(count as nat),
    {
        match self.last_printed {
            Some(c) => {
                let mut i: usize = 0;
                while i < count
                    invariant
                        i <= count,
                        self@.wf(),
                        iterate(|s: PerformerView| s.print(c), self@, (count - i) as nat)
                            == iterate(|s: PerformerView| s.print(c), old(self)@, count as nat),
                    decreases count - i,
                {
                    proof {
                        lemma_iterate_step(|s: PerformerView| s.print(c), self@, (count - i) as nat);
                    }
                    self.print_char(c);
                    i = i + 1;
                }
                proof {
                    lemma_iterate_zero(|s: PerformerView| s.print(c), self@);
                }
            },
            None => {},
        }
    }
}

} // verus!
