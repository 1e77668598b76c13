use vstd::prelude::*;

use crate::action::{new_parser, spec_vte_actions, vte_advance, Action, VtParser};
use crate::cell::{Cell, CellView};
use crate::performer::model::{initial_view, PerformerView};
use crate::performer::{bytes_view, row_view, rows_view, Performer};

verus! {

/// The rows of the scrollback-plus-screen history shown in a viewport.
#[derive(Clone, Copy, PartialEq, Eq, Structural, Debug)]
pub struct RowWindow {
    /// First shown row, counted from the oldest scrollback row.
    pub start: usize,
    /// One past the last shown row.
    pub end: usize,
    /// Scrollback rows plus screen rows.
    pub total_rows: usize,
    /// Rows in the scrollback.
    pub scrollback_len: usize,
}

/// The window of `rows` rows that ends `offset` rows above the bottom of a
/// history of `total` rows (clamped at both ends).
pub open spec fn window_bounds(total: int, offset: int, rows: int) -> (int, int) {
    let off = if offset > 0 {
        offset
    } else {
        0
    };
    let end = if total > off {
        total - off
    } else {
        0
    };
    let start = if end > rows {
        end - rows
    } else {
        0
    };
    (start, end)
}

/// Row `idx` of the history made of `scrollback` followed by `grid`.
pub open spec fn history_row(scrollback: Seq<Seq<CellView>>, grid: Seq<Seq<CellView>>, idx: int) -> Seq<CellView> {
    if idx < scrollback.len() {
        scrollback[idx]
    } else {
        grid[idx - scrollback.len()]
    }
}

/// A terminal: a VT parser feeding a screen.
pub struct Terminal {
    pub parser: VtParser,
    pub performer: Performer,
}

pub proof fn lemma_perform_all_push(s: PerformerView, acts: Seq<Action>, a: Action)
    ensures
        s.perform_all(acts.push(a)) == s.perform_all(acts).perform(a),
    decreases acts.len(),
{
    if acts.len() == 0 {
        assert(acts.push(a).drop_first() =~= Seq::<Action>::empty());
        assert(acts.push(a)[0] == a);
        assert(s.perform(a).perform_all(Seq::<Action>::empty()) == s.perform(a));
    } else {
        assert(acts.push(a).drop_first() =~= acts.drop_first().push(a));
        assert(acts.push(a)[0] == acts[0]);
        lemma_perform_all_push(s.perform(acts[0]), acts.drop_first(), a);
    }
}

/// What feeding `bytes` to a terminal whose screen is `p` and whose parser
/// has consumed `consumed` does: the parser's actions on them carried out in
/// order; the replies they queued for the PTY are taken out and returned.
#[verifier::opaque]
pub open spec fn spec_process(p: PerformerView, consumed: Seq<u8>, bytes: Seq<u8>) -> (PerformerView, Seq<
    Seq<u8>,
>) {
    let s = p.perform_all(spec_vte_actions(consumed, bytes));
    (PerformerView { pty_replies: Seq::empty(), ..s }, s.pty_replies)
}

impl Terminal {
    /// A fresh 80x24 terminal with its parser in the ground state.
    pub fn new() -> (t: Terminal)
        ensures
            t.performer@ == initial_view(),
            t.performer@.wf(),
            t.parser@ == Seq::<u8>::empty(),
    {
        Terminal { parser: new_parser(), performer: Performer::new() }
    }

    /// Feeds `bytes` to the parser and carries out the actions it
    /// recognizes; returns the replies due to the PTY.
    pub fn process(&mut self, bytes: &[u8]) -> (replies: Vec<Vec<u8>>)
        requires
            old(self).performer@.wf(),
        ensures
            final(self).performer@.wf(),
            final(self).parser@ == old(self).parser@ + bytes@,
            (final(self).performer@, bytes_view(replies@)) == spec_process(
                old(self).performer@,
                old(self).parser@,
                bytes@,
            ),
    {
        let acts = vte_advance(&mut self.parser, bytes);
        let ghost s0 = self.performer@;
        let ghost c1 = self.parser@;
        let mut i: usize = 0;
        assert(acts@.take(0) =~= Seq::<Action>::empty());
        while i < acts.len()
            invariant
                i <= acts@.len(),
                self.performer@.wf(),
                self.performer@ == s0.perform_all(acts@.take(i as int)),
                self.parser@ == c1,
            decreases acts@.len() - i,
        {
            proof {
                assert(acts@.take(i + 1) =~= acts@.take(i as int).push(acts@[i as int]));
                lemma_perform_all_push(s0, acts@.take(i as int), acts@[i as int]);
            }
            self.performer.perform(&acts[i]);
            i = i + 1;
        }
        assert(acts@.take(i as int) =~= acts@);
        let r = self.performer.drain_pty_replies();
        proof {
            reveal(spec_process);
        }
        r
    }

    /// The window of history rows that a viewport of `rows` rows shows when
    /// scrolled `scroll_offset` rows up (negative offsets count as 0); none
    /// for an empty viewport or history.
    pub fn visible_row_window(&self, scroll_offset: i32, rows: usize) -> (w: Option<RowWindow>)
        requires
            self.performer@.scrollback.len() + self.performer@.grid.len() <= usize::MAX,
        ensures
            ({
                let total = self.performer@.scrollback.len() + self.performer@.grid.len();
                let b = window_bounds(total as int, scroll_offset as int, rows as int);
                if rows == 0 || total == 0 {
                    w is None
                } else {
                    w == Some(
                        RowWindow {
                            start: b.0 as usize,
                            end: b.1 as usize,
                            total_rows: total as usize,
                            scrollback_len: self.performer@.scrollback.len() as usize,
                        },
                    )
                }
            }),
    {
        let sb = self.performer.scrollback.len();
        let total = sb + self.performer.grid.len();
        if rows == 0 || total == 0 {
            return None;
        }
        let offset: usize = if scroll_offset > 0 {
            scroll_offset as usize
        } else {
            0
        };
        let end = if total > offset {
            total - offset
        } else {
            0
        };
        let start = if end > rows {
            end - rows
        } else {
            0
        };
        Some(RowWindow { start, end, total_rows: total, scrollback_len: sb })
    }

    /// The history rows shown in a viewport of `rows` rows scrolled
    /// `scroll_offset` rows up, oldest first.
    pub fn visible_rows(&self, scroll_offset: i32, rows: usize) -> (v: Vec<&Vec<Cell>>)
        requires
            self.performer@.scrollback.len() + self.performer@.grid.len() <= usize::MAX,
        ensures
            ({
                let total = self.performer@.scrollback.len() + self.performer@.grid.len();
                let b = window_bounds(total as int, scroll_offset as int, rows as int);
                if rows == 0 || total == 0 {
                    v@.len() == 0
                } else {
                    v@.len() == b.1 - b.0 && forall|i: int|
                        0 <= i < v@.len() ==> row_view(*#[trigger] v@[i]) == history_row(
                            self.performer@.scrollback,
                            self.performer@.grid,
                            b.0 + i,
                        )
                }
            }),
    {
        let mut out: Vec<&Vec<Cell>> = Vec::new();
        let w = self.visible_row_window(scroll_offset, rows);
        match w {
            None => out,
            Some(win) => {
                let sb = win.scrollback_len;
                let mut idx = win.start;
                while idx < win.end
                    invariant
                        win.start <= idx <= win.end,
                        win.end <= win.total_rows,
                        win.total_rows == self.performer.scrollback@.len() + self.performer.grid@.len(),
                        sb == self.performer.scrollback@.len(),
                        out@.len() == idx - win.start,
                        forall|i: int|
                            0 <= i < out@.len() ==> row_view(*#[trigger] out@[i]) == history_row(
                                self.performer@.scrollback,
                                self.performer@.grid,
                                win.start + i,
                            ),
                    decreases win.end - idx,
                {
                    if idx < sb {
                        out.push(&self.performer.scrollback[idx]);
                    } else {
                        out.push(&self.performer.grid[idx - sb]);
                    }
                    idx = idx + 1;
                }
                out
            },
        }
    }
}

impl Default for Terminal {
    /// A fresh terminal.
    fn default() -> (t: Terminal)
        ensures
            t.performer@ == initial_view(),
    {
        Terminal::new()
    }
}

} // verus!
