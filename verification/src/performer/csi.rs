use vstd::prelude::*;

use super::model::{
    firsts, imax, imin, param, param1, primary_da_reply, secondary_da_reply, CursorStyle, PerformerView,
};
use super::sgr::groups_view;
use super::Performer;

verus! {

/// Where a cursor movement `action` with count `n` and second parameter
/// `m` takes the cursor at (`x`, `y`): `A`/`B` up and down within the scroll
/// region, `C`/`D` right and left, `E`/`F` to the start of a line below or
/// above, `G` to a column, `H` to a row and column, `d` to a row.
pub open spec fn motion(action: char, n: int, m: int, x: int, y: int, target: int, cols: int, rows: int, top: int, bottom: int) -> (int, int) {
    if action == 'A' {
        (x, imax(imax(y - n, 0), top))
    } else if action == 'B' {
        (x, imin(y + n, bottom))
    } else if action == 'C' {
        (imin(x + n, cols - 1), y)
    } else if action == 'D' {
        (imax(x - n, 0), y)
    } else if action == 'E' {
        (0, imin(y + n, rows - 1))
    } else if action == 'F' {
        (0, imax(y - n, 0))
    } else if action == 'G' || action == '`' {
        (imin(n - 1, cols - 1), y)
    } else if action == 'H' || action == 'f' {
        (imin(m - 1, cols - 1), target)
    } else {
        (x, target)
    }
}

impl PerformerView {
    /// The cursor row for 1-based row parameter `row1`: relative to the
    /// scroll region in origin mode.
    pub open spec fn target_row(self, row1: int) -> int {
        let row = imin(row1 - 1, self.rows - 1);
        if self.origin_mode {
            imin(self.scroll_top + row, self.scroll_bottom as int)
        } else {
            row
        }
    }

    /// Cursor movement by a CSI final `action` with count `n` (already at
    /// least 1) and second parameter `m`.
    pub open spec fn move_cursor(self, action: char, n: int, m: int) -> Self {
        let t = motion(action, n, m, self.cursor_x as int, self.cursor_y as int, self.target_row(n), self.cols as int, self.rows as int, self.scroll_top as int, self.scroll_bottom as int);
        self.with_cursor(t.0, t.1).no_pending()
    }

    /// Cursor shape (`CSI Ps SP q`): 0-2 block, 3-4 underline, 5-6 bar;
    /// the even shapes and 0 blink.
    pub open spec fn set_cursor_style(self, mode: int) -> Self {
        PerformerView {
            cursor_style: if 0 <= mode <= 2 {
                CursorStyle::Block
            } else if mode == 3 || mode == 4 {
                CursorStyle::Underline
            } else if mode == 5 || mode == 6 {
                CursorStyle::Bar
            } else {
                self.cursor_style
            },
            cursor_blinking: mode == 0 || mode == 1 || mode == 3 || mode == 5,
            ..self
        }
    }

    /// Scroll region (`CSI top ; bottom r`), 1-based with 0 meaning the
    /// last row; a region that is not at least two rows inside the screen
    /// is ignored. The cursor goes home.
    pub open spec fn set_scroll_region(self, top1: int, bottom1: int) -> Self {
        let top = imax(top1 - 1, 0);
        let bottom = if bottom1 == 0 {
            self.rows - 1
        } else {
            bottom1 - 1
        };
        let valid = top < bottom && bottom < self.rows;
        let new_top = if valid {
            top
        } else {
            self.scroll_top as int
        };
        PerformerView {
            scroll_top: new_top as usize,
            scroll_bottom: if valid {
                bottom as usize
            } else {
                self.scroll_bottom
            },
            cursor_x: 0,
            cursor_y: if self.origin_mode {
                new_top as usize
            } else {
                0
            },
            pending_wrap: false,
            ..self
        }
    }

    /// A control sequence with parameter groups `params`, intermediates
    /// `inter` and final character `action`.
    pub open spec fn csi(self, params: Seq<Seq<u16>>, inter: Seq<u8>, action: char) -> Self {
        let ps = firsts(params);
        let n = param1(params, 0);
        if inter.len() > 0 && inter[0] == 63 {
            if action == 'h' {
                self.set_dec_modes(ps, true)
            } else if action == 'l' {
                self.set_dec_modes(ps, false)
            } else if action == 'n' {
                self.report_device_status(ps, true)
            } else {
                self
            }
        } else if inter.len() > 0 && inter[0] == 62 {
            if action == 'c' {
                self.with_reply(secondary_da_reply())
            } else {
                self
            }
        } else if action == 'A' || action == 'B' || action == 'C' || action == 'D' || action == 'E'
            || action == 'F' || action == 'G' || action == '`' || action == 'H' || action == 'f'
            || action == 'd' {
            self.move_cursor(action, n, param1(params, 1))
        } else if action == 'J' {
            self.erase_in_display(param(params, 0))
        } else if action == 'K' {
            self.erase_in_line(param(params, 0))
        } else if action == 'X' {
            self.erase_characters(n)
        } else if action == 'S' {
            self.scroll_up(n as nat)
        } else if action == 'T' {
            self.scroll_down(n as nat)
        } else if action == 'L' {
            self.insert_lines(n as nat)
        } else if action == 'M' {
            self.delete_lines(n as nat)
        } else if action == 'P' {
            self.delete_characters(n as nat)
        } else if action == '@' {
            self.insert_blank_characters(n as nat)
        } else if action == 'b' {
            self.repeat_last_printed(n as nat)
        } else if action == 'q' {
            if inter.len() > 0 && inter[0] == 32 {
                self.set_cursor_style(param(params, 0))
            } else {
                self
            }
        } else if action == 's' {
            self.save_cursor()
        } else if action == 'u' {
            self.restore_cursor()
        } else if action == 'r' {
            self.set_scroll_region(n, param(params, 1))
        } else if action == 'n' {
            self.report_device_status(ps, false)
        } else if action == 'c' {
            self.with_reply(primary_da_reply())
        } else if action == 'm' {
            self.apply_sgr(params)
        } else if action == 'h' {
            self.set_public_modes(ps, true)
        } else if action == 'l' {
            self.set_public_modes(ps, false)
        } else {
            self
        }
    }
}

/// The first parameter of each group.
fn first_params(params: &Vec<Vec<u16>>) -> (r: Vec<u16>)
    ensures
        r@ == firsts(groups_view(params@)),
{
    let mut r: Vec<u16> = Vec::new();
    let mut i: usize = 0;
    while i < params.len()
        invariant
            i <= params@.len(),
            r@.len() == i,
            forall|j: int| 0 <= j < i ==> r@[j] == firsts(groups_view(params@))[j],
        decreases params@.len() - i,
    {
        let v = if params[i].len() > 0 {
            params[i][0]
        } else {
            0
        };
        r.push(v);
        i = i + 1;
    }
    assert(r@ =~= firsts(groups_view(params@)));
    r
}

/// Parameter `i` (0 when absent).
fn param_at(params: &Vec<Vec<u16>>, i: usize) -> (r: usize)
    ensures
        r == param(groups_view(params@), i as int),
{
    if i < params.len() && params[i].len() > 0 {
        params[i][0] as usize
    } else {
        0
    }
}

/// Parameter `i`, with 0 and absence meaning 1.
fn param1_at(params: &Vec<Vec<u16>>, i: usize) -> (r: usize)
    ensures
        r == param1(groups_view(params@), i as int),
        1 <= r <= 65535,
{
    let p = param_at(params, i);
    if p >= 1 {
        p
    } else {
        1
    }
}

fn target_row_of(n: usize, rows: usize, origin: bool, top: usize, bottom: usize) -> (r: usize)
    requires
        1 <= n,
        top <= bottom < rows,
    ensures
        r < rows,
        r as int == (if origin {
            imin(top + imin(n - 1, rows - 1), bottom as int)
        } else {
            imin(n - 1, rows - 1)
        }),
{
    let row = if n - 1 <= rows - 1 {
        n - 1
    } else {
        rows - 1
    };
    if origin {
        if row <= bottom - top {
            top + row
        } else {
            bottom
        }
    } else {
        row
    }
}

fn motion_target(action: char, n: usize, m: usize, x: usize, y: usize, target: usize, cols: usize, rows: usize, top: usize, bottom: usize) -> (t: (usize, usize))
    requires
        1 <= n <= 65535,
        1 <= m <= 65535,
        x < cols,
        y < rows,
        target < rows,
        top <= bottom < rows,
    ensures
        t.0 < cols,
        t.1 < rows,
        t.0 as int == motion(action, n as int, m as int, x as int, y as int, target as int, cols as int, rows as int, top as int, bottom as int).0,
        t.1 as int == motion(action, n as int, m as int, x as int, y as int, target as int, cols as int, rows as int, top as int, bottom as int).1,
{
    if action == 'A' {
        let up = if y >= n {
            y - n
        } else {
            0
        };
        (x, if up >= top { up } else { top })
    } else if action == 'B' {
        (x, if y >= bottom { bottom } else if n <= bottom - y { y + n } else { bottom })
    } else if action == 'C' {
        (if n <= cols - 1 - x { x + n } else { cols - 1 }, y)
    } else if action == 'D' {
        (if x >= n { x - n } else { 0 }, y)
    } else if action == 'E' {
        (0, if n <= rows - 1 - y { y + n } else { rows - 1 })
    } else if action == 'F' {
        (0, if y >= n { y - n } else { 0 })
    } else if action == 'G' || action == '`' {
        (if n - 1 <= cols - 1 { n - 1 } else { cols - 1 }, y)
    } else if action == 'H' || action == 'f' {
        (if m - 1 <= cols - 1 { m - 1 } else { cols - 1 }, target)
    } else {
        (x, target)
    }
}

impl Performer {
    #[verifier::spinoff_prover]
    #[verifier::rlimit(50)]
    fn move_cursor(&mut self, action: char, n: usize, m: usize)
        requires
            old(self)@.wf(),
            1 <= n <= 65535,
            1 <= m <= 65535,
        ensures
            final(self)@.wf(),
            final(self)@ == old(self)@.move_cursor(action, n as int, m as int),
    {
        let target = target_row_of(n, self.rows, self.origin_mode, self.scroll_top, self.scroll_bottom);
        let t = motion_target(action, n, m, self.cursor_x, self.cursor_y, target, self.cols, self.rows, self.scroll_top, self.scroll_bottom);
        self.cursor_to(t.0, t.1);
    }

    #[verifier::spinoff_prover]
    #[verifier::rlimit(50)]
    fn set_cursor_style(&mut self, mode: usize)
        requires
            old(self)@.wf(),
        ensures
            final(self)@.wf(),
            final(self)@ == old(self)@.set_cursor_style(mode as int),
    {
        let ghost s0 = self@;
        let style = if mode <= 2 {
            CursorStyle::Block
        } else if mode == 3 || mode == 4 {
            CursorStyle::Underline
        } else if mode == 5 || mode == 6 {
            CursorStyle::Bar
        } else {
            self.cursor_style
        };
        self.cursor_style = style;
        self.cursor_blinking = mode == 0 || mode == 1 || mode == 3 || mode == 5;
        proof {
            assert(self@ == s0.set_cursor_style(mode as int));
            assert(self@.wf());
        }
    }

    #[verifier::spinoff_prover]
    #[verifier::rlimit(50)]
    fn set_scroll_region(&mut self, top1: usize, bottom1: usize)
        requires
            old(self)@.wf(),
        ensures
            final(self)@.wf(),
            final(self)@ == old(self)@.set_scroll_region(top1 as int, bottom1 as int),
    {
        let ghost s0 = self@;
        let top = if top1 >= 1 {
            top1 - 1
        } else {
            0
        };
        let bottom = if bottom1 == 0 {
            self.rows - 1
        } else {
            bottom1 - 1
        };
        let valid = top < bottom && bottom < self.rows;
        let new_top = if valid {
            top
        } else {
            self.scroll_top
        };
        let new_bottom = if valid {
            bottom
        } else {
            self.scroll_bottom
        };
        let new_y = if self.origin_mode {
            new_top
        } else {
            0
        };
        self.set_region_fields(new_top, new_bottom, new_y);
    }

    #[verifier::spinoff_prover]
    #[verifier::rlimit(50)]
    fn set_region_fields(&mut self, top: usize, bottom: usize, y: usize)
        requires
            old(self)@.wf(),
            top <= bottom < old(self).rows,
            y < old(self).rows,
        ensures
            final(self)@.wf(),
            final(self)@ == (PerformerView {
                scroll_top: top,
                scroll_bottom: bottom,
                cursor_x: 0,
                cursor_y: y,
                pending_wrap: false,
                ..old(self)@
            }),
    {
        let ghost s0 = self@;
        self.scroll_top = top;
        self.scroll_bottom = bottom;
        self.cursor_x = 0;
        self.cursor_y = y;
        self.pending_wrap = false;
        proof {
            assert(self@ == PerformerView {
                scroll_top: top,
                scroll_bottom: bottom,
                cursor_x: 0,
                cursor_y: y,
                pending_wrap: false,
                ..s0
            });
            assert(self@.wf());
        }
    }

    /// A DEC private control sequence (`CSI ? ...`): mode set / reset and
    /// status reports.
    fn dispatch_private_csi(&mut self, ps: &Vec<u16>, action: char)
        requires
            old(self)@.wf(),
        ensures
            final(self)@.wf(),
            final(self)@ == (if action == 'h' {
                old(self)@.set_dec_modes(ps@, true)
            } else if action == 'l' {
                old(self)@.set_dec_modes(ps@, false)
            } else if action == 'n' {
                old(self)@.report_device_status(ps@, true)
            } else {
                old(self)@
            }),
    {
        if action == 'h' {
            self.set_dec_modes(ps.as_slice(), true);
        } else if action == 'l' {
            self.set_dec_modes(ps.as_slice(), false);
        } else if action == 'n' {
            self.report_device_status(ps.as_slice(), true);
        }
    }

    /// Carries out a control sequence: cursor movement, erasing, scrolling,
    /// line and character insertion and deletion, modes, reports and
    /// rendition.
    #[verifier::spinoff_prover]
    #[verifier::rlimit(100)]
    pub fn dispatch_csi(&mut self, params: &Vec<Vec<u16>>, inter: &Vec<u8>, action: char)
        requires
            old(self)@.wf(),
        ensures
            final(self)@.wf(),
            final(self)@ == old(self)@.csi(groups_view(params@), inter@, action),
    {
        let ps = first_params(params);
        let n = param1_at(params, 0);
        if inter.len() > 0 && inter[0] == 63 {
            self.dispatch_private_csi(&ps, action);
        } else if inter.len() > 0 && inter[0] == 62 {
            if action == 'c' {
                let mut r: Vec<u8> = Vec::new();
                r.push(27);
                r.push(91);
                r.push(62);
                r.push(48);
                r.push(59);
                r.push(48);
                r.push(59);
                r.push(48);
                r.push(99);
                assert(r@ =~= secondary_da_reply());
                self.queue_pty_reply(r);
            }
        } else if action == 'A' || action == 'B' || action == 'C' || action == 'D' || action == 'E'
            || action == 'F' || action == 'G' || action == '`' || action == 'H' || action == 'f'
            || action == 'd' {
            let m = param1_at(params, 1);
            self.move_cursor(action, n, m);
        } else if action == 'J' {
            self.erase_in_display(param_at(params, 0));
        } else if action == 'K' {
            self.erase_in_line(param_at(params, 0));
        } else if action == 'X' {
            self.erase_characters(n);
        } else if action == 'S' {
            self.scroll_up_region(n);
        } else if action == 'T' {
            self.scroll_down_region(n);
        } else if action == 'L' {
            self.insert_lines(n);
        } else if action == 'M' {
            self.delete_lines(n);
        } else if action == 'P' {
            self.delete_characters(n);
        } else if action == '@' {
            self.insert_blank_characters(n);
        } else if action == 'b' {
            self.repeat_last_printed(n);
        } else if action == 'q' {
            if inter.len() > 0 && inter[0] == 32 {
                self.set_cursor_style(param_at(params, 0));
            }
        } else if action == 's' {
            self.save_cursor();
        } else if action == 'u' {
            self.restore_cursor();
        } else if action == 'r' {
            self.set_scroll_region(n, param_at(params, 1));
        } else if action == 'n' {
            self.report_device_status(ps.as_slice(), false);
        } else if action == 'c' {
            let mut r: Vec<u8> = Vec::new();
            r.push(27);
            r.push(91);
            r.push(63);
            r.push(49);
            r.push(59);
            r.push(50);
            r.push(99);
            assert(r@ =~= primary_da_reply());
            self.queue_pty_reply(r);
        } else if action == 'm' {
            self.apply_sgr(params);
        } else if action == 'h' {
            self.set_public_modes(ps.as_slice(), true);
        } else if action == 'l' {
            self.set_public_modes(ps.as_slice(), false);
        }
    }
}

} // verus!
