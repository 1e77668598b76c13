use vstd::prelude::*;

use crate::cell::{blank_cell, CellView};
use crate::color::{Color, MAX_SCROLLBACK};
use crate::history::keep_last;
use crate::text::spec_char_width;

use super::model::{
    imin, iterate, lemma_iterate_step, lemma_iterate_zero, next_tab_stop, normalize_grid, param, param1, resize_row,
    rows_have_len, PerformerView, BLINK, BOLD, DIM, HIDDEN, ITALIC, REVERSE, STRIKETHROUGH, UNDERLINE,
};

verus! {

/// A grid that already has the shape asked for is left as it is.
pub proof fn lemma_normalize_identity(g: Seq<Seq<CellView>>, rows: nat, cols: nat, blank: CellView)
    requires
        g.len() == rows,
        rows_have_len(g, cols),
    ensures
        normalize_grid(g, rows, cols, blank) == g,
{
    reveal(rows_have_len);
    assert forall|r: int| 0 <= r < rows implies #[trigger] normalize_grid(g, rows, cols, blank)[r] == g[r] by {
        assert(resize_row(g[r], cols, blank) =~= g[r]);
    }
    assert(normalize_grid(g, rows, cols, blank) =~= g);
}

/// Law: restoring right after saving puts everything back; only the saved
/// slot is filled and a pending wrap is dropped.
pub proof fn law_save_restore_cursor(s: PerformerView)
    requires
        s.wf(),
    ensures
        s.save_cursor().restore_cursor() == (PerformerView {
            saved_cursor: Some(s.cursor_snapshot()),
            pending_wrap: false,
            ..s
        }),
{
    reveal(PerformerView::restore_cursor);
    reveal(PerformerView::apply_saved);
}

/// Law: entering the alternate screen and leaving it again brings back the
/// normal screen's contents, cursor, colors, style, origin mode and
/// charsets.
pub proof fn law_alt_screen_round_trip(s: PerformerView)
    requires
        s.wf(),
        !s.in_alt_screen,
    ensures
        s.enter_alt_screen().exit_alt_screen() == (PerformerView {
            alt_grid: None,
            alt_cursor: None,
            pending_wrap: false,
            ..s
        }),
{
    reveal(PerformerView::enter_alt_screen);
    reveal(PerformerView::restore_normal_grid);
    reveal(PerformerView::restore_alt_cursor);
    reveal(PerformerView::apply_saved);
    let e = s.enter_alt_screen();
    lemma_normalize_identity(s.grid, s.rows as nat, s.cols as nat, e.blank());
}

/// Law: mode 1049 set and then reset (the alternate screen used by full
/// screen programs) leaves the normal screen as it was, with the cursor
/// saved.
pub proof fn law_mode_1049_round_trip(s: PerformerView)
    requires
        s.wf(),
        !s.in_alt_screen,
    ensures
        s.set_dec_mode(1049, true).set_dec_mode(1049, false) == (PerformerView {
            saved_cursor: Some(s.cursor_snapshot()),
            alt_grid: None,
            alt_cursor: None,
            pending_wrap: false,
            ..s
        }),
{
    let s1 = s.save_cursor();
    law_alt_screen_round_trip(s1);
    reveal(PerformerView::enter_alt_screen);
    reveal(PerformerView::restore_cursor);
    reveal(PerformerView::apply_saved);
    reveal(PerformerView::restore_normal_grid);
    reveal(PerformerView::restore_alt_cursor);
}

/// Law: SGR 0, like SGR with no parameters, goes back to the default
/// colors and no style.
pub proof fn law_sgr_reset(s: PerformerView)
    ensures
        s.apply_sgr(seq![seq![0u16]]) == (PerformerView {
            current_fg: s.default_fg,
            current_bg: s.default_bg,
            current_style: 0,
            ..s
        }),
        s.apply_sgr(Seq::empty()) == (PerformerView {
            current_fg: s.default_fg,
            current_bg: s.default_bg,
            current_style: 0,
            ..s
        }),
{
    let g = seq![seq![0u16]];
    assert(s.sgr_code(g, 0).sgr_from(g, 1) == s.sgr_code(g, 0));
}

/// Law: scrolling the whole screen up one line moves its top line into the
/// scrollback (dropping the oldest line beyond `MAX_SCROLLBACK`) and adds
/// a blank line at the bottom.
pub proof fn law_full_screen_scroll(s: PerformerView)
    requires
        s.wf(),
        s.scroll_top == 0,
        s.scroll_bottom == s.rows - 1,
    ensures
        s.scroll_up(1).grid == s.grid.drop_first().push(s.blank_row()),
        s.scroll_up(1).scrollback == (if s.scrollback.len() < MAX_SCROLLBACK {
            s.scrollback.push(s.grid[0])
        } else {
            s.scrollback.push(s.grid[0]).drop_first()
        }),
        s.scroll_up(1).scrollback.len() <= MAX_SCROLLBACK,
{
    lemma_iterate_step(|t: PerformerView| t.scroll_up_once(), s, 1);
    lemma_iterate_zero(|t: PerformerView| t.scroll_up_once(), s.scroll_up_once());
    reveal(PerformerView::scroll_screen_once);
}

/// Law: erasing the whole display (`CSI 2 J`) blanks every row in the
/// current colors, homes the cursor and keeps the scrollback; `CSI 3 J`
/// also empties the scrollback.
pub proof fn law_erase_display(s: PerformerView)
    requires
        s.wf(),
    ensures
        forall|r: int| 0 <= r < s.rows ==> #[trigger] s.erase_in_display(2).grid[r] == s.blank_row(),
        s.erase_in_display(2).cursor_x == 0 && s.erase_in_display(2).cursor_y == 0,
        s.erase_in_display(2).scrollback == s.scrollback,
        s.erase_in_display(3).scrollback.len() == 0,
        s.erase_in_display(2).grid.len() == s.rows,
{
}

/// Law: a character one cell wide joins the last printed grapheme when it
/// extends it (it follows a joiner, or is a joiner, variation selector or
/// skin-tone modifier) and that cell can take it. Otherwise, once any
/// pending wrap is carried out and, in insert mode, the rest of the line
/// pushed right, it fills the cursor's cell and moves the cursor one column
/// right; in the last column the cursor stays and a wrap becomes pending.
#[verifier::spinoff_prover]
#[verifier::rlimit(40)]
pub proof fn law_print_narrow(s: PerformerView, c: char)
    requires
        s.wf(),
        spec_char_width(s.translate_char(c)) == Some(1usize),
    ensures
        ({
            let t = s.translate_char(c);
            let joins = (s.join_next_to_last_cell || t == '\u{200d}' || t == '\u{fe0e}' || t == '\u{fe0f}'
                || ('\u{1f3fb}' <= t && t <= '\u{1f3ff}')) && s.can_join();
            let w = s.wrap_if_pending();
            let v = w.insert_shift(1);
            let p = s.print(c);
            &&& joins ==> p == s.join_to_last_cell(t)
            &&& v.wf() && v == (PerformerView { grid: v.grid, ..w })
            &&& !s.insert_mode ==> v == w
            &&& !joins ==> p.grid[v.cursor_y as int][v.cursor_x as int] == v.printed_cell(t) && p.cursor_y
                == v.cursor_y && p.last_printed == Some(t)
            &&& !joins && v.cursor_x + 1 < v.cols ==> p.cursor_x == v.cursor_x + 1 && p.pending_wrap
                == v.pending_wrap
            &&& !joins && v.cursor_x + 1 >= v.cols ==> p.cursor_x == v.cursor_x && p.pending_wrap
        }),
{
    reveal(PerformerView::print);
    let w = s.wrap_if_pending();
    lemma_wrap_if_pending(s);
    reveal(rows_have_len);
    assert(w.grid[w.cursor_y as int].len() == w.cols);
    if w.insert_mode {
        let k = imin(1, w.grid[w.cursor_y as int].len() - w.cursor_x) as nat;
        lemma_shift_right_iterate(w, k);
    }
    let v = w.insert_shift(1);
    assert(v.grid[v.cursor_y as int].len() == v.cols);
}

/// The final characters of the cursor movement control sequences.
pub open spec fn is_cursor_motion(action: char) -> bool {
    action == 'A' || action == 'B' || action == 'C' || action == 'D' || action == 'E' || action
        == 'F' || action == 'G' || action == '`' || action == 'H' || action == 'f' || action == 'd'
}

/// Law: a cursor movement control sequence, whatever its parameters,
/// moves only the cursor, keeps it on the screen and drops a pending wrap;
/// an absent or zero count or position counts as one; moving up stops at
/// the top of the scroll region and moving down at its bottom.
pub proof fn law_cursor_motion(s: PerformerView, params: Seq<Seq<u16>>, action: char)
    requires
        s.wf(),
        is_cursor_motion(action),
    ensures
        s.csi(params, Seq::empty(), action) == (PerformerView {
            cursor_x: s.csi(params, Seq::empty(), action).cursor_x,
            cursor_y: s.csi(params, Seq::empty(), action).cursor_y,
            pending_wrap: false,
            ..s
        }),
        s.csi(params, Seq::empty(), action).wf(),
        s.csi(params, Seq::empty(), action) == s.move_cursor(action, param1(params, 0), param1(params, 1)),
        s.csi(seq![seq![0u16]], Seq::empty(), action) == s.csi(Seq::empty(), Seq::empty(), action),
        s.csi(seq![seq![1u16]], Seq::empty(), action) == s.csi(Seq::empty(), Seq::empty(), action),
        action == 'A' ==> s.csi(params, Seq::empty(), action).cursor_y >= s.scroll_top,
        action == 'B' ==> s.csi(params, Seq::empty(), action).cursor_y <= s.scroll_bottom,
        (action == 'H' || action == 'f') && !s.origin_mode ==> s.csi(Seq::empty(), Seq::empty(), action).cursor_x == 0
            && s.csi(Seq::empty(), Seq::empty(), action).cursor_y == 0,
{
    let e: Seq<Seq<u16>> = Seq::empty();
    let z: Seq<Seq<u16>> = seq![seq![0u16]];
    let o: Seq<Seq<u16>> = seq![seq![1u16]];
    assert(param1(e, 0) == 1 && param1(e, 1) == 1);
    assert(param1(z, 0) == 1 && param1(z, 1) == 1);
    assert(param1(o, 0) == 1 && param1(o, 1) == 1);
    assert(param1(params, 0) >= 1 && param1(params, 1) >= 1);
}

/// Law: `CSI top ; bottom r` makes rows `top` to `bottom` (1-based; an
/// absent or zero top is the first row, an absent or zero bottom the last)
/// the scroll region when they hold at least two rows inside the screen,
/// and keeps the old region otherwise; either way the cursor goes home
/// (to the region's top in origin mode) and nothing else changes.
pub proof fn law_set_scroll_region(s: PerformerView, params: Seq<Seq<u16>>)
    requires
        s.wf(),
    ensures
        ({
            let r = s.csi(params, Seq::empty(), 'r');
            let t = param1(params, 0) - 1;
            let b = if param(params, 1) == 0 {
                s.rows - 1
            } else {
                param(params, 1) - 1
            };
            &&& (t < b && b < s.rows) ==> r.scroll_top == t && r.scroll_bottom == b
            &&& !(t < b && b < s.rows) ==> r.scroll_top == s.scroll_top && r.scroll_bottom
                == s.scroll_bottom
            &&& r == (PerformerView {
                scroll_top: r.scroll_top,
                scroll_bottom: r.scroll_bottom,
                cursor_x: 0,
                cursor_y: if s.origin_mode {
                    r.scroll_top
                } else {
                    0
                },
                pending_wrap: false,
                ..s
            })
            &&& r.wf()
        }),
{
}

/// Law: a code point of no width never moves the cursor, never sets or
/// clears a pending wrap and never touches the scrollback: it joins the
/// last printed cell or is dropped.
pub proof fn law_print_zero_width(s: PerformerView, c: char)
    requires
        s.wf(),
        spec_char_width(s.translate_char(c)) is None || spec_char_width(s.translate_char(c))
            == Some(0usize),
    ensures
        s.print(c).cursor_x == s.cursor_x,
        s.print(c).cursor_y == s.cursor_y,
        s.print(c).pending_wrap == s.pending_wrap,
        s.print(c).scrollback == s.scrollback,
        s.print(c).grid.len() == s.grid.len(),
{
    reveal(PerformerView::print);
    reveal(PerformerView::join_to_last_cell);
}

/// Pushing the cursor's row right by one blank cell keeps the shape and
/// touches only the grid.
proof fn lemma_shift_right_iterate(s: PerformerView, k: nat)
    requires
        s.wf(),
    ensures
        iterate(|t: PerformerView| t.shift_right_once(), s, k).wf(),
        iterate(|t: PerformerView| t.shift_right_once(), s, k) == (PerformerView {
            grid: iterate(|t: PerformerView| t.shift_right_once(), s, k).grid,
            ..s
        }),
    decreases k,
{
    let f = |t: PerformerView| t.shift_right_once();
    if k == 0 {
        lemma_iterate_zero(f, s);
    } else {
        lemma_iterate_step(f, s, k);
        reveal(PerformerView::shift_right_once);
        reveal(rows_have_len);
        let s1 = s.shift_right_once();
        assert(s.grid[s.cursor_y as int].len() == s.cols);
        assert(rows_have_len(s1.grid, s1.cols as nat));
        lemma_shift_right_iterate(s1, (k - 1) as nat);
    }
}

/// Law: a character two cells wide is never split over the end of a line.
/// It joins the last printed grapheme when it extends it (it follows a
/// joiner, or is a joiner, variation selector or skin-tone modifier) and
/// that cell can take it. Otherwise, once any pending wrap is carried out
/// and, in insert mode, the rest of the line pushed right, at the last
/// column it is dropped: the grid stays as it then is and, with auto wrap,
/// a wrap becomes pending. Before the last column it fills the cursor's
/// cell and the trailing half of it the cell to its right.
#[verifier::spinoff_prover]
#[verifier::rlimit(40)]
pub proof fn law_print_wide(s: PerformerView, c: char)
    requires
        s.wf(),
        spec_char_width(s.translate_char(c)) == Some(2usize),
    ensures
        ({
            let t = s.translate_char(c);
            let joins = (s.join_next_to_last_cell || t == '\u{200d}' || t == '\u{fe0e}' || t == '\u{fe0f}'
                || ('\u{1f3fb}' <= t && t <= '\u{1f3ff}')) && s.can_join();
            let w = s.wrap_if_pending();
            let v = w.insert_shift(2);
            let p = s.print(c);
            &&& joins ==> p == s.join_to_last_cell(t)
            &&& v.wf() && v == (PerformerView { grid: v.grid, ..w })
            &&& !s.insert_mode ==> v == w
            &&& !joins && v.cursor_x + 1 >= v.cols ==> p.grid == v.grid && p.cursor_x == v.cursor_x
                && p.cursor_y == v.cursor_y && p.pending_wrap == (v.auto_wrap || v.pending_wrap)
            &&& !joins && v.cursor_x + 1 < v.cols ==> p.grid[v.cursor_y as int][v.cursor_x as int]
                == v.printed_cell(t) && p.grid[v.cursor_y as int][v.cursor_x + 1] == v.continuation_cell()
                && p.grid[v.cursor_y as int][v.cursor_x + 1].wide_continuation && p.cursor_y == v.cursor_y
                && (if v.cursor_x + 2 < v.cols {
                p.cursor_x == v.cursor_x + 2 && p.pending_wrap == v.pending_wrap
            } else {
                p.cursor_x == v.cursor_x && p.pending_wrap
            })
        }),
{
    reveal(PerformerView::print);
    let w = s.wrap_if_pending();
    lemma_wrap_if_pending(s);
    reveal(rows_have_len);
    assert(w.grid[w.cursor_y as int].len() == w.cols);
    if w.insert_mode {
        let k = imin(2, w.grid[w.cursor_y as int].len() - w.cursor_x) as nat;
        lemma_shift_right_iterate(w, k);
    }
    let v = w.insert_shift(2);
    assert(v.grid[v.cursor_y as int].len() == v.cols);
}

/// Carrying out a pending wrap keeps the shape and touches only the grid,
/// the scrollback, the cursor and the pending flag.
proof fn lemma_wrap_if_pending(s: PerformerView)
    requires
        s.wf(),
    ensures
        s.wrap_if_pending().wf(),
        s.wrap_if_pending() == (PerformerView {
            grid: s.wrap_if_pending().grid,
            scrollback: s.wrap_if_pending().scrollback,
            cursor_x: s.wrap_if_pending().cursor_x,
            cursor_y: s.wrap_if_pending().cursor_y,
            pending_wrap: s.wrap_if_pending().pending_wrap,
            ..s
        }),
{
    if s.pending_wrap && s.auto_wrap && s.cursor_y + 1 > s.scroll_bottom {
        law_scroll_up(s.with_cursor(0, s.cursor_y as int), 1);
    }
}

/// `g` with its rows `top..=bottom` moved up `n` lines, `blank` rows
/// entering at the bottom of that region; the other rows stay.
pub open spec fn region_scrolled(g: Seq<Seq<CellView>>, top: int, bottom: int, n: int, blank: Seq<CellView>) -> Seq<Seq<CellView>> {
    Seq::new(
        g.len(),
        |i: int|
            if top <= i <= bottom {
                if i + n <= bottom {
                    g[i + n]
                } else {
                    blank
                }
            } else {
                g[i]
            },
    )
}

/// Keeping the last `m` items twice over keeps the last `m` of the whole.
proof fn lemma_keep_last_append<T>(a: Seq<T>, b: Seq<T>, m: nat)
    ensures
        keep_last(keep_last(a, m) + b, m) == keep_last(a + b, m),
{
    if a.len() > m {
        let k = keep_last(a, m);
        if b.len() == 0 {
            assert(k + b =~= k);
            assert(a + b =~= a);
        }
        assert(keep_last(k + b, m) =~= keep_last(a + b, m));
    }
}

/// One line of scrolling moves the region up by one.
proof fn lemma_scroll_up_once(s: PerformerView)
    requires
        s.wf(),
    ensures
        s.scroll_up_once() == (PerformerView {
            grid: region_scrolled(s.grid, s.scroll_top as int, s.scroll_bottom as int, 1, s.blank_row()),
            scrollback: s.scroll_up_once().scrollback,
            ..s
        }),
        s.scroll_up_once().wf(),
        s.scroll_top == 0 && s.scroll_bottom == s.rows - 1 ==> s.scroll_up_once().scrollback
            == keep_last(s.scrollback.push(s.grid[0]), MAX_SCROLLBACK as nat),
        !(s.scroll_top == 0 && s.scroll_bottom == s.rows - 1) ==> s.scroll_up_once().scrollback
            == s.scrollback,
{
    reveal(PerformerView::scroll_screen_once);
    reveal(PerformerView::scroll_region_once);
    reveal(rows_have_len);
    let g = s.grid;
    let r = region_scrolled(g, s.scroll_top as int, s.scroll_bottom as int, 1, s.blank_row());
    if s.scroll_top == 0 && s.scroll_bottom == s.rows - 1 {
        assert(g.drop_first().push(s.blank_row()) =~= r);
        let sb = s.scrollback.push(g[0]);
        if sb.len() > MAX_SCROLLBACK {
            assert(sb.drop_first() =~= keep_last(sb, MAX_SCROLLBACK as nat));
        }
    } else {
        let g1 = g.remove(s.scroll_top as int);
        assert(g1.insert(s.scroll_bottom as int, s.blank_row()) =~= r);
    }
    let t = s.scroll_up_once();
    assert(rows_have_len(t.grid, t.cols as nat));
}

/// Moving a region up one line and then `n - 1` more is moving it `n`.
proof fn lemma_region_scrolled_step(g: Seq<Seq<CellView>>, top: int, bottom: int, n: int, blank: Seq<CellView>)
    requires
        n >= 1,
        0 <= top <= bottom < g.len(),
    ensures
        region_scrolled(region_scrolled(g, top, bottom, 1, blank), top, bottom, n - 1, blank)
            == region_scrolled(g, top, bottom, n, blank),
{
    let g1 = region_scrolled(g, top, bottom, 1, blank);
    let a = region_scrolled(g1, top, bottom, n - 1, blank);
    let b = region_scrolled(g, top, bottom, n, blank);
    assert forall|i: int| 0 <= i < g.len() implies a[i] == b[i] by {
        if top <= i <= bottom && i + n - 1 <= bottom {
            assert(g1[i + n - 1] == (if i + n <= bottom { g[i + n] } else { blank }));
        }
    }
    assert(a =~= b);
}

/// The first `n` rows of a grid followed by blank rows: its first row, then
/// the first `n - 1` of the grid scrolled up once.
proof fn lemma_pushed_rows(g: Seq<Seq<CellView>>, blank: Seq<CellView>, n: nat)
    requires
        g.len() >= 1,
        n >= 1,
    ensures
        (g + Seq::new(n, |i: int| blank)).take(n as int) =~= seq![g[0]] + (g.drop_first().push(blank)
            + Seq::new((n - 1) as nat, |i: int| blank)).take(n - 1),
{
}

/// Law: scrolling up `n` lines moves the rows of the scroll region up `n`
/// places, blank rows in the current colors entering at its bottom, and
/// leaves the rows outside it alone. Only when the region is the whole
/// screen do the rows pushed off the top go to the scrollback, which keeps
/// its last `MAX_SCROLLBACK` rows; otherwise the scrollback is unchanged.
#[verifier::spinoff_prover]
#[verifier::rlimit(40)]
pub proof fn law_scroll_up(s: PerformerView, n: nat)
    requires
        s.wf(),
    ensures
        s.scroll_up(n) == (PerformerView {
            grid: region_scrolled(s.grid, s.scroll_top as int, s.scroll_bottom as int, n as int, s.blank_row()),
            scrollback: s.scroll_up(n).scrollback,
            ..s
        }),
        s.scroll_up(n).wf(),
        s.scroll_top == 0 && s.scroll_bottom == s.rows - 1 ==> s.scroll_up(n).scrollback == keep_last(
            s.scrollback + (s.grid + Seq::new(n, |i: int| s.blank_row())).take(n as int),
            MAX_SCROLLBACK as nat,
        ),
        !(s.scroll_top == 0 && s.scroll_bottom == s.rows - 1) ==> s.scroll_up(n).scrollback
            == s.scrollback,
    decreases n,
{
    let f = |t: PerformerView| t.scroll_up_once();
    if n == 0 {
        lemma_iterate_zero(f, s);
        assert(region_scrolled(s.grid, s.scroll_top as int, s.scroll_bottom as int, 0, s.blank_row()) =~= s.grid);
        assert(s.scrollback + (s.grid + Seq::new(n, |i: int| s.blank_row())).take(0) =~= s.scrollback);
    } else {
        lemma_iterate_step(f, s, n);
        lemma_scroll_up_once(s);
        let s1 = s.scroll_up_once();
        law_scroll_up(s1, (n - 1) as nat);
        lemma_region_scrolled_step(s.grid, s.scroll_top as int, s.scroll_bottom as int, n as int, s.blank_row());
        if s.scroll_top == 0 && s.scroll_bottom == s.rows - 1 {
            lemma_pushed_rows(s.grid, s.blank_row(), n);
            let p1 = (s1.grid + Seq::new((n - 1) as nat, |i: int| s1.blank_row())).take(n - 1);
            assert(s1.grid == s.grid.drop_first().push(s.blank_row()));
            lemma_keep_last_append(s.scrollback.push(s.grid[0]), p1, MAX_SCROLLBACK as nat);
            assert(s.scrollback.push(s.grid[0]) + p1 =~= s.scrollback + (s.grid + Seq::new(n, |i: int| s.blank_row())).take(n as int));
        }
    }
}

/// Law: entering the alternate screen keeps the normal screen and the
/// cursor aside; whatever is done on the alternate screen afterwards, as
/// long as the kept screen and cursor and the size stay as they were
/// (only a resize or a reset changes them), leaving brings back the
/// normal screen's contents, cursor, colors, style, origin mode and
/// charsets, with no wrap pending. Leaving when not on the alternate
/// screen changes nothing.
pub proof fn law_alt_screen_restores(s: PerformerView, t: PerformerView)
    requires
        s.wf(),
        !s.in_alt_screen,
        t.in_alt_screen,
        t.alt_grid == s.enter_alt_screen().alt_grid,
        t.alt_cursor == s.enter_alt_screen().alt_cursor,
        t.rows == s.rows,
        t.cols == s.cols,
    ensures
        s.enter_alt_screen().in_alt_screen,
        s.enter_alt_screen().alt_grid == Some(s.grid),
        s.enter_alt_screen().alt_cursor == Some(s.cursor_snapshot()),
        t.exit_alt_screen().grid == s.grid,
        t.exit_alt_screen().cursor_snapshot() == s.cursor_snapshot(),
        !t.exit_alt_screen().in_alt_screen,
        !t.exit_alt_screen().pending_wrap,
        t.exit_alt_screen().alt_grid is None,
        t.exit_alt_screen().alt_cursor is None,
        s.exit_alt_screen() == s,
{
    reveal(PerformerView::enter_alt_screen);
    reveal(PerformerView::restore_normal_grid);
    reveal(PerformerView::restore_alt_cursor);
    reveal(PerformerView::apply_saved);
    lemma_normalize_identity(s.grid, s.rows as nat, s.cols as nat, t.blank());
}

/// Law: resizing to `cols` x `rows` (at least one of each) gives a grid of
/// that shape whose cells inside both the old and the new size keep their
/// contents, the rest blank in the current colors; the scroll region
/// becomes the whole screen, the cursor stays on it, and there is one tab
/// stop flag per column, set at every eighth column and wherever one was
/// set before.
#[verifier::spinoff_prover]
pub proof fn law_resize(s: PerformerView, cols: usize, rows: usize)
    requires
        s.wf(),
        cols >= 1,
        rows >= 1,
    ensures
        s.resize(cols, rows).wf(),
        s.resize(cols, rows).cols == cols && s.resize(cols, rows).rows == rows,
        forall|r: int, c: int|
            0 <= r < rows && 0 <= c < cols ==> #[trigger] s.resize(cols, rows).grid[r][c] == (if r < s.rows
                && c < s.cols {
                s.grid[r][c]
            } else {
                s.blank()
            }),
        s.resize(cols, rows).scroll_top == 0 && s.resize(cols, rows).scroll_bottom == rows - 1,
        s.resize(cols, rows).tab_stops.len() == cols,
        forall|i: int|
            0 <= i < cols ==> (#[trigger] s.resize(cols, rows).tab_stops[i] == (i % 8 == 0 || (i < s.cols
                && s.tab_stops[i]))),
{
    reveal(PerformerView::resize);
    reveal(rows_have_len);
    let r = s.resize(cols, rows);
    assert forall|i: int, j: int| 0 <= i < rows && 0 <= j < cols implies #[trigger] r.grid[i][j] == (if i < s.rows
        && j < s.cols {
        s.grid[i][j]
    } else {
        s.blank()
    }) by {
        if i < s.rows {
            assert(s.grid[i].len() == s.cols);
        }
    }
}

/// Law: erasing in the line changes only the cursor's row, and in it only
/// the cells the mode names, which become blank in the current colors:
/// mode 0 from the cursor to the end of the line (the cells left of the
/// cursor keep their contents), mode 1 from the start of the line through
/// the cursor, mode 2 the whole line; any other mode changes nothing.
pub proof fn law_erase_in_line(s: PerformerView, mode: int)
    requires
        s.wf(),
    ensures
        s.erase_in_line(mode) == (PerformerView { grid: s.erase_in_line(mode).grid, ..s }),
        s.erase_in_line(mode).grid.len() == s.grid.len(),
        forall|r: int| 0 <= r < s.rows && r != s.cursor_y ==> #[trigger] s.erase_in_line(mode).grid[r] == s.grid[r],
        s.erase_in_line(mode).grid[s.cursor_y as int].len() == s.cols,
        forall|x: int|
            0 <= x < s.cols ==> #[trigger] s.erase_in_line(mode).grid[s.cursor_y as int][x] == (if (mode == 0
                && x >= s.cursor_x) || (mode == 1 && x <= s.cursor_x) || mode == 2 {
                blank_cell(s.current_fg, s.current_bg)
            } else {
                s.grid[s.cursor_y as int][x]
            }),
{
    reveal(rows_have_len);
    assert(s.grid[s.cursor_y as int].len() == s.cols);
}

/// Law: an SGR sequence with the single code `c` sets a color and leaves
/// everything else alone when `c` is a color code: `39` the default
/// foreground, `49` the default background, `30`-`37` and `90`-`97` the
/// foreground from the first and second eight palette entries, `40`-`47`
/// and `100`-`107` the background likewise. After any single code, `39`
/// brings back the default foreground and `49` the default background.
pub proof fn law_sgr_color_codes(s: PerformerView, c: u16, k: u16)
    requires
        s.wf(),
    ensures
        c == 39 ==> s.apply_sgr(seq![seq![c]]) == (PerformerView { current_fg: s.default_fg, ..s }),
        c == 49 ==> s.apply_sgr(seq![seq![c]]) == (PerformerView { current_bg: s.default_bg, ..s }),
        30 <= c <= 37 ==> s.apply_sgr(seq![seq![c]]) == (PerformerView {
            current_fg: s.palette_256[c - 30],
            ..s
        }),
        90 <= c <= 97 ==> s.apply_sgr(seq![seq![c]]) == (PerformerView {
            current_fg: s.palette_256[c - 82],
            ..s
        }),
        40 <= c <= 47 ==> s.apply_sgr(seq![seq![c]]) == (PerformerView {
            current_bg: s.palette_256[c - 40],
            ..s
        }),
        100 <= c <= 107 ==> s.apply_sgr(seq![seq![c]]) == (PerformerView {
            current_bg: s.palette_256[c - 92],
            ..s
        }),
        s.apply_sgr(seq![seq![k]]).apply_sgr(seq![seq![39u16]]).current_fg == s.default_fg,
        s.apply_sgr(seq![seq![k]]).apply_sgr(seq![seq![49u16]]).current_bg == s.default_bg,
{
    let g = seq![seq![c]];
    assert(s.sgr_code(g, 0).sgr_from(g, 1) == s.sgr_code(g, 0));
    let gk = seq![seq![k]];
    let t = s.apply_sgr(gk);
    assert(s.sgr_code(gk, 0).sgr_from(gk, 1) == s.sgr_code(gk, 0));
    let g39 = seq![seq![39u16]];
    assert(t.sgr_code(g39, 0).sgr_from(g39, 1) == t.sgr_code(g39, 0));
    let g49 = seq![seq![49u16]];
    assert(t.sgr_code(g49, 0).sgr_from(g49, 1) == t.sgr_code(g49, 0));
}

/// Law: erasing in the display with mode 0 blanks, in the current colors,
/// the cursor's row from the cursor on and every row below it, and leaves
/// the cells before the cursor and the rows above it alone; mode 1 blanks
/// every row above the cursor and its row through the cursor, and leaves
/// the rest. Neither moves the cursor or touches the scrollback.
pub proof fn law_erase_in_display_partial(s: PerformerView, mode: int)
    requires
        s.wf(),
        mode == 0 || mode == 1,
    ensures
        s.erase_in_display(mode) == (PerformerView { grid: s.erase_in_display(mode).grid, ..s }),
        s.erase_in_display(mode).grid.len() == s.grid.len(),
        forall|r: int, x: int|
            0 <= r < s.rows && 0 <= x < s.cols ==> #[trigger] s.erase_in_display(mode).grid[r][x] == (if (mode
                == 0 && (r > s.cursor_y || (r == s.cursor_y && x >= s.cursor_x))) || (mode == 1 && (r
                < s.cursor_y || (r == s.cursor_y && x <= s.cursor_x))) {
                blank_cell(s.current_fg, s.current_bg)
            } else {
                s.grid[r][x]
            }),
{
    reveal(rows_have_len);
    assert(s.grid[s.cursor_y as int].len() == s.cols);
    let e = s.erase_in_display(mode);
    assert forall|r: int, x: int| 0 <= r < s.rows && 0 <= x < s.cols implies #[trigger] e.grid[r][x] == (if (mode
        == 0 && (r > s.cursor_y || (r == s.cursor_y && x >= s.cursor_x))) || (mode == 1 && (r < s.cursor_y
        || (r == s.cursor_y && x <= s.cursor_x))) {
        blank_cell(s.current_fg, s.current_bg)
    } else {
        s.grid[r][x]
    }) by {
        assert(s.grid[r].len() == s.cols);
    }
}

/// Law: the control characters move the cursor as a terminal does. Carriage
/// return goes to the first column and backspace one column left (not past
/// the first), both on the same row. Line feed goes one row down in the
/// same column, or, on the bottom row of the scroll region, scrolls the
/// region up one line and stays. Tab goes right to the next tab stop, or to
/// the last column when there is none: no column it passes over is a stop.
/// None of them leaves a wrap pending but line feed at the region's bottom,
/// which keeps it.
pub proof fn law_control_characters(s: PerformerView)
    requires
        s.wf(),
    ensures
        s.execute_control(13) == (PerformerView { cursor_x: 0, pending_wrap: false, ..s }),
        s.execute_control(8) == (PerformerView {
            cursor_x: if s.cursor_x > 0 {
                (s.cursor_x - 1) as usize
            } else {
                0
            },
            pending_wrap: false,
            ..s
        }),
        s.cursor_y != s.scroll_bottom ==> s.execute_control(10) == (PerformerView {
            cursor_y: if s.cursor_y + 1 < s.rows {
                (s.cursor_y + 1) as usize
            } else {
                s.cursor_y
            },
            pending_wrap: false,
            ..s
        }),
        s.cursor_y == s.scroll_bottom ==> s.execute_control(10) == (PerformerView { pending_wrap: false, ..s }).scroll_up(1),
        s.execute_control(9).cursor_y == s.cursor_y && !s.execute_control(9).pending_wrap,
        s.cursor_x < s.execute_control(9).cursor_x < s.cols || s.execute_control(9).cursor_x == s.cols - 1,
        s.execute_control(9).cursor_x == s.cols - 1 || s.tab_stops[s.execute_control(9).cursor_x as int],
        forall|j: int| s.cursor_x < j < s.execute_control(9).cursor_x ==> !#[trigger] s.tab_stops[j],
{
    lemma_next_tab_stop_passes(s.tab_stops, s.cursor_x + 1, s.cols as int);
}

/// The next tab stop from `i` is at or after `i`, is a stop or the last
/// column, and no column before it from `i` on is a stop.
proof fn lemma_next_tab_stop_passes(stops: Seq<bool>, i: int, cols: int)
    requires
        cols >= 1,
        0 <= i,
        stops.len() == cols,
    ensures
        0 <= next_tab_stop(stops, i, cols) < cols,
        i < cols ==> i <= next_tab_stop(stops, i, cols),
        next_tab_stop(stops, i, cols) == cols - 1 || stops[next_tab_stop(stops, i, cols)],
        forall|j: int| i <= j < next_tab_stop(stops, i, cols) ==> !#[trigger] stops[j],
    decreases cols - i,
{
    if i >= cols {
    } else if stops[i] {
    } else {
        lemma_next_tab_stop_passes(stops, i + 1, cols);
    }
}

/// Law: each SGR attribute code sets or clears its own style bits and no
/// others, and touches nothing but the style: `1` bold, `2` dim, `3`
/// italic, `4` underline, `5`/`6` blink, `7` reverse, `8` hidden, `9`
/// strikethrough on; `22` bold and dim, `23`, `24`, `25`, `27`, `28`, `29`
/// the matching ones off.
pub proof fn law_sgr_style_codes(s: PerformerView, c: u16)
    requires
        s.wf(),
    ensures
        ({
            let a = s.apply_sgr(seq![seq![c]]);
            let on: u8 = if c == 1 {
                1
            } else if c == 2 {
                16
            } else if c == 3 {
                2
            } else if c == 4 {
                4
            } else if c == 5 || c == 6 {
                32
            } else if c == 7 {
                64
            } else if c == 8 {
                128
            } else if c == 9 {
                8
            } else {
                0
            };
            let off: u8 = if c == 22 || c == 21 {
                17
            } else if c == 23 {
                2
            } else if c == 24 {
                4
            } else if c == 25 {
                32
            } else if c == 27 {
                64
            } else if c == 28 {
                128
            } else if c == 29 {
                8
            } else {
                0
            };
            &&& 1 <= c <= 29 && c != 10 && c != 26 && !(11 <= c <= 20) ==> a == (PerformerView {
                current_style: a.current_style,
                ..s
            })
            &&& 1 <= c <= 9 ==> a.current_style == s.current_style | on
            &&& 21 <= c <= 29 && c != 26 ==> a.current_style == s.current_style & !off
        }),
{
    let g = seq![seq![c]];
    assert(s.sgr_code(g, 0).sgr_from(g, 1) == s.sgr_code(g, 0));
    assert((1u8 | 16u8) == 17u8) by (bit_vector);
    assert(BOLD == 1 && DIM == 16 && ITALIC == 2 && UNDERLINE == 4 && BLINK == 32 && REVERSE == 64
        && HIDDEN == 128 && STRIKETHROUGH == 8);
}

/// Law: the extended foreground codes pick their color: `38;5;n` the
/// palette entry `n` (255 for anything larger), `38;2;r;g;b` that color
/// with each part clamped to 255; and `48` likewise for the background.
pub proof fn law_sgr_extended_colors(s: PerformerView, n: u16, r: u16, g: u16, b: u16)
    requires
        s.wf(),
    ensures
        s.apply_sgr(seq![seq![38u16], seq![5u16], seq![n]]) == (PerformerView {
            current_fg: s.palette_256[if n <= 255 { n as int } else { 255 }],
            ..s
        }),
        s.apply_sgr(seq![seq![48u16], seq![5u16], seq![n]]) == (PerformerView {
            current_bg: s.palette_256[if n <= 255 { n as int } else { 255 }],
            ..s
        }),
        s.apply_sgr(seq![seq![38u16], seq![2u16], seq![r], seq![g], seq![b]]).current_fg == (Color {
            r: if r <= 255 { r as u8 } else { 255 },
            g: if g <= 255 { g as u8 } else { 255 },
            b: if b <= 255 { b as u8 } else { 255 },
            a: 255,
        }),
        s.apply_sgr(seq![seq![48u16], seq![2u16], seq![r], seq![g], seq![b]]).current_bg == (Color {
            r: if r <= 255 { r as u8 } else { 255 },
            g: if g <= 255 { g as u8 } else { 255 },
            b: if b <= 255 { b as u8 } else { 255 },
            a: 255,
        }),
{
    let p1 = seq![seq![38u16], seq![5u16], seq![n]];
    assert(s.sgr_code(p1, 0).sgr_from(p1, 3) == s.sgr_code(p1, 0));
    let p2 = seq![seq![48u16], seq![5u16], seq![n]];
    assert(s.sgr_code(p2, 0).sgr_from(p2, 3) == s.sgr_code(p2, 0));
    let p3 = seq![seq![38u16], seq![2u16], seq![r], seq![g], seq![b]];
    assert(s.sgr_code(p3, 0).sgr_from(p3, 5) == s.sgr_code(p3, 0));
    let p4 = seq![seq![48u16], seq![2u16], seq![r], seq![g], seq![b]];
    assert(s.sgr_code(p4, 0).sgr_from(p4, 5) == s.sgr_code(p4, 0));
}

/// `row` with `n` cells deleted at column `x`: the cells after them move
/// left and `blank` cells fill the end.
pub open spec fn row_deleted(row: Seq<CellView>, x: int, n: int, blank: CellView) -> Seq<CellView> {
    Seq::new(
        row.len(),
        |j: int|
            if j < x {
                row[j]
            } else if j + n < row.len() {
                row[j + n]
            } else {
                blank
            },
    )
}

/// `row` with `n` blank cells inserted at column `x`: the cells from `x`
/// move right and those pushed past the end are lost.
pub open spec fn row_inserted(row: Seq<CellView>, x: int, n: int, blank: CellView) -> Seq<CellView> {
    Seq::new(
        row.len(),
        |j: int|
            if j < x {
                row[j]
            } else if j < x + n {
                blank
            } else {
                row[j - n]
            },
    )
}

/// Law: deleting `n` characters (`CSI n P`) changes only the cursor's row:
/// the cells before the cursor stay, the cells after the deleted ones move
/// left by `n`, and blank cells in the current colors fill the end of the
/// line. The cursor does not move.
pub proof fn law_delete_characters(s: PerformerView, n: nat)
    requires
        s.wf(),
    ensures
        s.delete_characters(n) == s.with_row(
            s.cursor_y as int,
            row_deleted(s.grid[s.cursor_y as int], s.cursor_x as int, n as int, blank_cell(s.current_fg, s.current_bg)),
        ),
    decreases n,
{
    let f = |t: PerformerView| t.delete_character_once();
    let y = s.cursor_y as int;
    let b = blank_cell(s.current_fg, s.current_bg);
    reveal(rows_have_len);
    assert(s.grid[y].len() == s.cols);
    if n == 0 {
        lemma_iterate_zero(f, s);
        assert(row_deleted(s.grid[y], s.cursor_x as int, 0, b) =~= s.grid[y]);
        assert(s.grid.update(y, s.grid[y]) =~= s.grid);
    } else {
        lemma_iterate_step(f, s, n);
        reveal(PerformerView::delete_character_once);
        let s1 = s.delete_character_once();
        assert(s1.grid[y] =~= row_deleted(s.grid[y], s.cursor_x as int, 1, b));
        assert(rows_have_len(s1.grid, s1.cols as nat));
        law_delete_characters(s1, (n - 1) as nat);
        assert(row_deleted(s1.grid[y], s.cursor_x as int, n - 1, b) =~= row_deleted(s.grid[y], s.cursor_x as int, n as int, b));
        assert(s1.grid.update(y, row_deleted(s1.grid[y], s.cursor_x as int, n - 1, b)) =~= s.grid.update(
            y,
            row_deleted(s.grid[y], s.cursor_x as int, n as int, b),
        ));
    }
}

/// Law: inserting `n` blank characters (`CSI n @`) changes only the
/// cursor's row: the cells before the cursor stay, `n` blank cells in the
/// current colors appear at the cursor, and the cells from the cursor on
/// move right by `n`, those pushed past the end being lost. The cursor does
/// not move.
pub proof fn law_insert_blank_characters(s: PerformerView, n: nat)
    requires
        s.wf(),
    ensures
        s.insert_blank_characters(n) == s.with_row(
            s.cursor_y as int,
            row_inserted(s.grid[s.cursor_y as int], s.cursor_x as int, n as int, blank_cell(s.current_fg, s.current_bg)),
        ),
    decreases n,
{
    let f = |t: PerformerView| t.insert_blank_once();
    let y = s.cursor_y as int;
    let b = blank_cell(s.current_fg, s.current_bg);
    reveal(rows_have_len);
    assert(s.grid[y].len() == s.cols);
    if n == 0 {
        lemma_iterate_zero(f, s);
        assert(row_inserted(s.grid[y], s.cursor_x as int, 0, b) =~= s.grid[y]);
        assert(s.grid.update(y, s.grid[y]) =~= s.grid);
    } else {
        lemma_iterate_step(f, s, n);
        reveal(PerformerView::insert_blank_once);
        let s1 = s.insert_blank_once();
        assert(s1.grid[y] =~= row_inserted(s.grid[y], s.cursor_x as int, 1, b));
        assert(rows_have_len(s1.grid, s1.cols as nat));
        law_insert_blank_characters(s1, (n - 1) as nat);
        assert(row_inserted(s1.grid[y], s.cursor_x as int, n - 1, b) =~= row_inserted(s.grid[y], s.cursor_x as int, n as int, b));
        assert(s1.grid.update(y, row_inserted(s1.grid[y], s.cursor_x as int, n - 1, b)) =~= s.grid.update(
            y,
            row_inserted(s.grid[y], s.cursor_x as int, n as int, b),
        ));
    }
}

/// `g` with its rows `top..=bottom` moved down `n` places, `blank` rows
/// entering at the top of that range; the other rows stay.
pub open spec fn region_scrolled_down(g: Seq<Seq<CellView>>, top: int, bottom: int, n: int, blank: Seq<CellView>) -> Seq<
    Seq<CellView>,
> {
    Seq::new(
        g.len(),
        |i: int|
            if top <= i <= bottom {
                if i - n >= top {
                    g[i - n]
                } else {
                    blank
                }
            } else {
                g[i]
            },
    )
}

proof fn lemma_region_scrolled_down_step(g: Seq<Seq<CellView>>, top: int, bottom: int, n: int, blank: Seq<CellView>)
    requires
        n >= 1,
        0 <= top <= bottom < g.len(),
    ensures
        region_scrolled_down(region_scrolled_down(g, top, bottom, 1, blank), top, bottom, n - 1, blank)
            == region_scrolled_down(g, top, bottom, n, blank),
{
    let g1 = region_scrolled_down(g, top, bottom, 1, blank);
    let a = region_scrolled_down(g1, top, bottom, n - 1, blank);
    let b = region_scrolled_down(g, top, bottom, n, blank);
    assert forall|i: int| 0 <= i < g.len() implies a[i] == b[i] by {
        if top <= i <= bottom && i - (n - 1) >= top {
            assert(g1[i - (n - 1)] == (if i - n >= top { g[i - n] } else { blank }));
        }
    }
    assert(a =~= b);
}

/// Law: inserting `n` lines (`CSI n L`) with the cursor inside the scroll
/// region moves the rows from the cursor's row to the region's bottom down
/// `n` places, blank rows in the current colors entering at the cursor's
/// row and rows pushed past the region's bottom being lost; the rows
/// outside that range stay. Outside the region nothing moves. Either way
/// the cursor goes to the first column of its row.
#[verifier::spinoff_prover]
#[verifier::rlimit(100)]
pub proof fn law_insert_lines(s: PerformerView, n: nat)
    requires
        s.wf(),
    ensures
        s.scroll_top <= s.cursor_y <= s.scroll_bottom ==> s.insert_lines(n) == (PerformerView {
            grid: region_scrolled_down(s.grid, s.cursor_y as int, s.scroll_bottom as int, n as int, s.blank_row()),
            cursor_x: 0,
            pending_wrap: false,
            ..s
        }),
        !(s.scroll_top <= s.cursor_y <= s.scroll_bottom) ==> s.insert_lines(n) == (PerformerView {
            cursor_x: 0,
            pending_wrap: false,
            ..s
        }),
{
    if s.scroll_top <= s.cursor_y <= s.scroll_bottom {
        lemma_insert_lines_iter(s, n);
        let t = iterate(|u: PerformerView| u.insert_line_once(), s, n);
        assert(s.insert_lines(n) == t.with_cursor(0, t.cursor_y as int).no_pending());
    }
}

proof fn lemma_insert_lines_iter(s: PerformerView, n: nat)
    requires
        s.wf(),
        s.scroll_top <= s.cursor_y <= s.scroll_bottom,
    ensures
        iterate(|t: PerformerView| t.insert_line_once(), s, n) == (PerformerView {
            grid: region_scrolled_down(s.grid, s.cursor_y as int, s.scroll_bottom as int, n as int, s.blank_row()),
            ..s
        }),
    decreases n,
{
    let f = |t: PerformerView| t.insert_line_once();
    if n == 0 {
        lemma_iterate_zero(f, s);
        assert(region_scrolled_down(s.grid, s.cursor_y as int, s.scroll_bottom as int, 0, s.blank_row()) =~= s.grid);
    } else {
        lemma_iterate_step(f, s, n);
        reveal(PerformerView::insert_line_once);
        reveal(rows_have_len);
        let s1 = s.insert_line_once();
        let g1 = s.grid.remove(s.scroll_bottom as int);
        assert(g1.insert(s.cursor_y as int, s.blank_row()) =~= region_scrolled_down(
            s.grid,
            s.cursor_y as int,
            s.scroll_bottom as int,
            1,
            s.blank_row(),
        ));
        assert(rows_have_len(s1.grid, s1.cols as nat));
        lemma_insert_lines_iter(s1, (n - 1) as nat);
        lemma_region_scrolled_down_step(s.grid, s.cursor_y as int, s.scroll_bottom as int, n as int, s.blank_row());
    }
}

/// Law: deleting `n` lines (`CSI n M`) with the cursor inside the scroll
/// region moves the rows below the cursor's row up `n` places, dropping the
/// deleted ones, with blank rows in the current colors entering at the
/// bottom of the range; the range runs from the cursor's row to the row
/// below the region's bottom (the region's bottom when that is the last
/// row), and the rows outside it stay. The cursor goes to the first column
/// of its row.
pub proof fn law_delete_lines(s: PerformerView, n: nat)
    requires
        s.wf(),
        s.scroll_top <= s.cursor_y <= s.scroll_bottom,
    ensures
        s.delete_lines(n).grid == region_scrolled(
            s.grid,
            s.cursor_y as int,
            if s.scroll_bottom + 1 < s.rows {
                s.scroll_bottom + 1
            } else {
                s.scroll_bottom as int
            },
            n as int,
            s.blank_row(),
        ),
        s.delete_lines(n) == (PerformerView { grid: s.delete_lines(n).grid, cursor_x: 0, pending_wrap: false, ..s }),
{
    lemma_delete_lines_iter(s, n);
}

proof fn lemma_delete_lines_iter(s: PerformerView, n: nat)
    requires
        s.wf(),
        s.scroll_top <= s.cursor_y <= s.scroll_bottom,
    ensures
        iterate(|t: PerformerView| t.delete_line_once(), s, n) == (PerformerView {
            grid: region_scrolled(
                s.grid,
                s.cursor_y as int,
                if s.scroll_bottom + 1 < s.rows {
                    s.scroll_bottom + 1
                } else {
                    s.scroll_bottom as int
                },
                n as int,
                s.blank_row(),
            ),
            ..s
        }),
    decreases n,
{
    let f = |t: PerformerView| t.delete_line_once();
    let bot = if s.scroll_bottom + 1 < s.rows {
        s.scroll_bottom + 1
    } else {
        s.scroll_bottom as int
    };
    if n == 0 {
        lemma_iterate_zero(f, s);
        assert(region_scrolled(s.grid, s.cursor_y as int, bot, 0, s.blank_row()) =~= s.grid);
    } else {
        lemma_iterate_step(f, s, n);
        reveal(PerformerView::delete_line_once);
        reveal(rows_have_len);
        let s1 = s.delete_line_once();
        let g1 = s.grid.remove(s.cursor_y as int);
        assert(g1.insert(bot, s.blank_row()) =~= region_scrolled(s.grid, s.cursor_y as int, bot, 1, s.blank_row()));
        assert(rows_have_len(s1.grid, s1.cols as nat));
        lemma_delete_lines_iter(s1, (n - 1) as nat);
        lemma_region_scrolled_step(s.grid, s.cursor_y as int, bot, n as int, s.blank_row());
    }
}

} // verus!
