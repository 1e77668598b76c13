use vstd::prelude::*;

use crate::appearance::{
    contrast_text_color, effective_colors, glyph_color, spec_contrast_text_color, spec_effective_colors,
    spec_glyph_color,
};
use crate::cell::{opt_text, spec_display_text, spec_is_blank, Cell, CellView};
use crate::color::{spec_rgb, Color};
use crate::history::row_cells;
use crate::performer::model::{BOLD, ITALIC, UNDERLINE};
use crate::text::{chars_of, string_from_chars};

verus! {

/// Two cells draw the same: same glyph, colors, style, link and hover.
/// (Selection marks are redrawn whenever the selection changes, so they do
/// not count here.)
pub open spec fn same_look(a: CellView, b: CellView) -> bool {
    &&& a.c == b.c
    &&& a.wide_continuation == b.wide_continuation
    &&& a.text == b.text
    &&& a.hyperlink == b.hyperlink
    &&& a.is_link_hovered == b.is_link_hovered
    &&& a.fg == b.fg
    &&& a.bg == b.bg
    &&& a.style == b.style
}

/// Two rows draw the same, cell by cell.
pub open spec fn same_row_look(a: Seq<CellView>, b: Seq<CellView>) -> bool {
    a.len() == b.len() && forall|i: int| 0 <= i < a.len() ==> same_look(#[trigger] a[i], b[i])
}

fn same_hyperlink(a: &Option<String>, b: &Option<String>) -> (r: bool)
    ensures
        r == (opt_text(*a) == opt_text(*b)),
{
    match (a, b) {
        (Some(x), Some(y)) => *x == *y,
        (None, None) => true,
        _ => false,
    }
}

fn cells_look_same(a: &Cell, b: &Cell) -> (r: bool)
    ensures
        r == same_look(a@, b@),
{
    a.c == b.c && a.wide_continuation == b.wide_continuation && a.text == b.text && same_hyperlink(
        &a.hyperlink,
        &b.hyperlink,
    ) && a.is_link_hovered == b.is_link_hovered && a.fg == b.fg && a.bg == b.bg && a.style == b.style
}

/// Whether two rows draw the same.
pub fn rows_look_same(a: &Vec<Cell>, b: &Vec<Cell>) -> (r: bool)
    ensures
        r == same_row_look(row_cells(*a), row_cells(*b)),
{
    if a.len() != b.len() {
        return false;
    }
    let mut i: usize = 0;
    while i < a.len()
        invariant
            i <= a@.len(),
            a@.len() == b@.len(),
            forall|j: int| 0 <= j < i ==> same_look(#[trigger] row_cells(*a)[j], row_cells(*b)[j]),
        decreases a@.len() - i,
    {
        if !cells_look_same(&a[i], &b[i]) {
            assert(!same_look(row_cells(*a)[i as int], row_cells(*b)[i as int]));
            return false;
        }
        i = i + 1;
    }
    true
}

/// Which rows of a frame must be drawn again, and what must be rebuilt.
pub struct RedrawPlan {
    /// Rows whose cells changed.
    pub content_dirty: Vec<bool>,
    /// Whether any row is to be drawn again (changed, or touched by the
    /// cursor).
    pub any_dirty: bool,
    /// Whether any row's cells changed.
    pub any_content_dirty: bool,
    /// Whether the text layer is to be rebuilt.
    pub needs_text_rebuild: bool,
}

/// Whether row `i` changed: everything when rebuilding from scratch or when
/// told that the content changed, else by comparing with the last frame.
pub open spec fn row_changed(
    last: Seq<Seq<CellView>>,
    rows: Seq<Seq<CellView>>,
    full_rebuild: bool,
    content_hint: bool,
    i: int,
) -> bool {
    full_rebuild || content_hint || !same_row_look(last[i], rows[i])
}

/// Whether row `i` is drawn again: changed, or the row the cursor left or
/// entered when it moved (only when comparing rows one by one).
pub open spec fn row_dirty(
    last: Seq<Seq<CellView>>,
    rows: Seq<Seq<CellView>>,
    full_rebuild: bool,
    content_hint: bool,
    cursor_changed: bool,
    old_cursor_row: Option<usize>,
    new_cursor_row: Option<usize>,
    i: int,
) -> bool {
    row_changed(last, rows, full_rebuild, content_hint, i) || (!full_rebuild && !content_hint && cursor_changed && (
    old_cursor_row == Some(i as usize) || new_cursor_row == Some(i as usize)))
}

/// The redraw plan for `rows` against the `last` frame. A block cursor
/// recolors the glyph under it, so the text is rebuilt when it moves while
/// drawn as a block (before or after).
pub open spec fn plan_ok(
    plan_dirty: Seq<bool>,
    any_dirty: bool,
    any_content_dirty: bool,
    needs_text_rebuild: bool,
    last: Seq<Seq<CellView>>,
    rows: Seq<Seq<CellView>>,
    full_rebuild: bool,
    content_hint: bool,
    cursor_changed: bool,
    old_cursor_row: Option<usize>,
    new_cursor_row: Option<usize>,
    block_cursor_involved: bool,
) -> bool {
    let n = rows.len() as int;
    let dirty = exists|i: int|
        0 <= i < n && #[trigger] row_dirty(
            last,
            rows,
            full_rebuild,
            content_hint,
            cursor_changed,
            old_cursor_row,
            new_cursor_row,
            i,
        );
    let changed = exists|i: int| 0 <= i < n && #[trigger] row_changed(last, rows, full_rebuild, content_hint, i);
    &&& plan_dirty.len() == n
    &&& forall|i: int|
        0 <= i < n ==> plan_dirty[i] == #[trigger] row_changed(last, rows, full_rebuild, content_hint, i)
    &&& any_dirty == dirty
    &&& any_content_dirty == (dirty && changed)
    &&& needs_text_rebuild == (dirty && (changed || (cursor_changed && block_cursor_involved)))
}

/// Plans which rows of `rows` to draw again against the `last` frame.
pub fn plan_redraw(
    last: &Vec<Vec<Cell>>,
    rows: &[&Vec<Cell>],
    full_rebuild: bool,
    content_hint: bool,
    cursor_changed: bool,
    old_cursor_row: Option<usize>,
    new_cursor_row: Option<usize>,
    block_cursor_involved: bool,
) -> (r: RedrawPlan)
    requires
        last@.len() == rows@.len(),
    ensures
        plan_ok(
            r.content_dirty@,
            r.any_dirty,
            r.any_content_dirty,
            r.needs_text_rebuild,
            last@.map_values(|v: Vec<Cell>| row_cells(v)),
            rows@.map_values(|v: &Vec<Cell>| row_cells(*v)),
            full_rebuild,
            content_hint,
            cursor_changed,
            old_cursor_row,
            new_cursor_row,
            block_cursor_involved,
        ),
{
    let ghost lv = last@.map_values(|v: Vec<Cell>| row_cells(v));
    let ghost rv = rows@.map_values(|v: &Vec<Cell>| row_cells(*v));
    let n = rows.len();
    let mut content_dirty: Vec<bool> = Vec::new();
    let mut any_dirty = false;
    let mut any_changed = false;
    let mut i: usize = 0;
    while i < n
        invariant
            i <= n,
            n == rows@.len(),
            last@.len() == n,
            lv == last@.map_values(|v: Vec<Cell>| row_cells(v)),
            rv == rows@.map_values(|v: &Vec<Cell>| row_cells(*v)),
            content_dirty@.len() == i,
            forall|j: int|
                0 <= j < i ==> content_dirty@[j] == #[trigger] row_changed(lv, rv, full_rebuild, content_hint, j),
            any_changed == exists|j: int| 0 <= j < i && #[trigger] row_changed(lv, rv, full_rebuild, content_hint, j),
            any_dirty == exists|j: int|
                0 <= j < i && #[trigger] row_dirty(
                    lv,
                    rv,
                    full_rebuild,
                    content_hint,
                    cursor_changed,
                    old_cursor_row,
                    new_cursor_row,
                    j,
                ),
        decreases n - i,
    {
        let changed = full_rebuild || content_hint || !rows_look_same(&last[i], rows[i]);
        let touched = !full_rebuild && !content_hint && cursor_changed && (match old_cursor_row {
            Some(r) => r == i,
            None => false,
        } || match new_cursor_row {
            Some(r) => r == i,
            None => false,
        });
        proof {
            assert(lv[i as int] == row_cells(last@[i as int]));
            assert(rv[i as int] == row_cells(*rows@[i as int]));
            assert(changed == row_changed(lv, rv, full_rebuild, content_hint, i as int));
            assert((changed || touched) == row_dirty(
                lv,
                rv,
                full_rebuild,
                content_hint,
                cursor_changed,
                old_cursor_row,
                new_cursor_row,
                i as int,
            ));
        }
        content_dirty.push(changed);
        any_changed = any_changed || changed;
        any_dirty = any_dirty || changed || touched;
        i = i + 1;
    }
    if !any_dirty {
        return RedrawPlan { content_dirty, any_dirty: false, any_content_dirty: false, needs_text_rebuild: false };
    }
    let needs_text_rebuild = any_changed || (cursor_changed && block_cursor_involved);
    RedrawPlan { content_dirty, any_dirty: true, any_content_dirty: any_changed, needs_text_rebuild }
}

/// Copies into the last frame the rows that changed (and any row it does
/// not hold yet), so that the next frame compares against what was drawn.
pub fn remember_rows(last: &mut Vec<Vec<Cell>>, rows: &[&Vec<Cell>], content_dirty: &Vec<bool>)
    requires
        old(last)@.len() == rows@.len(),
    ensures
        final(last)@.len() == rows@.len(),
        forall|i: int|
            0 <= i < rows@.len() ==> row_cells(#[trigger] final(last)@[i]) == (if i < content_dirty@.len()
                && !content_dirty@[i] {
                row_cells(old(last)@[i])
            } else {
                row_cells(*rows@[i])
            }),
{
    let n = rows.len();
    let mut i: usize = 0;
    while i < n
        invariant
            i <= n,
            n == rows@.len(),
            last@.len() == n,
            forall|j: int|
                0 <= j < n ==> row_cells(#[trigger] last@[j]) == (if j < i && !(j < content_dirty@.len()
                    && !content_dirty@[j]) {
                    row_cells(*rows@[j])
                } else {
                    row_cells(old(last)@[j])
                }),
        decreases n - i,
    {
        let keep = i < content_dirty.len() && !content_dirty[i];
        if !keep {
            let row = rows[i];
            let mut copy: Vec<Cell> = Vec::new();
            let mut k: usize = 0;
            while k < row.len()
                invariant
                    k <= row@.len(),
                    copy@.len() == k,
                    forall|m: int| 0 <= m < k ==> (#[trigger] copy@[m])@ == row@[m]@,
                decreases row@.len() - k,
            {
                copy.push(row[k].duplicate());
                k = k + 1;
            }
            assert(row_cells(copy) =~= row_cells(*row));
            last.set(i, copy);
        }
        i = i + 1;
    }
}

/// How a run of terminal text is drawn.
#[derive(Clone, Copy, PartialEq, Eq, Structural, Debug)]
pub struct GlyphStyle {
    pub color: Color,
    pub bold: bool,
    pub italic: bool,
}

/// A run of text drawn in one style.
pub struct TextSpan {
    pub text: String,
    pub style: GlyphStyle,
}

pub open spec fn span_view(s: TextSpan) -> (Seq<char>, GlyphStyle) {
    (s.text@, s.style)
}

pub open spec fn spans_view(v: Seq<TextSpan>) -> Seq<(Seq<char>, GlyphStyle)> {
    v.map_values(|s: TextSpan| span_view(s))
}

/// The text color of the cell at (`col`, `row`): the inverse of the block
/// cursor's color under the cursor, else the cell's own text color.
pub open spec fn cell_text_color(cell: CellView, row: int, col: int, cursor: Option<(usize, usize, Color)>) -> Color {
    let own = spec_effective_colors(cell.is_selected, cell.style, cell.fg, cell.bg).0;
    match cursor {
        Some(c) => if c.1 == row && c.0 == col {
            spec_contrast_text_color(c.2)
        } else {
            own
        },
        None => own,
    }
}

/// The style of a cell's glyph drawn with text color `color`.
pub open spec fn spec_glyph_style(cell: CellView, color: Color) -> GlyphStyle {
    GlyphStyle {
        color: spec_glyph_color(cell.style, color, cell.bg),
        bold: cell.style & BOLD != 0,
        italic: cell.style & ITALIC != 0,
    }
}

/// The style of a span that holds only line breaks.
pub open spec fn newline_style() -> GlyphStyle {
    GlyphStyle { color: spec_rgb(255, 255, 255), bold: false, italic: false }
}

/// `spans` with text `t` in style `st` added: joined to the last span when
/// that has the same style, else as a new span.
pub open spec fn spec_push_piece(spans: Seq<(Seq<char>, GlyphStyle)>, t: Seq<char>, st: GlyphStyle) -> Seq<
    (Seq<char>, GlyphStyle),
> {
    if spans.len() > 0 && spans.last().1 == st {
        spans.update(spans.len() - 1, (spans.last().0 + t, st))
    } else {
        spans.push((t, st))
    }
}

/// `spans` with a line break added to the last span, or as a span of its
/// own when there is none.
pub open spec fn spec_newline(spans: Seq<(Seq<char>, GlyphStyle)>) -> Seq<(Seq<char>, GlyphStyle)> {
    if spans.len() > 0 {
        spans.update(spans.len() - 1, (spans.last().0.push('\n'), spans.last().1))
    } else {
        seq![(seq!['\n'], newline_style())]
    }
}

/// The cells of `row` up to its last non-blank one.
pub open spec fn spec_visible_len(row: Seq<CellView>) -> nat
    decreases row.len(),
{
    if row.len() == 0 {
        0
    } else if !spec_is_blank(row.last()) {
        row.len()
    } else {
        spec_visible_len(row.drop_last())
    }
}

/// `spans` with the first `k` cells of `row` (row `r` of the view) added.
pub open spec fn spec_cells_spans(
    spans: Seq<(Seq<char>, GlyphStyle)>,
    row: Seq<CellView>,
    r: int,
    cursor: Option<(usize, usize, Color)>,
    k: nat,
) -> Seq<(Seq<char>, GlyphStyle)>
    decreases k,
{
    if k == 0 {
        spans
    } else {
        let s1 = spec_cells_spans(spans, row, r, cursor, (k - 1) as nat);
        let cell = row[k - 1];
        let t = spec_display_text(cell);
        if t.len() == 0 {
            s1
        } else {
            spec_push_piece(s1, t, spec_glyph_style(cell, cell_text_color(cell, r, k - 1, cursor)))
        }
    }
}

/// The spans of the first `m` of `rows`: each row's cells up to its last
/// non-blank one, rows separated by line breaks.
pub open spec fn spec_rows_spans(
    rows: Seq<Seq<CellView>>,
    cursor: Option<(usize, usize, Color)>,
    m: nat,
) -> Seq<(Seq<char>, GlyphStyle)>
    decreases m,
{
    if m == 0 {
        Seq::empty()
    } else {
        let s = spec_rows_spans(rows, cursor, (m - 1) as nat);
        let row = rows[m - 1];
        let s2 = spec_cells_spans(s, row, m - 1, cursor, spec_visible_len(row));
        if m < rows.len() {
            spec_newline(s2)
        } else {
            s2
        }
    }
}

proof fn lemma_visible_len_bound(row: Seq<CellView>)
    ensures
        spec_visible_len(row) <= row.len(),
    decreases row.len(),
{
    if row.len() > 0 {
        lemma_visible_len_bound(row.drop_last());
    }
}

/// The number of cells of `row` up to its last non-blank one.
pub fn visible_len(row: &Vec<Cell>) -> (r: usize)
    ensures
        r == spec_visible_len(row_cells(*row)),
        r <= row@.len(),
{
    proof {
        lemma_visible_len_bound(row_cells(*row));
    }
    let mut n = row.len();
    assert(row_cells(*row).subrange(0, n as int) =~= row_cells(*row));
    while n > 0 && row[n - 1].is_blank()
        invariant
            n <= row@.len(),
            spec_visible_len(row_cells(*row)) == spec_visible_len(row_cells(*row).subrange(0, n as int)),
        decreases n,
    {
        let ghost cells = row_cells(*row).subrange(0, n as int);
        assert(cells.drop_last() =~= row_cells(*row).subrange(0, n - 1));
        n = n - 1;
    }
    proof {
        let cells = row_cells(*row).subrange(0, n as int);
        if n > 0 {
            assert(cells.last() == row@[n - 1]@);
        }
    }
    n
}

/// Spans built so far: the finished ones and the one still open.
struct SpanBuilder {
    done: Vec<TextSpan>,
    text: Vec<char>,
    style: GlyphStyle,
    open: bool,
}

impl SpanBuilder {
    spec fn view(&self) -> Seq<(Seq<char>, GlyphStyle)> {
        spans_view(self.done@) + if self.open {
            seq![(self.text@, self.style)]
        } else {
            Seq::empty()
        }
    }

    spec fn wf(&self) -> bool {
        !self.open ==> self.done@.len() == 0
    }

    fn push_piece(&mut self, t: &Vec<char>, st: GlyphStyle)
        requires
            old(self).wf(),
        ensures
            final(self).wf(),
            final(self).view() == spec_push_piece(old(self).view(), t@, st),
    {
        let ghost v0 = self.view();
        if self.open && self.style == st {
            let mut i: usize = 0;
            let ghost base = self.text@;
            let ghost d0 = self.done@;
            while i < t.len()
                invariant
                    i <= t@.len(),
                    self.text@ == base + t@.subrange(0, i as int),
                    self.done@ == d0,
                    self.style == st,
                    self.open,
                decreases t@.len() - i,
            {
                self.text.push(t[i]);
                assert(t@.subrange(0, i + 1) =~= t@.subrange(0, i as int).push(t@[i as int]));
                i = i + 1;
            }
            assert(t@.subrange(0, t@.len() as int) =~= t@);
            assert(self.view() =~= spec_push_piece(v0, t@, st));
        } else {
            if self.open {
                let finished = TextSpan { text: string_from_chars(self.text.as_slice()), style: self.style };
                self.done.push(finished);
            }
            let mut fresh: Vec<char> = Vec::new();
            let mut i: usize = 0;
            while i < t.len()
                invariant
                    i <= t@.len(),
                    fresh@ == t@.subrange(0, i as int),
                decreases t@.len() - i,
            {
                fresh.push(t[i]);
                assert(t@.subrange(0, i + 1) =~= t@.subrange(0, i as int).push(t@[i as int]));
                i = i + 1;
            }
            assert(t@.subrange(0, t@.len() as int) =~= t@);
            self.text = fresh;
            self.style = st;
            self.open = true;
            assert(self.view() =~= spec_push_piece(v0, t@, st));
        }
    }

    fn newline(&mut self)
        requires
            old(self).wf(),
        ensures
            final(self).wf(),
            final(self).view() == spec_newline(old(self).view()),
    {
        let ghost v0 = self.view();
        if self.open {
            self.text.push('\n');
        } else {
            let mut fresh: Vec<char> = Vec::new();
            fresh.push('\n');
            self.text = fresh;
            self.style = GlyphStyle { color: Color::rgb(255, 255, 255), bold: false, italic: false };
            self.open = true;
        }
        assert(self.view() =~= spec_newline(v0));
    }

    fn finish(self) -> (r: Vec<TextSpan>)
        ensures
            spans_view(r@) == self.view(),
    {
        let mut done = self.done;
        if self.open {
            let last = TextSpan { text: string_from_chars(self.text.as_slice()), style: self.style };
            done.push(last);
        }
        assert(spans_view(done@) =~= self.view());
        done
    }
}

/// The glyph style of `cell` at (`col`, `row`) with the block cursor
/// `cursor`.
fn cell_glyph_style(cell: &Cell, row: usize, col: usize, cursor: Option<(usize, usize, Color)>) -> (r: GlyphStyle)
    ensures
        r == spec_glyph_style(cell@, cell_text_color(cell@, row as int, col as int, cursor)),
{
    let color = match cursor {
        Some(c) => {
            if c.1 == row && c.0 == col {
                contrast_text_color(c.2)
            } else {
                effective_colors(cell).0
            }
        },
        None => effective_colors(cell).0,
    };
    GlyphStyle { color: glyph_color(cell, color), bold: cell.style & BOLD != 0, italic: cell.style & ITALIC != 0 }
}

/// The text layer of a frame: the shown rows' text as runs of one style,
/// each row up to its last non-blank cell and rows joined by line breaks;
/// the glyph under a block cursor (column, row, color) takes the color that
/// contrasts with the cursor.
pub fn text_spans(rows: &[&Vec<Cell>], cursor: Option<(usize, usize, Color)>) -> (r: Vec<TextSpan>)
    ensures
        spans_view(r@) == spec_rows_spans(
            rows@.map_values(|v: &Vec<Cell>| row_cells(*v)),
            cursor,
            rows@.len(),
        ),
{
    let ghost rv = rows@.map_values(|v: &Vec<Cell>| row_cells(*v));
    let mut b = SpanBuilder {
        done: Vec::new(),
        text: Vec::new(),
        style: GlyphStyle { color: Color::rgb(255, 255, 255), bold: false, italic: false },
        open: false,
    };
    assert(b.view() =~= Seq::<(Seq<char>, GlyphStyle)>::empty());
    let n = rows.len();
    let mut i: usize = 0;
    while i < n
        invariant
            i <= n,
            n == rows@.len(),
            rv == rows@.map_values(|v: &Vec<Cell>| row_cells(*v)),
            b.wf(),
            b.view() == spec_rows_spans(rv, cursor, i as nat),
        decreases n - i,
    {
        let row = rows[i];
        assert(rv[i as int] == row_cells(*row));
        let vis = visible_len(row);
        let ghost s = b.view();
        let mut k: usize = 0;
        while k < vis
            invariant
                k <= vis,
                vis == spec_visible_len(row_cells(*row)),
                vis <= row@.len(),
                b.wf(),
                b.view() == spec_cells_spans(s, row_cells(*row), i as int, cursor, k as nat),
            decreases vis - k,
        {
            let cell = &row[k];
            assert(row_cells(*row)[k as int] == cell@);
            let t = chars_of(cell.display_text());
            if t.len() > 0 {
                let st = cell_glyph_style(cell, i, k, cursor);
                b.push_piece(&t, st);
            }
            k = k + 1;
        }
        if i + 1 < n {
            b.newline();
        }
        i = i + 1;
    }
    b.finish()
}

/// A run of cells in one row: first column, number of cells, color.
pub type CellRun = (usize, usize, Color);

/// `runs` with the cell at column `k` in color `c` added: the last run
/// grows when it ends just before `k` in the same color, else a new run
/// starts.
pub open spec fn spec_extend_run(runs: Seq<CellRun>, k: int, c: Color) -> Seq<CellRun> {
    if runs.len() > 0 && runs.last().2 == c && runs.last().0 + runs.last().1 == k {
        runs.update(runs.len() - 1, (runs.last().0, (runs.last().1 + 1) as usize, c))
    } else {
        runs.push((k as usize, 1usize, c))
    }
}

/// The runs of equal background color among the first `k` cells of `row`.
pub open spec fn spec_background_runs(row: Seq<CellView>, k: nat) -> Seq<CellRun>
    decreases k,
{
    if k == 0 {
        Seq::empty()
    } else {
        let cell = row[k - 1];
        spec_extend_run(
            spec_background_runs(row, (k - 1) as nat),
            k - 1,
            spec_effective_colors(cell.is_selected, cell.style, cell.fg, cell.bg).1,
        )
    }
}

/// Whether a cell is drawn underlined: underline style, or a hovered link.
pub open spec fn is_underlined(cell: CellView) -> bool {
    cell.is_link_hovered || cell.style & UNDERLINE != 0
}

/// The runs of underlined cells of one text color among the first `k`
/// cells of `row`.
pub open spec fn spec_underline_runs(row: Seq<CellView>, k: nat) -> Seq<CellRun>
    decreases k,
{
    if k == 0 {
        Seq::empty()
    } else {
        let cell = row[k - 1];
        let r = spec_underline_runs(row, (k - 1) as nat);
        if is_underlined(cell) {
            spec_extend_run(r, k - 1, spec_effective_colors(cell.is_selected, cell.style, cell.fg, cell.bg).0)
        } else {
            r
        }
    }
}

pub open spec fn runs_within(runs: Seq<CellRun>, k: int) -> bool {
    forall|i: int| 0 <= i < runs.len() ==> (#[trigger] runs[i]).0 + runs[i].1 <= k
}

fn extend_run(runs: &mut Vec<CellRun>, k: usize, c: Color)
    requires
        runs_within(old(runs)@, k as int),
        k < usize::MAX,
    ensures
        final(runs)@ == spec_extend_run(old(runs)@, k as int, c),
        runs_within(final(runs)@, k + 1),
{
    let n = runs.len();
    if n > 0 {
        let (s, l, lc) = runs[n - 1];
        assert(runs@[n - 1] == runs@.last());
        if lc == c && s + l == k {
            runs.set(n - 1, (s, l + 1, c));
            return;
        }
    }
    runs.push((k, 1, c));
}

/// The runs of equal background color along `row`, left to right.
pub fn background_runs(row: &Vec<Cell>) -> (r: Vec<CellRun>)
    ensures
        r@ == spec_background_runs(row_cells(*row), row@.len()),
{
    let mut runs: Vec<CellRun> = Vec::new();
    let mut k: usize = 0;
    while k < row.len()
        invariant
            k <= row@.len(),
            runs@ == spec_background_runs(row_cells(*row), k as nat),
            runs_within(runs@, k as int),
        decreases row@.len() - k,
    {
        assert(row_cells(*row)[k as int] == row@[k as int]@);
        let bg = effective_colors(&row[k]).1;
        extend_run(&mut runs, k, bg);
        k = k + 1;
    }
    runs
}

/// The runs of underlined cells of one text color along `row`.
pub fn underline_runs(row: &Vec<Cell>) -> (r: Vec<CellRun>)
    ensures
        r@ == spec_underline_runs(row_cells(*row), row@.len()),
{
    let mut runs: Vec<CellRun> = Vec::new();
    let mut k: usize = 0;
    while k < row.len()
        invariant
            k <= row@.len(),
            runs@ == spec_underline_runs(row_cells(*row), k as nat),
            runs_within(runs@, k as int),
        decreases row@.len() - k,
    {
        let cell = &row[k];
        assert(row_cells(*row)[k as int] == cell@);
        if cell.is_link_hovered || cell.style & UNDERLINE != 0 {
            let fg = effective_colors(cell).0;
            extend_run(&mut runs, k, fg);
        }
        k = k + 1;
    }
    runs
}

} // verus!
