use vstd::prelude::*;
use vstd::utf8::encode_utf8;

use crate::cell::{spec_display_text, Cell, CellView};
use crate::history::row_cells;
use crate::performer::{rows_view, Performer};
use crate::terminal::history_row;
use crate::text::{chars_of, push_bytes, string_from_chars};

verus! {

/// A text selection between two cells, each given as (column, row) with
/// rows counted from the oldest scrollback row.
#[derive(Clone, Copy, Debug, PartialEq, Eq)]
pub struct SelectionRange {
    pub start: (usize, usize),
    pub end: (usize, usize),
}

/// `a` comes no later than `b` when the pairs are compared as tuples.
pub open spec fn pair_le(a: (usize, usize), b: (usize, usize)) -> bool {
    a.0 < b.0 || (a.0 == b.0 && a.1 <= b.1)
}

impl SelectionRange {
    /// The same range with its bounds in tuple order.
    pub fn normalized(self) -> (r: Self)
        ensures
            r == (if pair_le(self.start, self.end) {
                self
            } else {
                SelectionRange { start: self.end, end: self.start }
            }),
    {
        if self.start.0 < self.end.0 || (self.start.0 == self.end.0 && self.start.1 <= self.end.1) {
            self
        } else {
            SelectionRange { start: self.end, end: self.start }
        }
    }
}

/// Law: a normalized range has its bounds in order, holds the same two
/// cells, and normalizing it again changes nothing.
pub proof fn law_normalized(r: SelectionRange)
    ensures
        ({
            let n = if pair_le(r.start, r.end) {
                r
            } else {
                SelectionRange { start: r.end, end: r.start }
            };
            &&& pair_le(n.start, n.end)
            &&& (n.start == r.start && n.end == r.end) || (n.start == r.end && n.end == r.start)
            &&& (if pair_le(n.start, n.end) {
                n
            } else {
                SelectionRange { start: n.end, end: n.start }
            }) == n
        }),
{
}

/// The selection between `start` and `end` with rows clamped to a history
/// of `total_rows` rows, normalized; none without both ends or rows.
pub open spec fn spec_selection_range(
    start: Option<(usize, usize)>,
    end: Option<(usize, usize)>,
    total_rows: nat,
) -> Option<SelectionRange> {
    match (start, end) {
        (Some(s), Some(e)) => if total_rows == 0 {
            None
        } else {
            let c = SelectionRange {
                start: (s.0, if s.1 < total_rows - 1 { s.1 } else { (total_rows - 1) as usize }),
                end: (e.0, if e.1 < total_rows - 1 { e.1 } else { (total_rows - 1) as usize }),
            };
            Some(
                if pair_le(c.start, c.end) {
                    c
                } else {
                    SelectionRange { start: c.end, end: c.start }
                },
            )
        },
        _ => None,
    }
}

/// The current selection range, as the front end keeps it.
pub fn current_selection_range(
    start: Option<(usize, usize)>,
    end: Option<(usize, usize)>,
    total_rows: usize,
) -> (r: Option<SelectionRange>)
    ensures
        r == spec_selection_range(start, end, total_rows as nat),
{
    match (start, end) {
        (Some(s), Some(e)) => {
            if total_rows == 0 {
                return None;
            }
            let last = total_rows - 1;
            let c = SelectionRange {
                start: (s.0, if s.1 < last { s.1 } else { last }),
                end: (e.0, if e.1 < last { e.1 } else { last }),
            };
            Some(c.normalized())
        },
        _ => None,
    }
}

/// The text shown by `cells`, one after another.
pub open spec fn cells_text(cells: Seq<CellView>) -> Seq<char>
    decreases cells.len(),
{
    if cells.len() == 0 {
        Seq::empty()
    } else {
        cells_text(cells.drop_last()) + spec_display_text(cells.last())
    }
}

/// `s` without trailing spaces.
pub open spec fn trim_trailing_spaces(s: Seq<char>) -> Seq<char>
    decreases s.len(),
{
    if s.len() > 0 && s.last() == ' ' {
        trim_trailing_spaces(s.drop_last())
    } else {
        s
    }
}

/// The text of the cells `start..=end` of `row`, trailing spaces dropped.
pub open spec fn spec_line_text(row: Seq<CellView>, start: int, end: int) -> Seq<char> {
    trim_trailing_spaces(cells_text(row.subrange(start, end + 1)))
}

/// Appends the characters of `s` to `out`.
fn push_chars(out: &mut Vec<char>, s: &str)
    ensures
        final(out)@ == old(out)@ + s@,
{
    let piece = chars_of(s);
    let mut k: usize = 0;
    while k < piece.len()
        invariant
            k <= piece@.len(),
            piece@ == s@,
            out@ == old(out)@ + piece@.subrange(0, k as int),
        decreases piece@.len() - k,
    {
        out.push(piece[k]);
        k = k + 1;
        assert(out@ =~= old(out)@ + piece@.subrange(0, k as int));
    }
    assert(piece@.subrange(0, k as int) =~= piece@);
}

/// The text of `v` without trailing spaces.
fn trimmed_trailing_spaces(v: &Vec<char>) -> (r: String)
    ensures
        r@ == trim_trailing_spaces(v@),
{
    let mut n = v.len();
    assert(v@.subrange(0, n as int) =~= v@);
    while n > 0 && v[n - 1] == ' '
        invariant
            n <= v@.len(),
            trim_trailing_spaces(v@) == trim_trailing_spaces(v@.subrange(0, n as int)),
        decreases n,
    {
        assert(v@.subrange(0, n as int).drop_last() =~= v@.subrange(0, n - 1));
        n = n - 1;
    }
    let out = crate::history::slice_chars(v, 0, n);
    string_from_chars(out.as_slice())
}

/// The text of the cells `row_start..=row_end` of a row, without trailing
/// spaces (the trailing halves of wide characters show nothing).
pub fn selection_line_text(row: &Vec<Cell>, row_start: usize, row_end: usize) -> (r: String)
    requires
        row_start <= row_end < row@.len(),
    ensures
        r@ == spec_line_text(row_cells(*row), row_start as int, row_end as int),
{
    let ghost cells = row_cells(*row);
    let len0 = row.len();
    let mut text: Vec<char> = Vec::new();
    let mut i = row_start;
    assert(cells.subrange(row_start as int, row_start as int) =~= Seq::<CellView>::empty());
    while i <= row_end
        invariant
            row_start <= i <= row_end + 1,
            row_end < len0,
            row@.len() == len0,
            cells == row_cells(*row),
            text@ == cells_text(cells.subrange(row_start as int, i as int)),
        decreases row_end + 1 - i,
    {
        push_chars(&mut text, row[i].display_text());
        assert(cells.subrange(row_start as int, i + 1).drop_last() =~= cells.subrange(row_start as int, i as int));
        assert(cells[i as int] == row@[i as int]@);
        i = i + 1;
    }
    trimmed_trailing_spaces(&text)
}

/// Each line of `lines` followed by a newline but the last.
pub open spec fn join_lines(lines: Seq<Seq<char>>) -> Seq<char>
    decreases lines.len(),
{
    if lines.len() == 0 {
        Seq::empty()
    } else if lines.len() == 1 {
        lines[0]
    } else {
        join_lines(lines.drop_last()) + seq!['\n'] + lines.last()
    }
}

/// The text that a selection covers on history row `row` (`abs` its
/// index): the whole row between the first and last selected rows, from
/// the start column on the first row and up to the end column on the last.
pub open spec fn selected_row_text(row: Seq<CellView>, abs: int, r: SelectionRange) -> Seq<char> {
    if row.len() == 0 {
        Seq::empty()
    } else {
        let s = if abs == r.start.1 {
            if r.start.0 < row.len() - 1 { r.start.0 as int } else { row.len() - 1 }
        } else {
            0
        };
        let e = if abs == r.end.1 {
            if r.end.0 < row.len() - 1 { r.end.0 as int } else { row.len() - 1 }
        } else {
            row.len() - 1
        };
        if s > e {
            Seq::empty()
        } else {
            spec_line_text(row, s, e)
        }
    }
}

/// The lines of text that `r` selects from the history `sb` + `grid`.
pub open spec fn selected_lines(sb: Seq<Seq<CellView>>, grid: Seq<Seq<CellView>>, r: SelectionRange) -> Seq<
    Seq<char>,
> {
    let n = if r.end.1 >= r.start.1 {
        r.end.1 - r.start.1 + 1
    } else {
        0
    };
    Seq::new(n as nat, |k: int| selected_row_text(history_row(sb, grid, r.start.1 + k), r.start.1 + k, r))
}

/// The text of the selection between `start` and `end`, lines joined with
/// newlines; none without a selection.
pub fn selected_text(
    performer: &Performer,
    start: Option<(usize, usize)>,
    end: Option<(usize, usize)>,
) -> (r: Option<String>)
    requires
        performer@.scrollback.len() + performer@.grid.len() <= usize::MAX,
    ensures
        match spec_selection_range(start, end, (performer@.scrollback.len() + performer@.grid.len()) as nat) {
            Some(range) => r is Some && r->0@ == join_lines(
                selected_lines(performer@.scrollback, performer@.grid, range),
            ),
            None => r is None,
        },
{
    let sb = performer.scrollback.len();
    let total = sb + performer.grid.len();
    let range = match current_selection_range(start, end, total) {
        Some(r) => r,
        None => {
            return None;
        },
    };
    let ghost lines = selected_lines(performer@.scrollback, performer@.grid, range);
    let mut out: Vec<char> = Vec::new();
    if range.end.1 < range.start.1 {
        assert(lines =~= Seq::<Seq<char>>::empty());
        return Some(string_from_chars(out.as_slice()));
    }
    let mut abs = range.start.1;
    while abs <= range.end.1
        invariant
            range.start.1 <= abs <= range.end.1 + 1,
            range.end.1 < total,
            total == performer@.scrollback.len() + performer@.grid.len(),
            sb == performer@.scrollback.len(),
            lines == selected_lines(performer@.scrollback, performer@.grid, range),
            lines.len() == range.end.1 - range.start.1 + 1,
            out@ == join_lines(lines.subrange(0, abs - range.start.1)),
        decreases range.end.1 + 1 - abs,
    {
        let row: &Vec<Cell> = if abs < sb {
            &performer.scrollback[abs]
        } else {
            &performer.grid[abs - sb]
        };
        let ghost rv = history_row(performer@.scrollback, performer@.grid, abs as int);
        proof {
            if abs < sb {
                assert(rv == rows_view(performer.scrollback@)[abs as int]);
            } else {
                assert(rv == rows_view(performer.grid@)[abs - sb]);
            }
            assert(rv == row_cells(*row));
        }
        let line: Vec<char> = if row.len() == 0 {
            Vec::new()
        } else {
            let last = row.len() - 1;
            let s = if abs == range.start.1 {
                if range.start.0 < last { range.start.0 } else { last }
            } else {
                0
            };
            let e = if abs == range.end.1 {
                if range.end.0 < last { range.end.0 } else { last }
            } else {
                last
            };
            if s > e {
                Vec::new()
            } else {
                let t = selection_line_text(row, s, e);
                chars_of(t.as_str())
            }
        };
        assert(line@ == lines[abs - range.start.1]);
        let ghost before = out@;
        if abs > range.start.1 {
            out.push('\n');
        }
        let mut k: usize = 0;
        let ghost mid = out@;
        while k < line.len()
            invariant
                k <= line@.len(),
                out@ == mid + line@.subrange(0, k as int),
            decreases line@.len() - k,
        {
            out.push(line[k]);
            k = k + 1;
            assert(out@ =~= mid + line@.subrange(0, k as int));
        }
        assert(line@.subrange(0, k as int) =~= line@);
        proof {
            let done = lines.subrange(0, abs + 1 - range.start.1);
            assert(done.drop_last() =~= lines.subrange(0, abs - range.start.1));
            if abs > range.start.1 {
                assert(out@ =~= join_lines(done.drop_last()) + seq!['\n'] + done.last());
            } else {
                assert(out@ =~= done[0]);
            }
        }
        abs = abs + 1;
    }
    assert(lines.subrange(0, lines.len() as int) =~= lines);
    Some(string_from_chars(out.as_slice()))
}

/// Paste text with each CRLF and each lone LF turned into a CR, as a
/// terminal's Enter sends.
pub open spec fn paste_normalize(s: Seq<char>) -> Seq<char>
    decreases s.len(),
{
    if s.len() == 0 {
        Seq::empty()
    } else if s.len() >= 2 && s[0] == '\r' && s[1] == '\n' {
        seq!['\r'] + paste_normalize(s.subrange(2, s.len() as int))
    } else if s[0] == '\n' {
        seq!['\r'] + paste_normalize(s.subrange(1, s.len() as int))
    } else {
        seq![s[0]] + paste_normalize(s.subrange(1, s.len() as int))
    }
}

/// Bytes of `ESC [ 200 ~`, which opens a bracketed paste.
pub open spec fn paste_open() -> Seq<u8> {
    seq![27u8, 91, 50, 48, 48, 126]
}

/// Bytes of `ESC [ 201 ~`, which closes a bracketed paste.
pub open spec fn paste_close() -> Seq<u8> {
    seq![27u8, 91, 50, 48, 49, 126]
}

/// The bytes sent to the PTY for pasted `text`: line ends normalized, and
/// wrapped in the bracketed-paste markers when the application asked for
/// them.
pub fn paste_bytes(text: &str, bracketed: bool) -> (r: Vec<u8>)
    ensures
        r@ == (if bracketed {
            paste_open() + encode_utf8(paste_normalize(text@)) + paste_close()
        } else {
            encode_utf8(paste_normalize(text@))
        }),
{
    let v = chars_of(text);
    let mut out: Vec<char> = Vec::new();
    let mut i: usize = 0;
    assert(v@.subrange(0, v@.len() as int) =~= v@);
    while i < v.len()
        invariant
            i <= v@.len(),
            out@ + paste_normalize(v@.subrange(i as int, v@.len() as int)) == paste_normalize(v@),
        decreases v@.len() - i,
    {
        let ghost rest = v@.subrange(i as int, v@.len() as int);
        if v[i] == '\r' && v.len() - i >= 2 && v[i + 1] == '\n' {
            assert(rest.subrange(2, rest.len() as int) =~= v@.subrange(i + 2, v@.len() as int));
            out.push('\r');
            i = i + 2;
        } else if v[i] == '\n' {
            assert(rest.subrange(1, rest.len() as int) =~= v@.subrange(i + 1, v@.len() as int));
            out.push('\r');
            i = i + 1;
        } else {
            assert(rest.subrange(1, rest.len() as int) =~= v@.subrange(i + 1, v@.len() as int));
            out.push(v[i]);
            i = i + 1;
        }
        assert(out@ + paste_normalize(v@.subrange(i as int, v@.len() as int)) =~= paste_normalize(v@));
    }
    assert(v@.subrange(i as int, v@.len() as int) =~= Seq::<char>::empty());
    assert(out@ =~= paste_normalize(text@));
    let s = string_from_chars(out.as_slice());
    let mut bytes: Vec<u8> = Vec::new();
    if bracketed {
        bytes.push(27);
        bytes.push(91);
        bytes.push(50);
        bytes.push(48);
        bytes.push(48);
        bytes.push(126);
    }
    push_bytes(&mut bytes, s.as_str().as_bytes());
    if bracketed {
        bytes.push(27);
        bytes.push(91);
        bytes.push(50);
        bytes.push(48);
        bytes.push(49);
        bytes.push(126);
    }
    assert(bytes@ =~= (if bracketed {
        paste_open() + encode_utf8(paste_normalize(text@)) + paste_close()
    } else {
        encode_utf8(paste_normalize(text@))
    }));
    bytes
}

/// Law: selecting cells `a..=b` of one history row `y` copies the text of
/// exactly those cells, trailing spaces dropped. When a selection spans
/// several rows, its first row is copied from the start column to the end
/// of the row, and its last row from the start of the row through the end
/// column.
pub proof fn law_selected_text_rows(sb: Seq<Seq<CellView>>, grid: Seq<Seq<CellView>>, a: usize, b: usize, y: usize, r: SelectionRange)
    requires
        a <= b,
        y < sb.len() + grid.len(),
        b < history_row(sb, grid, y as int).len(),
    ensures
        spec_selection_range(Some((a, y)), Some((b, y)), (sb.len() + grid.len()) as nat) == Some(
            SelectionRange { start: (a, y), end: (b, y) },
        ),
        join_lines(selected_lines(sb, grid, SelectionRange { start: (a, y), end: (b, y) }))
            == trim_trailing_spaces(cells_text(history_row(sb, grid, y as int).subrange(a as int, b + 1))),
        r.start.1 < r.end.1 && r.start.0 < history_row(sb, grid, r.start.1 as int).len() ==> selected_lines(sb, grid, r)[0]
            == trim_trailing_spaces(
            cells_text(
                history_row(sb, grid, r.start.1 as int).subrange(
                    r.start.0 as int,
                    history_row(sb, grid, r.start.1 as int).len() as int,
                ),
            ),
        ),
        r.start.1 < r.end.1 && r.end.0 < history_row(sb, grid, r.end.1 as int).len() ==> selected_lines(sb, grid, r)[r.end.1
            - r.start.1] == trim_trailing_spaces(
            cells_text(history_row(sb, grid, r.end.1 as int).subrange(0, r.end.0 + 1)),
        ),
{
    let one = SelectionRange { start: (a, y), end: (b, y) };
    let lines = selected_lines(sb, grid, one);
    assert(lines.len() == 1);
    assert(lines[0] == selected_row_text(history_row(sb, grid, y as int), y as int, one));
}

} // verus!

verus! {

/// Law: pasted text never carries a line feed; every line end becomes a
/// carriage return.
pub proof fn law_paste_has_no_line_feed(s: Seq<char>)
    ensures
        !paste_normalize(s).contains('\n'),
    decreases s.len(),
{
    if s.len() > 0 {
        let rest = if s.len() >= 2 && s[0] == '\r' && s[1] == '\n' {
            s.subrange(2, s.len() as int)
        } else {
            s.subrange(1, s.len() as int)
        };
        law_paste_has_no_line_feed(rest);
        let p = paste_normalize(s);
        let head = if (s.len() >= 2 && s[0] == '\r' && s[1] == '\n') || s[0] == '\n' {
            '\r'
        } else {
            s[0]
        };
        assert(p =~= seq![head] + paste_normalize(rest));
        if s[0] == '\n' {
        }
        assert forall|i: int| 0 <= i < p.len() implies p[i] != '\n' by {
            if i > 0 {
                assert(p[i] == paste_normalize(rest)[i - 1]);
            }
        }
    }
}

/// Law: the text of a selected line never ends in a space.
pub proof fn law_line_text_untrailed(s: Seq<char>)
    ensures
        trim_trailing_spaces(s).len() == 0 || trim_trailing_spaces(s).last() != ' ',
        trim_trailing_spaces(s).len() <= s.len(),
    decreases s.len(),
{
    if s.len() > 0 && s.last() == ' ' {
        law_line_text_untrailed(s.drop_last());
    }
}

} // verus!

verus! {

/// The first cell of the run of cells of class `class` that ends at `s`.
pub open spec fn class_start(row: Seq<CellView>, class: crate::links::CharClass, s: int) -> int
    decreases s,
{
    if s > 0 && crate::links::spec_char_class(crate::links::spec_head_char(row[s - 1])) == class {
        class_start(row, class, s - 1)
    } else {
        s
    }
}

/// The last cell of the run of cells of class `class` that starts at `e`.
pub open spec fn class_end(row: Seq<CellView>, class: crate::links::CharClass, e: int) -> int
    decreases row.len() - e,
{
    if e + 1 < row.len() && crate::links::spec_char_class(crate::links::spec_head_char(row[e + 1])) == class {
        class_end(row, class, e + 1)
    } else {
        e
    }
}

/// The word around column `col` (clamped to the row) that a double click
/// selects: the run of cells whose characters share the clicked one's
/// class.
pub open spec fn spec_word_bounds(row: Seq<CellView>, col: int) -> (int, int) {
    let c = if col < row.len() - 1 {
        col
    } else {
        row.len() - 1
    };
    let class = crate::links::spec_char_class(crate::links::spec_head_char(row[c]));
    (class_start(row, class, c), class_end(row, class, c))
}

/// The first and last column of the word a double click at `col` selects.
pub fn word_bounds(row: &Vec<Cell>, col: usize) -> (r: (usize, usize))
    requires
        row@.len() > 0,
    ensures
        r.0 as int == spec_word_bounds(row_cells(*row), col as int).0,
        r.1 as int == spec_word_bounds(row_cells(*row), col as int).1,
        r.0 <= r.1 < row@.len(),
{
    let ghost cells = row_cells(*row);
    let n = row.len();
    let c = if col < n - 1 {
        col
    } else {
        n - 1
    };
    assert(cells[c as int] == row@[c as int]@);
    let class = crate::links::char_class(crate::links::cell_head_char(&row[c]));
    let mut start = c;
    while start > 0 && crate::links::char_class(crate::links::cell_head_char(&row[start - 1])) == class
        invariant
            start <= c < n,
            n == row@.len(),
            cells == row_cells(*row),
            class_start(cells, class, start as int) == class_start(cells, class, c as int),
        decreases start,
    {
        assert(cells[start - 1] == row@[start - 1]@);
        start = start - 1;
    }
    assert(start > 0 ==> cells[start - 1] == row@[start - 1]@);
    let mut end = c;
    while end + 1 < n && crate::links::char_class(crate::links::cell_head_char(&row[end + 1])) == class
        invariant
            c <= end < n,
            n == row@.len(),
            cells == row_cells(*row),
            class_end(cells, class, end as int) == class_end(cells, class, c as int),
        decreases n - end,
    {
        assert(cells[end + 1] == row@[end + 1]@);
        end = end + 1;
    }
    assert(end + 1 < n ==> cells[end + 1] == row@[end + 1]@);
    (start, end)
}

/// The selection that "select all" makes: from the first cell of the
/// history to the last cell of its last row; none when the history or that
/// row is empty.
pub fn select_all_range(performer: &Performer) -> (r: Option<((usize, usize), (usize, usize))>)
    requires
        performer@.scrollback.len() + performer@.grid.len() <= usize::MAX,
    ensures
        ({
            let total = performer@.scrollback.len() + performer@.grid.len();
            if total == 0 {
                r is None
            } else {
                let last = history_row(performer@.scrollback, performer@.grid, total - 1);
                if last.len() == 0 {
                    r is None
                } else {
                    r == Some(((0usize, 0usize), ((last.len() - 1) as usize, (total - 1) as usize)))
                }
            }
        }),
{
    let sb = performer.scrollback.len();
    let total = sb + performer.grid.len();
    if total == 0 {
        return None;
    }
    let last_row = total - 1;
    let len = if last_row < sb {
        proof {
            assert(rows_view(performer.scrollback@)[last_row as int] == row_cells(performer.scrollback@[last_row as int]));
        }
        performer.scrollback[last_row].len()
    } else {
        proof {
            assert(rows_view(performer.grid@)[last_row - sb] == row_cells(performer.grid@[last_row - sb]));
        }
        performer.grid[last_row - sb].len()
    };
    if len == 0 {
        return None;
    }
    Some(((0, 0), (len - 1, last_row)))
}

/// `row` (history row `abs`) with the cells that `range` covers marked
/// selected.
pub open spec fn spec_mark_selected(row: Seq<CellView>, abs: int, range: SelectionRange) -> Seq<CellView> {
    if row.len() == 0 {
        row
    } else {
        let s = if abs == range.start.1 {
            if range.start.0 < row.len() - 1 { range.start.0 as int } else { row.len() - 1 }
        } else {
            0
        };
        let e = if abs == range.end.1 {
            if range.end.0 < row.len() - 1 { range.end.0 as int } else { row.len() - 1 }
        } else {
            row.len() - 1
        };
        Seq::new(row.len(), |i: int| if s <= i <= e { CellView { is_selected: true, ..row[i] } } else { row[i] })
    }
}

/// Marks the cells of history row `abs` that `range` covers as selected
/// (for drawing).
pub fn mark_selected(row: &mut Vec<Cell>, abs: usize, range: SelectionRange)
    ensures
        row_cells(*final(row)) == spec_mark_selected(row_cells(*old(row)), abs as int, range),
{
    let n = row.len();
    if n == 0 {
        return;
    }
    let ghost r0 = row_cells(*row);
    let s = if abs == range.start.1 {
        if range.start.0 < n - 1 { range.start.0 } else { n - 1 }
    } else {
        0
    };
    let e = if abs == range.end.1 {
        if range.end.0 < n - 1 { range.end.0 } else { n - 1 }
    } else {
        n - 1
    };
    let mut i = s;
    while i <= e && i < n
        invariant
            s <= i,
            i <= e + 1 || i == s,
            e < n,
            row@.len() == n,
            forall|j: int|
                0 <= j < n ==> (#[trigger] row@[j])@ == (if s <= j < i {
                    CellView { is_selected: true, ..r0[j] }
                } else {
                    r0[j]
                }),
        decreases n - i,
    {
        let mut cell = row[i].duplicate();
        cell.is_selected = true;
        row[i] = cell;
        i = i + 1;
    }
    assert forall|j: int| 0 <= j < n implies #[trigger] row_cells(*row)[j] == spec_mark_selected(r0, abs as int, range)[j] by {
        assert(row_cells(*row)[j] == row@[j]@);
    }
    assert(row_cells(*row) =~= spec_mark_selected(r0, abs as int, range));
}

/// `row` with the cells `c0..=c1` (clamped to the row) marked as under the
/// pointer's link.
pub open spec fn spec_mark_hovered(row: Seq<CellView>, c0: int, c1: int) -> Seq<CellView> {
    if row.len() == 0 {
        row
    } else {
        let s = if c0 < row.len() - 1 { c0 } else { row.len() - 1 };
        let e = if c1 < row.len() - 1 { c1 } else { row.len() - 1 };
        Seq::new(row.len(), |i: int| if s <= i <= e { CellView { is_link_hovered: true, ..row[i] } } else { row[i] })
    }
}

/// Marks the cells of the hovered link in `row` for underlining.
pub fn mark_link_hovered(row: &mut Vec<Cell>, c0: usize, c1: usize)
    ensures
        row_cells(*final(row)) == spec_mark_hovered(row_cells(*old(row)), c0 as int, c1 as int),
{
    let n = row.len();
    if n == 0 {
        return;
    }
    let ghost r0 = row_cells(*row);
    let s = if c0 < n - 1 { c0 } else { n - 1 };
    let e = if c1 < n - 1 { c1 } else { n - 1 };
    let mut i = s;
    while i <= e
        invariant
            s <= i,
            i <= e + 1 || i == s,
            e < n,
            row@.len() == n,
            forall|j: int|
                0 <= j < n ==> (#[trigger] row@[j])@ == (if s <= j < i {
                    CellView { is_link_hovered: true, ..r0[j] }
                } else {
                    r0[j]
                }),
        decreases n - i,
    {
        let mut cell = row[i].duplicate();
        cell.is_link_hovered = true;
        row[i] = cell;
        i = i + 1;
    }
    assert forall|j: int| 0 <= j < n implies #[trigger] row_cells(*row)[j] == spec_mark_hovered(r0, c0 as int, c1 as int)[j] by {
        assert(row_cells(*row)[j] == row@[j]@);
    }
    assert(row_cells(*row) =~= spec_mark_hovered(r0, c0 as int, c1 as int));
}

/// The class of the character a cell shows.
pub open spec fn cell_class(cell: CellView) -> crate::links::CharClass {
    crate::links::spec_char_class(crate::links::spec_head_char(cell))
}

proof fn lemma_class_start(row: Seq<CellView>, class: crate::links::CharClass, s: int)
    requires
        0 <= s < row.len(),
    ensures
        0 <= class_start(row, class, s) <= s,
        forall|j: int| class_start(row, class, s) <= j < s ==> cell_class(#[trigger] row[j]) == class,
        class_start(row, class, s) == 0 || cell_class(row[class_start(row, class, s) - 1]) != class,
    decreases s,
{
    if s > 0 && cell_class(row[s - 1]) == class {
        lemma_class_start(row, class, s - 1);
    }
}

proof fn lemma_class_end(row: Seq<CellView>, class: crate::links::CharClass, e: int)
    requires
        0 <= e < row.len(),
    ensures
        e <= class_end(row, class, e) < row.len(),
        forall|j: int| e < j <= class_end(row, class, e) ==> cell_class(#[trigger] row[j]) == class,
        class_end(row, class, e) == row.len() - 1 || cell_class(row[class_end(row, class, e) + 1]) != class,
    decreases row.len() - e,
{
    if e + 1 < row.len() && cell_class(row[e + 1]) == class {
        lemma_class_end(row, class, e + 1);
    }
}

/// Law: a double click at column `col` of a row (the last cell when `col`
/// lies past it) selects the longest run of cells around the clicked one
/// whose characters are of its class (word characters, white space or
/// symbols): the run holds the clicked cell, all its cells share that class,
/// and the cells just outside it, where there are any, do not.
pub proof fn law_word_bounds(row: Seq<CellView>, col: int)
    requires
        row.len() > 0,
        col >= 0,
    ensures
        ({
            let c = if col < row.len() { col } else { row.len() - 1 };
            let (a, b) = spec_word_bounds(row, col);
            &&& 0 <= a <= c <= b < row.len()
            &&& forall|j: int| a <= j <= b ==> cell_class(#[trigger] row[j]) == cell_class(row[c])
            &&& a == 0 || cell_class(row[a - 1]) != cell_class(row[c])
            &&& b == row.len() - 1 || cell_class(row[b + 1]) != cell_class(row[c])
        }),
{
    let c = if col < row.len() - 1 { col } else { row.len() - 1 };
    let class = cell_class(row[c]);
    lemma_class_start(row, class, c);
    lemma_class_end(row, class, c);
}

} // verus!
