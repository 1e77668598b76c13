use vstd::prelude::*;

use crate::cell::Cell;
use crate::history::row_cells;
use crate::performer::model::{MouseMode, PerformerView};
use crate::performer::{rows_view, Performer};
use crate::selection::{spec_word_bounds, word_bounds};
use crate::terminal::history_row;

verus! {

/// How dragging extends a selection.
#[derive(Clone, Copy, PartialEq, Eq, Structural, Debug)]
pub enum SelectionMode {
    /// Cell by cell (single click).
    Char,
    /// Whole words (double click).
    Word,
    /// Whole rows (triple click).
    Line,
}

/// The ends of the selection and the cell a drag extends it from, each
/// (column, row) with rows counted from the oldest scrollback row.
#[derive(Clone, Copy, PartialEq, Eq, Debug)]
pub struct SelectionState {
    pub start: Option<(usize, usize)>,
    pub end: Option<(usize, usize)>,
    pub anchor: Option<(usize, usize)>,
}

/// No selection at all.
pub open spec fn cleared() -> SelectionState {
    SelectionState { start: None, end: None, anchor: None }
}

/// Rows of scrollback plus screen.
pub open spec fn history_len(p: PerformerView) -> int {
    (p.scrollback.len() + p.grid.len()) as int
}

/// Row `abs` of the history of `performer`, when there is one.
fn history_row_ref(performer: &Performer, abs: usize) -> (r: Option<&Vec<Cell>>)
    ensures
        r is Some <==> abs < history_len(performer@),
        r matches Some(row) ==> row_cells(*row) == history_row(performer@.scrollback, performer@.grid, abs as int),
{
    let sb = performer.scrollback.len();
    if abs < sb {
        proof {
            assert(rows_view(performer.scrollback@)[abs as int] == row_cells(performer.scrollback@[abs as int]));
        }
        Some(&performer.scrollback[abs])
    } else if abs - sb < performer.grid.len() {
        proof {
            assert(rows_view(performer.grid@)[abs - sb] == row_cells(performer.grid@[abs - sb]));
        }
        Some(&performer.grid[abs - sb])
    } else {
        None
    }
}

/// `s` after a word is selected at (`col`, `row`): the word's first and
/// last cell, the anchor kept; everything cleared, anchor included, when
/// the row is missing or empty.
pub open spec fn spec_select_word(p: PerformerView, row: usize, col: usize, s: SelectionState) -> SelectionState {
    let cells = history_row(p.scrollback, p.grid, row as int);
    if row < history_len(p) && cells.len() > 0 {
        let b = spec_word_bounds(cells, col as int);
        SelectionState { start: Some((b.0 as usize, row)), end: Some((b.1 as usize, row)), anchor: s.anchor }
    } else {
        cleared()
    }
}

/// Selects the word at (`col`, `row`) of the history.
pub fn select_word(performer: &Performer, row: usize, col: usize, s: SelectionState) -> (r: SelectionState)
    ensures
        r == spec_select_word(performer@, row, col, s),
{
    match history_row_ref(performer, row) {
        Some(cells) => {
            if cells.len() > 0 {
                let (a, b) = word_bounds(cells, col);
                SelectionState { start: Some((a, row)), end: Some((b, row)), anchor: s.anchor }
            } else {
                SelectionState { start: None, end: None, anchor: None }
            }
        },
        None => SelectionState { start: None, end: None, anchor: None },
    }
}

/// `s` after row `row` is selected whole: from its first to its last cell,
/// the anchor kept; the ends cleared when the row is missing or empty.
pub open spec fn spec_select_row(p: PerformerView, row: usize, s: SelectionState) -> SelectionState {
    let cells = history_row(p.scrollback, p.grid, row as int);
    if row < history_len(p) && cells.len() > 0 {
        SelectionState { start: Some((0usize, row)), end: Some(((cells.len() - 1) as usize, row)), anchor: s.anchor }
    } else {
        SelectionState { start: None, end: None, anchor: s.anchor }
    }
}

/// Selects row `row` of the history.
pub fn select_row(performer: &Performer, row: usize, s: SelectionState) -> (r: SelectionState)
    ensures
        r == spec_select_row(performer@, row, s),
{
    match history_row_ref(performer, row) {
        Some(cells) => {
            if cells.len() > 0 {
                SelectionState { start: Some((0, row)), end: Some((cells.len() - 1, row)), anchor: s.anchor }
            } else {
                SelectionState { start: None, end: None, anchor: s.anchor }
            }
        },
        None => SelectionState { start: None, end: None, anchor: s.anchor },
    }
}

/// The click count after a left click: one more, up to three, when the
/// click lands on the row of the previous one soon enough (`soon`), else
/// one.
pub open spec fn spec_click_streak(
    previous: u8,
    last_cell: Option<(usize, usize)>,
    cell: Option<(usize, usize)>,
    soon: bool,
) -> u8 {
    if soon && (last_cell matches Some(l) && (cell matches Some(c) && l.1 == c.1)) {
        if previous >= 2 {
            3
        } else {
            (previous + 1) as u8
        }
    } else {
        1
    }
}

pub fn click_streak(previous: u8, last_cell: Option<(usize, usize)>, cell: Option<(usize, usize)>, soon: bool) -> (r:
    u8)
    ensures
        r == spec_click_streak(previous, last_cell, cell, soon),
{
    let repeat = match (last_cell, cell) {
        (Some(a), Some(b)) => soon && a.1 == b.1,
        _ => false,
    };
    if repeat {
        if previous >= 2 {
            3
        } else {
            previous + 1
        }
    } else {
        1
    }
}

/// What a left click with click count `streak` on `cell` does to the
/// selection: a double click selects the word and drags by words, a
/// triple click the row and drags by rows (the anchor becomes the new
/// start); a single click clears the selection and anchors at the cell.
/// In the alternate screen nothing is selected. Returns the selection, the
/// drag mode and whether a drag is selecting.
pub open spec fn spec_press(
    p: PerformerView,
    streak: u8,
    cell: Option<(usize, usize)>,
    in_alt: bool,
    s: SelectionState,
    selecting: bool,
) -> (SelectionState, SelectionMode, bool) {
    let (t, mode, sel) = if streak == 2 {
        let t = match cell {
            Some(c) => {
                let w = spec_select_word(p, c.1, c.0, s);
                SelectionState { anchor: w.start, ..w }
            },
            None => s,
        };
        (t, SelectionMode::Word, true)
    } else if streak >= 3 {
        let t = match cell {
            Some(c) => {
                let r = spec_select_row(p, c.1, s);
                SelectionState { anchor: r.start, ..r }
            },
            None => s,
        };
        (t, SelectionMode::Line, true)
    } else {
        (SelectionState { start: None, end: None, anchor: cell }, SelectionMode::Char, selecting)
    };
    if in_alt {
        (cleared(), mode, false)
    } else {
        (t, mode, sel)
    }
}

pub fn press_selection(
    performer: &Performer,
    streak: u8,
    cell: Option<(usize, usize)>,
    in_alt: bool,
    s: SelectionState,
    selecting: bool,
) -> (r: (SelectionState, SelectionMode, bool))
    ensures
        r == spec_press(performer@, streak, cell, in_alt, s, selecting),
{
    let (t, mode, sel) = if streak == 2 {
        let t = match cell {
            Some(c) => {
                let w = select_word(performer, c.1, c.0, s);
                SelectionState { start: w.start, end: w.end, anchor: w.start }
            },
            None => s,
        };
        (t, SelectionMode::Word, true)
    } else if streak >= 3 {
        let t = match cell {
            Some(c) => {
                let r = select_row(performer, c.1, s);
                SelectionState { start: r.start, end: r.end, anchor: r.start }
            },
            None => s,
        };
        (t, SelectionMode::Line, true)
    } else {
        (SelectionState { start: None, end: None, anchor: cell }, SelectionMode::Char, selecting)
    };
    if in_alt {
        (SelectionState { start: None, end: None, anchor: None }, mode, false)
    } else {
        (t, mode, sel)
    }
}

/// The selection after the pointer, dragging in `mode`, reaches `cell`:
/// by cells the end follows the pointer; by words the selection runs from
/// the anchor's word to the pointer's word, whichever comes first; by rows
/// from the anchor's row to the pointer's row.
pub open spec fn spec_drag(p: PerformerView, mode: SelectionMode, cell: (usize, usize), s: SelectionState) -> SelectionState {
    match mode {
        SelectionMode::Char => SelectionState { end: Some(cell), ..s },
        SelectionMode::Word => {
            let w = spec_select_word(p, cell.1, cell.0, s);
            match s.anchor {
                Some(a) => {
                    let forward = if cell.1 != a.1 {
                        cell.1 > a.1
                    } else {
                        cell.0 >= a.0
                    };
                    if forward {
                        SelectionState { start: Some(a), ..w }
                    } else {
                        let w2 = spec_select_word(p, a.1, a.0, w);
                        SelectionState { start: w.start, end: w2.end, anchor: w2.anchor }
                    }
                },
                None => w,
            }
        },
        SelectionMode::Line => match s.anchor {
            Some(a) => if cell.1 >= a.1 {
                let r = spec_select_row(p, cell.1, s);
                SelectionState { start: Some((0usize, a.1)), ..r }
            } else {
                let ra = spec_select_row(p, a.1, s);
                let rr = spec_select_row(p, cell.1, ra);
                SelectionState { end: ra.end, ..rr }
            },
            None => s,
        },
    }
}

/// Extends the selection while dragging; the flag tells whether anything
/// may have changed (a cell drag onto the current end changes nothing).
pub fn drag_selection(performer: &Performer, mode: SelectionMode, cell: (usize, usize), s: SelectionState) -> (r: (
    SelectionState,
    bool,
))
    ensures
        r.0 == spec_drag(performer@, mode, cell, s),
        r.1 == (mode != SelectionMode::Char || s.end != Some(cell)),
{
    match mode {
        SelectionMode::Char => {
            let same = match s.end {
                Some(e) => e.0 == cell.0 && e.1 == cell.1,
                None => false,
            };
            (SelectionState { start: s.start, end: Some(cell), anchor: s.anchor }, !same)
        },
        SelectionMode::Word => {
            let w = select_word(performer, cell.1, cell.0, s);
            match s.anchor {
                Some(a) => {
                    let forward = if cell.1 != a.1 {
                        cell.1 > a.1
                    } else {
                        cell.0 >= a.0
                    };
                    if forward {
                        (SelectionState { start: Some(a), end: w.end, anchor: w.anchor }, true)
                    } else {
                        let w2 = select_word(performer, a.1, a.0, w);
                        (SelectionState { start: w.start, end: w2.end, anchor: w2.anchor }, true)
                    }
                },
                None => (w, true),
            }
        },
        SelectionMode::Line => match s.anchor {
            Some(a) => {
                if cell.1 >= a.1 {
                    let r = select_row(performer, cell.1, s);
                    (SelectionState { start: Some((0, a.1)), end: r.end, anchor: r.anchor }, true)
                } else {
                    let ra = select_row(performer, a.1, s);
                    let rr = select_row(performer, cell.1, ra);
                    (SelectionState { start: rr.start, end: ra.end, anchor: rr.anchor }, true)
                }
            },
            None => (s, true),
        },
    }
}

/// Releasing the button ends a drag; a click that never became a cell
/// drag leaves no selection.
pub open spec fn spec_release(mode: SelectionMode, selecting: bool, s: SelectionState) -> SelectionState {
    if mode == SelectionMode::Char && !selecting {
        cleared()
    } else {
        s
    }
}

pub fn release_selection(mode: SelectionMode, selecting: bool, s: SelectionState) -> (r: SelectionState)
    ensures
        r == spec_release(mode, selecting, s),
{
    if mode == SelectionMode::Char && !selecting {
        SelectionState { start: None, end: None, anchor: None }
    } else {
        s
    }
}

/// Law: a single click that is released without a drag leaves no
/// selection, whatever was selected before.
pub proof fn law_plain_click_selects_nothing(
    p: PerformerView,
    cell: Option<(usize, usize)>,
    in_alt: bool,
    s: SelectionState,
)
    ensures
        ({
            let (t, mode, selecting) = spec_press(p, 1, cell, in_alt, s, false);
            spec_release(mode, selecting, t) == cleared()
        }),
{
}

/// A mouse button, as reported to applications.
#[derive(Clone, Copy, PartialEq, Eq, Structural, Debug)]
pub enum PointerButton {
    Left,
    Middle,
    Right,
    Other,
}

/// The button number of the xterm mouse protocol: 0 left, 1 middle,
/// 2 right, 3 any other.
pub open spec fn spec_button_code(b: PointerButton) -> u8 {
    match b {
        PointerButton::Left => 0,
        PointerButton::Middle => 1,
        PointerButton::Right => 2,
        PointerButton::Other => 3,
    }
}

pub fn button_code(b: PointerButton) -> (r: u8)
    ensures
        r == spec_button_code(b),
{
    match b {
        PointerButton::Left => 0,
        PointerButton::Middle => 1,
        PointerButton::Right => 2,
        PointerButton::Other => 3,
    }
}

/// The button number to report for pointer motion, if the application
/// asked for motion: with a button held under button-event tracking, and
/// always under any-event tracking. Motion adds 32 to the button number;
/// motion with no button held reports 3 + 32.
pub open spec fn spec_motion_report(mode: MouseMode, held: Option<PointerButton>) -> Option<u8> {
    let wanted = match mode {
        MouseMode::ButtonEvent => held is Some,
        MouseMode::AnyEvent => true,
        _ => false,
    };
    if wanted {
        Some(
            (32 + match held {
                Some(b) => spec_button_code(b),
                None => 3u8,
            }) as u8,
        )
    } else {
        None
    }
}

pub fn motion_report_button(mode: MouseMode, held: Option<PointerButton>) -> (r: Option<u8>)
    ensures
        r == spec_motion_report(mode, held),
{
    let wanted = match mode {
        MouseMode::ButtonEvent => held.is_some(),
        MouseMode::AnyEvent => true,
        _ => false,
    };
    if wanted {
        let code = match held {
            Some(b) => button_code(b),
            None => 3,
        };
        Some(32 + code)
    } else {
        None
    }
}

/// Law: the click count is 1, 2 or 3. A click that comes too late, or on
/// another row than the last one, or with either cell unknown, starts over
/// at 1; a quick click on the same row counts one more than the last, and
/// stays at 3 from the third on. So three quick clicks on a row count 1, 2,
/// 3.
pub proof fn law_click_streak(previous: u8, last_cell: Option<(usize, usize)>, cell: Option<(usize, usize)>, soon: bool)
    ensures
        1 <= spec_click_streak(previous, last_cell, cell, soon) <= 3,
        !soon || last_cell is None || cell is None ==> spec_click_streak(previous, last_cell, cell, soon) == 1,
        (last_cell matches Some(l) && (cell matches Some(c) && l.1 != c.1)) ==> spec_click_streak(previous, last_cell, cell, soon) == 1,
        soon && (last_cell matches Some(l) && (cell matches Some(c) && l.1 == c.1)) ==> spec_click_streak(
            previous,
            last_cell,
            cell,
            soon,
        ) == (if previous >= 2 { 3 } else { previous + 1 }),
        cell matches Some(c) ==> spec_click_streak(spec_click_streak(spec_click_streak(0, None, cell, true), cell, cell, true), cell, cell, true) == 3
            && spec_click_streak(spec_click_streak(0, None, cell, true), cell, cell, true) == 2
            && spec_click_streak(0, None, cell, true) == 1,
{
}

/// Law: a double click on a cell of a nonempty history row selects, on
/// that row, the word around the cell (as `spec_word_bounds` finds it) and
/// anchors drags at the word's start, dragging by words; a triple click
/// selects that whole row, from its first to its last cell, dragging by
/// rows; in the alternate screen no click selects anything.
pub proof fn law_press_selects(p: PerformerView, streak: u8, col: usize, row: usize, in_alt: bool, s: SelectionState, selecting: bool)
    requires
        row < history_len(p),
        history_row(p.scrollback, p.grid, row as int).len() > 0,
    ensures
        ({
            let cells = history_row(p.scrollback, p.grid, row as int);
            let (t, mode, sel) = spec_press(p, streak, Some((col, row)), in_alt, s, selecting);
            let w = spec_word_bounds(cells, col as int);
            &&& in_alt ==> t == cleared() && !sel
            &&& !in_alt && streak == 2 ==> mode == SelectionMode::Word && sel && t == (SelectionState {
                start: Some((w.0 as usize, row)),
                end: Some((w.1 as usize, row)),
                anchor: Some((w.0 as usize, row)),
            })
            &&& !in_alt && streak >= 3 ==> mode == SelectionMode::Line && sel && t == (SelectionState {
                start: Some((0usize, row)),
                end: Some(((cells.len() - 1) as usize, row)),
                anchor: Some((0usize, row)),
            })
            &&& !in_alt && streak <= 1 ==> mode == SelectionMode::Char && sel == selecting && t == (SelectionState {
                start: None,
                end: None,
                anchor: Some((col, row)),
            })
        }),
{
}

} // verus!
