use vstd::prelude::*;

use crate::color::{default_bg, default_fg, spec_default_bg, spec_default_fg, Color};
use crate::text::char_to_string;

verus! {

/// One screen cell: the grapheme shown there and how it is drawn.
#[derive(Clone, Debug)]
pub struct Cell {
    /// The base character of the grapheme.
    pub c: char,
    /// The whole grapheme cluster (base character and any joined marks).
    pub text: String,
    /// True when this cell is the trailing half of a double-width character.
    pub wide_continuation: bool,
    pub hyperlink: Option<String>,
    pub is_link_hovered: bool,
    pub fg: Color,
    pub bg: Color,
    pub is_selected: bool,
    pub style: u8,
}

/// The mathematical value of a cell.
pub struct CellView {
    pub c: char,
    pub text: Seq<char>,
    pub wide_continuation: bool,
    pub hyperlink: Option<Seq<char>>,
    pub is_link_hovered: bool,
    pub fg: Color,
    pub bg: Color,
    pub is_selected: bool,
    pub style: u8,
}

pub open spec fn opt_text(o: Option<String>) -> Option<Seq<char>> {
    match o {
        Some(s) => Some(s@),
        None => None,
    }
}

impl View for Cell {
    type V = CellView;

    open spec fn view(&self) -> CellView {
        CellView {
            c: self.c,
            text: self.text@,
            wide_continuation: self.wide_continuation,
            hyperlink: opt_text(self.hyperlink),
            is_link_hovered: self.is_link_hovered,
            fg: self.fg,
            bg: self.bg,
            is_selected: self.is_selected,
            style: self.style,
        }
    }
}

/// A space drawn in the given colors, with no style and no link.
pub open spec fn blank_cell(fg: Color, bg: Color) -> CellView {
    CellView {
        c: ' ',
        text: seq![' '],
        wide_continuation: false,
        hyperlink: None,
        is_link_hovered: false,
        fg,
        bg,
        is_selected: false,
        style: 0,
    }
}

/// The text a cell shows: nothing for the trailing half of a wide character.
pub open spec fn spec_display_text(cell: CellView) -> Seq<char> {
    if cell.wide_continuation {
        Seq::empty()
    } else {
        cell.text
    }
}

pub open spec fn spec_is_blank(cell: CellView) -> bool {
    !cell.wide_continuation && cell.text == seq![' ']
}

pub fn clone_opt_string(o: &Option<String>) -> (r: Option<String>)
    ensures
        opt_text(r) == opt_text(*o),
{
    match o {
        Some(s) => Some(s.clone()),
        None => None,
    }
}

impl Cell {
    /// A blank cell in the given colors.
    pub fn blank(fg: Color, bg: Color) -> (r: Cell)
        ensures
            r@ == blank_cell(fg, bg),
    {
        Cell {
            c: ' ',
            text: char_to_string(' '),
            wide_continuation: false,
            hyperlink: None,
            is_link_hovered: false,
            fg,
            bg,
            is_selected: false,
            style: 0,
        }
    }

    /// A copy of this cell.
    pub fn duplicate(&self) -> (r: Cell)
        ensures
            r@ == self@,
    {
        Cell {
            c: self.c,
            text: self.text.clone(),
            wide_continuation: self.wide_continuation,
            hyperlink: clone_opt_string(&self.hyperlink),
            is_link_hovered: self.is_link_hovered,
            fg: self.fg,
            bg: self.bg,
            is_selected: self.is_selected,
            style: self.style,
        }
    }

    /// The text to draw for this cell.
    pub fn display_text(&self) -> (r: &str)
        ensures
            r@ == spec_display_text(self@),
    {
        if self.wide_continuation {
            let e = "";
            proof {
                reveal_strlit("");
            }
            e
        } else {
            self.text.as_str()
        }
    }

    /// Whether this cell holds a plain space.
    pub fn is_blank(&self) -> (r: bool)
        ensures
            r == spec_is_blank(self@),
    {
        let space = char_to_string(' ');
        !self.wide_continuation && self.text == space
    }
}

impl Default for Cell {
    fn default() -> (r: Cell)
        ensures
            r@ == blank_cell(spec_default_fg(), spec_default_bg()),
    {
        Cell::blank(default_fg(), default_bg())
    }
}

/// A row of `n` copies of `cell`.
pub fn repeat_cell(cell: &Cell, n: usize) -> (row: Vec<Cell>)
    ensures
        row@.len() == n,
        forall|i: int| 0 <= i < n ==> (#[trigger] row@[i])@ == cell@,
{
    let mut row: Vec<Cell> = Vec::new();
    let mut i: usize = 0;
    while i < n
        invariant
            i <= n,
            row@.len() == i,
            forall|j: int| 0 <= j < i ==> (#[trigger] row@[j])@ == cell@,
        decreases n - i,
    {
        row.push(cell.duplicate());
        i = i + 1;
    }
    row
}

} // verus!
